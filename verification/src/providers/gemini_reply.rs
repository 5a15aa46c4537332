//! Replies of Gemini.

use crate::chat::{FunctionCall, ToolCall, ToolCallView, calls_view};
use crate::json::{Json, JsonView, Obj, compact, json_compact, no_entries};
use crate::providers::errors::{is_labelled, lemma_labelled};
use crate::providers::stream::{
    Flow, LiveEvent, LiveView, OpenAiStreamState, answer_shown, flow, in_step,
    lemma_pieces_in_step, newer, pick_newer, reasoning_shown, said, show, shown, thought_out,
};
use crate::text::{
    ascii_lower, begins, clone_opt, decimal, decimal_spec, join, joined, lemma_trimmed_edges,
    opt_text, or_empty, owned, problem, same, starts_with, strip_back, strip_front,
    text_or_empty, texts, to_ascii_lower, trim, trim_end_chars, trim_start_chars, trimmed,
};
use vstd::prelude::*;
use vstd::string::*;

verus! {

#[derive(Debug)]
pub struct GeminiFunctionCall {
    pub id: Option<String>,
    pub name: Option<String>,
    pub args: Option<Json>,
}

/// A part of a content.
#[derive(Debug)]
pub struct GeminiPart {
    pub text: Option<String>,
    pub thought: Option<bool>,
    pub thought_signature: Option<String>,
    pub function_call: Option<GeminiFunctionCall>,
}

#[derive(Debug)]
pub struct GeminiContent {
    pub parts: Option<Vec<GeminiPart>>,
}

/// One of the answers that a reply offers.
#[derive(Debug)]
pub struct GeminiCandidate {
    pub content: Option<GeminiContent>,
    pub finish_reason: Option<String>,
}

#[derive(Clone, Copy, Debug, PartialEq, Eq, Structural)]
pub struct GeminiUsage {
    pub prompt_token_count: Option<u64>,
    pub candidates_token_count: Option<u64>,
    pub thoughts_token_count: Option<u64>,
}

#[derive(Debug)]
pub struct GeminiPromptFeedback {
    pub block_reason: Option<String>,
}

#[derive(Debug)]
pub struct GeminiApiError {
    pub code: Option<u16>,
    pub message: Option<String>,
    pub status: Option<String>,
}

/// A reply, or a chunk of one.
#[derive(Debug)]
pub struct GeminiGenerateResponse {
    pub candidates: Option<Vec<GeminiCandidate>>,
    pub usage_metadata: Option<GeminiUsage>,
    pub prompt_feedback: Option<GeminiPromptFeedback>,
    pub error: Option<GeminiApiError>,
}

// ---------------------------------------------------------------------------
// Addresses
// ---------------------------------------------------------------------------

/// The path of a model.
pub open spec fn model_path(model_id: Seq<char>) -> Seq<char> {
    let t = strip_front(trimmed(model_id), "/"@);
    if begins(t, "models/"@) || begins(t, "publishers/"@) {
        t
    } else {
        "models/"@ + t
    }
}

/// The path of a model.
pub fn gemini_model_path(model_id: &str) -> (r: String)
    ensures
        r@ == model_path(model_id@),
{
    let t = trim_start_chars(trim(model_id).as_str(), "/");
    if starts_with(t.as_str(), "models/") || starts_with(t.as_str(), "publishers/") {
        t
    } else {
        let mut r = owned("models/");
        r.append(t.as_str());
        r
    }
}

/// The address of a request.
pub open spec fn generate_url(api_base: Seq<char>, model_id: Seq<char>, stream: bool) -> Seq<char> {
    strip_back(api_base, "/"@) + "/"@ + model_path(model_id) + ":"@ + (if stream {
        "streamGenerateContent?alt=sse"@
    } else {
        "generateContent"@
    })
}

/// The address of a request.
pub fn gemini_generate_url(api_base: &str, model_id: &str, stream: bool) -> (r: String)
    ensures
        r@ == generate_url(api_base@, model_id@, stream),
{
    let mut r = trim_end_chars(api_base, "/");
    r.append("/");
    r.append(gemini_model_path(model_id).as_str());
    r.append(":");
    if stream {
        r.append("streamGenerateContent?alt=sse");
    } else {
        r.append("generateContent");
    }
    r
}

// ---------------------------------------------------------------------------
// Errors and counts
// ---------------------------------------------------------------------------

/// A reason to stop that means that there is no answer, whatever its case.
pub open spec fn is_blocking(reason: Seq<char>) -> bool {
    let r = ascii_lower(trimmed(reason));
    r == "safety"@ || r == "recitation"@ || r == "language"@ || r == "blocklist"@ || r
        == "prohibited_content"@ || r == "spii"@ || r == "image_safety"@ || r
        == "malformed_function_call"@
}

/// Whether a reason to stop means that there is no answer.
pub fn gemini_blocking_finish_reason(reason: &str) -> (r: bool)
    ensures
        r == is_blocking(reason@),
{
    let lower = to_ascii_lower(trim(reason).as_str());
    let t = lower.as_str();
    same(t, "safety") || same(t, "recitation") || same(t, "language") || same(t, "blocklist")
        || same(t, "prohibited_content") || same(t, "spii") || same(t, "image_safety") || same(
        t,
        "malformed_function_call",
    )
}

/// A text as a list, empty where there is no text.
pub open spec fn some_text(o: Option<Seq<char>>) -> Seq<Seq<char>> {
    if o is Some && o->0.len() > 0 {
        seq![o->0]
    } else {
        Seq::empty()
    }
}

/// The details of an error.
pub open spec fn api_error_parts(e: GeminiApiError) -> Seq<Seq<char>> {
    (match e.code {
        Some(c) => seq!["code "@ + decimal_spec(c as nat)],
        None => Seq::empty(),
    }) + some_text(opt_text(e.status)) + some_text(opt_text(e.message))
}

/// The message on an error.
pub open spec fn api_error_text(e: GeminiApiError) -> Seq<char> {
    "Gemini API error: "@ + (if api_error_parts(e).len() == 0 {
        "unknown error"@
    } else {
        joined(api_error_parts(e), ": "@)
    })
}

/// The message on the first candidate from `i` on that was stopped without an
/// answer.
pub open spec fn stopped_candidate(v: Seq<GeminiCandidate>, i: int) -> Option<Seq<char>>
    decreases v.len() - i,
{
    if i < 0 || i >= v.len() {
        None
    } else if v[i].finish_reason is Some && is_blocking(v[i].finish_reason->0@) {
        Some("Gemini stopped generation with finishReason: "@ + v[i].finish_reason->0@)
    } else {
        stopped_candidate(v, i + 1)
    }
}

/// What is wrong with a reply: an error, a blocked prompt or a stopped answer.
pub open spec fn gemini_error(r: GeminiGenerateResponse) -> Option<Seq<char>> {
    if r.error is Some {
        Some(api_error_text(r.error->0))
    } else {
        let blocked = match r.prompt_feedback {
            Some(f) => opt_text(f.block_reason),
            None => None,
        };
        if blocked is Some && blocked->0.len() > 0 {
            Some("Gemini blocked the prompt: "@ + blocked->0)
        } else {
            match r.candidates {
                Some(v) => stopped_candidate(v@, 0),
                None => None,
            }
        }
    }
}

fn push_some_text(out: &mut Vec<String>, o: &Option<String>)
    ensures
        texts(final(out)@) == texts(old(out)@) + some_text(opt_text(*o)),
{
    let ghost start = texts(out@);
    if let Some(s) = o {
        if !s.as_str().is_empty() {
            out.push(s.clone());
            assert(texts(out@) =~= start + seq![s@]);
            return;
        }
    }
    assert(texts(out@) =~= start + some_text(opt_text(*o)));
}

fn api_error_message(e: &GeminiApiError) -> (r: String)
    ensures
        r@ == api_error_text(*e),
{
    let mut parts: Vec<String> = Vec::new();
    if let Some(c) = e.code {
        let mut s = owned("code ");
        s.append(decimal(c as u64).as_str());
        parts.push(s);
    }
    assert(texts(parts@) =~= (match e.code {
        Some(c) => seq!["code "@ + decimal_spec(c as nat)],
        None => Seq::empty(),
    }));
    push_some_text(&mut parts, &e.status);
    push_some_text(&mut parts, &e.message);
    assert(texts(parts@).len() == parts@.len());
    let mut r = owned("Gemini API error: ");
    if parts.len() == 0 {
        r.append("unknown error");
    } else {
        r.append(join(&parts, ": ").as_str());
    }
    r
}

fn find_stopped(v: &Vec<GeminiCandidate>) -> (r: Option<String>)
    ensures
        opt_text(r) == stopped_candidate(v@, 0),
{
    let mut i: usize = 0;
    while i < v.len()
        invariant
            i <= v@.len(),
            stopped_candidate(v@, 0) == stopped_candidate(v@, i as int),
        decreases v@.len() - i,
    {
        if let Some(reason) = &v[i].finish_reason {
            if gemini_blocking_finish_reason(reason.as_str()) {
                let mut r = owned("Gemini stopped generation with finishReason: ");
                r.append(reason.as_str());
                return Some(r);
            }
        }
        i = i + 1;
    }
    None
}

/// What is wrong with a reply.
pub fn gemini_response_error(response: &GeminiGenerateResponse) -> (r: Option<String>)
    ensures
        opt_text(r) == gemini_error(*response),
{
    if let Some(e) = &response.error {
        return Some(api_error_message(e));
    }
    if let Some(f) = &response.prompt_feedback {
        if let Some(reason) = &f.block_reason {
            if !reason.as_str().is_empty() {
                let mut r = owned("Gemini blocked the prompt: ");
                r.append(reason.as_str());
                return Some(r);
            }
        }
    }
    match &response.candidates {
        Some(v) => find_stopped(v),
        None => None,
    }
}

/// The counts of a reply can be added.
pub open spec fn usage_fits(u: Option<GeminiUsage>) -> bool {
    match u {
        Some(x) => x.candidates_token_count is Some && x.thoughts_token_count is Some
            ==> x.candidates_token_count->0 + x.thoughts_token_count->0 <= u64::MAX,
        None => true,
    }
}

/// What went in and what came out: answers and thoughts together.
pub open spec fn usage_pair(u: Option<GeminiUsage>) -> (Option<u64>, Option<u64>) {
    match u {
        None => (None, None),
        Some(x) => (
            x.prompt_token_count,
            match (x.candidates_token_count, x.thoughts_token_count) {
                (Some(a), Some(b)) => Some((a + b) as u64),
                (Some(a), None) => Some(a),
                (None, Some(b)) => Some(b),
                (None, None) => None,
            },
        ),
    }
}

/// What went in and what came out.
pub fn gemini_usage_pair(usage: Option<GeminiUsage>) -> (r: (Option<u64>, Option<u64>))
    requires
        usage_fits(usage),
    ensures
        r == usage_pair(usage),
{
    match usage {
        None => (None, None),
        Some(x) => {
            let output: Option<u64> = match (x.candidates_token_count, x.thoughts_token_count) {
                (Some(a), Some(b)) => Some(a + b),
                (Some(a), None) => Some(a),
                (None, Some(b)) => Some(b),
                (None, None) => None,
            };
            (x.prompt_token_count, output)
        },
    }
}

// ---------------------------------------------------------------------------
// Streams
// ---------------------------------------------------------------------------

/// A piece of reasoning arrives. It is kept whether or not somebody looks.
pub open spec fn gemini_thought(f: Flow, text: Seq<char>) -> Flow {
    let g = if !f.reasoning_started && !f.client_gone {
        shown(Flow { reasoning_started: true, ..f }, LiveView::ThinkingStart)
    } else {
        f
    };
    shown(Flow { thinking: g.thinking + text, ..g }, LiveView::ThinkingDelta(text))
}

/// The call that a part asks for, as the `n`-th of the reply.
pub open spec fn gemini_call(
    c: GeminiFunctionCall,
    signature: Option<Seq<char>>,
    n: nat,
) -> ToolCallView {
    ToolCallView {
        id: if c.id is Some && trimmed(c.id->0@).len() > 0 {
            c.id->0@
        } else {
            "gemini_call_"@ + decimal_spec(n)
        },
        call_type: "function"@,
        gemini_thought_signature: signature,
        name: or_empty(opt_text(c.name)),
        arguments: json_compact(
            match c.args {
                Some(a) => a@,
                None => JsonView::Object(no_entries()),
            },
        ),
    }
}

/// The flow after a part.
pub open spec fn after_part(f: Flow, p: GeminiPart) -> Flow {
    let text = or_empty(opt_text(p.text));
    let g = if text.len() == 0 {
        f
    } else if p.thought == Some(true) {
        gemini_thought(f, text)
    } else {
        said(thought_out(f), text)
    };
    match p.function_call {
        Some(c) => {
            let h = thought_out(g);
            Flow {
                tool_calls: h.tool_calls.push(
                    gemini_call(c, opt_text(p.thought_signature), h.tool_calls.len() + 1),
                ),
                ..h
            }
        },
        None => g,
    }
}

/// The flow after the first `n` parts.
pub open spec fn after_parts(f: Flow, v: Seq<GeminiPart>, n: int) -> Flow
    decreases n,
{
    if n <= 0 {
        f
    } else {
        after_part(after_parts(f, v, n - 1), v[n - 1])
    }
}

/// The flow after a candidate.
pub open spec fn after_candidate(f: Flow, c: GeminiCandidate) -> Flow {
    match c.content {
        Some(content) => match content.parts {
            Some(v) => after_parts(f, v@, v@.len() as int),
            None => f,
        },
        None => f,
    }
}

/// The flow after the first `n` candidates.
pub open spec fn after_candidates(f: Flow, v: Seq<GeminiCandidate>, n: int) -> Flow
    decreases n,
{
    if n <= 0 {
        f
    } else {
        after_candidate(after_candidates(f, v, n - 1), v[n - 1])
    }
}

/// The flow after a chunk without an error.
pub open spec fn after_gemini_chunk(f: Flow, c: GeminiGenerateResponse) -> Flow {
    let (input, output) = usage_pair(c.usage_metadata);
    let g = Flow {
        input_tokens: newer(input, f.input_tokens),
        output_tokens: newer(output, f.output_tokens),
        ..f
    };
    match c.candidates {
        Some(v) => after_candidates(g, v@, v@.len() as int),
        None => g,
    }
}

fn gemini_think(state: &mut OpenAiStreamState, text: &str, live: &mut Vec<LiveEvent>)
    ensures
        flow(*final(state), final(live)@) == gemini_thought(flow(*old(state), old(live)@), text@),
{
    if !state.reasoning_started && !state.client_gone {
        state.reasoning_started = true;
        show(live, false, LiveEvent::ThinkingStart);
    }
    state.thinking_buf.append(text);
    show(live, state.client_gone, LiveEvent::ThinkingDelta(owned(text)));
}

fn gemini_call_of(c: &GeminiFunctionCall, signature: &Option<String>, n: usize) -> (r: ToolCall)
    requires
        n < usize::MAX,
    ensures
        r@ == gemini_call(*c, opt_text(*signature), (n + 1) as nat),
{
    let mut id = text_or_empty(&c.id);
    if trim(id.as_str()).as_str().is_empty() {
        proof {
            lemma_trimmed_empty();
        }
        id = owned("gemini_call_");
        id.append(decimal(n as u64 + 1).as_str());
    }
    let arguments = match &c.args {
        Some(a) => compact(a),
        None => compact(&Obj::new().done()),
    };
    ToolCall {
        id,
        call_type: owned("function"),
        gemini_thought_signature: clone_opt(signature),
        function: FunctionCall { name: text_or_empty(&c.name), arguments },
    }
}

proof fn lemma_trimmed_empty()
    ensures
        trimmed(Seq::<char>::empty()).len() == 0,
{
    lemma_trimmed_edges(Seq::empty());
}

fn take_part(state: &mut OpenAiStreamState, p: &GeminiPart, live: &mut Vec<LiveEvent>)
    requires
        old(state).tool_calls@.len() < usize::MAX,
    ensures
        flow(*final(state), final(live)@) == after_part(flow(*old(state), old(live)@), *p),
        final(state).tool_calls@.len() <= old(state).tool_calls@.len() + 1,
{
    proof {
        assert(calls_view(state.tool_calls@).len() == state.tool_calls@.len());
    }
    let text = text_or_empty(&p.text);
    if !text.as_str().is_empty() {
        if matches!(p.thought, Some(true)) {
            gemini_think(state, text.as_str(), live);
        } else {
            state.stop_thinking(live);
            state.say(text.as_str(), live);
        }
    }
    assert(calls_view(state.tool_calls@) == calls_view(old(state).tool_calls@));
    assert(calls_view(state.tool_calls@).len() == state.tool_calls@.len());
    if let Some(c) = &p.function_call {
        state.stop_thinking(live);
        assert(calls_view(state.tool_calls@) == calls_view(old(state).tool_calls@));
        assert(calls_view(state.tool_calls@).len() == state.tool_calls@.len());
        let call = gemini_call_of(c, &p.thought_signature, state.tool_calls.len());
        let ghost before = calls_view(state.tool_calls@);
        let ghost view = call@;
        state.tool_calls.push(call);
        assert(calls_view(state.tool_calls@) =~= before.push(view));
    }
}

/// The number of parts of the first `n` candidates.
pub open spec fn part_count(v: Seq<GeminiCandidate>, n: int) -> nat
    decreases n,
{
    if n <= 0 {
        0
    } else {
        part_count(v, n - 1) + candidate_parts(v[n - 1])
    }
}

/// The number of parts of a candidate.
pub open spec fn candidate_parts(c: GeminiCandidate) -> nat {
    match c.content {
        Some(content) => match content.parts {
            Some(v) => v@.len(),
            None => 0,
        },
        None => 0,
    }
}

proof fn lemma_part_count(v: Seq<GeminiCandidate>, n: int, k: int)
    requires
        0 <= n <= k,
    ensures
        part_count(v, n) <= part_count(v, k),
    decreases k,
{
    if n < k {
        lemma_part_count(v, n, k - 1);
    }
}

fn take_candidate(state: &mut OpenAiStreamState, c: &GeminiCandidate, live: &mut Vec<LiveEvent>)
    requires
        old(state).tool_calls@.len() + candidate_parts(*c) <= usize::MAX,
    ensures
        flow(*final(state), final(live)@) == after_candidate(flow(*old(state), old(live)@), *c),
        final(state).tool_calls@.len() <= old(state).tool_calls@.len() + candidate_parts(*c),
{
    if let Some(content) = &c.content {
        if let Some(v) = &content.parts {
            let ghost start = flow(*state, live@);
            let ghost base = state.tool_calls@.len();
            let mut n: usize = 0;
            while n < v.len()
                invariant
                    n <= v@.len(),
                    base + v@.len() <= usize::MAX,
                    state.tool_calls@.len() <= base + n,
                    flow(*state, live@) == after_parts(start, v@, n as int),
                decreases v@.len() - n,
            {
                take_part(state, &v[n], live);
                n = n + 1;
            }
        }
    }
}

fn take_candidates(
    state: &mut OpenAiStreamState,
    v: &Vec<GeminiCandidate>,
    live: &mut Vec<LiveEvent>,
)
    requires
        old(state).tool_calls@.len() + part_count(v@, v@.len() as int) <= usize::MAX,
    ensures
        flow(*final(state), final(live)@) == after_candidates(
            flow(*old(state), old(live)@),
            v@,
            v@.len() as int,
        ),
{
    let ghost start = flow(*state, live@);
    let ghost base = state.tool_calls@.len();
    let mut n: usize = 0;
    while n < v.len()
        invariant
            n <= v@.len(),
            base + part_count(v@, v@.len() as int) <= usize::MAX,
            state.tool_calls@.len() <= base + part_count(v@, n as int),
            flow(*state, live@) == after_candidates(start, v@, n as int),
        decreases v@.len() - n,
    {
        proof {
            lemma_part_count(v@, n + 1, v@.len() as int);
        }
        take_candidate(state, &v[n], live);
        n = n + 1;
    }
}

/// The parts of a reply can be counted.
pub open spec fn parts_fit(calls: nat, c: GeminiGenerateResponse) -> bool {
    match c.candidates {
        Some(v) => calls + part_count(v@, v@.len() as int) <= usize::MAX,
        None => true,
    }
}

/// Takes the data of a line of Gemini's stream, given as the chunk that it was
/// read as. A chunk with an error adds nothing.
pub fn process_gemini_data_line(
    parsed: Option<&GeminiGenerateResponse>,
    state: &mut OpenAiStreamState,
    live: &mut Vec<LiveEvent>,
) -> (r: Result<(), String>)
    requires
        parsed is Some ==> usage_fits(parsed->0.usage_metadata) && parts_fit(
            old(state).tool_calls@.len(),
            *parsed->0,
        ),
    ensures
        problem(r) == (match parsed {
            Some(c) => gemini_error(*c),
            None => None,
        }),
        flow(*final(state), final(live)@) == (if parsed is Some && r is Ok {
            after_gemini_chunk(flow(*old(state), old(live)@), *parsed->0)
        } else {
            flow(*old(state), old(live)@)
        }),
{
    let chunk = match parsed {
        Some(c) => c,
        None => {
            return Ok(());
        },
    };
    if let Some(e) = gemini_response_error(chunk) {
        return Err(e);
    }
    let (input, output) = gemini_usage_pair(chunk.usage_metadata);
    state.input_tokens = pick_newer(input, state.input_tokens);
    state.output_tokens = pick_newer(output, state.output_tokens);
    if let Some(v) = &chunk.candidates {
        take_candidates(state, v, live);
    }
    Ok(())
}

// ---------------------------------------------------------------------------
// Whole replies
// ---------------------------------------------------------------------------

/// The texts of the first `n` parts in one.
pub open spec fn parts_text(v: Seq<GeminiPart>, n: int) -> Seq<char>
    decreases n,
{
    if n <= 0 {
        Seq::empty()
    } else {
        parts_text(v, n - 1) + or_empty(opt_text(v[n - 1].text))
    }
}

/// The text of the first candidate.
pub open spec fn gemini_text(r: GeminiGenerateResponse) -> Seq<char> {
    match r.candidates {
        Some(v) => if v@.len() > 0 {
            match v@[0].content {
                Some(content) => match content.parts {
                    Some(parts) => parts_text(parts@, parts@.len() as int),
                    None => Seq::empty(),
                },
                None => Seq::empty(),
            }
        } else {
            Seq::empty()
        },
        None => Seq::empty(),
    }
}

/// The text of the first candidate of a reply.
pub fn gemini_reply_text(response: &GeminiGenerateResponse) -> (r: String)
    ensures
        r@ == gemini_text(*response),
{
    let mut out = String::new();
    if let Some(v) = &response.candidates {
        if v.len() > 0 {
            if let Some(content) = &v[0].content {
                if let Some(parts) = &content.parts {
                    let mut n: usize = 0;
                    while n < parts.len()
                        invariant
                            n <= parts@.len(),
                            out@ == parts_text(parts@, n as int),
                        decreases parts@.len() - n,
                    {
                        out.append(text_or_empty(&parts[n].text).as_str());
                        n = n + 1;
                    }
                }
            }
        }
    }
    out
}

proof fn lemma_part_in_step(f: Flow, p: GeminiPart)
    requires
        in_step(f),
    ensures
        in_step(after_part(f, p)),
{
    let text = or_empty(opt_text(p.text));
    let started = f.live.push(LiveView::ThinkingStart);
    let thinking = LiveView::ThinkingDelta(text);
    assert(started.drop_last() =~= f.live);
    assert(answer_shown(started) == answer_shown(f.live));
    assert(reasoning_shown(started) == reasoning_shown(f.live));
    assert(started.push(thinking).drop_last() =~= started);
    assert(f.live.push(thinking).drop_last() =~= f.live);
    lemma_pieces_in_step(f, text);
    lemma_pieces_in_step(thought_out(f), text);
    let g = if text.len() == 0 {
        f
    } else if p.thought == Some(true) {
        gemini_thought(f, text)
    } else {
        said(thought_out(f), text)
    };
    assert(in_step(g));
    lemma_pieces_in_step(g, text);
}

proof fn lemma_parts_in_step(f: Flow, v: Seq<GeminiPart>, n: int)
    requires
        in_step(f),
    ensures
        in_step(after_parts(f, v, n)),
    decreases n,
{
    if n > 0 {
        lemma_parts_in_step(f, v, n - 1);
        lemma_part_in_step(after_parts(f, v, n - 1), v[n - 1]);
    }
}

proof fn lemma_candidates_in_step(f: Flow, v: Seq<GeminiCandidate>, n: int)
    requires
        in_step(f),
    ensures
        in_step(after_candidates(f, v, n)),
    decreases n,
{
    if n > 0 {
        lemma_candidates_in_step(f, v, n - 1);
        if let Some(content) = v[n - 1].content {
            if let Some(parts) = content.parts {
                lemma_parts_in_step(after_candidates(f, v, n - 1), parts@, parts@.len() as int);
            }
        }
    }
}

/// From chunk to chunk of Gemini's stream, what the user is shown is what the
/// reply holds.
pub proof fn law_gemini_reply_is_shown(f: Flow, c: GeminiGenerateResponse)
    requires
        in_step(f),
    ensures
        in_step(after_gemini_chunk(f, c)),
{
    let (input, output) = usage_pair(c.usage_metadata);
    let g = Flow {
        input_tokens: newer(input, f.input_tokens),
        output_tokens: newer(output, f.output_tokens),
        ..f
    };
    if let Some(v) = c.candidates {
        lemma_candidates_in_step(g, v@, v@.len() as int);
    }
}

proof fn lemma_stopped_labelled(v: Seq<GeminiCandidate>, i: int)
    ensures
        stopped_candidate(v, i) matches Some(e) ==> is_labelled(e),
    decreases v.len() - i,
{
    if 0 <= i < v.len() {
        lemma_stopped_labelled(v, i + 1);
        if v[i].finish_reason is Some {
            let reason = v[i].finish_reason->0@;
            let words = "Gemini stopped generation with finishReason: "@;
            reveal_strlit("Gemini");
            reveal_strlit("Gemini stopped generation with finishReason: ");
            assert(words + reason =~= "Gemini"@ + (words.skip(6) + reason));
            lemma_labelled("Gemini"@, words.skip(6) + reason);
        }
    }
}

/// Whatever Gemini reports, the message on it is labelled.
pub proof fn law_gemini_errors_are_labelled(r: GeminiGenerateResponse)
    ensures
        gemini_error(r) matches Some(e) ==> is_labelled(e),
{
    reveal_strlit("Gemini");
    reveal_strlit("Gemini API error: ");
    reveal_strlit("Gemini blocked the prompt: ");
    if r.error is Some {
        let parts = api_error_parts(r.error->0);
        let detail = if parts.len() == 0 {
            "unknown error"@
        } else {
            joined(parts, ": "@)
        };
        let words = "Gemini API error: "@;
        assert(words + detail =~= "Gemini"@ + (words.skip(6) + detail));
        lemma_labelled("Gemini"@, words.skip(6) + detail);
    } else if r.prompt_feedback is Some && opt_text((r.prompt_feedback->0).block_reason) is Some {
        let reason = opt_text((r.prompt_feedback->0).block_reason)->0;
        let words = "Gemini blocked the prompt: "@;
        assert(words + reason =~= "Gemini"@ + (words.skip(6) + reason));
        lemma_labelled("Gemini"@, words.skip(6) + reason);
    }
    if r.candidates is Some {
        lemma_stopped_labelled((r.candidates->0)@, 0);
    }
}

} // verus!
