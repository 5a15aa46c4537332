//! Replies that arrive piece by piece: what each piece adds, and what the user
//! is shown of it at once.

use crate::chat::{FunctionCall, ToolCall, ToolCallView, calls_view};
use crate::json::{
    Json, JsonView, compact, json_compact, json_text, make1, make2, object1, object2,
};
use crate::text::{
    begins, chars_of, decimal, decimal_spec, first_pos, lemma_first_pos, opt_text, or_empty,
    owned, same, starts_with, strip_prefix, text_between, text_or_empty, texts, trim, trimmed,
};
use vstd::prelude::*;
use vstd::string::*;

verus! {

// ---------------------------------------------------------------------------
// Lines
// ---------------------------------------------------------------------------

/// The pieces of `s` between line feeds, at least one.
pub open spec fn split_lines(s: Seq<char>) -> Seq<Seq<char>>
    decreases s.len(),
{
    let k = first_pos(s, '\n');
    if k >= s.len() {
        seq![s]
    } else {
        seq![s.take(k as int)] + split_lines(s.skip(k as int + 1))
    }
}

/// Takes a chunk of a stream and hands out the lines that are complete; what
/// follows the last line feed waits for the next chunk.
pub fn drain_sse_lines(partial_buf: &mut String, chunk: &str) -> (r: Vec<String>)
    ensures
        texts(r@).push(final(partial_buf)@) == split_lines(old(partial_buf)@ + chunk@),
{
    let mut whole = partial_buf.clone();
    whole.append(chunk);
    let v = chars_of(whole.as_str());
    let ghost all = whole@;
    let mut out: Vec<String> = Vec::new();
    let mut start: usize = 0;
    let mut i: usize = 0;
    assert(all.skip(0) =~= all);
    assert(texts(out@) + split_lines(all.skip(0)) =~= split_lines(all));
    while i < v.len()
        invariant
            v@ == all,
            start <= i <= v@.len(),
            forall|k: int| start <= k < i ==> v@[k] != '\n',
            texts(out@) + split_lines(all.skip(start as int)) == split_lines(all),
        decreases v@.len() - i,
    {
        let c: char = v[i];
        if c == '\n' {
            let ghost rest = all.skip(start as int);
            let ghost before = texts(out@);
            let line = text_between(&v, start, i);
            proof {
                lemma_first_pos_at(rest, '\n', i - start);
                assert(rest.take(i - start) =~= all.subrange(start as int, i as int));
                assert(rest.skip(i - start + 1) =~= all.skip(i + 1));
            }
            let ghost view = line@;
            out.push(line);
            assert(texts(out@) =~= before.push(view));
            assert(texts(out@) + split_lines(all.skip(i + 1)) =~= before + (seq![view]
                + split_lines(all.skip(i + 1))));
            start = i + 1;
        }
        i = i + 1;
    }
    let ghost rest = all.skip(start as int);
    let left = text_between(&v, start, v.len());
    proof {
        lemma_first_pos_none(rest, '\n');
        assert(rest =~= all.subrange(start as int, all.len() as int));
        assert(split_lines(rest) == seq![rest]);
        assert(texts(out@) + seq![rest] =~= texts(out@).push(rest));
    }
    *partial_buf = left;
    out
}

proof fn lemma_first_pos_at(s: Seq<char>, c: char, k: int)
    requires
        0 <= k < s.len(),
        s[k] == c,
        forall|i: int| 0 <= i < k ==> s[i] != c,
    ensures
        first_pos(s, c) == k,
    decreases k,
{
    if k > 0 {
        assert forall|i: int| 0 <= i < k - 1 implies s.skip(1)[i] != c by {
            assert(s[i + 1] != c);
        }
        lemma_first_pos_at(s.skip(1), c, k - 1);
    }
}

proof fn lemma_first_pos_none(s: Seq<char>, c: char)
    requires
        forall|i: int| 0 <= i < s.len() ==> s[i] != c,
    ensures
        first_pos(s, c) == s.len(),
    decreases s.len(),
{
    if s.len() > 0 {
        assert forall|i: int| 0 <= i < s.skip(1).len() implies s.skip(1)[i] != c by {
            assert(s[i + 1] != c);
        }
        lemma_first_pos_none(s.skip(1), c);
    }
}

proof fn lemma_no_feed(s: Seq<char>)
    ensures
        split_lines(s).len() >= 1,
        first_pos(split_lines(s).last(), '\n') >= split_lines(s).last().len(),
    decreases s.len(),
{
    lemma_first_pos(s, '\n');
    let k = first_pos(s, '\n');
    if k < s.len() {
        let rest = s.skip(k as int + 1);
        lemma_no_feed(rest);
        let all = split_lines(s);
        assert(all.last() == split_lines(rest).last());
    }
}

proof fn lemma_split_concat(a: Seq<char>, b: Seq<char>)
    ensures
        split_lines(a + b) == split_lines(a).drop_last() + split_lines(split_lines(a).last() + b),
    decreases a.len(),
{
    lemma_first_pos(a, '\n');
    lemma_no_feed(a);
    let k = first_pos(a, '\n');
    let n = split_lines(a).len() as int;
    if k >= a.len() {
        assert(split_lines(a).drop_last() =~= Seq::<Seq<char>>::empty());
        assert(split_lines(a).last() == a);
        assert(split_lines(a + b) =~= split_lines(a).drop_last() + split_lines(
            split_lines(a).last() + b,
        ));
    } else {
        let rest = a.skip(k as int + 1);
        lemma_split_concat(rest, b);
        lemma_no_feed(rest);
        let whole = a + b;
        assert forall|i: int| 0 <= i < k implies whole[i] != '\n' by {
            assert(whole[i] == a[i]);
        }
        assert(whole[k as int] == a[k as int]);
        lemma_first_pos_at(whole, '\n', k as int);
        assert(whole.take(k as int) =~= a.take(k as int));
        assert(whole.skip(k as int + 1) =~= rest + b);
        assert(split_lines(a).last() == split_lines(rest).last());
        assert(split_lines(a).drop_last() =~= seq![a.take(k as int)] + split_lines(
            rest,
        ).drop_last());
        assert(split_lines(whole) =~= split_lines(a).drop_last() + split_lines(
            split_lines(a).last() + b,
        ));
    }
}

/// A stream is cut into the same lines however its chunks fall: taking two
/// chunks one after the other gives the lines of the two in one.
pub proof fn law_chunks_do_not_matter(partial: Seq<char>, a: Seq<char>, b: Seq<char>)
    ensures
        ({
            let first = split_lines(partial + a);
            let second = split_lines(first.last() + b);
            first.drop_last() + second == split_lines(partial + (a + b))
        }),
{
    lemma_split_concat(partial + a, b);
    assert((partial + a) + b =~= partial + (a + b));
}

/// The data of a line of a stream of events: nothing for blank lines, comments
/// and other fields.
pub open spec fn event_data(line: Seq<char>) -> Option<Seq<char>> {
    let t = trimmed(line);
    if t.len() == 0 || begins(t, ":"@) || !begins(t, "data: "@) {
        None
    } else {
        Some(trimmed(t.skip("data: "@.len() as int)))
    }
}

/// The data of a line of a stream of events.
pub fn sse_data(line: &str) -> (r: Option<String>)
    ensures
        opt_text(r) == event_data(line@),
{
    let t = trim(line);
    if t.as_str().is_empty() || starts_with(t.as_str(), ":") {
        return None;
    }
    match strip_prefix(t.as_str(), "data: ") {
        Some(d) => Some(trim(d.as_str())),
        None => None,
    }
}

// ---------------------------------------------------------------------------
// What the user is shown at once
// ---------------------------------------------------------------------------

/// Something to show at once.
#[derive(Debug, PartialEq, Eq)]
pub enum LiveEvent {
    ThinkingStart,
    ThinkingDelta(String),
    ThinkingDone,
    Delta(String),
}

/// Something to show at once, by its view.
pub enum LiveView {
    ThinkingStart,
    ThinkingDelta(Seq<char>),
    ThinkingDone,
    Delta(Seq<char>),
}

impl LiveEvent {
    pub open spec fn view(self) -> LiveView {
        match self {
            LiveEvent::ThinkingStart => LiveView::ThinkingStart,
            LiveEvent::ThinkingDelta(s) => LiveView::ThinkingDelta(s@),
            LiveEvent::ThinkingDone => LiveView::ThinkingDone,
            LiveEvent::Delta(s) => LiveView::Delta(s@),
        }
    }

    /// The event as it is sent.
    pub fn to_json(&self) -> (r: Json)
        ensures
            r@ == live_json(self@),
    {
        match self {
            LiveEvent::ThinkingStart => make1("type", json_text("thinking_start")),
            LiveEvent::ThinkingDelta(s) => make2(
                "type",
                json_text("thinking_delta"),
                "content",
                json_text(s.as_str()),
            ),
            LiveEvent::ThinkingDone => make1("type", json_text("thinking_done")),
            LiveEvent::Delta(s) => make2(
                "type",
                json_text("delta"),
                "content",
                json_text(s.as_str()),
            ),
        }
    }
}

/// The event as it is sent.
pub open spec fn live_json(e: LiveView) -> JsonView {
    match e {
        LiveView::ThinkingStart => object1("type"@, JsonView::Text("thinking_start"@)),
        LiveView::ThinkingDelta(s) => object2(
            "type"@,
            JsonView::Text("thinking_delta"@),
            "content"@,
            JsonView::Text(s),
        ),
        LiveView::ThinkingDone => object1("type"@, JsonView::Text("thinking_done"@)),
        LiveView::Delta(s) => object2(
            "type"@,
            JsonView::Text("delta"@),
            "content"@,
            JsonView::Text(s),
        ),
    }
}

pub open spec fn live_view(v: Seq<LiveEvent>) -> Seq<LiveView> {
    v.map_values(|e: LiveEvent| e@)
}

// ---------------------------------------------------------------------------
// What has been collected
// ---------------------------------------------------------------------------

/// What has been collected of a reply. Events to show are handed out in order;
/// whoever delivers them drops the rest and sets `client_gone` as soon as one
/// cannot be delivered, and then nothing more is handed out.
#[derive(Debug, PartialEq, Eq)]
pub struct OpenAiStreamState {
    pub content_buf: String,
    pub thinking_buf: String,
    pub tool_calls: Vec<ToolCall>,
    pub input_tokens: Option<u64>,
    pub output_tokens: Option<u64>,
    pub client_gone: bool,
    pub reasoning_started: bool,
}

/// What has been collected of a reply, with the events to show.
#[verifier::ext_equal]
pub struct Flow {
    pub content: Seq<char>,
    pub thinking: Seq<char>,
    pub tool_calls: Seq<ToolCallView>,
    pub input_tokens: Option<u64>,
    pub output_tokens: Option<u64>,
    pub client_gone: bool,
    pub reasoning_started: bool,
    pub live: Seq<LiveView>,
}

/// What has been collected, with the events to show.
pub open spec fn flow(s: OpenAiStreamState, live: Seq<LiveEvent>) -> Flow {
    Flow {
        content: s.content_buf@,
        thinking: s.thinking_buf@,
        tool_calls: calls_view(s.tool_calls@),
        input_tokens: s.input_tokens,
        output_tokens: s.output_tokens,
        client_gone: s.client_gone,
        reasoning_started: s.reasoning_started,
        live: live_view(live),
    }
}

/// Nothing has been collected.
pub open spec fn empty_flow() -> Flow {
    Flow {
        content: Seq::empty(),
        thinking: Seq::empty(),
        tool_calls: Seq::empty(),
        input_tokens: None,
        output_tokens: None,
        client_gone: false,
        reasoning_started: false,
        live: Seq::empty(),
    }
}

/// An event is shown, unless nobody looks any more.
pub open spec fn shown(f: Flow, e: LiveView) -> Flow {
    if f.client_gone {
        f
    } else {
        Flow { live: f.live.push(e), ..f }
    }
}

/// A piece of reasoning arrives: it is announced first, and kept only as long
/// as somebody looks.
pub open spec fn thought(f: Flow, text: Seq<char>) -> Flow {
    if text.len() == 0 || f.client_gone {
        f
    } else {
        let g = if f.reasoning_started {
            f
        } else {
            shown(Flow { reasoning_started: true, ..f }, LiveView::ThinkingStart)
        };
        shown(Flow { thinking: g.thinking + text, ..g }, LiveView::ThinkingDelta(text))
    }
}

/// The reasoning ends, where it is under way and somebody looks.
pub open spec fn thought_out(f: Flow) -> Flow {
    if f.reasoning_started && !f.client_gone {
        shown(Flow { reasoning_started: false, ..f }, LiveView::ThinkingDone)
    } else {
        f
    }
}

/// A piece of the answer arrives.
pub open spec fn said(f: Flow, text: Seq<char>) -> Flow {
    shown(Flow { content: f.content + text, ..f }, LiveView::Delta(text))
}

/// Hands an event out, unless nobody looks any more.
pub fn show(live: &mut Vec<LiveEvent>, gone: bool, e: LiveEvent)
    ensures
        live_view(final(live)@) == (if gone {
            live_view(old(live)@)
        } else {
            live_view(old(live)@).push(e@)
        }),
{
    if !gone {
        let ghost before = live_view(live@);
        let ghost view = e@;
        live.push(e);
        assert(live_view(live@) =~= before.push(view));
    }
}

impl OpenAiStreamState {
    /// Nothing has been collected.
    pub fn new() -> (r: OpenAiStreamState)
        ensures
            flow(r, Seq::empty()) == empty_flow(),
    {
        let r = OpenAiStreamState {
            content_buf: String::new(),
            thinking_buf: String::new(),
            tool_calls: Vec::new(),
            input_tokens: None,
            output_tokens: None,
            client_gone: false,
            reasoning_started: false,
        };
        assert(calls_view(r.tool_calls@) =~= Seq::empty());
        assert(live_view(Seq::empty()) =~= Seq::empty());
        r
    }

    /// Takes a piece of reasoning.
    pub fn think(&mut self, text: &str, live: &mut Vec<LiveEvent>)
        ensures
            flow(*final(self), final(live)@) == thought(flow(*old(self), old(live)@), text@),
    {
        if text.is_empty() || self.client_gone {
            return;
        }
        if !self.reasoning_started {
            self.reasoning_started = true;
            show(live, self.client_gone, LiveEvent::ThinkingStart);
        }
        self.thinking_buf.append(text);
        show(live, self.client_gone, LiveEvent::ThinkingDelta(owned(text)));
    }

    /// Ends the reasoning.
    pub fn stop_thinking(&mut self, live: &mut Vec<LiveEvent>)
        ensures
            flow(*final(self), final(live)@) == thought_out(flow(*old(self), old(live)@)),
    {
        if self.reasoning_started && !self.client_gone {
            self.reasoning_started = false;
            show(live, self.client_gone, LiveEvent::ThinkingDone);
        }
    }

    /// Takes a piece of the answer.
    pub fn say(&mut self, text: &str, live: &mut Vec<LiveEvent>)
        ensures
            flow(*final(self), final(live)@) == said(flow(*old(self), old(live)@), text@),
    {
        self.content_buf.append(text);
        show(live, self.client_gone, LiveEvent::Delta(owned(text)));
    }
}

/// The newer count, where there is one.
pub open spec fn newer(new: Option<u64>, old: Option<u64>) -> Option<u64> {
    if new is Some {
        new
    } else {
        old
    }
}

/// The newer count, where there is one.
pub fn pick_newer(new: Option<u64>, old: Option<u64>) -> (r: Option<u64>)
    ensures
        r == newer(new, old),
{
    if new.is_some() {
        new
    } else {
        old
    }
}

/// A tool call of which nothing has arrived.
pub open spec fn blank_call(id: Seq<char>, arguments: Seq<char>) -> ToolCallView {
    ToolCallView {
        id,
        call_type: "function"@,
        gemini_thought_signature: None,
        name: ""@,
        arguments,
    }
}

/// A tool call of which nothing has arrived.
pub fn make_blank_call(id: String, arguments: &str) -> (r: ToolCall)
    ensures
        r@ == blank_call(id@, arguments@),
{
    ToolCall {
        id,
        call_type: owned("function"),
        gemini_thought_signature: None,
        function: FunctionCall { name: owned(""), arguments: owned(arguments) },
    }
}

// ---------------------------------------------------------------------------
// OpenAI's chat completions
// ---------------------------------------------------------------------------

/// A piece of a tool call.
#[derive(Debug, PartialEq, Eq)]
pub struct DeltaToolCall {
    pub index: Option<usize>,
    pub id: Option<String>,
    pub function: Option<DeltaFunction>,
}

#[derive(Debug, PartialEq, Eq)]
pub struct DeltaFunction {
    pub name: Option<String>,
    pub arguments: Option<String>,
}

/// A piece of an answer.
#[derive(Debug, PartialEq, Eq)]
pub struct StreamDelta {
    pub content: Option<String>,
    pub reasoning_content: Option<String>,
    pub tool_calls: Option<Vec<DeltaToolCall>>,
}

#[derive(Debug, PartialEq, Eq)]
pub struct StreamChoice {
    pub delta: StreamDelta,
    pub finish_reason: Option<String>,
}

#[derive(Clone, Copy, Debug, PartialEq, Eq, Structural)]
pub struct OpenAiUsage {
    pub prompt_tokens: Option<u64>,
    pub completion_tokens: Option<u64>,
}

/// A chunk of a stream.
#[derive(Debug, PartialEq, Eq)]
pub struct StreamChunk {
    pub choices: Option<Vec<StreamChoice>>,
    pub usage: Option<OpenAiUsage>,
}

/// The calls, at least `n` of them.
pub open spec fn padded(calls: Seq<ToolCallView>, n: nat) -> Seq<ToolCallView> {
    if calls.len() >= n {
        calls
    } else {
        calls + Seq::new((n - calls.len()) as nat, |i: int| blank_call(""@, ""@))
    }
}

/// A call with a piece added: the identifier is replaced, name and arguments
/// grow.
pub open spec fn grown_call(c: ToolCallView, d: DeltaToolCall) -> ToolCallView {
    ToolCallView {
        id: match d.id {
            Some(id) => id@,
            None => c.id,
        },
        name: match d.function {
            Some(f) => c.name + or_empty(opt_text(f.name)),
            None => c.name,
        },
        arguments: match d.function {
            Some(f) => c.arguments + or_empty(opt_text(f.arguments)),
            None => c.arguments,
        },
        ..c
    }
}

/// Where a piece of a call belongs.
pub open spec fn delta_place(d: DeltaToolCall) -> nat {
    match d.index {
        Some(i) => i as nat,
        None => 0,
    }
}

/// The calls with the first `n` pieces added.
pub open spec fn grown_calls(calls: Seq<ToolCallView>, v: Seq<DeltaToolCall>, n: int) -> Seq<
    ToolCallView,
>
    decreases n,
{
    if n <= 0 {
        calls
    } else {
        let before = padded(grown_calls(calls, v, n - 1), delta_place(v[n - 1]) + 1);
        let i = delta_place(v[n - 1]) as int;
        before.update(i, grown_call(before[i], v[n - 1]))
    }
}

fn pad_calls(calls: &mut Vec<ToolCall>, i: usize)
    ensures
        calls_view(final(calls)@) == padded(calls_view(old(calls)@), i as nat + 1),
        final(calls)@.len() > i,
{
    let ghost start = calls_view(calls@);
    assert(start.len() == calls@.len());
    let ghost from = calls@.len();
    assert(calls_view(calls@) =~= start + Seq::new(0nat, |k: int| blank_call(""@, ""@)));
    while calls.len() <= i
        invariant
            from == start.len(),
            from <= calls@.len(),
            calls@.len() == from || calls@.len() <= i + 1,
            calls_view(calls@) == start + Seq::new(
                (calls@.len() - from) as nat,
                |k: int| blank_call(""@, ""@),
            ),
        decreases i + 1 - calls@.len(),
    {
        let ghost before = calls_view(calls@);
        let c = make_blank_call(owned(""), "");
        let ghost view = c@;
        calls.push(c);
        assert(calls_view(calls@) =~= before.push(view));
        assert(calls_view(calls@) =~= start + Seq::new(
            (calls@.len() - from) as nat,
            |k: int| blank_call(""@, ""@),
        ));
    }
    assert(calls_view(calls@) =~= padded(start, i as nat + 1));
}

fn grow_call(c: &mut ToolCall, d: &DeltaToolCall)
    ensures
        final(c)@ == grown_call(old(c)@, *d),
{
    let ghost start = c@;
    if let Some(id) = &d.id {
        c.id = id.clone();
    }
    if let Some(f) = &d.function {
        if let Some(n) = &f.name {
            c.function.name.append(n.as_str());
        }
        if let Some(a) = &f.arguments {
            c.function.arguments.append(a.as_str());
        }
    }
    assert(start.name + Seq::<char>::empty() =~= start.name);
    assert(start.arguments + Seq::<char>::empty() =~= start.arguments);
}

fn grow_calls(calls: &mut Vec<ToolCall>, v: &Vec<DeltaToolCall>)
    ensures
        calls_view(final(calls)@) == grown_calls(calls_view(old(calls)@), v@, v@.len() as int),
{
    let ghost start = calls_view(calls@);
    let mut n: usize = 0;
    while n < v.len()
        invariant
            n <= v@.len(),
            calls_view(calls@) == grown_calls(start, v@, n as int),
        decreases v@.len() - n,
    {
        let i: usize = match v[n].index {
            Some(k) => k,
            None => 0,
        };
        pad_calls(calls, i);
        let ghost before = calls_view(calls@);
        assert(before[i as int] == calls@[i as int]@);
        grow_call(&mut calls[i], &v[n]);
        assert(calls_view(calls@) =~= before.update(
            i as int,
            grown_call(before[i as int], v@[n as int]),
        ));
        n = n + 1;
    }
}

/// A list with at least one item.
pub open spec fn has_some<T>(o: Option<Vec<T>>) -> bool {
    o is Some && o->0@.len() > 0
}

/// The flow after a choice.
pub open spec fn after_choice(f: Flow, c: StreamChoice) -> Flow {
    let text = or_empty(opt_text(c.delta.content));
    let g = thought(f, or_empty(opt_text(c.delta.reasoning_content)));
    let h = if text.len() > 0 || has_some(c.delta.tool_calls) {
        thought_out(g)
    } else {
        g
    };
    let k = if text.len() > 0 {
        said(h, text)
    } else {
        h
    };
    match c.delta.tool_calls {
        Some(v) => Flow { tool_calls: grown_calls(k.tool_calls, v@, v@.len() as int), ..k },
        None => k,
    }
}

/// The flow after the choices from `i` on. A choice that is finished is the last
/// that counts.
pub open spec fn after_choices(f: Flow, v: Seq<StreamChoice>, i: int) -> Flow
    decreases v.len() - i,
{
    if i < 0 || i >= v.len() {
        f
    } else if v[i].finish_reason is Some {
        after_choice(f, v[i])
    } else {
        after_choices(after_choice(f, v[i]), v, i + 1)
    }
}

/// The flow after a chunk.
pub open spec fn after_chunk(f: Flow, c: StreamChunk) -> Flow {
    let g = match c.usage {
        Some(u) => Flow {
            input_tokens: newer(u.prompt_tokens, f.input_tokens),
            output_tokens: newer(u.completion_tokens, f.output_tokens),
            ..f
        },
        None => f,
    };
    match c.choices {
        Some(v) => after_choices(g, v@, 0),
        None => g,
    }
}

fn take_choice(state: &mut OpenAiStreamState, live: &mut Vec<LiveEvent>, c: &StreamChoice)
    ensures
        flow(*final(state), final(live)@) == after_choice(flow(*old(state), old(live)@), *c),
{
    let thinking = text_or_empty(&c.delta.reasoning_content);
    state.think(thinking.as_str(), live);
    let text = text_or_empty(&c.delta.content);
    let has_content: bool = !text.as_str().is_empty();
    let has_calls: bool = match &c.delta.tool_calls {
        Some(v) => v.len() > 0,
        None => false,
    };
    if has_content || has_calls {
        state.stop_thinking(live);
    }
    if has_content {
        state.say(text.as_str(), live);
    }
    if let Some(v) = &c.delta.tool_calls {
        grow_calls(&mut state.tool_calls, v);
    }
}

fn take_choices(state: &mut OpenAiStreamState, live: &mut Vec<LiveEvent>, v: &Vec<StreamChoice>)
    ensures
        flow(*final(state), final(live)@) == after_choices(
            flow(*old(state), old(live)@),
            v@,
            0,
        ),
{
    let ghost start = flow(*state, live@);
    let mut i: usize = 0;
    while i < v.len()
        invariant
            i <= v@.len(),
            start == flow(*old(state), old(live)@),
            after_choices(flow(*state, live@), v@, i as int) == after_choices(start, v@, 0),
        decreases v@.len() - i,
    {
        take_choice(state, live, &v[i]);
        if v[i].finish_reason.is_some() {
            return;
        }
        i = i + 1;
    }
}

/// Takes the data of a line of OpenAI's stream, with the chunk that it was read
/// as, and says whether the stream is done.
pub fn process_openai_data_line(
    data: &str,
    parsed: Option<&StreamChunk>,
    state: &mut OpenAiStreamState,
    live: &mut Vec<LiveEvent>,
) -> (done: bool)
    ensures
        done == (data@ == "[DONE]"@),
        flow(*final(state), final(live)@) == (if data@ == "[DONE]"@ || parsed is None {
            flow(*old(state), old(live)@)
        } else {
            after_chunk(flow(*old(state), old(live)@), *parsed->0)
        }),
{
    if same(data, "[DONE]") {
        return true;
    }
    if let Some(chunk) = parsed {
        if let Some(u) = &chunk.usage {
            state.input_tokens = pick_newer(u.prompt_tokens, state.input_tokens);
            state.output_tokens = pick_newer(u.completion_tokens, state.output_tokens);
        }
        if let Some(v) = &chunk.choices {
            take_choices(state, live, v);
        }
    }
    false
}

// ---------------------------------------------------------------------------
// Ollama
// ---------------------------------------------------------------------------

#[derive(Debug)]
pub struct OllamaFunction {
    pub name: Option<String>,
    pub arguments: Option<Json>,
}

#[derive(Debug)]
pub struct OllamaToolCall {
    pub id: Option<String>,
    pub function: Option<OllamaFunction>,
}

#[derive(Debug)]
pub struct OllamaMessage {
    pub content: Option<String>,
    pub thinking: Option<String>,
    pub tool_calls: Option<Vec<OllamaToolCall>>,
}

/// A chunk of Ollama's stream.
#[derive(Debug)]
pub struct OllamaStreamChunk {
    pub message: Option<OllamaMessage>,
    pub done: Option<bool>,
    pub prompt_eval_count: Option<u64>,
    pub eval_count: Option<u64>,
}

/// The identifier that the `n`-th call gets where it has none.
pub open spec fn ollama_id(n: nat) -> Seq<char> {
    "ollama_call_"@ + decimal_spec(n)
}

/// A call with what a chunk says of it.
pub open spec fn ollama_set(c: ToolCallView, t: OllamaToolCall) -> ToolCallView {
    ToolCallView {
        id: match t.id {
            Some(id) => id@,
            None => c.id,
        },
        name: match t.function {
            Some(f) => match f.name {
                Some(n) => n@,
                None => c.name,
            },
            None => c.name,
        },
        arguments: match t.function {
            Some(f) => match f.arguments {
                Some(a) => json_compact(a@),
                None => c.arguments,
            },
            None => c.arguments,
        },
        ..c
    }
}

/// The calls with what the first `n` entries say of them.
pub open spec fn ollama_calls_set(
    calls: Seq<ToolCallView>,
    v: Seq<OllamaToolCall>,
    n: int,
) -> Seq<ToolCallView>
    decreases n,
{
    if n <= 0 {
        calls
    } else {
        let before = ollama_calls_set(calls, v, n - 1);
        let all = if before.len() < n {
            before.push(blank_call(ollama_id(n as nat), "{}"@))
        } else {
            before
        };
        all.update(n - 1, ollama_set(all[n - 1], v[n - 1]))
    }
}

proof fn lemma_ollama_calls_len(calls: Seq<ToolCallView>, v: Seq<OllamaToolCall>, n: int)
    requires
        0 <= n,
    ensures
        ollama_calls_set(calls, v, n).len() >= n,
    decreases n,
{
    if n > 0 {
        lemma_ollama_calls_len(calls, v, n - 1);
    }
}

fn set_ollama_call(c: &mut ToolCall, t: &OllamaToolCall)
    ensures
        final(c)@ == ollama_set(old(c)@, *t),
{
    if let Some(id) = &t.id {
        c.id = id.clone();
    }
    if let Some(f) = &t.function {
        if let Some(n) = &f.name {
            c.function.name = n.clone();
        }
        if let Some(a) = &f.arguments {
            c.function.arguments = compact(a);
        }
    }
}

fn set_ollama_calls(calls: &mut Vec<ToolCall>, v: &Vec<OllamaToolCall>)
    ensures
        calls_view(final(calls)@) == ollama_calls_set(
            calls_view(old(calls)@),
            v@,
            v@.len() as int,
        ),
{
    let ghost start = calls_view(calls@);
    let mut n: usize = 0;
    while n < v.len()
        invariant
            n <= v@.len(),
            calls_view(calls@) == ollama_calls_set(start, v@, n as int),
        decreases v@.len() - n,
    {
        proof {
            lemma_ollama_calls_len(start, v@, n as int);
        }
        assert(calls_view(calls@).len() == calls@.len());
        if calls.len() <= n {
            let ghost before = calls_view(calls@);
            let mut id = owned("ollama_call_");
            id.append(decimal(n as u64 + 1).as_str());
            let c = make_blank_call(id, "{}");
            let ghost view = c@;
            calls.push(c);
            assert(calls_view(calls@) =~= before.push(view));
        }
        let ghost before = calls_view(calls@);
        assert(before[n as int] == calls@[n as int]@);
        set_ollama_call(&mut calls[n], &v[n]);
        assert(calls_view(calls@) =~= before.update(
            n as int,
            ollama_set(before[n as int], v@[n as int]),
        ));
        n = n + 1;
    }
}

/// The flow after a message of a chunk.
pub open spec fn after_ollama_message(f: Flow, m: OllamaMessage) -> Flow {
    let text = or_empty(opt_text(m.content));
    let g = thought(f, or_empty(opt_text(m.thinking)));
    let h = if text.len() > 0 || has_some(m.tool_calls) {
        thought_out(g)
    } else {
        g
    };
    let k = if text.len() > 0 {
        said(h, text)
    } else {
        h
    };
    match m.tool_calls {
        Some(v) => Flow { tool_calls: ollama_calls_set(k.tool_calls, v@, v@.len() as int), ..k },
        None => k,
    }
}

/// The flow after a chunk of Ollama's stream.
pub open spec fn after_ollama_chunk(f: Flow, c: OllamaStreamChunk) -> Flow {
    let g = Flow {
        input_tokens: newer(c.prompt_eval_count, f.input_tokens),
        output_tokens: newer(c.eval_count, f.output_tokens),
        ..f
    };
    match c.message {
        Some(m) => after_ollama_message(g, m),
        None => g,
    }
}

/// Takes a line of Ollama's stream, given as the chunk that it was read as, and
/// says whether the stream is done.
pub fn process_ollama_json_line(
    parsed: Option<&OllamaStreamChunk>,
    state: &mut OpenAiStreamState,
    live: &mut Vec<LiveEvent>,
) -> (done: bool)
    ensures
        done == (parsed is Some && parsed->0.done == Some(true)),
        flow(*final(state), final(live)@) == (match parsed {
            Some(c) => after_ollama_chunk(flow(*old(state), old(live)@), *c),
            None => flow(*old(state), old(live)@),
        }),
{
    let chunk = match parsed {
        Some(c) => c,
        None => {
            return false;
        },
    };
    state.input_tokens = pick_newer(chunk.prompt_eval_count, state.input_tokens);
    state.output_tokens = pick_newer(chunk.eval_count, state.output_tokens);
    if let Some(m) = &chunk.message {
        let thinking = text_or_empty(&m.thinking);
        state.think(thinking.as_str(), live);
        let text = text_or_empty(&m.content);
        let has_content: bool = !text.as_str().is_empty();
        let has_calls: bool = match &m.tool_calls {
            Some(v) => v.len() > 0,
            None => false,
        };
        if has_content || has_calls {
            state.stop_thinking(live);
        }
        if has_content {
            state.say(text.as_str(), live);
        }
        if let Some(v) = &m.tool_calls {
            set_ollama_calls(&mut state.tool_calls, v);
        }
    }
    match chunk.done {
        Some(d) => d,
        None => false,
    }
}

// ---------------------------------------------------------------------------
// The end of a stream
// ---------------------------------------------------------------------------

/// Ends a stream: reasoning that is still under way is ended for the user.
pub fn finish_stream(state: &mut OpenAiStreamState, live: &mut Vec<LiveEvent>)
    ensures
        flow(*final(state), final(live)@) == thought_out(flow(*old(state), old(live)@)),
{
    state.stop_thinking(live);
}

/// Reasoning is announced before any of it is shown and ended before the answer
/// goes on, and once nobody looks nothing more is shown.
pub proof fn law_reasoning_framed(f: Flow, text: Seq<char>)
    requires
        text.len() > 0,
    ensures
        !f.client_gone && !f.reasoning_started ==> thought(f, text).live == f.live.push(
            LiveView::ThinkingStart,
        ).push(LiveView::ThinkingDelta(text)),
        !f.client_gone ==> thought(f, text).reasoning_started,
        !f.client_gone && f.reasoning_started ==> said(thought_out(f), text).live == f.live.push(
            LiveView::ThinkingDone,
        ).push(LiveView::Delta(text)) && !said(thought_out(f), text).reasoning_started,
        f.client_gone ==> thought(f, text) == f && said(f, text).live == f.live && thought_out(f)
            == f,
{
}

/// The answer that the events show.
pub open spec fn answer_shown(v: Seq<LiveView>) -> Seq<char>
    decreases v.len(),
{
    if v.len() == 0 {
        Seq::empty()
    } else {
        match v.last() {
            LiveView::Delta(s) => answer_shown(v.drop_last()) + s,
            _ => answer_shown(v.drop_last()),
        }
    }
}

/// The reasoning that the events show.
pub open spec fn reasoning_shown(v: Seq<LiveView>) -> Seq<char>
    decreases v.len(),
{
    if v.len() == 0 {
        Seq::empty()
    } else {
        match v.last() {
            LiveView::ThinkingDelta(s) => reasoning_shown(v.drop_last()) + s,
            _ => reasoning_shown(v.drop_last()),
        }
    }
}

/// As long as somebody looks, the events show the answer and the reasoning that
/// have been collected.
pub open spec fn in_step(f: Flow) -> bool {
    !f.client_gone ==> answer_shown(f.live) == f.content && reasoning_shown(f.live) == f.thinking
}

/// Each piece that arrives keeps what is shown in step with what is collected.
pub proof fn lemma_pieces_in_step(f: Flow, text: Seq<char>)
    requires
        in_step(f),
    ensures
        in_step(thought(f, text)),
        in_step(thought_out(f)),
        in_step(said(f, text)),
{
    let start = f.live.push(LiveView::ThinkingStart);
    let thinking = LiveView::ThinkingDelta(text);
    assert(start.drop_last() =~= f.live);
    assert(answer_shown(start) == answer_shown(f.live));
    assert(reasoning_shown(start) == reasoning_shown(f.live));
    assert(start.push(thinking).drop_last() =~= start);
    assert(f.live.push(thinking).drop_last() =~= f.live);
    assert(f.live.push(LiveView::ThinkingDone).drop_last() =~= f.live);
    assert(f.live.push(LiveView::Delta(text)).drop_last() =~= f.live);
}

proof fn lemma_choice_in_step(f: Flow, c: StreamChoice)
    requires
        in_step(f),
    ensures
        in_step(after_choice(f, c)),
{
    let text = or_empty(opt_text(c.delta.content));
    let reasoning = or_empty(opt_text(c.delta.reasoning_content));
    lemma_pieces_in_step(f, reasoning);
    let g = thought(f, reasoning);
    lemma_pieces_in_step(g, text);
    lemma_pieces_in_step(thought_out(g), text);
}

proof fn lemma_choices_in_step(f: Flow, v: Seq<StreamChoice>, i: int)
    requires
        in_step(f),
    ensures
        in_step(after_choices(f, v, i)),
    decreases v.len() - i,
{
    if 0 <= i < v.len() {
        lemma_choice_in_step(f, v[i]);
        if v[i].finish_reason is None {
            lemma_choices_in_step(after_choice(f, v[i]), v, i + 1);
        }
    }
}

/// From the first chunk of a stream to its end, what the user is shown is what
/// the reply holds.
pub proof fn law_reply_is_shown(f: Flow, c: StreamChunk, o: OllamaStreamChunk)
    ensures
        in_step(empty_flow()),
        in_step(f) ==> in_step(after_chunk(f, c)),
        in_step(f) ==> in_step(after_ollama_chunk(f, o)),
        in_step(f) ==> in_step(thought_out(f)),
{
    if in_step(f) {
        let g = match c.usage {
            Some(u) => Flow {
                input_tokens: newer(u.prompt_tokens, f.input_tokens),
                output_tokens: newer(u.completion_tokens, f.output_tokens),
                ..f
            },
            None => f,
        };
        if let Some(v) = c.choices {
            lemma_choices_in_step(g, v@, 0);
        }
        let h = Flow {
            input_tokens: newer(o.prompt_eval_count, f.input_tokens),
            output_tokens: newer(o.eval_count, f.output_tokens),
            ..f
        };
        if let Some(m) = o.message {
            let text = or_empty(opt_text(m.content));
            let reasoning = or_empty(opt_text(m.thinking));
            lemma_pieces_in_step(h, reasoning);
            let k = thought(h, reasoning);
            lemma_pieces_in_step(k, text);
            lemma_pieces_in_step(thought_out(k), text);
        }
        lemma_pieces_in_step(f, Seq::empty());
    }
}

} // verus!
