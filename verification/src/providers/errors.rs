//! What services answer when something is wrong, and what is done then.

use crate::diagnostics::code_for;
use crate::json::{Json, JsonView, compact, json_compact, json_outcome, json_parsed, member, parse};
use crate::text::{
    ascii_lower, ascii_lower_char, begins, begins_any, char_count, contains, contains_any,
    decimal, decimal_spec, holds_any, holds_text, join, joined, opt_str, opt_text, owned,
    problem, same, starts_with, starts_with_any, strip_prefix, strs, take_chars, texts,
    to_ascii_lower, trim, trimmed,
};
use vstd::prelude::*;
use vstd::string::*;

verus! {

// ---------------------------------------------------------------------------
// Replies that are no answer
// ---------------------------------------------------------------------------

/// The most that is shown of a reply, in characters.
pub const MAX_BODY_CHARS: usize = 200;

/// A reply in brief.
pub open spec fn body_summary(body: Seq<char>) -> Seq<char> {
    let t = trimmed(body);
    if t.len() <= MAX_BODY_CHARS {
        t
    } else {
        t.take(MAX_BODY_CHARS as int) + "...\n[truncated at 200 chars, total "@ + decimal_spec(
            t.len(),
        ) + " chars]"@
    }
}

/// A reply in brief.
pub fn summarize_response_body(body: &str) -> (r: String)
    ensures
        r@ == body_summary(body@),
{
    let t = trim(body);
    let total: usize = char_count(t.as_str());
    if total <= MAX_BODY_CHARS {
        return t;
    }
    let mut out = take_chars(t.as_str(), MAX_BODY_CHARS);
    out.append("...\n[truncated at 200 chars, total ");
    out.append(decimal(total as u64).as_str());
    out.append(" chars]");
    out
}

/// The message on a reply that cannot be read.
pub open spec fn decode_error(provider: Seq<char>, error: Seq<char>, body: Seq<char>) -> Seq<char> {
    provider + " decode error: "@ + error + " - body: "@ + body_summary(body)
}

/// The message on a reply that cannot be read.
pub fn decode_message(provider: &str, error: &str, body: &str) -> (r: String)
    ensures
        r@ == decode_error(provider@, error@, body@),
{
    let mut out = owned(provider);
    out.append(" decode error: ");
    out.append(error);
    out.append(" - body: ");
    out.append(summarize_response_body(body).as_str());
    out
}

/// What a reply is read as, with the message where it cannot be read.
pub open spec fn decoded(
    provider: Seq<char>,
    body: Seq<char>,
    parsed: Result<JsonView, Seq<char>>,
) -> Result<JsonView, Seq<char>> {
    match parsed {
        Ok(v) => Ok(v),
        Err(e) => Err(decode_error(provider, e, body)),
    }
}

/// Takes what a reply was read as, and puts an error into words.
pub fn decode_outcome(provider: &str, body: &str, parsed: Result<Json, String>) -> (r: Result<
    Json,
    String,
>)
    ensures
        json_outcome(r) == decoded(provider@, body@, json_outcome(parsed)),
{
    match parsed {
        Ok(v) => Ok(v),
        Err(e) => Err(decode_message(provider, e.as_str(), body)),
    }
}

/// Reads a reply as JSON.
pub fn parse_json_response(provider: &str, body: &str) -> (r: Result<Json, String>)
    ensures
        json_outcome(r) == decoded(provider@, body@, json_parsed(body@)),
{
    decode_outcome(provider, body, parse(body))
}

/// The words for one detail of an error: a text or a number.
pub open spec fn detail_text(v: Option<JsonView>) -> Seq<char> {
    match v {
        Some(JsonView::Text(t)) => trimmed(t),
        Some(JsonView::Unsigned(n)) => json_compact(JsonView::Unsigned(n)),
        Some(JsonView::Negative(n)) => json_compact(JsonView::Negative(n)),
        Some(JsonView::Float(n)) => json_compact(JsonView::Float(n)),
        _ => Seq::empty(),
    }
}

/// A detail, left out where it is empty.
pub open spec fn detail_parts(v: JsonView, key: Seq<char>) -> Seq<Seq<char>> {
    if detail_text(member(v, key)).len() > 0 {
        seq![detail_text(member(v, key))]
    } else {
        Seq::empty()
    }
}

/// The details of an error object.
pub open spec fn error_parts(v: JsonView) -> Seq<Seq<char>> {
    detail_parts(v, "code"@) + detail_parts(v, "status"@) + detail_parts(v, "type"@)
        + detail_parts(v, "message"@)
}

/// The words for an error.
pub open spec fn error_detail(v: JsonView) -> Seq<char> {
    match v {
        JsonView::Text(t) => trimmed(t),
        JsonView::Object(_) => if error_parts(v).len() == 0 {
            json_compact(v)
        } else {
            joined(error_parts(v), ": "@)
        },
        _ => json_compact(v),
    }
}

/// The error that a reply reports, where it reports one.
pub open spec fn reported_error(provider: Seq<char>, data: JsonView) -> Option<Seq<char>> {
    match member(data, "error"@) {
        None => None,
        Some(v) => if v is Null {
            None
        } else if error_detail(v).len() == 0 {
            Some(provider + " API error: unknown error"@)
        } else {
            Some(provider + " API error: "@ + error_detail(v))
        },
    }
}

fn detail_of(v: &Json, key: &str) -> (r: String)
    ensures
        r@ == detail_text(member(v@, key@)),
{
    match v.get(key) {
        Some(x) => match x {
            Json::Text(t) => trim(t.as_str()),
            Json::Number(_) => compact(x),
            _ => String::new(),
        },
        None => String::new(),
    }
}

fn push_detail(out: &mut Vec<String>, v: &Json, key: &str)
    ensures
        texts(final(out)@) == texts(old(out)@) + detail_parts(v@, key@),
{
    let ghost start = texts(out@);
    let t = detail_of(v, key);
    if !t.as_str().is_empty() {
        let ghost view = t@;
        out.push(t);
        assert(texts(out@) =~= start + seq![view]);
    } else {
        assert(texts(out@) =~= start + detail_parts(v@, key@));
    }
}

fn describe_error(v: &Json) -> (r: String)
    ensures
        r@ == error_detail(v@),
{
    match v {
        Json::Text(t) => trim(t.as_str()),
        Json::Object(_) => {
            let mut parts: Vec<String> = Vec::new();
            assert(texts(parts@) =~= Seq::empty());
            push_detail(&mut parts, v, "code");
            push_detail(&mut parts, v, "status");
            push_detail(&mut parts, v, "type");
            push_detail(&mut parts, v, "message");
            assert(texts(parts@) =~= error_parts(v@));
            assert(texts(parts@).len() == parts@.len());
            if parts.len() == 0 {
                compact(v)
            } else {
                join(&parts, ": ")
            }
        },
        _ => compact(v),
    }
}

/// The error that a reply reports, where it reports one.
pub fn provider_json_error(provider: &str, data: &Json) -> (r: Option<String>)
    ensures
        opt_text(r) == reported_error(provider@, data@),
{
    match data.get("error") {
        None => None,
        Some(v) => {
            if v.is_null() {
                return None;
            }
            let detail = describe_error(v);
            let mut out = owned(provider);
            if detail.as_str().is_empty() {
                out.append(" API error: unknown error");
            } else {
                out.append(" API error: ");
                out.append(detail.as_str());
            }
            Some(out)
        },
    }
}

/// A kind of content that is a web page.
pub open spec fn is_html(content_type: Seq<char>) -> bool {
    begins(content_type, "text/html"@) || begins(content_type, "application/xhtml+xml"@)
}

/// Whether a kind of content is a web page.
pub fn is_html_response_content_type(content_type: &str) -> (r: bool)
    ensures
        r == is_html(content_type@),
{
    starts_with(content_type, "text/html") || starts_with(content_type, "application/xhtml+xml")
}

/// A reply with this kind of content is no stream.
pub open spec fn is_no_stream(content_type: Option<Seq<char>>) -> bool {
    content_type is Some && (is_html(content_type->0) || begins(
        content_type->0,
        "application/json"@,
    ))
}

/// Whether a reply with this kind of content is no stream, so that its body
/// tells what is wrong.
pub fn stream_is_refused(content_type: Option<&str>) -> (r: bool)
    ensures
        r == is_no_stream(opt_str(content_type)),
{
    match content_type {
        Some(t) => is_html_response_content_type(t) || starts_with(t, "application/json"),
        None => false,
    }
}

/// The message on a reply that is no stream.
pub open spec fn stream_error(
    provider: Seq<char>,
    expected: Seq<char>,
    content_type: Seq<char>,
    body: Seq<char>,
) -> Seq<char> {
    provider + " stream error: expected "@ + expected + ", got "@ + content_type + " - body: "@
        + body_summary(body)
}

/// What is wrong with a reply that is no stream, given what its body was read
/// as: the error that it reports, or else its kind.
pub open spec fn stream_problem(
    provider: Seq<char>,
    expected: Seq<char>,
    content_type: Seq<char>,
    body: Seq<char>,
    parsed: Result<JsonView, Seq<char>>,
) -> Seq<char> {
    let reported = match parsed {
        Ok(v) => reported_error(provider, v),
        Err(_) => None,
    };
    if !is_html(content_type) && reported is Some {
        reported->0
    } else {
        stream_error(provider, expected, content_type, body)
    }
}

/// What is wrong with a reply that is no stream, given what its body was read
/// as.
pub fn stream_problem_of(
    provider: &str,
    expected_stream: &str,
    content_type: &str,
    body: &str,
    parsed: Result<Json, String>,
) -> (r: String)
    ensures
        r@ == stream_problem(
            provider@,
            expected_stream@,
            content_type@,
            body@,
            json_outcome(parsed),
        ),
{
    if !is_html_response_content_type(content_type) {
        if let Ok(v) = &parsed {
            if let Some(e) = provider_json_error(provider, v) {
                return e;
            }
        }
    }
    let mut out = owned(provider);
    out.append(" stream error: expected ");
    out.append(expected_stream);
    out.append(", got ");
    out.append(content_type);
    out.append(" - body: ");
    out.append(summarize_response_body(body).as_str());
    out
}

/// Checks that a reply is a stream. `body` is what it holds where it is none.
pub fn validate_stream_response(
    provider: &str,
    expected_stream: &str,
    content_type: Option<&str>,
    body: &str,
) -> (r: Result<(), String>)
    ensures
        problem(r) == (if is_no_stream(opt_str(content_type)) {
            Some(
                stream_problem(
                    provider@,
                    expected_stream@,
                    content_type->0@,
                    body@,
                    json_parsed(body@),
                ),
            )
        } else {
            None
        }),
{
    match content_type {
        Some(t) => {
            if stream_is_refused(Some(t)) {
                return Err(stream_problem_of(provider, expected_stream, t, body, parse(body)));
            }
            Ok(())
        },
        None => Ok(()),
    }
}

// ---------------------------------------------------------------------------
// Kinds of errors
// ---------------------------------------------------------------------------

/// The words by which a service rejects pictures.
pub open spec fn image_words() -> Seq<Seq<char>> {
    seq![
        "image_url"@,
        "input_image"@,
        "multimodal"@,
        "image content"@,
        "image part"@,
        "image input"@,
        "image inputs"@,
        "image is not supported"@,
        "images are not supported"@,
        "does not support image"@,
        "unsupported image"@,
        "vision input"@,
        "vision model"@,
        "does not support vision"@,
        "unsupported vision"@,
    ]
}

/// The error is the service's refusal of pictures.
pub open spec fn is_image_refusal(error: Seq<char>) -> bool {
    let lower = ascii_lower(error);
    (begins(lower, "api 400"@) || begins(lower, "api 422"@)) && holds_any(lower, image_words())
}

/// Whether an error is the service's refusal of pictures.
pub fn is_openai_tool_image_compatibility_error(error: &str) -> (r: bool)
    ensures
        r == is_image_refusal(error@),
{
    let lower = to_ascii_lower(error);
    let text = lower.as_str();
    let words: Vec<&'static str> = vec![
        "image_url",
        "input_image",
        "multimodal",
        "image content",
        "image part",
        "image input",
        "image inputs",
        "image is not supported",
        "images are not supported",
        "does not support image",
        "unsupported image",
        "vision input",
        "vision model",
        "does not support vision",
        "unsupported vision",
    ];
    assert(strs(words@) =~= image_words());
    (starts_with(text, "api 400") || starts_with(text, "api 422")) && contains_any(text, &words)
}

/// The statuses under which a service reports a capability that it lacks.
pub open spec fn capability_statuses() -> Seq<Seq<char>> {
    seq!["api 400"@, "api 404"@, "api 405"@, "api 422"@]
}

/// The words by which a service rejects tools.
pub open spec fn tool_words() -> Seq<Seq<char>> {
    seq![
        "tools are not supported"@,
        "tools not supported"@,
        "does not support tools"@,
        "tool calling is not supported"@,
        "tool calling not supported"@,
        "function calling is not supported"@,
        "function calling not supported"@,
        "unsupported parameter: tools"@,
        "unsupported parameter: 'tools'"@,
        "unsupported parameter: \"tools\""@,
        "unknown field: tools"@,
        "unknown field 'tools'"@,
        "unknown field \"tools\""@,
        "unknown parameter: tools"@,
        "unrecognized field: tools"@,
        "unrecognized request argument supplied: tools"@,
        "tool_choice is not supported"@,
        "unsupported parameter: tool_choice"@,
        "unsupported parameter: 'tool_choice'"@,
        "unsupported parameter: \"tool_choice\""@,
    ]
}

/// The error is the service's refusal of tools.
pub open spec fn is_tool_refusal(error: Seq<char>) -> bool {
    let lower = ascii_lower(error);
    begins_any(lower, capability_statuses()) && holds_any(lower, tool_words())
}

/// Whether an error is the service's refusal of tools. Other failures must not
/// quietly turn a request into one without tools.
pub fn is_tool_calling_compatibility_error(error: &str) -> (r: bool)
    ensures
        r == is_tool_refusal(error@),
{
    let lower = to_ascii_lower(error);
    let text = lower.as_str();
    let statuses: Vec<&'static str> = vec!["api 400", "api 404", "api 405", "api 422"];
    assert(strs(statuses@) =~= capability_statuses());
    if !starts_with_any(text, &statuses) {
        return false;
    }
    let words: Vec<&'static str> = vec![
        "tools are not supported",
        "tools not supported",
        "does not support tools",
        "tool calling is not supported",
        "tool calling not supported",
        "function calling is not supported",
        "function calling not supported",
        "unsupported parameter: tools",
        "unsupported parameter: 'tools'",
        "unsupported parameter: \"tools\"",
        "unknown field: tools",
        "unknown field 'tools'",
        "unknown field \"tools\"",
        "unknown parameter: tools",
        "unrecognized field: tools",
        "unrecognized request argument supplied: tools",
        "tool_choice is not supported",
        "unsupported parameter: tool_choice",
        "unsupported parameter: 'tool_choice'",
        "unsupported parameter: \"tool_choice\"",
    ];
    assert(strs(words@) =~= tool_words());
    contains_any(text, &words)
}

/// The error says that the previous response is not known any more.
pub open spec fn is_checkpoint_error(error: Seq<char>) -> bool {
    let lower = ascii_lower(error);
    (holds_text(lower, "previous_response_id"@) || holds_text(lower, "previous response"@)) && (
    holds_text(lower, "not found"@) || holds_text(lower, "invalid"@) || holds_text(
        lower,
        "expired"@,
    ) || holds_text(lower, "does not exist"@))
}

/// Whether an error says that the previous response is not known any more.
pub fn openai_responses_checkpoint_error(error: &str) -> (r: bool)
    ensures
        r == is_checkpoint_error(error@),
{
    let lower = to_ascii_lower(error);
    let text = lower.as_str();
    (contains(text, "previous_response_id") || contains(text, "previous response")) && (contains(
        text,
        "not found",
    ) || contains(text, "invalid") || contains(text, "expired") || contains(text, "does not exist"))
}

/// The statuses that are worth another try.
pub open spec fn transient_statuses() -> Seq<Seq<char>> {
    seq!["429"@, "500"@, "502"@, "503"@, "504"@]
}

/// The error may pass, and nothing of an answer has been shown.
pub open spec fn is_transient(error: Seq<char>) -> bool {
    if begins(error, "stream error:"@) || error == "Client disconnected"@ {
        false
    } else {
        begins(error, "HTTP error:"@) || begins(error, "LLM request failed"@) || (begins(
            error,
            "API "@,
        ) && begins_any(error.skip("API "@.len() as int), transient_statuses()))
    }
}

/// Whether an error may pass, with nothing of an answer shown, so that the
/// request can be tried again.
pub fn is_transient_llm_error(error: &str) -> (r: bool)
    ensures
        r == is_transient(error@),
{
    if starts_with(error, "stream error:") {
        return false;
    }
    if same(error, "Client disconnected") {
        return false;
    }
    if starts_with(error, "HTTP error:") || starts_with(error, "LLM request failed") {
        return true;
    }
    match strip_prefix(error, "API ") {
        Some(rest) => {
            let statuses: Vec<&'static str> = vec!["429", "500", "502", "503", "504"];
            assert(strs(statuses@) =~= transient_statuses());
            starts_with_any(rest.as_str(), &statuses)
        },
        None => false,
    }
}

// ---------------------------------------------------------------------------
// Trying again
// ---------------------------------------------------------------------------

/// What came of sending a request.
#[derive(Debug, PartialEq, Eq)]
pub enum SendEvent {
    /// A reply with a status and, where it has one, the waiting time in seconds
    /// that it asks for, which counts where there were too many requests.
    Replied(u16, Option<u64>),
    /// No reply. The first part says whether the connection failed or took too
    /// long, the second what went wrong.
    Failed(bool, String),
}

/// What is done then.
#[derive(Debug, PartialEq, Eq)]
pub enum SendAction {
    /// Take the reply.
    Accept,
    /// Wait this many milliseconds and send again.
    Retry(u64),
    /// Give up on a status that did not pass in this many attempts.
    Exhausted(usize),
    /// Give up on a status that will not pass.
    Refused,
    /// Give up with this message.
    Broken(String),
}

/// What is done, by its view.
pub enum SendActionView {
    Accept,
    Retry(u64),
    Exhausted(usize),
    Refused,
    Broken(Seq<char>),
}

impl SendAction {
    pub open spec fn view(self) -> SendActionView {
        match self {
            SendAction::Accept => SendActionView::Accept,
            SendAction::Retry(n) => SendActionView::Retry(n),
            SendAction::Exhausted(n) => SendActionView::Exhausted(n),
            SendAction::Refused => SendActionView::Refused,
            SendAction::Broken(s) => SendActionView::Broken(s@),
        }
    }
}

/// The waiting time after the `attempt`-th try: a second, doubled with every
/// try, a minute and four seconds at most.
pub open spec fn backoff_ms(attempt: nat) -> nat {
    if attempt == 0 {
        1000
    } else if attempt == 1 {
        2000
    } else if attempt == 2 {
        4000
    } else if attempt == 3 {
        8000
    } else if attempt == 4 {
        16000
    } else if attempt == 5 {
        32000
    } else {
        64000
    }
}

/// The waiting time that a reply asks for, half a minute at most, or else the
/// usual one.
pub open spec fn wait_ms(retry_after: Option<u64>, attempt: nat) -> nat {
    match retry_after {
        Some(s) => if s < 30 {
            s as nat * 1000
        } else {
            30000
        },
        None => backoff_ms(attempt),
    }
}

/// The waiting time that counts: only a reply that there were too many requests
/// is asked for one.
pub open spec fn asked_wait(status: u16, retry_after: Option<u64>) -> Option<u64> {
    if status == 429 {
        retry_after
    } else {
        None
    }
}

/// A status that may pass.
pub open spec fn may_pass(status: u16) -> bool {
    status == 429 || 500 <= status < 600
}

/// What is done after the `attempt`-th try, counted from none.
pub open spec fn send_next(attempt: usize, max_retries: usize, event: SendEvent) -> SendActionView {
    match event {
        SendEvent::Replied(status, retry_after) => if may_pass(status) {
            if attempt < max_retries {
                SendActionView::Retry(
                    wait_ms(asked_wait(status, retry_after), attempt as nat) as u64,
                )
            } else {
                SendActionView::Exhausted((attempt + 1) as usize)
            }
        } else if 200 <= status < 300 {
            SendActionView::Accept
        } else {
            SendActionView::Refused
        },
        SendEvent::Failed(transient, error) => if attempt < max_retries && transient {
            SendActionView::Retry(backoff_ms(attempt as nat) as u64)
        } else {
            SendActionView::Broken("HTTP error: "@ + error@)
        },
    }
}

fn usual_wait(attempt: usize) -> (r: u64)
    ensures
        r == backoff_ms(attempt as nat),
{
    if attempt == 0 {
        1000
    } else if attempt == 1 {
        2000
    } else if attempt == 2 {
        4000
    } else if attempt == 3 {
        8000
    } else if attempt == 4 {
        16000
    } else if attempt == 5 {
        32000
    } else {
        64000
    }
}

/// What is done after the `attempt`-th try to send a request.
pub fn send_with_retry_step(attempt: usize, max_retries: usize, event: &SendEvent) -> (r: SendAction)
    requires
        attempt < usize::MAX,
    ensures
        r@ == send_next(attempt, max_retries, *event),
{
    match event {
        SendEvent::Replied(status, retry_after) => {
            let s: u16 = *status;
            if s == 429 || (s >= 500 && s < 600) {
                if attempt < max_retries {
                    match retry_after {
                        Some(secs) if s == 429 => if *secs < 30 {
                            SendAction::Retry(*secs * 1000)
                        } else {
                            SendAction::Retry(30000)
                        },
                        _ => SendAction::Retry(usual_wait(attempt)),
                    }
                } else {
                    SendAction::Exhausted(attempt + 1)
                }
            } else if s >= 200 && s < 300 {
                SendAction::Accept
            } else {
                SendAction::Refused
            }
        },
        SendEvent::Failed(transient, error) => if attempt < max_retries && *transient {
            SendAction::Retry(usual_wait(attempt))
        } else {
            let mut text = owned("HTTP error: ");
            text.append(error.as_str());
            SendAction::Broken(text)
        },
    }
}

/// The message on a status that is no success, after a number of attempts where
/// it was tried again.
pub open spec fn status_error(
    status: Seq<char>,
    attempts: Option<usize>,
    body: Seq<char>,
) -> Seq<char> {
    match attempts {
        Some(n) => "API "@ + status + " (after "@ + decimal_spec(n as nat) + " attempts): "@ + body,
        None => "API "@ + status + ": "@ + body,
    }
}

/// The message on a status that is no success.
pub fn status_message(status: &str, attempts: Option<usize>, body: &str) -> (r: String)
    ensures
        r@ == status_error(status@, attempts, body@),
{
    let mut out = owned("API ");
    out.append(status);
    match attempts {
        Some(n) => {
            out.append(" (after ");
            out.append(decimal(n as u64).as_str());
            out.append(" attempts): ");
        },
        None => {
            out.append(": ");
        },
    }
    out.append(body);
    out
}

/// A request is sent at most once more than the retries that are allowed, and
/// each wait is between nothing and a little over a minute.
pub proof fn law_retries_bounded(attempt: usize, max_retries: usize, event: SendEvent)
    ensures
        send_next(attempt, max_retries, event) is Retry ==> attempt < max_retries,
        send_next(attempt, max_retries, event) is Retry ==> send_next(
            attempt,
            max_retries,
            event,
        )->Retry_0 <= 64000,
{
}

/// A reply that was given up on after several attempts with a status that is
/// worth another try is seen as an error that may pass.
pub proof fn law_exhausted_is_transient(status: Seq<char>, attempts: usize, body: Seq<char>)
    requires
        begins_any(status, transient_statuses()),
    ensures
        is_transient(status_error(status, Some(attempts), body)),
{
    reveal_strlit("API ");
    reveal_strlit("stream error:");
    reveal_strlit("Client disconnected");
    let e = status_error(status, Some(attempts), body);
    assert(e[0] == 'A');
    assert("stream error:"@[0] == 's');
    assert("Client disconnected"@[0] == 'C');
    if begins(e, "stream error:"@) {
        assert(e.take("stream error:"@.len() as int)[0] == 's');
    }
    assert(e.take(4) =~= "API "@);
    let rest = e.skip(4);
    let i = choose|i: int|
        0 <= i < transient_statuses().len() && begins(status, #[trigger] transient_statuses()[i]);
    let w = transient_statuses()[i];
    assert(rest.take(w.len() as int) =~= status.take(w.len() as int));
    assert(begins(rest, w));
}

/// The usual wait doubles with every try until it has reached its limit.
pub proof fn law_waits_double(attempt: nat)
    ensures
        attempt < 6 ==> backoff_ms(attempt + 1) == 2 * backoff_ms(attempt),
        attempt >= 6 ==> backoff_ms(attempt) == 64000,
{
}

/// The error is one that a service reports or that its reply is to blame for:
/// nothing in it can be taken for the status, the connection or the settings,
/// and it is not worth another try.
pub open spec fn is_labelled(error: Seq<char>) -> bool {
    &&& !begins(error, "API "@)
    &&& !begins(error, "HTTP error: "@)
    &&& !begins(error, "Provider configuration error: "@)
    &&& code_for(error) is ProviderResponseInvalid
    &&& !is_transient(error)
}

/// Behind the name of a service, any text is labelled.
pub proof fn lemma_labelled(name: Seq<char>, rest: Seq<char>)
    requires
        name == "OpenAI"@ || name == "OpenAI Responses"@ || name == "OpenAI Responses stream"@
            || name == "Anthropic"@ || name == "Ollama"@ || name == "Gemini"@,
    ensures
        is_labelled(name + rest),
{
    let e = name + rest;
    reveal_strlit("OpenAI");
    reveal_strlit("OpenAI Responses");
    reveal_strlit("OpenAI Responses stream");
    reveal_strlit("Anthropic");
    reveal_strlit("Ollama");
    reveal_strlit("Gemini");
    reveal_strlit("API ");
    reveal_strlit("HTTP error: ");
    reveal_strlit("HTTP error:");
    reveal_strlit("Provider configuration error: ");
    reveal_strlit("LLM request failed");
    assert(e[0] == name[0] && e[1] == name[1]);
    assert(e[0] == 'O' || e[0] == 'G' || (e[0] == 'A' && e[1] == 'n'));
    if begins(e, "API "@) {
        assert(e.take("API "@.len() as int)[0] == 'A');
        assert(e.take("API "@.len() as int)[1] == 'P');
    }
    if begins(e, "HTTP error: "@) {
        assert(e.take("HTTP error: "@.len() as int)[0] == 'H');
    }
    if begins(e, "HTTP error:"@) {
        assert(e.take("HTTP error:"@.len() as int)[0] == 'H');
    }
    if begins(e, "Provider configuration error: "@) {
        assert(e.take("Provider configuration error: "@.len() as int)[0] == 'P');
    }
    if begins(e, "LLM request failed"@) {
        assert(e.take("LLM request failed"@.len() as int)[0] == 'L');
    }
}

/// Whatever a service reports or sends in place of an answer, the message on it
/// is labelled.
pub proof fn law_service_errors_are_labelled(
    name: Seq<char>,
    data: JsonView,
    expected: Seq<char>,
    content_type: Seq<char>,
    body: Seq<char>,
    parsed: Result<JsonView, Seq<char>>,
)
    requires
        name == "OpenAI"@ || name == "OpenAI Responses"@ || name == "OpenAI Responses stream"@
            || name == "Anthropic"@ || name == "Ollama"@ || name == "Gemini"@,
    ensures
        reported_error(name, data) matches Some(e) ==> is_labelled(e),
        decoded(name, body, parsed) matches Err(e) ==> is_labelled(e),
        is_labelled(stream_problem(name, expected, content_type, body, parsed)),
{
    let unknown = " API error: unknown error"@;
    lemma_labelled(name, unknown);
    assert forall|v: JsonView| reported_error(name, v) is Some implies is_labelled(
        #[trigger] reported_error(name, v)->0,
    ) by {
        let error = member(v, "error"@)->0;
        let rest = " API error: "@ + error_detail(error);
        lemma_labelled(name, rest);
        assert(name + " API error: "@ + error_detail(error) =~= name + rest);
    }
    if parsed is Err {
        let e = parsed->Err_0;
        let rest = " decode error: "@ + e + " - body: "@ + body_summary(body);
        lemma_labelled(name, rest);
        assert(decode_error(name, e, body) =~= name + rest);
    }
    let rest = " stream error: expected "@ + expected + ", got "@ + content_type + " - body: "@
        + body_summary(body);
    lemma_labelled(name, rest);
    assert(stream_error(name, expected, content_type, body) =~= name + rest);
}

/// A refusal of tools is never an error that may pass: no request that is worth
/// another try is turned into one without tools.
pub proof fn law_refusal_does_not_pass(error: Seq<char>)
    requires
        is_tool_refusal(error),
    ensures
        !is_transient(error),
{
    reveal_strlit("api 400");
    reveal_strlit("api 404");
    reveal_strlit("api 405");
    reveal_strlit("api 422");
    reveal_strlit("429");
    reveal_strlit("500");
    reveal_strlit("502");
    reveal_strlit("503");
    reveal_strlit("504");
    reveal_strlit("API ");
    reveal_strlit("HTTP error:");
    reveal_strlit("LLM request failed");
    let lower = ascii_lower(error);
    let statuses = capability_statuses();
    let i = choose|i: int| 0 <= i < statuses.len() && begins(lower, #[trigger] statuses[i]);
    let p = lower.take(7);
    assert(begins(lower, statuses[i]));
    assert(p == statuses[i]);
    assert(p[0] == 'a' && p[4] == '4');
    assert(p[5] == '0' || (p[5] == '2' && p[6] == '2'));
    assert(lower[0] == 'a' && lower[4] == '4' && lower[5] == p[5] && lower[6] == p[6]);
    assert(lower[0] == ascii_lower_char(error[0]));
    assert(lower[4] == ascii_lower_char(error[4]));
    assert(lower[5] == ascii_lower_char(error[5]));
    assert(lower[6] == ascii_lower_char(error[6]));
    if begins(error, "HTTP error:"@) {
        assert(error.take("HTTP error:"@.len() as int)[0] == 'H');
    }
    if begins(error, "LLM request failed"@) {
        assert(error.take("LLM request failed"@.len() as int)[0] == 'L');
    }
    let rest = error.skip(4);
    if begins_any(rest, transient_statuses()) {
        let t = transient_statuses();
        let j = choose|j: int| 0 <= j < t.len() && begins(rest, #[trigger] t[j]);
        let q = rest.take(3);
        assert(begins(rest, t[j]));
        assert(q == t[j]);
        assert(q[0] == '5' || (q[0] == '4' && q[1] == '2' && q[2] == '9'));
        assert(q[0] == error[4] && q[1] == error[5] && q[2] == error[6]);
    }
}

} // verus!
