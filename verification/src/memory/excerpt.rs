//! The part of a conversation that memory is extracted from.

use crate::chat::{
    ChatMessage, MessageView, ToolCall, ToolCallView, calls_view, messages_view, says_something,
};
use crate::text::{
    begins, char_count, concat3, join, joined, lines, lines_of, owned, same, starts_with,
    take_chars, texts, trim, trimmed,
};
use vstd::prelude::*;
use vstd::string::*;

verus! {

/// The number of recent messages that matter for the memory.
pub const MEMORY_EXCERPT_MAX_MESSAGES: usize = 40;

/// The most that is kept of a tool's result, in characters.
pub const TOOL_RESULT_EXCERPT_LIMIT: usize = 200;

/// The position of the last message of the user at or before `i`.
pub open spec fn last_user(v: Seq<MessageView>, i: int) -> Option<int>
    decreases i + 1,
{
    if i < 0 || i >= v.len() {
        None
    } else if v[i].role == "user"@ {
        Some(i)
    } else {
        last_user(v, i - 1)
    }
}

/// Where the recent part of a conversation begins: at a message of the user
/// where there is one, so that no turn is torn apart.
pub open spec fn excerpt_start(v: Seq<MessageView>) -> int {
    if v.len() > MEMORY_EXCERPT_MAX_MESSAGES {
        let tentative = v.len() - MEMORY_EXCERPT_MAX_MESSAGES;
        match last_user(v, tentative) {
            Some(i) => i,
            None => tentative,
        }
    } else {
        0
    }
}

/// The messages from `i` up to `n` that are not of the system.
pub open spec fn without_system(v: Seq<MessageView>, i: int, n: int) -> Seq<MessageView>
    decreases n - i,
{
    if n <= i || n <= 0 {
        Seq::empty()
    } else if v[n - 1].role == "system"@ {
        without_system(v, i, n - 1)
    } else {
        without_system(v, i, n - 1).push(v[n - 1])
    }
}

/// The recent messages that are not of the system.
pub fn prefilter_for_memory(messages: &Vec<ChatMessage>) -> (r: Vec<ChatMessage>)
    ensures
        messages_view(r@) == without_system(
            messages_view(messages@),
            excerpt_start(messages_view(messages@)),
            messages@.len() as int,
        ),
{
    let ghost all = messages_view(messages@);
    let mut start: usize = 0;
    if messages.len() > MEMORY_EXCERPT_MAX_MESSAGES {
        let tentative: usize = messages.len() - MEMORY_EXCERPT_MAX_MESSAGES;
        start = tentative;
        let mut k: usize = tentative + 1;
        let mut searching: bool = true;
        while k > 0 && searching
            invariant
                k <= tentative + 1 <= messages@.len(),
                tentative < messages@.len(),
                all == messages_view(messages@),
                start <= tentative,
                searching ==> start == tentative && last_user(all, k - 1) == last_user(
                    all,
                    tentative as int,
                ),
                !searching ==> last_user(all, tentative as int) == Some(start as int),
            decreases k + (if searching { 1int } else { 0int }),
        {
            assert(all[k - 1] == messages@[k - 1]@);
            if same(messages[k - 1].role.as_str(), "user") {
                start = k - 1;
                searching = false;
            } else {
                k = k - 1;
            }
        }
    }
    assert(start == excerpt_start(all));
    let mut out: Vec<ChatMessage> = Vec::new();
    let mut n: usize = start;
    assert(messages_view(out@) =~= Seq::<MessageView>::empty());
    while n < messages.len()
        invariant
            start <= n <= messages@.len(),
            all == messages_view(messages@),
            messages_view(out@) == without_system(all, start as int, n as int),
        decreases messages@.len() - n,
    {
        assert(all[n as int] == messages@[n as int]@);
        if !same(messages[n].role.as_str(), "system") {
            let ghost before = messages_view(out@);
            let m = messages[n].copy();
            let ghost view = m@;
            out.push(m);
            assert(messages_view(out@) =~= before.push(view));
        }
        n = n + 1;
    }
    out
}

/// The first line of a text.
pub open spec fn first_line(s: Seq<char>) -> Seq<char> {
    let v = lines_of(s);
    if v.len() == 0 {
        Seq::empty()
    } else {
        v[0]
    }
}

/// What is kept of a tool's result: all of it where it is short, else its first
/// line, or the beginning of that. The limit is one of characters.
pub open spec fn result_summary(content: Seq<char>) -> Seq<char> {
    let first = first_line(content);
    if content.len() <= TOOL_RESULT_EXCERPT_LIMIT {
        content
    } else if first.len() <= TOOL_RESULT_EXCERPT_LIMIT {
        first
    } else {
        first.take(TOOL_RESULT_EXCERPT_LIMIT as int) + "…"@
    }
}

/// The lines on the first `n` tool calls.
pub open spec fn call_lines(calls: Seq<ToolCallView>, n: int) -> Seq<Seq<char>>
    decreases n,
{
    if n <= 0 {
        Seq::empty()
    } else {
        call_lines(calls, n - 1).push("[tool: "@ + calls[n - 1].name + "]"@)
    }
}

/// What an excerpt says of one message.
pub open spec fn message_lines(m: MessageView) -> Seq<Seq<char>> {
    if m.role == "user"@ {
        if says_something(m) {
            seq!["User: "@ + m.content->0]
        } else {
            Seq::empty()
        }
    } else if m.role == "assistant"@ {
        (if says_something(m) && !begins(
            m.content->0,
            "## Context Summary (auto-generated)"@,
        ) {
            seq!["Assistant: "@ + m.content->0]
        } else {
            Seq::empty()
        }) + (match m.tool_calls {
            Some(calls) => call_lines(calls, calls.len() as int),
            None => Seq::empty(),
        })
    } else if m.role == "tool"@ {
        if says_something(m) && trimmed(result_summary(m.content->0)).len() > 0 {
            seq!["[tool result: "@ + result_summary(m.content->0) + "]"@]
        } else {
            Seq::empty()
        }
    } else {
        Seq::empty()
    }
}

/// What an excerpt says of the first `n` messages.
pub open spec fn excerpt_lines(v: Seq<MessageView>, n: int) -> Seq<Seq<char>>
    decreases n,
{
    if n <= 0 {
        Seq::empty()
    } else {
        excerpt_lines(v, n - 1) + message_lines(v[n - 1])
    }
}

/// The excerpt of a conversation.
pub open spec fn excerpt_of(v: Seq<MessageView>) -> Seq<char> {
    joined(excerpt_lines(v, v.len() as int), "\n\n"@)
}

fn summarize_result(content: &str) -> (r: String)
    ensures
        r@ == result_summary(content@),
{
    if char_count(content) <= TOOL_RESULT_EXCERPT_LIMIT {
        return owned(content);
    }
    let v = lines(content);
    let first = if v.len() == 0 {
        String::new()
    } else {
        assert(texts(v@)[0] == v@[0]@);
        v[0].clone()
    };
    assert(texts(v@).len() == v@.len());
    if char_count(first.as_str()) <= TOOL_RESULT_EXCERPT_LIMIT {
        return first;
    }
    let mut out = take_chars(first.as_str(), TOOL_RESULT_EXCERPT_LIMIT);
    out.append("…");
    out
}

fn push_call_lines(out: &mut Vec<String>, calls: &Vec<ToolCall>)
    ensures
        texts(final(out)@) == texts(old(out)@) + call_lines(
            calls_view(calls@),
            calls@.len() as int,
        ),
{
    let ghost start = texts(out@);
    let mut n: usize = 0;
    assert(texts(out@) =~= start + call_lines(calls_view(calls@), 0));
    while n < calls.len()
        invariant
            n <= calls@.len(),
            texts(out@) == start + call_lines(calls_view(calls@), n as int),
        decreases calls@.len() - n,
    {
        let ghost before = texts(out@);
        assert(calls_view(calls@)[n as int] == calls@[n as int]@);
        let line = concat3("[tool: ", calls[n].function.name.as_str(), "]");
        let ghost view = line@;
        out.push(line);
        assert(texts(out@) =~= before.push(view));
        n = n + 1;
        assert(texts(out@) =~= start + call_lines(calls_view(calls@), n as int));
    }
}

fn push_one(out: &mut Vec<String>, a: &str, b: &str)
    ensures
        texts(final(out)@) == texts(old(out)@) + seq![a@ + b@],
{
    let ghost start = texts(out@);
    let mut line = owned(a);
    line.append(b);
    let ghost view = line@;
    out.push(line);
    assert(texts(out@) =~= start + seq![view]);
}

fn push_message_lines(out: &mut Vec<String>, m: &ChatMessage)
    ensures
        texts(final(out)@) == texts(old(out)@) + message_lines(m@),
{
    let ghost start = texts(out@);
    let ghost none = Seq::<Seq<char>>::empty();
    if same(m.role.as_str(), "user") {
        if let Some(content) = &m.content {
            if !content.as_str().is_empty() {
                push_one(out, "User: ", content.as_str());
                return;
            }
        }
        assert(texts(out@) =~= start + none);
    } else if same(m.role.as_str(), "assistant") {
        if let Some(content) = &m.content {
            if !content.as_str().is_empty() && !starts_with(
                content.as_str(),
                "## Context Summary (auto-generated)",
            ) {
                push_one(out, "Assistant: ", content.as_str());
            } else {
                assert(texts(out@) =~= start + none);
            }
        } else {
            assert(texts(out@) =~= start + none);
        }
        let ghost middle = texts(out@);
        if let Some(calls) = &m.tool_calls {
            push_call_lines(out, calls);
            assert(calls_view(calls@).len() == calls@.len());
        } else {
            assert(texts(out@) =~= middle + none);
        }
        assert(texts(out@) =~= start + message_lines(m@));
    } else if same(m.role.as_str(), "tool") {
        if let Some(content) = &m.content {
            if !content.as_str().is_empty() {
                let summary = summarize_result(content.as_str());
                if !trim(summary.as_str()).as_str().is_empty() {
                    let line = concat3("[tool result: ", summary.as_str(), "]");
                    let ghost view = line@;
                    out.push(line);
                    assert(texts(out@) =~= start + seq![view]);
                    return;
                }
            }
        }
        assert(texts(out@) =~= start + none);
    } else {
        assert(texts(out@) =~= start + none);
    }
}

/// The excerpt of a conversation: what user and assistant said, the tools that
/// were called, and what tools found in brief. Summaries that were generated
/// are left out.
pub fn build_conversation_excerpt(messages: &Vec<ChatMessage>) -> (r: String)
    ensures
        r@ == excerpt_of(messages_view(messages@)),
{
    let mut out: Vec<String> = Vec::new();
    let mut n: usize = 0;
    assert(texts(out@) =~= Seq::empty());
    while n < messages.len()
        invariant
            n <= messages@.len(),
            texts(out@) == excerpt_lines(messages_view(messages@), n as int),
        decreases messages@.len() - n,
    {
        assert(messages_view(messages@)[n as int] == messages@[n as int]@);
        push_message_lines(&mut out, &messages[n]);
        n = n + 1;
    }
    assert(messages_view(messages@).len() == messages@.len());
    join(&out, "\n\n")
}

proof fn lemma_last_user(v: Seq<MessageView>, i: int)
    requires
        i < v.len(),
    ensures
        match last_user(v, i) {
            Some(k) => 0 <= k <= i && v[k].role == "user"@,
            None => true,
        },
    decreases i + 1,
{
    if i >= 0 && v[i].role != "user"@ {
        lemma_last_user(v, i - 1);
    }
}

proof fn lemma_without_system(v: Seq<MessageView>, i: int, n: int)
    ensures
        forall|k: int|
            0 <= k < without_system(v, i, n).len() ==> (#[trigger] without_system(
                v,
                i,
                n,
            )[k]).role != "system"@,
    decreases n - i,
{
    if n > i && n > 0 {
        lemma_without_system(v, i, n - 1);
        let a = without_system(v, i, n - 1);
        let b = without_system(v, i, n);
        assert forall|k: int| 0 <= k < b.len() implies (#[trigger] b[k]).role != "system"@ by {
            if k < a.len() {
                assert(b[k] == a[k]);
            }
        }
    }
}

/// No message of the system gets into the excerpt; of a long conversation the
/// last messages are never left out, and what is kept begins with a message of
/// the user wherever an earlier one allows it.
pub proof fn law_excerpt_recent(v: Seq<MessageView>)
    ensures
        0 <= excerpt_start(v) <= v.len(),
        v.len() > MEMORY_EXCERPT_MAX_MESSAGES ==> excerpt_start(v) <= v.len()
            - MEMORY_EXCERPT_MAX_MESSAGES,
        v.len() > MEMORY_EXCERPT_MAX_MESSAGES && last_user(
            v,
            v.len() - MEMORY_EXCERPT_MAX_MESSAGES,
        ) is Some ==> v[excerpt_start(v)].role == "user"@,
        forall|k: int|
            0 <= k < without_system(v, excerpt_start(v), v.len() as int).len() ==> (
            #[trigger] without_system(v, excerpt_start(v), v.len() as int)[k]).role != "system"@,
{
    if v.len() > MEMORY_EXCERPT_MAX_MESSAGES {
        lemma_last_user(v, v.len() - MEMORY_EXCERPT_MAX_MESSAGES);
    }
    lemma_without_system(v, excerpt_start(v), v.len() as int);
}

} // verus!
