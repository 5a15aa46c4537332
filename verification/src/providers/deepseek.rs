//! Conversations for DeepSeek, which wants the reasoning of each past reply.

use crate::chat::{
    ChatMessage, MessageView, ToolCall, ToolCallView, calls_of, calls_tools, calls_view,
    copy_messages, copy_opt_blocks, messages_view, opt_calls, says_something,
};
use crate::providers::model::{
    ResolvedModel, ResolvedView, is_deepseek, is_openai_family, names_deepseek,
};
use crate::text::{
    join, joined, opt_slice_of, opt_text, or_empty, owned, same, text_or_empty, texts,
};
use vstd::prelude::*;
use vstd::slice::*;
use vstd::string::*;

verus! {

/// The message asks for tools, and the reasoning behind it is lost.
pub open spec fn lacks_reasoning(m: MessageView) -> bool {
    m.role == "assistant"@ && calls_tools(m) && (m.thinking is None || m.thinking->0.len() == 0)
}

/// Whether a message asks for tools and the reasoning behind it is lost.
pub fn deepseek_thinking_replay_needs_tool_turn_repair(message: &ChatMessage) -> (r: bool)
    ensures
        r == lacks_reasoning(message@),
{
    same(message.role.as_str(), "assistant") && message.has_tool_calls() && match &message.thinking {
        None => true,
        Some(t) => t.as_str().is_empty(),
    }
}

/// What stands in for reasoning that is lost.
pub open spec fn placeholder(has_tool_calls: bool) -> Seq<char> {
    if has_tool_calls {
        "Historical assistant tool turn replayed without original reasoning_content."@
    } else {
        "Historical assistant response replayed without original reasoning_content."@
    }
}

/// What stands in for reasoning that is lost.
pub fn deepseek_reasoning_replay_placeholder(has_tool_calls: bool) -> (r: String)
    ensures
        r@ == placeholder(has_tool_calls),
{
    if has_tool_calls {
        owned("Historical assistant tool turn replayed without original reasoning_content.")
    } else {
        owned("Historical assistant response replayed without original reasoning_content.")
    }
}

/// The last result for the call `id` among the first `n` messages.
pub open spec fn result_for(tools: Seq<MessageView>, id: Seq<char>, n: int) -> Option<Seq<char>>
    decreases n,
{
    if n <= 0 {
        None
    } else if tools[n - 1].tool_call_id == Some(id) {
        Some(or_empty(tools[n - 1].content))
    } else {
        result_for(tools, id, n - 1)
    }
}

/// The two lines on a call and its result.
pub open spec fn turn_lines(call: ToolCallView, tools: Seq<MessageView>) -> Seq<Seq<char>> {
    seq![
        "Tool "@ + call.name + " args: "@ + call.arguments,
        match result_for(tools, call.id, tools.len() as int) {
            Some(result) => "Tool result: "@ + result,
            None => "Tool result missing for id: "@ + call.id,
        },
    ]
}

/// The lines on the first `n` calls.
pub open spec fn calls_lines(
    calls: Seq<ToolCallView>,
    tools: Seq<MessageView>,
    n: int,
) -> Seq<Seq<char>>
    decreases n,
{
    if n <= 0 {
        Seq::empty()
    } else {
        calls_lines(calls, tools, n - 1) + turn_lines(calls[n - 1], tools)
    }
}

/// One of the calls has the given identifier.
pub open spec fn has_call(calls: Seq<ToolCallView>, id: Seq<char>) -> bool {
    exists|i: int| 0 <= i < calls.len() && (#[trigger] calls[i]).id == id
}

/// The lines on those of the first `n` results that no call asked for.
pub open spec fn unmatched_lines(
    calls: Seq<ToolCallView>,
    tools: Seq<MessageView>,
    n: int,
) -> Seq<Seq<char>>
    decreases n,
{
    if n <= 0 {
        Seq::empty()
    } else {
        let rest = unmatched_lines(calls, tools, n - 1);
        match tools[n - 1].tool_call_id {
            Some(id) => if has_call(calls, id) {
                rest
            } else {
                rest.push(
                    "Tool result for unmatched id "@ + id + ": "@ + or_empty(tools[n - 1].content),
                )
            },
            None => rest,
        }
    }
}

/// The lines that stand for a turn with tools.
pub open spec fn summary_lines(m: MessageView, tools: Seq<MessageView>) -> Seq<Seq<char>> {
    let head = seq![
        "Prior tool turn replayed as plain context because DeepSeek omitted reasoning_content."@,
    ];
    let said = if says_something(m) {
        seq!["Assistant content: "@ + m.content->0]
    } else {
        Seq::empty()
    };
    head + said + calls_lines(calls_of(m), tools, calls_of(m).len() as int) + unmatched_lines(
        calls_of(m),
        tools,
        tools.len() as int,
    )
}

/// The plain message that stands for a turn with tools.
pub open spec fn summarized_turn(m: MessageView, tools: Seq<MessageView>) -> MessageView {
    MessageView {
        role: "assistant"@,
        content: Some(joined(summary_lines(m, tools), "\n"@)),
        images: None,
        thinking: Some(
            "Historical tool turn summarized because the original DeepSeek response omitted reasoning_content."@,
        ),
        blocks: m.blocks,
        tool_calls: None,
        tool_call_id: None,
        timestamp: m.timestamp,
    }
}

fn find_result(tools: &[ChatMessage], id: &str) -> (r: Option<String>)
    ensures
        opt_text(r) == result_for(messages_view(tools@), id@, tools@.len() as int),
{
    let mut n: usize = tools.len();
    while n > 0
        invariant
            n <= tools@.len(),
            result_for(messages_view(tools@), id@, n as int) == result_for(
                messages_view(tools@),
                id@,
                tools@.len() as int,
            ),
        decreases n,
    {
        let m = &tools[n - 1];
        assert(messages_view(tools@)[n - 1] == m@);
        if let Some(t) = &m.tool_call_id {
            if same(t.as_str(), id) {
                return Some(text_or_empty(&m.content));
            }
        }
        n = n - 1;
    }
    None
}

fn has_call_id(calls: &Vec<ToolCall>, id: &str) -> (r: bool)
    ensures
        r == has_call(calls_view(calls@), id@),
{
    let mut i: usize = 0;
    while i < calls.len()
        invariant
            i <= calls@.len(),
            forall|j: int| 0 <= j < i ==> (#[trigger] calls_view(calls@)[j]).id != id@,
        decreases calls@.len() - i,
    {
        assert(calls_view(calls@)[i as int] == calls@[i as int]@);
        if same(calls[i].id.as_str(), id) {
            return true;
        }
        i = i + 1;
    }
    false
}

fn push_line(out: &mut Vec<String>, line: String)
    ensures
        texts(final(out)@) == texts(old(out)@).push(line@),
{
    let ghost start = texts(out@);
    let ghost view = line@;
    out.push(line);
    assert(texts(out@) =~= start.push(view));
}

fn push_calls_lines(out: &mut Vec<String>, calls: &Vec<ToolCall>, tools: &[ChatMessage])
    ensures
        texts(final(out)@) == texts(old(out)@) + calls_lines(
            calls_view(calls@),
            messages_view(tools@),
            calls@.len() as int,
        ),
{
    let ghost start = texts(out@);
    let ghost cv = calls_view(calls@);
    let ghost tv = messages_view(tools@);
    let mut n: usize = 0;
    assert(texts(out@) =~= start + calls_lines(cv, tv, 0));
    while n < calls.len()
        invariant
            n <= calls@.len(),
            cv == calls_view(calls@),
            tv == messages_view(tools@),
            tv.len() == tools@.len(),
            texts(out@) == start + calls_lines(cv, tv, n as int),
        decreases calls@.len() - n,
    {
        let ghost before = texts(out@);
        let call = &calls[n];
        assert(cv[n as int] == call@);
        let mut first = owned("Tool ");
        first.append(call.function.name.as_str());
        first.append(" args: ");
        first.append(call.function.arguments.as_str());
        push_line(out, first);
        let mut second: String;
        match find_result(tools, call.id.as_str()) {
            Some(result) => {
                second = owned("Tool result: ");
                second.append(result.as_str());
            },
            None => {
                second = owned("Tool result missing for id: ");
                second.append(call.id.as_str());
            },
        }
        push_line(out, second);
        assert(texts(out@) =~= before + turn_lines(cv[n as int], tv));
        n = n + 1;
        assert(texts(out@) =~= start + calls_lines(cv, tv, n as int));
    }
}

fn push_unmatched_lines(
    out: &mut Vec<String>,
    calls: &Option<Vec<ToolCall>>,
    tools: &[ChatMessage],
)
    ensures
        texts(final(out)@) == texts(old(out)@) + unmatched_lines(
            (match opt_calls(*calls) {
                Some(c) => c,
                None => Seq::empty(),
            }),
            messages_view(tools@),
            tools@.len() as int,
        ),
{
    let ghost start = texts(out@);
    let ghost cv = match opt_calls(*calls) {
        Some(c) => c,
        None => Seq::empty(),
    };
    let ghost tv = messages_view(tools@);
    let mut n: usize = 0;
    assert(texts(out@) =~= start + unmatched_lines(cv, tv, 0));
    while n < tools.len()
        invariant
            n <= tools@.len(),
            cv == (match opt_calls(*calls) {
                Some(c) => c,
                None => Seq::empty(),
            }),
            tv == messages_view(tools@),
            texts(out@) == start + unmatched_lines(cv, tv, n as int),
        decreases tools@.len() - n,
    {
        let ghost before = texts(out@);
        let m = &tools[n];
        assert(tv[n as int] == m@);
        if let Some(id) = &m.tool_call_id {
            let known: bool = match calls {
                Some(c) => has_call_id(c, id.as_str()),
                None => false,
            };
            if !known {
                let mut line = owned("Tool result for unmatched id ");
                line.append(id.as_str());
                line.append(": ");
                line.append(text_or_empty(&m.content).as_str());
                push_line(out, line);
            }
        }
        n = n + 1;
        assert(texts(out@) =~= start + unmatched_lines(cv, tv, n as int));
    }
}

/// The plain message that stands for a turn with tools whose reasoning is lost.
pub fn summarize_deepseek_tool_turn_as_plain_assistant(
    assistant: &ChatMessage,
    tool_messages: &[ChatMessage],
) -> (r: ChatMessage)
    ensures
        r@ == summarized_turn(assistant@, messages_view(tool_messages@)),
{
    let ghost tv = messages_view(tool_messages@);
    let ghost none = Seq::<Seq<char>>::empty();
    let mut out: Vec<String> = Vec::new();
    assert(texts(out@) =~= none);
    push_line(
        &mut out,
        owned(
            "Prior tool turn replayed as plain context because DeepSeek omitted reasoning_content.",
        ),
    );
    let ghost o1 = texts(out@);
    assert(o1 =~= seq![
        "Prior tool turn replayed as plain context because DeepSeek omitted reasoning_content."@,
    ]);
    if let Some(content) = &assistant.content {
        if !content.as_str().is_empty() {
            let mut line = owned("Assistant content: ");
            line.append(content.as_str());
            push_line(&mut out, line);
        }
    }
    let ghost o2 = texts(out@);
    assert(o2 =~= o1 + (if says_something(assistant@) {
        seq!["Assistant content: "@ + assistant@.content->0]
    } else {
        none
    }));
    if let Some(calls) = &assistant.tool_calls {
        push_calls_lines(&mut out, calls, tool_messages);
        assert(calls_view(calls@).len() == calls@.len());
    } else {
        assert(texts(out@) =~= o2 + none);
    }
    push_unmatched_lines(&mut out, &assistant.tool_calls, tool_messages);
    assert(tv.len() == tool_messages@.len());
    assert(texts(out@) == summary_lines(assistant@, tv));
    ChatMessage {
        role: owned("assistant"),
        content: Some(join(&out, "\n")),
        images: None,
        thinking: Some(
            owned(
                "Historical tool turn summarized because the original DeepSeek response omitted reasoning_content.",
            ),
        ),
        anthropic_thinking_blocks: copy_opt_blocks(&assistant.anthropic_thinking_blocks),
        tool_calls: None,
        tool_call_id: None,
        timestamp: assistant.timestamp,
    }
}

/// Where the run of tool results that begins at `i` ends.
pub open spec fn tools_end(v: Seq<MessageView>, i: int) -> int
    decreases v.len() - i,
{
    if 0 <= i < v.len() && v[i].role == "tool"@ {
        tools_end(v, i + 1)
    } else {
        i
    }
}

proof fn lemma_tools_end(v: Seq<MessageView>, i: int)
    requires
        0 <= i <= v.len(),
    ensures
        i <= tools_end(v, i) <= v.len(),
    decreases v.len() - i,
{
    if i < v.len() && v[i].role == "tool"@ {
        lemma_tools_end(v, i + 1);
    }
}

/// The conversation from `i` on with each turn whose reasoning is lost replaced
/// by a plain message.
pub open spec fn repaired_from(v: Seq<MessageView>, i: int) -> Seq<MessageView>
    decreases v.len() - i,
{
    if i < 0 || i >= v.len() {
        Seq::empty()
    } else if !lacks_reasoning(v[i]) {
        seq![v[i]] + repaired_from(v, i + 1)
    } else {
        let next = tools_end(v, i + 1);
        if next <= i || next > v.len() {
            Seq::empty()
        } else {
            seq![summarized_turn(v[i], v.subrange(i + 1, next))] + repaired_from(v, next)
        }
    }
}

/// The conversation with each turn whose reasoning is lost replaced by a plain
/// message.
pub fn repair_deepseek_thinking_tool_history(messages: &Vec<ChatMessage>) -> (r: Vec<ChatMessage>)
    ensures
        messages_view(r@) == repaired_from(messages_view(messages@), 0),
{
    let ghost all = messages_view(messages@);
    let mut out: Vec<ChatMessage> = Vec::new();
    let mut i: usize = 0;
    assert(messages_view(out@) =~= Seq::empty());
    assert(messages_view(out@) + repaired_from(all, 0) =~= repaired_from(all, 0));
    while i < messages.len()
        invariant
            i <= messages@.len(),
            all == messages_view(messages@),
            messages_view(out@) + repaired_from(all, i as int) == repaired_from(all, 0),
        decreases messages@.len() - i,
    {
        let ghost before = messages_view(out@);
        assert(all[i as int] == messages@[i as int]@);
        if !deepseek_thinking_replay_needs_tool_turn_repair(&messages[i]) {
            let m = messages[i].copy();
            let ghost view = m@;
            out.push(m);
            assert(messages_view(out@) =~= before.push(view));
            i = i + 1;
            assert(messages_view(out@) + repaired_from(all, i as int) =~= before + (seq![view]
                + repaired_from(all, i as int)));
        } else {
            let mut next: usize = i + 1;
            let ghost end = tools_end(all, i + 1);
            proof {
                lemma_tools_end(all, i + 1);
            }
            while next < messages.len() && same(messages[next].role.as_str(), "tool")
                invariant
                    i < next <= messages@.len(),
                    all == messages_view(messages@),
                    all.len() == messages@.len(),
                    forall|k: int| 0 <= k < all.len() ==> #[trigger] all[k] == messages@[k]@,
                    tools_end(all, next as int) == end,
                ensures
                    next == end,
                    i < next <= messages@.len(),
                decreases messages@.len() - next,
            {
                next = next + 1;
            }
            let m = summarize_deepseek_tool_turn_as_plain_assistant(
                &messages[i],
                slice_subrange(messages.as_slice(), i + 1, next),
            );
            assert(messages_view(messages@.subrange(i + 1, next as int)) =~= all.subrange(
                i + 1,
                next as int,
            ));
            let ghost view = m@;
            out.push(m);
            assert(messages_view(out@) =~= before.push(view));
            assert(messages_view(out@) + repaired_from(all, next as int) =~= before + (seq![view]
                + repaired_from(all, next as int)));
            i = next;
        }
    }
    assert(messages_view(out@) + repaired_from(all, i as int) =~= messages_view(out@));
    out
}

/// Some message asks for tools and the reasoning behind it is lost.
pub open spec fn some_lacks_reasoning(v: Seq<MessageView>) -> bool {
    exists|i: int| 0 <= i < v.len() && lacks_reasoning(#[trigger] v[i])
}

/// The messages that are sent to a service.
pub open spec fn prepared_messages(
    m: ResolvedView,
    v: Seq<MessageView>,
    repair: bool,
) -> Seq<MessageView> {
    if repair && (m.provider is OpenAI || m.provider is OpenAIResponses) && is_deepseek(
        m.thinking_format,
    ) && some_lacks_reasoning(v) {
        repaired_from(v, 0)
    } else {
        v
    }
}

fn any_lacks_reasoning(messages: &Vec<ChatMessage>) -> (r: bool)
    ensures
        r == some_lacks_reasoning(messages_view(messages@)),
{
    let ghost all = messages_view(messages@);
    let mut i: usize = 0;
    while i < messages.len()
        invariant
            i <= messages@.len(),
            all == messages_view(messages@),
            forall|j: int| 0 <= j < i ==> !lacks_reasoning(#[trigger] all[j]),
        decreases messages@.len() - i,
    {
        assert(all[i as int] == messages@[i as int]@);
        if deepseek_thinking_replay_needs_tool_turn_repair(&messages[i]) {
            return true;
        }
        i = i + 1;
    }
    false
}

/// The messages that are sent to a service: where it is DeepSeek, repaired if
/// that is asked for.
pub fn prepare_openai_messages_for_request(
    resolved: &ResolvedModel,
    messages: &Vec<ChatMessage>,
    repair_deepseek_history: bool,
) -> (r: Vec<ChatMessage>)
    ensures
        messages_view(r@) == prepared_messages(
            resolved@,
            messages_view(messages@),
            repair_deepseek_history,
        ),
{
    if repair_deepseek_history && is_openai_family(resolved.provider) && names_deepseek(
        opt_slice_of(&resolved.thinking_format),
    ) && any_lacks_reasoning(messages) {
        repair_deepseek_thinking_tool_history(messages)
    } else {
        copy_messages(messages)
    }
}

proof fn lemma_repaired_from(v: Seq<MessageView>, i: int)
    requires
        0 <= i <= v.len(),
    ensures
        forall|k: int|
            0 <= k < repaired_from(v, i).len() ==> !lacks_reasoning(
                #[trigger] repaired_from(v, i)[k],
            ),
        !(exists|k: int| i <= k < v.len() && lacks_reasoning(#[trigger] v[k])) ==> repaired_from(
            v,
            i,
        ) == v.skip(i),
    decreases v.len() - i,
{
    if i < v.len() {
        lemma_tools_end(v, i + 1);
        let next = if lacks_reasoning(v[i]) {
            tools_end(v, i + 1)
        } else {
            i + 1
        };
        lemma_repaired_from(v, next);
        let r = repaired_from(v, i);
        let rest = repaired_from(v, next);
        assert(r.skip(1) =~= rest);
        assert forall|k: int| 0 <= k < r.len() implies !lacks_reasoning(#[trigger] r[k]) by {
            if k > 0 {
                assert(r[k] == rest[k - 1]);
            }
        }
        if !(exists|k: int| i <= k < v.len() && lacks_reasoning(#[trigger] v[k])) {
            assert(!lacks_reasoning(v[i]));
            assert(r =~= v.skip(i));
        }
    } else {
        assert(repaired_from(v, i) =~= v.skip(i));
    }
}

/// After the repair no turn with tools lacks its reasoning, and a conversation
/// that needs no repair stays as it is.
pub proof fn law_repair_complete(v: Seq<MessageView>)
    ensures
        !some_lacks_reasoning(repaired_from(v, 0)),
        !some_lacks_reasoning(v) ==> repaired_from(v, 0) == v,
{
    lemma_repaired_from(v, 0);
    assert(v.skip(0) =~= v);
}

} // verus!
