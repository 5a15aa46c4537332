//! What of a turn with tools is kept where its reasoning is lost.

use crate::chat::{MessageView, ToolCallView, calls_of, says_something};
use crate::providers::deepseek::{
    calls_lines, has_call, lacks_reasoning, result_for, summarized_turn, summary_lines,
    turn_lines, unmatched_lines,
};
use crate::text::{joined, or_empty};
use crate::within::{
    lemma_all_of, lemma_carries_over, lemma_in_either, lemma_joined_holds, lemma_within, occurs,
};
use vstd::prelude::*;
use vstd::string::*;

verus! {

/// A call's result is the words of the last message that answers it; there is one
/// exactly where some message answers it.
pub proof fn law_last_result(tools: Seq<MessageView>, id: Seq<char>, n: int)
    requires
        0 <= n <= tools.len(),
    ensures
        result_for(tools, id, n) is None <==> forall|k: int|
            0 <= k < n ==> (#[trigger] tools[k]).tool_call_id != Some(id),
        forall|k: int|
            0 <= k < n && (#[trigger] tools[k]).tool_call_id == Some(id) && (forall|l: int|
                k < l < n ==> (#[trigger] tools[l]).tool_call_id != Some(id)) ==> result_for(
                tools,
                id,
                n,
            ) == Some(
                if tools[k].content is Some {
                    tools[k].content->0
                } else {
                    Seq::empty()
                },
            ),
    decreases n,
{
    if n > 0 {
        law_last_result(tools, id, n - 1);
        let last = tools[n - 1];
    }
}

proof fn lemma_call_lines(calls: Seq<ToolCallView>, tools: Seq<MessageView>, n: int, i: int)
    requires
        0 <= i < n <= calls.len(),
    ensures
        calls_lines(calls, tools, n).len() == 2 * n,
        calls_lines(calls, tools, n)[2 * i] == turn_lines(calls[i], tools)[0],
        calls_lines(calls, tools, n)[2 * i + 1] == turn_lines(calls[i], tools)[1],
    decreases n,
{
    if i < n - 1 {
        lemma_call_lines(calls, tools, n - 1, i);
    } else {
        lemma_calls_len(calls, tools, n - 1);
    }
}

proof fn lemma_calls_len(calls: Seq<ToolCallView>, tools: Seq<MessageView>, n: int)
    requires
        0 <= n <= calls.len(),
    ensures
        calls_lines(calls, tools, n).len() == 2 * n,
    decreases n,
{
    if n > 0 {
        lemma_calls_len(calls, tools, n - 1);
    }
}

proof fn lemma_unmatched_line(calls: Seq<ToolCallView>, tools: Seq<MessageView>, n: int, i: int)
    requires
        0 <= i < n <= tools.len(),
        tools[i].tool_call_id is Some,
        !has_call(calls, tools[i].tool_call_id->0),
    ensures
        unmatched_lines(calls, tools, n).contains(
            "Tool result for unmatched id "@ + tools[i].tool_call_id->0 + ": "@ + or_empty(
                tools[i].content,
            ),
        ),
    decreases n,
{
    let line = "Tool result for unmatched id "@ + tools[i].tool_call_id->0 + ": "@ + or_empty(
        tools[i].content,
    );
    let all = unmatched_lines(calls, tools, n);
    if i < n - 1 {
        lemma_unmatched_line(calls, tools, n - 1, i);
        let before = unmatched_lines(calls, tools, n - 1);
        let k = choose|k: int| 0 <= k < before.len() && before[k] == line;
        assert(all[k] == line);
    } else {
        assert(all[all.len() - 1] == line);
    }
}

proof fn lemma_line_shown(m: MessageView, tools: Seq<MessageView>, k: int, x: Seq<char>)
    requires
        0 <= k < summary_lines(m, tools).len(),
        occurs(summary_lines(m, tools)[k], x),
    ensures
        occurs(summarized_turn(m, tools).content->0, x),
{
    let lines = summary_lines(m, tools);
    lemma_joined_holds(lines, "\n"@, k);
    lemma_carries_over(joined(lines, "\n"@), lines[k], x);
}

/// A summarized turn is a plain reply without calls or pictures, from the same
/// time, which tells what the reply said.
pub proof fn law_summary_is_plain(m: MessageView, tools: Seq<MessageView>)
    ensures
        ({
            let s = summarized_turn(m, tools);
            &&& s.role == "assistant"@
            &&& s.tool_calls is None && s.tool_call_id is None && s.images is None
            &&& s.timestamp == m.timestamp
            &&& s.thinking is Some && s.thinking->0.len() > 0
            &&& s.content is Some
            &&& says_something(m) ==> occurs(s.content->0, m.content->0)
            &&& !lacks_reasoning(s)
        }),
{
    reveal_strlit(
        "Historical tool turn summarized because the original DeepSeek response omitted reasoning_content.",
    );
    if says_something(m) {
        let c = m.content->0;
        lemma_all_of(c);
        lemma_in_either("Assistant content: "@, c, c);
        assert(summary_lines(m, tools)[1] == "Assistant content: "@ + c);
        lemma_line_shown(m, tools, 1, c);
    }
}

/// A summarized turn tells of every call the tool, what it was asked and what came
/// back, or that nothing came back.
pub proof fn law_summary_tells_calls(m: MessageView, tools: Seq<MessageView>, i: int)
    requires
        0 <= i < calls_of(m).len(),
    ensures
        ({
            let text = summarized_turn(m, tools).content->0;
            let call = calls_of(m)[i];
            let r = result_for(tools, call.id, tools.len() as int);
            &&& occurs(text, call.name)
            &&& occurs(text, call.arguments)
            &&& r is Some ==> occurs(text, "Tool result: "@ + r->0)
            &&& r is None ==> occurs(text, "Tool result missing for id: "@ + call.id)
        }),
{
    let calls = calls_of(m);
    let n = calls.len() as int;
    let call = calls[i];
    let none = Seq::<char>::empty();
    lemma_call_lines(calls, tools, n, i);
    let at: int = if says_something(m) {
        2
    } else {
        1
    };
    let lines = summary_lines(m, tools);
    assert(lines[at + 2 * i] == turn_lines(call, tools)[0]);
    assert(lines[at + 2 * i + 1] == turn_lines(call, tools)[1]);
    let first = "Tool "@ + call.name + " args: "@ + call.arguments;
    lemma_within("Tool "@, call.name, " args: "@ + call.arguments);
    assert("Tool "@ + call.name + (" args: "@ + call.arguments) =~= first);
    lemma_within("Tool "@ + call.name + " args: "@, call.arguments, none);
    assert("Tool "@ + call.name + " args: "@ + call.arguments + none =~= first);
    lemma_line_shown(m, tools, at + 2 * i, call.name);
    lemma_line_shown(m, tools, at + 2 * i, call.arguments);
    lemma_all_of(lines[at + 2 * i + 1]);
    lemma_line_shown(m, tools, at + 2 * i + 1, lines[at + 2 * i + 1]);
}

/// A summarized turn also tells every result that no call of it asked for.
pub proof fn law_summary_tells_strays(m: MessageView, tools: Seq<MessageView>, i: int)
    requires
        0 <= i < tools.len(),
        tools[i].tool_call_id is Some,
        forall|k: int|
            0 <= k < calls_of(m).len() ==> (#[trigger] calls_of(m)[k]).id
                != tools[i].tool_call_id->0,
    ensures
        occurs(summarized_turn(m, tools).content->0, tools[i].tool_call_id->0),
        tools[i].content is Some ==> occurs(
            summarized_turn(m, tools).content->0,
            tools[i].content->0,
        ),
{
    let calls = calls_of(m);
    let id = tools[i].tool_call_id->0;
    let c = or_empty(tools[i].content);
    let none = Seq::<char>::empty();
    lemma_unmatched_line(calls, tools, tools.len() as int, i);
    let strays = unmatched_lines(calls, tools, tools.len() as int);
    let line = "Tool result for unmatched id "@ + id + ": "@ + c;
    let k = choose|k: int| 0 <= k < strays.len() && strays[k] == line;
    let lines = summary_lines(m, tools);
    let at = lines.len() - strays.len() + k;
    assert(lines[at] == line);
    lemma_within("Tool result for unmatched id "@, id, ": "@ + c);
    assert("Tool result for unmatched id "@ + id + (": "@ + c) =~= line);
    lemma_within("Tool result for unmatched id "@ + id + ": "@, c, none);
    assert("Tool result for unmatched id "@ + id + ": "@ + c + none =~= line);
    lemma_line_shown(m, tools, at, id);
    lemma_line_shown(m, tools, at, c);
}

} // verus!
