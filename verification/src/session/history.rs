//! Conversations as they are stored and loaded.

use crate::chat::{
    ChatMessage, MessageView, ToolCall, calls_tools, calls_view, messages_view, says_something,
};
use crate::text::same;
use vstd::prelude::*;
use vstd::string::*;

verus! {

/// A reply that says nothing and asks for nothing.
pub open spec fn is_empty_reply(m: MessageView) -> bool {
    m.role == "assistant"@ && !says_something(m) && !calls_tools(m)
}

/// The first `n` messages without empty replies.
pub open spec fn without_empty_replies(v: Seq<MessageView>, n: int) -> Seq<MessageView>
    decreases n,
{
    if n <= 0 {
        Seq::empty()
    } else if is_empty_reply(v[n - 1]) {
        without_empty_replies(v, n - 1)
    } else {
        without_empty_replies(v, n - 1).push(v[n - 1])
    }
}

/// Takes replies that say nothing and ask for nothing out of a conversation.
pub fn sanitize_session_messages(messages: &mut Vec<ChatMessage>)
    ensures
        messages_view(final(messages)@) == without_empty_replies(
            messages_view(old(messages)@),
            old(messages)@.len() as int,
        ),
{
    let ghost all = messages_view(messages@);
    let mut out: Vec<ChatMessage> = Vec::new();
    let mut n: usize = 0;
    assert(messages_view(out@) =~= Seq::empty());
    while n < messages.len()
        invariant
            n <= messages@.len(),
            messages@ == old(messages)@,
            all == messages_view(messages@),
            messages_view(out@) == without_empty_replies(all, n as int),
        decreases messages@.len() - n,
    {
        assert(all[n as int] == messages@[n as int]@);
        if !messages[n].is_empty_assistant_message() {
            let ghost before = messages_view(out@);
            let m = messages[n].copy();
            let ghost view = m@;
            out.push(m);
            assert(messages_view(out@) =~= before.push(view));
        }
        n = n + 1;
    }
    *messages = out;
}

/// The run of results from `i` on holds one for the call `id`.
pub open spec fn answered(v: Seq<MessageView>, i: int, id: Seq<char>) -> bool
    decreases v.len() - i,
{
    if i < 0 || i >= v.len() || v[i].role != "tool"@ {
        false
    } else {
        v[i].tool_call_id == Some(id) || answered(v, i + 1, id)
    }
}

/// Every call of the message at `i` is answered right behind it.
pub open spec fn is_complete(v: Seq<MessageView>, i: int) -> bool {
    v[i].role == "assistant"@ && v[i].tool_calls is Some ==> forall|k: int|
        0 <= k < v[i].tool_calls->0.len() ==> answered(
            v,
            i + 1,
            (#[trigger] v[i].tool_calls->0[k]).id,
        )
}

/// The first message from `i` on whose calls are not all answered.
pub open spec fn first_incomplete(v: Seq<MessageView>, i: int) -> int
    decreases v.len() - i,
{
    if i < 0 || i >= v.len() {
        v.len() as int
    } else if is_complete(v, i) {
        first_incomplete(v, i + 1)
    } else {
        i
    }
}

fn find_answer(messages: &Vec<ChatMessage>, from: usize, id: &str) -> (r: bool)
    requires
        from <= messages@.len(),
    ensures
        r == answered(messages_view(messages@), from as int, id@),
{
    let ghost all = messages_view(messages@);
    assert(all.len() == messages@.len());
    let mut i: usize = from;
    while i < messages.len()
        invariant
            from <= i <= messages@.len() == all.len(),
            all == messages_view(messages@),
            answered(all, from as int, id@) == answered(all, i as int, id@),
        decreases messages@.len() - i,
    {
        assert(all[i as int] == messages@[i as int]@);
        if !same(messages[i].role.as_str(), "tool") {
            return false;
        }
        if let Some(t) = &messages[i].tool_call_id {
            if same(t.as_str(), id) {
                return true;
            }
        }
        i = i + 1;
    }
    false
}

fn all_answered(messages: &Vec<ChatMessage>, i: usize, calls: &Vec<ToolCall>) -> (r: bool)
    requires
        i < messages@.len(),
    ensures
        r == forall|k: int|
            0 <= k < calls_view(calls@).len() ==> answered(
                messages_view(messages@),
                i + 1,
                (#[trigger] calls_view(calls@)[k]).id,
            ),
{
    let ghost all = calls_view(calls@);
    let ghost v = messages_view(messages@);
    let total: usize = messages.len();
    assert(all.len() == calls@.len());
    let mut k: usize = 0;
    while k < calls.len()
        invariant
            k <= calls@.len() == all.len(),
            i < total == messages@.len(),
            all == calls_view(calls@),
            v == messages_view(messages@),
            forall|j: int| 0 <= j < k ==> answered(v, i + 1, (#[trigger] all[j]).id),
        decreases calls@.len() - k,
    {
        assert(all[k as int] == calls@[k as int]@);
        if !find_answer(messages, i + 1, calls[k].id.as_str()) {
            assert(!answered(v, i + 1, all[k as int].id));
            return false;
        }
        k = k + 1;
    }
    true
}

fn complete_at(messages: &Vec<ChatMessage>, i: usize) -> (r: bool)
    requires
        i < messages@.len(),
    ensures
        r == is_complete(messages_view(messages@), i as int),
{
    assert(messages_view(messages@)[i as int] == messages@[i as int]@);
    if !same(messages[i].role.as_str(), "assistant") {
        return true;
    }
    match &messages[i].tool_calls {
        Some(calls) => all_answered(messages, i, calls),
        None => true,
    }
}

/// Cuts a conversation off before the first reply whose tool calls are not all
/// answered, so that no service ever sees a torn exchange.
pub fn trim_incomplete_tool_calls(messages: &mut Vec<ChatMessage>)
    ensures
        messages_view(final(messages)@) == messages_view(old(messages)@).take(
            first_incomplete(messages_view(old(messages)@), 0),
        ),
{
    let ghost all = messages_view(messages@);
    assert(all.len() == messages@.len());
    let mut i: usize = 0;
    while i < messages.len()
        invariant
            i <= messages@.len() == all.len(),
            messages@ == old(messages)@,
            all == messages_view(messages@),
            first_incomplete(all, 0) == first_incomplete(all, i as int),
        decreases messages@.len() - i,
    {
        if !complete_at(messages, i) {
            messages.truncate(i);
            assert(messages_view(messages@) =~= all.take(i as int));
            return;
        }
        i = i + 1;
    }
    assert(all.take(i as int) =~= all);
}

proof fn lemma_first_incomplete(v: Seq<MessageView>, i: int, k: int)
    requires
        0 <= i <= k < first_incomplete(v, i),
    ensures
        k < v.len(),
        is_complete(v, k),
    decreases v.len() - i,
{
    if i < v.len() && is_complete(v, i) && i < k {
        lemma_first_incomplete(v, i + 1, k);
    }
}

proof fn lemma_first_incomplete_range(v: Seq<MessageView>, i: int)
    requires
        0 <= i <= v.len(),
    ensures
        i <= first_incomplete(v, i) <= v.len(),
    decreases v.len() - i,
{
    if i < v.len() && is_complete(v, i) {
        lemma_first_incomplete_range(v, i + 1);
    }
}

/// A reply whose calls are all answered is never cut off while what stands
/// before it is kept, and a conversation without torn exchanges stays whole.
pub proof fn law_trim_spares_complete(v: Seq<MessageView>)
    ensures
        0 <= first_incomplete(v, 0) <= v.len(),
        forall|k: int|
            0 <= k < first_incomplete(v, 0) ==> #[trigger] is_complete(v, k),
        first_incomplete(v, 0) < v.len() ==> !is_complete(v, first_incomplete(v, 0)),
{
    lemma_first_incomplete_range(v, 0);
    assert forall|k: int| 0 <= k < first_incomplete(v, 0) implies #[trigger] is_complete(v, k) by {
        lemma_first_incomplete(v, 0, k);
    }
    lemma_stop_is_incomplete(v, 0);
}

proof fn lemma_stop_is_incomplete(v: Seq<MessageView>, i: int)
    requires
        0 <= i <= v.len(),
    ensures
        first_incomplete(v, i) < v.len() ==> !is_complete(v, first_incomplete(v, i)),
    decreases v.len() - i,
{
    if i < v.len() && is_complete(v, i) {
        lemma_stop_is_incomplete(v, i + 1);
    }
}

proof fn lemma_no_empty_reply(v: Seq<MessageView>, n: int)
    ensures
        forall|k: int|
            0 <= k < without_empty_replies(v, n).len() ==> !is_empty_reply(
                #[trigger] without_empty_replies(v, n)[k],
            ),
    decreases n,
{
    if n > 0 {
        lemma_no_empty_reply(v, n - 1);
        let a = without_empty_replies(v, n - 1);
        let b = without_empty_replies(v, n);
        assert forall|k: int| 0 <= k < b.len() implies !is_empty_reply(#[trigger] b[k]) by {
            if k < a.len() {
                assert(b[k] == a[k]);
            }
        }
    }
}

/// What is stored holds no empty reply.
pub proof fn law_no_empty_reply(v: Seq<MessageView>)
    ensures
        forall|k: int|
            0 <= k < without_empty_replies(v, v.len() as int).len() ==> !is_empty_reply(
                #[trigger] without_empty_replies(v, v.len() as int)[k],
            ),
{
    lemma_no_empty_reply(v, v.len() as int);
}

} // verus!
