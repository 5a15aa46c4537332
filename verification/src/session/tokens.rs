//! How long conversations are, and how they are kept short.

use crate::chat::{ChatMessage, MessageView, ToolCall, ToolCallView, calls_view, messages_view};
use crate::text::{byte_count, byte_len, same};
use vstd::prelude::*;
use vstd::string::*;

verus! {

/// The bytes of the first `n` tool calls that count.
pub open spec fn call_bytes(v: Seq<ToolCallView>, n: int) -> nat
    decreases n,
{
    if n <= 0 {
        0
    } else {
        call_bytes(v, n - 1) + byte_len(v[n - 1].name) + byte_len(v[n - 1].arguments)
    }
}

/// The bytes of a message that count.
pub open spec fn message_bytes(m: MessageView) -> nat {
    (match m.content {
        Some(c) => byte_len(c),
        None => 0,
    }) + (match m.tool_calls {
        Some(v) => call_bytes(v, v.len() as int),
        None => 0,
    })
}

/// The tokens that a message takes, by a rule of thumb.
pub open spec fn token_len(m: MessageView) -> nat {
    (message_bytes(m) + 10) / 4
}

/// The tokens that the messages from `i` up to `n` take.
pub open spec fn tokens_between(v: Seq<MessageView>, i: int, n: int) -> nat
    decreases n - i,
{
    if n <= i {
        0
    } else {
        tokens_between(v, i, n - 1) + token_len(v[n - 1])
    }
}

/// The tokens that a conversation takes.
pub open spec fn token_total(v: Seq<MessageView>) -> nat {
    tokens_between(v, 0, v.len() as int)
}

proof fn lemma_call_bytes(v: Seq<ToolCallView>, n: int, k: int)
    requires
        0 <= n <= k,
    ensures
        call_bytes(v, n) <= call_bytes(v, k),
    decreases k,
{
    if n < k {
        lemma_call_bytes(v, n, k - 1);
    }
}

pub proof fn lemma_tokens_split(v: Seq<MessageView>, i: int, k: int, n: int)
    requires
        i <= k <= n,
    ensures
        tokens_between(v, i, n) == tokens_between(v, i, k) + tokens_between(v, k, n),
    decreases n - k,
{
    if k < n {
        lemma_tokens_split(v, i, k, n - 1);
    }
}

fn count_call_bytes(calls: &Vec<ToolCall>) -> (r: usize)
    requires
        call_bytes(calls_view(calls@), calls@.len() as int) <= usize::MAX,
    ensures
        r == call_bytes(calls_view(calls@), calls@.len() as int),
{
    let ghost all = calls_view(calls@);
    let mut total: usize = 0;
    let mut n: usize = 0;
    while n < calls.len()
        invariant
            n <= calls@.len(),
            all == calls_view(calls@),
            call_bytes(all, calls@.len() as int) <= usize::MAX,
            total == call_bytes(all, n as int),
        decreases calls@.len() - n,
    {
        assert(all[n as int] == calls@[n as int]@);
        proof {
            lemma_call_bytes(all, n + 1, calls@.len() as int);
        }
        let a: usize = byte_count(calls[n].function.name.as_str());
        let b: usize = byte_count(calls[n].function.arguments.as_str());
        total = total + a + b;
        n = n + 1;
    }
    total
}

/// The tokens that a message takes, by a rule of thumb: a quarter of its bytes.
pub fn message_token_len(message: &ChatMessage) -> (r: usize)
    requires
        message_bytes(message@) + 10 <= usize::MAX,
    ensures
        r == token_len(message@),
{
    let content: usize = match &message.content {
        Some(c) => byte_count(c.as_str()),
        None => 0,
    };
    let calls: usize = match &message.tool_calls {
        Some(v) => {
            assert(calls_view(v@).len() == v@.len());
            count_call_bytes(v)
        },
        None => 0,
    };
    (content + calls + 10) / 4
}

/// Every message can be counted, and so can all together.
pub open spec fn countable(v: Seq<MessageView>) -> bool {
    &&& forall|i: int| 0 <= i < v.len() ==> message_bytes(#[trigger] v[i]) + 10 <= usize::MAX
    &&& token_total(v) <= usize::MAX
}

fn count_between(messages: &Vec<ChatMessage>, from: usize, to: usize) -> (r: usize)
    requires
        from <= to <= messages@.len(),
        countable(messages_view(messages@)),
    ensures
        r == tokens_between(messages_view(messages@), from as int, to as int),
{
    let ghost all = messages_view(messages@);
    assert(all.len() == messages@.len());
    let mut total: usize = 0;
    let mut n: usize = from;
    while n < to
        invariant
            from <= n <= to <= messages@.len(),
            all == messages_view(messages@),
            all.len() == messages@.len(),
            countable(all),
            total == tokens_between(all, from as int, n as int),
        decreases to - n,
    {
        assert(all[n as int] == messages@[n as int]@);
        proof {
            lemma_tokens_split(all, 0, from as int, n + 1);
            lemma_tokens_split(all, 0, n + 1, all.len() as int);
        }
        total = total + message_token_len(&messages[n]);
        n = n + 1;
    }
    total
}

/// The tokens that a conversation takes.
pub fn estimate_tokens(messages: &Vec<ChatMessage>) -> (r: usize)
    requires
        countable(messages_view(messages@)),
    ensures
        r == token_total(messages_view(messages@)),
{
    assert(messages_view(messages@).len() == messages@.len());
    count_between(messages, 0, messages.len())
}

// ---------------------------------------------------------------------------
// Turns
// ---------------------------------------------------------------------------

/// The message is part of the turn that another message began: a result of a
/// tool, or, where the user began the turn, also a reply.
pub open spec fn continues_turn(m: MessageView, began_by_user: bool) -> bool {
    m.role == "tool"@ || (began_by_user && m.role == "assistant"@)
}

/// Where the turn ends that goes on at `i`.
pub open spec fn turn_end(v: Seq<MessageView>, i: int, began_by_user: bool) -> int
    decreases v.len() - i,
{
    if 0 <= i < v.len() && continues_turn(v[i], began_by_user) {
        turn_end(v, i + 1, began_by_user)
    } else {
        i
    }
}

/// Where the turn ends that begins at `i`.
pub open spec fn turn_end_of(v: Seq<MessageView>, i: int) -> int {
    if i < 0 || i >= v.len() {
        i
    } else if v[i].role == "user"@ {
        turn_end(v, i + 1, true)
    } else if v[i].role == "assistant"@ {
        turn_end(v, i + 1, false)
    } else {
        i + 1
    }
}

proof fn lemma_turn_end(v: Seq<MessageView>, i: int, began_by_user: bool)
    requires
        0 <= i <= v.len(),
    ensures
        i <= turn_end(v, i, began_by_user) <= v.len(),
    decreases v.len() - i,
{
    if i < v.len() && continues_turn(v[i], began_by_user) {
        lemma_turn_end(v, i + 1, began_by_user);
    }
}

/// How many messages the turn has that begins at `start`.
pub fn turn_len(messages: &Vec<ChatMessage>, start: usize) -> (r: usize)
    requires
        start < messages@.len(),
    ensures
        r == turn_end_of(messages_view(messages@), start as int) - start,
        0 < r <= messages@.len() - start,
{
    let ghost all = messages_view(messages@);
    assert(all.len() == messages@.len());
    assert(all[start as int] == messages@[start as int]@);
    let by_user: bool = same(messages[start].role.as_str(), "user");
    if !by_user && !same(messages[start].role.as_str(), "assistant") {
        return 1;
    }
    let ghost end = turn_end(all, start + 1, by_user);
    let total: usize = messages.len();
    proof {
        lemma_turn_end(all, start + 1, by_user);
    }
    assert(start < total);
    let mut n: usize = start + 1;
    while n < messages.len() && (same(messages[n].role.as_str(), "tool") || (by_user && same(
        messages[n].role.as_str(),
        "assistant",
    )))
        invariant
            start < n <= messages@.len(),
            all == messages_view(messages@),
            all.len() == messages@.len(),
            forall|k: int| 0 <= k < all.len() ==> #[trigger] all[k] == messages@[k]@,
            turn_end(all, n as int, by_user) == end,
        ensures
            n == end,
            start < n <= messages@.len(),
        decreases messages@.len() - n,
    {
        n = n + 1;
    }
    n - start
}

/// Where the turns begin that may be dropped: behind the instructions of the
/// system, where there are any.
pub open spec fn first_turn(v: Seq<MessageView>) -> int {
    if v.len() > 0 && v[0].role == "system"@ {
        1
    } else {
        0
    }
}

/// Where what is kept begins, from `i` on: whole turns are dropped until the
/// rest and what stands before the turns take no more than `max`, but never the
/// last turn.
pub open spec fn kept_from(v: Seq<MessageView>, i: int, head: nat, max: nat) -> int
    decreases v.len() - i,
{
    let next = turn_end_of(v, i);
    if i < 0 || i >= v.len() || next <= i || next >= v.len() || head + tokens_between(
        v,
        i,
        v.len() as int,
    ) <= max {
        i
    } else {
        kept_from(v, next, head, max)
    }
}

/// A conversation without its oldest turns.
pub open spec fn pruned(v: Seq<MessageView>, max: nat) -> Seq<MessageView> {
    let s = first_turn(v);
    v.take(s) + v.skip(kept_from(v, s, tokens_between(v, 0, s), max))
}

pub proof fn lemma_turn_end_of(v: Seq<MessageView>, i: int)
    requires
        0 <= i < v.len(),
    ensures
        i < turn_end_of(v, i) <= v.len(),
{
    lemma_turn_end(v, i + 1, true);
    lemma_turn_end(v, i + 1, false);
}

fn find_kept(messages: &Vec<ChatMessage>, start: usize, max_tokens: usize) -> (r: usize)
    requires
        start <= messages@.len(),
        countable(messages_view(messages@)),
    ensures
        r == kept_from(
            messages_view(messages@),
            start as int,
            tokens_between(messages_view(messages@), 0, start as int),
            max_tokens as nat,
        ),
        start <= r <= messages@.len(),
{
    let ghost all = messages_view(messages@);
    let ghost n = messages@.len() as int;
    assert(all.len() == n);
    let ghost head = tokens_between(all, 0, start as int);
    let mut total: usize = estimate_tokens(messages);
    let mut i: usize = start;
    proof {
        lemma_tokens_split(all, 0, start as int, n);
    }
    while i < messages.len() && total > max_tokens
        invariant
            start <= i <= messages@.len(),
            n == messages@.len() == all.len(),
            all == messages_view(messages@),
            countable(all),
            head == tokens_between(all, 0, start as int),
            total == head + tokens_between(all, i as int, n),
            kept_from(all, i as int, head, max_tokens as nat) == kept_from(
                all,
                start as int,
                head,
                max_tokens as nat,
            ),
        decreases messages@.len() - i,
    {
        proof {
            lemma_turn_end_of(all, i as int);
        }
        let len: usize = turn_len(messages, i);
        if len == messages.len() - i {
            return i;
        }
        proof {
            lemma_tokens_split(all, i as int, i + len, n);
        }
        total = total - count_between(messages, i, i + len);
        i = i + len;
    }
    i
}

/// Drops the oldest turns of a conversation until it takes no more than
/// `max_tokens`, or only the last turn is left. The instructions of the system
/// stay.
pub fn prune_messages(messages: &mut Vec<ChatMessage>, max_tokens: usize)
    requires
        countable(messages_view(old(messages)@)),
    ensures
        messages_view(final(messages)@) == pruned(
            messages_view(old(messages)@),
            max_tokens as nat,
        ),
{
    let ghost all = messages_view(messages@);
    assert(all.len() == messages@.len());
    if messages.len() > 0 {
        assert(all[0] == messages@[0]@);
    }
    let start: usize = if messages.len() > 0 && same(messages[0].role.as_str(), "system") {
        1
    } else {
        0
    };
    let from: usize = find_kept(messages, start, max_tokens);
    let mut out: Vec<ChatMessage> = Vec::new();
    if start == 1 {
        out.push(messages[0].copy());
    }
    assert(messages_view(out@) =~= all.take(start as int));
    let mut i: usize = from;
    assert(messages_view(out@) =~= all.take(start as int) + all.skip(from as int).take(0));
    while i < messages.len()
        invariant
            from <= i <= messages@.len(),
            all == messages_view(messages@),
            messages@ == old(messages)@,
            messages_view(out@) == all.take(start as int) + all.skip(from as int).take(i - from),
        decreases messages@.len() - i,
    {
        let ghost before = messages_view(out@);
        let m = messages[i].copy();
        assert(all.skip(from as int)[i - from] == m@);
        let ghost view = m@;
        out.push(m);
        assert(messages_view(out@) =~= before.push(view));
        i = i + 1;
        assert(messages_view(out@) =~= all.take(start as int) + all.skip(from as int).take(
            i - from,
        ));
    }
    assert(all.skip(from as int).take(i - from) =~= all.skip(from as int));
    *messages = out;
}

proof fn lemma_fits_or_last(v: Seq<MessageView>, i: int, head: nat, max: nat)
    requires
        0 <= i < v.len(),
    ensures
        ({
            let k = kept_from(v, i, head, max);
            i <= k < v.len() && (head + tokens_between(v, k, v.len() as int) <= max || turn_end_of(
                v,
                k,
            ) == v.len())
        }),
    decreases v.len() - i,
{
    let next = turn_end_of(v, i);
    lemma_turn_end_of(v, i);
    if next < v.len() && head + tokens_between(v, i, v.len() as int) > max {
        lemma_fits_or_last(v, next, head, max);
    }
}

/// What is kept is the end of the conversation with the instructions of the
/// system, the last message always among it; it fits, or is a single turn.
pub proof fn law_prune_keeps_the_end(v: Seq<MessageView>, max: nat)
    requires
        v.len() > first_turn(v),
    ensures
        ({
            let s = first_turn(v);
            let k = kept_from(v, s, tokens_between(v, 0, s), max);
            &&& s <= k < v.len()
            &&& pruned(v, max).last() == v.last()
            &&& s == 1 ==> pruned(v, max)[0] == v[0]
            &&& tokens_between(v, 0, s) + tokens_between(v, k, v.len() as int) <= max
                || turn_end_of(v, k) == v.len()
        }),
{
    let s = first_turn(v);
    lemma_fits_or_last(v, s, tokens_between(v, 0, s), max);
    let k = kept_from(v, s, tokens_between(v, 0, s), max);
    assert(v.skip(k).last() == v.last());
}

/// A conversation that is short enough stays as it is.
pub proof fn law_prune_spares_short(v: Seq<MessageView>, max: nat)
    requires
        token_total(v) <= max,
    ensures
        pruned(v, max) == v,
{
    let s = first_turn(v);
    lemma_tokens_split(v, 0, s, v.len() as int);
    assert(kept_from(v, s, tokens_between(v, 0, s), max) == s);
    assert(v.take(s) + v.skip(s) =~= v);
}

} // verus!
