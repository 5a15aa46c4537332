//! What turns are, what they take and which of them go.

use crate::chat::{MessageView, ToolCallView};
use crate::session::tokens::{
    call_bytes, continues_turn, first_turn, kept_from, lemma_tokens_split, lemma_turn_end_of,
    message_bytes, pruned, token_len, token_total, tokens_between, turn_end, turn_end_of,
};
use crate::text::byte_len;
use vstd::prelude::*;
use vstd::string::*;

verus! {

proof fn lemma_calls_add_up(a: Seq<ToolCallView>, b: Seq<ToolCallView>, n: int)
    requires
        0 <= n <= b.len(),
    ensures
        call_bytes(a + b, a.len() + n) == call_bytes(a, a.len() as int) + call_bytes(b, n),
    decreases n,
{
    if n > 0 {
        lemma_calls_add_up(a, b, n - 1);
        assert((a + b)[a.len() + n - 1] == b[n - 1]);
    } else {
        lemma_same_calls(a, b, a.len() as int);
    }
}

proof fn lemma_same_calls(a: Seq<ToolCallView>, b: Seq<ToolCallView>, n: int)
    requires
        0 <= n <= a.len(),
    ensures
        call_bytes(a + b, n) == call_bytes(a, n),
    decreases n,
{
    if n > 0 {
        lemma_same_calls(a, b, n - 1);
        assert((a + b)[n - 1] == a[n - 1]);
    }
}

/// A message takes a quarter of its bytes and ten more: those of its words, and
/// of the name and the arguments of every call. Calls add up.
pub proof fn law_tokens_of_a_message(m: MessageView, a: Seq<ToolCallView>, c: ToolCallView)
    ensures
        m.tool_calls is None && m.content is None ==> token_len(m) == 2,
        m.tool_calls is None && m.content is Some ==> 4 * token_len(m) <= byte_len(m.content->0)
            + 10 < 4 * token_len(m) + 4,
        m.tool_calls == Some(Seq::<ToolCallView>::empty()) ==> message_bytes(m) == message_bytes(
            MessageView { tool_calls: None, ..m },
        ),
        m.tool_calls == Some(a.push(c)) ==> message_bytes(m) == message_bytes(
            MessageView { tool_calls: Some(a), ..m },
        ) + byte_len(c.name) + byte_len(c.arguments),
        4 * token_len(m) <= message_bytes(m) + 10 < 4 * token_len(m) + 4,
{
    if m.tool_calls == Some(a.push(c)) {
        let one = seq![c];
        assert(a.push(c) =~= a + one);
        lemma_calls_add_up(a, one, 1);
        assert(call_bytes(one, 1) == call_bytes(one, 0) + byte_len(c.name) + byte_len(c.arguments));
    }
}

proof fn lemma_same_tokens(v: Seq<MessageView>, w: Seq<MessageView>, i: int, n: int)
    requires
        0 <= i <= n <= v.len(),
        n <= w.len(),
        forall|k: int| i <= k < n ==> v[k] == w[k],
    ensures
        tokens_between(v, i, n) == tokens_between(w, i, n),
    decreases n - i,
{
    if i < n {
        lemma_same_tokens(v, w, i, n - 1);
    }
}

/// A conversation takes what its messages take.
pub proof fn law_tokens_add_up(v: Seq<MessageView>, m: MessageView)
    ensures
        token_total(Seq::<MessageView>::empty()) == 0,
        token_total(v.push(m)) == token_total(v) + token_len(m),
{
    let n = v.len() as int;
    let w = v.push(m);
    assert(tokens_between(w, 0, n + 1) == tokens_between(w, 0, n) + token_len(w[n]));
    lemma_same_tokens(v, w, 0, n);
}

proof fn lemma_turn_goes_on(v: Seq<MessageView>, i: int, by_user: bool)
    requires
        0 <= i <= v.len(),
    ensures
        i <= turn_end(v, i, by_user) <= v.len(),
        forall|k: int|
            i <= k < turn_end(v, i, by_user) ==> (#[trigger] v[k]).role == "tool"@ || (by_user
                && v[k].role == "assistant"@),
        turn_end(v, i, by_user) < v.len() ==> v[turn_end(v, i, by_user)].role != "tool"@ && !(
        by_user && v[turn_end(v, i, by_user)].role == "assistant"@),
    decreases v.len() - i,
{
    if i < v.len() && continues_turn(v[i], by_user) {
        lemma_turn_goes_on(v, i + 1, by_user);
    }
}

/// A turn of the user runs over all replies and results behind it, a reply over
/// all results behind it, and anything else is a turn by itself.
pub proof fn law_turn(v: Seq<MessageView>, i: int)
    requires
        0 <= i < v.len(),
    ensures
        ({
            let e = turn_end_of(v, i);
            let user = v[i].role == "user"@;
            let reply = v[i].role == "assistant"@;
            &&& i < e <= v.len()
            &&& !user && !reply ==> e == i + 1
            &&& forall|k: int|
                i < k < e ==> (#[trigger] v[k]).role == "tool"@ || (user && v[k].role
                    == "assistant"@)
            &&& (user || reply) && e < v.len() ==> v[e].role != "tool"@
            &&& user && e < v.len() ==> v[e].role != "assistant"@
        }),
{
    lemma_turn_goes_on(v, i + 1, true);
    lemma_turn_goes_on(v, i + 1, false);
}

/// A turn begins at `k`, of those that begin at `i`.
pub open spec fn begins_turn(v: Seq<MessageView>, i: int, k: int) -> bool
    decreases v.len() - i,
{
    if i == k {
        true
    } else if 0 <= i < turn_end_of(v, i) <= v.len() {
        begins_turn(v, turn_end_of(v, i), k)
    } else {
        false
    }
}

proof fn lemma_turns_go_on(v: Seq<MessageView>, i: int, k: int)
    requires
        begins_turn(v, i, k),
    ensures
        i <= k,
    decreases v.len() - i,
{
    if i != k {
        lemma_turns_go_on(v, turn_end_of(v, i), k);
    }
}

proof fn lemma_only_what_must_go(v: Seq<MessageView>, i: int, head: nat, max: nat)
    requires
        0 <= i <= v.len(),
    ensures
        ({
            let k = kept_from(v, i, head, max);
            &&& i <= k <= v.len()
            &&& begins_turn(v, i, k)
            &&& forall|j: int|
                i <= j < k && #[trigger] begins_turn(v, i, j) ==> head + tokens_between(
                    v,
                    j,
                    v.len() as int,
                ) > max
        }),
    decreases v.len() - i,
{
    if i < v.len() {
        let next = turn_end_of(v, i);
        lemma_turn_end_of(v, i);
        if next < v.len() && head + tokens_between(v, i, v.len() as int) > max {
            lemma_only_what_must_go(v, next, head, max);
            let k = kept_from(v, next, head, max);
            assert(kept_from(v, i, head, max) == k);
            assert(begins_turn(v, i, k));
            assert forall|j: int| i <= j < k && #[trigger] begins_turn(v, i, j) implies head
                + tokens_between(v, j, v.len() as int) > max by {
                if j != i {
                    assert(begins_turn(v, next, j));
                    lemma_turns_go_on(v, next, j);
                }
            }
        }
    }
}

/// Only whole turns go, from the oldest on, and no more than must: from each turn
/// that goes on, the conversation would have been too long.
pub proof fn law_only_what_must_go(v: Seq<MessageView>, max: nat)
    ensures
        ({
            let s = if v.len() > 0 && v[0].role == "system"@ {
                1int
            } else {
                0
            };
            let gone = v.len() - pruned(v, max).len();
            &&& 0 <= gone <= v.len() - s
            &&& pruned(v, max) == v.take(s) + v.skip(s + gone)
            &&& begins_turn(v, s, s + gone)
            &&& forall|j: int|
                s <= j < s + gone && #[trigger] begins_turn(v, s, j) ==> token_total(
                    v.take(s) + v.skip(j),
                ) > max
        }),
{
    let s = first_turn(v);
    let head = tokens_between(v, 0, s);
    let k = kept_from(v, s, head, max);
    lemma_only_what_must_go(v, s, head, max);
    assert forall|j: int| s <= j < k && #[trigger] begins_turn(v, s, j) implies token_total(
        v.take(s) + v.skip(j),
    ) > max by {
        let w = v.take(s) + v.skip(j);
        let n = w.len() as int;
        lemma_tokens_split(w, 0, s, n);
        lemma_same_tokens(v, w, 0, s);
        lemma_shifted_tokens(v, w, j, s, n - s);
    }
}

proof fn lemma_shifted_tokens(v: Seq<MessageView>, w: Seq<MessageView>, j: int, s: int, n: int)
    requires
        0 <= j,
        0 <= s,
        0 <= n,
        j + n <= v.len(),
        s + n <= w.len(),
        forall|k: int| s <= k < s + n ==> #[trigger] w[k] == v[k - s + j],
    ensures
        tokens_between(v, j, j + n) == tokens_between(w, s, s + n),
    decreases n,
{
    if n > 0 {
        lemma_shifted_tokens(v, w, j, s, n - 1);
        assert(w[s + n - 1] == v[j + n - 1]);
    }
}

} // verus!
