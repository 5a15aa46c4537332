//! Which messages of a stored conversation stay.

use crate::chat::{MessageView, calls_of};
use crate::session::history::{answered, first_incomplete, is_complete, without_empty_replies};
use vstd::prelude::*;
use vstd::string::*;

verus! {

proof fn lemma_speaking(v: Seq<MessageView>, n: int)
    requires
        0 <= n <= v.len(),
    ensures
        without_empty_replies(v, n) == v.take(n).filter(
            |m: MessageView|
                m.role != "assistant"@ || (m.content is Some && m.content->0.len() > 0) || (
                m.tool_calls is Some && m.tool_calls->0.len() > 0),
        ),
    decreases n,
{
    reveal(Seq::filter);
    if n > 0 {
        lemma_speaking(v, n - 1);
        assert(v.take(n).drop_last() =~= v.take(n - 1));
        assert(v.take(n).last() == v[n - 1]);
    }
}

/// Exactly the replies without words and without calls go.
pub proof fn law_speaking_messages_stay(v: Seq<MessageView>)
    ensures
        without_empty_replies(v, v.len() as int) == v.filter(
            |m: MessageView|
                m.role != "assistant"@ || (m.content is Some && m.content->0.len() > 0) || (
                m.tool_calls is Some && m.tool_calls->0.len() > 0),
        ),
{
    lemma_speaking(v, v.len() as int);
    assert(v.take(v.len() as int) =~= v);
}

/// The message at `k` answers the call, and only results of tools stand from `i`
/// up to it.
pub open spec fn answers_at(v: Seq<MessageView>, i: int, id: Seq<char>, k: int) -> bool {
    &&& i <= k < v.len()
    &&& v[k].tool_call_id == Some(id)
    &&& forall|j: int| i <= j <= k ==> (#[trigger] v[j]).role == "tool"@
}

/// A call is answered exactly where one of the results right behind it names it.
pub proof fn law_answered(v: Seq<MessageView>, i: int, id: Seq<char>)
    requires
        0 <= i <= v.len(),
    ensures
        answered(v, i, id) <==> exists|k: int| answers_at(v, i, id, k),
    decreases v.len() - i,
{
    if i < v.len() {
        let next = i + 1;
        law_answered(v, next, id);
        if answered(v, i, id) {
            if v[i].tool_call_id == Some(id) {
                assert(answers_at(v, i, id, i));
            } else {
                let k = choose|k: int| answers_at(v, next, id, k);
                assert(answers_at(v, i, id, k));
            }
        }
        if exists|k: int| answers_at(v, i, id, k) {
            let k = choose|k: int| answers_at(v, i, id, k);
            assert(v[i].role == "tool"@);
            if k != i {
                assert(answers_at(v, next, id, k));
            }
        }
    }
}

/// The conversation is cut at the first reply with a call that nothing answers,
/// and stays whole where there is none.
pub proof fn law_cut_at_first_open_call(v: Seq<MessageView>, i: int)
    requires
        0 <= i <= v.len(),
    ensures
        ({
            let e = first_incomplete(v, i);
            &&& i <= e <= v.len()
            &&& forall|j: int, c: int|
                i <= j < e && v[j].role == "assistant"@ && 0 <= c < calls_of(v[j]).len()
                    ==> answered(v, j + 1, (#[trigger] calls_of(v[j])[c]).id)
            &&& e < v.len() ==> v[e].role == "assistant"@ && exists|c: int|
                0 <= c < calls_of(v[e]).len() && !answered(
                    v,
                    e + 1,
                    (#[trigger] calls_of(v[e])[c]).id,
                )
        }),
    decreases v.len() - i,
{
    if i < v.len() {
        if is_complete(v, i) {
            law_cut_at_first_open_call(v, i + 1);
            assert forall|j: int, c: int|
                i <= j < first_incomplete(v, i) && v[j].role == "assistant"@ && 0 <= c < calls_of(
                    v[j],
                ).len() implies answered(v, j + 1, (#[trigger] calls_of(v[j])[c]).id) by {
                if j == i {
                    assert(v[i].tool_calls->0[c] == calls_of(v[i])[c]);
                }
            }
        } else {
            let c = choose|c: int|
                0 <= c < v[i].tool_calls->0.len() && !answered(
                    v,
                    i + 1,
                    (#[trigger] v[i].tool_calls->0[c]).id,
                );
            assert(!answered(v, i + 1, calls_of(v[i])[c].id));
        }
    }
}

} // verus!
