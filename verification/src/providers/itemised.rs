//! What the streamed and the whole replies of OpenAI's responses come to, and
//! what every reply keeps of what was collected.

use crate::chat::{BlockView, ToolCallView};
use crate::json::{JsonView, member};
use crate::providers::reply::{
    Moment, collected_response, fallback_id, id_taken, law_response_id_round_trip,
    lemma_with_ids_len, lemma_with_ids_origin, response_id_of, sendable, with_ids,
};
use crate::providers::responses::{parts_upto, responses_reply, words_upto};
use crate::providers::responses_stream::{
    ItemFlow, after_responses_event, calls_exist, streamed_reply,
};
use crate::text::{decimal_spec, ends, holds_text, stands_at, trimmed};
use vstd::prelude::*;
use vstd::string::*;

verus! {

// ---------------------------------------------------------------------------
// Every reply
// ---------------------------------------------------------------------------

/// A reply holds the answer, the reasoning and the calls that were collected,
/// and none of them where none was. Each call keeps what it asks for and, unless
/// it is blank or taken by a call before it, its identifier.
pub proof fn law_reply_holds_what_was_collected(
    content: Seq<char>,
    thinking: Seq<char>,
    calls: Seq<ToolCallView>,
    input_tokens: Option<u64>,
    output_tokens: Option<u64>,
    now: Moment,
)
    ensures
        ({
            let r = collected_response(content, thinking, calls, input_tokens, output_tokens, now);
            let m = r.message;
            &&& m.role == "assistant"@
            &&& content.len() > 0 ==> m.content == Some(content)
            &&& content.len() == 0 ==> m.content is None
            &&& thinking.len() > 0 ==> m.thinking == Some(thinking)
            &&& thinking.len() == 0 ==> m.thinking is None
            &&& calls.len() == 0 <==> m.tool_calls is None
            &&& calls.len() > 0 ==> m.tool_calls->0.len() == calls.len()
            &&& forall|i: int|
                0 <= i < calls.len() ==> {
                    let c = #[trigger] m.tool_calls->0[i];
                    &&& c.name == calls[i].name
                    &&& c.arguments == calls[i].arguments
                    &&& c.call_type == calls[i].call_type
                    &&& c.gemini_thought_signature == calls[i].gemini_thought_signature
                    &&& c.id == (if trimmed(calls[i].id).len() > 0 && (forall|j: int|
                        0 <= j < i ==> (#[trigger] m.tool_calls->0[j]).id != calls[i].id) {
                        calls[i].id
                    } else {
                        "tool_call_"@ + decimal_spec(now.nanos as nat) + "_"@ + decimal_spec(
                            (i + 1) as nat,
                        )
                    })
                }
            &&& m.tool_call_id is None
            &&& m.images is None
            &&& m.timestamp == Some(now.secs)
            &&& r.input_tokens == input_tokens
            &&& r.output_tokens == output_tokens
        }),
{
    let seed = now.nanos as nat;
    let n = calls.len() as int;
    lemma_with_ids_len(calls, seed, n);
    let all = with_ids(calls, seed, n);
    assert forall|i: int| 0 <= i < n implies {
        &&& (#[trigger] all[i]).name == calls[i].name
        &&& all[i].arguments == calls[i].arguments
        &&& all[i].call_type == calls[i].call_type
        &&& all[i].gemini_thought_signature == calls[i].gemini_thought_signature
        &&& all[i].id == (if trimmed(calls[i].id).len() > 0 && (forall|j: int|
            0 <= j < i ==> (#[trigger] all[j]).id != calls[i].id) {
            calls[i].id
        } else {
            "tool_call_"@ + decimal_spec(seed) + "_"@ + decimal_spec((i + 1) as nat)
        })
    } by {
        lemma_with_ids_origin(calls, seed, n, i);
        lemma_id_choice(calls, seed, n, i);
    }
}

proof fn lemma_id_choice(calls: Seq<ToolCallView>, seed: nat, n: int, i: int)
    requires
        0 <= i < n <= calls.len(),
    ensures
        ({
            let all = with_ids(calls, seed, n);
            &&& all.len() == n
            &&& all[i].id == (if trimmed(calls[i].id).len() > 0 && (forall|j: int|
                0 <= j < i ==> (#[trigger] all[j]).id != calls[i].id) {
                calls[i].id
            } else {
                fallback_id(seed, (i + 1) as nat)
            })
        }),
    decreases n,
{
    lemma_with_ids_len(calls, seed, n);
    lemma_with_ids_len(calls, seed, n - 1);
    let all = with_ids(calls, seed, n);
    let done = with_ids(calls, seed, n - 1);
    assert forall|j: int| 0 <= j < n - 1 implies #[trigger] all[j] == done[j] by {}
    if i < n - 1 {
        lemma_id_choice(calls, seed, n - 1, i);
        assert(all[i] == done[i]);
        let free = forall|j: int| 0 <= j < i ==> (#[trigger] all[j]).id != calls[i].id;
        let was_free = forall|j: int| 0 <= j < i ==> (#[trigger] done[j]).id != calls[i].id;
        if free {
            assert forall|j: int| 0 <= j < i implies (#[trigger] done[j]).id != calls[i].id by {
                assert(all[j] == done[j]);
            }
        }
        if was_free {
            assert forall|j: int| 0 <= j < i implies (#[trigger] all[j]).id != calls[i].id by {
                assert(all[j] == done[j]);
            }
        }
    } else {
        let c = calls[i];
        if id_taken(done, c.id, n - 1) {
            let j = choose|j: int| 0 <= j < n - 1 && (#[trigger] done[j]).id == c.id;
            assert(all[j].id == c.id);
        } else {
            assert forall|j: int| 0 <= j < i implies (#[trigger] all[j]).id != c.id by {
                assert(done[j].id != c.id);
            }
        }
    }
}

/// The blocks of reasoning in a reply are those that were collected, in order,
/// except those that cannot be sent back: reasoning without a signature, hidden
/// reasoning without data, and blocks of another kind.
pub proof fn law_reply_keeps_reasoning(v: Seq<BlockView>, n: int)
    requires
        0 <= n <= v.len(),
    ensures
        sendable(v, n) == v.take(n).filter(
            |b: BlockView|
                (b.block_type == "thinking"@ && b.signature is Some && b.signature->0.len() > 0)
                    || (b.block_type == "redacted_thinking"@ && b.data is Some && b.data->0.len()
                    > 0),
        ),
    decreases n,
{
    reveal(Seq::filter);
    reveal_strlit("thinking");
    reveal_strlit("redacted_thinking");
    assert("thinking"@.len() != "redacted_thinking"@.len());
    let p = |b: BlockView|
        (b.block_type == "thinking"@ && b.signature is Some && b.signature->0.len() > 0) || (
        b.block_type == "redacted_thinking"@ && b.data is Some && b.data->0.len() > 0);
    if n > 0 {
        law_reply_keeps_reasoning(v, n - 1);
        assert(v.take(n).drop_last() =~= v.take(n - 1));
        assert(v.take(n).last() == v[n - 1]);
    } else {
        assert(v.take(n) =~= Seq::empty());
    }
}

// ---------------------------------------------------------------------------
// Events
// ---------------------------------------------------------------------------

/// An event with the name that announced it.
pub struct NamedJson {
    pub name: Seq<char>,
    pub data: JsonView,
}

/// The object holds the text `t` under `key`.
pub open spec fn says(v: JsonView, key: Seq<char>, t: Seq<char>) -> bool {
    member(v, key) == Some(JsonView::Text(t))
}

/// The kind of an event: what it says itself, else the name that announced it.
pub open spec fn kind_of(e: NamedJson) -> Seq<char> {
    match member(e.data, "type"@) {
        Some(JsonView::Text(t)) => if t.len() > 0 {
            t
        } else {
            e.name
        },
        _ => e.name,
    }
}

/// The text that an event brings as its piece.
pub open spec fn delta_of(e: NamedJson) -> Seq<char> {
    match member(e.data, "delta"@) {
        Some(JsonView::Text(t)) => t,
        _ => Seq::empty(),
    }
}

/// The text that an event adds to the answer.
pub open spec fn output_of(e: NamedJson) -> Seq<char> {
    if kind_of(e) == "response.output_text.delta"@ || kind_of(e) == "response.refusal.delta"@ {
        delta_of(e)
    } else {
        Seq::empty()
    }
}

/// The text that the events add to the answer.
pub open spec fn outputs_of(v: Seq<NamedJson>) -> Seq<char>
    decreases v.len(),
{
    if v.len() == 0 {
        Seq::empty()
    } else {
        outputs_of(v.drop_last()) + output_of(v.last())
    }
}

/// What has been collected after all of the events, one after the other.
pub open spec fn after_named_json(f: ItemFlow, v: Seq<NamedJson>) -> ItemFlow
    decreases v.len(),
{
    if v.len() == 0 {
        f
    } else {
        after_responses_event(
            after_named_json(f, v.drop_last()),
            v.last().data,
            v.last().name,
        ).flow
    }
}

proof fn lemma_kinds_differ()
    ensures
        "error"@.len() == 5,
        "response.failed"@.len() == 15,
        "response.incomplete"@.len() == 19,
        "response.created"@.len() == 16,
        "response.in_progress"@.len() == 20,
        "response.completed"@.len() == 18,
        "response.output_text.delta"@.len() == 26,
        "response.refusal.delta"@.len() == 22,
        "response.output_item.added"@.len() == 26,
        "response.output_item.done"@.len() == 25,
        "response.function_call_arguments.delta"@.len() == 38,
        "response.function_call_arguments.done"@.len() == 37,
        "response.output_text.delta"@[16] != "response.output_item.added"@[16],
        ""@ == Seq::<char>::empty(),
{
    reveal_strlit("error");
    reveal_strlit("response.failed");
    reveal_strlit("response.incomplete");
    reveal_strlit("response.created");
    reveal_strlit("response.in_progress");
    reveal_strlit("response.completed");
    reveal_strlit("response.output_text.delta");
    reveal_strlit("response.refusal.delta");
    reveal_strlit("response.output_item.added");
    reveal_strlit("response.output_item.done");
    reveal_strlit("response.function_call_arguments.delta");
    reveal_strlit("response.function_call_arguments.done");
    reveal_strlit("");
    assert(""@ =~= Seq::<char>::empty());
}

/// After any list of events the answer is continued by the texts that they
/// bring, in order.
pub proof fn law_responses_answer(f: ItemFlow, v: Seq<NamedJson>)
    ensures
        after_named_json(f, v).base.content == f.base.content + outputs_of(v),
        after_named_json(f, v).base.client_gone == f.base.client_gone,
    decreases v.len(),
{
    if v.len() == 0 {
        assert(f.base.content + Seq::<char>::empty() =~= f.base.content);
    } else {
        law_responses_answer(f, v.drop_last());
        lemma_kinds_differ();
        let g = after_named_json(f, v.drop_last());
        let e = v.last();
        let h = after_named_json(f, v);
        assert(g.base.content + Seq::<char>::empty() =~= g.base.content);
        if output_of(e).len() == 0 {
            assert(output_of(e) =~= Seq::empty());
        }
        assert(h.base.content =~= g.base.content + output_of(e));
        assert(h.base.content =~= f.base.content + outputs_of(v));
    }
}

/// A piece of reasoning continues the reasoning, as long as somebody looks, and
/// the stream goes on.
pub proof fn law_responses_reasoning(f: ItemFlow, e: NamedJson, t: Seq<char>)
    requires
        kind_of(e) == "response.reasoning_summary_text.delta"@,
        says(e.data, "delta"@, t),
        !f.base.client_gone,
    ensures
        ({
            let step = after_responses_event(f, e.data, e.name);
            &&& step.result == Ok::<bool, Seq<char>>(false)
            &&& step.flow.base.thinking == f.base.thinking + t
            &&& step.flow.base.content == f.base.content
            &&& step.flow.base.tool_calls == f.base.tool_calls
        }),
{
    lemma_kinds_differ();
    reveal_strlit("response.reasoning_summary_text.delta");
    reveal_strlit("reasoning");
    reveal_strlit(".delta");
    let kind = "response.reasoning_summary_text.delta"@;
    assert(kind.len() == 37);
    assert(kind[9] != "response.function_call_arguments.done"@[9]) by {
        reveal_strlit("response.function_call_arguments.done");
    }
    lemma_holds_at(kind, "reasoning"@, 9);
    assert(kind.skip(31) =~= ".delta"@);
    assert(ends(kind, ".delta"@));
    if t.len() == 0 {
        assert(f.base.thinking + t =~= f.base.thinking);
    }
}

proof fn lemma_holds_at(s: Seq<char>, w: Seq<char>, i: int)
    requires
        0 <= i <= i + w.len() <= s.len(),
        s.subrange(i, i + w.len()) =~= w,
    ensures
        holds_text(s, w),
{
    assert(stands_at(s, w, i));
}

/// The calls `b` are the calls `a` but for the one at `i`.
pub open spec fn only_changed_at(a: Seq<ToolCallView>, b: Seq<ToolCallView>, i: int) -> bool {
    &&& b.len() == a.len()
    &&& forall|j: int| 0 <= j < a.len() && j != i ==> #[trigger] b[j] == a[j]
}

/// The event announces, or ends, the item.
pub open spec fn is_about_item(e: NamedJson, item: JsonView) -> bool {
    &&& kind_of(e) == "response.output_item.added"@ || kind_of(e) == "response.output_item.done"@
    &&& member(e.data, "item"@) == Some(item)
}

/// An item that is a call and is not known yet makes a call, with the
/// identifier, the name and the arguments that the item says; the calls before
/// it stay.
pub proof fn law_new_item_makes_a_call(
    f: ItemFlow,
    e: NamedJson,
    item: JsonView,
    id: Seq<char>,
    call_id: Seq<char>,
    name: Seq<char>,
)
    requires
        is_about_item(e, item),
        says(item, "type"@, "function_call"@),
        says(item, "id"@, id),
        says(item, "call_id"@, call_id),
        says(item, "name"@, name),
        id.len() > 0,
        call_id.len() > 0,
        !f.by_item.contains_key(id),
        member(e.data, "output_index"@) is None,
        f.base.tool_calls.len() < usize::MAX,
    ensures
        ({
            let step = after_responses_event(f, e.data, e.name);
            let calls = step.flow.base.tool_calls;
            let n = f.base.tool_calls.len() as int;
            &&& step.result == Ok::<bool, Seq<char>>(false)
            &&& calls.len() == n + 1
            &&& calls.take(n) == f.base.tool_calls
            &&& calls[n].id == call_id
            &&& calls[n].name == name
            &&& calls[n].call_type == "function"@
            &&& calls[n].arguments == (match member(item, "arguments"@) {
                Some(JsonView::Text(t)) => t,
                _ => Seq::empty(),
            })
            &&& step.flow.by_item.contains_key(id) && step.flow.by_item[id] == n
            &&& step.flow.base.content == f.base.content
        }),
{
    lemma_kinds_differ();
    let calls = after_responses_event(f, e.data, e.name).flow.base.tool_calls;
    if name.len() == 0 {
        assert(name =~= Seq::empty());
    }
    assert(calls.take(f.base.tool_calls.len() as int) =~= f.base.tool_calls);
}

/// An item that is a call and is known changes its own call alone: to the
/// identifier, the name and the arguments that the item says, as far as it does.
pub proof fn law_known_item_changes_its_call(
    f: ItemFlow,
    e: NamedJson,
    item: JsonView,
    id: Seq<char>,
)
    requires
        calls_exist(f),
        is_about_item(e, item),
        says(item, "type"@, "function_call"@),
        says(item, "id"@, id),
        id.len() > 0,
        f.by_item.contains_key(id),
    ensures
        ({
            let calls = after_responses_event(f, e.data, e.name).flow.base.tool_calls;
            let i = f.by_item[id] as int;
            &&& only_changed_at(f.base.tool_calls, calls, i)
            &&& calls[i].name == (match member(item, "name"@) {
                Some(JsonView::Text(t)) => if t.len() > 0 {
                    t
                } else {
                    f.base.tool_calls[i].name
                },
                _ => f.base.tool_calls[i].name,
            })
            &&& calls[i].arguments == (match member(item, "arguments"@) {
                Some(JsonView::Text(t)) => t,
                _ => f.base.tool_calls[i].arguments,
            })
            &&& forall|t: Seq<char>|
                t.len() > 0 && #[trigger] says(item, "call_id"@, t) ==> calls[i].id == t
        }),
{
    lemma_kinds_differ();
}

/// The item that an event with a piece of arguments speaks of.
pub open spec fn item_of(e: NamedJson) -> Seq<char> {
    match member(e.data, "item_id"@) {
        Some(JsonView::Text(t)) => t,
        _ => Seq::empty(),
    }
}

/// The pieces of arguments for the call at `i`, in order.
pub open spec fn argument_pieces(f: ItemFlow, v: Seq<NamedJson>, i: int) -> Seq<char>
    decreases v.len(),
{
    if v.len() == 0 {
        Seq::empty()
    } else if f.by_item[item_of(v.last())] == i {
        argument_pieces(f, v.drop_last(), i) + delta_of(v.last())
    } else {
        argument_pieces(f, v.drop_last(), i)
    }
}

/// Pieces of arguments continue, in order, the arguments of the calls that their
/// items belong to, and change nothing else of any call.
pub proof fn law_argument_pieces(f: ItemFlow, v: Seq<NamedJson>)
    requires
        calls_exist(f),
        forall|k: int|
            0 <= k < v.len() ==> kind_of(#[trigger] v[k])
                == "response.function_call_arguments.delta"@ && item_of(v[k]).len() > 0
                && f.by_item.contains_key(item_of(v[k])),
    ensures
        ({
            let g = after_named_json(f, v);
            &&& g.by_item == f.by_item
            &&& g.base.content == f.base.content
            &&& g.base.tool_calls.len() == f.base.tool_calls.len()
            &&& forall|i: int|
                0 <= i < f.base.tool_calls.len() ==> {
                    let c = #[trigger] g.base.tool_calls[i];
                    &&& c.id == f.base.tool_calls[i].id
                    &&& c.name == f.base.tool_calls[i].name
                    &&& c.arguments == f.base.tool_calls[i].arguments + argument_pieces(f, v, i)
                }
        }),
    decreases v.len(),
{
    let g = after_named_json(f, v);
    if v.len() == 0 {
        assert forall|i: int| 0 <= i < f.base.tool_calls.len() implies (
        #[trigger] g.base.tool_calls[i]).arguments == f.base.tool_calls[i].arguments
            + argument_pieces(f, v, i) by {
            assert(f.base.tool_calls[i].arguments + Seq::<char>::empty()
                =~= f.base.tool_calls[i].arguments);
        }
    } else {
        let w = v.drop_last();
        assert forall|k: int| 0 <= k < w.len() implies kind_of(#[trigger] w[k])
            == "response.function_call_arguments.delta"@ && item_of(w[k]).len() > 0
            && f.by_item.contains_key(item_of(w[k])) by {
            assert(w[k] == v[k]);
        }
        law_argument_pieces(f, w);
        lemma_kinds_differ();
        let e = v.last();
        assert(e == v[v.len() - 1]);
        let before = after_named_json(f, w);
        let place = f.by_item[item_of(e)] as int;
        assert(before.base.tool_calls[place].arguments + Seq::<char>::empty()
            =~= before.base.tool_calls[place].arguments);
        assert forall|i: int| 0 <= i < f.base.tool_calls.len() implies {
            let c = #[trigger] g.base.tool_calls[i];
            &&& c.id == f.base.tool_calls[i].id
            &&& c.name == f.base.tool_calls[i].name
            &&& c.arguments == f.base.tool_calls[i].arguments + argument_pieces(f, v, i)
        } by {
            let b = before.base.tool_calls[i];
            let own = f.base.tool_calls[i].arguments;
            assert((own + argument_pieces(f, w, i)) + delta_of(e) =~= own + (argument_pieces(
                f,
                w,
                i,
            ) + delta_of(e)));
        }
    }
}

/// The end of the arguments of a call says what they are.
pub proof fn law_arguments_done(f: ItemFlow, e: NamedJson, t: Seq<char>)
    requires
        calls_exist(f),
        kind_of(e) == "response.function_call_arguments.done"@,
        item_of(e).len() > 0,
        f.by_item.contains_key(item_of(e)),
        says(e.data, "arguments"@, t),
    ensures
        ({
            let calls = after_responses_event(f, e.data, e.name).flow.base.tool_calls;
            let i = f.by_item[item_of(e)] as int;
            &&& only_changed_at(f.base.tool_calls, calls, i)
            &&& calls[i].arguments == t
            &&& calls[i].id == f.base.tool_calls[i].id
            &&& calls[i].name == (match member(e.data, "name"@) {
                Some(JsonView::Text(n)) => if n.len() > 0 {
                    n
                } else {
                    f.base.tool_calls[i].name
                },
                _ => f.base.tool_calls[i].name,
            })
        }),
{
    lemma_kinds_differ();
}

/// The number that the object holds under `key` within `usage`.
pub open spec fn used(v: JsonView, key: Seq<char>) -> Option<u64> {
    match member(v, "usage"@) {
        Some(u) => match member(u, key) {
            Some(JsonView::Unsigned(n)) => Some(n),
            _ => None,
        },
        None => None,
    }
}

/// The end of a reply ends the stream. The whole reply that comes with it is
/// kept, with its counts of tokens and its identifier as far as it gives them.
pub proof fn law_completed_ends_the_stream(f: ItemFlow, e: NamedJson, r: JsonView)
    requires
        kind_of(e) == "response.completed"@,
        member(e.data, "response"@) == Some(r),
        member(r, "error"@) is None || member(r, "error"@) == Some(JsonView::Null),
    ensures
        ({
            let step = after_responses_event(f, e.data, e.name);
            &&& step.result == Ok::<bool, Seq<char>>(true)
            &&& step.flow.completed == Some(r)
            &&& step.flow.base.input_tokens == (if used(r, "input_tokens"@) is Some {
                used(r, "input_tokens"@)
            } else {
                f.base.input_tokens
            })
            &&& step.flow.base.output_tokens == (if used(r, "output_tokens"@) is Some {
                used(r, "output_tokens"@)
            } else {
                f.base.output_tokens
            })
            &&& forall|t: Seq<char>| #[trigger]
                says(r, "id"@, t) ==> step.flow.response_id == Some(t)
            &&& step.flow.base.content == f.base.content
            &&& step.flow.base.tool_calls == f.base.tool_calls
        }),
{
    lemma_kinds_differ();
}

/// A failure ends the stream in an error, and so does a reply that is not
/// complete.
pub proof fn law_failures_end_the_stream(f: ItemFlow, e: NamedJson)
    ensures
        kind_of(e) == "error"@ || kind_of(e) == "response.failed"@ || kind_of(e)
            == "response.incomplete"@ ==> after_responses_event(f, e.data, e.name).result is Err,
        after_responses_event(f, e.data, e.name).result is Err ==> kind_of(e) == "error"@
            || kind_of(e) == "response.failed"@ || kind_of(e) == "response.incomplete"@ || (kind_of(
            e,
        ) == "response.completed"@ && member(e.data, "response"@) is Some && member(
            member(e.data, "response"@)->0,
            "error"@,
        ) is Some),
{
    lemma_kinds_differ();
}

// ---------------------------------------------------------------------------
// Whole replies
// ---------------------------------------------------------------------------

/// The texts of a list of parts in one: of each its text, else its refusal.
pub open spec fn said_in(v: Seq<JsonView>) -> Seq<char>
    decreases v.len(),
{
    if v.len() == 0 {
        Seq::empty()
    } else {
        said_in(v.drop_last()) + (match member(v.last(), "text"@) {
            Some(JsonView::Text(t)) => t,
            Some(_) => Seq::empty(),
            None => match member(v.last(), "refusal"@) {
                Some(JsonView::Text(t)) => t,
                _ => Seq::empty(),
            },
        })
    }
}

/// The texts of the messages among a list of items in one.
pub open spec fn messages_say(v: Seq<JsonView>) -> Seq<char>
    decreases v.len(),
{
    if v.len() == 0 {
        Seq::empty()
    } else {
        messages_say(v.drop_last()) + (if says(v.last(), "type"@, "message"@) {
            match member(v.last(), "content"@) {
                Some(JsonView::Array(parts)) => said_in(parts),
                _ => Seq::empty(),
            }
        } else {
            Seq::empty()
        })
    }
}

/// The calls among a list of items, in order.
pub open spec fn calling_items(v: Seq<JsonView>) -> Seq<JsonView> {
    v.filter(|i: JsonView| says(i, "type"@, "function_call"@))
}

/// The identifier of the call that an item is, else that of the item.
pub open spec fn item_identifier(item: JsonView) -> Seq<char> {
    match member(item, "call_id"@) {
        Some(JsonView::Text(t)) => t,
        _ => match member(item, "id"@) {
            Some(JsonView::Text(t)) => t,
            _ => Seq::empty(),
        },
    }
}

/// The call is what the item says.
pub open spec fn is_call_of_item(c: ToolCallView, item: JsonView) -> bool {
    &&& c.id == item_identifier(item)
    &&& c.name == (match member(item, "name"@) {
        Some(JsonView::Text(t)) => t,
        _ => Seq::empty(),
    })
    &&& c.arguments == (match member(item, "arguments"@) {
        Some(JsonView::Text(t)) => t,
        _ => "{}"@,
    })
    &&& c.call_type == "function"@
}

proof fn lemma_words(v: Seq<JsonView>, n: int)
    requires
        0 <= n <= v.len(),
    ensures
        words_upto(v, n) == said_in(v.take(n)),
    decreases n,
{
    if n > 0 {
        lemma_words(v, n - 1);
        assert(v.take(n).drop_last() =~= v.take(n - 1));
        assert(v.take(n).last() == v[n - 1]);
    }
}

proof fn lemma_reply_parts(v: Seq<JsonView>, n: int)
    requires
        0 <= n <= v.len(),
    ensures
        parts_upto(v, n).content == messages_say(v.take(n)),
        parts_upto(v, n).calls.len() == calling_items(v.take(n)).len(),
        forall|i: int|
            0 <= i < calling_items(v.take(n)).len() ==> is_call_of_item(
                parts_upto(v, n).calls[i],
                #[trigger] calling_items(v.take(n))[i],
            ),
    decreases n,
{
    reveal(Seq::filter);
    reveal_strlit("message");
    reveal_strlit("reasoning");
    reveal_strlit("function_call");
    reveal_strlit("");
    assert("message"@.len() == 7 && "reasoning"@.len() == 9 && "function_call"@.len() == 13);
    assert(""@ =~= Seq::<char>::empty());
    if n > 0 {
        lemma_reply_parts(v, n - 1);
        assert(v.take(n).drop_last() =~= v.take(n - 1));
        assert(v.take(n).last() == v[n - 1]);
        let item = v[n - 1];
        if let Some(JsonView::Array(parts)) = member(item, "content"@) {
            lemma_words(parts, parts.len() as int);
            assert(parts.take(parts.len() as int) =~= parts);
        }
        let before = parts_upto(v, n - 1);
        let after = parts_upto(v, n);
        assert(after.content =~= messages_say(v.take(n)));
        assert forall|i: int| 0 <= i < calling_items(v.take(n)).len() implies is_call_of_item(
            after.calls[i],
            #[trigger] calling_items(v.take(n))[i],
        ) by {
            if i < calling_items(v.take(n - 1)).len() {
                assert(calling_items(v.take(n))[i] == calling_items(v.take(n - 1))[i]);
                assert(after.calls[i] == before.calls[i]);
            }
        }
    } else {
        assert(v.take(n) =~= Seq::empty());
    }
}

/// A whole reply says what its messages say and asks for the calls that its
/// items are, each in order, with its counts of tokens.
pub proof fn law_whole_reply(data: JsonView, v: Seq<JsonView>, now: Moment)
    requires
        member(data, "output"@) == Some(JsonView::Array(v)),
    ensures
        ({
            let r = responses_reply(data, now);
            let m = r.message;
            &&& m.role == "assistant"@
            &&& messages_say(v).len() > 0 ==> m.content == Some(messages_say(v))
            &&& messages_say(v).len() == 0 ==> m.content is None
            &&& calling_items(v).len() == 0 <==> m.tool_calls is None
            &&& calling_items(v).len() > 0 ==> m.tool_calls->0.len() == calling_items(v).len()
            &&& forall|i: int|
                0 <= i < calling_items(v).len() ==> is_call_of_item(
                    (ToolCallView {
                        id: item_identifier(calling_items(v)[i]),
                        ..m.tool_calls->0[i]
                    }),
                    #[trigger] calling_items(v)[i],
                )
            &&& forall|i: int|
                0 <= i < calling_items(v).len() && trimmed(
                    item_identifier(#[trigger] calling_items(v)[i]),
                ).len() > 0 && (forall|j: int|
                    0 <= j < i ==> (#[trigger] m.tool_calls->0[j]).id != item_identifier(
                        calling_items(v)[i],
                    )) ==> m.tool_calls->0[i].id == item_identifier(calling_items(v)[i])
            &&& r.input_tokens == used(data, "input_tokens"@)
            &&& r.output_tokens == used(data, "output_tokens"@)
        }),
{
    let n = v.len() as int;
    lemma_reply_parts(v, n);
    assert(v.take(n) =~= v);
    let p = parts_upto(v, n);
    law_reply_holds_what_was_collected(
        p.content,
        p.thinking,
        p.calls,
        used(data, "input_tokens"@),
        used(data, "output_tokens"@),
        now,
    );
    let m = responses_reply(data, now).message;
    assert forall|i: int| 0 <= i < calling_items(v).len() implies is_call_of_item(
        (ToolCallView { id: item_identifier(calling_items(v)[i]), ..m.tool_calls->0[i] }),
        #[trigger] calling_items(v)[i],
    ) by {
        assert(is_call_of_item(p.calls[i], calling_items(v)[i]));
        assert(m.tool_calls->0[i].name == p.calls[i].name);
    }
    assert forall|i: int|
        0 <= i < calling_items(v).len() && trimmed(
            item_identifier(#[trigger] calling_items(v)[i]),
        ).len() > 0 && (forall|j: int|
            0 <= j < i ==> (#[trigger] m.tool_calls->0[j]).id != item_identifier(
                calling_items(v)[i],
            )) implies m.tool_calls->0[i].id == item_identifier(calling_items(v)[i]) by {
        assert(is_call_of_item(p.calls[i], calling_items(v)[i]));
        assert(m.tool_calls->0[i].name == p.calls[i].name);
    }
}

/// A stream without a whole reply at its end gives the pieces: the answer, the
/// reasoning and the calls that were collected.
pub proof fn law_pieces_make_the_reply(f: ItemFlow, now: Moment)
    requires
        f.completed is None,
    ensures
        ({
            let r = streamed_reply(f, now);
            let m = r.message;
            &&& m.role == "assistant"@
            &&& f.base.content.len() > 0 ==> m.content == Some(f.base.content)
            &&& f.base.content.len() == 0 ==> m.content is None
            &&& f.base.thinking.len() > 0 ==> m.thinking == Some(f.base.thinking)
            &&& f.base.thinking.len() == 0 ==> m.thinking is None
            &&& f.base.tool_calls.len() == 0 <==> m.tool_calls is None
            &&& f.base.tool_calls.len() > 0 ==> m.tool_calls->0.len() == f.base.tool_calls.len()
            &&& forall|i: int|
                0 <= i < f.base.tool_calls.len() ==> {
                    let c = #[trigger] m.tool_calls->0[i];
                    &&& c.name == f.base.tool_calls[i].name
                    &&& c.arguments == f.base.tool_calls[i].arguments
                }
            &&& r.input_tokens == f.base.input_tokens
            &&& r.output_tokens == f.base.output_tokens
            &&& f.response_id is Some && f.response_id->0.len() > 0 ==> response_id_of(m)
                == f.response_id
        }),
{
    law_reply_holds_what_was_collected(
        f.base.content,
        f.base.thinking,
        f.base.tool_calls,
        f.base.input_tokens,
        f.base.output_tokens,
        now,
    );
    let r = collected_response(
        f.base.content,
        f.base.thinking,
        f.base.tool_calls,
        f.base.input_tokens,
        f.base.output_tokens,
        now,
    );
    if f.response_id is Some && f.response_id->0.len() > 0 {
        law_response_id_round_trip(r.message, f.response_id->0);
    }
}

/// A stream with a whole reply at its end that says something gives that reply.
pub proof fn law_whole_reply_comes_first(f: ItemFlow, v: Seq<JsonView>, now: Moment)
    requires
        f.completed is Some,
        member(f.completed->0, "output"@) == Some(JsonView::Array(v)),
        messages_say(v).len() > 0,
    ensures
        streamed_reply(f, now).message.content == Some(messages_say(v)),
        streamed_reply(f, now) == responses_reply(f.completed->0, now),
{
    law_whole_reply(f.completed->0, v, now);
}

} // verus!
