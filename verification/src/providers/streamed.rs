//! What Anthropic's streamed replies come to.

use crate::providers::anthropic_stream::{AnthropicEvent, AnthropicUsage, BlockFlow, after_event};
use crate::providers::collected::piece;
use vstd::prelude::*;
use vstd::string::*;

verus! {

/// An event with the name that announced it.
pub struct NamedEvent {
    pub name: Seq<char>,
    pub event: AnthropicEvent,
}

/// The flow after an event that was announced by its name.
pub open spec fn after_named(f: BlockFlow, e: NamedEvent) -> BlockFlow {
    after_event(BlockFlow { event: e.name, ..f }, e.event)
}

/// The flow after all of the events, one after the other.
pub open spec fn after_named_events(f: BlockFlow, v: Seq<NamedEvent>) -> BlockFlow
    decreases v.len(),
{
    if v.len() == 0 {
        f
    } else {
        after_named(after_named_events(f, v.drop_last()), v.last())
    }
}

/// The event brings a piece of the given kind.
pub open spec fn brings(e: NamedEvent, kind: Seq<char>) -> bool {
    &&& e.name == "content_block_delta"@
    &&& e.event.delta is Some
    &&& e.event.delta->0.delta_type is Some
    &&& (e.event.delta->0.delta_type->0)@ == kind
}

/// The event starts a block of the given kind.
pub open spec fn opens(e: NamedEvent, kind: Seq<char>) -> bool {
    &&& e.name == "content_block_start"@
    &&& e.event.content_block is Some
    &&& (e.event.content_block->0.block_type)@ == kind
}

/// The text that an event adds to the answer.
pub open spec fn answer_of(e: NamedEvent) -> Seq<char> {
    if brings(e, "text_delta"@) {
        piece(e.event.delta->0.text)
    } else {
        Seq::empty()
    }
}

/// The text that an event adds to the reasoning.
pub open spec fn reasoning_of_event(e: NamedEvent) -> Seq<char> {
    if brings(e, "thinking_delta"@) {
        piece(e.event.delta->0.thinking)
    } else if opens(e, "thinking"@) {
        piece(e.event.content_block->0.thinking)
    } else {
        Seq::empty()
    }
}

/// The text that an event adds to the arguments of the call in block `i`.
pub open spec fn arguments_of_event(e: NamedEvent, i: usize) -> Seq<char> {
    if brings(e, "input_json_delta"@) && e.event.index == Some(i) {
        piece(e.event.delta->0.partial_json)
    } else {
        Seq::empty()
    }
}

/// The text that an event adds to the reasoning in block `i`.
pub open spec fn block_reasoning_of_event(e: NamedEvent, i: usize) -> Seq<char> {
    if brings(e, "thinking_delta"@) && e.event.index == Some(i) {
        piece(e.event.delta->0.thinking)
    } else {
        Seq::empty()
    }
}

pub open spec fn answers_of(v: Seq<NamedEvent>) -> Seq<char>
    decreases v.len(),
{
    if v.len() == 0 {
        Seq::empty()
    } else {
        answers_of(v.drop_last()) + answer_of(v.last())
    }
}

pub open spec fn reasonings_of(v: Seq<NamedEvent>) -> Seq<char>
    decreases v.len(),
{
    if v.len() == 0 {
        Seq::empty()
    } else {
        reasonings_of(v.drop_last()) + reasoning_of_event(v.last())
    }
}

pub open spec fn arguments_of(v: Seq<NamedEvent>, i: usize) -> Seq<char>
    decreases v.len(),
{
    if v.len() == 0 {
        Seq::empty()
    } else {
        arguments_of(v.drop_last(), i) + arguments_of_event(v.last(), i)
    }
}

pub open spec fn block_reasonings_of(v: Seq<NamedEvent>, i: usize) -> Seq<char>
    decreases v.len(),
{
    if v.len() == 0 {
        Seq::empty()
    } else {
        block_reasonings_of(v.drop_last(), i) + block_reasoning_of_event(v.last(), i)
    }
}

/// The last signature of the reasoning in block `i`.
pub open spec fn signature_of(v: Seq<NamedEvent>, i: usize, known: Option<Seq<char>>) -> Option<
    Seq<char>,
>
    decreases v.len(),
{
    if v.len() == 0 {
        known
    } else if brings(v.last(), "signature_delta"@) && v.last().event.index == Some(i)
        && v.last().event.delta->0.signature is Some {
        Some((v.last().event.delta->0.signature->0)@)
    } else {
        signature_of(v.drop_last(), i, known)
    }
}

/// How many blocks of the given kind the events start.
pub open spec fn opened(v: Seq<NamedEvent>, kind: Seq<char>) -> nat
    decreases v.len(),
{
    if v.len() == 0 {
        0
    } else {
        opened(v.drop_last(), kind) + (if opens(v.last(), kind) {
            1nat
        } else {
            0nat
        })
    }
}

/// The blocks known so far belong to calls and reasoning that exist.
pub open spec fn blocks_exist(f: BlockFlow) -> bool {
    &&& forall|k: usize| #[trigger] f.call_of.contains_key(k) ==> f.call_of[k] < f.tool_calls.len()
    &&& forall|k: usize| #[trigger]
        f.reasoning_of.contains_key(k) ==> f.reasoning_of[k] < f.blocks.len()
}

proof fn lemma_names_differ()
    ensures
        "message_start"@ != "message_delta"@,
        "message_start"@ != "content_block_start"@,
        "message_start"@ != "content_block_delta"@,
        "message_start"@ != "content_block_stop"@,
        "message_delta"@ != "content_block_start"@,
        "message_delta"@ != "content_block_delta"@,
        "message_delta"@ != "content_block_stop"@,
        "content_block_start"@ != "content_block_delta"@,
        "content_block_start"@ != "content_block_stop"@,
        "content_block_delta"@ != "content_block_stop"@,
        "thinking_delta"@ != "signature_delta"@,
        "thinking_delta"@ != "text_delta"@,
        "thinking_delta"@ != "input_json_delta"@,
        "signature_delta"@ != "text_delta"@,
        "signature_delta"@ != "input_json_delta"@,
        "text_delta"@ != "input_json_delta"@,
        "thinking"@ != "redacted_thinking"@,
        "thinking"@ != "tool_use"@,
        "redacted_thinking"@ != "tool_use"@,
        ""@ == Seq::<char>::empty(),
{
    reveal_strlit("message_start");
    reveal_strlit("message_delta");
    reveal_strlit("content_block_start");
    reveal_strlit("content_block_delta");
    reveal_strlit("content_block_stop");
    reveal_strlit("thinking_delta");
    reveal_strlit("signature_delta");
    reveal_strlit("text_delta");
    reveal_strlit("input_json_delta");
    reveal_strlit("thinking");
    reveal_strlit("redacted_thinking");
    reveal_strlit("tool_use");
    reveal_strlit("");
    assert("message_start"@.len() == 13);
    assert("message_delta"@.len() == 13);
    assert("content_block_start"@.len() == 19);
    assert("content_block_delta"@.len() == 19);
    assert("content_block_stop"@.len() == 18);
    assert("thinking_delta"@.len() == 14);
    assert("signature_delta"@.len() == 15);
    assert("text_delta"@.len() == 10);
    assert("input_json_delta"@.len() == 16);
    assert("thinking"@.len() == 8);
    assert("redacted_thinking"@.len() == 17);
    assert("tool_use"@.len() == 8);
    assert("message_start"@[8] != "message_delta"@[8]);
    assert("content_block_start"@[14] != "content_block_delta"@[14]);
    assert("thinking"@[1] != "tool_use"@[1]);
    assert(""@ =~= Seq::<char>::empty());
}

proof fn lemma_one_event(f: BlockFlow, e: NamedEvent)
    ensures
        ({
            let g = after_named(f, e);
            &&& g.content == f.content + answer_of(e)
            &&& !f.client_gone ==> g.thinking == f.thinking + reasoning_of_event(e)
            &&& g.client_gone == f.client_gone
            &&& g.tool_calls.len() == f.tool_calls.len() + opened(seq![e], "tool_use"@)
            &&& g.blocks.len() == f.blocks.len() + opened(seq![e], "thinking"@) + opened(
                seq![e],
                "redacted_thinking"@,
            )
        }),
{
    lemma_names_differ();
    let g = after_named(f, e);
    let one = seq![e];
    assert(one.drop_last() =~= Seq::empty());
    assert(one.last() == e);
    reveal_with_fuel(opened, 2);
    assert(f.content + Seq::<char>::empty() =~= f.content);
    assert(f.thinking + Seq::<char>::empty() =~= f.thinking);
    if reasoning_of_event(e).len() == 0 {
        assert(reasoning_of_event(e) =~= Seq::empty());
    }
}

proof fn lemma_opened_last(v: Seq<NamedEvent>, kind: Seq<char>)
    requires
        v.len() > 0,
    ensures
        opened(v, kind) == opened(v.drop_last(), kind) + opened(seq![v.last()], kind),
{
    let one = seq![v.last()];
    assert(one.drop_last() =~= Seq::empty());
    assert(one.last() == v.last());
    reveal_with_fuel(opened, 2);
}

/// After any list of events the answer is continued by the texts that they
/// bring, in order. So is the reasoning, as long as somebody looks. There is one
/// more call for each block of a call that was started, and one more block of
/// reasoning for each of those, and no other.
pub proof fn law_events_make_the_reply(f: BlockFlow, v: Seq<NamedEvent>)
    ensures
        ({
            let g = after_named_events(f, v);
            &&& g.content == f.content + answers_of(v)
            &&& !f.client_gone ==> g.thinking == f.thinking + reasonings_of(v)
            &&& g.client_gone == f.client_gone
            &&& g.tool_calls.len() == f.tool_calls.len() + opened(v, "tool_use"@)
            &&& g.blocks.len() == f.blocks.len() + opened(v, "thinking"@) + opened(
                v,
                "redacted_thinking"@,
            )
        }),
    decreases v.len(),
{
    if v.len() == 0 {
        assert(f.content + Seq::<char>::empty() =~= f.content);
        assert(f.thinking + Seq::<char>::empty() =~= f.thinking);
    } else {
        law_events_make_the_reply(f, v.drop_last());
        let g = after_named_events(f, v.drop_last());
        lemma_one_event(g, v.last());
        lemma_opened_last(v, "tool_use"@);
        lemma_opened_last(v, "thinking"@);
        lemma_opened_last(v, "redacted_thinking"@);
        assert((f.content + answers_of(v.drop_last())) + answer_of(v.last()) =~= f.content
            + answers_of(v));
        assert((f.thinking + reasonings_of(v.drop_last())) + reasoning_of_event(v.last())
            =~= f.thinking + reasonings_of(v));
    }
}

/// The call at `place` is the one that block `i` belongs to, and no other block
/// belongs to it.
spec fn is_own_call(f: BlockFlow, i: usize, place: int) -> bool {
    &&& f.call_of.contains_key(i) && f.call_of[i] == place && place < f.tool_calls.len()
    &&& forall|k: usize| k != i && #[trigger] f.call_of.contains_key(k) ==> f.call_of[k] != place
    &&& forall|k: usize| #[trigger] f.call_of.contains_key(k) ==> f.call_of[k] < f.tool_calls.len()
}

proof fn lemma_call_goes_on(f: BlockFlow, v: Seq<NamedEvent>, i: usize, place: int)
    requires
        is_own_call(f, i, place),
        0 <= place,
        f.tool_calls.len() + v.len() < usize::MAX,
        forall|k: int|
            0 <= k < v.len() ==> !(opens(#[trigger] v[k], "tool_use"@) && v[k].event.index == Some(
                i,
            )),
    ensures
        ({
            let g = after_named_events(f, v);
            &&& is_own_call(g, i, place)
            &&& g.tool_calls.len() <= f.tool_calls.len() + v.len()
            &&& g.tool_calls[place].id == f.tool_calls[place].id
            &&& g.tool_calls[place].name == f.tool_calls[place].name
            &&& g.tool_calls[place].call_type == f.tool_calls[place].call_type
            &&& g.tool_calls[place].arguments == f.tool_calls[place].arguments + arguments_of(v, i)
        }),
    decreases v.len(),
{
    if v.len() == 0 {
        assert(f.tool_calls[place].arguments + Seq::<char>::empty()
            =~= f.tool_calls[place].arguments);
    } else {
        let w = v.drop_last();
        assert forall|k: int| 0 <= k < w.len() implies !(opens(#[trigger] w[k], "tool_use"@)
            && w[k].event.index == Some(i)) by {
            assert(w[k] == v[k]);
        }
        lemma_call_goes_on(f, w, i, place);
        let g = after_named_events(f, w);
        let e = v.last();
        assert(e == v[v.len() - 1]);
        lemma_names_differ();
        let own = f.tool_calls[place].arguments;
        assert((own + arguments_of(w, i)) + arguments_of_event(e, i) =~= own + arguments_of(v, i));
        assert(g.tool_calls[place].arguments + Seq::<char>::empty()
            =~= g.tool_calls[place].arguments);
        lemma_call_after(g, e, i, place);
    }
}

proof fn lemma_call_after(g: BlockFlow, e: NamedEvent, i: usize, place: int)
    requires
        is_own_call(g, i, place),
        0 <= place,
        g.tool_calls.len() < usize::MAX,
        !(opens(e, "tool_use"@) && e.event.index == Some(i)),
    ensures
        ({
            let h = after_named(g, e);
            &&& is_own_call(h, i, place)
            &&& h.tool_calls.len() <= g.tool_calls.len() + 1
            &&& h.tool_calls[place].id == g.tool_calls[place].id
            &&& h.tool_calls[place].name == g.tool_calls[place].name
            &&& h.tool_calls[place].call_type == g.tool_calls[place].call_type
            &&& h.tool_calls[place].arguments == g.tool_calls[place].arguments
                + arguments_of_event(e, i)
        }),
{
    lemma_names_differ();
    let h = after_named(g, e);
    assert(g.tool_calls[place].arguments + Seq::<char>::empty()
        =~= g.tool_calls[place].arguments);
    if opens(e, "tool_use"@) {
        assert(h.tool_calls.len() == g.tool_calls.len() + 1);
        assert(h.tool_calls[place] == g.tool_calls[place]);
    } else if brings(e, "input_json_delta"@) {
        if e.event.index is Some && e.event.index->0 != i && g.call_of.contains_key(
            e.event.index->0,
        ) {
            assert(g.call_of[e.event.index->0] != place);
        }
    } else {
        assert(h.tool_calls == g.tool_calls);
        assert(h.call_of == g.call_of);
    }
}

/// A block that starts a call makes a call with its identifier and its name, and
/// its arguments are the pieces that arrive for that block, in order, whatever
/// else arrives between them.
pub proof fn law_call_of_a_block(f: BlockFlow, e: NamedEvent, i: usize, v: Seq<NamedEvent>)
    requires
        blocks_exist(f),
        opens(e, "tool_use"@),
        e.event.index == Some(i),
        f.tool_calls.len() + v.len() + 1 < usize::MAX,
        forall|k: int|
            0 <= k < v.len() ==> !(opens(#[trigger] v[k], "tool_use"@) && v[k].event.index == Some(
                i,
            )),
    ensures
        ({
            let call = after_named_events(after_named(f, e), v).tool_calls[f.tool_calls.len() as int];
            &&& call.id == piece(e.event.content_block->0.id)
            &&& call.name == piece(e.event.content_block->0.name)
            &&& call.arguments == arguments_of(v, i)
            &&& call.call_type == "function"@
        }),
{
    lemma_names_differ();
    let g = after_named(f, e);
    let place = f.tool_calls.len() as int;
    assert(is_own_call(g, i, place));
    lemma_call_goes_on(g, v, i, place);
    assert(Seq::<char>::empty() + arguments_of(v, i) =~= arguments_of(v, i));
}

/// The reasoning at `place` is the one that block `i` belongs to, and no other
/// block belongs to it.
spec fn is_own_reasoning(f: BlockFlow, i: usize, place: int) -> bool {
    &&& f.reasoning_of.contains_key(i) && f.reasoning_of[i] == place && place < f.blocks.len()
    &&& forall|k: usize|
        k != i && #[trigger] f.reasoning_of.contains_key(k) ==> f.reasoning_of[k] != place
    &&& forall|k: usize| #[trigger]
        f.reasoning_of.contains_key(k) ==> f.reasoning_of[k] < f.blocks.len()
    &&& f.blocks[place].thinking is Some
}

proof fn lemma_reasoning_after(g: BlockFlow, e: NamedEvent, i: usize, place: int)
    requires
        is_own_reasoning(g, i, place),
        0 <= place,
        g.blocks.len() < usize::MAX,
        !(opens(e, "thinking"@) && e.event.index == Some(i)),
    ensures
        ({
            let h = after_named(g, e);
            &&& is_own_reasoning(h, i, place)
            &&& h.blocks.len() <= g.blocks.len() + 1
            &&& h.blocks[place].block_type == g.blocks[place].block_type
            &&& h.blocks[place].data == g.blocks[place].data
            &&& h.blocks[place].thinking == Some(
                g.blocks[place].thinking->0 + block_reasoning_of_event(e, i),
            )
            &&& h.blocks[place].signature == (if brings(e, "signature_delta"@)
                && e.event.index == Some(i) && e.event.delta->0.signature is Some {
                Some((e.event.delta->0.signature->0)@)
            } else {
                g.blocks[place].signature
            })
        }),
{
    lemma_names_differ();
    let h = after_named(g, e);
    let own = g.blocks[place].thinking->0;
    assert(own + Seq::<char>::empty() =~= own);
    if brings(e, "thinking_delta"@) || brings(e, "signature_delta"@) {
        if e.event.index is Some && e.event.index->0 != i && g.reasoning_of.contains_key(
            e.event.index->0,
        ) {
            assert(g.reasoning_of[e.event.index->0] != place);
        }
    } else if opens(e, "thinking"@) || opens(e, "redacted_thinking"@) {
        assert(h.blocks.len() == g.blocks.len() + 1);
        assert(h.blocks[place] == g.blocks[place]);
    } else {
        assert(h.blocks == g.blocks);
        assert(h.reasoning_of == g.reasoning_of);
    }
}

proof fn lemma_reasoning_goes_on(f: BlockFlow, v: Seq<NamedEvent>, i: usize, place: int)
    requires
        is_own_reasoning(f, i, place),
        0 <= place,
        f.blocks.len() + v.len() < usize::MAX,
        forall|k: int|
            0 <= k < v.len() ==> !(opens(#[trigger] v[k], "thinking"@) && v[k].event.index == Some(
                i,
            )),
    ensures
        ({
            let g = after_named_events(f, v);
            &&& is_own_reasoning(g, i, place)
            &&& g.blocks.len() <= f.blocks.len() + v.len()
            &&& g.blocks[place].block_type == f.blocks[place].block_type
            &&& g.blocks[place].data == f.blocks[place].data
            &&& g.blocks[place].thinking == Some(
                f.blocks[place].thinking->0 + block_reasonings_of(v, i),
            )
            &&& g.blocks[place].signature == signature_of(v, i, f.blocks[place].signature)
        }),
    decreases v.len(),
{
    let own = f.blocks[place].thinking->0;
    if v.len() == 0 {
        assert(own + Seq::<char>::empty() =~= own);
    } else {
        let w = v.drop_last();
        assert forall|k: int| 0 <= k < w.len() implies !(opens(#[trigger] w[k], "thinking"@)
            && w[k].event.index == Some(i)) by {
            assert(w[k] == v[k]);
        }
        lemma_reasoning_goes_on(f, w, i, place);
        let e = v.last();
        assert(e == v[v.len() - 1]);
        lemma_reasoning_after(after_named_events(f, w), e, i, place);
        assert((own + block_reasonings_of(w, i)) + block_reasoning_of_event(e, i) =~= own
            + block_reasonings_of(v, i));
    }
}

/// A block that starts reasoning is kept as a block of reasoning: its text is
/// the one it starts with and the pieces that arrive for that block, in order,
/// and its signature is the last that arrives for it.
pub proof fn law_reasoning_of_a_block(f: BlockFlow, e: NamedEvent, i: usize, v: Seq<NamedEvent>)
    requires
        blocks_exist(f),
        opens(e, "thinking"@),
        e.event.index == Some(i),
        f.blocks.len() + v.len() + 1 < usize::MAX,
        forall|k: int|
            0 <= k < v.len() ==> !(opens(#[trigger] v[k], "thinking"@) && v[k].event.index == Some(
                i,
            )),
    ensures
        ({
            let start = e.event.content_block->0;
            let block = after_named_events(after_named(f, e), v).blocks[f.blocks.len() as int];
            &&& block.block_type == "thinking"@
            &&& block.thinking == Some(piece(start.thinking) + block_reasonings_of(v, i))
            &&& block.signature == signature_of(
                v,
                i,
                (match start.signature {
                    Some(s) => Some(s@),
                    None => None,
                }),
            )
            &&& block.data is None
        }),
{
    lemma_names_differ();
    let g = after_named(f, e);
    let place = f.blocks.len() as int;
    assert(g.blocks.len() == place + 1);
    assert(is_own_reasoning(g, i, place));
    lemma_reasoning_goes_on(g, v, i, place);
}

/// A block of hidden reasoning is kept with its data.
pub proof fn law_hidden_reasoning_is_kept(f: BlockFlow, e: NamedEvent)
    requires
        opens(e, "redacted_thinking"@),
    ensures
        ({
            let blocks = after_named(f, e).blocks;
            &&& blocks.len() == f.blocks.len() + 1
            &&& blocks.last().block_type == "redacted_thinking"@
            &&& blocks.last().data == (match e.event.content_block->0.data {
                Some(d) => Some(d@),
                None => None,
            })
            &&& blocks.last().thinking is None
            &&& blocks.last().signature is None
        }),
{
    lemma_names_differ();
}

/// The tokens that went in: those that were sent anew, those that were stored
/// and those that were read from the store.
pub open spec fn went_in(u: AnthropicUsage) -> int {
    (if u.input_tokens is Some {
        u.input_tokens->0 as int
    } else {
        0
    }) + (if u.cache_creation_input_tokens is Some {
        u.cache_creation_input_tokens->0 as int
    } else {
        0
    }) + (if u.cache_read_input_tokens is Some {
        u.cache_read_input_tokens->0 as int
    } else {
        0
    })
}

/// The counts of an event are taken over: what went in is the sum of what the
/// event reports of it, where it reports any.
pub proof fn law_event_counts(f: BlockFlow, e: NamedEvent, u: AnthropicUsage)
    requires
        (e.name == "message_start"@ && e.event.message is Some && e.event.message->0.usage == Some(
            u,
        )) || (e.name == "message_delta"@ && e.event.usage == Some(u)),
        went_in(u) <= u64::MAX,
    ensures
        ({
            let g = after_named(f, e);
            &&& u.input_tokens is Some || u.cache_creation_input_tokens is Some
                || u.cache_read_input_tokens is Some ==> g.input_tokens is Some
                && g.input_tokens->0 == went_in(u)
            &&& u.input_tokens is None && u.cache_creation_input_tokens is None
                && u.cache_read_input_tokens is None ==> g.input_tokens == f.input_tokens
            &&& u.output_tokens is Some ==> g.output_tokens == u.output_tokens
            &&& u.output_tokens is None && e.name == "message_delta"@ ==> g.output_tokens
                == f.output_tokens
            &&& g.content == f.content
            &&& g.tool_calls == f.tool_calls
        }),
{
    lemma_names_differ();
}

} // verus!
