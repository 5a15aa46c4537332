//! What a streamed reply comes to: the pieces of each text and of each call of a
//! tool, put together in the order in which they arrived.

use crate::providers::stream::{
    DeltaFunction, DeltaToolCall, Flow, StreamChoice, StreamChunk, after_choice, after_choices,
    after_chunk, empty_flow, grown_calls, newer,
};
use crate::chat::ToolCallView;
use vstd::prelude::*;
use vstd::string::*;

verus! {

/// A text that may be missing.
pub open spec fn piece(o: Option<String>) -> Seq<char> {
    match o {
        Some(s) => s@,
        None => Seq::empty(),
    }
}

/// The last count that was reported, else the one known before.
pub open spec fn last_count(v: Seq<Option<u64>>, known: Option<u64>) -> Option<u64>
    decreases v.len(),
{
    if v.len() == 0 {
        known
    } else if v.last() is Some {
        v.last()
    } else {
        last_count(v.drop_last(), known)
    }
}

// ---------------------------------------------------------------------------
// OpenAI's chat completions
// ---------------------------------------------------------------------------

/// The call that a piece is for; without an index it is for the first.
pub open spec fn call_meant(d: DeltaToolCall) -> int {
    match d.index {
        Some(k) => k as int,
        None => 0,
    }
}

/// The names in the pieces for the call at `i`, in the order of their arrival.
pub open spec fn names_for(v: Seq<DeltaToolCall>, i: int) -> Seq<char>
    decreases v.len(),
{
    if v.len() == 0 {
        Seq::empty()
    } else if call_meant(v.last()) == i && v.last().function is Some {
        names_for(v.drop_last(), i) + piece(v.last().function->0.name)
    } else {
        names_for(v.drop_last(), i)
    }
}

/// The arguments in the pieces for the call at `i`, in the order of their
/// arrival.
pub open spec fn arguments_for(v: Seq<DeltaToolCall>, i: int) -> Seq<char>
    decreases v.len(),
{
    if v.len() == 0 {
        Seq::empty()
    } else if call_meant(v.last()) == i && v.last().function is Some {
        arguments_for(v.drop_last(), i) + piece(v.last().function->0.arguments)
    } else {
        arguments_for(v.drop_last(), i)
    }
}

/// The last identifier in the pieces for the call at `i`.
pub open spec fn id_for(v: Seq<DeltaToolCall>, i: int, known: Seq<char>) -> Seq<char>
    decreases v.len(),
{
    if v.len() == 0 {
        known
    } else if call_meant(v.last()) == i && v.last().id is Some {
        (v.last().id->0)@
    } else {
        id_for(v.drop_last(), i, known)
    }
}

/// The pieces of calls in a list of choices, in order.
pub open spec fn call_pieces(v: Seq<StreamChoice>) -> Seq<DeltaToolCall>
    decreases v.len(),
{
    if v.len() == 0 {
        Seq::empty()
    } else {
        call_pieces(v.drop_last()) + (match v.last().delta.tool_calls {
            Some(d) => d@,
            None => Seq::empty(),
        })
    }
}

/// The texts in a list of choices in one.
pub open spec fn answers(v: Seq<StreamChoice>) -> Seq<char>
    decreases v.len(),
{
    if v.len() == 0 {
        Seq::empty()
    } else {
        answers(v.drop_last()) + piece(v.last().delta.content)
    }
}

/// The reasoning in a list of choices in one.
pub open spec fn reasonings(v: Seq<StreamChoice>) -> Seq<char>
    decreases v.len(),
{
    if v.len() == 0 {
        Seq::empty()
    } else {
        reasonings(v.drop_last()) + piece(v.last().delta.reasoning_content)
    }
}

/// The choices that count: those up to the first that is finished.
pub open spec fn counting(v: Seq<StreamChoice>) -> Seq<StreamChoice>
    decreases v.len(),
{
    if v.len() == 0 {
        Seq::empty()
    } else if v[0].finish_reason is Some {
        seq![v[0]]
    } else {
        seq![v[0]] + counting(v.skip(1))
    }
}

/// The choices that count in a list of chunks.
pub open spec fn all_choices(v: Seq<StreamChunk>) -> Seq<StreamChoice>
    decreases v.len(),
{
    if v.len() == 0 {
        Seq::empty()
    } else {
        all_choices(v.drop_last()) + (match v.last().choices {
            Some(c) => counting(c@),
            None => Seq::empty(),
        })
    }
}

/// The counts of tokens that went in, chunk by chunk.
pub open spec fn counts_in(v: Seq<StreamChunk>) -> Seq<Option<u64>> {
    v.map_values(
        |c: StreamChunk|
            match c.usage {
                Some(u) => u.prompt_tokens,
                None => None,
            },
    )
}

/// The counts of tokens that came out, chunk by chunk.
pub open spec fn counts_out(v: Seq<StreamChunk>) -> Seq<Option<u64>> {
    v.map_values(
        |c: StreamChunk|
            match c.usage {
                Some(u) => u.completion_tokens,
                None => None,
            },
    )
}

/// The flow after all of the chunks, one after the other.
pub open spec fn after_chunks(f: Flow, v: Seq<StreamChunk>) -> Flow
    decreases v.len(),
{
    if v.len() == 0 {
        f
    } else {
        after_chunk(after_chunks(f, v.drop_last()), v.last())
    }
}

/// What `g` has beyond `f` is exactly what the choices say.
pub open spec fn has_grown_by(f: Flow, g: Flow, v: Seq<StreamChoice>) -> bool {
    &&& g.content == f.content + answers(v)
    &&& g.thinking == (if f.client_gone {
        f.thinking
    } else {
        f.thinking + reasonings(v)
    })
    &&& g.client_gone == f.client_gone
    &&& calls_have_grown_by(f.tool_calls, g.tool_calls, call_pieces(v))
}

/// What the calls `b` have beyond the calls `a` is exactly what the pieces say:
/// a call exists where it did before or where a piece is for it or for a later
/// one, its name and its arguments are continued by the pieces for it, and the
/// last identifier stays.
pub open spec fn calls_have_grown_by(
    a: Seq<ToolCallView>,
    b: Seq<ToolCallView>,
    v: Seq<DeltaToolCall>,
) -> bool {
    &&& b.len() >= a.len()
    &&& forall|k: int| 0 <= k < v.len() ==> call_meant(#[trigger] v[k]) < b.len()
    &&& b.len() > a.len() ==> exists|k: int|
        0 <= k < v.len() && call_meant(#[trigger] v[k]) == b.len() - 1
    &&& forall|i: int|
        0 <= i < b.len() ==> {
            &&& (#[trigger] b[i]).name == (if i < a.len() {
                a[i].name
            } else {
                Seq::empty()
            }) + names_for(v, i)
            &&& b[i].arguments == (if i < a.len() {
                a[i].arguments
            } else {
                Seq::empty()
            }) + arguments_for(v, i)
            &&& b[i].id == id_for(
                v,
                i,
                (if i < a.len() {
                    a[i].id
                } else {
                    Seq::empty()
                }),
            )
            &&& b[i].call_type == (if i < a.len() {
                a[i].call_type
            } else {
                "function"@
            })
        }
}

proof fn lemma_calls_grow(calls: Seq<ToolCallView>, v: Seq<DeltaToolCall>, n: int)
    requires
        0 <= n <= v.len(),
    ensures
        calls_have_grown_by(calls, grown_calls(calls, v, n), v.take(n)),
    decreases n,
{
    reveal_strlit("");
    let p = v.take(n);
    let b = grown_calls(calls, v, n);
    if n == 0 {
        assert(p.len() == 0);
        assert forall|i: int| 0 <= i < b.len() implies (#[trigger] b[i]).name == calls[i].name + names_for(p, i)
            && b[i].arguments == calls[i].arguments + arguments_for(p, i) && b[i].id == id_for(
            p,
            i,
            calls[i].id,
        ) by {
            assert(calls[i].name + Seq::<char>::empty() =~= calls[i].name);
            assert(calls[i].arguments + Seq::<char>::empty() =~= calls[i].arguments);
        }
    } else {
        lemma_calls_grow(calls, v, n - 1);
        let d = v[n - 1];
        let q = v.take(n - 1);
        let old_calls = grown_calls(calls, v, n - 1);
        assert(p.drop_last() =~= q);
        assert(p.last() == d);
        let place = call_meant(d);
        assert forall|k: int| 0 <= k < p.len() implies call_meant(#[trigger] p[k]) < b.len() by {
            if k < n - 1 {
                assert(q[k] == p[k]);
            }
        }
        if b.len() > calls.len() {
            if b.len() > old_calls.len() {
                assert(b.len() == place + 1);
                assert(call_meant(p[n - 1]) == b.len() - 1);
            } else {
                let k = choose|k: int| 0 <= k < q.len() && call_meant(#[trigger] q[k]) == old_calls.len() - 1;
                assert(p[k] == q[k]);
            }
        }
        assert forall|i: int| 0 <= i < b.len() implies {
            &&& (#[trigger] b[i]).name == (if i < calls.len() {
                calls[i].name
            } else {
                Seq::empty()
            }) + names_for(p, i)
            &&& b[i].arguments == (if i < calls.len() {
                calls[i].arguments
            } else {
                Seq::empty()
            }) + arguments_for(p, i)
            &&& b[i].id == id_for(
                p,
                i,
                (if i < calls.len() {
                    calls[i].id
                } else {
                    Seq::empty()
                }),
            )
            &&& b[i].call_type == (if i < calls.len() {
                calls[i].call_type
            } else {
                "function"@
            })
        } by {
            if i >= old_calls.len() {
                lemma_nothing_for(q, old_calls.len() as int, i);
            } else {
                assert(old_calls[i].name == old_calls[i].name);
            }
            let own = if i < calls.len() {
                calls[i].name
            } else {
                Seq::empty()
            };
            let own_args = if i < calls.len() {
                calls[i].arguments
            } else {
                Seq::empty()
            };
            if d.function is Some {
                assert((own + names_for(q, i)) + piece(d.function->0.name) =~= own + (names_for(q, i)
                    + piece(d.function->0.name)));
                assert((own_args + arguments_for(q, i)) + piece(d.function->0.arguments) =~= own_args
                    + (arguments_for(q, i) + piece(d.function->0.arguments)));
            }
            assert(""@ =~= Seq::<char>::empty());
        }
    }
}

proof fn lemma_nothing_for(v: Seq<DeltaToolCall>, n: int, i: int)
    requires
        0 <= n <= i,
        forall|k: int| 0 <= k < v.len() ==> call_meant(#[trigger] v[k]) < n,
    ensures
        names_for(v, i) == Seq::<char>::empty(),
        arguments_for(v, i) == Seq::<char>::empty(),
        id_for(v, i, Seq::empty()) == Seq::<char>::empty(),
    decreases v.len(),
{
    if v.len() > 0 {
        assert(call_meant(v[v.len() - 1]) < n);
        assert forall|k: int| 0 <= k < v.drop_last().len() implies call_meant(
            #[trigger] v.drop_last()[k],
        ) < n by {
            assert(v.drop_last()[k] == v[k]);
        }
        lemma_nothing_for(v.drop_last(), n, i);
    }
}


proof fn lemma_pieces_prefix(calls: Seq<ToolCallView>, v: Seq<DeltaToolCall>, w: Seq<DeltaToolCall>, n: int)
    requires
        0 <= n <= v.len(),
    ensures
        grown_calls(calls, v + w, n) == grown_calls(calls, v, n),
    decreases n,
{
    if n > 0 {
        lemma_pieces_prefix(calls, v, w, n - 1);
        assert((v + w)[n - 1] == v[n - 1]);
    }
}

proof fn lemma_pieces_on(calls: Seq<ToolCallView>, v: Seq<DeltaToolCall>, w: Seq<DeltaToolCall>, n: int)
    requires
        0 <= n <= w.len(),
    ensures
        grown_calls(grown_calls(calls, v, v.len() as int), w, n) == grown_calls(
            calls,
            v + w,
            v.len() + n,
        ),
    decreases n,
{
    if n == 0 {
        lemma_pieces_prefix(calls, v, w, v.len() as int);
    } else {
        lemma_pieces_on(calls, v, w, n - 1);
        assert((v + w)[v.len() + n - 1] == w[n - 1]);
    }
}

proof fn lemma_choices_concat(a: Seq<StreamChoice>, b: Seq<StreamChoice>)
    ensures
        answers(a + b) == answers(a) + answers(b),
        reasonings(a + b) == reasonings(a) + reasonings(b),
        call_pieces(a + b) == call_pieces(a) + call_pieces(b),
    decreases b.len(),
{
    if b.len() == 0 {
        assert(a + b =~= a);
        assert(answers(a) + answers(b) =~= answers(a));
        assert(reasonings(a) + reasonings(b) =~= reasonings(a));
        assert(call_pieces(a) + call_pieces(b) =~= call_pieces(a));
    } else {
        lemma_choices_concat(a, b.drop_last());
        assert((a + b).drop_last() =~= a + b.drop_last());
        assert((a + b).last() == b.last());
        assert(answers(a + b) =~= answers(a) + answers(b));
        assert(reasonings(a + b) =~= reasonings(a) + reasonings(b));
        assert(call_pieces(a + b) =~= call_pieces(a) + call_pieces(b));
    }
}

/// The flow `g` is `f` with what the choices say.
spec fn follows(f: Flow, g: Flow, v: Seq<StreamChoice>) -> bool {
    &&& g.content == f.content + answers(v)
    &&& g.thinking == (if f.client_gone {
        f.thinking
    } else {
        f.thinking + reasonings(v)
    })
    &&& g.client_gone == f.client_gone
    &&& g.input_tokens == f.input_tokens
    &&& g.output_tokens == f.output_tokens
    &&& g.tool_calls == grown_calls(f.tool_calls, call_pieces(v), call_pieces(v).len() as int)
}

proof fn lemma_follows_on(f: Flow, g: Flow, h: Flow, a: Seq<StreamChoice>, b: Seq<StreamChoice>)
    requires
        follows(f, g, a),
        follows(g, h, b),
    ensures
        follows(f, h, a + b),
{
    lemma_choices_concat(a, b);
    lemma_pieces_on(f.tool_calls, call_pieces(a), call_pieces(b), call_pieces(b).len() as int);
    assert((f.content + answers(a)) + answers(b) =~= f.content + (answers(a) + answers(b)));
    assert((f.thinking + reasonings(a)) + reasonings(b) =~= f.thinking + (reasonings(a)
        + reasonings(b)));
}

proof fn lemma_one_choice(f: Flow, c: StreamChoice)
    ensures
        follows(f, after_choice(f, c), seq![c]),
{
    let v = seq![c];
    let none = Seq::<StreamChoice>::empty();
    assert(v.drop_last() =~= none);
    assert(v.last() == c);
    assert(answers(v) =~= piece(c.delta.content)) by {
        assert(answers(none) =~= Seq::empty());
    }
    assert(reasonings(v) =~= piece(c.delta.reasoning_content)) by {
        assert(reasonings(none) =~= Seq::empty());
    }
    assert(call_pieces(v) =~= (match c.delta.tool_calls {
        Some(d) => d@,
        None => Seq::empty(),
    })) by {
        assert(call_pieces(none) =~= Seq::empty());
    }
    assert(f.content + Seq::<char>::empty() =~= f.content);
    assert(f.thinking + Seq::<char>::empty() =~= f.thinking);
    if piece(c.delta.reasoning_content).len() == 0 {
        assert(piece(c.delta.reasoning_content) =~= Seq::empty());
    }
    if piece(c.delta.content).len() == 0 {
        assert(piece(c.delta.content) =~= Seq::empty());
    }
}

proof fn lemma_counting_choices(f: Flow, v: Seq<StreamChoice>, i: int)
    requires
        0 <= i <= v.len(),
    ensures
        follows(f, after_choices(f, v, i), counting(v.skip(i))),
    decreases v.len() - i,
{
    if i == v.len() {
        assert(counting(v.skip(i)) =~= Seq::empty());
        assert(f.content + Seq::<char>::empty() =~= f.content);
        assert(f.thinking + Seq::<char>::empty() =~= f.thinking);
    } else {
        assert(v.skip(i)[0] == v[i]);
        assert(v.skip(i).skip(1) =~= v.skip(i + 1));
        lemma_one_choice(f, v[i]);
        if v[i].finish_reason is None {
            let g = after_choice(f, v[i]);
            lemma_counting_choices(g, v, i + 1);
            lemma_follows_on(
                f,
                g,
                after_choices(g, v, i + 1),
                seq![v[i]],
                counting(v.skip(i + 1)),
            );
        }
    }
}

proof fn lemma_chunks(f: Flow, v: Seq<StreamChunk>)
    ensures
        ({
            let g = after_chunks(f, v);
            follows(
                Flow { input_tokens: g.input_tokens, output_tokens: g.output_tokens, ..f },
                g,
                all_choices(v),
            )
        }),
        after_chunks(f, v).input_tokens == last_count(counts_in(v), f.input_tokens),
        after_chunks(f, v).output_tokens == last_count(counts_out(v), f.output_tokens),
    decreases v.len(),
{
    if v.len() == 0 {
        assert(counts_in(v).len() == 0);
        assert(counts_out(v).len() == 0);
        assert(f.content + Seq::<char>::empty() =~= f.content);
        assert(f.thinking + Seq::<char>::empty() =~= f.thinking);
    } else {
        let c = v.last();
        let w = v.drop_last();
        lemma_chunks(f, w);
        assert(counts_in(v).drop_last() =~= counts_in(w));
        assert(counts_out(v).drop_last() =~= counts_out(w));
        let g = after_chunks(f, w);
        let h = after_chunk(g, c);
        let start = Flow { input_tokens: h.input_tokens, output_tokens: h.output_tokens, ..f };
        let mid = Flow { input_tokens: h.input_tokens, output_tokens: h.output_tokens, ..g };
        let new = match c.choices {
            Some(d) => counting(d@),
            None => Seq::empty(),
        };
        match c.choices {
            Some(d) => {
                let noted = match c.usage {
                    Some(u) => Flow {
                        input_tokens: newer(u.prompt_tokens, g.input_tokens),
                        output_tokens: newer(u.completion_tokens, g.output_tokens),
                        ..g
                    },
                    None => g,
                };
                lemma_counting_choices(noted, d@, 0);
                assert(d@.skip(0) =~= d@);
                assert(noted == mid);
                assert(follows(mid, h, new));
            },
            None => {
                assert(g.content + Seq::<char>::empty() =~= g.content);
                assert(g.thinking + Seq::<char>::empty() =~= g.thinking);
                assert(follows(mid, h, new));
            },
        }
        lemma_follows_on(start, mid, h, all_choices(w), new);
    }
}

/// After any list of chunks the answer is continued by the texts of the choices
/// that count, in order; so is the reasoning, as long as somebody looks. The
/// name and the arguments of each call are continued by the pieces for that
/// call, in order, and there are no other calls. The counts of tokens are the
/// last that were reported.
pub proof fn law_chunks_make_the_reply(f: Flow, v: Seq<StreamChunk>)
    ensures
        has_grown_by(f, after_chunks(f, v), all_choices(v)),
        after_chunks(f, v).input_tokens == last_count(counts_in(v), f.input_tokens),
        after_chunks(f, v).output_tokens == last_count(counts_out(v), f.output_tokens),
{
    lemma_chunks(f, v);
    let p = call_pieces(all_choices(v));
    lemma_calls_grow(f.tool_calls, p, p.len() as int);
    assert(p.take(p.len() as int) =~= p);
}

/// A choice with one piece of a call, for the first call of a reply of which
/// nothing has arrived, makes exactly one call: with the identifier, the name
/// and the arguments of the piece.
pub proof fn law_one_piece_makes_one_call(c: StreamChoice, d: DeltaToolCall, n: DeltaFunction)
    requires
        c.delta.tool_calls is Some,
        (c.delta.tool_calls->0)@ == seq![d],
        d.index is None || d.index == Some(0usize),
        d.function == Some(n),
    ensures
        ({
            let calls = after_choice(empty_flow(), c).tool_calls;
            &&& calls.len() == 1
            &&& calls[0].id == piece(d.id)
            &&& calls[0].name == piece(n.name)
            &&& calls[0].arguments == piece(n.arguments)
            &&& calls[0].call_type == "function"@
        }),
{
    let f = empty_flow();
    lemma_one_choice(f, c);
    let v = seq![c];
    assert(v.drop_last() =~= Seq::empty());
    let p = call_pieces(v);
    assert(p =~= seq![d]) by {
        assert(call_pieces(Seq::<StreamChoice>::empty()) =~= Seq::empty());
    }
    lemma_calls_grow(f.tool_calls, p, 1);
    assert(p.take(1) =~= p);
    let calls = after_choice(f, c).tool_calls;
    assert(call_meant(p[0]) == 0);
    assert(calls.len() == 1);
    assert(p.drop_last() =~= Seq::empty());
    assert(p.last() == d);
    assert(names_for(p, 0) =~= piece(n.name)) by {
        assert(names_for(p.drop_last(), 0) =~= Seq::empty());
    }
    assert(arguments_for(p, 0) =~= piece(n.arguments)) by {
        assert(arguments_for(p.drop_last(), 0) =~= Seq::empty());
    }
    assert(id_for(p, 0, Seq::empty()) =~= piece(d.id)) by {
        assert(id_for(p.drop_last(), 0, Seq::empty()) =~= Seq::empty());
    }
    assert(calls[0].name =~= Seq::<char>::empty() + names_for(p, 0));
    assert(calls[0].arguments =~= Seq::<char>::empty() + arguments_for(p, 0));
}

} // verus!
