//! What the streamed replies of Ollama and Gemini come to.

use crate::chat::ToolCallView;
use crate::json::{JsonView, json_compact, no_entries};
use crate::providers::collected::{last_count, piece};
use crate::providers::gemini_reply::{
    GeminiCandidate, GeminiGenerateResponse, GeminiPart, after_candidates, after_gemini_chunk,
    after_part, after_parts, gemini_text, parts_text, usage_fits, usage_pair,
};
use crate::providers::stream::{
    Flow, OllamaStreamChunk, OllamaToolCall, after_ollama_chunk, newer, ollama_calls_set,
};
use crate::text::{decimal_spec, trimmed};
use vstd::prelude::*;
use vstd::string::*;

verus! {

// ---------------------------------------------------------------------------
// Ollama
// ---------------------------------------------------------------------------

/// The texts of a list of chunks in one.
pub open spec fn ollama_answers(v: Seq<OllamaStreamChunk>) -> Seq<char>
    decreases v.len(),
{
    if v.len() == 0 {
        Seq::empty()
    } else {
        ollama_answers(v.drop_last()) + (match v.last().message {
            Some(m) => piece(m.content),
            None => Seq::empty(),
        })
    }
}

/// The reasoning of a list of chunks in one.
pub open spec fn ollama_reasonings(v: Seq<OllamaStreamChunk>) -> Seq<char>
    decreases v.len(),
{
    if v.len() == 0 {
        Seq::empty()
    } else {
        ollama_reasonings(v.drop_last()) + (match v.last().message {
            Some(m) => piece(m.thinking),
            None => Seq::empty(),
        })
    }
}

/// The flow after all of the chunks, one after the other.
pub open spec fn after_ollama_chunks(f: Flow, v: Seq<OllamaStreamChunk>) -> Flow
    decreases v.len(),
{
    if v.len() == 0 {
        f
    } else {
        after_ollama_chunk(after_ollama_chunks(f, v.drop_last()), v.last())
    }
}

/// After any list of chunks the answer is continued by their texts, in order; so
/// is the reasoning, as long as somebody looks. The counts of tokens are the
/// last that were reported.
pub proof fn law_ollama_chunks_make_the_reply(f: Flow, v: Seq<OllamaStreamChunk>)
    ensures
        ({
            let g = after_ollama_chunks(f, v);
            &&& g.content == f.content + ollama_answers(v)
            &&& g.thinking == (if f.client_gone {
                f.thinking
            } else {
                f.thinking + ollama_reasonings(v)
            })
            &&& g.client_gone == f.client_gone
            &&& g.input_tokens == last_count(
                v.map_values(|c: OllamaStreamChunk| c.prompt_eval_count),
                f.input_tokens,
            )
            &&& g.output_tokens == last_count(
                v.map_values(|c: OllamaStreamChunk| c.eval_count),
                f.output_tokens,
            )
        }),
    decreases v.len(),
{
    let ins = v.map_values(|c: OllamaStreamChunk| c.prompt_eval_count);
    let outs = v.map_values(|c: OllamaStreamChunk| c.eval_count);
    if v.len() == 0 {
        assert(ins.len() == 0 && outs.len() == 0);
        assert(f.content + Seq::<char>::empty() =~= f.content);
        assert(f.thinking + Seq::<char>::empty() =~= f.thinking);
    } else {
        let w = v.drop_last();
        law_ollama_chunks_make_the_reply(f, w);
        assert(ins.drop_last() =~= w.map_values(|c: OllamaStreamChunk| c.prompt_eval_count));
        assert(outs.drop_last() =~= w.map_values(|c: OllamaStreamChunk| c.eval_count));
        let g = after_ollama_chunks(f, w);
        let h = after_ollama_chunks(f, v);
        let (said_now, thought_now) = match v.last().message {
            Some(m) => (piece(m.content), piece(m.thinking)),
            None => (Seq::empty(), Seq::empty()),
        };
        assert(h.content =~= g.content + said_now);
        assert(h.content =~= f.content + ollama_answers(v));
        assert(f.client_gone || h.thinking =~= g.thinking + thought_now);
        assert(f.client_gone || h.thinking =~= f.thinking + ollama_reasonings(v));
    }
}

proof fn lemma_ollama_calls(calls: Seq<ToolCallView>, v: Seq<OllamaToolCall>, n: int)
    requires
        0 <= n <= v.len(),
    ensures
        ({
            let b = ollama_calls_set(calls, v, n);
            &&& b.len() == (if calls.len() < n {
                n as int
            } else {
                calls.len() as int
            })
            &&& forall|i: int| 0 <= i < n ==> is_call_said(calls, i, v[i], #[trigger] b[i])
            &&& forall|i: int| n <= i < calls.len() ==> #[trigger] b[i] == calls[i]
        }),
    decreases n,
{
    if n > 0 {
        lemma_ollama_calls(calls, v, n - 1);
        let a = ollama_calls_set(calls, v, n - 1);
        let b = ollama_calls_set(calls, v, n);
        assert forall|i: int| 0 <= i < n implies is_call_said(calls, i, v[i], #[trigger] b[i]) by {
            if i < n - 1 {
                assert(b[i] == a[i]);
            } else if n <= calls.len() {
                assert(a[i] == calls[i]);
            }
            reveal_strlit("");
            assert(""@ =~= Seq::<char>::empty());
        }
    }
}

/// The call `c` at `i` is what an entry says of it: its identifier, its name and
/// its arguments where the entry gives them, and else those that the call had.
/// A call that is new has a numbered identifier, no name and no arguments until
/// they are given.
pub open spec fn is_call_said(
    calls: Seq<ToolCallView>,
    i: int,
    t: OllamaToolCall,
    c: ToolCallView,
) -> bool {
    &&& c.id == (match t.id {
        Some(id) => id@,
        None => if i < calls.len() {
            calls[i].id
        } else {
            "ollama_call_"@ + decimal_spec((i + 1) as nat)
        },
    })
    &&& c.name == (if t.function is Some && t.function->0.name is Some {
        (t.function->0.name->0)@
    } else if i < calls.len() {
        calls[i].name
    } else {
        Seq::empty()
    })
    &&& c.arguments == (if t.function is Some && t.function->0.arguments is Some {
        json_compact((t.function->0.arguments->0)@)
    } else if i < calls.len() {
        calls[i].arguments
    } else {
        "{}"@
    })
    &&& c.call_type == (if i < calls.len() {
        calls[i].call_type
    } else {
        "function"@
    })
}

/// A chunk with calls says of each call, by its place in the list, what it is;
/// the calls after those stay, and no other is made. A chunk without calls
/// leaves them.
pub proof fn law_ollama_calls_are_those_said(f: Flow, c: OllamaStreamChunk)
    ensures
        ({
            let calls = after_ollama_chunk(f, c).tool_calls;
            if c.message is Some && c.message->0.tool_calls is Some {
                let v = (c.message->0.tool_calls->0)@;
                &&& calls.len() == (if f.tool_calls.len() < v.len() {
                    v.len()
                } else {
                    f.tool_calls.len()
                })
                &&& forall|i: int|
                    0 <= i < v.len() ==> is_call_said(f.tool_calls, i, v[i], #[trigger] calls[i])
                &&& forall|i: int|
                    v.len() <= i < f.tool_calls.len() ==> #[trigger] calls[i] == f.tool_calls[i]
            } else {
                calls == f.tool_calls
            }
        }),
{
    if c.message is Some && c.message->0.tool_calls is Some {
        let v = (c.message->0.tool_calls->0)@;
        lemma_ollama_calls(f.tool_calls, v, v.len() as int);
    }
}

// ---------------------------------------------------------------------------
// Gemini
// ---------------------------------------------------------------------------

/// The parts of a candidate.
pub open spec fn its_parts(c: GeminiCandidate) -> Seq<GeminiPart> {
    match c.content {
        Some(content) => match content.parts {
            Some(v) => v@,
            None => Seq::empty(),
        },
        None => Seq::empty(),
    }
}

/// The parts of a list of candidates, in order.
pub open spec fn candidates_parts(v: Seq<GeminiCandidate>) -> Seq<GeminiPart>
    decreases v.len(),
{
    if v.len() == 0 {
        Seq::empty()
    } else {
        candidates_parts(v.drop_last()) + its_parts(v.last())
    }
}

/// The parts of a list of chunks, in order.
pub open spec fn chunks_parts(v: Seq<GeminiGenerateResponse>) -> Seq<GeminiPart>
    decreases v.len(),
{
    if v.len() == 0 {
        Seq::empty()
    } else {
        chunks_parts(v.drop_last()) + (match v.last().candidates {
            Some(c) => candidates_parts(c@),
            None => Seq::empty(),
        })
    }
}

/// The texts of the parts that are thoughts, or of those that are not, in one.
pub open spec fn part_texts(v: Seq<GeminiPart>, thoughts: bool) -> Seq<char>
    decreases v.len(),
{
    if v.len() == 0 {
        Seq::empty()
    } else if (v.last().thought == Some(true)) == thoughts {
        part_texts(v.drop_last(), thoughts) + piece(v.last().text)
    } else {
        part_texts(v.drop_last(), thoughts)
    }
}

/// The parts that ask for a call, in order.
pub open spec fn calling_parts(v: Seq<GeminiPart>) -> Seq<GeminiPart>
    decreases v.len(),
{
    if v.len() == 0 {
        Seq::empty()
    } else if v.last().function_call is Some {
        calling_parts(v.drop_last()).push(v.last())
    } else {
        calling_parts(v.drop_last())
    }
}

/// The call `c` is the one that the part asks for, as the `n`-th of the reply.
pub open spec fn is_call_of_part(c: ToolCallView, p: GeminiPart, n: int) -> bool {
    let asked = p.function_call->0;
    &&& p.function_call is Some
    &&& c.id == (if asked.id is Some && trimmed((asked.id->0)@).len() > 0 {
        (asked.id->0)@
    } else {
        "gemini_call_"@ + decimal_spec(n as nat)
    })
    &&& c.name == piece(asked.name)
    &&& asked.args is Some ==> c.arguments == json_compact((asked.args->0)@)
    &&& asked.args is None ==> c.arguments == json_compact(JsonView::Object(Seq::empty()))
    &&& c.call_type == "function"@
    &&& c.gemini_thought_signature == (match p.thought_signature {
        Some(s) => Some(s@),
        None => None,
    })
}

/// The flow `g` is `f` with what the parts say.
pub open spec fn has_taken_parts(f: Flow, g: Flow, v: Seq<GeminiPart>) -> bool {
    &&& g.content == f.content + part_texts(v, false)
    &&& g.thinking == f.thinking + part_texts(v, true)
    &&& g.client_gone == f.client_gone
    &&& g.tool_calls.len() == f.tool_calls.len() + calling_parts(v).len()
    &&& forall|i: int| 0 <= i < f.tool_calls.len() ==> #[trigger] g.tool_calls[i] == f.tool_calls[i]
    &&& forall|i: int|
        0 <= i < calling_parts(v).len() ==> is_call_of_part(
            g.tool_calls[f.tool_calls.len() + i],
            #[trigger] calling_parts(v)[i],
            f.tool_calls.len() + i + 1,
        )
}

proof fn lemma_parts_concat(a: Seq<GeminiPart>, b: Seq<GeminiPart>)
    ensures
        part_texts(a + b, true) == part_texts(a, true) + part_texts(b, true),
        part_texts(a + b, false) == part_texts(a, false) + part_texts(b, false),
        calling_parts(a + b) == calling_parts(a) + calling_parts(b),
    decreases b.len(),
{
    if b.len() == 0 {
        assert(a + b =~= a);
        assert(part_texts(a, true) + part_texts(b, true) =~= part_texts(a, true));
        assert(part_texts(a, false) + part_texts(b, false) =~= part_texts(a, false));
        assert(calling_parts(a) + calling_parts(b) =~= calling_parts(a));
    } else {
        lemma_parts_concat(a, b.drop_last());
        assert((a + b).drop_last() =~= a + b.drop_last());
        assert((a + b).last() == b.last());
        assert(part_texts(a + b, true) =~= part_texts(a, true) + part_texts(b, true));
        assert(part_texts(a + b, false) =~= part_texts(a, false) + part_texts(b, false));
        assert(calling_parts(a + b) =~= calling_parts(a) + calling_parts(b));
    }
}

proof fn lemma_parts_on(f: Flow, g: Flow, h: Flow, a: Seq<GeminiPart>, b: Seq<GeminiPart>)
    requires
        has_taken_parts(f, g, a),
        has_taken_parts(g, h, b),
    ensures
        has_taken_parts(f, h, a + b),
{
    lemma_parts_concat(a, b);
    assert(h.content =~= f.content + part_texts(a + b, false));
    assert(h.thinking =~= f.thinking + part_texts(a + b, true));
    let both = calling_parts(a + b);
    let n = calling_parts(a).len();
    assert forall|i: int| 0 <= i < f.tool_calls.len() implies #[trigger] h.tool_calls[i]
        == f.tool_calls[i] by {
        assert(g.tool_calls[i] == f.tool_calls[i]);
    }
    assert forall|i: int| 0 <= i < both.len() implies is_call_of_part(
        h.tool_calls[f.tool_calls.len() + i],
        #[trigger] both[i],
        f.tool_calls.len() + i + 1,
    ) by {
        if i < n {
            assert(both[i] == calling_parts(a)[i]);
            assert(h.tool_calls[f.tool_calls.len() + i] == g.tool_calls[f.tool_calls.len() + i]);
        } else {
            assert(both[i] == calling_parts(b)[i - n]);
        }
    }
}

proof fn lemma_no_parts(f: Flow)
    ensures
        has_taken_parts(f, f, Seq::empty()),
{
    assert(f.content + Seq::<char>::empty() =~= f.content);
    assert(f.thinking + Seq::<char>::empty() =~= f.thinking);
}

proof fn lemma_one_part(f: Flow, p: GeminiPart)
    ensures
        has_taken_parts(f, after_part(f, p), seq![p]),
{
    let v = seq![p];
    let none = Seq::<GeminiPart>::empty();
    assert(v.drop_last() =~= none);
    assert(v.last() == p);
    assert(part_texts(none, true) =~= Seq::empty());
    assert(part_texts(none, false) =~= Seq::empty());
    assert(calling_parts(none) =~= Seq::empty());
    let g = after_part(f, p);
    if piece(p.text).len() == 0 {
        assert(piece(p.text) =~= Seq::empty());
    }
    assert(g.content =~= f.content + part_texts(v, false));
    assert(g.thinking =~= f.thinking + part_texts(v, true));
    if p.function_call is Some {
        assert(calling_parts(v) =~= seq![p]);
        assert(calling_parts(v)[0] == p);
        assert(no_entries() =~= Seq::<(Seq<char>, JsonView)>::empty());
    } else {
        assert(calling_parts(v) =~= none);
    }
}

proof fn lemma_parts(f: Flow, v: Seq<GeminiPart>, n: int)
    requires
        0 <= n <= v.len(),
    ensures
        has_taken_parts(f, after_parts(f, v, n), v.take(n)),
    decreases n,
{
    if n == 0 {
        assert(v.take(0) =~= Seq::empty());
        lemma_no_parts(f);
    } else {
        lemma_parts(f, v, n - 1);
        let g = after_parts(f, v, n - 1);
        lemma_one_part(g, v[n - 1]);
        lemma_parts_on(f, g, after_part(g, v[n - 1]), v.take(n - 1), seq![v[n - 1]]);
        assert(v.take(n - 1) + seq![v[n - 1]] =~= v.take(n));
    }
}

proof fn lemma_candidates(f: Flow, v: Seq<GeminiCandidate>, n: int)
    requires
        0 <= n <= v.len(),
    ensures
        has_taken_parts(f, after_candidates(f, v, n), candidates_parts(v.take(n))),
    decreases n,
{
    if n == 0 {
        assert(candidates_parts(v.take(0)) =~= Seq::empty());
        lemma_no_parts(f);
    } else {
        lemma_candidates(f, v, n - 1);
        let g = after_candidates(f, v, n - 1);
        let p = its_parts(v[n - 1]);
        lemma_parts(g, p, p.len() as int);
        assert(p.take(p.len() as int) =~= p);
        assert(v.take(n).drop_last() =~= v.take(n - 1));
        lemma_no_parts(g);
        lemma_parts_on(f, g, after_candidates(f, v, n), candidates_parts(v.take(n - 1)), p);
    }
}

/// The flow after all of the chunks, one after the other.
pub open spec fn after_gemini_chunks(f: Flow, v: Seq<GeminiGenerateResponse>) -> Flow
    decreases v.len(),
{
    if v.len() == 0 {
        f
    } else {
        after_gemini_chunk(after_gemini_chunks(f, v.drop_last()), v.last())
    }
}

/// After any list of chunks the answer is continued by the texts of the parts
/// that are no thoughts, the reasoning by those that are, each in order; each
/// part that asks for a call adds exactly that call.
pub proof fn law_gemini_chunks_make_the_reply(f: Flow, v: Seq<GeminiGenerateResponse>)
    ensures
        has_taken_parts(f, after_gemini_chunks(f, v), chunks_parts(v)),
    decreases v.len(),
{
    if v.len() == 0 {
        lemma_no_parts(f);
    } else {
        let w = v.drop_last();
        law_gemini_chunks_make_the_reply(f, w);
        let g = after_gemini_chunks(f, w);
        let h = after_gemini_chunk(g, v.last());
        let p = match v.last().candidates {
            Some(c) => candidates_parts(c@),
            None => Seq::empty(),
        };
        let noted = Flow {
            input_tokens: newer(usage_pair(v.last().usage_metadata).0, g.input_tokens),
            output_tokens: newer(usage_pair(v.last().usage_metadata).1, g.output_tokens),
            ..g
        };
        match v.last().candidates {
            Some(c) => {
                lemma_candidates(noted, c@, c@.len() as int);
                assert(c@.take(c@.len() as int) =~= c@);
            },
            None => {
                lemma_no_parts(noted);
            },
        }
        assert(has_taken_parts(g, h, p));
        lemma_parts_on(f, g, h, chunks_parts(w), p);
    }
}

/// A chunk's count of tokens that went in is taken over; of those that came out,
/// answers and thoughts count together. A count that a chunk does not give stays.
pub proof fn law_gemini_counts(f: Flow, c: GeminiGenerateResponse)
    requires
        usage_fits(c.usage_metadata),
    ensures
        ({
            let g = after_gemini_chunk(f, c);
            match c.usage_metadata {
                None => g.input_tokens == f.input_tokens && g.output_tokens == f.output_tokens,
                Some(u) => {
                    &&& g.input_tokens == (if u.prompt_token_count is Some {
                        u.prompt_token_count
                    } else {
                        f.input_tokens
                    })
                    &&& u.candidates_token_count is None && u.thoughts_token_count is None
                        ==> g.output_tokens == f.output_tokens
                    &&& u.candidates_token_count is Some || u.thoughts_token_count is Some ==> {
                        &&& g.output_tokens is Some
                        &&& g.output_tokens->0 == (if u.candidates_token_count is Some {
                            u.candidates_token_count->0 as int
                        } else {
                            0
                        }) + (if u.thoughts_token_count is Some {
                            u.thoughts_token_count->0 as int
                        } else {
                            0
                        })
                    }
                },
            }
        }),
{
    if let Some(v) = c.candidates {
        let (input, output) = usage_pair(c.usage_metadata);
        let noted = Flow {
            input_tokens: newer(input, f.input_tokens),
            output_tokens: newer(output, f.output_tokens),
            ..f
        };
        lemma_candidates_keep_counts(noted, v@, v@.len() as int);
    }
}

proof fn lemma_candidates_keep_counts(f: Flow, v: Seq<GeminiCandidate>, n: int)
    ensures
        after_candidates(f, v, n).input_tokens == f.input_tokens,
        after_candidates(f, v, n).output_tokens == f.output_tokens,
    decreases n,
{
    if n > 0 {
        lemma_candidates_keep_counts(f, v, n - 1);
        let g = after_candidates(f, v, n - 1);
        let p = its_parts(v[n - 1]);
        lemma_parts_keep_counts(g, p, p.len() as int);
    }
}

proof fn lemma_parts_keep_counts(f: Flow, v: Seq<GeminiPart>, n: int)
    ensures
        after_parts(f, v, n).input_tokens == f.input_tokens,
        after_parts(f, v, n).output_tokens == f.output_tokens,
    decreases n,
{
    if n > 0 {
        lemma_parts_keep_counts(f, v, n - 1);
    }
}

proof fn lemma_texts_of_all(v: Seq<GeminiPart>, n: int)
    requires
        0 <= n <= v.len(),
    ensures
        parts_text(v, n) == all_texts(v.take(n)),
    decreases n,
{
    if n > 0 {
        lemma_texts_of_all(v, n - 1);
        assert(v.take(n).drop_last() =~= v.take(n - 1));
        assert(v.take(n).last() == v[n - 1]);
    }
}

/// The texts of all parts in one.
pub open spec fn all_texts(v: Seq<GeminiPart>) -> Seq<char>
    decreases v.len(),
{
    if v.len() == 0 {
        Seq::empty()
    } else {
        all_texts(v.drop_last()) + piece(v.last().text)
    }
}

/// The text of a whole reply is that of the parts of its first candidate, in
/// order.
pub proof fn law_gemini_text(r: GeminiGenerateResponse)
    ensures
        gemini_text(r) == (if r.candidates is Some && (r.candidates->0)@.len() > 0 {
            all_texts(its_parts((r.candidates->0)@[0]))
        } else {
            Seq::empty()
        }),
{
    if r.candidates is Some && (r.candidates->0)@.len() > 0 {
        let p = its_parts((r.candidates->0)@[0]);
        lemma_texts_of_all(p, p.len() as int);
        assert(p.take(p.len() as int) =~= p);
    }
}

} // verus!
