//! Picking the records that matter for a query.

use crate::memory::model::{
    CommandPattern, FactView, LessonView, LoopView, MemoryFact, MemoryLesson, MemoryView,
    OpenLoop, PatternView, ProjectSignal, SignalView, StructuredMemory, facts_view, lessons_view,
    loops_view, patterns_view, signals_view,
};
use crate::memory::records::{Remembered, about_from, all_seen, find_about};
use crate::text::{
    before, contains, holds_text, join, joined, lemma_before_irreflexive, lemma_before_total,
    lemma_before_transitive, lower_text, owned, same, text_before, texts, to_lowercase, trim,
    trimmed,
};
use vstd::prelude::*;
use vstd::string::*;

verus! {

/// A query with the words that it is matched by. Which words those are is up
/// to the tokenizer of the caller.
#[derive(Debug, PartialEq, Eq)]
pub struct MemoryQuery {
    pub text: String,
    pub tokens: Vec<String>,
}

#[verifier::ext_equal]
pub struct QueryView {
    pub text: Seq<char>,
    pub tokens: Seq<Seq<char>>,
}

impl MemoryQuery {
    pub open spec fn view(self) -> QueryView {
        QueryView { text: self.text@, tokens: texts(self.tokens@) }
    }
}

/// The query behind an optional query.
pub open spec fn opt_query(q: Option<&MemoryQuery>) -> Option<QueryView> {
    match q {
        Some(x) => Some(x@),
        None => None,
    }
}

/// The scores of a query with so many words fit the machine.
pub open spec fn scores_fit(q: Option<QueryView>) -> bool {
    q is Some ==> 8 + 16 * q->0.tokens.len() <= usize::MAX
}

// ---------------------------------------------------------------------------
// Relevance
// ---------------------------------------------------------------------------

/// The texts in lower case.
pub open spec fn lowercase_all(parts: Seq<Seq<char>>) -> Seq<Seq<char>> {
    parts.map_values(|p: Seq<char>| lower_text(p))
}

/// What a word scores in the first `n` parts: four where it is the part, two
/// where it stands in the part.
pub open spec fn token_score(parts: Seq<Seq<char>>, token: Seq<char>, n: int) -> nat
    decreases n,
{
    if n <= 0 {
        0
    } else {
        token_score(parts, token, n - 1) + (if parts[n - 1] == token {
            4nat
        } else if holds_text(parts[n - 1], token) {
            2nat
        } else {
            0nat
        })
    }
}

/// What the first `m` words score; an empty word scores nothing.
pub open spec fn tokens_score(parts: Seq<Seq<char>>, tokens: Seq<Seq<char>>, m: int) -> nat
    decreases m,
{
    if m <= 0 {
        0
    } else {
        tokens_score(parts, tokens, m - 1) + (if tokens[m - 1].len() == 0 {
            0
        } else {
            token_score(parts, tokens[m - 1], parts.len() as int)
        })
    }
}

/// How relevant the texts of a record are to a query in lower case and its
/// words: eight where the whole query stands in them, and what its words score.
pub open spec fn relevance(
    text_parts: Seq<Seq<char>>,
    tokens: Seq<Seq<char>>,
    query_lower: Seq<char>,
) -> nat {
    let parts = lowercase_all(text_parts);
    if tokens.len() == 0 {
        0
    } else {
        (if query_lower.len() > 0 && holds_text(joined(parts, " "@), query_lower) {
            8nat
        } else {
            0nat
        }) + tokens_score(parts, tokens, tokens.len() as int)
    }
}

/// The scores of so many texts and words fit the machine.
pub open spec fn parts_fit(parts: nat, tokens: nat) -> bool {
    8 + 4 * parts * tokens <= usize::MAX
}

/// Where the scores of a query fit, they fit for each of its records.
proof fn lemma_parts_fit(parts: nat, tokens: nat)
    requires
        parts <= 4,
        8 + 16 * tokens <= usize::MAX,
    ensures
        parts_fit(parts, tokens),
{
    assert(4 * parts * tokens <= 16 * tokens) by (nonlinear_arith)
        requires
            parts <= 4,
    ;
}

fn score_of_token(parts: &Vec<String>, token: &str) -> (r: usize)
    requires
        4 * parts@.len() <= usize::MAX,
    ensures
        r == token_score(texts(parts@), token@, parts@.len() as int),
        r <= 4 * parts@.len(),
{
    let mut score: usize = 0;
    let mut n: usize = 0;
    while n < parts.len()
        invariant
            n <= parts@.len(),
            4 * parts@.len() <= usize::MAX,
            score == token_score(texts(parts@), token@, n as int),
            score <= 4 * n,
        decreases parts@.len() - n,
    {
        assert(texts(parts@)[n as int] == parts@[n as int]@);
        if same(parts[n].as_str(), token) {
            score = score + 4;
        } else if contains(parts[n].as_str(), token) {
            score = score + 2;
        }
        n = n + 1;
    }
    score
}

/// How relevant the texts of a record are to a query.
pub fn composite_memory_relevance_score(
    text_parts: &Vec<String>,
    query_tokens: &Vec<String>,
    query_lower: &str,
) -> (r: usize)
    requires
        parts_fit(text_parts@.len(), query_tokens@.len()),
    ensures
        r == relevance(texts(text_parts@), texts(query_tokens@), query_lower@),
{
    if query_tokens.len() == 0 {
        return 0;
    }
    let mut parts: Vec<String> = Vec::new();
    let mut i: usize = 0;
    while i < text_parts.len()
        invariant
            i <= text_parts@.len(),
            parts@.len() == i,
            forall|j: int|
                0 <= j < i ==> (#[trigger] parts@[j])@ == lower_text(text_parts@[j]@),
        decreases text_parts@.len() - i,
    {
        parts.push(to_lowercase(text_parts[i].as_str()));
        i = i + 1;
    }
    assert(texts(parts@) =~= lowercase_all(texts(text_parts@)));
    let combined = join(&parts, " ");
    let mut score: usize = 0;
    if !query_lower.is_empty() && contains(combined.as_str(), query_lower) {
        score = 8;
    }
    let ghost base = score as nat;
    let mut m: usize = 0;
    while m < query_tokens.len()
        invariant
            m <= query_tokens@.len(),
            base <= 8,
            parts_fit(parts@.len(), query_tokens@.len()),
            score == base + tokens_score(texts(parts@), texts(query_tokens@), m as int),
            score <= 8 + 4 * parts@.len() * m,
        decreases query_tokens@.len() - m,
    {
        let ghost k = parts@.len() as int;
        let ghost all = query_tokens@.len() as int;
        assert(4 * k * (m + 1) == 4 * k * m + 4 * k) by (nonlinear_arith);
        assert(4 * k * (m + 1) <= 4 * k * all) by (nonlinear_arith)
            requires
                m + 1 <= all,
                0 <= k,
        ;
        assert(0 <= 4 * k * m) by (nonlinear_arith)
            requires
                0 <= k,
                0 <= m,
        ;
        let token = &query_tokens[m];
        assert(texts(query_tokens@)[m as int] == token@);
        if !token.as_str().is_empty() {
            score = score + score_of_token(&parts, token.as_str());
        }
        m = m + 1;
    }
    score
}

// ---------------------------------------------------------------------------
// Ranking
// ---------------------------------------------------------------------------

/// A kind of record that is searched and ranked.
pub trait Searched: Remembered {
    /// The texts that a query is matched against.
    spec fn parts(v: Self::V) -> Seq<Seq<char>>;

    /// There are at most four of them.
    proof fn lemma_parts(v: Self::V)
        ensures
            Self::parts(v).len() <= 4,
    ;

    /// The texts that a query is matched against.
    fn part_texts(&self) -> (r: Vec<String>)
        ensures
            texts(r@) == Self::parts(self.seen()),
    ;
}

/// A record with its score.
pub struct Scored<T> {
    pub score: usize,
    pub item: T,
}

/// What scored records say.
pub open spec fn scored_view<T: Searched>(v: Seq<Scored<T>>) -> Seq<(nat, T::V)> {
    v.map_values(|s: Scored<T>| (s.score as nat, s.item.seen()))
}

/// `a` ranks before `b`: by score, then by time, then by subject.
pub open spec fn ranks_before<T: Searched>(a: (nat, T::V), b: (nat, T::V)) -> bool {
    ||| a.0 > b.0
    ||| (a.0 == b.0 && T::time_of(a.1) > T::time_of(b.1))
    ||| (a.0 == b.0 && T::time_of(a.1) == T::time_of(b.1) && text_before(
        T::id_of(a.1),
        T::id_of(b.1),
    ))
}

/// `v` with `x` before the first record that it ranks before.
pub open spec fn ranked_in<T: Searched>(v: Seq<(nat, T::V)>, x: (nat, T::V)) -> Seq<(nat, T::V)>
    decreases v.len(),
{
    if v.len() == 0 {
        seq![x]
    } else if ranks_before::<T>(x, v[0]) {
        seq![x] + v
    } else {
        seq![v[0]] + ranked_in::<T>(v.skip(1), x)
    }
}

/// The first `n` scored records in the order of their ranks; equal ranks keep
/// their order.
pub open spec fn ranked<T: Searched>(v: Seq<(nat, T::V)>, n: int) -> Seq<(nat, T::V)>
    decreases n,
{
    if n <= 0 {
        Seq::empty()
    } else {
        ranked_in::<T>(ranked::<T>(v, n - 1), v[n - 1])
    }
}

fn goes_before<T: Searched>(a: &Scored<T>, b: &Scored<T>) -> (r: bool)
    ensures
        r == ranks_before::<T>(
            (a.score as nat, a.item.seen()),
            (b.score as nat, b.item.seen()),
        ),
{
    if a.score != b.score {
        return a.score > b.score;
    }
    let s: u64 = a.item.time();
    let t: u64 = b.item.time();
    if s != t {
        return s > t;
    }
    before(a.item.id().as_str(), b.item.id().as_str())
}

fn rank_in<T: Searched>(v: &mut Vec<Scored<T>>, x: Scored<T>)
    ensures
        scored_view(final(v)@) == ranked_in::<T>(
            scored_view(old(v)@),
            (x.score as nat, x.item.seen()),
        ),
{
    let ghost start = scored_view(v@);
    let ghost view = (x.score as nat, x.item.seen());
    let mut i: usize = 0;
    assert(start.skip(0) =~= start);
    assert(start.take(0) + ranked_in::<T>(start.skip(0), view) =~= ranked_in::<T>(start, view));
    while i < v.len()
        invariant
            i <= v@.len(),
            view == (x.score as nat, x.item.seen()),
            scored_view(v@) == start,
            v@ == old(v)@,
            start.take(i as int) + ranked_in::<T>(start.skip(i as int), view) == ranked_in::<T>(
                start,
                view,
            ),
        decreases v@.len() - i,
    {
        let ghost rest = start.skip(i as int);
        assert(rest[0] == (v@[i as int].score as nat, v@[i as int].item.seen()));
        if goes_before(&x, &v[i]) {
            v.insert(i, x);
            assert(scored_view(v@) =~= start.insert(i as int, view));
            assert(start.take(i as int) + (seq![view] + rest) =~= start.insert(i as int, view));
            return;
        }
        assert(rest.skip(1) =~= start.skip(i + 1));
        assert(start.take(i as int) + (seq![rest[0]] + ranked_in::<T>(rest.skip(1), view))
            =~= start.take(i + 1) + ranked_in::<T>(start.skip(i + 1), view));
        i = i + 1;
    }
    v.push(x);
    assert(start.skip(i as int) =~= Seq::<(nat, T::V)>::empty());
    assert(scored_view(v@) =~= start.push(view));
    assert(start.take(i as int) + seq![view] =~= start.push(view));
}

/// The query says something.
pub open spec fn query_usable(q: Option<QueryView>) -> bool {
    q is Some && trimmed(q->0.text).len() > 0
}

/// What a record scores for a query; nothing where the query says nothing.
pub open spec fn score_for<T: Searched>(v: T::V, q: Option<QueryView>) -> nat {
    if query_usable(q) {
        relevance(T::parts(v), q->0.tokens, lower_text(trimmed(q->0.text)))
    } else {
        0
    }
}

/// The records with their scores.
pub open spec fn with_scores<T: Searched>(v: Seq<T::V>, q: Option<QueryView>) -> Seq<(nat, T::V)> {
    v.map_values(|x: T::V| (score_for::<T>(x, q), x))
}

/// The records with their scores, in the order of their ranks.
pub open spec fn ranking<T: Searched>(v: Seq<T::V>, q: Option<QueryView>) -> Seq<(nat, T::V)> {
    ranked::<T>(with_scores::<T>(v, q), v.len() as int)
}

fn usable_query<'a>(q: Option<&'a MemoryQuery>) -> (r: Option<(&'a MemoryQuery, String)>)
    ensures
        match r {
            Some(p) => query_usable(opt_query(q)) && opt_query(q) == Some(p.0@) && p.1@
                == lower_text(trimmed(p.0@.text)),
            None => !query_usable(opt_query(q)),
        },
{
    match q {
        Some(x) => {
            let t = trim(x.text.as_str());
            if t.as_str().is_empty() {
                None
            } else {
                Some((x, to_lowercase(t.as_str())))
            }
        },
        None => None,
    }
}

fn rank_all<T: Searched>(items: &Vec<T>, q: Option<&MemoryQuery>) -> (r: Vec<Scored<T>>)
    requires
        scores_fit(opt_query(q)),
    ensures
        scored_view(r@) == ranking::<T>(all_seen(items@), opt_query(q)),
{
    let usable = usable_query(q);
    let ghost all = with_scores::<T>(all_seen(items@), opt_query(q));
    let mut out: Vec<Scored<T>> = Vec::new();
    let mut n: usize = 0;
    assert(scored_view(out@) =~= ranked::<T>(all, 0));
    while n < items.len()
        invariant
            n <= items@.len(),
            scores_fit(opt_query(q)),
            all == with_scores::<T>(all_seen(items@), opt_query(q)),
            match usable {
                Some(p) => query_usable(opt_query(q)) && opt_query(q) == Some(p.0@) && p.1@
                    == lower_text(trimmed(p.0@.text)),
                None => !query_usable(opt_query(q)),
            },
            scored_view(out@) == ranked::<T>(all, n as int),
        decreases items@.len() - n,
    {
        let item = items[n].copy();
        let score: usize = match &usable {
            Some(p) => {
                let parts = item.part_texts();
                proof {
                    T::lemma_parts(item.seen());
                    assert(texts(parts@).len() == parts@.len());
                    assert(p.0@.tokens.len() == p.0.tokens@.len());
                    lemma_parts_fit(parts@.len(), p.0.tokens@.len());
                }
                composite_memory_relevance_score(&parts, &p.0.tokens, p.1.as_str())
            },
            None => 0,
        };
        assert(all[n as int] == (score as nat, item.seen()));
        rank_in(&mut out, Scored { score, item });
        n = n + 1;
    }
    out
}

/// The scored records with a score, at most `limit` of the first `n`.
pub open spec fn hits<T: Searched>(v: Seq<(nat, T::V)>, limit: nat, n: int) -> Seq<T::V>
    decreases n,
{
    if n <= 0 {
        Seq::empty()
    } else {
        let so_far = hits::<T>(v, limit, n - 1);
        if v[n - 1].0 > 0 && so_far.len() < limit {
            so_far.push(v[n - 1].1)
        } else {
            so_far
        }
    }
}

fn take_hits<T: Searched>(v: &Vec<Scored<T>>, limit: usize) -> (r: Vec<T>)
    ensures
        all_seen(r@) == hits::<T>(scored_view(v@), limit as nat, v@.len() as int),
{
    let mut out: Vec<T> = Vec::new();
    let mut n: usize = 0;
    assert(all_seen(out@) =~= Seq::<T::V>::empty());
    while n < v.len()
        invariant
            n <= v@.len(),
            all_seen(out@) == hits::<T>(scored_view(v@), limit as nat, n as int),
        decreases v@.len() - n,
    {
        assert(scored_view(v@)[n as int] == (v@[n as int].score as nat, v@[n as int].item.seen()));
        if v[n].score > 0 && out.len() < limit {
            let ghost before = all_seen(out@);
            let item = v[n].item.copy();
            let ghost view = item.seen();
            out.push(item);
            assert(all_seen(out@) =~= before.push(view));
        }
        n = n + 1;
    }
    out
}

/// The subject is that of one of the records.
pub open spec fn subject_among<T: Remembered>(v: Seq<T::V>, id: Seq<char>) -> bool {
    about_from::<T>(v, id, 0) is Some
}

/// The scored records without a score that are about none of the subjects of
/// `picked`, at most `limit` of the first `n`.
pub open spec fn fallbacks<T: Searched>(
    v: Seq<(nat, T::V)>,
    picked: Seq<T::V>,
    limit: nat,
    n: int,
) -> Seq<T::V>
    decreases n,
{
    if n <= 0 {
        Seq::empty()
    } else {
        let so_far = fallbacks::<T>(v, picked, limit, n - 1);
        if v[n - 1].0 == 0 && !subject_among::<T>(picked, T::id_of(v[n - 1].1)) && so_far.len()
            < limit {
            so_far.push(v[n - 1].1)
        } else {
            so_far
        }
    }
}

fn take_fallbacks<T: Searched>(v: &Vec<Scored<T>>, picked: &Vec<T>, limit: usize) -> (r: Vec<T>)
    ensures
        all_seen(r@) == fallbacks::<T>(
            scored_view(v@),
            all_seen(picked@),
            limit as nat,
            v@.len() as int,
        ),
{
    let mut out: Vec<T> = Vec::new();
    let mut n: usize = 0;
    assert(all_seen(out@) =~= Seq::<T::V>::empty());
    while n < v.len()
        invariant
            n <= v@.len(),
            all_seen(out@) == fallbacks::<T>(
                scored_view(v@),
                all_seen(picked@),
                limit as nat,
                n as int,
            ),
        decreases v@.len() - n,
    {
        assert(scored_view(v@)[n as int] == (v@[n as int].score as nat, v@[n as int].item.seen()));
        let known = find_about(picked, v[n].item.id().as_str()).is_some();
        if v[n].score == 0 && !known && out.len() < limit {
            let ghost before = all_seen(out@);
            let item = v[n].item.copy();
            let ghost view = item.seen();
            out.push(item);
            assert(all_seen(out@) =~= before.push(view));
        }
        n = n + 1;
    }
    out
}

/// The first records of a ranking.
pub open spec fn top<T: Searched>(v: Seq<(nat, T::V)>, limit: nat) -> Seq<T::V> {
    v.take(
        if limit <= v.len() {
            limit as int
        } else {
            v.len() as int
        },
    ).map_values(|p: (nat, T::V)| p.1)
}

fn take_top<T: Searched>(v: &Vec<Scored<T>>, limit: usize) -> (r: Vec<T>)
    ensures
        all_seen(r@) == top::<T>(scored_view(v@), limit as nat),
{
    let mut out: Vec<T> = Vec::new();
    let mut n: usize = 0;
    while n < v.len() && n < limit
        invariant
            n <= v@.len(),
            n <= limit,
            out@.len() == n,
            forall|j: int| 0 <= j < n ==> (#[trigger] out@[j]).seen() == v@[j].item.seen(),
        decreases v@.len() - n,
    {
        out.push(v[n].item.copy());
        n = n + 1;
    }
    assert(all_seen(out@) =~= top::<T>(scored_view(v@), limit as nat));
    out
}

/// The records picked for a prompt: those relevant to the query and a few
/// others, or the latest where nothing is relevant or there is no query.
pub open spec fn picked<T: Searched>(
    v: Seq<T::V>,
    q: Option<QueryView>,
    limit_without_query: nat,
    limit_relevant: nat,
    fallback_limit: nat,
) -> Seq<T::V> {
    let r = ranking::<T>(v, q);
    let n = r.len() as int;
    if v.len() > 0 && query_usable(q) && r[0].0 > 0 {
        let found = hits::<T>(r, limit_relevant, n);
        if found.len() < limit_relevant && fallback_limit > 0 {
            found + fallbacks::<T>(r, found, fallback_limit, n)
        } else {
            found
        }
    } else {
        top::<T>(ranking::<T>(v, None), limit_without_query)
    }
}

pub proof fn lemma_ranking_len<T: Searched>(v: Seq<(nat, T::V)>, n: int)
    requires
        0 <= n,
    ensures
        ranked::<T>(v, n).len() == n,
    decreases n,
{
    if n > 0 {
        lemma_ranking_len::<T>(v, n - 1);
        lemma_ranked_in_len::<T>(ranked::<T>(v, n - 1), v[n - 1]);
    }
}

proof fn lemma_ranked_in_len<T: Searched>(v: Seq<(nat, T::V)>, x: (nat, T::V))
    ensures
        ranked_in::<T>(v, x).len() == v.len() + 1,
    decreases v.len(),
{
    if v.len() > 0 && !ranks_before::<T>(x, v[0]) {
        lemma_ranked_in_len::<T>(v.skip(1), x);
    }
}

/// Picks records for a prompt.
pub fn select_ranked_items<T: Searched>(
    items: &Vec<T>,
    current_query: Option<&MemoryQuery>,
    limit_without_query: usize,
    limit_relevant: usize,
    fallback_limit: usize,
) -> (r: Vec<T>)
    requires
        scores_fit(opt_query(current_query)),
    ensures
        all_seen(r@) == picked::<T>(
            all_seen(items@),
            opt_query(current_query),
            limit_without_query as nat,
            limit_relevant as nat,
            fallback_limit as nat,
        ),
{
    let scored = rank_all(items, current_query);
    let usable: bool = usable_query(current_query).is_some();
    proof {
        lemma_ranking_len::<T>(
            with_scores::<T>(all_seen(items@), opt_query(current_query)),
            items@.len() as int,
        );
    }
    if items.len() > 0 && usable {
        assert(scored_view(scored@)[0] == (scored@[0].score as nat, scored@[0].item.seen()));
        if scored[0].score > 0 {
            let mut selected = take_hits(&scored, limit_relevant);
            if selected.len() < limit_relevant && fallback_limit > 0 {
                let ghost found = all_seen(selected@);
                let mut rest = take_fallbacks(&scored, &selected, fallback_limit);
                let ghost others = all_seen(rest@);
                selected.append(&mut rest);
                assert(all_seen(selected@) =~= found + others);
            }
            return selected;
        }
    }
    let latest = rank_all(items, None);
    take_top(&latest, limit_without_query)
}

/// The records picked for a task: those relevant to the query, or the latest
/// where there is no query.
pub open spec fn task_picked<T: Searched>(v: Seq<T::V>, q: Option<QueryView>, limit: nat) -> Seq<
    T::V,
> {
    let r = ranking::<T>(v, q);
    if query_usable(q) {
        hits::<T>(r, limit, r.len() as int)
    } else {
        top::<T>(r, limit)
    }
}

/// Picks records for a task.
pub fn select_task_items<T: Searched>(
    items: &Vec<T>,
    current_query: Option<&MemoryQuery>,
    limit: usize,
) -> (r: Vec<T>)
    requires
        scores_fit(opt_query(current_query)),
    ensures
        all_seen(r@) == task_picked::<T>(
            all_seen(items@),
            opt_query(current_query),
            limit as nat,
        ),
{
    let scored = rank_all(items, current_query);
    if usable_query(current_query).is_some() {
        take_hits(&scored, limit)
    } else {
        take_top(&scored, limit)
    }
}

// ---------------------------------------------------------------------------
// Laws
// ---------------------------------------------------------------------------

/// No record ranks before one that stands ahead of it.
pub open spec fn in_rank_order<T: Searched>(v: Seq<(nat, T::V)>) -> bool {
    forall|i: int, j: int|
        0 <= i < j < v.len() ==> !ranks_before::<T>(#[trigger] v[j], #[trigger] v[i])
}

proof fn lemma_rank_transitive<T: Searched>(a: (nat, T::V), b: (nat, T::V), c: (nat, T::V))
    ensures
        ranks_before::<T>(a, b) && !ranks_before::<T>(c, b) ==> !ranks_before::<T>(c, a),
        !ranks_before::<T>(b, a) && !ranks_before::<T>(c, b) ==> !ranks_before::<T>(c, a),
{
    let (x, y, z) = (T::id_of(a.1), T::id_of(b.1), T::id_of(c.1));
    lemma_before_total(x, y);
    lemma_before_total(y, z);
    lemma_before_total(x, z);
    lemma_before_irreflexive(x);
    if text_before(z, x) && text_before(x, y) {
        lemma_before_transitive(z, x, y);
    }
    if text_before(x, y) && text_before(y, z) {
        lemma_before_transitive(x, y, z);
    }
}

proof fn lemma_ranked_in_members<T: Searched>(v: Seq<(nat, T::V)>, x: (nat, T::V))
    ensures
        forall|i: int|
            0 <= i < ranked_in::<T>(v, x).len() ==> #[trigger] ranked_in::<T>(v, x)[i] == x
                || v.contains(ranked_in::<T>(v, x)[i]),
    decreases v.len(),
{
    let p = ranked_in::<T>(v, x);
    if v.len() == 0 {
    } else if ranks_before::<T>(x, v[0]) {
        assert forall|i: int| 0 <= i < p.len() implies #[trigger] p[i] == x || v.contains(p[i]) by {
            if i > 0 {
                assert(v[i - 1] == p[i]);
            }
        }
    } else {
        lemma_ranked_in_members::<T>(v.skip(1), x);
        let q = ranked_in::<T>(v.skip(1), x);
        assert forall|i: int| 0 <= i < p.len() implies #[trigger] p[i] == x || v.contains(p[i]) by {
            if i == 0 {
                assert(v[0] == p[0]);
            } else {
                assert(q[i - 1] == p[i]);
                if q[i - 1] != x {
                    let k = choose|k: int| 0 <= k < v.skip(1).len() && v.skip(1)[k] == q[i - 1];
                    assert(v[k + 1] == p[i]);
                }
            }
        }
    }
}

proof fn lemma_ranked_in_order<T: Searched>(v: Seq<(nat, T::V)>, x: (nat, T::V))
    requires
        in_rank_order::<T>(v),
    ensures
        in_rank_order::<T>(ranked_in::<T>(v, x)),
    decreases v.len(),
{
    let p = ranked_in::<T>(v, x);
    if v.len() == 0 {
    } else if ranks_before::<T>(x, v[0]) {
        assert forall|i: int, j: int| 0 <= i < j < p.len() implies !ranks_before::<T>(
            #[trigger] p[j],
            #[trigger] p[i],
        ) by {
            assert(p[j] == v[j - 1]);
            if i == 0 {
                if j > 1 {
                    assert(!ranks_before::<T>(v[j - 1], v[0]));
                } else {
                    lemma_rank_transitive::<T>(x, v[0], v[0]);
                    lemma_before_irreflexive(T::id_of(v[0].1));
                }
                lemma_rank_transitive::<T>(x, v[0], v[j - 1]);
            } else {
                assert(p[i] == v[i - 1]);
            }
        }
    } else {
        let rest = v.skip(1);
        assert forall|i: int, j: int| 0 <= i < j < rest.len() implies !ranks_before::<T>(
            #[trigger] rest[j],
            #[trigger] rest[i],
        ) by {
            assert(rest[i] == v[i + 1]);
            assert(rest[j] == v[j + 1]);
        }
        lemma_ranked_in_order::<T>(rest, x);
        lemma_ranked_in_members::<T>(rest, x);
        let q = ranked_in::<T>(rest, x);
        assert forall|i: int, j: int| 0 <= i < j < p.len() implies !ranks_before::<T>(
            #[trigger] p[j],
            #[trigger] p[i],
        ) by {
            assert(p[j] == q[j - 1]);
            if i == 0 {
                if q[j - 1] != x {
                    let k = choose|k: int| 0 <= k < rest.len() && rest[k] == q[j - 1];
                    assert(v[k + 1] == p[j]);
                }
            } else {
                assert(p[i] == q[i - 1]);
            }
        }
    }
}

/// A ranking is ordered by score, then by time, then by subject.
pub proof fn law_ranking_ordered<T: Searched>(v: Seq<(nat, T::V)>, n: int)
    ensures
        in_rank_order::<T>(ranked::<T>(v, n)),
    decreases n,
{
    if n > 0 {
        law_ranking_ordered::<T>(v, n - 1);
        lemma_ranked_in_order::<T>(ranked::<T>(v, n - 1), v[n - 1]);
    }
}

proof fn lemma_ranked_in_multiset<T: Searched>(v: Seq<(nat, T::V)>, x: (nat, T::V))
    ensures
        ranked_in::<T>(v, x).to_multiset() =~= v.to_multiset().insert(x),
    decreases v.len(),
{
    broadcast use vstd::seq_lib::group_to_multiset_ensures;

    if v.len() == 0 {
        assert(seq![x] =~= v.push(x));
    } else if ranks_before::<T>(x, v[0]) {
        assert(seq![x] + v =~= v.insert(0, x));
    } else {
        lemma_ranked_in_multiset::<T>(v.skip(1), x);
        let q = ranked_in::<T>(v.skip(1), x);
        assert(seq![v[0]] + q =~= q.insert(0, v[0]));
        assert(v =~= v.skip(1).insert(0, v[0]));
    }
}

/// A ranking holds exactly the records that went in, each as often as it did.
pub proof fn law_ranking_complete<T: Searched>(v: Seq<(nat, T::V)>, n: int)
    requires
        0 <= n <= v.len(),
    ensures
        ranked::<T>(v, n).to_multiset() =~= v.take(n).to_multiset(),
    decreases n,
{
    broadcast use vstd::seq_lib::group_to_multiset_ensures;

    if n > 0 {
        law_ranking_complete::<T>(v, n - 1);
        lemma_ranked_in_multiset::<T>(ranked::<T>(v, n - 1), v[n - 1]);
        assert(v.take(n) =~= v.take(n - 1).push(v[n - 1]));
    } else {
        assert(v.take(0) =~= Seq::empty());
    }
}

pub proof fn lemma_hits_bound<T: Searched>(v: Seq<(nat, T::V)>, limit: nat, n: int)
    ensures
        hits::<T>(v, limit, n).len() <= limit,
    decreases n,
{
    if n > 0 {
        lemma_hits_bound::<T>(v, limit, n - 1);
    }
}

proof fn lemma_fallbacks_bound<T: Searched>(
    v: Seq<(nat, T::V)>,
    picked: Seq<T::V>,
    limit: nat,
    n: int,
)
    ensures
        fallbacks::<T>(v, picked, limit, n).len() <= limit,
    decreases n,
{
    if n > 0 {
        lemma_fallbacks_bound::<T>(v, picked, limit, n - 1);
    }
}

/// Never more records are picked than the limits allow.
pub proof fn law_picked_bounded<T: Searched>(
    v: Seq<T::V>,
    q: Option<QueryView>,
    limit_without_query: nat,
    limit_relevant: nat,
    fallback_limit: nat,
)
    ensures
        ({
            let n = picked::<T>(
                v,
                q,
                limit_without_query,
                limit_relevant,
                fallback_limit,
            ).len();
            n <= limit_without_query || n <= limit_relevant + fallback_limit
        }),
        task_picked::<T>(v, q, limit_relevant).len() <= limit_relevant,
{
    let r = ranking::<T>(v, q);
    let n = r.len() as int;
    lemma_hits_bound::<T>(r, limit_relevant, n);
    lemma_fallbacks_bound::<T>(r, hits::<T>(r, limit_relevant, n), fallback_limit, n);
}

// ---------------------------------------------------------------------------
// The kinds of records
// ---------------------------------------------------------------------------

fn two(a: &str, b: &str) -> (r: Vec<String>)
    ensures
        texts(r@) == seq![a@, b@],
{
    let mut v: Vec<String> = Vec::new();
    v.push(owned(a));
    v.push(owned(b));
    assert(texts(v@) =~= seq![a@, b@]);
    v
}

fn three(a: &str, b: &str, c: &str) -> (r: Vec<String>)
    ensures
        texts(r@) == seq![a@, b@, c@],
{
    let mut v: Vec<String> = Vec::new();
    v.push(owned(a));
    v.push(owned(b));
    v.push(owned(c));
    assert(texts(v@) =~= seq![a@, b@, c@]);
    v
}

impl Searched for MemoryFact {
    open spec fn parts(v: FactView) -> Seq<Seq<char>> {
        seq![v.key, v.value]
    }

    proof fn lemma_parts(v: FactView) {
    }

    fn part_texts(&self) -> (r: Vec<String>) {
        two(self.key.as_str(), self.value.as_str())
    }
}

impl Searched for MemoryLesson {
    open spec fn parts(v: LessonView) -> Seq<Seq<char>> {
        seq![v.title, v.when_to_apply, v.recommendation, v.scope]
    }

    proof fn lemma_parts(v: LessonView) {
    }

    fn part_texts(&self) -> (r: Vec<String>) {
        let mut v: Vec<String> = Vec::new();
        v.push(self.title.clone());
        v.push(self.when_to_apply.clone());
        v.push(self.recommendation.clone());
        v.push(self.scope.clone());
        assert(texts(v@) =~= Self::parts(self@));
        v
    }
}

impl Searched for OpenLoop {
    open spec fn parts(v: LoopView) -> Seq<Seq<char>> {
        seq![v.goal, v.blocker, v.next_step]
    }

    proof fn lemma_parts(v: LoopView) {
    }

    fn part_texts(&self) -> (r: Vec<String>) {
        three(self.goal.as_str(), self.blocker.as_str(), self.next_step.as_str())
    }
}

impl Searched for CommandPattern {
    open spec fn parts(v: PatternView) -> Seq<Seq<char>> {
        seq![v.signature, v.purpose, v.outcome]
    }

    proof fn lemma_parts(v: PatternView) {
    }

    fn part_texts(&self) -> (r: Vec<String>) {
        three(self.signature.as_str(), self.purpose.as_str(), self.outcome.as_str())
    }
}

impl Searched for ProjectSignal {
    open spec fn parts(v: SignalView) -> Seq<Seq<char>> {
        seq![v.key, v.value]
    }

    proof fn lemma_parts(v: SignalView) {
    }

    fn part_texts(&self) -> (r: Vec<String>) {
        two(self.key.as_str(), self.value.as_str())
    }
}

/// How relevant the fact is.
pub fn fact_relevance_score(fact: &MemoryFact, query_tokens: &Vec<String>, query_lower: &str) -> (r:
    usize)
    requires
        8 + 16 * query_tokens@.len() <= usize::MAX,
    ensures
        r == relevance(
            <MemoryFact as Searched>::parts(fact@),
            texts(query_tokens@),
            query_lower@,
        ),
{
    let parts = fact.part_texts();
    assert(texts(parts@).len() == parts@.len());
    proof {
        lemma_parts_fit(parts@.len(), query_tokens@.len());
    }
    composite_memory_relevance_score(&parts, query_tokens, query_lower)
}

/// How relevant the lesson is.
pub fn lesson_relevance_score(
    lesson: &MemoryLesson,
    query_tokens: &Vec<String>,
    query_lower: &str,
) -> (r: usize)
    requires
        8 + 16 * query_tokens@.len() <= usize::MAX,
    ensures
        r == relevance(
            <MemoryLesson as Searched>::parts(lesson@),
            texts(query_tokens@),
            query_lower@,
        ),
{
    let parts = lesson.part_texts();
    assert(texts(parts@).len() == parts@.len());
    proof {
        lemma_parts_fit(parts@.len(), query_tokens@.len());
    }
    composite_memory_relevance_score(&parts, query_tokens, query_lower)
}

/// How relevant the open loop is.
pub fn open_loop_relevance_score(
    item: &OpenLoop,
    query_tokens: &Vec<String>,
    query_lower: &str,
) -> (r: usize)
    requires
        8 + 16 * query_tokens@.len() <= usize::MAX,
    ensures
        r == relevance(
            <OpenLoop as Searched>::parts(item@),
            texts(query_tokens@),
            query_lower@,
        ),
{
    let parts = item.part_texts();
    assert(texts(parts@).len() == parts@.len());
    proof {
        lemma_parts_fit(parts@.len(), query_tokens@.len());
    }
    composite_memory_relevance_score(&parts, query_tokens, query_lower)
}

/// How relevant the command pattern is.
pub fn command_pattern_relevance_score(
    item: &CommandPattern,
    query_tokens: &Vec<String>,
    query_lower: &str,
) -> (r: usize)
    requires
        8 + 16 * query_tokens@.len() <= usize::MAX,
    ensures
        r == relevance(
            <CommandPattern as Searched>::parts(item@),
            texts(query_tokens@),
            query_lower@,
        ),
{
    let parts = item.part_texts();
    assert(texts(parts@).len() == parts@.len());
    proof {
        lemma_parts_fit(parts@.len(), query_tokens@.len());
    }
    composite_memory_relevance_score(&parts, query_tokens, query_lower)
}

/// How relevant the project signal is.
pub fn project_signal_relevance_score(
    signal: &ProjectSignal,
    query_tokens: &Vec<String>,
    query_lower: &str,
) -> (r: usize)
    requires
        8 + 16 * query_tokens@.len() <= usize::MAX,
    ensures
        r == relevance(
            <ProjectSignal as Searched>::parts(signal@),
            texts(query_tokens@),
            query_lower@,
        ),
{
    let parts = signal.part_texts();
    assert(texts(parts@).len() == parts@.len());
    proof {
        lemma_parts_fit(parts@.len(), query_tokens@.len());
    }
    composite_memory_relevance_score(&parts, query_tokens, query_lower)
}

/// The facts picked for a prompt.
pub open spec fn picked_facts(m: MemoryView, q: Option<QueryView>) -> Seq<FactView> {
    picked::<MemoryFact>(m.facts, q, 8, 8, 3)
}

/// Picks facts for a prompt.
pub fn select_facts_for_injection(mem: &StructuredMemory, current_query: Option<&MemoryQuery>) -> (r:
    Vec<MemoryFact>)
    requires
        scores_fit(opt_query(current_query)),
    ensures
        facts_view(r@) == picked_facts(mem@, opt_query(current_query)),
{
    assert(all_seen(mem.facts@) =~= mem@.facts);
    let r = select_ranked_items(&mem.facts, current_query, 8, 8, 3);
    assert(all_seen(r@) =~= facts_view(r@));
    r
}

/// The lessons picked for a prompt.
pub open spec fn picked_lessons(m: MemoryView, q: Option<QueryView>) -> Seq<LessonView> {
    picked::<MemoryLesson>(m.lessons, q, 3, 3, 1)
}

/// Picks lessons for a prompt.
pub fn select_lessons_for_injection(
    mem: &StructuredMemory,
    current_query: Option<&MemoryQuery>,
) -> (r: Vec<MemoryLesson>)
    requires
        scores_fit(opt_query(current_query)),
    ensures
        lessons_view(r@) == picked_lessons(mem@, opt_query(current_query)),
{
    assert(all_seen(mem.lessons@) =~= mem@.lessons);
    let r = select_ranked_items(&mem.lessons, current_query, 3, 3, 1);
    assert(all_seen(r@) =~= lessons_view(r@));
    r
}

/// Those of the first `n` open loops that are not resolved.
pub open spec fn unresolved(v: Seq<LoopView>, n: int) -> Seq<LoopView>
    decreases n,
{
    if n <= 0 {
        Seq::empty()
    } else if v[n - 1].status is Resolved {
        unresolved(v, n - 1)
    } else {
        unresolved(v, n - 1).push(v[n - 1])
    }
}

/// The open loops that are not resolved.
pub fn unresolved_loops(v: &Vec<OpenLoop>) -> (r: Vec<OpenLoop>)
    ensures
        loops_view(r@) == unresolved(loops_view(v@), v@.len() as int),
{
    let mut out: Vec<OpenLoop> = Vec::new();
    let mut n: usize = 0;
    assert(loops_view(out@) =~= Seq::<LoopView>::empty());
    while n < v.len()
        invariant
            n <= v@.len(),
            loops_view(out@) == unresolved(loops_view(v@), n as int),
        decreases v@.len() - n,
    {
        assert(loops_view(v@)[n as int] == v@[n as int]@);
        if !v[n].status.is_resolved() {
            let ghost before = loops_view(out@);
            let item = v[n].copy();
            let ghost view = item@;
            out.push(item);
            assert(loops_view(out@) =~= before.push(view));
        }
        n = n + 1;
    }
    out
}

/// The open loops picked for a prompt.
pub open spec fn picked_loops(m: MemoryView, q: Option<QueryView>) -> Seq<LoopView> {
    picked::<OpenLoop>(unresolved(m.open_loops, m.open_loops.len() as int), q, 3, 2, 1)
}

/// Picks open loops for a prompt.
pub fn select_open_loops_for_injection(
    mem: &StructuredMemory,
    current_query: Option<&MemoryQuery>,
) -> (r: Vec<OpenLoop>)
    requires
        scores_fit(opt_query(current_query)),
    ensures
        loops_view(r@) == picked_loops(mem@, opt_query(current_query)),
{
    let open = unresolved_loops(&mem.open_loops);
    assert(all_seen(open@) =~= loops_view(open@));
    let r = select_ranked_items(&open, current_query, 3, 2, 1);
    assert(all_seen(r@) =~= loops_view(r@));
    r
}

/// The command patterns picked for a prompt.
pub open spec fn picked_patterns(m: MemoryView, q: Option<QueryView>) -> Seq<PatternView> {
    picked::<CommandPattern>(m.command_patterns, q, 3, 2, 1)
}

/// Picks command patterns for a prompt.
pub fn select_command_patterns_for_injection(
    mem: &StructuredMemory,
    current_query: Option<&MemoryQuery>,
) -> (r: Vec<CommandPattern>)
    requires
        scores_fit(opt_query(current_query)),
    ensures
        patterns_view(r@) == picked_patterns(mem@, opt_query(current_query)),
{
    assert(all_seen(mem.command_patterns@) =~= mem@.command_patterns);
    let r = select_ranked_items(&mem.command_patterns, current_query, 3, 2, 1);
    assert(all_seen(r@) =~= patterns_view(r@));
    r
}

/// The project signals picked for a prompt.
pub open spec fn picked_signals(m: MemoryView, q: Option<QueryView>) -> Seq<SignalView> {
    picked::<ProjectSignal>(m.project_signals, q, 4, 4, 1)
}

/// Picks project signals for a prompt.
pub fn select_project_signals_for_injection(
    mem: &StructuredMemory,
    current_query: Option<&MemoryQuery>,
) -> (r: Vec<ProjectSignal>)
    requires
        scores_fit(opt_query(current_query)),
    ensures
        signals_view(r@) == picked_signals(mem@, opt_query(current_query)),
{
    assert(all_seen(mem.project_signals@) =~= mem@.project_signals);
    let r = select_ranked_items(&mem.project_signals, current_query, 4, 4, 1);
    assert(all_seen(r@) =~= signals_view(r@));
    r
}

} // verus!
