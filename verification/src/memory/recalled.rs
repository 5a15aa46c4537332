//! What the memory gives for a task or for a prompt, in terms of what its
//! records say.

use crate::memory::clean::{cleaned_text, is_spaced};
use crate::memory::learned::{is_neat, lemma_neat};
use crate::memory::model::{
    CommandPattern, FactView, LessonView, LoopView, MemoryFact, MemoryLesson, MemoryView,
    OpenLoop, PatternView, ProjectSignal, SignalView,
};
use crate::memory::select::{
    QueryView, Searched, fallbacks, hits, law_ranking_complete, law_ranking_ordered,
    lemma_ranking_len, lowercase_all, picked, picked_facts, picked_lessons, picked_loops,
    picked_patterns, picked_signals, ranking, ranks_before, score_for, task_picked, token_score,
    tokens_score, top, unresolved, with_scores,
};
use crate::memory::task::{
    FindingView, StateView, TaskIntent, caps_for, finding_text, intent_of, push_some, retrieved,
    task_search, with_state,
};
use crate::text::{holds_text, is_space, joined, lower_text, stands_at, trimmed};
use crate::within::occurs;
use vstd::prelude::*;
use vstd::string::*;

verus! {

// ---------------------------------------------------------------------------
// What matches a query
// ---------------------------------------------------------------------------

/// The query says something.
pub open spec fn is_asking(q: Option<QueryView>) -> bool {
    q is Some && trimmed(q->0.text).len() > 0
}

/// A word of the query stands in the text, whatever the case of the text.
pub open spec fn has_word_of(text: Seq<char>, q: QueryView) -> bool {
    exists|k: int|
        0 <= k < q.tokens.len() && (#[trigger] q.tokens[k]).len() > 0 && occurs(
            lower_text(text),
            q.tokens[k],
        )
}

/// The texts, one behind the other in lower case, hold the whole query.
pub open spec fn has_whole(all: Seq<char>, q: QueryView) -> bool {
    lower_text(trimmed(q.text)).len() > 0 && occurs(all, lower_text(trimmed(q.text)))
}

/// The fact matches the query: the query or a word of it stands in its key or in
/// its value.
pub open spec fn fact_matches(x: FactView, q: QueryView) -> bool {
    &&& q.tokens.len() > 0
    &&& {
        ||| has_whole(lower_text(x.key) + " "@ + lower_text(x.value), q)
        ||| has_word_of(x.key, q)
        ||| has_word_of(x.value, q)
    }
}

/// The signal matches the query, as a fact does.
pub open spec fn signal_matches(x: SignalView, q: QueryView) -> bool {
    &&& q.tokens.len() > 0
    &&& {
        ||| has_whole(lower_text(x.key) + " "@ + lower_text(x.value), q)
        ||| has_word_of(x.key, q)
        ||| has_word_of(x.value, q)
    }
}

/// The lesson matches the query: the query or a word of it stands in its texts.
pub open spec fn lesson_matches(x: LessonView, q: QueryView) -> bool {
    &&& q.tokens.len() > 0
    &&& {
        ||| has_whole(
            lower_text(x.title) + " "@ + lower_text(x.when_to_apply) + " "@ + lower_text(
                x.recommendation,
            ) + " "@ + lower_text(x.scope),
            q,
        )
        ||| has_word_of(x.title, q)
        ||| has_word_of(x.when_to_apply, q)
        ||| has_word_of(x.recommendation, q)
        ||| has_word_of(x.scope, q)
    }
}

/// The open loop matches the query: the query or a word of it stands in its
/// texts.
pub open spec fn loop_matches(x: LoopView, q: QueryView) -> bool {
    &&& q.tokens.len() > 0
    &&& {
        ||| has_whole(
            lower_text(x.goal) + " "@ + lower_text(x.blocker) + " "@ + lower_text(x.next_step),
            q,
        )
        ||| has_word_of(x.goal, q)
        ||| has_word_of(x.blocker, q)
        ||| has_word_of(x.next_step, q)
    }
}

/// The command pattern matches the query: the query or a word of it stands in
/// its texts.
pub open spec fn pattern_matches(x: PatternView, q: QueryView) -> bool {
    &&& q.tokens.len() > 0
    &&& {
        ||| has_whole(
            lower_text(x.signature) + " "@ + lower_text(x.purpose) + " "@ + lower_text(x.outcome),
            q,
        )
        ||| has_word_of(x.signature, q)
        ||| has_word_of(x.purpose, q)
        ||| has_word_of(x.outcome, q)
    }
}

proof fn lemma_occurs(hay: Seq<char>, needle: Seq<char>)
    ensures
        holds_text(hay, needle) <==> occurs(hay, needle),
{
    if holds_text(hay, needle) {
        let i = choose|i: int| stands_at(hay, needle, i);
        assert(hay.subrange(i, i + needle.len()) == needle);
    }
    if occurs(hay, needle) {
        let (a, b) = choose|a: int, b: int|
            0 <= a <= b <= hay.len() && #[trigger] hay.subrange(a, b) == needle;
        assert(needle.len() == b - a);
        assert(stands_at(hay, needle, a));
    }
}

proof fn lemma_token_scores(parts: Seq<Seq<char>>, token: Seq<char>, n: int)
    requires
        0 <= n <= parts.len(),
    ensures
        token_score(parts, token, n) > 0 <==> exists|p: int|
            0 <= p < n && occurs(#[trigger] parts[p], token),
    decreases n,
{
    if n > 0 {
        lemma_token_scores(parts, token, n - 1);
        lemma_occurs(parts[n - 1], token);
        if parts[n - 1] == token {
            assert(token.subrange(0, token.len() as int) =~= token);
            assert(occurs(parts[n - 1], token));
        }
    }
}

/// A word of the query stands in one of the parts.
spec fn word_in_parts(parts: Seq<Seq<char>>, tokens: Seq<Seq<char>>, m: int) -> bool {
    exists|k: int, p: int|
        0 <= k < m && 0 <= p < parts.len() && (#[trigger] tokens[k]).len() > 0 && occurs(
            #[trigger] parts[p],
            tokens[k],
        )
}

proof fn lemma_words_score(parts: Seq<Seq<char>>, tokens: Seq<Seq<char>>, m: int)
    requires
        0 <= m <= tokens.len(),
    ensures
        tokens_score(parts, tokens, m) > 0 <==> word_in_parts(parts, tokens, m),
    decreases m,
{
    if m > 0 {
        lemma_words_score(parts, tokens, m - 1);
        lemma_token_scores(parts, tokens[m - 1], parts.len() as int);
        if word_in_parts(parts, tokens, m - 1) {
            let (k, p) = choose|k: int, p: int|
                0 <= k < m - 1 && 0 <= p < parts.len() && (#[trigger] tokens[k]).len() > 0
                    && occurs(#[trigger] parts[p], tokens[k]);
            assert(tokens[k].len() > 0 && occurs(parts[p], tokens[k]));
        }
        if tokens[m - 1].len() > 0 && token_score(parts, tokens[m - 1], parts.len() as int) > 0 {
            let p = choose|p: int| 0 <= p < parts.len() && occurs(#[trigger] parts[p], tokens[m - 1]);
            assert(tokens[m - 1].len() > 0 && occurs(parts[p], tokens[m - 1]));
        }
    }
}

proof fn lemma_scores<T: Searched>(x: T::V, q: QueryView)
    requires
        is_asking(Some(q)),
    ensures
        score_for::<T>(x, Some(q)) > 0 <==> q.tokens.len() > 0 && (has_whole(
            joined(lowercase_all(T::parts(x)), " "@),
            q,
        ) || exists|p: int| 0 <= p < T::parts(x).len() && has_word_of(#[trigger] T::parts(x)[p], q)),
{
    let raw = T::parts(x);
    let parts = lowercase_all(raw);
    let n = q.tokens.len() as int;
    lemma_words_score(parts, q.tokens, n);
    lemma_occurs(joined(parts, " "@), lower_text(trimmed(q.text)));
    if word_in_parts(parts, q.tokens, n) {
        let (k, p) = choose|k: int, p: int|
            0 <= k < n && 0 <= p < parts.len() && (#[trigger] q.tokens[k]).len() > 0 && occurs(
                #[trigger] parts[p],
                q.tokens[k],
            );
        assert(parts[p] == lower_text(raw[p]));
        assert(has_word_of(raw[p], q));
    }
    if exists|p: int| 0 <= p < raw.len() && has_word_of(#[trigger] raw[p], q) {
        let p = choose|p: int| 0 <= p < raw.len() && has_word_of(#[trigger] raw[p], q);
        let k = choose|k: int|
            0 <= k < q.tokens.len() && (#[trigger] q.tokens[k]).len() > 0 && occurs(
                lower_text(raw[p]),
                q.tokens[k],
            );
        assert(parts[p] == lower_text(raw[p]));
        assert(q.tokens[k].len() > 0 && occurs(parts[p], q.tokens[k]));
    }
}

proof fn lemma_joined2(a: Seq<char>, b: Seq<char>)
    ensures
        joined(seq![a, b], " "@) == a + " "@ + b,
{
    reveal_with_fuel(joined, 3);
    assert(seq![a, b].drop_last() =~= seq![a]);
}

proof fn lemma_joined3(a: Seq<char>, b: Seq<char>, c: Seq<char>)
    ensures
        joined(seq![a, b, c], " "@) == a + " "@ + b + " "@ + c,
{
    lemma_joined2(a, b);
    assert(seq![a, b, c].drop_last() =~= seq![a, b]);
}

proof fn lemma_joined4(a: Seq<char>, b: Seq<char>, c: Seq<char>, d: Seq<char>)
    ensures
        joined(seq![a, b, c, d], " "@) == a + " "@ + b + " "@ + c + " "@ + d,
{
    lemma_joined3(a, b, c);
    assert(seq![a, b, c, d].drop_last() =~= seq![a, b, c]);
}

/// A fact scores exactly where it matches, and so do the records of every other
/// kind.
pub proof fn law_matches_score(
    q: QueryView,
    fact: FactView,
    lesson: LessonView,
    open_loop: LoopView,
    pattern: PatternView,
    signal: SignalView,
)
    requires
        is_asking(Some(q)),
    ensures
        score_for::<MemoryFact>(fact, Some(q)) > 0 <==> fact_matches(fact, q),
        score_for::<MemoryLesson>(lesson, Some(q)) > 0 <==> lesson_matches(lesson, q),
        score_for::<OpenLoop>(open_loop, Some(q)) > 0 <==> loop_matches(open_loop, q),
        score_for::<CommandPattern>(pattern, Some(q)) > 0 <==> pattern_matches(pattern, q),
        score_for::<ProjectSignal>(signal, Some(q)) > 0 <==> signal_matches(signal, q),
{
    lemma_fact_scores(fact, q);
    lemma_lesson_scores(lesson, q);
    lemma_loop_scores(open_loop, q);
    lemma_pattern_scores(pattern, q);
    lemma_signal_scores(signal, q);
}

proof fn lemma_fact_scores(x: FactView, q: QueryView)
    requires
        is_asking(Some(q)),
    ensures
        score_for::<MemoryFact>(x, Some(q)) > 0 <==> fact_matches(x, q),
{
    lemma_scores::<MemoryFact>(x, q);
    let p = MemoryFact::parts(x);
    assert(p[0] == x.key && p[1] == x.value && p.len() == 2);
    assert(lowercase_all(p) =~= seq![lower_text(x.key), lower_text(x.value)]);
    lemma_joined2(lower_text(x.key), lower_text(x.value));
}

proof fn lemma_signal_scores(x: SignalView, q: QueryView)
    requires
        is_asking(Some(q)),
    ensures
        score_for::<ProjectSignal>(x, Some(q)) > 0 <==> signal_matches(x, q),
{
    lemma_scores::<ProjectSignal>(x, q);
    let p = ProjectSignal::parts(x);
    assert(p[0] == x.key && p[1] == x.value && p.len() == 2);
    assert(lowercase_all(p) =~= seq![lower_text(x.key), lower_text(x.value)]);
    lemma_joined2(lower_text(x.key), lower_text(x.value));
}

proof fn lemma_lesson_scores(x: LessonView, q: QueryView)
    requires
        is_asking(Some(q)),
    ensures
        score_for::<MemoryLesson>(x, Some(q)) > 0 <==> lesson_matches(x, q),
{
    lemma_scores::<MemoryLesson>(x, q);
    let p = MemoryLesson::parts(x);
    assert(p[0] == x.title && p[1] == x.when_to_apply && p[2] == x.recommendation && p[3]
        == x.scope && p.len() == 4);
    let (a, b, c, d) = (
        lower_text(x.title),
        lower_text(x.when_to_apply),
        lower_text(x.recommendation),
        lower_text(x.scope),
    );
    assert(lowercase_all(p) =~= seq![a, b, c, d]);
    lemma_joined4(a, b, c, d);
}

proof fn lemma_loop_scores(x: LoopView, q: QueryView)
    requires
        is_asking(Some(q)),
    ensures
        score_for::<OpenLoop>(x, Some(q)) > 0 <==> loop_matches(x, q),
{
    lemma_scores::<OpenLoop>(x, q);
    let p = OpenLoop::parts(x);
    assert(p[0] == x.goal && p[1] == x.blocker && p[2] == x.next_step && p.len() == 3);
    let (a, b, c) = (lower_text(x.goal), lower_text(x.blocker), lower_text(x.next_step));
    assert(lowercase_all(p) =~= seq![a, b, c]);
    lemma_joined3(a, b, c);
}

proof fn lemma_pattern_scores(x: PatternView, q: QueryView)
    requires
        is_asking(Some(q)),
    ensures
        score_for::<CommandPattern>(x, Some(q)) > 0 <==> pattern_matches(x, q),
{
    lemma_scores::<CommandPattern>(x, q);
    let p = CommandPattern::parts(x);
    assert(p[0] == x.signature && p[1] == x.purpose && p[2] == x.outcome && p.len() == 3);
    let (a, b, c) = (lower_text(x.signature), lower_text(x.purpose), lower_text(x.outcome));
    assert(lowercase_all(p) =~= seq![a, b, c]);
    lemma_joined3(a, b, c);
}

// ---------------------------------------------------------------------------
// What is picked
// ---------------------------------------------------------------------------

proof fn lemma_in_ranking<T: Searched>(v: Seq<T::V>, q: Option<QueryView>)
    ensures
        ranking::<T>(v, q).len() == v.len(),
        forall|k: int|
            0 <= k < v.len() ==> ranking::<T>(v, q).contains(
                (score_for::<T>(#[trigger] v[k], q), v[k]),
            ),
        forall|i: int|
            0 <= i < v.len() ==> v.contains((#[trigger] ranking::<T>(v, q)[i]).1) && ranking::<T>(
                v,
                q,
            )[i].0 == score_for::<T>(ranking::<T>(v, q)[i].1, q),
{
    broadcast use vstd::seq_lib::group_to_multiset_ensures;

    let s = with_scores::<T>(v, q);
    let n = v.len() as int;
    let r = ranking::<T>(v, q);
    lemma_ranking_len::<T>(s, n);
    law_ranking_complete::<T>(s, n);
    assert(s.take(n) =~= s);
    assert forall|k: int| 0 <= k < v.len() implies r.contains(
        (score_for::<T>(#[trigger] v[k], q), v[k]),
    ) by {
        assert(s[k] == (score_for::<T>(v[k], q), v[k]));
        assert(s.contains(s[k]));
        assert(s.to_multiset().count(s[k]) > 0);
        assert(r.to_multiset().count(s[k]) > 0);
    }
    assert forall|i: int| 0 <= i < v.len() implies v.contains((#[trigger] r[i]).1) && r[i].0
        == score_for::<T>(r[i].1, q) by {
        assert(r.contains(r[i]));
        assert(s.to_multiset().count(r[i]) > 0);
        let k = choose|k: int| 0 <= k < s.len() && s[k] == r[i];
        assert(v[k] == r[i].1);
    }
}

/// One of the first `n` that score.
spec fn scores_early<T: Searched>(r: Seq<(nat, T::V)>, n: int, x: T::V) -> bool {
    exists|k: int| 0 <= k < n && r[k].0 > 0 && (#[trigger] r[k]).1 == x
}

proof fn lemma_hits<T: Searched>(r: Seq<(nat, T::V)>, limit: nat, n: int)
    requires
        0 <= n <= r.len(),
    ensures
        hits::<T>(r, limit, n).len() <= limit,
        forall|i: int|
            0 <= i < hits::<T>(r, limit, n).len() ==> scores_early::<T>(
                r,
                n,
                #[trigger] hits::<T>(r, limit, n)[i],
            ),
        forall|k: int|
            0 <= k < n && (#[trigger] r[k]).0 > 0 ==> hits::<T>(r, limit, n).contains(r[k].1) || (
            hits::<T>(r, limit, k) == hits::<T>(r, limit, n) && hits::<T>(r, limit, n).len()
                == limit),
    decreases n,
{
    if n > 0 {
        lemma_hits::<T>(r, limit, n - 1);
        let a = hits::<T>(r, limit, n - 1);
        let b = hits::<T>(r, limit, n);
        assert forall|i: int| 0 <= i < b.len() implies scores_early::<T>(
            r,
            n,
            #[trigger] b[i],
        ) by {
            if i < a.len() {
                assert(b[i] == a[i]);
                assert(scores_early::<T>(r, n - 1, a[i]));
                let k = choose|k: int| 0 <= k < n - 1 && r[k].0 > 0 && (#[trigger] r[k]).1 == a[i];
                assert(b[i] == r[k].1);
            } else {
                assert(b[i] == r[n - 1].1);
            }
        }
        assert forall|k: int| 0 <= k < n && (#[trigger] r[k]).0 > 0 implies b.contains(r[k].1) || (
        hits::<T>(r, limit, k) == b && b.len() == limit) by {
            if k < n - 1 {
                if a.contains(r[k].1) {
                    let i = choose|i: int| 0 <= i < a.len() && a[i] == r[k].1;
                    assert(b[i] == r[k].1);
                } else {
                    assert(b == a);
                }
            } else if a.len() < limit {
                assert(b[a.len() as int] == r[k].1);
            }
        }
    }
}

/// For a query, only records that score are picked; all of them where they fit
/// the limit; and where they do not, none that is left out ranks before one that
/// is picked.
pub proof fn law_best_are_picked<T: Searched>(v: Seq<T::V>, q: QueryView, limit: nat)
    requires
        is_asking(Some(q)),
    ensures
        ({
            let r = task_picked::<T>(v, Some(q), limit);
            &&& r.len() <= limit
            &&& forall|i: int|
                0 <= i < r.len() ==> v.contains(#[trigger] r[i]) && score_for::<T>(r[i], Some(q))
                    > 0
            &&& r.len() < limit ==> forall|k: int|
                0 <= k < v.len() && score_for::<T>(#[trigger] v[k], Some(q)) > 0 ==> r.contains(
                    v[k],
                )
            &&& forall|k: int, i: int|
                0 <= k < v.len() && 0 <= i < r.len() && score_for::<T>(#[trigger] v[k], Some(q))
                    > 0 && !r.contains(v[k]) ==> !ranks_before::<T>(
                    (score_for::<T>(v[k], Some(q)), v[k]),
                    (score_for::<T>(#[trigger] r[i], Some(q)), r[i]),
                )
        }),
{
    let all = ranking::<T>(v, Some(q));
    let n = all.len() as int;
    let r = task_picked::<T>(v, Some(q), limit);
    lemma_in_ranking::<T>(v, Some(q));
    lemma_hits::<T>(all, limit, n);
    law_ranking_ordered::<T>(with_scores::<T>(v, Some(q)), v.len() as int);
    assert(r == hits::<T>(all, limit, n));
    assert forall|i: int| 0 <= i < r.len() implies v.contains(#[trigger] r[i]) && score_for::<T>(
        r[i],
        Some(q),
    ) > 0 by {
        let k = choose|k: int| 0 <= k < n && all[k].0 > 0 && r[i] == (#[trigger] all[k]).1;
        assert(v.contains(all[k].1));
    }
    assert forall|k: int|
        0 <= k < v.len() && r.len() < limit && score_for::<T>(
            #[trigger] v[k],
            Some(q),
        ) > 0 implies r.contains(v[k]) by {
        let x = (score_for::<T>(v[k], Some(q)), v[k]);
        assert(all.contains(x));
        let j = choose|j: int| 0 <= j < all.len() && all[j] == x;
        assert(all[j].0 > 0);
    }
    assert forall|k: int, i: int|
        0 <= k < v.len() && 0 <= i < r.len() && score_for::<T>(#[trigger] v[k], Some(q)) > 0
            && !r.contains(v[k]) implies !ranks_before::<T>(
        (score_for::<T>(v[k], Some(q)), v[k]),
        (score_for::<T>(#[trigger] r[i], Some(q)), r[i]),
    ) by {
        let x = (score_for::<T>(v[k], Some(q)), v[k]);
        assert(all.contains(x));
        let j = choose|j: int| 0 <= j < all.len() && all[j] == x;
        assert(all[j].0 > 0);
        assert(hits::<T>(all, limit, j) == r);
        lemma_hits::<T>(all, limit, j);
        let h = choose|h: int| 0 <= h < j && all[h].0 > 0 && r[i] == (#[trigger] all[h]).1;
        assert(all[h].0 == score_for::<T>(all[h].1, Some(q)));
        assert(!ranks_before::<T>(all[j], all[h]));
    }
}

/// The records are as many of the latest as fit.
pub open spec fn are_latest<T: Searched>(r: Seq<T::V>, v: Seq<T::V>, limit: nat) -> bool {
    &&& r.len() == (if v.len() <= limit {
        v.len()
    } else {
        limit
    })
    &&& forall|i: int| 0 <= i < r.len() ==> v.contains(#[trigger] r[i])
    &&& r.len() < limit ==> forall|k: int| 0 <= k < v.len() ==> r.contains(#[trigger] v[k])
    &&& forall|k: int, i: int|
        0 <= k < v.len() && 0 <= i < r.len() && !r.contains(#[trigger] v[k]) ==> T::time_of(v[k])
            <= T::time_of(#[trigger] r[i])
}

proof fn lemma_latest<T: Searched>(v: Seq<T::V>, q: Option<QueryView>, limit: nat)
    requires
        !is_asking(q),
    ensures
        are_latest::<T>(top::<T>(ranking::<T>(v, q), limit), v, limit),
{
    let all = ranking::<T>(v, q);
    let n = v.len() as int;
    let r = top::<T>(all, limit);
    lemma_in_ranking::<T>(v, q);
    law_ranking_ordered::<T>(with_scores::<T>(v, q), n);
    assert forall|i: int| 0 <= i < r.len() implies v.contains(#[trigger] r[i]) && r[i]
        == all[i].1 by {
        assert(v.contains(all[i].1));
    }
    assert forall|k: int, i: int|
        0 <= k < v.len() && 0 <= i < r.len() && !r.contains(#[trigger] v[k]) implies T::time_of(
        v[k],
    ) <= T::time_of(#[trigger] r[i]) by {
        let x = (score_for::<T>(v[k], q), v[k]);
        assert(all.contains(x));
        let j = choose|j: int| 0 <= j < all.len() && all[j] == x;
        if j < r.len() {
            assert(r[j] == v[k]);
        }
        assert(!ranks_before::<T>(all[j], all[i]));
        assert(all[i].0 == score_for::<T>(all[i].1, q));
    }
    if r.len() < limit {
        assert forall|k: int| 0 <= k < v.len() implies r.contains(#[trigger] v[k]) by {
            let x = (score_for::<T>(v[k], q), v[k]);
            assert(all.contains(x));
            let j = choose|j: int| 0 <= j < all.len() && all[j] == x;
            assert(r[j] == v[k]);
        }
    }
}

/// The picked records are, for a query, those that match it, as many as fit.
pub open spec fn are_matches<V>(
    r: Seq<V>,
    v: Seq<V>,
    matches: spec_fn(V) -> bool,
    limit: nat,
) -> bool {
    &&& r.len() <= limit
    &&& forall|i: int| 0 <= i < r.len() ==> v.contains(#[trigger] r[i]) && matches(r[i])
    &&& r.len() < limit ==> forall|k: int|
        0 <= k < v.len() && matches(#[trigger] v[k]) ==> r.contains(v[k])
    &&& limit > 0 && (exists|k: int| 0 <= k < v.len() && matches(#[trigger] v[k])) ==> r.len() > 0
}

proof fn lemma_are_matches<T: Searched>(
    v: Seq<T::V>,
    q: QueryView,
    matches: spec_fn(T::V) -> bool,
    limit: nat,
)
    requires
        is_asking(Some(q)),
        forall|x: T::V| #[trigger] matches(x) == (score_for::<T>(x, Some(q)) > 0),
    ensures
        are_matches::<T::V>(task_picked::<T>(v, Some(q), limit), v, matches, limit),
{
    law_best_are_picked::<T>(v, q, limit);
    let r = task_picked::<T>(v, Some(q), limit);
    assert forall|i: int| 0 <= i < r.len() implies v.contains(#[trigger] r[i]) && matches(r[i]) by {
        assert(matches(r[i]) == (score_for::<T>(r[i], Some(q)) > 0));
    }
    if limit > 0 && (exists|k: int| 0 <= k < v.len() && matches(#[trigger] v[k])) {
        let k = choose|k: int| 0 <= k < v.len() && matches(#[trigger] v[k]);
        assert(score_for::<T>(v[k], Some(q)) > 0);
        if r.len() == 0 {
            assert(r.contains(v[k]));
        }
    }
    assert forall|k: int| 0 <= k < v.len() && matches(#[trigger] v[k]) && r.len() < limit implies r.contains(
        v[k],
    ) by {
        assert(score_for::<T>(v[k], Some(q)) > 0);
    }
}

/// Every kind of task gets at least one and at most two records of each kind.
pub proof fn law_every_kind_has_room(intent: TaskIntent)
    ensures
        1 <= caps_for(intent).facts <= 2,
        1 <= caps_for(intent).lessons <= 2,
        1 <= caps_for(intent).open_loops <= 2,
        1 <= caps_for(intent).command_patterns <= 2,
        1 <= caps_for(intent).project_signals <= 2,
{
}

/// The open loops that are not resolved, in order.
pub open spec fn still_open(v: Seq<LoopView>) -> Seq<LoopView> {
    v.filter(|x: LoopView| x.status !is Resolved)
}

proof fn lemma_still_open(v: Seq<LoopView>, n: int)
    requires
        0 <= n <= v.len(),
    ensures
        unresolved(v, n) == still_open(v.take(n)),
    decreases n,
{
    reveal(Seq::filter);
    if n > 0 {
        lemma_still_open(v, n - 1);
        assert(v.take(n).drop_last() =~= v.take(n - 1));
        assert(v.take(n).last() == v[n - 1]);
    } else {
        assert(v.take(n) =~= Seq::empty());
    }
}

/// For a query, a task gets of every kind the records that match the query: none
/// that does not, all of them where they fit, and at least one where there is
/// any. Open loops that are resolved are passed over.
pub proof fn law_task_gets_what_matches(m: MemoryView, q: QueryView, intent: TaskIntent)
    requires
        is_asking(Some(q)),
    ensures
        ({
            let r = retrieved(m, Some(q), intent);
            let caps = caps_for(intent);
            &&& are_matches(
                r.facts,
                m.facts,
                |x: FactView| fact_matches(x, q),
                caps.facts as nat,
            )
            &&& are_matches(
                r.lessons,
                m.lessons,
                |x: LessonView| lesson_matches(x, q),
                caps.lessons as nat,
            )
            &&& are_matches(
                r.open_loops,
                still_open(m.open_loops),
                |x: LoopView| loop_matches(x, q),
                caps.open_loops as nat,
            )
            &&& are_matches(
                r.command_patterns,
                m.command_patterns,
                |x: PatternView| pattern_matches(x, q),
                caps.command_patterns as nat,
            )
            &&& are_matches(
                r.project_signals,
                m.project_signals,
                |x: SignalView| signal_matches(x, q),
                caps.project_signals as nat,
            )
        }),
{
    reveal(Seq::filter);
    let caps = caps_for(intent);
    let n = m.open_loops.len() as int;
    lemma_still_open(m.open_loops, n);
    assert(m.open_loops.take(n) =~= m.open_loops);
    let f = |x: FactView| fact_matches(x, q);
    let l = |x: LessonView| lesson_matches(x, q);
    let o = |x: LoopView| loop_matches(x, q);
    let p = |x: PatternView| pattern_matches(x, q);
    let s = |x: SignalView| signal_matches(x, q);
    assert forall|x: FactView| #[trigger] f(x) == (score_for::<MemoryFact>(x, Some(q)) > 0) by {
        lemma_fact_scores(x, q);
    }
    assert forall|x: LessonView| #[trigger] l(x) == (score_for::<MemoryLesson>(x, Some(q)) > 0) by {
        lemma_lesson_scores(x, q);
    }
    assert forall|x: LoopView| #[trigger] o(x) == (score_for::<OpenLoop>(x, Some(q)) > 0) by {
        lemma_loop_scores(x, q);
    }
    assert forall|x: PatternView| #[trigger]
        p(x) == (score_for::<CommandPattern>(x, Some(q)) > 0) by {
        lemma_pattern_scores(x, q);
    }
    assert forall|x: SignalView| #[trigger]
        s(x) == (score_for::<ProjectSignal>(x, Some(q)) > 0) by {
        lemma_signal_scores(x, q);
    }
    lemma_are_matches::<MemoryFact>(m.facts, q, f, caps.facts as nat);
    lemma_are_matches::<MemoryLesson>(m.lessons, q, l, caps.lessons as nat);
    lemma_are_matches::<OpenLoop>(still_open(m.open_loops), q, o, caps.open_loops as nat);
    lemma_are_matches::<CommandPattern>(m.command_patterns, q, p, caps.command_patterns as nat);
    lemma_are_matches::<ProjectSignal>(m.project_signals, q, s, caps.project_signals as nat);
}

/// Without a query a task gets of every kind the latest records, as many as fit.
pub proof fn law_task_gets_the_latest(m: MemoryView, q: Option<QueryView>, intent: TaskIntent)
    requires
        !is_asking(q),
    ensures
        ({
            let r = retrieved(m, q, intent);
            let caps = caps_for(intent);
            &&& are_latest::<MemoryFact>(r.facts, m.facts, caps.facts as nat)
            &&& are_latest::<MemoryLesson>(r.lessons, m.lessons, caps.lessons as nat)
            &&& are_latest::<OpenLoop>(
                r.open_loops,
                still_open(m.open_loops),
                caps.open_loops as nat,
            )
            &&& are_latest::<CommandPattern>(
                r.command_patterns,
                m.command_patterns,
                caps.command_patterns as nat,
            )
            &&& are_latest::<ProjectSignal>(
                r.project_signals,
                m.project_signals,
                caps.project_signals as nat,
            )
        }),
{
    reveal(Seq::filter);
    let caps = caps_for(intent);
    let n = m.open_loops.len() as int;
    lemma_still_open(m.open_loops, n);
    assert(m.open_loops.take(n) =~= m.open_loops);
    lemma_latest::<MemoryFact>(m.facts, q, caps.facts as nat);
    lemma_latest::<MemoryLesson>(m.lessons, q, caps.lessons as nat);
    lemma_latest::<OpenLoop>(still_open(m.open_loops), q, caps.open_loops as nat);
    lemma_latest::<CommandPattern>(m.command_patterns, q, caps.command_patterns as nat);
    lemma_latest::<ProjectSignal>(m.project_signals, q, caps.project_signals as nat);
}

// ---------------------------------------------------------------------------
// Prompts
// ---------------------------------------------------------------------------

proof fn lemma_fallbacks<T: Searched>(
    r: Seq<(nat, T::V)>,
    found: Seq<T::V>,
    limit: nat,
    n: int,
)
    requires
        0 <= n <= r.len(),
    ensures
        forall|i: int|
            0 <= i < fallbacks::<T>(r, found, limit, n).len() ==> exists|k: int|
                0 <= k < n && r[k].0 == 0 && #[trigger] fallbacks::<T>(r, found, limit, n)[i] == (
                #[trigger] r[k]).1,
        fallbacks::<T>(r, found, limit, n).len() <= limit,
    decreases n,
{
    if n > 0 {
        lemma_fallbacks::<T>(r, found, limit, n - 1);
        let a = fallbacks::<T>(r, found, limit, n - 1);
        let b = fallbacks::<T>(r, found, limit, n);
        assert forall|i: int| 0 <= i < b.len() implies exists|k: int|
            0 <= k < n && r[k].0 == 0 && #[trigger] b[i] == (#[trigger] r[k]).1 by {
            if i < a.len() {
                assert(b[i] == a[i]);
                let k = choose|k: int| 0 <= k < n - 1 && r[k].0 == 0 && a[i] == (#[trigger] r[k]).1;
                assert(b[i] == r[k].1);
            } else {
                assert(b[i] == r[n - 1].1);
            }
        }
    }
}

/// For a prompt the records that score come first, as many as fit the limit for
/// them; then at most a few others. Where none scores, or nothing is asked, the
/// latest are picked.
pub proof fn law_prompt_gets_what_scores<T: Searched>(
    v: Seq<T::V>,
    q: Option<QueryView>,
    limit_without_query: nat,
    limit_relevant: nat,
    fallback_limit: nat,
)
    ensures
        ({
            let r = picked::<T>(v, q, limit_without_query, limit_relevant, fallback_limit);
            let some_score = exists|k: int|
                0 <= k < v.len() && score_for::<T>(#[trigger] v[k], q) > 0;
            if is_asking(q) && some_score {
                let found = task_picked::<T>(v, q, limit_relevant);
                &&& found.len() <= r.len() <= found.len() + fallback_limit
                &&& r.take(found.len() as int) == found
                &&& forall|i: int|
                    found.len() <= i < r.len() ==> v.contains(#[trigger] r[i])
                        && score_for::<T>(r[i], q) == 0
                &&& r.len() > found.len() ==> found.len() < limit_relevant
            } else {
                are_latest::<T>(r, v, limit_without_query)
            }
        }),
{
    let all = ranking::<T>(v, q);
    let n = all.len() as int;
    lemma_in_ranking::<T>(v, q);
    law_ranking_ordered::<T>(with_scores::<T>(v, q), v.len() as int);
    let some_score = exists|k: int| 0 <= k < v.len() && score_for::<T>(#[trigger] v[k], q) > 0;
    let r = picked::<T>(v, q, limit_without_query, limit_relevant, fallback_limit);
    if v.len() > 0 && is_asking(q) && all[0].0 > 0 {
        let x = all[0].1;
        assert(v.contains(x));
        let k = choose|k: int| 0 <= k < v.len() && v[k] == x;
        assert(score_for::<T>(v[k], q) > 0);
        let found = hits::<T>(all, limit_relevant, n);
        let others = fallbacks::<T>(all, found, fallback_limit, n);
        lemma_fallbacks::<T>(all, found, fallback_limit, n);
        assert(r.take(found.len() as int) =~= found);
        assert forall|i: int| found.len() <= i < r.len() implies v.contains(#[trigger] r[i])
            && score_for::<T>(r[i], q) == 0 by {
            let j = i - found.len();
            assert(r[i] == others[j]);
            let h = choose|h: int| 0 <= h < n && all[h].0 == 0 && others[j] == (#[trigger] all[h]).1;
            assert(v.contains(all[h].1));
        }
    } else {
        if is_asking(q) && some_score {
            let k = choose|k: int| 0 <= k < v.len() && score_for::<T>(#[trigger] v[k], q) > 0;
            let x = (score_for::<T>(v[k], q), v[k]);
            assert(all.contains(x));
            let j = choose|j: int| 0 <= j < all.len() && all[j] == x;
            if j > 0 {
                assert(!ranks_before::<T>(all[j], all[0]));
            }
        }
        lemma_latest::<T>(v, None, limit_without_query);
    }
}


// ---------------------------------------------------------------------------
// Scores
// ---------------------------------------------------------------------------

/// What the word is worth in a text: four where it is the text, two where it
/// stands in it.
pub open spec fn worth(text: Seq<char>, word: Seq<char>) -> nat {
    if lower_text(text) == word {
        4
    } else if occurs(lower_text(text), word) {
        2
    } else {
        0
    }
}

/// For one word, a fact scores what the word is worth in its key and in its
/// value, and eight more where the whole query stands in them. So a fact that
/// is about the word ranks before one that only mentions it.
pub proof fn law_one_word_score(x: FactView, q: QueryView, word: Seq<char>)
    requires
        is_asking(Some(q)),
        q.tokens == seq![word],
        word.len() > 0,
    ensures
        score_for::<MemoryFact>(x, Some(q)) == worth(x.key, word) + worth(x.value, word) + (
        if has_whole(lower_text(x.key) + " "@ + lower_text(x.value), q) {
            8nat
        } else {
            0nat
        }),
{
    reveal_with_fuel(token_score, 3);
    reveal_with_fuel(tokens_score, 2);
    let p = MemoryFact::parts(x);
    let parts = lowercase_all(p);
    let (a, b) = (lower_text(x.key), lower_text(x.value));
    assert(parts =~= seq![a, b]);
    lemma_joined2(a, b);
    lemma_occurs(a, word);
    lemma_occurs(b, word);
    lemma_occurs(a + " "@ + b, lower_text(trimmed(q.text)));
    assert(q.tokens[0] == word);
    assert(parts[0] == a && parts[1] == b);
}

/// A record ranks before another by its score, and of two with one score the
/// later ranks first.
pub proof fn law_rank<T: Searched>(a: (nat, T::V), b: (nat, T::V))
    ensures
        a.0 > b.0 ==> ranks_before::<T>(a, b),
        a.0 < b.0 ==> !ranks_before::<T>(a, b),
        a.0 == b.0 && T::time_of(a.1) > T::time_of(b.1) ==> ranks_before::<T>(a, b),
        a.0 == b.0 && T::time_of(a.1) < T::time_of(b.1) ==> !ranks_before::<T>(a, b),
{
}

// ---------------------------------------------------------------------------
// The query of a task
// ---------------------------------------------------------------------------

/// Nothing is known of the work but its goal.
pub open spec fn knows_only_goal(s: StateView) -> bool {
    s.open_questions.len() == 0 && s.uncertainties.len() == 0 && s.next_actions.len() == 0
        && s.completed_steps.len() == 0 && s.evidence.len() == 0
}

proof fn lemma_goal_only(v: Seq<Seq<char>>, s: StateView)
    requires
        knows_only_goal(s),
    ensures
        with_state(v, s) == (match s.primary_goal {
            None => v,
            Some(g) => if cleaned_text(g, 200).len() == 0 || v.contains(cleaned_text(g, 200)) {
                v
            } else {
                v.push(cleaned_text(g, 200))
            },
        }),
{
    assert(s.evidence.map_values(|f: FindingView| finding_text(f)).len() == 0);
}

proof fn lemma_two_neat(a: Seq<char>, b: Seq<char>)
    requires
        is_spaced(a),
        is_spaced(b),
        a.len() > 0,
        b.len() > 0,
    ensures
        is_spaced(a + " "@ + b),
{
    reveal_strlit(" ");
    let t = a + " "@ + b;
    assert(!is_space(a[a.len() - 1]));
    assert(!is_space(b[0]));
    assert forall|i: int| 0 <= i < t.len() && is_space(#[trigger] t[i]) implies t[i] == ' ' && 0 < i
        < t.len() - 1 && !is_space(t[i + 1]) by {
        if i < a.len() {
            assert(t[i] == a[i]);
            if i + 1 < a.len() {
                assert(t[i + 1] == a[i + 1]);
            }
        } else if i == a.len() {
            assert(t[i + 1] == b[0]);
        } else {
            let j = i - a.len() - 1;
            assert(t[i] == b[j]);
            if j + 1 < b.len() {
                assert(t[i + 1] == b[j + 1]);
            }
        }
    }
}

/// The memory is searched with what the user asks; with the goal of the work
/// where the user asks nothing; and with both where they differ.
pub proof fn law_task_query(t: Seq<char>, s: StateView, g: Seq<char>, words: Seq<Seq<char>>)
    requires
        is_neat(t, 600),
        is_neat(g, 200),
        knows_only_goal(s),
        s.primary_goal == Some(g),
        t.len() + 1 + g.len() <= 600,
    ensures
        task_search(Some(t), None, words) == Some(QueryView { text: t, tokens: words }),
        task_search(None, Some(s), words) == Some(QueryView { text: g, tokens: words }),
        t != g ==> task_search(Some(t), Some(s), words) == Some(
            QueryView { text: t + " "@ + g, tokens: words },
        ),
        t == g ==> task_search(Some(t), Some(s), words) == Some(
            QueryView { text: t, tokens: words },
        ),
        task_search(None, None, words) is None,
{
    reveal_strlit(" ");
    lemma_neat(t, 600);
    lemma_neat(g, 200);
    lemma_neat(g, 600);
    let none = Seq::<Seq<char>>::empty();
    let asked = seq![t];
    assert(push_some(none, t) =~= asked);
    assert(none.push(g) =~= seq![g]);
    lemma_goal_only(none, s);
    lemma_goal_only(asked, s);
    assert(joined(asked, " "@) == t);
    assert(joined(seq![g], " "@) == g);
    if t != g {
        assert(!asked.contains(g));
        assert(asked.push(g) =~= seq![t, g]);
        lemma_joined2(t, g);
        lemma_two_neat(t, g);
        lemma_neat(t + " "@ + g, 600);
    } else {
        assert(asked[0] == g);
        assert(asked.contains(g));
    }
    assert(is_spaced(Seq::<char>::empty()));
    lemma_neat(Seq::empty(), 600);
}

/// A task is of the kind that the work has noted, else of the kind that its text
/// was taken for.
pub proof fn law_task_kind(s: StateView, classified: TaskIntent)
    ensures
        intent_of(Some(s), classified) == s.intent,
        intent_of(None, classified) == classified,
{
}


// ---------------------------------------------------------------------------
// What a prompt gets
// ---------------------------------------------------------------------------

/// The picked records are those that match, as many as fit the limit, and behind
/// them at most a few that do not.
pub open spec fn are_matches_and_few<V>(
    r: Seq<V>,
    v: Seq<V>,
    matches: spec_fn(V) -> bool,
    limit: nat,
    few: nat,
) -> bool {
    exists|n: int|
        0 <= n <= r.len() <= n + few && are_matches(#[trigger] r.take(n), v, matches, limit) && (
        forall|i: int| n <= i < r.len() ==> v.contains(#[trigger] r[i]) && !matches(r[i]))
}

proof fn lemma_prompt<T: Searched>(
    v: Seq<T::V>,
    q: QueryView,
    matches: spec_fn(T::V) -> bool,
    latest: nat,
    limit: nat,
    few: nat,
)
    requires
        is_asking(Some(q)),
        forall|x: T::V| #[trigger] matches(x) == (score_for::<T>(x, Some(q)) > 0),
    ensures
        ({
            let r = picked::<T>(v, Some(q), latest, limit, few);
            if exists|k: int| 0 <= k < v.len() && matches(#[trigger] v[k]) {
                are_matches_and_few::<T::V>(r, v, matches, limit, few)
            } else {
                are_latest::<T>(r, v, latest)
            }
        }),
{
    law_prompt_gets_what_scores::<T>(v, Some(q), latest, limit, few);
    lemma_are_matches::<T>(v, q, matches, limit);
    let r = picked::<T>(v, Some(q), latest, limit, few);
    let some_score = exists|k: int| 0 <= k < v.len() && score_for::<T>(#[trigger] v[k], Some(q)) > 0;
    let some_match = exists|k: int| 0 <= k < v.len() && matches(#[trigger] v[k]);
    if some_score {
        let k = choose|k: int| 0 <= k < v.len() && score_for::<T>(#[trigger] v[k], Some(q)) > 0;
        assert(matches(v[k]));
    }
    if some_match {
        let k = choose|k: int| 0 <= k < v.len() && matches(#[trigger] v[k]);
        assert(score_for::<T>(v[k], Some(q)) > 0);
        let found = task_picked::<T>(v, Some(q), limit);
        let n = found.len() as int;
        assert(r.take(n) == found);
        assert forall|i: int| n <= i < r.len() implies v.contains(#[trigger] r[i]) && !matches(
            r[i],
        ) by {
            assert(score_for::<T>(r[i], Some(q)) == 0);
        }
        assert(are_matches(r.take(n), v, matches, limit));
    }
}

/// For a query a prompt gets of every kind the records that match, and a few
/// more where they leave room; where none of a kind matches, the latest of that
/// kind.
pub proof fn law_prompt_gets_what_matches(m: MemoryView, q: QueryView)
    requires
        is_asking(Some(q)),
    ensures
        ({
            let f = |x: FactView| fact_matches(x, q);
            let r = picked_facts(m, Some(q));
            if exists|k: int| 0 <= k < m.facts.len() && f(#[trigger] m.facts[k]) {
                are_matches_and_few(r, m.facts, f, 8, 3)
            } else {
                are_latest::<MemoryFact>(r, m.facts, 8)
            }
        }),
        ({
            let f = |x: LessonView| lesson_matches(x, q);
            let r = picked_lessons(m, Some(q));
            if exists|k: int| 0 <= k < m.lessons.len() && f(#[trigger] m.lessons[k]) {
                are_matches_and_few(r, m.lessons, f, 3, 1)
            } else {
                are_latest::<MemoryLesson>(r, m.lessons, 3)
            }
        }),
        ({
            let f = |x: LoopView| loop_matches(x, q);
            let r = picked_loops(m, Some(q));
            let open = still_open(m.open_loops);
            if exists|k: int| 0 <= k < open.len() && f(#[trigger] open[k]) {
                are_matches_and_few(r, open, f, 2, 1)
            } else {
                are_latest::<OpenLoop>(r, open, 3)
            }
        }),
        ({
            let f = |x: PatternView| pattern_matches(x, q);
            let r = picked_patterns(m, Some(q));
            if exists|k: int| 0 <= k < m.command_patterns.len() && f(#[trigger] m.command_patterns[k]) {
                are_matches_and_few(r, m.command_patterns, f, 2, 1)
            } else {
                are_latest::<CommandPattern>(r, m.command_patterns, 3)
            }
        }),
        ({
            let f = |x: SignalView| signal_matches(x, q);
            let r = picked_signals(m, Some(q));
            if exists|k: int| 0 <= k < m.project_signals.len() && f(#[trigger] m.project_signals[k]) {
                are_matches_and_few(r, m.project_signals, f, 4, 1)
            } else {
                are_latest::<ProjectSignal>(r, m.project_signals, 4)
            }
        }),
{
    let n = m.open_loops.len() as int;
    lemma_still_open(m.open_loops, n);
    assert(m.open_loops.take(n) =~= m.open_loops);
    let f = |x: FactView| fact_matches(x, q);
    let l = |x: LessonView| lesson_matches(x, q);
    let o = |x: LoopView| loop_matches(x, q);
    let p = |x: PatternView| pattern_matches(x, q);
    let s = |x: SignalView| signal_matches(x, q);
    assert forall|x: FactView| #[trigger] f(x) == (score_for::<MemoryFact>(x, Some(q)) > 0) by {
        lemma_fact_scores(x, q);
    }
    assert forall|x: LessonView| #[trigger] l(x) == (score_for::<MemoryLesson>(x, Some(q)) > 0) by {
        lemma_lesson_scores(x, q);
    }
    assert forall|x: LoopView| #[trigger] o(x) == (score_for::<OpenLoop>(x, Some(q)) > 0) by {
        lemma_loop_scores(x, q);
    }
    assert forall|x: PatternView| #[trigger]
        p(x) == (score_for::<CommandPattern>(x, Some(q)) > 0) by {
        lemma_pattern_scores(x, q);
    }
    assert forall|x: SignalView| #[trigger]
        s(x) == (score_for::<ProjectSignal>(x, Some(q)) > 0) by {
        lemma_signal_scores(x, q);
    }
    lemma_prompt::<MemoryFact>(m.facts, q, f, 8, 8, 3);
    lemma_prompt::<MemoryLesson>(m.lessons, q, l, 3, 3, 1);
    lemma_prompt::<OpenLoop>(still_open(m.open_loops), q, o, 3, 2, 1);
    lemma_prompt::<CommandPattern>(m.command_patterns, q, p, 3, 2, 1);
    lemma_prompt::<ProjectSignal>(m.project_signals, q, s, 4, 4, 1);
}

/// Without a query a prompt gets the latest records of every kind.
pub proof fn law_prompt_gets_the_latest(m: MemoryView, q: Option<QueryView>)
    requires
        !is_asking(q),
    ensures
        are_latest::<MemoryFact>(picked_facts(m, q), m.facts, 8),
        are_latest::<MemoryLesson>(picked_lessons(m, q), m.lessons, 3),
        are_latest::<OpenLoop>(picked_loops(m, q), still_open(m.open_loops), 3),
        are_latest::<CommandPattern>(picked_patterns(m, q), m.command_patterns, 3),
        are_latest::<ProjectSignal>(picked_signals(m, q), m.project_signals, 4),
{
    let n = m.open_loops.len() as int;
    lemma_still_open(m.open_loops, n);
    assert(m.open_loops.take(n) =~= m.open_loops);
    law_prompt_gets_what_scores::<MemoryFact>(m.facts, q, 8, 8, 3);
    law_prompt_gets_what_scores::<MemoryLesson>(m.lessons, q, 3, 3, 1);
    law_prompt_gets_what_scores::<OpenLoop>(still_open(m.open_loops), q, 3, 2, 1);
    law_prompt_gets_what_scores::<CommandPattern>(m.command_patterns, q, 3, 2, 1);
    law_prompt_gets_what_scores::<ProjectSignal>(m.project_signals, q, 4, 4, 1);
}

} // verus!
