//! What the memory holds after a report, in terms of what the report says.

use crate::json::{JsonView, member, opt_text_at};
use crate::memory::clean::{
    cleaned_text, fact_key, is_key, is_key_char, is_spaced, lemma_key_settles,
    lemma_spaced_stays, match_text,
};
use crate::memory::merge::{
    Reported, all_taken_in, is_named, list_after, merged_memory, named, replaced, unnamed,
};
use crate::memory::model::{
    CommandPattern, FactView, LessonView, LoopView, MemoryConfidence, MemoryFact, MemoryLesson,
    MemoryView, OpenLoop, OpenLoopStatus, PatternView, ProjectSignal, SignalView,
    confidence_named, loop_status_named,
};
use crate::memory::records::{
    Remembered, about_from, all_clean, deduped, lemma_about, lemma_deduped_stays, lesson_id,
    subjects_unique,
};
use crate::text::{ascii_lower, is_space, lemma_trimmed_already, trimmed};
use vstd::prelude::*;
use vstd::string::*;

verus! {

/// The object holds the text `t` under `key`.
pub open spec fn says(v: JsonView, key: Seq<char>, t: Seq<char>) -> bool {
    member(v, key) == Some(JsonView::Text(t))
}

/// A text that stays as it is: words with single spaces between them, and no
/// more than `max` characters.
pub open spec fn is_neat(t: Seq<char>, max: nat) -> bool {
    0 < t.len() <= max && is_spaced(t)
}

/// The object says under `key` the text `t`, which stays as it is.
pub open spec fn says_neatly(v: JsonView, key: Seq<char>, t: Seq<char>, max: nat) -> bool {
    says(v, key, t) && is_neat(t, max)
}

/// The object says how sure it is: `low`, `high`, or in between where it does
/// not.
pub open spec fn says_confidence(v: JsonView, c: MemoryConfidence) -> bool {
    match c {
        MemoryConfidence::Low => says(v, "confidence"@, "low"@),
        MemoryConfidence::High => says(v, "confidence"@, "high"@),
        MemoryConfidence::Medium => says(v, "confidence"@, "medium"@) || member(v, "confidence"@)
            is None,
    }
}

/// The value reports this fact.
pub open spec fn reports_fact(v: JsonView, x: FactView, now: u64) -> bool {
    &&& says(v, "key"@, x.key) && x.key.len() > 0 && is_key(x.key)
    &&& says_neatly(v, "value"@, x.value, 240)
    &&& x.recorded_at == now
}

/// The value reports this lesson.
pub open spec fn reports_lesson(v: JsonView, x: LessonView, now: u64) -> bool {
    &&& says_neatly(v, "title"@, x.title, 96)
    &&& says_neatly(v, "when_to_apply"@, x.when_to_apply, 160)
    &&& says_neatly(v, "recommendation"@, x.recommendation, 220)
    &&& says_neatly(v, "scope"@, x.scope, 72) || (member(v, "scope"@) is None && x.scope.len() == 0)
    &&& says_confidence(v, x.confidence)
    &&& x.last_seen_at == now
}

/// The value reports this open loop.
pub open spec fn reports_loop(v: JsonView, x: LoopView, now: u64) -> bool {
    &&& says_neatly(v, "goal"@, x.goal, 140)
    &&& says_neatly(v, "blocker"@, x.blocker, 220)
    &&& says_neatly(v, "next_step"@, x.next_step, 180)
    &&& match x.status {
        OpenLoopStatus::Open => says(v, "status"@, "open"@) || member(v, "status"@) is None,
        OpenLoopStatus::InProgress => says(v, "status"@, "in_progress"@),
        OpenLoopStatus::Resolved => says(v, "status"@, "resolved"@),
    }
    &&& x.updated_at == now
}

/// The value reports this command pattern.
pub open spec fn reports_pattern(v: JsonView, x: PatternView, now: u64) -> bool {
    &&& says_neatly(v, "signature"@, x.signature, 140)
    &&& says_neatly(v, "purpose"@, x.purpose, 180)
    &&& says_neatly(v, "outcome"@, x.outcome, 160)
    &&& says_confidence(v, x.confidence)
    &&& x.last_seen_at == now
}

/// The value reports this project signal.
pub open spec fn reports_signal(v: JsonView, x: SignalView, now: u64) -> bool {
    &&& says(v, "key"@, x.key) && x.key.len() > 0 && is_key(x.key)
    &&& says_neatly(v, "value"@, x.value, 180)
    &&& x.recorded_at == now
}

pub proof fn lemma_neat(t: Seq<char>, max: nat)
    requires
        is_spaced(t),
        t.len() <= max,
    ensures
        cleaned_text(t, max) == t,
        trimmed(t) == t,
{
    if t.len() > 0 {
        assert(!is_space(t[0]));
        assert(!is_space(t[t.len() - 1]));
    }
    lemma_trimmed_already(t);
    lemma_spaced_stays(t);
    assert(t.take(t.len() as int) =~= t);
}

proof fn lemma_key_is_neat(k: Seq<char>)
    requires
        is_key(k),
    ensures
        is_spaced(k),
        trimmed(k) == k,
        fact_key(k) == k,
{
    lemma_key_settles(k);
    assert forall|i: int| 0 <= i < k.len() && is_space(#[trigger] k[i]) implies k[i] == ' ' && 0
        < i < k.len() - 1 && !is_space(k[i + 1]) by {
        assert(is_key_char(k[i]) || k[i] == '_');
    }
    lemma_neat(k, k.len());
}

proof fn lemma_plain(t: Seq<char>)
    requires
        forall|i: int| 0 <= i < t.len() ==> 'a' <= #[trigger] t[i] <= 'z' || t[i] == '_',
    ensures
        ascii_lower(trimmed(t)) == t,
{
    if t.len() > 0 {
        assert('a' <= t[0] <= 'z' || t[0] == '_');
        assert('a' <= t[t.len() - 1] <= 'z' || t[t.len() - 1] == '_');
    }
    lemma_trimmed_already(t);
    assert(ascii_lower(t) =~= t) by {
        assert forall|i: int| 0 <= i < t.len() implies ascii_lower(t)[i] == #[trigger] t[i] by {}
    }
}

proof fn lemma_confidence(v: JsonView, c: MemoryConfidence)
    requires
        says_confidence(v, c),
    ensures
        confidence_named(opt_text_at(v, "confidence"@)) == c,
{
    reveal_strlit("low");
    reveal_strlit("high");
    reveal_strlit("medium");
    lemma_plain("low"@);
    lemma_plain("high"@);
    lemma_plain("medium"@);
    assert("low"@.len() == 3 && "high"@.len() == 4 && "medium"@.len() == 6);
    assert(Seq::<char>::empty().len() == 0);
}

proof fn lemma_status(v: JsonView, x: LoopView, now: u64)
    requires
        reports_loop(v, x, now),
    ensures
        loop_status_named(opt_text_at(v, "status"@)) == x.status,
{
    reveal_strlit("open");
    reveal_strlit("in_progress");
    reveal_strlit("in-progress");
    reveal_strlit("active");
    reveal_strlit("resolved");
    reveal_strlit("closed");
    reveal_strlit("done");
    lemma_plain("open"@);
    lemma_plain("in_progress"@);
    lemma_plain("resolved"@);
    assert("open"@.len() == 4 && "in_progress"@.len() == 11 && "in-progress"@.len() == 11);
    assert("active"@.len() == 6 && "resolved"@.len() == 8 && "closed"@.len() == 6);
    assert("done"@.len() == 4 && "open"@[0] != "done"@[0]);
    assert(Seq::<char>::empty().len() == 0);
}

proof fn lemma_fact(v: JsonView, x: FactView, now: u64)
    requires
        reports_fact(v, x, now),
    ensures
        MemoryFact::parsed(v, now) == Some(x),
        MemoryFact::cleaned(x) == Some(x),
{
    lemma_key_is_neat(x.key);
    lemma_neat(x.value, 240);
}

proof fn lemma_lesson(v: JsonView, x: LessonView, now: u64)
    requires
        reports_lesson(v, x, now),
    ensures
        MemoryLesson::parsed(v, now) == Some(x),
        MemoryLesson::cleaned(x) == Some(x),
{
    lemma_neat(x.title, 96);
    lemma_neat(x.when_to_apply, 160);
    lemma_neat(x.recommendation, 220);
    if x.scope.len() == 0 {
        assert(x.scope =~= Seq::empty());
    }
    lemma_neat(x.scope, 72);
    lemma_confidence(v, x.confidence);
}

proof fn lemma_loop(v: JsonView, x: LoopView, now: u64)
    requires
        reports_loop(v, x, now),
    ensures
        OpenLoop::parsed(v, now) == Some(x),
        OpenLoop::cleaned(x) == Some(x),
{
    lemma_neat(x.goal, 140);
    lemma_neat(x.blocker, 220);
    lemma_neat(x.next_step, 180);
    lemma_status(v, x, now);
}

proof fn lemma_pattern(v: JsonView, x: PatternView, now: u64)
    requires
        reports_pattern(v, x, now),
    ensures
        CommandPattern::parsed(v, now) == Some(x),
        CommandPattern::cleaned(x) == Some(x),
{
    lemma_neat(x.signature, 140);
    lemma_neat(x.purpose, 180);
    lemma_neat(x.outcome, 160);
    lemma_confidence(v, x.confidence);
}

proof fn lemma_signal(v: JsonView, x: SignalView, now: u64)
    requires
        reports_signal(v, x, now),
    ensures
        ProjectSignal::parsed(v, now) == Some(x),
        ProjectSignal::cleaned(x) == Some(x),
{
    lemma_key_is_neat(x.key);
    lemma_neat(x.value, 180);
}

// ---------------------------------------------------------------------------
// Lists
// ---------------------------------------------------------------------------

/// A record on a new subject is added at the end.
spec fn adds_new<T: Reported>() -> bool {
    forall|v: Seq<T::V>, x: T::V|
        about_from::<T>(v, T::id_of(x), 0) is None ==> #[trigger] T::taken_in(v, x) == v.push(x)
}

proof fn lemma_all_new<T: Reported>(
    old: Seq<T::V>,
    from: Seq<JsonView>,
    xs: Seq<T::V>,
    now: u64,
    n: int,
)
    requires
        adds_new::<T>(),
        from.len() == xs.len(),
        0 <= n <= xs.len(),
        forall|i: int| 0 <= i < xs.len() ==> T::parsed(#[trigger] from[i], now) == Some(xs[i]),
        subjects_unique::<T>(old + xs),
    ensures
        all_taken_in::<T>(old, from, now, n) == old + xs.take(n),
    decreases n,
{
    if n == 0 {
        assert(old + xs.take(0) =~= old);
    } else {
        lemma_all_new::<T>(old, from, xs, now, n - 1);
        let so_far = old + xs.take(n - 1);
        let x = xs[n - 1];
        assert(T::parsed(from[n - 1], now) == Some(x));
        lemma_about::<T>(so_far, T::id_of(x), 0);
        let all = old + xs;
        if let Some(k) = about_from::<T>(so_far, T::id_of(x), 0) {
            assert(so_far[k] == all[k]);
            assert(all[old.len() + n - 1] == x);
            assert(T::id_of(all[k]) != T::id_of(all[old.len() + n - 1]));
        }
        assert(T::taken_in(so_far, x) == so_far.push(x));
        assert(so_far.push(x) =~= old + xs.take(n));
    }
}

proof fn lemma_all_replaced<T: Reported>(
    from: Seq<JsonView>,
    xs: Seq<T::V>,
    now: u64,
    n: int,
)
    requires
        from.len() == xs.len(),
        0 <= n <= xs.len(),
        forall|i: int|
            0 <= i < xs.len() ==> T::parsed(#[trigger] from[i], now) == Some(xs[i]) && T::at_time(
                xs[i],
                now,
            ) == xs[i],
    ensures
        replaced::<T>(Seq::empty(), from, now, n) == xs.take(n),
    decreases n,
{
    if n > 0 {
        lemma_all_replaced::<T>(from, xs, now, n - 1);
        assert(T::parsed(from[n - 1], now) == Some(xs[n - 1]));
        assert(xs.take(n - 1).push(xs[n - 1]) =~= xs.take(n));
    } else {
        assert(xs.take(0) =~= Seq::empty());
    }
}

proof fn lemma_stays<T: Remembered>(v: Seq<T::V>)
    requires
        all_clean::<T>(v),
        subjects_unique::<T>(v),
    ensures
        deduped::<T>(v, v.len() as int) == v,
{
    lemma_deduped_stays::<T>(v, v.len() as int);
    assert(v.take(v.len() as int) =~= v);
}

proof fn lemma_list_grows<T: Reported>(
    old: Seq<T::V>,
    raw: JsonView,
    update_key: Seq<char>,
    delete_key: Seq<char>,
    full_key: Seq<char>,
    items: Seq<JsonView>,
    xs: Seq<T::V>,
    now: u64,
)
    requires
        adds_new::<T>(),
        member(raw, update_key) == Some(JsonView::Array(items)),
        member(raw, delete_key) is None,
        items.len() == xs.len(),
        forall|i: int| 0 <= i < xs.len() ==> T::parsed(#[trigger] items[i], now) == Some(xs[i]),
        forall|i: int| 0 <= i < xs.len() ==> T::cleaned(#[trigger] xs[i]) == Some(xs[i]),
        all_clean::<T>(old),
        subjects_unique::<T>(old + xs),
    ensures
        ({
            let d = deduped::<T>(old, old.len() as int);
            let after = list_after::<T>(d, raw, true, update_key, delete_key, full_key, now);
            deduped::<T>(after, after.len() as int) == old + xs
        }),
{
    let all = old + xs;
    assert forall|i: int, j: int| 0 <= i < j < old.len() implies T::id_of(#[trigger] old[i])
        != T::id_of(#[trigger] old[j]) by {
        assert(all[i] == old[i] && all[j] == old[j]);
    }
    lemma_stays::<T>(old);
    lemma_all_new::<T>(old, items, xs, now, xs.len() as int);
    assert(xs.take(xs.len() as int) =~= xs);
    assert forall|i: int| 0 <= i < all.len() implies T::cleaned(#[trigger] all[i]) == Some(
        all[i],
    ) by {
        if i < old.len() {
            assert(all[i] == old[i]);
        } else {
            assert(all[i] == xs[i - old.len()]);
        }
    }
    lemma_stays::<T>(all);
}

proof fn lemma_list_is_given<T: Reported>(
    raw: JsonView,
    update_key: Seq<char>,
    delete_key: Seq<char>,
    full_key: Seq<char>,
    items: Seq<JsonView>,
    xs: Seq<T::V>,
    now: u64,
)
    requires
        member(raw, full_key) == Some(JsonView::Array(items)),
        items.len() == xs.len(),
        forall|i: int|
            0 <= i < xs.len() ==> T::parsed(#[trigger] items[i], now) == Some(xs[i]) && T::at_time(
                xs[i],
                now,
            ) == xs[i],
        forall|i: int| 0 <= i < xs.len() ==> T::cleaned(#[trigger] xs[i]) == Some(xs[i]),
        subjects_unique::<T>(xs),
    ensures
        ({
            let after = list_after::<T>(
                Seq::empty(),
                raw,
                false,
                update_key,
                delete_key,
                full_key,
                now,
            );
            deduped::<T>(after, after.len() as int) == xs
        }),
{
    lemma_all_replaced::<T>(items, xs, now, xs.len() as int);
    assert(xs.take(xs.len() as int) =~= xs);
    lemma_stays::<T>(xs);
}

// ---------------------------------------------------------------------------
// New records
// ---------------------------------------------------------------------------

/// New facts of a report are added to those that the memory holds, each with the
/// key and the value that the report says.
pub proof fn law_new_facts(
    m: MemoryView,
    raw: JsonView,
    items: Seq<JsonView>,
    xs: Seq<FactView>,
    now: u64,
)
    requires
        member(raw, "update_facts"@) == Some(JsonView::Array(items)),
        member(raw, "delete_facts"@) is None,
        items.len() == xs.len(),
        forall|i: int| 0 <= i < xs.len() ==> reports_fact(items[i], #[trigger] xs[i], now),
        all_clean::<MemoryFact>(m.facts),
        subjects_unique::<MemoryFact>(m.facts + xs),
    ensures
        merged_memory(m, raw, now).facts == m.facts + xs,
{
    assert forall|i: int| 0 <= i < xs.len() implies MemoryFact::parsed(#[trigger] items[i], now)
        == Some(xs[i]) by {
        assert(reports_fact(items[i], xs[i], now));
        lemma_fact(items[i], xs[i], now);
    }
    assert forall|i: int| 0 <= i < xs.len() implies MemoryFact::cleaned(#[trigger] xs[i]) == Some(
        xs[i],
    ) by {
        lemma_fact(items[i], xs[i], now);
    }
    assert(adds_new::<MemoryFact>());
    lemma_list_grows::<MemoryFact>(
        m.facts,
        raw,
        "update_facts"@,
        "delete_facts"@,
        "facts"@,
        items,
        xs,
        now,
    );
}

/// New lessons of a report are added to those that the memory holds, each with
/// the texts that the report says under the keys of the same names.
pub proof fn law_new_lessons(
    m: MemoryView,
    raw: JsonView,
    items: Seq<JsonView>,
    xs: Seq<LessonView>,
    now: u64,
)
    requires
        member(raw, "update_lessons"@) == Some(JsonView::Array(items)),
        member(raw, "delete_lessons"@) is None,
        items.len() == xs.len(),
        forall|i: int| 0 <= i < xs.len() ==> reports_lesson(items[i], #[trigger] xs[i], now),
        all_clean::<MemoryLesson>(m.lessons),
        subjects_unique::<MemoryLesson>(m.lessons + xs),
    ensures
        merged_memory(m, raw, now).lessons == m.lessons + xs,
{
    assert forall|i: int| 0 <= i < xs.len() implies MemoryLesson::parsed(#[trigger] items[i], now)
        == Some(xs[i]) by {
        assert(reports_lesson(items[i], xs[i], now));
        lemma_lesson(items[i], xs[i], now);
    }
    assert forall|i: int| 0 <= i < xs.len() implies MemoryLesson::cleaned(#[trigger] xs[i])
        == Some(xs[i]) by {
        lemma_lesson(items[i], xs[i], now);
    }
    assert(adds_new::<MemoryLesson>());
    lemma_list_grows::<MemoryLesson>(
        m.lessons,
        raw,
        "update_lessons"@,
        "delete_lessons"@,
        "lessons"@,
        items,
        xs,
        now,
    );
}

/// New open loops of a report are added to those that the memory holds, each
/// with the texts that the report says under the keys of the same names.
pub proof fn law_new_loops(
    m: MemoryView,
    raw: JsonView,
    items: Seq<JsonView>,
    xs: Seq<LoopView>,
    now: u64,
)
    requires
        member(raw, "update_open_loops"@) == Some(JsonView::Array(items)),
        member(raw, "delete_open_loops"@) is None,
        items.len() == xs.len(),
        forall|i: int| 0 <= i < xs.len() ==> reports_loop(items[i], #[trigger] xs[i], now),
        all_clean::<OpenLoop>(m.open_loops),
        subjects_unique::<OpenLoop>(m.open_loops + xs),
    ensures
        merged_memory(m, raw, now).open_loops == m.open_loops + xs,
{
    assert forall|i: int| 0 <= i < xs.len() implies OpenLoop::parsed(#[trigger] items[i], now)
        == Some(xs[i]) by {
        assert(reports_loop(items[i], xs[i], now));
        lemma_loop(items[i], xs[i], now);
    }
    assert forall|i: int| 0 <= i < xs.len() implies OpenLoop::cleaned(#[trigger] xs[i]) == Some(
        xs[i],
    ) by {
        lemma_loop(items[i], xs[i], now);
    }
    assert(adds_new::<OpenLoop>());
    lemma_list_grows::<OpenLoop>(
        m.open_loops,
        raw,
        "update_open_loops"@,
        "delete_open_loops"@,
        "open_loops"@,
        items,
        xs,
        now,
    );
}

/// New command patterns of a report are added to those that the memory holds,
/// each with the texts that the report says under the keys of the same names.
pub proof fn law_new_patterns(
    m: MemoryView,
    raw: JsonView,
    items: Seq<JsonView>,
    xs: Seq<PatternView>,
    now: u64,
)
    requires
        member(raw, "update_command_patterns"@) == Some(JsonView::Array(items)),
        member(raw, "delete_command_patterns"@) is None,
        items.len() == xs.len(),
        forall|i: int| 0 <= i < xs.len() ==> reports_pattern(items[i], #[trigger] xs[i], now),
        all_clean::<CommandPattern>(m.command_patterns),
        subjects_unique::<CommandPattern>(m.command_patterns + xs),
    ensures
        merged_memory(m, raw, now).command_patterns == m.command_patterns + xs,
{
    assert forall|i: int| 0 <= i < xs.len() implies CommandPattern::parsed(
        #[trigger] items[i],
        now,
    ) == Some(xs[i]) by {
        assert(reports_pattern(items[i], xs[i], now));
        lemma_pattern(items[i], xs[i], now);
    }
    assert forall|i: int| 0 <= i < xs.len() implies CommandPattern::cleaned(#[trigger] xs[i])
        == Some(xs[i]) by {
        lemma_pattern(items[i], xs[i], now);
    }
    assert(adds_new::<CommandPattern>());
    lemma_list_grows::<CommandPattern>(
        m.command_patterns,
        raw,
        "update_command_patterns"@,
        "delete_command_patterns"@,
        "command_patterns"@,
        items,
        xs,
        now,
    );
}

/// New project signals of a report are added to those that the memory holds,
/// each with the key and the value that the report says.
pub proof fn law_new_signals(
    m: MemoryView,
    raw: JsonView,
    items: Seq<JsonView>,
    xs: Seq<SignalView>,
    now: u64,
)
    requires
        member(raw, "update_project_signals"@) == Some(JsonView::Array(items)),
        member(raw, "delete_project_signals"@) is None,
        items.len() == xs.len(),
        forall|i: int| 0 <= i < xs.len() ==> reports_signal(items[i], #[trigger] xs[i], now),
        all_clean::<ProjectSignal>(m.project_signals),
        subjects_unique::<ProjectSignal>(m.project_signals + xs),
    ensures
        merged_memory(m, raw, now).project_signals == m.project_signals + xs,
{
    assert forall|i: int| 0 <= i < xs.len() implies ProjectSignal::parsed(#[trigger] items[i], now)
        == Some(xs[i]) by {
        assert(reports_signal(items[i], xs[i], now));
        lemma_signal(items[i], xs[i], now);
    }
    assert forall|i: int| 0 <= i < xs.len() implies ProjectSignal::cleaned(#[trigger] xs[i])
        == Some(xs[i]) by {
        lemma_signal(items[i], xs[i], now);
    }
    assert(adds_new::<ProjectSignal>());
    lemma_list_grows::<ProjectSignal>(
        m.project_signals,
        raw,
        "update_project_signals"@,
        "delete_project_signals"@,
        "project_signals"@,
        items,
        xs,
        now,
    );
}

// ---------------------------------------------------------------------------
// The first report
// ---------------------------------------------------------------------------

/// The memory holds no records.
pub open spec fn holds_no_records(m: MemoryView) -> bool {
    m.facts.len() == 0 && m.lessons.len() == 0 && m.open_loops.len() == 0
        && m.command_patterns.len() == 0 && m.project_signals.len() == 0
}

/// The report gives this list, and no changes.
pub open spec fn gives_all(raw: JsonView, key: Seq<char>, items: Seq<JsonView>) -> bool {
    &&& member(raw, key) == Some(JsonView::Array(items))
    &&& member(raw, "update_facts"@) is None && member(raw, "delete_facts"@) is None
    &&& member(raw, "update_lessons"@) is None && member(raw, "delete_lessons"@) is None
    &&& member(raw, "update_open_loops"@) is None && member(raw, "delete_open_loops"@) is None
    &&& member(raw, "update_command_patterns"@) is None && member(
        raw,
        "delete_command_patterns"@,
    ) is None
    &&& member(raw, "update_project_signals"@) is None && member(
        raw,
        "delete_project_signals"@,
    ) is None
}

/// A report of one record of each kind makes, of a memory without records, one
/// with exactly those, whether the report gives changes or all: each text is
/// the one that the report says under the key of the same name.
pub proof fn law_first_report(
    m: MemoryView,
    raw: JsonView,
    v: JsonView,
    fact: FactView,
    lesson: LessonView,
    open_loop: LoopView,
    pattern: PatternView,
    signal: SignalView,
    now: u64,
)
    requires
        holds_no_records(m),
    ensures
        reports_fact(v, fact, now) && member(raw, "update_facts"@) == Some(
            JsonView::Array(seq![v]),
        ) && member(raw, "delete_facts"@) is None ==> merged_memory(m, raw, now).facts == seq![
            fact,
        ],
        reports_lesson(v, lesson, now) && member(raw, "update_lessons"@) == Some(
            JsonView::Array(seq![v]),
        ) && member(raw, "delete_lessons"@) is None ==> merged_memory(m, raw, now).lessons == seq![
            lesson,
        ],
        reports_loop(v, open_loop, now) && member(raw, "update_open_loops"@) == Some(
            JsonView::Array(seq![v]),
        ) && member(raw, "delete_open_loops"@) is None ==> merged_memory(m, raw, now).open_loops
            == seq![open_loop],
        reports_pattern(v, pattern, now) && member(raw, "update_command_patterns"@) == Some(
            JsonView::Array(seq![v]),
        ) && member(raw, "delete_command_patterns"@) is None ==> merged_memory(
            m,
            raw,
            now,
        ).command_patterns == seq![pattern],
        reports_signal(v, signal, now) && member(raw, "update_project_signals"@) == Some(
            JsonView::Array(seq![v]),
        ) && member(raw, "delete_project_signals"@) is None ==> merged_memory(
            m,
            raw,
            now,
        ).project_signals == seq![signal],
{
    let items = seq![v];
    assert(m.facts =~= Seq::empty() && m.lessons =~= Seq::empty() && m.open_loops =~= Seq::empty()
        && m.command_patterns =~= Seq::empty() && m.project_signals =~= Seq::empty());
    if reports_fact(v, fact, now) && member(raw, "update_facts"@) == Some(JsonView::Array(items))
        && member(raw, "delete_facts"@) is None {
        law_new_facts(m, raw, items, seq![fact], now);
        assert(m.facts + seq![fact] =~= seq![fact]);
    }
    if reports_lesson(v, lesson, now) && member(raw, "update_lessons"@) == Some(
        JsonView::Array(items),
    ) && member(raw, "delete_lessons"@) is None {
        law_new_lessons(m, raw, items, seq![lesson], now);
        assert(m.lessons + seq![lesson] =~= seq![lesson]);
    }
    if reports_loop(v, open_loop, now) && member(raw, "update_open_loops"@) == Some(
        JsonView::Array(items),
    ) && member(raw, "delete_open_loops"@) is None {
        law_new_loops(m, raw, items, seq![open_loop], now);
        assert(m.open_loops + seq![open_loop] =~= seq![open_loop]);
    }
    if reports_pattern(v, pattern, now) && member(raw, "update_command_patterns"@) == Some(
        JsonView::Array(items),
    ) && member(raw, "delete_command_patterns"@) is None {
        law_new_patterns(m, raw, items, seq![pattern], now);
        assert(m.command_patterns + seq![pattern] =~= seq![pattern]);
    }
    if reports_signal(v, signal, now) && member(raw, "update_project_signals"@) == Some(
        JsonView::Array(items),
    ) && member(raw, "delete_project_signals"@) is None {
        law_new_signals(m, raw, items, seq![signal], now);
        assert(m.project_signals + seq![signal] =~= seq![signal]);
    }
}


/// A report that gives all of one kind, in a memory without records, makes
/// exactly those of that kind.
pub proof fn law_first_full_report(
    m: MemoryView,
    raw: JsonView,
    v: JsonView,
    fact: FactView,
    lesson: LessonView,
    open_loop: LoopView,
    pattern: PatternView,
    signal: SignalView,
    now: u64,
)
    requires
        holds_no_records(m),
    ensures
        reports_fact(v, fact, now) && gives_all(raw, "facts"@, seq![v]) ==> merged_memory(
            m,
            raw,
            now,
        ).facts == seq![fact],
        reports_lesson(v, lesson, now) && gives_all(raw, "lessons"@, seq![v]) ==> merged_memory(
            m,
            raw,
            now,
        ).lessons == seq![lesson],
        reports_loop(v, open_loop, now) && gives_all(raw, "open_loops"@, seq![v])
            ==> merged_memory(m, raw, now).open_loops == seq![open_loop],
        reports_pattern(v, pattern, now) && gives_all(raw, "command_patterns"@, seq![v])
            ==> merged_memory(m, raw, now).command_patterns == seq![pattern],
        reports_signal(v, signal, now) && gives_all(raw, "project_signals"@, seq![v])
            ==> merged_memory(m, raw, now).project_signals == seq![signal],
{
    let items = seq![v];
    assert(m.facts =~= Seq::empty() && m.lessons =~= Seq::empty() && m.open_loops =~= Seq::empty()
        && m.command_patterns =~= Seq::empty() && m.project_signals =~= Seq::empty());
    if reports_fact(v, fact, now) && gives_all(raw, "facts"@, items) {
        lemma_fact(v, fact, now);
        lemma_list_is_given::<MemoryFact>(
            raw,
            "update_facts"@,
            "delete_facts"@,
            "facts"@,
            items,
            seq![fact],
            now,
        );
    }
    if reports_lesson(v, lesson, now) && gives_all(raw, "lessons"@, items) {
        lemma_lesson(v, lesson, now);
        lemma_list_is_given::<MemoryLesson>(
            raw,
            "update_lessons"@,
            "delete_lessons"@,
            "lessons"@,
            items,
            seq![lesson],
            now,
        );
    }
    if reports_loop(v, open_loop, now) && gives_all(raw, "open_loops"@, items) {
        lemma_loop(v, open_loop, now);
        lemma_list_is_given::<OpenLoop>(
            raw,
            "update_open_loops"@,
            "delete_open_loops"@,
            "open_loops"@,
            items,
            seq![open_loop],
            now,
        );
    }
    if reports_pattern(v, pattern, now) && gives_all(raw, "command_patterns"@, items) {
        lemma_pattern(v, pattern, now);
        lemma_list_is_given::<CommandPattern>(
            raw,
            "update_command_patterns"@,
            "delete_command_patterns"@,
            "command_patterns"@,
            items,
            seq![pattern],
            now,
        );
    }
    if reports_signal(v, signal, now) && gives_all(raw, "project_signals"@, items) {
        lemma_signal(v, signal, now);
        lemma_list_is_given::<ProjectSignal>(
            raw,
            "update_project_signals"@,
            "delete_project_signals"@,
            "project_signals"@,
            items,
            seq![signal],
            now,
        );
    }
}

/// The user context that a report says is the one that the memory holds; an
/// empty one clears it.
pub proof fn law_context_is_learned(m: MemoryView, raw: JsonView, t: Seq<char>, now: u64)
    requires
        says(raw, "user_context"@, t),
    ensures
        is_neat(t, 320) ==> merged_memory(m, raw, now).user_context == Some(t),
        t.len() == 0 ==> merged_memory(m, raw, now).user_context is None,
{
    if is_neat(t, 320) {
        lemma_neat(t, 320);
    }
    if t.len() == 0 {
        assert(t =~= Seq::empty());
        lemma_neat(t, 320);
    }
}

// ---------------------------------------------------------------------------
// Known records
// ---------------------------------------------------------------------------

/// The list `b` is the list `a` but for the record at `k`.
pub open spec fn only_changed_at<V>(a: Seq<V>, b: Seq<V>, k: int) -> bool {
    &&& b.len() == a.len()
    &&& forall|i: int| 0 <= i < a.len() && i != k ==> #[trigger] b[i] == a[i]
}

proof fn lemma_known<T: Reported>(
    old: Seq<T::V>,
    raw: JsonView,
    update_key: Seq<char>,
    delete_key: Seq<char>,
    full_key: Seq<char>,
    v: JsonView,
    x: T::V,
    k: int,
    now: u64,
) -> (y: T::V)
    requires
        member(raw, update_key) == Some(JsonView::Array(seq![v])),
        member(raw, delete_key) is None,
        T::parsed(v, now) == Some(x),
        T::cleaned(x) == Some(x),
        all_clean::<T>(old),
        subjects_unique::<T>(old),
        0 <= k < old.len(),
        T::id_of(old[k]) == T::id_of(x),
        about_from::<T>(old, T::id_of(x), 0) is Some ==> ({
            let i = about_from::<T>(old, T::id_of(x), 0)->0;
            let after = T::taken_in(old, x);
            &&& only_changed_at(old, after, i)
            &&& T::id_of(after[i]) == T::id_of(x)
            &&& T::cleaned(after[i]) == Some(after[i])
        }),
    ensures
        y == T::taken_in(old, x)[k],
        about_from::<T>(old, T::id_of(x), 0) == Some(k),
        ({
            let d = deduped::<T>(old, old.len() as int);
            let after = list_after::<T>(d, raw, true, update_key, delete_key, full_key, now);
            deduped::<T>(after, after.len() as int) == old.update(k, y)
        }),
{
    lemma_stays::<T>(old);
    lemma_about::<T>(old, T::id_of(x), 0);
    let found = about_from::<T>(old, T::id_of(x), 0);
    assert(found is Some) by {
        if found is None {
            assert(T::id_of(old[k]) != T::id_of(x));
        }
    }
    let i = found->0;
    assert(i == k) by {
        if i < k {
            assert(T::id_of(old[i]) != T::id_of(old[k]));
        } else if k < i {
            assert(T::id_of(old[k]) != T::id_of(old[i]));
        }
    }
    let items = seq![v];
    reveal_with_fuel(all_taken_in, 2);
    assert(items[0] == v);
    let after = T::taken_in(old, x);
    assert(all_taken_in::<T>(old, items, now, 1) == after);
    let y = after[k];
    assert(after =~= old.update(k, y));
    assert forall|a: int, b: int| 0 <= a < b < after.len() implies T::id_of(#[trigger] after[a])
        != T::id_of(#[trigger] after[b]) by {
        assert(T::id_of(after[a]) == T::id_of(old[a]));
        assert(T::id_of(after[b]) == T::id_of(old[b]));
    }
    assert forall|a: int| 0 <= a < after.len() implies T::cleaned(#[trigger] after[a]) == Some(
        after[a],
    ) by {
        if a != k {
            assert(after[a] == old[a]);
        }
    }
    lemma_stays::<T>(after);
    y
}

/// A fact on a known key changes the value of that fact alone.
pub proof fn law_known_fact(
    m: MemoryView,
    raw: JsonView,
    v: JsonView,
    x: FactView,
    k: int,
    now: u64,
)
    requires
        member(raw, "update_facts"@) == Some(JsonView::Array(seq![v])),
        member(raw, "delete_facts"@) is None,
        reports_fact(v, x, now),
        all_clean::<MemoryFact>(m.facts),
        subjects_unique::<MemoryFact>(m.facts),
        0 <= k < m.facts.len(),
        m.facts[k].key == x.key,
    ensures
        ({
            let after = merged_memory(m, raw, now).facts;
            &&& only_changed_at(m.facts, after, k)
            &&& after[k].key == x.key
            &&& after[k].value == x.value
            &&& after[k].recorded_at == (if m.facts[k].value == x.value {
                m.facts[k].recorded_at
            } else {
                now
            })
        }),
{
    lemma_fact(v, x, now);
    lemma_about::<MemoryFact>(m.facts, x.key, 0);
    let y = lemma_known::<MemoryFact>(
        m.facts,
        raw,
        "update_facts"@,
        "delete_facts"@,
        "facts"@,
        v,
        x,
        k,
        now,
    );
}

/// A lesson on a known title and occasion changes what that lesson recommends,
/// and that lesson alone.
pub proof fn law_known_lesson(
    m: MemoryView,
    raw: JsonView,
    v: JsonView,
    x: LessonView,
    k: int,
    now: u64,
)
    requires
        member(raw, "update_lessons"@) == Some(JsonView::Array(seq![v])),
        member(raw, "delete_lessons"@) is None,
        reports_lesson(v, x, now),
        all_clean::<MemoryLesson>(m.lessons),
        subjects_unique::<MemoryLesson>(m.lessons),
        0 <= k < m.lessons.len(),
        m.lessons[k].title == x.title,
        m.lessons[k].when_to_apply == x.when_to_apply,
        m.lessons[k].last_seen_at <= now,
    ensures
        merged_memory(m, raw, now).lessons == m.lessons.update(k, x),
{
    lemma_lesson(v, x, now);
    lemma_about::<MemoryLesson>(m.lessons, lesson_id(x), 0);
    let y = lemma_known::<MemoryLesson>(
        m.lessons,
        raw,
        "update_lessons"@,
        "delete_lessons"@,
        "lessons"@,
        v,
        x,
        k,
        now,
    );
    assert(y == x);
}

/// An open loop on a known goal changes that loop alone.
pub proof fn law_known_loop(
    m: MemoryView,
    raw: JsonView,
    v: JsonView,
    x: LoopView,
    k: int,
    now: u64,
)
    requires
        member(raw, "update_open_loops"@) == Some(JsonView::Array(seq![v])),
        member(raw, "delete_open_loops"@) is None,
        reports_loop(v, x, now),
        all_clean::<OpenLoop>(m.open_loops),
        subjects_unique::<OpenLoop>(m.open_loops),
        0 <= k < m.open_loops.len(),
        m.open_loops[k].goal == x.goal,
        m.open_loops[k].updated_at <= now,
    ensures
        merged_memory(m, raw, now).open_loops == m.open_loops.update(k, x),
{
    lemma_loop(v, x, now);
    lemma_about::<OpenLoop>(m.open_loops, match_text(x.goal), 0);
    let y = lemma_known::<OpenLoop>(
        m.open_loops,
        raw,
        "update_open_loops"@,
        "delete_open_loops"@,
        "open_loops"@,
        v,
        x,
        k,
        now,
    );
    assert(y == x);
}

/// A command pattern on a known signature changes that pattern alone.
pub proof fn law_known_pattern(
    m: MemoryView,
    raw: JsonView,
    v: JsonView,
    x: PatternView,
    k: int,
    now: u64,
)
    requires
        member(raw, "update_command_patterns"@) == Some(JsonView::Array(seq![v])),
        member(raw, "delete_command_patterns"@) is None,
        reports_pattern(v, x, now),
        all_clean::<CommandPattern>(m.command_patterns),
        subjects_unique::<CommandPattern>(m.command_patterns),
        0 <= k < m.command_patterns.len(),
        m.command_patterns[k].signature == x.signature,
        m.command_patterns[k].last_seen_at <= now,
    ensures
        merged_memory(m, raw, now).command_patterns == m.command_patterns.update(k, x),
{
    lemma_pattern(v, x, now);
    lemma_about::<CommandPattern>(m.command_patterns, match_text(x.signature), 0);
    let y = lemma_known::<CommandPattern>(
        m.command_patterns,
        raw,
        "update_command_patterns"@,
        "delete_command_patterns"@,
        "command_patterns"@,
        v,
        x,
        k,
        now,
    );
    assert(y == x);
}

/// A project signal on a known key changes that signal alone.
pub proof fn law_known_signal(
    m: MemoryView,
    raw: JsonView,
    v: JsonView,
    x: SignalView,
    k: int,
    now: u64,
)
    requires
        member(raw, "update_project_signals"@) == Some(JsonView::Array(seq![v])),
        member(raw, "delete_project_signals"@) is None,
        reports_signal(v, x, now),
        all_clean::<ProjectSignal>(m.project_signals),
        subjects_unique::<ProjectSignal>(m.project_signals),
        0 <= k < m.project_signals.len(),
        m.project_signals[k].key == x.key,
        m.project_signals[k].recorded_at <= now,
    ensures
        merged_memory(m, raw, now).project_signals == m.project_signals.update(k, x),
{
    lemma_signal(v, x, now);
    lemma_about::<ProjectSignal>(m.project_signals, x.key, 0);
    let y = lemma_known::<ProjectSignal>(
        m.project_signals,
        raw,
        "update_project_signals"@,
        "delete_project_signals"@,
        "project_signals"@,
        v,
        x,
        k,
        now,
    );
    assert(y == x);
}

// ---------------------------------------------------------------------------
// Records that are taken away
// ---------------------------------------------------------------------------

proof fn lemma_named<T: Reported>(v: Seq<JsonView>, n: int, key: Seq<char>)
    requires
        0 <= n <= v.len(),
    ensures
        named::<T>(v, n).contains(key) <==> key.len() > 0 && exists|j: int|
            0 <= j < n && (#[trigger] v[j]) is Text && T::name_key(v[j]->Text_0) == key,
    decreases n,
{
    if n > 0 {
        lemma_named::<T>(v, n - 1, key);
        let before = named::<T>(v, n - 1);
        let after = named::<T>(v, n);
        if before.contains(key) {
            let i = choose|i: int| 0 <= i < before.len() && before[i] == key;
            assert(after[i] == key);
        }
        if after.contains(key) && !before.contains(key) {
            let i = choose|i: int| 0 <= i < after.len() && after[i] == key;
            if i < before.len() {
                assert(before[i] == key);
            }
            assert(v[n - 1] is Text && T::name_key(v[n - 1]->Text_0) == key);
        }
        if v[n - 1] is Text && T::name_key(v[n - 1]->Text_0) == key && key.len() > 0 {
            assert(after[before.len() as int] == key);
        }
    }
}

proof fn lemma_rest<T: Reported>(
    v: Seq<T::V>,
    keys: Seq<Seq<char>>,
    keep: spec_fn(T::V) -> bool,
    n: int,
)
    requires
        0 <= n <= v.len(),
        forall|x: T::V| #[trigger] keep(x) == !is_named::<T>(x, keys),
        all_clean::<T>(v),
        subjects_unique::<T>(v),
    ensures
        unnamed::<T>(v, keys, n) == v.take(n).filter(keep),
        all_clean::<T>(unnamed::<T>(v, keys, n)),
        subjects_unique::<T>(unnamed::<T>(v, keys, n)),
        forall|i: int|
            0 <= i < unnamed::<T>(v, keys, n).len() ==> exists|k: int|
                0 <= k < n && v[k] == #[trigger] unnamed::<T>(v, keys, n)[i],
    decreases n,
{
    reveal(Seq::filter);
    if n > 0 {
        lemma_rest::<T>(v, keys, keep, n - 1);
        assert(v.take(n).drop_last() =~= v.take(n - 1));
        assert(v.take(n).last() == v[n - 1]);
        let a = unnamed::<T>(v, keys, n - 1);
        let b = unnamed::<T>(v, keys, n);
        assert(keep(v[n - 1]) == !is_named::<T>(v[n - 1], keys));
        assert forall|i: int| 0 <= i < b.len() implies exists|k: int|
            0 <= k < n && v[k] == #[trigger] b[i] by {
            if i < a.len() {
                assert(b[i] == a[i]);
                let k = choose|k: int| 0 <= k < n - 1 && v[k] == a[i];
                assert(v[k] == b[i]);
            } else {
                assert(v[n - 1] == b[i]);
            }
        }
        assert forall|i: int| 0 <= i < b.len() implies T::cleaned(#[trigger] b[i]) == Some(b[i]) by {
            let k = choose|k: int| 0 <= k < n && v[k] == b[i];
            assert(T::cleaned(v[k]) == Some(v[k]));
        }
        assert forall|i: int, j: int| 0 <= i < j < b.len() implies T::id_of(#[trigger] b[i])
            != T::id_of(#[trigger] b[j]) by {
            assert(b[i] == a[i]);
            if j < a.len() {
                assert(b[j] == a[j]);
            } else {
                let k = choose|k: int| 0 <= k < n - 1 && v[k] == a[i];
                assert(T::id_of(v[k]) != T::id_of(v[n - 1]));
            }
        }
    } else {
        assert(v.take(0) =~= Seq::empty());
    }
}

proof fn lemma_taken_away<T: Reported>(
    old: Seq<T::V>,
    raw: JsonView,
    update_key: Seq<char>,
    delete_key: Seq<char>,
    full_key: Seq<char>,
    items: Seq<JsonView>,
    keep: spec_fn(T::V) -> bool,
    now: u64,
)
    requires
        member(raw, update_key) is None,
        member(raw, delete_key) == Some(JsonView::Array(items)),
        all_clean::<T>(old),
        subjects_unique::<T>(old),
        forall|x: T::V| #[trigger]
            keep(x) == !is_named::<T>(x, named::<T>(items, items.len() as int)),
    ensures
        ({
            let d = deduped::<T>(old, old.len() as int);
            let after = list_after::<T>(d, raw, true, update_key, delete_key, full_key, now);
            deduped::<T>(after, after.len() as int) == old.filter(keep)
        }),
{
    lemma_stays::<T>(old);
    let keys = named::<T>(items, items.len() as int);
    lemma_rest::<T>(old, keys, keep, old.len() as int);
    assert(old.take(old.len() as int) =~= old);
    lemma_stays::<T>(unnamed::<T>(old, keys, old.len() as int));
}

/// The report asks for the record with this key, in any spelling, to be
/// forgotten.
pub open spec fn asks_away_key(items: Seq<JsonView>, key: Seq<char>) -> bool {
    key.len() > 0 && exists|j: int|
        0 <= j < items.len() && (#[trigger] items[j]) is Text && fact_key(items[j]->Text_0) == key
}

/// The report asks for the record with this text to be forgotten, whatever the
/// case and the spaces.
pub open spec fn asks_away_text(items: Seq<JsonView>, key: Seq<char>) -> bool {
    key.len() > 0 && exists|j: int|
        0 <= j < items.len() && (#[trigger] items[j]) is Text && match_text(items[j]->Text_0)
            == key
}

/// A report that only takes facts or signals away leaves exactly those that it
/// does not name.
pub proof fn law_named_keys_are_forgotten(
    m: MemoryView,
    raw: JsonView,
    items: Seq<JsonView>,
    now: u64,
)
    ensures
        member(raw, "delete_facts"@) == Some(JsonView::Array(items)) && member(
            raw,
            "update_facts"@,
        ) is None && all_clean::<MemoryFact>(m.facts) && subjects_unique::<MemoryFact>(m.facts)
            ==> merged_memory(m, raw, now).facts == m.facts.filter(
            |x: FactView| !asks_away_key(items, x.key),
        ),
        member(raw, "delete_project_signals"@) == Some(JsonView::Array(items)) && member(
            raw,
            "update_project_signals"@,
        ) is None && all_clean::<ProjectSignal>(m.project_signals) && subjects_unique::<
            ProjectSignal,
        >(m.project_signals) ==> merged_memory(m, raw, now).project_signals
            == m.project_signals.filter(|x: SignalView| !asks_away_key(items, x.key)),
{
    let n = items.len() as int;
    if member(raw, "delete_facts"@) == Some(JsonView::Array(items)) && member(
        raw,
        "update_facts"@,
    ) is None && all_clean::<MemoryFact>(m.facts) && subjects_unique::<MemoryFact>(m.facts) {
        let keep = |x: FactView| !asks_away_key(items, x.key);
        let keys = named::<MemoryFact>(items, n);
        assert forall|x: FactView| #[trigger]
            keep(x) == !is_named::<MemoryFact>(x, keys) by {
            lemma_named::<MemoryFact>(items, n, x.key);
            assert(MemoryFact::names(x)[0] == x.key);
        }
        lemma_taken_away::<MemoryFact>(
            m.facts,
            raw,
            "update_facts"@,
            "delete_facts"@,
            "facts"@,
            items,
            keep,
            now,
        );
    }
    if member(raw, "delete_project_signals"@) == Some(JsonView::Array(items)) && member(
        raw,
        "update_project_signals"@,
    ) is None && all_clean::<ProjectSignal>(m.project_signals) && subjects_unique::<ProjectSignal>(
        m.project_signals,
    ) {
        let keep = |x: SignalView| !asks_away_key(items, x.key);
        let keys = named::<ProjectSignal>(items, n);
        assert forall|x: SignalView| #[trigger]
            keep(x) == !is_named::<ProjectSignal>(x, keys) by {
            lemma_named::<ProjectSignal>(items, n, x.key);
            assert(ProjectSignal::names(x)[0] == x.key);
        }
        lemma_taken_away::<ProjectSignal>(
            m.project_signals,
            raw,
            "update_project_signals"@,
            "delete_project_signals"@,
            "project_signals"@,
            items,
            keep,
            now,
        );
    }
}

/// A report that only takes lessons, open loops or command patterns away leaves
/// exactly those that it does not name: a lesson by its title, or by its title
/// and its occasion; an open loop by its goal; a pattern by its signature.
pub proof fn law_named_texts_are_forgotten(
    m: MemoryView,
    raw: JsonView,
    items: Seq<JsonView>,
    now: u64,
)
    ensures
        member(raw, "delete_lessons"@) == Some(JsonView::Array(items)) && member(
            raw,
            "update_lessons"@,
        ) is None && all_clean::<MemoryLesson>(m.lessons) && subjects_unique::<MemoryLesson>(
            m.lessons,
        ) ==> merged_memory(m, raw, now).lessons == m.lessons.filter(
            |x: LessonView|
                !asks_away_text(items, match_text(x.title)) && !asks_away_text(
                    items,
                    match_text(x.title) + "|"@ + match_text(x.when_to_apply),
                ),
        ),
        member(raw, "delete_open_loops"@) == Some(JsonView::Array(items)) && member(
            raw,
            "update_open_loops"@,
        ) is None && all_clean::<OpenLoop>(m.open_loops) && subjects_unique::<OpenLoop>(
            m.open_loops,
        ) ==> merged_memory(m, raw, now).open_loops == m.open_loops.filter(
            |x: LoopView| !asks_away_text(items, match_text(x.goal)),
        ),
        member(raw, "delete_command_patterns"@) == Some(JsonView::Array(items)) && member(
            raw,
            "update_command_patterns"@,
        ) is None && all_clean::<CommandPattern>(m.command_patterns) && subjects_unique::<
            CommandPattern,
        >(m.command_patterns) ==> merged_memory(m, raw, now).command_patterns
            == m.command_patterns.filter(
            |x: PatternView| !asks_away_text(items, match_text(x.signature)),
        ),
{
    let n = items.len() as int;
    if member(raw, "delete_lessons"@) == Some(JsonView::Array(items)) && member(
        raw,
        "update_lessons"@,
    ) is None && all_clean::<MemoryLesson>(m.lessons) && subjects_unique::<MemoryLesson>(
        m.lessons,
    ) {
        let keep = |x: LessonView|
            !asks_away_text(items, match_text(x.title)) && !asks_away_text(
                items,
                match_text(x.title) + "|"@ + match_text(x.when_to_apply),
            );
        let keys = named::<MemoryLesson>(items, n);
        assert forall|x: LessonView| #[trigger]
            keep(x) == !is_named::<MemoryLesson>(x, keys) by {
            lemma_named::<MemoryLesson>(items, n, match_text(x.title));
            lemma_named::<MemoryLesson>(items, n, lesson_id(x));
            assert(MemoryLesson::names(x)[0] == match_text(x.title));
            assert(MemoryLesson::names(x)[1] == lesson_id(x));
        }
        lemma_taken_away::<MemoryLesson>(
            m.lessons,
            raw,
            "update_lessons"@,
            "delete_lessons"@,
            "lessons"@,
            items,
            keep,
            now,
        );
    }
    if member(raw, "delete_open_loops"@) == Some(JsonView::Array(items)) && member(
        raw,
        "update_open_loops"@,
    ) is None && all_clean::<OpenLoop>(m.open_loops) && subjects_unique::<OpenLoop>(m.open_loops) {
        let keep = |x: LoopView| !asks_away_text(items, match_text(x.goal));
        let keys = named::<OpenLoop>(items, n);
        assert forall|x: LoopView| #[trigger] keep(x) == !is_named::<OpenLoop>(x, keys) by {
            lemma_named::<OpenLoop>(items, n, match_text(x.goal));
            assert(OpenLoop::names(x)[0] == match_text(x.goal));
        }
        lemma_taken_away::<OpenLoop>(
            m.open_loops,
            raw,
            "update_open_loops"@,
            "delete_open_loops"@,
            "open_loops"@,
            items,
            keep,
            now,
        );
    }
    if member(raw, "delete_command_patterns"@) == Some(JsonView::Array(items)) && member(
        raw,
        "update_command_patterns"@,
    ) is None && all_clean::<CommandPattern>(m.command_patterns) && subjects_unique::<
        CommandPattern,
    >(m.command_patterns) {
        let keep = |x: PatternView| !asks_away_text(items, match_text(x.signature));
        let keys = named::<CommandPattern>(items, n);
        assert forall|x: PatternView| #[trigger]
            keep(x) == !is_named::<CommandPattern>(x, keys) by {
            lemma_named::<CommandPattern>(items, n, match_text(x.signature));
            assert(CommandPattern::names(x)[0] == match_text(x.signature));
        }
        lemma_taken_away::<CommandPattern>(
            m.command_patterns,
            raw,
            "update_command_patterns"@,
            "delete_command_patterns"@,
            "command_patterns"@,
            items,
            keep,
            now,
        );
    }
}

/// A report that says nothing of a kind of record leaves the records of that
/// kind as they are.
pub proof fn law_other_records_stay(m: MemoryView, raw: JsonView, now: u64)
    ensures
        member(raw, "update_facts"@) is None && member(raw, "delete_facts"@) is None && member(
            raw,
            "facts"@,
        ) is None && all_clean::<MemoryFact>(m.facts) && subjects_unique::<MemoryFact>(m.facts)
            ==> merged_memory(m, raw, now).facts == m.facts,
        member(raw, "update_lessons"@) is None && member(raw, "delete_lessons"@) is None && member(
            raw,
            "lessons"@,
        ) is None && all_clean::<MemoryLesson>(m.lessons) && subjects_unique::<MemoryLesson>(
            m.lessons,
        ) ==> merged_memory(m, raw, now).lessons == m.lessons,
        member(raw, "update_open_loops"@) is None && member(raw, "delete_open_loops"@) is None
            && member(raw, "open_loops"@) is None && all_clean::<OpenLoop>(m.open_loops)
            && subjects_unique::<OpenLoop>(m.open_loops) ==> merged_memory(m, raw, now).open_loops
            == m.open_loops,
        member(raw, "update_command_patterns"@) is None && member(
            raw,
            "delete_command_patterns"@,
        ) is None && member(raw, "command_patterns"@) is None && all_clean::<CommandPattern>(
            m.command_patterns,
        ) && subjects_unique::<CommandPattern>(m.command_patterns) ==> merged_memory(
            m,
            raw,
            now,
        ).command_patterns == m.command_patterns,
        member(raw, "update_project_signals"@) is None && member(
            raw,
            "delete_project_signals"@,
        ) is None && member(raw, "project_signals"@) is None && all_clean::<ProjectSignal>(
            m.project_signals,
        ) && subjects_unique::<ProjectSignal>(m.project_signals) ==> merged_memory(
            m,
            raw,
            now,
        ).project_signals == m.project_signals,
{
    if all_clean::<MemoryFact>(m.facts) && subjects_unique::<MemoryFact>(m.facts) {
        lemma_stays::<MemoryFact>(m.facts);
    }
    if all_clean::<MemoryLesson>(m.lessons) && subjects_unique::<MemoryLesson>(m.lessons) {
        lemma_stays::<MemoryLesson>(m.lessons);
    }
    if all_clean::<OpenLoop>(m.open_loops) && subjects_unique::<OpenLoop>(m.open_loops) {
        lemma_stays::<OpenLoop>(m.open_loops);
    }
    if all_clean::<CommandPattern>(m.command_patterns) && subjects_unique::<CommandPattern>(
        m.command_patterns,
    ) {
        lemma_stays::<CommandPattern>(m.command_patterns);
    }
    if all_clean::<ProjectSignal>(m.project_signals) && subjects_unique::<ProjectSignal>(
        m.project_signals,
    ) {
        lemma_stays::<ProjectSignal>(m.project_signals);
    }
}

} // verus!
