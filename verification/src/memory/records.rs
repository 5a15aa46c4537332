//! The records of the memory: what makes two of them the same, and how lists
//! of them are kept free of repetitions.

use crate::memory::clean::{
    clean_text, cleaned_text, cut_is_clean, fact_key, law_cleaning_settles, law_stored_key,
    lemma_within_limit, match_text, normalize_match_text, normalize_memory_fact_key,
    sanitize_memory_fact_value, sanitize_memory_scope, sanitize_project_signal_value,
};
use crate::memory::model::{
    CommandPattern, FactView, LessonView, LoopView, MAX_COMMAND_OUTCOME_CHARS,
    MAX_COMMAND_PURPOSE_CHARS, MAX_COMMAND_SIGNATURE_CHARS, MAX_MEMORY_FACT_VALUE_CHARS,
    MAX_MEMORY_LESSON_RECOMMENDATION_CHARS, MAX_MEMORY_LESSON_TITLE_CHARS,
    MAX_MEMORY_LESSON_WHEN_CHARS, MAX_MEMORY_SCOPE_CHARS, MAX_OPEN_LOOP_BLOCKER_CHARS,
    MAX_OPEN_LOOP_GOAL_CHARS, MAX_OPEN_LOOP_NEXT_STEP_CHARS, MAX_PROJECT_SIGNAL_VALUE_CHARS,
    MemoryFact, MemoryLesson, MemoryView, OpenLoop, PatternView, ProjectSignal, SignalView,
    StructuredMemory, facts_view, lessons_view, loops_view, memory_entries, patterns_view,
    signals_view,
};
use crate::text::{concat3, is_ascii, same};
use vstd::prelude::*;
use vstd::string::*;

verus! {

/// A kind of record that the memory keeps lists of.
pub trait Remembered: Sized {
    /// What a record says.
    type V;

    spec fn seen(&self) -> Self::V;

    /// The record in its bounded form, or nothing where a part that it needs is
    /// empty.
    spec fn cleaned(v: Self::V) -> Option<Self::V>;

    /// What the record is about.
    spec fn id_of(v: Self::V) -> Seq<char>;

    /// Two records say the same, whatever their times.
    spec fn agree(a: Self::V, b: Self::V) -> bool;

    /// When the record was last confirmed.
    spec fn time_of(v: Self::V) -> u64;

    /// The record with another time.
    spec fn at_time(v: Self::V, t: u64) -> Self::V;

    /// A record keeps its subject when only its time changes.
    proof fn lemma_time_keeps_id(v: Self::V, t: u64)
        ensures
            Self::id_of(Self::at_time(v, t)) == Self::id_of(v),
    ;

    /// The bounded form of the record is one that cleaning leaves as it is: no
    /// text of it is cut right behind a space, and a key is of ASCII.
    spec fn settles(v: Self::V) -> bool;

    /// Cleaning such a record twice changes nothing more.
    proof fn lemma_settles(v: Self::V)
        requires
            Self::settles(v),
            Self::cleaned(v) is Some,
        ensures
            Self::cleaned(Self::cleaned(v)->0) == Self::cleaned(v),
    ;

    /// Cleaning leaves a record as it is, whatever its time.
    proof fn lemma_time_keeps_clean(v: Self::V, t: u64)
        requires
            Self::cleaned(v) == Some(v),
        ensures
            Self::cleaned(Self::at_time(v, t)) == Some(Self::at_time(v, t)),
    ;

    /// The record in its bounded form.
    fn clean(&self) -> (r: Option<Self>)
        ensures
            match r {
                Some(x) => Self::cleaned(self.seen()) == Some(x.seen()),
                None => Self::cleaned(self.seen()) is None,
            },
    ;

    /// What the record is about.
    fn id(&self) -> (r: String)
        ensures
            r@ == Self::id_of(self.seen()),
    ;

    /// Whether two records say the same.
    fn agrees(&self, other: &Self) -> (r: bool)
        ensures
            r == Self::agree(self.seen(), other.seen()),
    ;

    /// When the record was last confirmed.
    fn time(&self) -> (r: u64)
        ensures
            r == Self::time_of(self.seen()),
    ;

    /// The record with another time.
    fn with_time(&self, t: u64) -> (r: Self)
        ensures
            r.seen() == Self::at_time(self.seen(), t),
    ;

    /// A copy of the record.
    fn copy(&self) -> (r: Self)
        ensures
            r.seen() == self.seen(),
    ;
}

/// What the records of a list say.
pub open spec fn all_seen<T: Remembered>(v: Seq<T>) -> Seq<T::V> {
    v.map_values(|x: T| x.seen())
}

/// The position of the first record about `id`, from `i` on.
pub open spec fn about_from<T: Remembered>(v: Seq<T::V>, id: Seq<char>, i: int) -> Option<int>
    decreases v.len() - i,
{
    if i < 0 || i >= v.len() {
        None
    } else if T::id_of(v[i]) == id {
        Some(i)
    } else {
        about_from::<T>(v, id, i + 1)
    }
}

/// The later of two times.
pub open spec fn later(a: u64, b: u64) -> u64 {
    if a >= b {
        a
    } else {
        b
    }
}

/// A list after one more record: a new subject is added at the end; a record
/// that says the same only confirms the time; one that says something else
/// replaces the old one unless it is older.
pub open spec fn absorbed<T: Remembered>(v: Seq<T::V>, x: T::V) -> Seq<T::V> {
    match about_from::<T>(v, T::id_of(x), 0) {
        None => v.push(x),
        Some(i) => if T::agree(v[i], x) {
            v.update(i, T::at_time(v[i], later(T::time_of(v[i]), T::time_of(x))))
        } else if T::time_of(x) >= T::time_of(v[i]) {
            v.update(i, x)
        } else {
            v
        },
    }
}

/// The first `n` records, cleaned, without repetitions.
pub open spec fn deduped<T: Remembered>(v: Seq<T::V>, n: int) -> Seq<T::V>
    decreases n,
{
    if n <= 0 {
        Seq::empty()
    } else {
        match T::cleaned(v[n - 1]) {
            None => deduped::<T>(v, n - 1),
            Some(x) => absorbed::<T>(deduped::<T>(v, n - 1), x),
        }
    }
}

/// The position of the first record about `id`.
pub fn find_about<T: Remembered>(v: &Vec<T>, id: &str) -> (r: Option<usize>)
    ensures
        match r {
            Some(i) => about_from::<T>(all_seen(v@), id@, 0) == Some(i as int) && i < v@.len(),
            None => about_from::<T>(all_seen(v@), id@, 0) is None,
        },
{
    let mut i: usize = 0;
    while i < v.len()
        invariant
            i <= v@.len(),
            about_from::<T>(all_seen(v@), id@, i as int) == about_from::<T>(
                all_seen(v@),
                id@,
                0,
            ),
        decreases v@.len() - i,
    {
        assert(all_seen(v@)[i as int] == v@[i as int].seen());
        if same(v[i].id().as_str(), id) {
            return Some(i);
        }
        i = i + 1;
    }
    None
}

fn absorb<T: Remembered>(v: &mut Vec<T>, x: T)
    ensures
        all_seen(final(v)@) == absorbed::<T>(all_seen(old(v)@), x.seen()),
{
    let ghost start = all_seen(v@);
    let ghost new = x.seen();
    match find_about(v, x.id().as_str()) {
        None => {
            v.push(x);
            assert(all_seen(v@) =~= start.push(new));
        },
        Some(i) => {
            assert(start[i as int] == v@[i as int].seen());
            if v[i].agrees(&x) {
                let a: u64 = v[i].time();
                let b: u64 = x.time();
                let t: u64 = if a >= b {
                    a
                } else {
                    b
                };
                let y = v[i].with_time(t);
                let ghost view = y.seen();
                v.set(i, y);
                assert(all_seen(v@) =~= start.update(i as int, view));
            } else if x.time() >= v[i].time() {
                v.set(i, x);
                assert(all_seen(v@) =~= start.update(i as int, new));
            }
        },
    }
}

/// Cleans the records and drops repetitions.
pub fn dedupe<T: Remembered>(items: &mut Vec<T>)
    ensures
        all_seen(final(items)@) == deduped::<T>(all_seen(old(items)@), old(items)@.len() as int),
{
    let mut out: Vec<T> = Vec::new();
    let mut n: usize = 0;
    assert(all_seen(out@) =~= deduped::<T>(all_seen(items@), 0));
    while n < items.len()
        invariant
            n <= items@.len(),
            items@ == old(items)@,
            all_seen(out@) == deduped::<T>(all_seen(items@), n as int),
        decreases items@.len() - n,
    {
        assert(all_seen(items@)[n as int] == items@[n as int].seen());
        if let Some(x) = items[n].clean() {
            absorb(&mut out, x);
        }
        n = n + 1;
    }
    *items = out;
}

/// A list after one record was reported anew: a new subject is added at the
/// end; a record that says the same only confirms the time; any other replaces
/// the old one.
pub open spec fn upserted<T: Remembered>(v: Seq<T::V>, x: T::V) -> Seq<T::V> {
    match about_from::<T>(v, T::id_of(x), 0) {
        None => v.push(x),
        Some(i) => if T::agree(v[i], x) {
            v.update(i, T::at_time(v[i], later(T::time_of(v[i]), T::time_of(x))))
        } else {
            v.update(i, x)
        },
    }
}

/// Takes in a record that was reported anew.
pub fn upsert<T: Remembered>(v: &mut Vec<T>, x: T)
    ensures
        all_seen(final(v)@) == upserted::<T>(all_seen(old(v)@), x.seen()),
{
    let ghost start = all_seen(v@);
    let ghost new = x.seen();
    match find_about(v, x.id().as_str()) {
        None => {
            v.push(x);
            assert(all_seen(v@) =~= start.push(new));
        },
        Some(i) => {
            assert(start[i as int] == v@[i as int].seen());
            if v[i].agrees(&x) {
                let a: u64 = v[i].time();
                let b: u64 = x.time();
                let t: u64 = if a >= b {
                    a
                } else {
                    b
                };
                let y = v[i].with_time(t);
                let ghost view = y.seen();
                v.set(i, y);
                assert(all_seen(v@) =~= start.update(i as int, view));
            } else {
                v.set(i, x);
                assert(all_seen(v@) =~= start.update(i as int, new));
            }
        },
    }
}

/// No two records are about the same subject.
pub open spec fn subjects_unique<T: Remembered>(v: Seq<T::V>) -> bool {
    forall|i: int, j: int|
        0 <= i < j < v.len() ==> T::id_of(#[trigger] v[i]) != T::id_of(#[trigger] v[j])
}

pub proof fn lemma_about<T: Remembered>(v: Seq<T::V>, id: Seq<char>, i: int)
    requires
        0 <= i,
    ensures
        match about_from::<T>(v, id, i) {
            Some(k) => i <= k < v.len() && T::id_of(v[k]) == id,
            None => forall|j: int| i <= j < v.len() ==> T::id_of(#[trigger] v[j]) != id,
        },
    decreases v.len() - i,
{
    if i < v.len() && T::id_of(v[i]) != id {
        lemma_about::<T>(v, id, i + 1);
    }
}

proof fn lemma_update_keeps_unique<T: Remembered>(v: Seq<T::V>, i: int, x: T::V)
    requires
        subjects_unique::<T>(v),
        0 <= i < v.len(),
        T::id_of(x) == T::id_of(v[i]),
    ensures
        subjects_unique::<T>(v.update(i, x)),
{
    let w = v.update(i, x);
    assert forall|a: int, b: int| 0 <= a < b < w.len() implies T::id_of(#[trigger] w[a])
        != T::id_of(#[trigger] w[b]) by {
        assert(T::id_of(w[a]) == T::id_of(v[a]));
        assert(T::id_of(w[b]) == T::id_of(v[b]));
    }
}

/// Taking in one more record keeps subjects unique.
pub proof fn law_absorb_keeps_unique<T: Remembered>(v: Seq<T::V>, x: T::V)
    requires
        subjects_unique::<T>(v),
    ensures
        subjects_unique::<T>(absorbed::<T>(v, x)),
{
    lemma_about::<T>(v, T::id_of(x), 0);
    if let Some(i) = about_from::<T>(v, T::id_of(x), 0) {
        let t = later(T::time_of(v[i]), T::time_of(x));
        T::lemma_time_keeps_id(v[i], t);
        lemma_update_keeps_unique::<T>(v, i, T::at_time(v[i], t));
        lemma_update_keeps_unique::<T>(v, i, x);
    }
}

/// A list without repetitions has one record per subject, and no more records
/// than went in.
pub proof fn law_deduped_unique<T: Remembered>(v: Seq<T::V>, n: int)
    requires
        0 <= n,
    ensures
        subjects_unique::<T>(deduped::<T>(v, n)),
        deduped::<T>(v, n).len() <= n,
    decreases n,
{
    if n > 0 {
        law_deduped_unique::<T>(v, n - 1);
        if let Some(x) = T::cleaned(v[n - 1]) {
            law_absorb_keeps_unique::<T>(deduped::<T>(v, n - 1), x);
            lemma_about::<T>(deduped::<T>(v, n - 1), T::id_of(x), 0);
        }
    }
}

/// Every record is one that cleaning leaves as it is.
pub open spec fn all_clean<T: Remembered>(v: Seq<T::V>) -> bool {
    forall|i: int| 0 <= i < v.len() ==> T::cleaned(#[trigger] v[i]) == Some(v[i])
}

proof fn lemma_deduped_clean<T: Remembered>(v: Seq<T::V>, n: int)
    requires
        0 <= n <= v.len(),
        forall|i: int| 0 <= i < v.len() ==> T::settles(#[trigger] v[i]),
    ensures
        all_clean::<T>(deduped::<T>(v, n)),
    decreases n,
{
    if n > 0 {
        lemma_deduped_clean::<T>(v, n - 1);
        let d = deduped::<T>(v, n - 1);
        if let Some(x) = T::cleaned(v[n - 1]) {
            assert(T::settles(v[n - 1]));
            T::lemma_settles(v[n - 1]);
            lemma_about::<T>(d, T::id_of(x), 0);
            if let Some(i) = about_from::<T>(d, T::id_of(x), 0) {
                T::lemma_time_keeps_clean(d[i], later(T::time_of(d[i]), T::time_of(x)));
            }
        }
    }
}

pub proof fn lemma_deduped_stays<T: Remembered>(d: Seq<T::V>, n: int)
    requires
        0 <= n <= d.len(),
        all_clean::<T>(d),
        subjects_unique::<T>(d),
    ensures
        deduped::<T>(d, n) == d.take(n),
    decreases n,
{
    if n > 0 {
        lemma_deduped_stays::<T>(d, n - 1);
        let h = d.take(n - 1);
        let x = d[n - 1];
        assert(T::cleaned(x) == Some(x));
        lemma_about::<T>(h, T::id_of(x), 0);
        if let Some(i) = about_from::<T>(h, T::id_of(x), 0) {
            assert(h[i] == d[i]);
            assert(T::id_of(d[i]) != T::id_of(d[n - 1]));
        }
        assert(h.push(x) =~= d.take(n));
    } else {
        assert(d.take(0) =~= Seq::<T::V>::empty());
    }
}

/// Dropping repetitions a second time changes nothing more.
pub proof fn law_deduped_settles<T: Remembered>(v: Seq<T::V>)
    requires
        forall|i: int| 0 <= i < v.len() ==> T::settles(#[trigger] v[i]),
    ensures
        ({
            let d = deduped::<T>(v, v.len() as int);
            deduped::<T>(d, d.len() as int) == d
        }),
{
    let d = deduped::<T>(v, v.len() as int);
    law_deduped_unique::<T>(v, v.len() as int);
    lemma_deduped_clean::<T>(v, v.len() as int);
    lemma_deduped_stays::<T>(d, d.len() as int);
    assert(d.take(d.len() as int) =~= d);
}

/// Reporting a record anew keeps subjects unique.
pub proof fn law_upsert_keeps_unique<T: Remembered>(v: Seq<T::V>, x: T::V)
    requires
        subjects_unique::<T>(v),
    ensures
        subjects_unique::<T>(upserted::<T>(v, x)),
{
    lemma_about::<T>(v, T::id_of(x), 0);
    if let Some(i) = about_from::<T>(v, T::id_of(x), 0) {
        let t = later(T::time_of(v[i]), T::time_of(x));
        T::lemma_time_keeps_id(v[i], t);
        lemma_update_keeps_unique::<T>(v, i, T::at_time(v[i], t));
        lemma_update_keeps_unique::<T>(v, i, x);
    }
}

// ---------------------------------------------------------------------------
// Facts
// ---------------------------------------------------------------------------

impl Remembered for MemoryFact {
    type V = FactView;

    open spec fn seen(&self) -> FactView {
        self@
    }

    open spec fn cleaned(v: FactView) -> Option<FactView> {
        let key = fact_key(v.key);
        let value = cleaned_text(v.value, MAX_MEMORY_FACT_VALUE_CHARS as nat);
        if key.len() == 0 || value.len() == 0 {
            None
        } else {
            Some(FactView { key, value, recorded_at: v.recorded_at })
        }
    }

    open spec fn id_of(v: FactView) -> Seq<char> {
        v.key
    }

    open spec fn agree(a: FactView, b: FactView) -> bool {
        a.value == b.value
    }

    open spec fn time_of(v: FactView) -> u64 {
        v.recorded_at
    }

    open spec fn at_time(v: FactView, t: u64) -> FactView {
        FactView { recorded_at: t, ..v }
    }

    proof fn lemma_time_keeps_id(v: FactView, t: u64) {
    }

    open spec fn settles(v: FactView) -> bool {
        &&& is_ascii(v.key)
        &&& cut_is_clean(v.value, MAX_MEMORY_FACT_VALUE_CHARS as nat)
    }

    proof fn lemma_settles(v: FactView) {
        law_stored_key(v.key);
        law_cleaning_settles(v.value, MAX_MEMORY_FACT_VALUE_CHARS as nat);
    }

    proof fn lemma_time_keeps_clean(v: FactView, t: u64) {
    }

    fn clean(&self) -> (r: Option<Self>) {
        let key = normalize_memory_fact_key(self.key.as_str());
        let value = sanitize_memory_fact_value(self.value.as_str());
        if key.as_str().is_empty() || value.as_str().is_empty() {
            return None;
        }
        Some(MemoryFact { key, value, recorded_at: self.recorded_at })
    }

    fn id(&self) -> (r: String) {
        self.key.clone()
    }

    fn agrees(&self, other: &Self) -> (r: bool) {
        same(self.value.as_str(), other.value.as_str())
    }

    fn time(&self) -> (r: u64) {
        self.recorded_at
    }

    fn with_time(&self, t: u64) -> (r: Self) {
        MemoryFact { key: self.key.clone(), value: self.value.clone(), recorded_at: t }
    }

    fn copy(&self) -> (r: Self) {
        MemoryFact {
            key: self.key.clone(),
            value: self.value.clone(),
            recorded_at: self.recorded_at,
        }
    }
}

// ---------------------------------------------------------------------------
// Lessons
// ---------------------------------------------------------------------------

/// What a lesson is about: its title and its occasion.
pub open spec fn lesson_id(v: LessonView) -> Seq<char> {
    match_text(v.title) + "|"@ + match_text(v.when_to_apply)
}

/// What the lesson is about.
pub fn lesson_identity(lesson: &MemoryLesson) -> (r: String)
    ensures
        r@ == lesson_id(lesson@),
{
    concat3(
        normalize_match_text(lesson.title.as_str()).as_str(),
        "|",
        normalize_match_text(lesson.when_to_apply.as_str()).as_str(),
    )
}

impl Remembered for MemoryLesson {
    type V = LessonView;

    open spec fn seen(&self) -> LessonView {
        self@
    }

    open spec fn cleaned(v: LessonView) -> Option<LessonView> {
        let title = cleaned_text(v.title, MAX_MEMORY_LESSON_TITLE_CHARS as nat);
        let when_to_apply = cleaned_text(v.when_to_apply, MAX_MEMORY_LESSON_WHEN_CHARS as nat);
        let recommendation = cleaned_text(
            v.recommendation,
            MAX_MEMORY_LESSON_RECOMMENDATION_CHARS as nat,
        );
        if title.len() == 0 || when_to_apply.len() == 0 || recommendation.len() == 0 {
            None
        } else {
            Some(
                LessonView {
                    title,
                    when_to_apply,
                    recommendation,
                    scope: cleaned_text(v.scope, MAX_MEMORY_SCOPE_CHARS as nat),
                    ..v
                },
            )
        }
    }

    open spec fn id_of(v: LessonView) -> Seq<char> {
        lesson_id(v)
    }

    open spec fn agree(a: LessonView, b: LessonView) -> bool {
        a.recommendation == b.recommendation && a.scope == b.scope && a.confidence == b.confidence
    }

    open spec fn time_of(v: LessonView) -> u64 {
        v.last_seen_at
    }

    open spec fn at_time(v: LessonView, t: u64) -> LessonView {
        LessonView { last_seen_at: t, ..v }
    }

    proof fn lemma_time_keeps_id(v: LessonView, t: u64) {
    }

    open spec fn settles(v: LessonView) -> bool {
        &&& cut_is_clean(v.title, MAX_MEMORY_LESSON_TITLE_CHARS as nat)
        &&& cut_is_clean(v.when_to_apply, MAX_MEMORY_LESSON_WHEN_CHARS as nat)
        &&& cut_is_clean(v.recommendation, MAX_MEMORY_LESSON_RECOMMENDATION_CHARS as nat)
        &&& cut_is_clean(v.scope, MAX_MEMORY_SCOPE_CHARS as nat)
    }

    proof fn lemma_settles(v: LessonView) {
        law_cleaning_settles(v.title, MAX_MEMORY_LESSON_TITLE_CHARS as nat);
        law_cleaning_settles(v.when_to_apply, MAX_MEMORY_LESSON_WHEN_CHARS as nat);
        law_cleaning_settles(v.recommendation, MAX_MEMORY_LESSON_RECOMMENDATION_CHARS as nat);
        law_cleaning_settles(v.scope, MAX_MEMORY_SCOPE_CHARS as nat);
    }

    proof fn lemma_time_keeps_clean(v: LessonView, t: u64) {
    }

    fn clean(&self) -> (r: Option<Self>) {
        let title = clean_text(self.title.as_str(), MAX_MEMORY_LESSON_TITLE_CHARS);
        let when_to_apply = clean_text(self.when_to_apply.as_str(), MAX_MEMORY_LESSON_WHEN_CHARS);
        let recommendation = clean_text(
            self.recommendation.as_str(),
            MAX_MEMORY_LESSON_RECOMMENDATION_CHARS,
        );
        if title.as_str().is_empty() || when_to_apply.as_str().is_empty()
            || recommendation.as_str().is_empty() {
            return None;
        }
        Some(
            MemoryLesson {
                title,
                when_to_apply,
                recommendation,
                scope: sanitize_memory_scope(self.scope.as_str()),
                confidence: self.confidence,
                last_seen_at: self.last_seen_at,
            },
        )
    }

    fn id(&self) -> (r: String) {
        lesson_identity(self)
    }

    fn agrees(&self, other: &Self) -> (r: bool) {
        same(self.recommendation.as_str(), other.recommendation.as_str()) && same(
            self.scope.as_str(),
            other.scope.as_str(),
        ) && self.confidence == other.confidence
    }

    fn time(&self) -> (r: u64) {
        self.last_seen_at
    }

    fn with_time(&self, t: u64) -> (r: Self) {
        MemoryLesson {
            title: self.title.clone(),
            when_to_apply: self.when_to_apply.clone(),
            recommendation: self.recommendation.clone(),
            scope: self.scope.clone(),
            confidence: self.confidence,
            last_seen_at: t,
        }
    }

    fn copy(&self) -> (r: Self) {
        self.with_time(self.last_seen_at)
    }
}

// ---------------------------------------------------------------------------
// Open loops
// ---------------------------------------------------------------------------

/// What the open loop is about: its goal.
pub fn open_loop_identity(item: &OpenLoop) -> (r: String)
    ensures
        r@ == match_text(item@.goal),
{
    normalize_match_text(item.goal.as_str())
}

impl Remembered for OpenLoop {
    type V = LoopView;

    open spec fn seen(&self) -> LoopView {
        self@
    }

    open spec fn cleaned(v: LoopView) -> Option<LoopView> {
        let goal = cleaned_text(v.goal, MAX_OPEN_LOOP_GOAL_CHARS as nat);
        let blocker = cleaned_text(v.blocker, MAX_OPEN_LOOP_BLOCKER_CHARS as nat);
        let next_step = cleaned_text(v.next_step, MAX_OPEN_LOOP_NEXT_STEP_CHARS as nat);
        if goal.len() == 0 || blocker.len() == 0 || next_step.len() == 0 {
            None
        } else {
            Some(LoopView { goal, blocker, next_step, ..v })
        }
    }

    open spec fn id_of(v: LoopView) -> Seq<char> {
        match_text(v.goal)
    }

    open spec fn agree(a: LoopView, b: LoopView) -> bool {
        a.blocker == b.blocker && a.next_step == b.next_step && a.status == b.status
    }

    open spec fn time_of(v: LoopView) -> u64 {
        v.updated_at
    }

    open spec fn at_time(v: LoopView, t: u64) -> LoopView {
        LoopView { updated_at: t, ..v }
    }

    proof fn lemma_time_keeps_id(v: LoopView, t: u64) {
    }

    open spec fn settles(v: LoopView) -> bool {
        &&& cut_is_clean(v.goal, MAX_OPEN_LOOP_GOAL_CHARS as nat)
        &&& cut_is_clean(v.blocker, MAX_OPEN_LOOP_BLOCKER_CHARS as nat)
        &&& cut_is_clean(v.next_step, MAX_OPEN_LOOP_NEXT_STEP_CHARS as nat)
    }

    proof fn lemma_settles(v: LoopView) {
        law_cleaning_settles(v.goal, MAX_OPEN_LOOP_GOAL_CHARS as nat);
        law_cleaning_settles(v.blocker, MAX_OPEN_LOOP_BLOCKER_CHARS as nat);
        law_cleaning_settles(v.next_step, MAX_OPEN_LOOP_NEXT_STEP_CHARS as nat);
    }

    proof fn lemma_time_keeps_clean(v: LoopView, t: u64) {
    }

    fn clean(&self) -> (r: Option<Self>) {
        let goal = clean_text(self.goal.as_str(), MAX_OPEN_LOOP_GOAL_CHARS);
        let blocker = clean_text(self.blocker.as_str(), MAX_OPEN_LOOP_BLOCKER_CHARS);
        let next_step = clean_text(self.next_step.as_str(), MAX_OPEN_LOOP_NEXT_STEP_CHARS);
        if goal.as_str().is_empty() || blocker.as_str().is_empty() || next_step.as_str().is_empty() {
            return None;
        }
        Some(
            OpenLoop { goal, blocker, next_step, status: self.status, updated_at: self.updated_at },
        )
    }

    fn id(&self) -> (r: String) {
        open_loop_identity(self)
    }

    fn agrees(&self, other: &Self) -> (r: bool) {
        same(self.blocker.as_str(), other.blocker.as_str()) && same(
            self.next_step.as_str(),
            other.next_step.as_str(),
        ) && self.status == other.status
    }

    fn time(&self) -> (r: u64) {
        self.updated_at
    }

    fn with_time(&self, t: u64) -> (r: Self) {
        OpenLoop {
            goal: self.goal.clone(),
            blocker: self.blocker.clone(),
            next_step: self.next_step.clone(),
            status: self.status,
            updated_at: t,
        }
    }

    fn copy(&self) -> (r: Self) {
        self.with_time(self.updated_at)
    }
}

// ---------------------------------------------------------------------------
// Command patterns
// ---------------------------------------------------------------------------

/// What the command pattern is about: its signature.
pub fn command_pattern_identity(item: &CommandPattern) -> (r: String)
    ensures
        r@ == match_text(item@.signature),
{
    normalize_match_text(item.signature.as_str())
}

impl Remembered for CommandPattern {
    type V = PatternView;

    open spec fn seen(&self) -> PatternView {
        self@
    }

    open spec fn cleaned(v: PatternView) -> Option<PatternView> {
        let signature = cleaned_text(v.signature, MAX_COMMAND_SIGNATURE_CHARS as nat);
        let purpose = cleaned_text(v.purpose, MAX_COMMAND_PURPOSE_CHARS as nat);
        let outcome = cleaned_text(v.outcome, MAX_COMMAND_OUTCOME_CHARS as nat);
        if signature.len() == 0 || purpose.len() == 0 || outcome.len() == 0 {
            None
        } else {
            Some(PatternView { signature, purpose, outcome, ..v })
        }
    }

    open spec fn id_of(v: PatternView) -> Seq<char> {
        match_text(v.signature)
    }

    open spec fn agree(a: PatternView, b: PatternView) -> bool {
        a.purpose == b.purpose && a.outcome == b.outcome && a.confidence == b.confidence
    }

    open spec fn time_of(v: PatternView) -> u64 {
        v.last_seen_at
    }

    open spec fn at_time(v: PatternView, t: u64) -> PatternView {
        PatternView { last_seen_at: t, ..v }
    }

    proof fn lemma_time_keeps_id(v: PatternView, t: u64) {
    }

    open spec fn settles(v: PatternView) -> bool {
        &&& cut_is_clean(v.signature, MAX_COMMAND_SIGNATURE_CHARS as nat)
        &&& cut_is_clean(v.purpose, MAX_COMMAND_PURPOSE_CHARS as nat)
        &&& cut_is_clean(v.outcome, MAX_COMMAND_OUTCOME_CHARS as nat)
    }

    proof fn lemma_settles(v: PatternView) {
        law_cleaning_settles(v.signature, MAX_COMMAND_SIGNATURE_CHARS as nat);
        law_cleaning_settles(v.purpose, MAX_COMMAND_PURPOSE_CHARS as nat);
        law_cleaning_settles(v.outcome, MAX_COMMAND_OUTCOME_CHARS as nat);
    }

    proof fn lemma_time_keeps_clean(v: PatternView, t: u64) {
    }

    fn clean(&self) -> (r: Option<Self>) {
        let signature = clean_text(self.signature.as_str(), MAX_COMMAND_SIGNATURE_CHARS);
        let purpose = clean_text(self.purpose.as_str(), MAX_COMMAND_PURPOSE_CHARS);
        let outcome = clean_text(self.outcome.as_str(), MAX_COMMAND_OUTCOME_CHARS);
        if signature.as_str().is_empty() || purpose.as_str().is_empty()
            || outcome.as_str().is_empty() {
            return None;
        }
        Some(
            CommandPattern {
                signature,
                purpose,
                outcome,
                confidence: self.confidence,
                last_seen_at: self.last_seen_at,
            },
        )
    }

    fn id(&self) -> (r: String) {
        command_pattern_identity(self)
    }

    fn agrees(&self, other: &Self) -> (r: bool) {
        same(self.purpose.as_str(), other.purpose.as_str()) && same(
            self.outcome.as_str(),
            other.outcome.as_str(),
        ) && self.confidence == other.confidence
    }

    fn time(&self) -> (r: u64) {
        self.last_seen_at
    }

    fn with_time(&self, t: u64) -> (r: Self) {
        CommandPattern {
            signature: self.signature.clone(),
            purpose: self.purpose.clone(),
            outcome: self.outcome.clone(),
            confidence: self.confidence,
            last_seen_at: t,
        }
    }

    fn copy(&self) -> (r: Self) {
        self.with_time(self.last_seen_at)
    }
}

// ---------------------------------------------------------------------------
// Project signals
// ---------------------------------------------------------------------------

impl Remembered for ProjectSignal {
    type V = SignalView;

    open spec fn seen(&self) -> SignalView {
        self@
    }

    open spec fn cleaned(v: SignalView) -> Option<SignalView> {
        let key = fact_key(v.key);
        let value = cleaned_text(v.value, MAX_PROJECT_SIGNAL_VALUE_CHARS as nat);
        if key.len() == 0 || value.len() == 0 {
            None
        } else {
            Some(SignalView { key, value, recorded_at: v.recorded_at })
        }
    }

    open spec fn id_of(v: SignalView) -> Seq<char> {
        v.key
    }

    open spec fn agree(a: SignalView, b: SignalView) -> bool {
        a.value == b.value
    }

    open spec fn time_of(v: SignalView) -> u64 {
        v.recorded_at
    }

    open spec fn at_time(v: SignalView, t: u64) -> SignalView {
        SignalView { recorded_at: t, ..v }
    }

    proof fn lemma_time_keeps_id(v: SignalView, t: u64) {
    }

    open spec fn settles(v: SignalView) -> bool {
        &&& is_ascii(v.key)
        &&& cut_is_clean(v.value, MAX_PROJECT_SIGNAL_VALUE_CHARS as nat)
    }

    proof fn lemma_settles(v: SignalView) {
        law_stored_key(v.key);
        law_cleaning_settles(v.value, MAX_PROJECT_SIGNAL_VALUE_CHARS as nat);
    }

    proof fn lemma_time_keeps_clean(v: SignalView, t: u64) {
    }

    fn clean(&self) -> (r: Option<Self>) {
        let key = normalize_memory_fact_key(self.key.as_str());
        let value = sanitize_project_signal_value(self.value.as_str());
        if key.as_str().is_empty() || value.as_str().is_empty() {
            return None;
        }
        Some(ProjectSignal { key, value, recorded_at: self.recorded_at })
    }

    fn id(&self) -> (r: String) {
        self.key.clone()
    }

    fn agrees(&self, other: &Self) -> (r: bool) {
        same(self.value.as_str(), other.value.as_str())
    }

    fn time(&self) -> (r: u64) {
        self.recorded_at
    }

    fn with_time(&self, t: u64) -> (r: Self) {
        ProjectSignal { key: self.key.clone(), value: self.value.clone(), recorded_at: t }
    }

    fn copy(&self) -> (r: Self) {
        ProjectSignal {
            key: self.key.clone(),
            value: self.value.clone(),
            recorded_at: self.recorded_at,
        }
    }
}

// ---------------------------------------------------------------------------
// The lists of the memory
// ---------------------------------------------------------------------------

/// Cleans the facts and drops repetitions.
pub fn dedupe_memory_facts(facts: &mut Vec<MemoryFact>)
    ensures
        facts_view(final(facts)@) == deduped::<MemoryFact>(
            facts_view(old(facts)@),
            old(facts)@.len() as int,
        ),
{
    assert(all_seen(facts@) =~= facts_view(facts@));
    dedupe(facts);
    assert(all_seen(facts@) =~= facts_view(facts@));
}

/// Cleans the lessons and drops repetitions.
pub fn dedupe_memory_lessons(lessons: &mut Vec<MemoryLesson>)
    ensures
        lessons_view(final(lessons)@) == deduped::<MemoryLesson>(
            lessons_view(old(lessons)@),
            old(lessons)@.len() as int,
        ),
{
    assert(all_seen(lessons@) =~= lessons_view(lessons@));
    dedupe(lessons);
    assert(all_seen(lessons@) =~= lessons_view(lessons@));
}

/// Cleans the open loops and drops repetitions.
pub fn dedupe_open_loops(open_loops: &mut Vec<OpenLoop>)
    ensures
        loops_view(final(open_loops)@) == deduped::<OpenLoop>(
            loops_view(old(open_loops)@),
            old(open_loops)@.len() as int,
        ),
{
    assert(all_seen(open_loops@) =~= loops_view(open_loops@));
    dedupe(open_loops);
    assert(all_seen(open_loops@) =~= loops_view(open_loops@));
}

/// Cleans the command patterns and drops repetitions.
pub fn dedupe_command_patterns(command_patterns: &mut Vec<CommandPattern>)
    ensures
        patterns_view(final(command_patterns)@) == deduped::<CommandPattern>(
            patterns_view(old(command_patterns)@),
            old(command_patterns)@.len() as int,
        ),
{
    assert(all_seen(command_patterns@) =~= patterns_view(command_patterns@));
    dedupe(command_patterns);
    assert(all_seen(command_patterns@) =~= patterns_view(command_patterns@));
}

/// Cleans the project signals and drops repetitions.
pub fn dedupe_project_signals(project_signals: &mut Vec<ProjectSignal>)
    ensures
        signals_view(final(project_signals)@) == deduped::<ProjectSignal>(
            signals_view(old(project_signals)@),
            old(project_signals)@.len() as int,
        ),
{
    assert(all_seen(project_signals@) =~= signals_view(project_signals@));
    dedupe(project_signals);
    assert(all_seen(project_signals@) =~= signals_view(project_signals@));
}

/// The memory with all its lists cleaned and free of repetitions.
pub open spec fn deduped_memory(m: MemoryView) -> MemoryView {
    MemoryView {
        facts: deduped::<MemoryFact>(m.facts, m.facts.len() as int),
        lessons: deduped::<MemoryLesson>(m.lessons, m.lessons.len() as int),
        open_loops: deduped::<OpenLoop>(m.open_loops, m.open_loops.len() as int),
        command_patterns: deduped::<CommandPattern>(
            m.command_patterns,
            m.command_patterns.len() as int,
        ),
        project_signals: deduped::<ProjectSignal>(
            m.project_signals,
            m.project_signals.len() as int,
        ),
        ..m
    }
}

/// Cleans all lists of the memory and drops repetitions.
pub fn dedupe_structured_memory(memory: &mut StructuredMemory)
    ensures
        final(memory)@ == deduped_memory(old(memory)@),
{
    dedupe_memory_facts(&mut memory.facts);
    dedupe_memory_lessons(&mut memory.lessons);
    dedupe_open_loops(&mut memory.open_loops);
    dedupe_command_patterns(&mut memory.command_patterns);
    dedupe_project_signals(&mut memory.project_signals);
}

/// Takes in a lesson that was reported anew.
pub fn upsert_memory_lesson(lessons: &mut Vec<MemoryLesson>, lesson: MemoryLesson)
    ensures
        lessons_view(final(lessons)@) == upserted::<MemoryLesson>(
            lessons_view(old(lessons)@),
            lesson@,
        ),
{
    assert(all_seen(lessons@) =~= lessons_view(lessons@));
    upsert(lessons, lesson);
    assert(all_seen(lessons@) =~= lessons_view(lessons@));
}

/// Takes in an open loop that was reported anew.
pub fn upsert_open_loop(open_loops: &mut Vec<OpenLoop>, open_loop: OpenLoop)
    ensures
        loops_view(final(open_loops)@) == upserted::<OpenLoop>(
            loops_view(old(open_loops)@),
            open_loop@,
        ),
{
    assert(all_seen(open_loops@) =~= loops_view(open_loops@));
    upsert(open_loops, open_loop);
    assert(all_seen(open_loops@) =~= loops_view(open_loops@));
}

/// Takes in a command pattern that was reported anew.
pub fn upsert_command_pattern(command_patterns: &mut Vec<CommandPattern>, pattern: CommandPattern)
    ensures
        patterns_view(final(command_patterns)@) == upserted::<CommandPattern>(
            patterns_view(old(command_patterns)@),
            pattern@,
        ),
{
    assert(all_seen(command_patterns@) =~= patterns_view(command_patterns@));
    upsert(command_patterns, pattern);
    assert(all_seen(command_patterns@) =~= patterns_view(command_patterns@));
}

/// Takes in a project signal that was reported anew.
pub fn upsert_project_signal(project_signals: &mut Vec<ProjectSignal>, signal: ProjectSignal)
    ensures
        signals_view(final(project_signals)@) == upserted::<ProjectSignal>(
            signals_view(old(project_signals)@),
            signal@,
        ),
{
    assert(all_seen(project_signals@) =~= signals_view(project_signals@));
    upsert(project_signals, signal);
    assert(all_seen(project_signals@) =~= signals_view(project_signals@));
}

/// Every record of the memory is one whose bounded form cleaning leaves as it
/// is.
pub open spec fn memory_settles(m: MemoryView) -> bool {
    &&& forall|i: int| 0 <= i < m.facts.len() ==> MemoryFact::settles(#[trigger] m.facts[i])
    &&& forall|i: int| 0 <= i < m.lessons.len() ==> MemoryLesson::settles(#[trigger] m.lessons[i])
    &&& forall|i: int| 0 <= i < m.open_loops.len() ==> OpenLoop::settles(#[trigger] m.open_loops[i])
    &&& forall|i: int|
        0 <= i < m.command_patterns.len() ==> CommandPattern::settles(
            #[trigger] m.command_patterns[i],
        )
    &&& forall|i: int|
        0 <= i < m.project_signals.len() ==> ProjectSignal::settles(#[trigger] m.project_signals[i])
}

/// Dropping the repetitions of a memory keeps what is known of the user and its
/// time, adds no record, and leaves one record per subject.
pub proof fn law_deduped_memory(m: MemoryView)
    ensures
        ({
            let d = deduped_memory(m);
            &&& d.user_context == m.user_context
            &&& d.updated_at == m.updated_at
            &&& d.facts.len() <= m.facts.len()
            &&& d.lessons.len() <= m.lessons.len()
            &&& d.open_loops.len() <= m.open_loops.len()
            &&& d.command_patterns.len() <= m.command_patterns.len()
            &&& d.project_signals.len() <= m.project_signals.len()
            &&& memory_entries(d) <= memory_entries(m)
            &&& subjects_unique::<MemoryFact>(d.facts)
            &&& subjects_unique::<MemoryLesson>(d.lessons)
            &&& subjects_unique::<OpenLoop>(d.open_loops)
            &&& subjects_unique::<CommandPattern>(d.command_patterns)
            &&& subjects_unique::<ProjectSignal>(d.project_signals)
        }),
{
    law_deduped_unique::<MemoryFact>(m.facts, m.facts.len() as int);
    law_deduped_unique::<MemoryLesson>(m.lessons, m.lessons.len() as int);
    law_deduped_unique::<OpenLoop>(m.open_loops, m.open_loops.len() as int);
    law_deduped_unique::<CommandPattern>(m.command_patterns, m.command_patterns.len() as int);
    law_deduped_unique::<ProjectSignal>(m.project_signals, m.project_signals.len() as int);
}

/// Dropping the repetitions of a memory a second time changes nothing more.
pub proof fn law_deduped_memory_settles(m: MemoryView)
    requires
        memory_settles(m),
    ensures
        deduped_memory(deduped_memory(m)) == deduped_memory(m),
{
    law_deduped_settles::<MemoryFact>(m.facts);
    law_deduped_settles::<MemoryLesson>(m.lessons);
    law_deduped_settles::<OpenLoop>(m.open_loops);
    law_deduped_settles::<CommandPattern>(m.command_patterns);
    law_deduped_settles::<ProjectSignal>(m.project_signals);
}

/// Every text of the memory is within its limit, and every key is of ASCII.
pub open spec fn memory_within_limits(m: MemoryView) -> bool {
    &&& forall|i: int|
        0 <= i < m.facts.len() ==> is_ascii((#[trigger] m.facts[i]).key) && m.facts[i].value.len()
            <= MAX_MEMORY_FACT_VALUE_CHARS
    &&& forall|i: int|
        0 <= i < m.lessons.len() ==> (#[trigger] m.lessons[i]).title.len()
            <= MAX_MEMORY_LESSON_TITLE_CHARS && m.lessons[i].when_to_apply.len()
            <= MAX_MEMORY_LESSON_WHEN_CHARS && m.lessons[i].recommendation.len()
            <= MAX_MEMORY_LESSON_RECOMMENDATION_CHARS && m.lessons[i].scope.len()
            <= MAX_MEMORY_SCOPE_CHARS
    &&& forall|i: int|
        0 <= i < m.open_loops.len() ==> (#[trigger] m.open_loops[i]).goal.len()
            <= MAX_OPEN_LOOP_GOAL_CHARS && m.open_loops[i].blocker.len()
            <= MAX_OPEN_LOOP_BLOCKER_CHARS && m.open_loops[i].next_step.len()
            <= MAX_OPEN_LOOP_NEXT_STEP_CHARS
    &&& forall|i: int|
        0 <= i < m.command_patterns.len() ==> (#[trigger] m.command_patterns[i]).signature.len()
            <= MAX_COMMAND_SIGNATURE_CHARS && m.command_patterns[i].purpose.len()
            <= MAX_COMMAND_PURPOSE_CHARS && m.command_patterns[i].outcome.len()
            <= MAX_COMMAND_OUTCOME_CHARS
    &&& forall|i: int|
        0 <= i < m.project_signals.len() ==> is_ascii((#[trigger] m.project_signals[i]).key)
            && m.project_signals[i].value.len() <= MAX_PROJECT_SIGNAL_VALUE_CHARS
}

/// A memory within its limits is one whose repetitions are dropped once and for
/// all.
pub proof fn law_memory_within_limits_settles(m: MemoryView)
    requires
        memory_within_limits(m),
    ensures
        memory_settles(m),
        deduped_memory(deduped_memory(m)) == deduped_memory(m),
{
    assert forall|i: int| 0 <= i < m.facts.len() implies MemoryFact::settles(
        #[trigger] m.facts[i],
    ) by {
        lemma_within_limit(m.facts[i].value, MAX_MEMORY_FACT_VALUE_CHARS as nat);
    }
    assert forall|i: int| 0 <= i < m.lessons.len() implies MemoryLesson::settles(
        #[trigger] m.lessons[i],
    ) by {
        let v = m.lessons[i];
        lemma_within_limit(v.title, MAX_MEMORY_LESSON_TITLE_CHARS as nat);
        lemma_within_limit(v.when_to_apply, MAX_MEMORY_LESSON_WHEN_CHARS as nat);
        lemma_within_limit(v.recommendation, MAX_MEMORY_LESSON_RECOMMENDATION_CHARS as nat);
        lemma_within_limit(v.scope, MAX_MEMORY_SCOPE_CHARS as nat);
    }
    assert forall|i: int| 0 <= i < m.open_loops.len() implies OpenLoop::settles(
        #[trigger] m.open_loops[i],
    ) by {
        let v = m.open_loops[i];
        lemma_within_limit(v.goal, MAX_OPEN_LOOP_GOAL_CHARS as nat);
        lemma_within_limit(v.blocker, MAX_OPEN_LOOP_BLOCKER_CHARS as nat);
        lemma_within_limit(v.next_step, MAX_OPEN_LOOP_NEXT_STEP_CHARS as nat);
    }
    assert forall|i: int| 0 <= i < m.command_patterns.len() implies CommandPattern::settles(
        #[trigger] m.command_patterns[i],
    ) by {
        let v = m.command_patterns[i];
        lemma_within_limit(v.signature, MAX_COMMAND_SIGNATURE_CHARS as nat);
        lemma_within_limit(v.purpose, MAX_COMMAND_PURPOSE_CHARS as nat);
        lemma_within_limit(v.outcome, MAX_COMMAND_OUTCOME_CHARS as nat);
    }
    assert forall|i: int| 0 <= i < m.project_signals.len() implies ProjectSignal::settles(
        #[trigger] m.project_signals[i],
    ) by {
        lemma_within_limit(m.project_signals[i].value, MAX_PROJECT_SIGNAL_VALUE_CHARS as nat);
    }
    law_deduped_memory_settles(m);
}

} // verus!
