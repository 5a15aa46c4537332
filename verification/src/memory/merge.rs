//! Taking a model's report on a conversation into the memory.

use crate::json::{
    Json, JsonView, array_at, find_text, get_text, items_view, json_view, member, opt_text_at,
    text_at,
};
use crate::memory::clean::{
    cleaned_text, fact_key, match_text, normalize_match_text, normalize_memory_fact_key,
    sanitize_command_outcome, sanitize_command_purpose, sanitize_command_signature,
    sanitize_memory_fact_value, sanitize_memory_lesson_recommendation,
    sanitize_memory_lesson_title, sanitize_memory_lesson_when, sanitize_memory_scope,
    sanitize_open_loop_blocker, sanitize_open_loop_goal, sanitize_open_loop_next_step,
    sanitize_project_signal_value, sanitize_user_context_value, unless_empty,
};
use crate::memory::model::{
    CommandPattern, FactView, LessonView, LoopView, MAX_COMMAND_OUTCOME_CHARS,
    MAX_COMMAND_PURPOSE_CHARS, MAX_COMMAND_SIGNATURE_CHARS, MAX_MEMORY_COMMAND_PATTERNS,
    MAX_MEMORY_FACTS, MAX_MEMORY_FACT_VALUE_CHARS, MAX_MEMORY_LESSONS,
    MAX_MEMORY_LESSON_RECOMMENDATION_CHARS, MAX_MEMORY_LESSON_TITLE_CHARS,
    MAX_MEMORY_LESSON_WHEN_CHARS, MAX_MEMORY_OPEN_LOOPS, MAX_MEMORY_PROJECT_SIGNALS,
    MAX_MEMORY_SCOPE_CHARS, MAX_MEMORY_USER_CONTEXT_CHARS, MAX_OPEN_LOOP_BLOCKER_CHARS,
    MAX_OPEN_LOOP_GOAL_CHARS, MAX_OPEN_LOOP_NEXT_STEP_CHARS, MAX_PROJECT_SIGNAL_VALUE_CHARS,
    MemoryConfidence, MemoryFact, MemoryLesson, MemoryView, OpenLoop, OpenLoopStatus,
    PatternView, ProjectSignal, SignalView, StructuredMemory, confidence_named, loop_rank,
    loop_status_named,
};
use crate::memory::records::{
    Remembered, about_from, all_seen, command_pattern_identity, dedupe_structured_memory,
    deduped_memory, find_about, law_deduped_unique, lesson_id, lesson_identity,
    open_loop_identity, subjects_unique, upsert, upserted,
};
use crate::text::{
    before, contains_text, lemma_before_splits, lemma_before_total, same, text_before, texts,
    trim, trimmed,
};
use vstd::prelude::*;
use vstd::string::*;

verus! {

// ---------------------------------------------------------------------------
// Records in a report
// ---------------------------------------------------------------------------

/// A kind of record that a report can name, give and take away.
pub trait Reported: Remembered {
    /// The form in which a name in a report is compared.
    spec fn name_key(t: Seq<char>) -> Seq<char>;

    /// The names under which a record can be taken away.
    spec fn names(v: Self::V) -> Seq<Seq<char>>;

    /// The record that a value of a report gives.
    spec fn parsed(v: JsonView, now: u64) -> Option<Self::V>;

    /// The list after a record of a report.
    spec fn taken_in(v: Seq<Self::V>, x: Self::V) -> Seq<Self::V>;

    /// `a` is kept before `b` where there are too many.
    spec fn kept_before(a: Self::V, b: Self::V) -> bool;

    /// What is kept before what is an order.
    proof fn lemma_keeping(a: Self::V, b: Self::V, c: Self::V)
        ensures
            Self::kept_before(a, b) ==> !Self::kept_before(b, a),
            Self::kept_before(a, c) ==> Self::kept_before(a, b) || Self::kept_before(b, c),
    ;

    /// The form in which the name is compared.
    fn key_of_name(t: &str) -> (r: String)
        ensures
            r@ == Self::name_key(t@),
    ;

    /// The names under which the record can be taken away.
    fn name_texts(&self) -> (r: Vec<String>)
        ensures
            texts(r@) == Self::names(self.seen()),
    ;

    /// The record that the value gives.
    fn read(v: &Json, now: u64) -> (r: Option<Self>)
        ensures
            match r {
                Some(x) => Self::parsed(v@, now) == Some(x.seen()),
                None => Self::parsed(v@, now) is None,
            },
    ;

    /// Takes a record of a report into the list.
    fn take_in(v: &mut Vec<Self>, x: Self)
        ensures
            all_seen(final(v)@) == Self::taken_in(all_seen(old(v)@), x.seen()),
    ;

    /// Whether this record is kept before the other.
    fn goes_first(&self, other: &Self) -> (r: bool)
        ensures
            r == Self::kept_before(self.seen(), other.seen()),
    ;
}

/// The names among the first `n` values, in the form in which they are
/// compared, without the empty ones.
pub open spec fn named<T: Reported>(v: Seq<JsonView>, n: int) -> Seq<Seq<char>>
    decreases n,
{
    if n <= 0 {
        Seq::empty()
    } else {
        match v[n - 1] {
            JsonView::Text(t) => if T::name_key(t).len() > 0 {
                named::<T>(v, n - 1).push(T::name_key(t))
            } else {
                named::<T>(v, n - 1)
            },
            _ => named::<T>(v, n - 1),
        }
    }
}

/// One of the names of the record is among `keys`.
pub open spec fn is_named<T: Reported>(x: T::V, keys: Seq<Seq<char>>) -> bool {
    exists|i: int| 0 <= i < T::names(x).len() && keys.contains(#[trigger] T::names(x)[i])
}

/// Those of the first `n` records that are not named.
pub open spec fn unnamed<T: Reported>(v: Seq<T::V>, keys: Seq<Seq<char>>, n: int) -> Seq<T::V>
    decreases n,
{
    if n <= 0 {
        Seq::empty()
    } else if is_named::<T>(v[n - 1], keys) {
        unnamed::<T>(v, keys, n - 1)
    } else {
        unnamed::<T>(v, keys, n - 1).push(v[n - 1])
    }
}

/// The list after the first `n` values of a report.
pub open spec fn all_taken_in<T: Reported>(v: Seq<T::V>, from: Seq<JsonView>, now: u64, n: int) -> Seq<
    T::V,
>
    decreases n,
{
    if n <= 0 {
        v
    } else {
        let so_far = all_taken_in::<T>(v, from, now, n - 1);
        match T::parsed(from[n - 1], now) {
            Some(x) => T::taken_in(so_far, x),
            None => so_far,
        }
    }
}

/// The first record from `i` on that says what `x` says on the same subject.
pub open spec fn same_record<T: Reported>(v: Seq<T::V>, x: T::V, i: int) -> Option<T::V>
    decreases v.len() - i,
{
    if i < 0 || i >= v.len() {
        None
    } else if T::id_of(v[i]) == T::id_of(x) && T::agree(v[i], x) {
        Some(v[i])
    } else {
        same_record::<T>(v, x, i + 1)
    }
}

/// A record of a full report: one that was known keeps its time.
pub open spec fn carried<T: Reported>(v: Seq<T::V>, x: T::V, now: u64) -> T::V {
    T::at_time(
        x,
        match same_record::<T>(v, x, 0) {
            Some(y) => T::time_of(y),
            None => now,
        },
    )
}

/// The list that the first `n` values of a full report give.
pub open spec fn replaced<T: Reported>(v: Seq<T::V>, from: Seq<JsonView>, now: u64, n: int) -> Seq<
    T::V,
>
    decreases n,
{
    if n <= 0 {
        Seq::empty()
    } else {
        match T::parsed(from[n - 1], now) {
            Some(x) => replaced::<T>(v, from, now, n - 1).push(carried::<T>(v, x, now)),
            None => replaced::<T>(v, from, now, n - 1),
        }
    }
}

fn read_names<T: Reported>(v: &Vec<Json>) -> (r: Vec<String>)
    ensures
        texts(r@) == named::<T>(items_view(v@), v@.len() as int),
{
    let mut out: Vec<String> = Vec::new();
    let mut n: usize = 0;
    assert(texts(out@) =~= Seq::empty());
    while n < v.len()
        invariant
            n <= v@.len(),
            texts(out@) == named::<T>(items_view(v@), n as int),
        decreases v@.len() - n,
    {
        assert(items_view(v@)[n as int] == json_view(v@[n as int]));
        if let Some(t) = v[n].as_str() {
            let key = T::key_of_name(t);
            if !key.as_str().is_empty() {
                let ghost before = texts(out@);
                let ghost view = key@;
                out.push(key);
                assert(texts(out@) =~= before.push(view));
            }
        }
        n = n + 1;
    }
    out
}

fn names_record<T: Reported>(x: &T, keys: &Vec<String>) -> (r: bool)
    ensures
        r == is_named::<T>(x.seen(), texts(keys@)),
{
    let names = x.name_texts();
    let mut i: usize = 0;
    while i < names.len()
        invariant
            i <= names@.len(),
            texts(names@) == T::names(x.seen()),
            forall|j: int|
                0 <= j < i ==> !texts(keys@).contains(#[trigger] T::names(x.seen())[j]),
        decreases names@.len() - i,
    {
        assert(T::names(x.seen())[i as int] == names@[i as int]@);
        if contains_text(keys, names[i].as_str()) {
            return true;
        }
        i = i + 1;
    }
    assert(T::names(x.seen()).len() == names@.len());
    false
}

fn take_away<T: Reported>(v: &mut Vec<T>, keys: &Vec<String>)
    ensures
        all_seen(final(v)@) == unnamed::<T>(
            all_seen(old(v)@),
            texts(keys@),
            old(v)@.len() as int,
        ),
{
    let mut out: Vec<T> = Vec::new();
    let mut n: usize = 0;
    assert(all_seen(out@) =~= Seq::<T::V>::empty());
    while n < v.len()
        invariant
            n <= v@.len(),
            v@ == old(v)@,
            all_seen(out@) == unnamed::<T>(all_seen(v@), texts(keys@), n as int),
        decreases v@.len() - n,
    {
        assert(all_seen(v@)[n as int] == v@[n as int].seen());
        if !names_record(&v[n], keys) {
            let ghost before = all_seen(out@);
            let x = v[n].copy();
            let ghost view = x.seen();
            out.push(x);
            assert(all_seen(out@) =~= before.push(view));
        }
        n = n + 1;
    }
    *v = out;
}

fn take_all_in<T: Reported>(v: &mut Vec<T>, from: &Vec<Json>, now: u64)
    ensures
        all_seen(final(v)@) == all_taken_in::<T>(
            all_seen(old(v)@),
            items_view(from@),
            now,
            from@.len() as int,
        ),
{
    let mut n: usize = 0;
    while n < from.len()
        invariant
            n <= from@.len(),
            all_seen(v@) == all_taken_in::<T>(
                all_seen(old(v)@),
                items_view(from@),
                now,
                n as int,
            ),
        decreases from@.len() - n,
    {
        assert(items_view(from@)[n as int] == json_view(from@[n as int]));
        if let Some(x) = T::read(&from[n], now) {
            T::take_in(v, x);
        }
        n = n + 1;
    }
}

fn carry<T: Reported>(v: &Vec<T>, x: T, now: u64) -> (r: T)
    ensures
        r.seen() == carried::<T>(all_seen(v@), x.seen(), now),
{
    let id = x.id();
    let mut i: usize = 0;
    while i < v.len()
        invariant
            i <= v@.len(),
            id@ == T::id_of(x.seen()),
            same_record::<T>(all_seen(v@), x.seen(), i as int) == same_record::<T>(
                all_seen(v@),
                x.seen(),
                0,
            ),
        decreases v@.len() - i,
    {
        assert(all_seen(v@)[i as int] == v@[i as int].seen());
        if same(v[i].id().as_str(), id.as_str()) && v[i].agrees(&x) {
            return x.with_time(v[i].time());
        }
        i = i + 1;
    }
    x.with_time(now)
}

fn replace_all<T: Reported>(v: &mut Vec<T>, from: &Vec<Json>, now: u64)
    ensures
        all_seen(final(v)@) == replaced::<T>(
            all_seen(old(v)@),
            items_view(from@),
            now,
            from@.len() as int,
        ),
{
    let mut out: Vec<T> = Vec::new();
    let mut n: usize = 0;
    assert(all_seen(out@) =~= Seq::<T::V>::empty());
    while n < from.len()
        invariant
            n <= from@.len(),
            v@ == old(v)@,
            all_seen(out@) == replaced::<T>(all_seen(v@), items_view(from@), now, n as int),
        decreases from@.len() - n,
    {
        assert(items_view(from@)[n as int] == json_view(from@[n as int]));
        if let Some(x) = T::read(&from[n], now) {
            let ghost before = all_seen(out@);
            let y = carry(v, x, now);
            let ghost view = y.seen();
            out.push(y);
            assert(all_seen(out@) =~= before.push(view));
        }
        n = n + 1;
    }
    *v = out;
}

/// A list of the memory after a report. An incremental report takes away what
/// it names and takes in what it gives; a full report replaces the list.
pub open spec fn list_after<T: Reported>(
    v: Seq<T::V>,
    raw: JsonView,
    incremental: bool,
    update_key: Seq<char>,
    delete_key: Seq<char>,
    full_key: Seq<char>,
    now: u64,
) -> Seq<T::V> {
    if incremental {
        let left = match array_at(raw, delete_key) {
            Some(items) => unnamed::<T>(
                v,
                named::<T>(items, items.len() as int),
                v.len() as int,
            ),
            None => v,
        };
        match array_at(raw, update_key) {
            Some(items) => all_taken_in::<T>(left, items, now, items.len() as int),
            None => left,
        }
    } else {
        match array_at(raw, full_key) {
            Some(items) => replaced::<T>(v, items, now, items.len() as int),
            None => v,
        }
    }
}

fn find_array<'a>(raw: &'a Json, key: &str) -> (r: Option<&'a Vec<Json>>)
    ensures
        match r {
            Some(v) => array_at(raw@, key@) == Some(items_view(v@)),
            None => array_at(raw@, key@) is None,
        },
{
    match raw.get(key) {
        Some(j) => j.as_array(),
        None => None,
    }
}

fn update_list<T: Reported>(
    v: &mut Vec<T>,
    raw: &Json,
    incremental: bool,
    update_key: &str,
    delete_key: &str,
    full_key: &str,
    now: u64,
)
    ensures
        all_seen(final(v)@) == list_after::<T>(
            all_seen(old(v)@),
            raw@,
            incremental,
            update_key@,
            delete_key@,
            full_key@,
            now,
        ),
{
    if incremental {
        if let Some(items) = find_array(raw, delete_key) {
            let keys = read_names::<T>(items);
            assert(items_view(items@).len() == items@.len());
            assert(all_seen(v@).len() == v@.len());
            take_away(v, &keys);
        }
        if let Some(items) = find_array(raw, update_key) {
            assert(items_view(items@).len() == items@.len());
            take_all_in(v, items, now);
        }
    } else {
        if let Some(items) = find_array(raw, full_key) {
            assert(items_view(items@).len() == items@.len());
            replace_all(v, items, now);
        }
    }
}

// ---------------------------------------------------------------------------
// The kinds of records
// ---------------------------------------------------------------------------

fn one_name(t: String) -> (r: Vec<String>)
    ensures
        texts(r@) == seq![t@],
{
    let mut v: Vec<String> = Vec::new();
    let ghost view = t@;
    v.push(t);
    assert(texts(v@) =~= seq![view]);
    v
}

impl Reported for MemoryFact {
    open spec fn name_key(t: Seq<char>) -> Seq<char> {
        fact_key(t)
    }

    open spec fn names(v: FactView) -> Seq<Seq<char>> {
        seq![v.key]
    }

    open spec fn parsed(v: JsonView, now: u64) -> Option<FactView> {
        let key = fact_key(trimmed(text_at(v, "key"@)));
        let value = cleaned_text(
            trimmed(text_at(v, "value"@)),
            MAX_MEMORY_FACT_VALUE_CHARS as nat,
        );
        if key.len() == 0 || value.len() == 0 {
            None
        } else {
            Some(FactView { key, value, recorded_at: now })
        }
    }

    open spec fn taken_in(v: Seq<FactView>, x: FactView) -> Seq<FactView> {
        match about_from::<MemoryFact>(v, x.key, 0) {
            None => v.push(x),
            Some(i) => if v[i].value == x.value {
                v
            } else {
                v.update(i, FactView { value: x.value, recorded_at: x.recorded_at, ..v[i] })
            },
        }
    }

    open spec fn kept_before(a: FactView, b: FactView) -> bool {
        a.recorded_at > b.recorded_at
    }

    proof fn lemma_keeping(a: FactView, b: FactView, c: FactView) {
    }

    fn key_of_name(t: &str) -> (r: String) {
        normalize_memory_fact_key(t)
    }

    fn name_texts(&self) -> (r: Vec<String>) {
        one_name(self.key.clone())
    }

    fn read(v: &Json, now: u64) -> (r: Option<Self>) {
        let key = normalize_memory_fact_key(trim(get_text(v, "key").as_str()).as_str());
        let value = sanitize_memory_fact_value(trim(get_text(v, "value").as_str()).as_str());
        if key.as_str().is_empty() || value.as_str().is_empty() {
            return None;
        }
        Some(MemoryFact { key, value, recorded_at: now })
    }

    fn take_in(v: &mut Vec<Self>, x: Self) {
        let ghost start = all_seen(v@);
        let ghost new = x@;
        match find_about(v, x.key.as_str()) {
            None => {
                v.push(x);
                assert(all_seen(v@) =~= start.push(new));
            },
            Some(i) => {
                assert(start[i as int] == v@[i as int]@);
                if !same(v[i].value.as_str(), x.value.as_str()) {
                    let y = MemoryFact {
                        key: v[i].key.clone(),
                        value: x.value,
                        recorded_at: x.recorded_at,
                    };
                    let ghost view = y@;
                    v.set(i, y);
                    assert(all_seen(v@) =~= start.update(i as int, view));
                }
            },
        }
    }

    fn goes_first(&self, other: &Self) -> (r: bool) {
        self.recorded_at > other.recorded_at
    }
}

/// The lesson that a value of a report gives.
pub open spec fn parsed_lesson(v: JsonView, now: u64) -> Option<LessonView> {
    let title = cleaned_text(text_at(v, "title"@), MAX_MEMORY_LESSON_TITLE_CHARS as nat);
    let when_to_apply = cleaned_text(
        text_at(v, "when_to_apply"@),
        MAX_MEMORY_LESSON_WHEN_CHARS as nat,
    );
    let recommendation = cleaned_text(
        text_at(v, "recommendation"@),
        MAX_MEMORY_LESSON_RECOMMENDATION_CHARS as nat,
    );
    if title.len() == 0 || when_to_apply.len() == 0 || recommendation.len() == 0 {
        None
    } else {
        Some(
            LessonView {
                title,
                when_to_apply,
                recommendation,
                scope: cleaned_text(text_at(v, "scope"@), MAX_MEMORY_SCOPE_CHARS as nat),
                confidence: confidence_named(opt_text_at(v, "confidence"@)),
                last_seen_at: now,
            },
        )
    }
}

/// The lesson that the value gives.
pub fn parse_memory_lesson_update(value: &Json, now: u64) -> (r: Option<MemoryLesson>)
    ensures
        match r {
            Some(x) => parsed_lesson(value@, now) == Some(x@),
            None => parsed_lesson(value@, now) is None,
        },
{
    let title = match sanitize_memory_lesson_title(get_text(value, "title").as_str()) {
        Some(s) => s,
        None => {
            return None;
        },
    };
    let when_to_apply = match sanitize_memory_lesson_when(
        get_text(value, "when_to_apply").as_str(),
    ) {
        Some(s) => s,
        None => {
            return None;
        },
    };
    let recommendation = match sanitize_memory_lesson_recommendation(
        get_text(value, "recommendation").as_str(),
    ) {
        Some(s) => s,
        None => {
            return None;
        },
    };
    Some(
        MemoryLesson {
            title,
            when_to_apply,
            recommendation,
            scope: sanitize_memory_scope(get_text(value, "scope").as_str()),
            confidence: MemoryConfidence::from_raw(find_text(value, "confidence")),
            last_seen_at: now,
        },
    )
}

impl Reported for MemoryLesson {
    open spec fn name_key(t: Seq<char>) -> Seq<char> {
        match_text(t)
    }

    open spec fn names(v: LessonView) -> Seq<Seq<char>> {
        seq![match_text(v.title), lesson_id(v)]
    }

    open spec fn parsed(v: JsonView, now: u64) -> Option<LessonView> {
        parsed_lesson(v, now)
    }

    open spec fn taken_in(v: Seq<LessonView>, x: LessonView) -> Seq<LessonView> {
        upserted::<MemoryLesson>(v, x)
    }

    open spec fn kept_before(a: LessonView, b: LessonView) -> bool {
        a.last_seen_at > b.last_seen_at || (a.last_seen_at == b.last_seen_at && text_before(
            a.title,
            b.title,
        ))
    }

    proof fn lemma_keeping(a: LessonView, b: LessonView, c: LessonView) {
        lemma_before_total(a.title, b.title);
        if text_before(a.title, c.title) {
            lemma_before_splits(a.title, b.title, c.title);
        }
    }

    fn key_of_name(t: &str) -> (r: String) {
        normalize_match_text(t)
    }

    fn name_texts(&self) -> (r: Vec<String>) {
        let mut v: Vec<String> = Vec::new();
        v.push(normalize_match_text(self.title.as_str()));
        v.push(lesson_identity(self));
        assert(texts(v@) =~= Self::names(self@));
        v
    }

    fn read(v: &Json, now: u64) -> (r: Option<Self>) {
        parse_memory_lesson_update(v, now)
    }

    fn take_in(v: &mut Vec<Self>, x: Self) {
        upsert(v, x);
    }

    fn goes_first(&self, other: &Self) -> (r: bool) {
        if self.last_seen_at != other.last_seen_at {
            return self.last_seen_at > other.last_seen_at;
        }
        before(self.title.as_str(), other.title.as_str())
    }
}

/// The open loop that a value of a report gives.
pub open spec fn parsed_loop(v: JsonView, now: u64) -> Option<LoopView> {
    let goal = cleaned_text(text_at(v, "goal"@), MAX_OPEN_LOOP_GOAL_CHARS as nat);
    let blocker = cleaned_text(text_at(v, "blocker"@), MAX_OPEN_LOOP_BLOCKER_CHARS as nat);
    let next_step = cleaned_text(text_at(v, "next_step"@), MAX_OPEN_LOOP_NEXT_STEP_CHARS as nat);
    if goal.len() == 0 || blocker.len() == 0 || next_step.len() == 0 {
        None
    } else {
        Some(
            LoopView {
                goal,
                blocker,
                next_step,
                status: loop_status_named(opt_text_at(v, "status"@)),
                updated_at: now,
            },
        )
    }
}

/// The open loop that the value gives.
pub fn parse_open_loop_update(value: &Json, now: u64) -> (r: Option<OpenLoop>)
    ensures
        match r {
            Some(x) => parsed_loop(value@, now) == Some(x@),
            None => parsed_loop(value@, now) is None,
        },
{
    let goal = match sanitize_open_loop_goal(get_text(value, "goal").as_str()) {
        Some(s) => s,
        None => {
            return None;
        },
    };
    let blocker = match sanitize_open_loop_blocker(get_text(value, "blocker").as_str()) {
        Some(s) => s,
        None => {
            return None;
        },
    };
    let next_step = match sanitize_open_loop_next_step(get_text(value, "next_step").as_str()) {
        Some(s) => s,
        None => {
            return None;
        },
    };
    Some(
        OpenLoop {
            goal,
            blocker,
            next_step,
            status: OpenLoopStatus::from_raw(find_text(value, "status")),
            updated_at: now,
        },
    )
}

impl Reported for OpenLoop {
    open spec fn name_key(t: Seq<char>) -> Seq<char> {
        match_text(t)
    }

    open spec fn names(v: LoopView) -> Seq<Seq<char>> {
        seq![match_text(v.goal)]
    }

    open spec fn parsed(v: JsonView, now: u64) -> Option<LoopView> {
        parsed_loop(v, now)
    }

    open spec fn taken_in(v: Seq<LoopView>, x: LoopView) -> Seq<LoopView> {
        upserted::<OpenLoop>(v, x)
    }

    open spec fn kept_before(a: LoopView, b: LoopView) -> bool {
        ||| loop_rank(a.status) > loop_rank(b.status)
        ||| (loop_rank(a.status) == loop_rank(b.status) && a.updated_at > b.updated_at)
        ||| (loop_rank(a.status) == loop_rank(b.status) && a.updated_at == b.updated_at
            && text_before(a.goal, b.goal))
    }

    proof fn lemma_keeping(a: LoopView, b: LoopView, c: LoopView) {
        lemma_before_total(a.goal, b.goal);
        if text_before(a.goal, c.goal) {
            lemma_before_splits(a.goal, b.goal, c.goal);
        }
    }

    fn key_of_name(t: &str) -> (r: String) {
        normalize_match_text(t)
    }

    fn name_texts(&self) -> (r: Vec<String>) {
        one_name(open_loop_identity(self))
    }

    fn read(v: &Json, now: u64) -> (r: Option<Self>) {
        parse_open_loop_update(v, now)
    }

    fn take_in(v: &mut Vec<Self>, x: Self) {
        upsert(v, x);
    }

    fn goes_first(&self, other: &Self) -> (r: bool) {
        let a: usize = self.status.rank();
        let b: usize = other.status.rank();
        if a != b {
            return a > b;
        }
        if self.updated_at != other.updated_at {
            return self.updated_at > other.updated_at;
        }
        before(self.goal.as_str(), other.goal.as_str())
    }
}

/// The command pattern that a value of a report gives.
pub open spec fn parsed_pattern(v: JsonView, now: u64) -> Option<PatternView> {
    let signature = cleaned_text(text_at(v, "signature"@), MAX_COMMAND_SIGNATURE_CHARS as nat);
    let purpose = cleaned_text(text_at(v, "purpose"@), MAX_COMMAND_PURPOSE_CHARS as nat);
    let outcome = cleaned_text(text_at(v, "outcome"@), MAX_COMMAND_OUTCOME_CHARS as nat);
    if signature.len() == 0 || purpose.len() == 0 || outcome.len() == 0 {
        None
    } else {
        Some(
            PatternView {
                signature,
                purpose,
                outcome,
                confidence: confidence_named(opt_text_at(v, "confidence"@)),
                last_seen_at: now,
            },
        )
    }
}

/// The command pattern that the value gives.
pub fn parse_command_pattern_update(value: &Json, now: u64) -> (r: Option<CommandPattern>)
    ensures
        match r {
            Some(x) => parsed_pattern(value@, now) == Some(x@),
            None => parsed_pattern(value@, now) is None,
        },
{
    let signature = match sanitize_command_signature(get_text(value, "signature").as_str()) {
        Some(s) => s,
        None => {
            return None;
        },
    };
    let purpose = match sanitize_command_purpose(get_text(value, "purpose").as_str()) {
        Some(s) => s,
        None => {
            return None;
        },
    };
    let outcome = match sanitize_command_outcome(get_text(value, "outcome").as_str()) {
        Some(s) => s,
        None => {
            return None;
        },
    };
    Some(
        CommandPattern {
            signature,
            purpose,
            outcome,
            confidence: MemoryConfidence::from_raw(find_text(value, "confidence")),
            last_seen_at: now,
        },
    )
}

impl Reported for CommandPattern {
    open spec fn name_key(t: Seq<char>) -> Seq<char> {
        match_text(t)
    }

    open spec fn names(v: PatternView) -> Seq<Seq<char>> {
        seq![match_text(v.signature)]
    }

    open spec fn parsed(v: JsonView, now: u64) -> Option<PatternView> {
        parsed_pattern(v, now)
    }

    open spec fn taken_in(v: Seq<PatternView>, x: PatternView) -> Seq<PatternView> {
        upserted::<CommandPattern>(v, x)
    }

    open spec fn kept_before(a: PatternView, b: PatternView) -> bool {
        a.last_seen_at > b.last_seen_at || (a.last_seen_at == b.last_seen_at && text_before(
            a.signature,
            b.signature,
        ))
    }

    proof fn lemma_keeping(a: PatternView, b: PatternView, c: PatternView) {
        lemma_before_total(a.signature, b.signature);
        if text_before(a.signature, c.signature) {
            lemma_before_splits(a.signature, b.signature, c.signature);
        }
    }

    fn key_of_name(t: &str) -> (r: String) {
        normalize_match_text(t)
    }

    fn name_texts(&self) -> (r: Vec<String>) {
        one_name(command_pattern_identity(self))
    }

    fn read(v: &Json, now: u64) -> (r: Option<Self>) {
        parse_command_pattern_update(v, now)
    }

    fn take_in(v: &mut Vec<Self>, x: Self) {
        upsert(v, x);
    }

    fn goes_first(&self, other: &Self) -> (r: bool) {
        if self.last_seen_at != other.last_seen_at {
            return self.last_seen_at > other.last_seen_at;
        }
        before(self.signature.as_str(), other.signature.as_str())
    }
}

/// The project signal that a value of a report gives.
pub open spec fn parsed_signal(v: JsonView, now: u64) -> Option<SignalView> {
    let key = fact_key(text_at(v, "key"@));
    let value = cleaned_text(text_at(v, "value"@), MAX_PROJECT_SIGNAL_VALUE_CHARS as nat);
    if key.len() == 0 || value.len() == 0 {
        None
    } else {
        Some(SignalView { key, value, recorded_at: now })
    }
}

/// The project signal that the value gives.
pub fn parse_project_signal_update(value: &Json, now: u64) -> (r: Option<ProjectSignal>)
    ensures
        match r {
            Some(x) => parsed_signal(value@, now) == Some(x@),
            None => parsed_signal(value@, now) is None,
        },
{
    let key = normalize_memory_fact_key(get_text(value, "key").as_str());
    let signal_value = sanitize_project_signal_value(get_text(value, "value").as_str());
    if key.as_str().is_empty() || signal_value.as_str().is_empty() {
        return None;
    }
    Some(ProjectSignal { key, value: signal_value, recorded_at: now })
}

impl Reported for ProjectSignal {
    open spec fn name_key(t: Seq<char>) -> Seq<char> {
        fact_key(t)
    }

    open spec fn names(v: SignalView) -> Seq<Seq<char>> {
        seq![v.key]
    }

    open spec fn parsed(v: JsonView, now: u64) -> Option<SignalView> {
        parsed_signal(v, now)
    }

    open spec fn taken_in(v: Seq<SignalView>, x: SignalView) -> Seq<SignalView> {
        upserted::<ProjectSignal>(v, x)
    }

    open spec fn kept_before(a: SignalView, b: SignalView) -> bool {
        a.recorded_at > b.recorded_at || (a.recorded_at == b.recorded_at && text_before(
            a.key,
            b.key,
        ))
    }

    proof fn lemma_keeping(a: SignalView, b: SignalView, c: SignalView) {
        lemma_before_total(a.key, b.key);
        if text_before(a.key, c.key) {
            lemma_before_splits(a.key, b.key, c.key);
        }
    }

    fn key_of_name(t: &str) -> (r: String) {
        normalize_memory_fact_key(t)
    }

    fn name_texts(&self) -> (r: Vec<String>) {
        one_name(self.key.clone())
    }

    fn read(v: &Json, now: u64) -> (r: Option<Self>) {
        parse_project_signal_update(v, now)
    }

    fn take_in(v: &mut Vec<Self>, x: Self) {
        upsert(v, x);
    }

    fn goes_first(&self, other: &Self) -> (r: bool) {
        if self.recorded_at != other.recorded_at {
            return self.recorded_at > other.recorded_at;
        }
        before(self.key.as_str(), other.key.as_str())
    }
}

// ---------------------------------------------------------------------------
// Merging
// ---------------------------------------------------------------------------

/// The report has an entry under `key`.
pub open spec fn has_key(raw: JsonView, key: Seq<char>) -> bool {
    member(raw, key) is Some
}

/// The report gives changes, not the whole memory.
pub open spec fn is_incremental(raw: JsonView) -> bool {
    has_key(raw, "update_facts"@) || has_key(raw, "delete_facts"@) || has_key(
        raw,
        "update_lessons"@,
    ) || has_key(raw, "delete_lessons"@) || has_key(raw, "update_open_loops"@) || has_key(
        raw,
        "delete_open_loops"@,
    ) || has_key(raw, "update_command_patterns"@) || has_key(raw, "delete_command_patterns"@)
        || has_key(raw, "update_project_signals"@) || has_key(raw, "delete_project_signals"@)
}

/// The user context after a report: an entry that is a text sets it, any other
/// clears it, and without an entry it stays.
pub open spec fn context_after(old: Option<Seq<char>>, raw: JsonView) -> Option<Seq<char>> {
    match member(raw, "user_context"@) {
        Some(JsonView::Text(t)) => unless_empty(
            cleaned_text(t, MAX_MEMORY_USER_CONTEXT_CHARS as nat),
        ),
        Some(_) => None,
        None => old,
    }
}

/// The memory after a report.
pub open spec fn merged_memory(m: MemoryView, raw: JsonView, now: u64) -> MemoryView {
    let d = deduped_memory(m);
    let incremental = is_incremental(raw);
    deduped_memory(
        MemoryView {
            user_context: context_after(d.user_context, raw),
            facts: list_after::<MemoryFact>(
                d.facts,
                raw,
                incremental,
                "update_facts"@,
                "delete_facts"@,
                "facts"@,
                now,
            ),
            lessons: list_after::<MemoryLesson>(
                d.lessons,
                raw,
                incremental,
                "update_lessons"@,
                "delete_lessons"@,
                "lessons"@,
                now,
            ),
            open_loops: list_after::<OpenLoop>(
                d.open_loops,
                raw,
                incremental,
                "update_open_loops"@,
                "delete_open_loops"@,
                "open_loops"@,
                now,
            ),
            command_patterns: list_after::<CommandPattern>(
                d.command_patterns,
                raw,
                incremental,
                "update_command_patterns"@,
                "delete_command_patterns"@,
                "command_patterns"@,
                now,
            ),
            project_signals: list_after::<ProjectSignal>(
                d.project_signals,
                raw,
                incremental,
                "update_project_signals"@,
                "delete_project_signals"@,
                "project_signals"@,
                now,
            ),
            updated_at: d.updated_at,
        },
    )
}

fn incremental_report(raw: &Json) -> (r: bool)
    ensures
        r == is_incremental(raw@),
{
    raw.get("update_facts").is_some() || raw.get("delete_facts").is_some() || raw.get(
        "update_lessons",
    ).is_some() || raw.get("delete_lessons").is_some() || raw.get("update_open_loops").is_some()
        || raw.get("delete_open_loops").is_some() || raw.get("update_command_patterns").is_some()
        || raw.get("delete_command_patterns").is_some() || raw.get(
        "update_project_signals",
    ).is_some() || raw.get("delete_project_signals").is_some()
}

/// Merges a model's report into the memory.
///
/// A report with any entry for changes only touches what it mentions; one
/// without replaces every list that it gives. The user context changes only
/// where the report has an entry for it.
pub fn merge_llm_response_into_memory(memory: &mut StructuredMemory, raw: &Json, now: u64)
    ensures
        final(memory)@ == merged_memory(old(memory)@, raw@, now),
{
    dedupe_structured_memory(memory);
    if let Some(ctx) = raw.get("user_context") {
        memory.user_context = match ctx.as_str() {
            Some(t) => sanitize_user_context_value(t),
            None => None,
        };
    }
    let incremental: bool = incremental_report(raw);
    assert(all_seen(memory.facts@) =~= memory@.facts);
    update_list(
        &mut memory.facts,
        raw,
        incremental,
        "update_facts",
        "delete_facts",
        "facts",
        now,
    );
    assert(all_seen(memory.facts@) =~= memory@.facts);
    assert(all_seen(memory.lessons@) =~= memory@.lessons);
    update_list(
        &mut memory.lessons,
        raw,
        incremental,
        "update_lessons",
        "delete_lessons",
        "lessons",
        now,
    );
    assert(all_seen(memory.lessons@) =~= memory@.lessons);
    assert(all_seen(memory.open_loops@) =~= memory@.open_loops);
    update_list(
        &mut memory.open_loops,
        raw,
        incremental,
        "update_open_loops",
        "delete_open_loops",
        "open_loops",
        now,
    );
    assert(all_seen(memory.open_loops@) =~= memory@.open_loops);
    assert(all_seen(memory.command_patterns@) =~= memory@.command_patterns);
    update_list(
        &mut memory.command_patterns,
        raw,
        incremental,
        "update_command_patterns",
        "delete_command_patterns",
        "command_patterns",
        now,
    );
    assert(all_seen(memory.command_patterns@) =~= memory@.command_patterns);
    assert(all_seen(memory.project_signals@) =~= memory@.project_signals);
    update_list(
        &mut memory.project_signals,
        raw,
        incremental,
        "update_project_signals",
        "delete_project_signals",
        "project_signals",
        now,
    );
    assert(all_seen(memory.project_signals@) =~= memory@.project_signals);
    dedupe_structured_memory(memory);
}

/// After any report no list of the memory has two records on one subject.
pub proof fn law_merged_memory_unique(m: MemoryView, raw: JsonView, now: u64)
    ensures
        ({
            let n = merged_memory(m, raw, now);
            &&& subjects_unique::<MemoryFact>(n.facts)
            &&& subjects_unique::<MemoryLesson>(n.lessons)
            &&& subjects_unique::<OpenLoop>(n.open_loops)
            &&& subjects_unique::<CommandPattern>(n.command_patterns)
            &&& subjects_unique::<ProjectSignal>(n.project_signals)
        }),
{
    let d = deduped_memory(m);
    let i = is_incremental(raw);
    let facts = list_after::<MemoryFact>(
        d.facts,
        raw,
        i,
        "update_facts"@,
        "delete_facts"@,
        "facts"@,
        now,
    );
    law_deduped_unique::<MemoryFact>(facts, facts.len() as int);
    let lessons = list_after::<MemoryLesson>(
        d.lessons,
        raw,
        i,
        "update_lessons"@,
        "delete_lessons"@,
        "lessons"@,
        now,
    );
    law_deduped_unique::<MemoryLesson>(lessons, lessons.len() as int);
    let loops = list_after::<OpenLoop>(
        d.open_loops,
        raw,
        i,
        "update_open_loops"@,
        "delete_open_loops"@,
        "open_loops"@,
        now,
    );
    law_deduped_unique::<OpenLoop>(loops, loops.len() as int);
    let patterns = list_after::<CommandPattern>(
        d.command_patterns,
        raw,
        i,
        "update_command_patterns"@,
        "delete_command_patterns"@,
        "command_patterns"@,
        now,
    );
    law_deduped_unique::<CommandPattern>(patterns, patterns.len() as int);
    let signals = list_after::<ProjectSignal>(
        d.project_signals,
        raw,
        i,
        "update_project_signals"@,
        "delete_project_signals"@,
        "project_signals"@,
        now,
    );
    law_deduped_unique::<ProjectSignal>(signals, signals.len() as int);
}

/// A report without an entry for the user context leaves it alone.
pub proof fn law_context_kept(m: MemoryView, raw: JsonView, now: u64)
    requires
        !has_key(raw, "user_context"@),
    ensures
        merged_memory(m, raw, now).user_context == m.user_context,
{
}

// ---------------------------------------------------------------------------
// Limits
// ---------------------------------------------------------------------------

/// `v` with `x` before the first record that it is kept before.
pub open spec fn kept_in<T: Reported>(v: Seq<T::V>, x: T::V) -> Seq<T::V>
    decreases v.len(),
{
    if v.len() == 0 {
        seq![x]
    } else if T::kept_before(x, v[0]) {
        seq![x] + v
    } else {
        seq![v[0]] + kept_in::<T>(v.skip(1), x)
    }
}

/// The first `n` records in the order in which they are kept; equal ones keep
/// their order.
pub open spec fn in_keeping_order<T: Reported>(v: Seq<T::V>, n: int) -> Seq<T::V>
    decreases n,
{
    if n <= 0 {
        Seq::empty()
    } else {
        kept_in::<T>(in_keeping_order::<T>(v, n - 1), v[n - 1])
    }
}

/// A list within its limit: as it is where it fits, else the first records in
/// the order in which they are kept.
pub open spec fn capped<T: Reported>(v: Seq<T::V>, max: nat) -> Seq<T::V> {
    if v.len() <= max {
        v
    } else {
        in_keeping_order::<T>(v, v.len() as int).take(max as int)
    }
}

fn keep_in<T: Reported>(v: &mut Vec<T>, x: T)
    ensures
        all_seen(final(v)@) == kept_in::<T>(all_seen(old(v)@), x.seen()),
{
    let ghost start = all_seen(v@);
    let ghost view = x.seen();
    let mut i: usize = 0;
    assert(start.skip(0) =~= start);
    assert(start.take(0) + kept_in::<T>(start.skip(0), view) =~= kept_in::<T>(start, view));
    while i < v.len()
        invariant
            i <= v@.len(),
            view == x.seen(),
            all_seen(v@) == start,
            v@ == old(v)@,
            start.take(i as int) + kept_in::<T>(start.skip(i as int), view) == kept_in::<T>(
                start,
                view,
            ),
        decreases v@.len() - i,
    {
        let ghost rest = start.skip(i as int);
        assert(rest[0] == v@[i as int].seen());
        if x.goes_first(&v[i]) {
            v.insert(i, x);
            assert(all_seen(v@) =~= start.insert(i as int, view));
            assert(start.take(i as int) + (seq![view] + rest) =~= start.insert(i as int, view));
            return;
        }
        assert(rest.skip(1) =~= start.skip(i + 1));
        assert(start.take(i as int) + (seq![rest[0]] + kept_in::<T>(rest.skip(1), view))
            =~= start.take(i + 1) + kept_in::<T>(start.skip(i + 1), view));
        i = i + 1;
    }
    v.push(x);
    assert(start.skip(i as int) =~= Seq::<T::V>::empty());
    assert(all_seen(v@) =~= start.push(view));
    assert(start.take(i as int) + seq![view] =~= start.push(view));
}

proof fn lemma_keeping_order_len<T: Reported>(v: Seq<T::V>, n: int)
    requires
        0 <= n,
    ensures
        in_keeping_order::<T>(v, n).len() == n,
    decreases n,
{
    if n > 0 {
        lemma_keeping_order_len::<T>(v, n - 1);
        lemma_kept_in_len::<T>(in_keeping_order::<T>(v, n - 1), v[n - 1]);
    }
}

proof fn lemma_kept_in_len<T: Reported>(v: Seq<T::V>, x: T::V)
    ensures
        kept_in::<T>(v, x).len() == v.len() + 1,
    decreases v.len(),
{
    if v.len() > 0 && !T::kept_before(x, v[0]) {
        lemma_kept_in_len::<T>(v.skip(1), x);
    }
}

/// Brings a list within its limit.
pub fn cap<T: Reported>(v: &mut Vec<T>, max: usize)
    ensures
        all_seen(final(v)@) == capped::<T>(all_seen(old(v)@), max as nat),
        final(v)@.len() <= max,
{
    if v.len() <= max {
        return;
    }
    let mut sorted: Vec<T> = Vec::new();
    let mut n: usize = 0;
    assert(all_seen(sorted@) =~= Seq::<T::V>::empty());
    while n < v.len()
        invariant
            n <= v@.len(),
            v@ == old(v)@,
            all_seen(sorted@) == in_keeping_order::<T>(all_seen(v@), n as int),
        decreases v@.len() - n,
    {
        assert(all_seen(v@)[n as int] == v@[n as int].seen());
        keep_in(&mut sorted, v[n].copy());
        n = n + 1;
    }
    let ghost all = all_seen(sorted@);
    proof {
        lemma_keeping_order_len::<T>(all_seen(v@), v@.len() as int);
        assert(all.len() == sorted@.len());
    }
    sorted.truncate(max);
    assert(all_seen(sorted@) =~= all.take(max as int));
    *v = sorted;
}

/// The memory with every list within its limit.
pub open spec fn capped_memory(m: MemoryView) -> MemoryView {
    MemoryView {
        facts: capped::<MemoryFact>(m.facts, MAX_MEMORY_FACTS as nat),
        lessons: capped::<MemoryLesson>(m.lessons, MAX_MEMORY_LESSONS as nat),
        open_loops: capped::<OpenLoop>(m.open_loops, MAX_MEMORY_OPEN_LOOPS as nat),
        command_patterns: capped::<CommandPattern>(
            m.command_patterns,
            MAX_MEMORY_COMMAND_PATTERNS as nat,
        ),
        project_signals: capped::<ProjectSignal>(
            m.project_signals,
            MAX_MEMORY_PROJECT_SIGNALS as nat,
        ),
        ..m
    }
}

/// Brings every list of the memory within its limit.
pub fn cap_memory(memory: &mut StructuredMemory)
    ensures
        final(memory)@ == capped_memory(old(memory)@),
{
    assert(all_seen(memory.facts@) =~= memory@.facts);
    cap(&mut memory.facts, MAX_MEMORY_FACTS);
    assert(all_seen(memory.facts@) =~= memory@.facts);
    assert(all_seen(memory.lessons@) =~= memory@.lessons);
    cap(&mut memory.lessons, MAX_MEMORY_LESSONS);
    assert(all_seen(memory.lessons@) =~= memory@.lessons);
    assert(all_seen(memory.open_loops@) =~= memory@.open_loops);
    cap(&mut memory.open_loops, MAX_MEMORY_OPEN_LOOPS);
    assert(all_seen(memory.open_loops@) =~= memory@.open_loops);
    assert(all_seen(memory.command_patterns@) =~= memory@.command_patterns);
    cap(&mut memory.command_patterns, MAX_MEMORY_COMMAND_PATTERNS);
    assert(all_seen(memory.command_patterns@) =~= memory@.command_patterns);
    assert(all_seen(memory.project_signals@) =~= memory@.project_signals);
    cap(&mut memory.project_signals, MAX_MEMORY_PROJECT_SIGNALS);
    assert(all_seen(memory.project_signals@) =~= memory@.project_signals);
}

proof fn lemma_capped_len<T: Reported>(v: Seq<T::V>, max: nat)
    ensures
        capped::<T>(v, max).len() <= max,
{
    if v.len() > max {
        lemma_keeping_order_len::<T>(v, v.len() as int);
    }
}

/// A capped memory is within all its limits.
pub proof fn law_capped_memory_bounded(m: MemoryView)
    ensures
        ({
            let c = capped_memory(m);
            &&& c.facts.len() <= MAX_MEMORY_FACTS
            &&& c.lessons.len() <= MAX_MEMORY_LESSONS
            &&& c.open_loops.len() <= MAX_MEMORY_OPEN_LOOPS
            &&& c.command_patterns.len() <= MAX_MEMORY_COMMAND_PATTERNS
            &&& c.project_signals.len() <= MAX_MEMORY_PROJECT_SIGNALS
        }),
{
    lemma_capped_len::<MemoryFact>(m.facts, MAX_MEMORY_FACTS as nat);
    lemma_capped_len::<MemoryLesson>(m.lessons, MAX_MEMORY_LESSONS as nat);
    lemma_capped_len::<OpenLoop>(m.open_loops, MAX_MEMORY_OPEN_LOOPS as nat);
    lemma_capped_len::<CommandPattern>(m.command_patterns, MAX_MEMORY_COMMAND_PATTERNS as nat);
    lemma_capped_len::<ProjectSignal>(m.project_signals, MAX_MEMORY_PROJECT_SIGNALS as nat);
}

/// No record stands behind one that it is kept before.
pub open spec fn is_kept_order<T: Reported>(v: Seq<T::V>) -> bool {
    forall|i: int, j: int|
        0 <= i < j < v.len() ==> !T::kept_before(#[trigger] v[j], #[trigger] v[i])
}

proof fn lemma_kept_in_order<T: Reported>(v: Seq<T::V>, x: T::V)
    requires
        is_kept_order::<T>(v),
    ensures
        is_kept_order::<T>(kept_in::<T>(v, x)),
        forall|k: int|
            0 <= k < kept_in::<T>(v, x).len() ==> #[trigger] kept_in::<T>(v, x)[k] == x
                || v.contains(kept_in::<T>(v, x)[k]),
        kept_in::<T>(v, x).to_multiset() == v.to_multiset().insert(x),
    decreases v.len(),
{
    broadcast use vstd::seq_lib::group_to_multiset_ensures;

    let w = kept_in::<T>(v, x);
    if v.len() == 0 {
        assert(w =~= v.push(x));
    } else if T::kept_before(x, v[0]) {
        assert(w =~= v.insert(0, x));
        assert forall|i: int, j: int| 0 <= i < j < w.len() implies !T::kept_before(
            #[trigger] w[j],
            #[trigger] w[i],
        ) by {
            assert(w[j] == v[j - 1]);
            if i == 0 {
                T::lemma_keeping(v[j - 1], v[0], x);
                T::lemma_keeping(x, v[0], x);
                T::lemma_keeping(v[0], v[0], v[0]);
            } else {
                assert(w[i] == v[i - 1]);
            }
        }
        assert forall|k: int| 0 <= k < w.len() implies #[trigger] w[k] == x || v.contains(w[k]) by {
            if k > 0 {
                assert(w[k] == v[k - 1]);
            }
        }
        assert(w.to_multiset() =~= v.to_multiset().insert(x));
    } else {
        let rest = v.skip(1);
        assert forall|i: int, j: int| 0 <= i < j < rest.len() implies !T::kept_before(
            #[trigger] rest[j],
            #[trigger] rest[i],
        ) by {
            assert(rest[j] == v[j + 1] && rest[i] == v[i + 1]);
        }
        lemma_kept_in_order::<T>(rest, x);
        let t = kept_in::<T>(rest, x);
        assert(w =~= t.insert(0, v[0]));
        assert(v =~= rest.insert(0, v[0]));
        assert forall|k: int| 0 <= k < t.len() implies !T::kept_before(#[trigger] t[k], v[0]) by {
            if t[k] != x {
                let m = choose|m: int| 0 <= m < rest.len() && rest[m] == t[k];
                assert(rest[m] == v[m + 1]);
            }
        }
        assert forall|i: int, j: int| 0 <= i < j < w.len() implies !T::kept_before(
            #[trigger] w[j],
            #[trigger] w[i],
        ) by {
            assert(w[j] == t[j - 1]);
            if i > 0 {
                assert(w[i] == t[i - 1]);
            }
        }
        assert forall|k: int| 0 <= k < w.len() implies #[trigger] w[k] == x || v.contains(w[k]) by {
            if k == 0 {
                assert(w[0] == v[0]);
            } else {
                assert(w[k] == t[k - 1]);
                if t[k - 1] != x {
                    let m = choose|m: int| 0 <= m < rest.len() && rest[m] == t[k - 1];
                    assert(v[m + 1] == w[k]);
                }
            }
        }
        assert(w.to_multiset() =~= v.to_multiset().insert(x));
    }
}

/// The order in which records are kept is an order, and holds exactly the
/// records that went in, each as often as it did.
pub proof fn law_keeping_order<T: Reported>(v: Seq<T::V>, n: int)
    requires
        0 <= n <= v.len(),
    ensures
        is_kept_order::<T>(in_keeping_order::<T>(v, n)),
        in_keeping_order::<T>(v, n).to_multiset() == v.take(n).to_multiset(),
    decreases n,
{
    broadcast use vstd::seq_lib::group_to_multiset_ensures;

    if n > 0 {
        law_keeping_order::<T>(v, n - 1);
        lemma_kept_in_order::<T>(in_keeping_order::<T>(v, n - 1), v[n - 1]);
        assert(v.take(n) =~= v.take(n - 1).push(v[n - 1]));
    } else {
        assert(v.take(0) =~= Seq::<T::V>::empty());
    }
}

/// What a limit drops and what it keeps are together the records that there
/// were, and no dropped record is kept before one that stays.
pub proof fn law_limit_keeps_the_first<T: Reported>(v: Seq<T::V>, max: nat)
    requires
        v.len() > max,
    ensures
        ({
            let kept = capped::<T>(v, max);
            let dropped = in_keeping_order::<T>(v, v.len() as int).skip(max as int);
            &&& kept.len() == max
            &&& (kept + dropped).to_multiset() == v.to_multiset()
            &&& forall|i: int, j: int|
                0 <= i < kept.len() && 0 <= j < dropped.len() ==> !T::kept_before(
                    #[trigger] dropped[j],
                    #[trigger] kept[i],
                )
        }),
{
    let all = in_keeping_order::<T>(v, v.len() as int);
    let kept = capped::<T>(v, max);
    let dropped = all.skip(max as int);
    law_keeping_order::<T>(v, v.len() as int);
    lemma_keeping_order_len::<T>(v, v.len() as int);
    assert(v.take(v.len() as int) =~= v);
    assert(kept + dropped =~= all);
    assert forall|i: int, j: int|
        0 <= i < kept.len() && 0 <= j < dropped.len() implies !T::kept_before(
        #[trigger] dropped[j],
        #[trigger] kept[i],
    ) by {
        assert(dropped[j] == all[max + j] && kept[i] == all[i]);
    }
}

} // verus!
