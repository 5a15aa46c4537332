//! What the memory has to say on the task at hand.

use crate::memory::clean::{
    clean_text, cleaned_text, match_text, normalize_match_text, normalize_memory_whitespace,
    sanitize_memory_text_value, spaced, unless_empty,
};
use crate::memory::model::{
    CommandPattern, FactView, LessonView, LoopView, MemoryFact, MemoryLesson, MemoryView,
    OpenLoop, PatternView, ProjectSignal, RetrievedTaskMemory, RetrievedView, SignalView,
    StructuredMemory, confidence_label, facts_view, lessons_view, loop_status_label, loops_view,
    memory_empty, patterns_view, retrieved_nothing, signals_view,
};
use crate::memory::prompt::{push_section, section};
use crate::memory::records::all_seen;
use crate::memory::select::{
    MemoryQuery, QueryView, opt_query, select_task_items, task_picked, unresolved,
    unresolved_loops,
};
use crate::text::{
    ascii_lower, begins, byte_count, byte_len, chars_of, concat3, contains_text, ends, ends_with,
    join, joined, opt_str, opt_text, owned, same, split_words, starts_with, strip_back,
    strip_front, texts, to_ascii_lower, trim, trim_chars, trim_end_chars, trimmed, truncate,
    truncated, words,
};
use vstd::prelude::*;
use vstd::string::*;

verus! {

/// What kind of task the user set.
#[derive(Clone, Copy, Debug, PartialEq, Eq, Structural)]
pub enum TaskIntent {
    Inform,
    Change,
    Investigate,
    Execute,
}

/// Something the agent is not sure of.
#[derive(Debug, PartialEq, Eq)]
pub struct Uncertainty {
    pub topic: String,
    pub reason: String,
    pub blocking: bool,
}

#[verifier::ext_equal]
pub struct UncertaintyView {
    pub topic: Seq<char>,
    pub reason: Seq<char>,
    pub blocking: bool,
}

impl Uncertainty {
    pub open spec fn view(self) -> UncertaintyView {
        UncertaintyView { topic: self.topic@, reason: self.reason@, blocking: self.blocking }
    }
}

/// Something the agent found out, and where.
#[derive(Debug, PartialEq, Eq)]
pub struct Finding {
    pub claim: String,
    pub source_ref: String,
}

#[verifier::ext_equal]
pub struct FindingView {
    pub claim: Seq<char>,
    pub source_ref: Seq<char>,
}

impl Finding {
    pub open spec fn view(self) -> FindingView {
        FindingView { claim: self.claim@, source_ref: self.source_ref@ }
    }
}

/// What the agent knows of its task while it works.
#[derive(Debug, PartialEq, Eq)]
pub struct WorkingState {
    pub intent: TaskIntent,
    pub primary_goal: Option<String>,
    pub open_questions: Vec<String>,
    pub uncertainties: Vec<Uncertainty>,
    pub next_actions: Vec<String>,
    pub completed_steps: Vec<String>,
    pub evidence: Vec<Finding>,
}

#[verifier::ext_equal]
pub struct StateView {
    pub intent: TaskIntent,
    pub primary_goal: Option<Seq<char>>,
    pub open_questions: Seq<Seq<char>>,
    pub uncertainties: Seq<UncertaintyView>,
    pub next_actions: Seq<Seq<char>>,
    pub completed_steps: Seq<Seq<char>>,
    pub evidence: Seq<FindingView>,
}

pub open spec fn uncertainties_view(v: Seq<Uncertainty>) -> Seq<UncertaintyView> {
    v.map_values(|u: Uncertainty| u@)
}

pub open spec fn findings_view(v: Seq<Finding>) -> Seq<FindingView> {
    v.map_values(|f: Finding| f@)
}

impl WorkingState {
    pub open spec fn view(self) -> StateView {
        StateView {
            intent: self.intent,
            primary_goal: opt_text(self.primary_goal),
            open_questions: texts(self.open_questions@),
            uncertainties: uncertainties_view(self.uncertainties@),
            next_actions: texts(self.next_actions@),
            completed_steps: texts(self.completed_steps@),
            evidence: findings_view(self.evidence@),
        }
    }
}

/// The state behind an optional state.
pub open spec fn opt_state(s: Option<&WorkingState>) -> Option<StateView> {
    match s {
        Some(x) => Some(x@),
        None => None,
    }
}

/// How many records of each kind a task gets.
#[derive(Clone, Copy, Debug, PartialEq, Eq, Structural)]
pub struct TaskMemoryCaps {
    pub lessons: usize,
    pub open_loops: usize,
    pub command_patterns: usize,
    pub project_signals: usize,
    pub facts: usize,
}

/// How many records of each kind a task of this kind gets.
pub open spec fn caps_for(intent: TaskIntent) -> TaskMemoryCaps {
    match intent {
        TaskIntent::Inform => TaskMemoryCaps {
            lessons: 1,
            open_loops: 1,
            command_patterns: 1,
            project_signals: 2,
            facts: 2,
        },
        TaskIntent::Change => TaskMemoryCaps {
            lessons: 2,
            open_loops: 2,
            command_patterns: 2,
            project_signals: 2,
            facts: 1,
        },
        TaskIntent::Investigate => TaskMemoryCaps {
            lessons: 2,
            open_loops: 2,
            command_patterns: 1,
            project_signals: 2,
            facts: 2,
        },
        TaskIntent::Execute => TaskMemoryCaps {
            lessons: 1,
            open_loops: 2,
            command_patterns: 2,
            project_signals: 2,
            facts: 1,
        },
    }
}

/// How many records of each kind a task of this kind gets.
pub fn task_memory_caps(intent: TaskIntent) -> (r: TaskMemoryCaps)
    ensures
        r == caps_for(intent),
{
    match intent {
        TaskIntent::Inform => TaskMemoryCaps {
            lessons: 1,
            open_loops: 1,
            command_patterns: 1,
            project_signals: 2,
            facts: 2,
        },
        TaskIntent::Change => TaskMemoryCaps {
            lessons: 2,
            open_loops: 2,
            command_patterns: 2,
            project_signals: 2,
            facts: 1,
        },
        TaskIntent::Investigate => TaskMemoryCaps {
            lessons: 2,
            open_loops: 2,
            command_patterns: 1,
            project_signals: 2,
            facts: 2,
        },
        TaskIntent::Execute => TaskMemoryCaps {
            lessons: 1,
            open_loops: 2,
            command_patterns: 2,
            project_signals: 2,
            facts: 1,
        },
    }
}

// ---------------------------------------------------------------------------
// The query
// ---------------------------------------------------------------------------

/// A list with one more text, unless that is empty.
pub open spec fn push_some(v: Seq<Seq<char>>, t: Seq<char>) -> Seq<Seq<char>> {
    if t.len() == 0 {
        v
    } else {
        v.push(t)
    }
}

/// Appends to `v` the last `n` texts, the last first, each in its bounded form,
/// without the empty ones.
pub open spec fn with_recent(v: Seq<Seq<char>>, from: Seq<Seq<char>>, n: nat, max: nat) -> Seq<
    Seq<char>,
>
    decreases n,
{
    if n == 0 || from.len() == 0 {
        v
    } else {
        with_recent(
            push_some(v, cleaned_text(from.last(), max)),
            from.drop_last(),
            (n - 1) as nat,
            max,
        )
    }
}

/// What an uncertainty adds to a query.
pub open spec fn doubt_text(u: UncertaintyView) -> Seq<char> {
    trimmed(cleaned_text(u.topic, 80) + " "@ + cleaned_text(u.reason, 120))
}

/// Appends to `v` the last `n` uncertainties that block the work, the last
/// first.
pub open spec fn with_doubts(v: Seq<Seq<char>>, from: Seq<UncertaintyView>, n: nat) -> Seq<
    Seq<char>,
>
    decreases from.len(),
{
    if n == 0 || from.len() == 0 {
        v
    } else if from.last().blocking {
        with_doubts(push_some(v, doubt_text(from.last())), from.drop_last(), (n - 1) as nat)
    } else {
        with_doubts(v, from.drop_last(), n)
    }
}

/// What a finding adds to a query.
pub open spec fn finding_text(f: FindingView) -> Seq<char> {
    if trimmed(f.source_ref).len() == 0 {
        f.claim
    } else {
        f.claim + " "@ + f.source_ref
    }
}

/// What the state of the work adds to a query.
pub open spec fn with_state(v: Seq<Seq<char>>, s: StateView) -> Seq<Seq<char>> {
    let goal = match s.primary_goal {
        Some(g) => cleaned_text(g, 200),
        None => Seq::empty(),
    };
    let v = if goal.len() == 0 || v.contains(goal) {
        v
    } else {
        v.push(goal)
    };
    let v = with_recent(v, s.open_questions, 2, 160);
    let v = with_doubts(v, s.uncertainties, 2);
    let v = with_recent(v, s.next_actions, 2, 160);
    let v = with_recent(v, s.completed_steps, 2, 160);
    with_recent(v, s.evidence.map_values(|f: FindingView| finding_text(f)), 2, 180)
}

/// The query that the memory is searched with.
pub open spec fn task_query(q: Option<Seq<char>>, s: Option<StateView>) -> Option<Seq<char>> {
    let v = match q {
        Some(t) => push_some(Seq::empty(), cleaned_text(t, 600)),
        None => Seq::empty(),
    };
    let v = match s {
        Some(x) => with_state(v, x),
        None => v,
    };
    unless_empty(cleaned_text(joined(v, " "@), 600))
}

fn push_clean(v: &mut Vec<String>, t: String)
    ensures
        texts(final(v)@) == push_some(texts(old(v)@), t@),
{
    let ghost start = texts(v@);
    let ghost view = t@;
    if !t.as_str().is_empty() {
        v.push(t);
        assert(texts(v@) =~= start.push(view));
    }
}

fn push_recent(v: &mut Vec<String>, from: &Vec<String>, n: usize, max: usize)
    ensures
        texts(final(v)@) == with_recent(
            texts(old(v)@),
            texts(from@),
            n as nat,
            max as nat,
        ),
{
    let mut left: usize = n;
    let mut k: usize = from.len();
    assert(texts(from@).take(k as int) =~= texts(from@));
    while left > 0 && k > 0
        invariant
            k <= from@.len(),
            with_recent(
                texts(v@),
                texts(from@).take(k as int),
                left as nat,
                max as nat,
            ) == with_recent(texts(old(v)@), texts(from@), n as nat, max as nat),
        decreases k,
    {
        let ghost rest = texts(from@).take(k as int);
        assert(rest.last() == from@[k - 1]@);
        assert(rest.drop_last() =~= texts(from@).take(k - 1));
        push_clean(v, clean_text(from[k - 1].as_str(), max));
        left = left - 1;
        k = k - 1;
    }
}

fn push_doubts(v: &mut Vec<String>, from: &Vec<Uncertainty>, n: usize)
    ensures
        texts(final(v)@) == with_doubts(texts(old(v)@), uncertainties_view(from@), n as nat),
{
    let mut left: usize = n;
    let mut k: usize = from.len();
    assert(uncertainties_view(from@).take(k as int) =~= uncertainties_view(from@));
    while left > 0 && k > 0
        invariant
            k <= from@.len(),
            with_doubts(
                texts(v@),
                uncertainties_view(from@).take(k as int),
                left as nat,
            ) == with_doubts(texts(old(v)@), uncertainties_view(from@), n as nat),
        decreases k,
    {
        let ghost rest = uncertainties_view(from@).take(k as int);
        let u = &from[k - 1];
        assert(rest.last() == u@);
        assert(rest.drop_last() =~= uncertainties_view(from@).take(k - 1));
        if u.blocking {
            let topic = clean_text(u.topic.as_str(), 80);
            let reason = clean_text(u.reason.as_str(), 120);
            let combined = concat3(topic.as_str(), " ", reason.as_str());
            push_clean(v, trim(combined.as_str()));
            left = left - 1;
        }
        k = k - 1;
    }
}

fn finding_texts(from: &Vec<Finding>) -> (r: Vec<String>)
    ensures
        texts(r@) == findings_view(from@).map_values(|f: FindingView| finding_text(f)),
{
    let mut r: Vec<String> = Vec::new();
    let mut i: usize = 0;
    while i < from.len()
        invariant
            i <= from@.len(),
            r@.len() == i,
            forall|j: int| 0 <= j < i ==> (#[trigger] r@[j])@ == finding_text(from@[j]@),
        decreases from@.len() - i,
    {
        let f = &from[i];
        if trim(f.source_ref.as_str()).as_str().is_empty() {
            r.push(f.claim.clone());
        } else {
            r.push(concat3(f.claim.as_str(), " ", f.source_ref.as_str()));
        }
        i = i + 1;
    }
    assert(texts(r@) =~= findings_view(from@).map_values(|f: FindingView| finding_text(f)));
    r
}

fn push_state(v: &mut Vec<String>, s: &WorkingState)
    ensures
        texts(final(v)@) == with_state(texts(old(v)@), s@),
{
    let goal = match &s.primary_goal {
        Some(g) => clean_text(g.as_str(), 200),
        None => String::new(),
    };
    let ghost start = texts(v@);
    assert(s.primary_goal is None ==> goal@.len() == 0);
    if !goal.as_str().is_empty() && !contains_text(v, goal.as_str()) {
        let ghost view = goal@;
        v.push(goal);
        assert(texts(v@) =~= start.push(view));
    }
    push_recent(v, &s.open_questions, 2, 160);
    push_doubts(v, &s.uncertainties, 2);
    push_recent(v, &s.next_actions, 2, 160);
    push_recent(v, &s.completed_steps, 2, 160);
    let found = finding_texts(&s.evidence);
    push_recent(v, &found, 2, 180);
}

/// The query that the memory is searched with for a task.
pub fn build_task_memory_query(current_query: Option<&str>, state: Option<&WorkingState>) -> (r:
    Option<String>)
    ensures
        opt_text(r) == task_query(opt_str(current_query), opt_state(state)),
{
    let mut parts: Vec<String> = Vec::new();
    assert(texts(parts@) =~= Seq::empty());
    if let Some(q) = current_query {
        push_clean(&mut parts, clean_text(q, 600));
    }
    if let Some(s) = state {
        push_state(&mut parts, s);
    }
    sanitize_memory_text_value(join(&parts, " ").as_str(), 600)
}

/// The kind of the task: that of the running work, else what the query was
/// classified as.
pub open spec fn intent_of(s: Option<StateView>, classified: TaskIntent) -> TaskIntent {
    match s {
        Some(x) => x.intent,
        None => classified,
    }
}

fn task_intent(state: Option<&WorkingState>, classified: TaskIntent) -> (r: TaskIntent)
    ensures
        r == intent_of(opt_state(state), classified),
{
    match state {
        Some(s) => s.intent,
        None => classified,
    }
}

/// The name of a kind of task.
pub open spec fn intent_tag(i: TaskIntent) -> Seq<char> {
    match i {
        TaskIntent::Inform => "inform"@,
        TaskIntent::Change => "change"@,
        TaskIntent::Investigate => "investigate"@,
        TaskIntent::Execute => "execute"@,
    }
}

/// The key under which what was picked for a task is cached: the kind of task
/// and the query. `classified` is what the query alone was classified as.
pub fn task_memory_cache_key(
    current_query: Option<&str>,
    state: Option<&WorkingState>,
    classified: TaskIntent,
) -> (r: String)
    ensures
        r@ == intent_tag(intent_of(opt_state(state), classified)) + "\n"@ + (match task_query(
            opt_str(current_query),
            opt_state(state),
        ) {
            Some(t) => t,
            None => Seq::empty(),
        }),
{
    let tag = match task_intent(state, classified) {
        TaskIntent::Inform => "inform",
        TaskIntent::Change => "change",
        TaskIntent::Investigate => "investigate",
        TaskIntent::Execute => "execute",
    };
    let query = match build_task_memory_query(current_query, state) {
        Some(q) => q,
        None => String::new(),
    };
    concat3(tag, "\n", query.as_str())
}

/// What is picked from the memory for a task of the given kind.
pub open spec fn retrieved(m: MemoryView, q: Option<QueryView>, intent: TaskIntent) -> RetrievedView {
    let caps = caps_for(intent);
    if memory_empty(m) {
        RetrievedView {
            lessons: Seq::empty(),
            open_loops: Seq::empty(),
            command_patterns: Seq::empty(),
            project_signals: Seq::empty(),
            facts: Seq::empty(),
        }
    } else {
        RetrievedView {
            lessons: task_picked::<MemoryLesson>(m.lessons, q, caps.lessons as nat),
            open_loops: task_picked::<OpenLoop>(
                unresolved(m.open_loops, m.open_loops.len() as int),
                q,
                caps.open_loops as nat,
            ),
            command_patterns: task_picked::<CommandPattern>(
                m.command_patterns,
                q,
                caps.command_patterns as nat,
            ),
            project_signals: task_picked::<ProjectSignal>(
                m.project_signals,
                q,
                caps.project_signals as nat,
            ),
            facts: task_picked::<MemoryFact>(m.facts, q, caps.facts as nat),
        }
    }
}

/// The query on a task with the words that it is matched by.
pub open spec fn task_search(
    q: Option<Seq<char>>,
    s: Option<StateView>,
    words: Seq<Seq<char>>,
) -> Option<QueryView> {
    match task_query(q, s) {
        Some(text) => Some(QueryView { text, tokens: words }),
        None => None,
    }
}

/// Picks what the memory has on a task. `words` are the words of the query that
/// is built for the task, as the caller's tokenizer finds them.
pub fn retrieve_task_memory(
    mem: &StructuredMemory,
    current_query: Option<&str>,
    state: Option<&WorkingState>,
    classified: TaskIntent,
    words: Vec<String>,
) -> (r: RetrievedTaskMemory)
    requires
        8 + 16 * words@.len() <= usize::MAX,
    ensures
        r@ == retrieved(
            mem@,
            task_search(opt_str(current_query), opt_state(state), texts(words@)),
            intent_of(opt_state(state), classified),
        ),
{
    let built = match build_task_memory_query(current_query, state) {
        Some(text) => Some(MemoryQuery { text, tokens: words }),
        None => None,
    };
    let query = built.as_ref();
    let ghost search = task_search(opt_str(current_query), opt_state(state), texts(words@));
    assert(opt_query(query) == search);
    assert(texts(words@).len() == words@.len());
    let ghost intent = intent_of(opt_state(state), classified);
    let ghost expected = retrieved(mem@, search, intent);
    if mem.is_empty() {
        let r = RetrievedTaskMemory {
            lessons: Vec::new(),
            open_loops: Vec::new(),
            command_patterns: Vec::new(),
            project_signals: Vec::new(),
            facts: Vec::new(),
        };
        assert(r@ =~= expected);
        return r;
    }
    let caps = task_memory_caps(task_intent(state, classified));
    let open = unresolved_loops(&mem.open_loops);
    assert(all_seen(open@) =~= loops_view(open@));
    assert(all_seen(mem.lessons@) =~= mem@.lessons);
    assert(all_seen(mem.command_patterns@) =~= mem@.command_patterns);
    assert(all_seen(mem.project_signals@) =~= mem@.project_signals);
    assert(all_seen(mem.facts@) =~= mem@.facts);
    let r = RetrievedTaskMemory {
        lessons: select_task_items(&mem.lessons, query, caps.lessons),
        open_loops: select_task_items(&open, query, caps.open_loops),
        command_patterns: select_task_items(&mem.command_patterns, query, caps.command_patterns),
        project_signals: select_task_items(&mem.project_signals, query, caps.project_signals),
        facts: select_task_items(&mem.facts, query, caps.facts),
    };
    assert(all_seen(r.lessons@) =~= r@.lessons);
    assert(all_seen(r.open_loops@) =~= r@.open_loops);
    assert(all_seen(r.command_patterns@) =~= r@.command_patterns);
    assert(all_seen(r.project_signals@) =~= r@.project_signals);
    assert(all_seen(r.facts@) =~= r@.facts);
    assert(r@ =~= expected);
    r
}

// ---------------------------------------------------------------------------
// The section of the prompt
// ---------------------------------------------------------------------------

/// The most that the section on a task takes of a prompt, in bytes.
pub const TASK_MEMORY_PROMPT_CHAR_BUDGET: usize = 1200;

/// What the section is meant for.
pub open spec fn focus_line(i: TaskIntent) -> Seq<char> {
    "- Focus: "@ + (match i {
        TaskIntent::Inform => "background context that may answer the question"@,
        TaskIntent::Change => "past lessons and project anchors that may guide the change"@,
        TaskIntent::Investigate =>
            "prior blockers and project signals that may explain the issue"@,
        TaskIntent::Execute =>
            "known commands and project anchors that may help the execution"@,
    })
}

pub open spec fn task_loop_line(v: LoopView) -> Seq<char> {
    "  - "@ + v.goal + " ["@ + loop_status_label(v.status) + "]: next "@ + v.next_step
}

pub open spec fn task_lesson_line(v: LessonView) -> Seq<char> {
    "  - "@ + v.title + " ["@ + confidence_label(v.confidence) + "]: "@ + v.recommendation
}

pub open spec fn task_signal_line(v: SignalView) -> Seq<char> {
    "  - "@ + v.key + ": "@ + v.value
}

pub open spec fn task_pattern_line(v: PatternView) -> Seq<char> {
    "  - `"@ + v.signature + "` ["@ + confidence_label(v.confidence) + "]: "@ + v.purpose
}

pub open spec fn task_fact_line(v: FactView) -> Seq<char> {
    "  - "@ + v.key + ": "@ + v.value
}

/// The lines of the section on a task.
pub open spec fn task_lines(r: RetrievedView, i: TaskIntent) -> Seq<Seq<char>> {
    seq!["## Relevant Past Experience"@, focus_line(i)] + section(
        "- Open loops to revisit:"@,
        r.open_loops.map_values(|v: LoopView| task_loop_line(v)),
    ) + section(
        "- Relevant lessons:"@,
        r.lessons.map_values(|v: LessonView| task_lesson_line(v)),
    ) + section(
        "- Project signals:"@,
        r.project_signals.map_values(|v: SignalView| task_signal_line(v)),
    ) + section(
        "- Command patterns:"@,
        r.command_patterns.map_values(|v: PatternView| task_pattern_line(v)),
    ) + section("- Relevant facts:"@, r.facts.map_values(|v: FactView| task_fact_line(v)))
}

/// A text within a budget of bytes, with a mark where it was cut.
pub open spec fn within_budget(s: Seq<char>, budget: nat, marker: Seq<char>) -> Seq<char> {
    if byte_len(s) <= budget {
        s
    } else {
        truncated(
            s,
            if byte_len(marker) <= budget {
                (budget - byte_len(marker)) as nat
            } else {
                0
            },
        ) + marker
    }
}

fn fit(s: String, budget: usize, marker: &str) -> (r: String)
    ensures
        r@ == within_budget(s@, budget as nat, marker@),
{
    if byte_count(s.as_str()) <= budget {
        return s;
    }
    let used: usize = byte_count(marker);
    let keep: usize = if used <= budget {
        budget - used
    } else {
        0
    };
    let mut out = truncate(s.as_str(), keep);
    out.append(marker);
    out
}

fn task_loop_texts(v: &Vec<OpenLoop>) -> (r: Vec<String>)
    ensures
        texts(r@) == loops_view(v@).map_values(|x: LoopView| task_loop_line(x)),
{
    let mut r: Vec<String> = Vec::new();
    let mut i: usize = 0;
    while i < v.len()
        invariant
            i <= v@.len(),
            r@.len() == i,
            forall|j: int| 0 <= j < i ==> (#[trigger] r@[j])@ == task_loop_line(v@[j]@),
        decreases v@.len() - i,
    {
        let mut out = owned("  - ");
        out.append(v[i].goal.as_str());
        out.append(" [");
        out.append(v[i].status.label());
        out.append("]: next ");
        out.append(v[i].next_step.as_str());
        r.push(out);
        i = i + 1;
    }
    assert(texts(r@) =~= loops_view(v@).map_values(|x: LoopView| task_loop_line(x)));
    r
}

fn task_lesson_texts(v: &Vec<MemoryLesson>) -> (r: Vec<String>)
    ensures
        texts(r@) == lessons_view(v@).map_values(|x: LessonView| task_lesson_line(x)),
{
    let mut r: Vec<String> = Vec::new();
    let mut i: usize = 0;
    while i < v.len()
        invariant
            i <= v@.len(),
            r@.len() == i,
            forall|j: int| 0 <= j < i ==> (#[trigger] r@[j])@ == task_lesson_line(v@[j]@),
        decreases v@.len() - i,
    {
        let mut out = owned("  - ");
        out.append(v[i].title.as_str());
        out.append(" [");
        out.append(v[i].confidence.label());
        out.append("]: ");
        out.append(v[i].recommendation.as_str());
        r.push(out);
        i = i + 1;
    }
    assert(texts(r@) =~= lessons_view(v@).map_values(|x: LessonView| task_lesson_line(x)));
    r
}

fn task_signal_texts(v: &Vec<ProjectSignal>) -> (r: Vec<String>)
    ensures
        texts(r@) == signals_view(v@).map_values(|x: SignalView| task_signal_line(x)),
{
    let mut r: Vec<String> = Vec::new();
    let mut i: usize = 0;
    while i < v.len()
        invariant
            i <= v@.len(),
            r@.len() == i,
            forall|j: int| 0 <= j < i ==> (#[trigger] r@[j])@ == task_signal_line(v@[j]@),
        decreases v@.len() - i,
    {
        let mut out = owned("  - ");
        out.append(v[i].key.as_str());
        out.append(": ");
        out.append(v[i].value.as_str());
        r.push(out);
        i = i + 1;
    }
    assert(texts(r@) =~= signals_view(v@).map_values(|x: SignalView| task_signal_line(x)));
    r
}

fn task_pattern_texts(v: &Vec<CommandPattern>) -> (r: Vec<String>)
    ensures
        texts(r@) == patterns_view(v@).map_values(|x: PatternView| task_pattern_line(x)),
{
    let mut r: Vec<String> = Vec::new();
    let mut i: usize = 0;
    while i < v.len()
        invariant
            i <= v@.len(),
            r@.len() == i,
            forall|j: int| 0 <= j < i ==> (#[trigger] r@[j])@ == task_pattern_line(v@[j]@),
        decreases v@.len() - i,
    {
        let mut out = owned("  - `");
        out.append(v[i].signature.as_str());
        out.append("` [");
        out.append(v[i].confidence.label());
        out.append("]: ");
        out.append(v[i].purpose.as_str());
        r.push(out);
        i = i + 1;
    }
    assert(texts(r@) =~= patterns_view(v@).map_values(|x: PatternView| task_pattern_line(x)));
    r
}

fn task_fact_texts(v: &Vec<MemoryFact>) -> (r: Vec<String>)
    ensures
        texts(r@) == facts_view(v@).map_values(|x: FactView| task_fact_line(x)),
{
    let mut r: Vec<String> = Vec::new();
    let mut i: usize = 0;
    while i < v.len()
        invariant
            i <= v@.len(),
            r@.len() == i,
            forall|j: int| 0 <= j < i ==> (#[trigger] r@[j])@ == task_fact_line(v@[j]@),
        decreases v@.len() - i,
    {
        let mut out = owned("  - ");
        out.append(v[i].key.as_str());
        out.append(": ");
        out.append(v[i].value.as_str());
        r.push(out);
        i = i + 1;
    }
    assert(texts(r@) =~= facts_view(v@).map_values(|x: FactView| task_fact_line(x)));
    r
}

/// The section on a task; nothing where nothing was picked.
pub fn format_task_memory_for_prompt(selected: &RetrievedTaskMemory, intent: TaskIntent) -> (r:
    Option<String>)
    ensures
        opt_text(r) == (if retrieved_nothing(selected@) {
            None
        } else {
            Some(
                within_budget(
                    joined(task_lines(selected@, intent), "\n"@),
                    TASK_MEMORY_PROMPT_CHAR_BUDGET as nat,
                    "\n*(relevant memory truncated)*"@,
                ),
            )
        }),
{
    if selected.is_empty() {
        return None;
    }
    let mut lines: Vec<String> = Vec::new();
    lines.push(owned("## Relevant Past Experience"));
    let mut focus = owned("- Focus: ");
    focus.append(
        match intent {
            TaskIntent::Inform => "background context that may answer the question",
            TaskIntent::Change => "past lessons and project anchors that may guide the change",
            TaskIntent::Investigate =>
                "prior blockers and project signals that may explain the issue",
            TaskIntent::Execute =>
                "known commands and project anchors that may help the execution",
        },
    );
    lines.push(focus);
    assert(texts(lines@) =~= seq!["## Relevant Past Experience"@, focus_line(intent)]);
    push_section(&mut lines, "- Open loops to revisit:", task_loop_texts(&selected.open_loops));
    push_section(&mut lines, "- Relevant lessons:", task_lesson_texts(&selected.lessons));
    push_section(&mut lines, "- Project signals:", task_signal_texts(&selected.project_signals));
    push_section(&mut lines, "- Command patterns:", task_pattern_texts(&selected.command_patterns));
    push_section(&mut lines, "- Relevant facts:", task_fact_texts(&selected.facts));
    assert(texts(lines@) == task_lines(selected@, intent));
    Some(
        fit(
            join(&lines, "\n"),
            TASK_MEMORY_PROMPT_CHAR_BUDGET,
            "\n*(relevant memory truncated)*",
        ),
    )
}

// ---------------------------------------------------------------------------
// Anchors
// ---------------------------------------------------------------------------

/// A list with one more text in its bounded form, unless that is empty or the
/// list has one that compares equal.
pub open spec fn noted_once(v: Seq<Seq<char>>, t: Seq<char>, max: nat) -> Seq<Seq<char>> {
    let c = cleaned_text(t, max);
    if c.len() == 0 || exists|i: int| 0 <= i < v.len() && match_text(#[trigger] v[i]) == match_text(
        c,
    ) {
        v
    } else {
        v.push(c)
    }
}

/// The first `n` texts, each noted once.
pub open spec fn all_noted(from: Seq<Seq<char>>, max: nat, n: int) -> Seq<Seq<char>>
    decreases n,
{
    if n <= 0 {
        Seq::empty()
    } else {
        noted_once(all_noted(from, max, n - 1), from[n - 1], max)
    }
}

fn note_once(v: &mut Vec<String>, t: &str, max: usize)
    ensures
        texts(final(v)@) == noted_once(texts(old(v)@), t@, max as nat),
{
    let ghost start = texts(v@);
    let c = clean_text(t, max);
    if c.as_str().is_empty() {
        return;
    }
    let key = normalize_match_text(c.as_str());
    let mut i: usize = 0;
    while i < v.len()
        invariant
            i <= v@.len(),
            start == texts(v@),
            v@ == old(v)@,
            key@ == match_text(c@),
            c@ == cleaned_text(t@, max as nat),
            forall|j: int| 0 <= j < i ==> match_text(#[trigger] start[j]) != match_text(c@),
        decreases v@.len() - i,
    {
        assert(start[i as int] == v@[i as int]@);
        if same(normalize_match_text(v[i].as_str()).as_str(), key.as_str()) {
            return;
        }
        i = i + 1;
    }
    let ghost view = c@;
    v.push(c);
    assert(texts(v@) =~= start.push(view));
}

fn note_all(from: &Vec<String>, max: usize) -> (r: Vec<String>)
    ensures
        texts(r@) == all_noted(texts(from@), max as nat, from@.len() as int),
{
    let mut r: Vec<String> = Vec::new();
    let mut n: usize = 0;
    assert(texts(r@) =~= all_noted(texts(from@), max as nat, 0));
    while n < from.len()
        invariant
            n <= from@.len(),
            texts(r@) == all_noted(texts(from@), max as nat, n as int),
        decreases from@.len() - n,
    {
        assert(texts(from@)[n as int] == from@[n as int]@);
        note_once(&mut r, from[n].as_str(), max);
        n = n + 1;
    }
    r
}

/// The first `n` texts of a list.
pub open spec fn first_texts(v: Seq<Seq<char>>, n: nat) -> Seq<Seq<char>> {
    v.take(
        if n <= v.len() {
            n as int
        } else {
            v.len() as int
        },
    )
}

fn cut(v: &mut Vec<String>, n: usize)
    ensures
        texts(final(v)@) == first_texts(texts(old(v)@), n as nat),
{
    let ghost start = texts(v@);
    if v.len() > n {
        v.truncate(n);
    }
    assert(texts(v@) =~= first_texts(start, n as nat));
}

/// The text begins with one of the commands that are recognized.
pub open spec fn is_command(lower: Seq<char>) -> bool {
    begins(lower, "cargo "@) || begins(lower, "npm "@) || begins(lower, "pnpm "@) || begins(
        lower,
        "yarn "@,
    ) || begins(lower, "git "@) || begins(lower, "python "@) || begins(lower, "uv "@) || begins(
        lower,
        "go "@,
    ) || begins(lower, "node "@) || begins(lower, "bash "@) || begins(lower, "powershell "@)
}

/// The shell command that a text is.
pub open spec fn command_anchor(text: Seq<char>) -> Option<Seq<char>> {
    let t = spaced(text);
    if is_command(ascii_lower(t)) {
        unless_empty(cleaned_text(t, 100))
    } else {
        None
    }
}

/// The shell command that the text is.
pub fn extract_shell_command_anchor(text: &str) -> (r: Option<String>)
    ensures
        opt_text(r) == command_anchor(text@),
{
    let trimmed = normalize_memory_whitespace(text);
    let lower = to_ascii_lower(trimmed.as_str());
    let l = lower.as_str();
    let looks_like_command = starts_with(l, "cargo ") || starts_with(l, "npm ") || starts_with(
        l,
        "pnpm ",
    ) || starts_with(l, "yarn ") || starts_with(l, "git ") || starts_with(l, "python ")
        || starts_with(l, "uv ") || starts_with(l, "go ") || starts_with(l, "node ")
        || starts_with(l, "bash ") || starts_with(l, "powershell ");
    if !looks_like_command {
        return None;
    }
    sanitize_memory_text_value(trimmed.as_str(), 100)
}

/// The text ends like the name of a source or configuration file.
pub open spec fn has_file_suffix(lower: Seq<char>) -> bool {
    ends(lower, ".rs"@) || ends(lower, ".toml"@) || ends(lower, ".md"@) || ends(lower, ".json"@)
        || ends(lower, ".yaml"@) || ends(lower, ".yml"@) || ends(lower, ".ts"@) || ends(
        lower,
        ".tsx"@,
    ) || ends(lower, ".js"@) || ends(lower, ".jsx"@) || ends(lower, ".py"@) || ends(lower, ".sh"@)
        || ends(lower, ".go"@) || ends(lower, ".java"@)
}

fn file_suffix(l: &str) -> (r: bool)
    ensures
        r == has_file_suffix(l@),
{
    ends_with(l, ".rs") || ends_with(l, ".toml") || ends_with(l, ".md") || ends_with(l, ".json")
        || ends_with(l, ".yaml") || ends_with(l, ".yml") || ends_with(l, ".ts") || ends_with(
        l,
        ".tsx",
    ) || ends_with(l, ".js") || ends_with(l, ".jsx") || ends_with(l, ".py") || ends_with(l, ".sh")
        || ends_with(l, ".go") || ends_with(l, ".java")
}

/// The marks that are not part of a name in running text.
pub open spec fn marks() -> Seq<char> {
    "`\"',;()[]"@
}

/// The file that a word names.
pub open spec fn word_file(word: Seq<char>) -> Option<Seq<char>> {
    let t = strip_back(strip_back(strip_front(word, marks()), marks()), ":"@);
    if t.contains('/') || t.contains('\\') || has_file_suffix(ascii_lower(t)) {
        unless_empty(cleaned_text(t, 90))
    } else {
        None
    }
}

/// The address that a word names.
pub open spec fn word_url(word: Seq<char>) -> Option<Seq<char>> {
    let t = strip_back(strip_back(strip_front(word, marks()), marks()), "."@);
    if begins(t, "http://"@) || begins(t, "https://"@) {
        unless_empty(cleaned_text(t, 100))
    } else {
        None
    }
}

/// The first text from `i` on for which `f` gives something.
pub open spec fn first_found(
    f: spec_fn(Seq<char>) -> Option<Seq<char>>,
    v: Seq<Seq<char>>,
    i: int,
) -> Option<Seq<char>>
    decreases v.len() - i,
{
    if i < 0 || i >= v.len() {
        None
    } else if f(v[i]) is Some {
        f(v[i])
    } else {
        first_found(f, v, i + 1)
    }
}

pub open spec fn word_file_fn() -> spec_fn(Seq<char>) -> Option<Seq<char>> {
    |w: Seq<char>| word_file(w)
}

pub open spec fn word_url_fn() -> spec_fn(Seq<char>) -> Option<Seq<char>> {
    |w: Seq<char>| word_url(w)
}

/// The first file that a text names.
pub open spec fn file_anchor(text: Seq<char>) -> Option<Seq<char>> {
    first_found(word_file_fn(), words(text), 0)
}

/// The first address that a text names.
pub open spec fn url_anchor(text: Seq<char>) -> Option<Seq<char>> {
    first_found(word_url_fn(), words(text), 0)
}

fn holds_char(s: &str, c: char) -> (r: bool)
    ensures
        r == s@.contains(c),
{
    let v = chars_of(s);
    let mut i: usize = 0;
    while i < v.len()
        invariant
            i <= v@.len(),
            v@ == s@,
            forall|j: int| 0 <= j < i ==> v@[j] != c,
        decreases v@.len() - i,
    {
        if v[i] == c {
            assert(s@[i as int] == c);
            return true;
        }
        i = i + 1;
    }
    false
}

fn file_of_word(word: &str) -> (r: Option<String>)
    ensures
        opt_text(r) == word_file(word@),
{
    let bare = trim_chars(word, "`\"',;()[]");
    let t = trim_end_chars(bare.as_str(), ":");
    if holds_char(t.as_str(), '/') || holds_char(t.as_str(), '\\') || file_suffix(
        to_ascii_lower(t.as_str()).as_str(),
    ) {
        sanitize_memory_text_value(t.as_str(), 90)
    } else {
        None
    }
}

fn url_of_word(word: &str) -> (r: Option<String>)
    ensures
        opt_text(r) == word_url(word@),
{
    let bare = trim_chars(word, "`\"',;()[]");
    let t = trim_end_chars(bare.as_str(), ".");
    if starts_with(t.as_str(), "http://") || starts_with(t.as_str(), "https://") {
        sanitize_memory_text_value(t.as_str(), 100)
    } else {
        None
    }
}

/// The first file that the text names.
pub fn extract_file_anchor(text: &str) -> (r: Option<String>)
    ensures
        opt_text(r) == file_anchor(text@),
{
    let v = split_words(text);
    let ghost f = word_file_fn();
    let mut i: usize = 0;
    while i < v.len()
        invariant
            i <= v@.len(),
            f == word_file_fn(),
            texts(v@) == words(text@),
            first_found(f, texts(v@), i as int) == first_found(f, texts(v@), 0),
        decreases v@.len() - i,
    {
        assert(f(texts(v@)[i as int]) == word_file(v@[i as int]@));
        if let Some(a) = file_of_word(v[i].as_str()) {
            return Some(a);
        }
        i = i + 1;
    }
    None
}

/// The first address that the text names.
pub fn extract_url_anchor(text: &str) -> (r: Option<String>)
    ensures
        opt_text(r) == url_anchor(text@),
{
    let v = split_words(text);
    let ghost f = word_url_fn();
    let mut i: usize = 0;
    while i < v.len()
        invariant
            i <= v@.len(),
            f == word_url_fn(),
            texts(v@) == words(text@),
            first_found(f, texts(v@), i as int) == first_found(f, texts(v@), 0),
        decreases v@.len() - i,
    {
        assert(f(texts(v@)[i as int]) == word_url(v@[i as int]@));
        if let Some(a) = url_of_word(v[i].as_str()) {
            return Some(a);
        }
        i = i + 1;
    }
    None
}

/// The keys and values of the first `n` signals.
pub open spec fn signal_strings(v: Seq<SignalView>, n: int) -> Seq<Seq<char>>
    decreases n,
{
    if n <= 0 {
        Seq::empty()
    } else {
        signal_strings(v, n - 1).push(v[n - 1].key).push(v[n - 1].value)
    }
}

/// The keys and values of the first `n` facts.
pub open spec fn fact_strings(v: Seq<FactView>, n: int) -> Seq<Seq<char>>
    decreases n,
{
    if n <= 0 {
        Seq::empty()
    } else {
        fact_strings(v, n - 1).push(v[n - 1].key).push(v[n - 1].value)
    }
}

/// The texts of the first `n` open loops.
pub open spec fn loop_strings(v: Seq<LoopView>, n: int) -> Seq<Seq<char>>
    decreases n,
{
    if n <= 0 {
        Seq::empty()
    } else {
        loop_strings(v, n - 1).push(v[n - 1].goal).push(v[n - 1].blocker).push(v[n - 1].next_step)
    }
}

/// Everything in which anchors are looked for: signals, facts, open loops.
pub open spec fn anchor_sources(r: RetrievedView) -> Seq<Seq<char>> {
    signal_strings(r.project_signals, r.project_signals.len() as int) + fact_strings(
        r.facts,
        r.facts.len() as int,
    ) + loop_strings(r.open_loops, r.open_loops.len() as int)
}

fn push_signal_strings(out: &mut Vec<String>, v: &Vec<ProjectSignal>)
    ensures
        texts(final(out)@) == texts(old(out)@) + signal_strings(
            signals_view(v@),
            v@.len() as int,
        ),
{
    let ghost start = texts(out@);
    let mut n: usize = 0;
    assert(texts(out@) =~= start + signal_strings(signals_view(v@), 0));
    while n < v.len()
        invariant
            n <= v@.len(),
            texts(out@) == start + signal_strings(signals_view(v@), n as int),
        decreases v@.len() - n,
    {
        let ghost before = texts(out@);
        assert(signals_view(v@)[n as int] == v@[n as int]@);
        out.push(v[n].key.clone());
        out.push(v[n].value.clone());
        assert(texts(out@) =~= before.push(v@[n as int].key@).push(v@[n as int].value@));
        n = n + 1;
        assert(texts(out@) =~= start + signal_strings(signals_view(v@), n as int));
    }
}

fn push_fact_strings(out: &mut Vec<String>, v: &Vec<MemoryFact>)
    ensures
        texts(final(out)@) == texts(old(out)@) + fact_strings(facts_view(v@), v@.len() as int),
{
    let ghost start = texts(out@);
    let mut n: usize = 0;
    assert(texts(out@) =~= start + fact_strings(facts_view(v@), 0));
    while n < v.len()
        invariant
            n <= v@.len(),
            texts(out@) == start + fact_strings(facts_view(v@), n as int),
        decreases v@.len() - n,
    {
        let ghost before = texts(out@);
        assert(facts_view(v@)[n as int] == v@[n as int]@);
        out.push(v[n].key.clone());
        out.push(v[n].value.clone());
        assert(texts(out@) =~= before.push(v@[n as int].key@).push(v@[n as int].value@));
        n = n + 1;
        assert(texts(out@) =~= start + fact_strings(facts_view(v@), n as int));
    }
}

fn push_loop_strings(out: &mut Vec<String>, v: &Vec<OpenLoop>)
    ensures
        texts(final(out)@) == texts(old(out)@) + loop_strings(loops_view(v@), v@.len() as int),
{
    let ghost start = texts(out@);
    let mut n: usize = 0;
    assert(texts(out@) =~= start + loop_strings(loops_view(v@), 0));
    while n < v.len()
        invariant
            n <= v@.len(),
            texts(out@) == start + loop_strings(loops_view(v@), n as int),
        decreases v@.len() - n,
    {
        let ghost before = texts(out@);
        assert(loops_view(v@)[n as int] == v@[n as int]@);
        out.push(v[n].goal.clone());
        out.push(v[n].blocker.clone());
        out.push(v[n].next_step.clone());
        assert(texts(out@) =~= before.push(v@[n as int].goal@).push(v@[n as int].blocker@).push(
            v@[n as int].next_step@,
        ));
        n = n + 1;
        assert(texts(out@) =~= start + loop_strings(loops_view(v@), n as int));
    }
}

fn anchor_source_texts(selected: &RetrievedTaskMemory) -> (r: Vec<String>)
    ensures
        texts(r@) == anchor_sources(selected@),
{
    let mut out: Vec<String> = Vec::new();
    assert(texts(out@) =~= Seq::empty());
    push_signal_strings(&mut out, &selected.project_signals);
    push_fact_strings(&mut out, &selected.facts);
    push_loop_strings(&mut out, &selected.open_loops);
    assert(texts(out@) =~= anchor_sources(selected@));
    out
}

pub open spec fn command_anchor_fn() -> spec_fn(Seq<char>) -> Option<Seq<char>> {
    |t: Seq<char>| command_anchor(t)
}

pub open spec fn file_anchor_fn() -> spec_fn(Seq<char>) -> Option<Seq<char>> {
    |t: Seq<char>| file_anchor(t)
}

pub open spec fn url_anchor_fn() -> spec_fn(Seq<char>) -> Option<Seq<char>> {
    |t: Seq<char>| url_anchor(t)
}

/// Where commands are looked for: signatures, then the values of signals, then
/// the values of facts.
pub open spec fn command_sources(r: RetrievedView) -> Seq<Seq<char>> {
    r.command_patterns.map_values(|p: PatternView| p.signature) + value_sources(r)
}

/// The values of signals, then the values of facts.
pub open spec fn value_sources(r: RetrievedView) -> Seq<Seq<char>> {
    r.project_signals.map_values(|s: SignalView| s.value) + r.facts.map_values(
        |f: FactView| f.value,
    )
}

/// The first command that is remembered.
pub open spec fn remembered_command(r: RetrievedView) -> Option<Seq<char>> {
    first_found(command_anchor_fn(), command_sources(r), 0)
}

/// The first file that is remembered.
pub open spec fn remembered_file(r: RetrievedView) -> Option<Seq<char>> {
    first_found(file_anchor_fn(), anchor_sources(r), 0)
}

/// The first address that is remembered.
pub open spec fn remembered_url(r: RetrievedView) -> Option<Seq<char>> {
    first_found(url_anchor_fn(), value_sources(r), 0)
}

fn signature_texts(v: &Vec<CommandPattern>) -> (r: Vec<String>)
    ensures
        texts(r@) == patterns_view(v@).map_values(|p: PatternView| p.signature),
{
    let mut r: Vec<String> = Vec::new();
    let mut i: usize = 0;
    while i < v.len()
        invariant
            i <= v@.len(),
            r@.len() == i,
            forall|j: int| 0 <= j < i ==> (#[trigger] r@[j])@ == v@[j].signature@,
        decreases v@.len() - i,
    {
        r.push(v[i].signature.clone());
        i = i + 1;
    }
    assert(texts(r@) =~= patterns_view(v@).map_values(|p: PatternView| p.signature));
    r
}

fn value_texts(selected: &RetrievedTaskMemory) -> (r: Vec<String>)
    ensures
        texts(r@) == value_sources(selected@),
{
    let mut r: Vec<String> = Vec::new();
    let n: usize = selected.project_signals.len();
    let mut i: usize = 0;
    while i < n
        invariant
            i <= n == selected.project_signals@.len(),
            r@.len() == i,
            forall|j: int|
                0 <= j < i ==> (#[trigger] r@[j])@ == selected.project_signals@[j].value@,
        decreases n - i,
    {
        r.push(selected.project_signals[i].value.clone());
        i = i + 1;
    }
    let mut k: usize = 0;
    while k < selected.facts.len()
        invariant
            k <= selected.facts@.len(),
            n == selected.project_signals@.len(),
            r@.len() == n + k,
            forall|j: int|
                0 <= j < n ==> (#[trigger] r@[j])@ == selected.project_signals@[j].value@,
            forall|j: int|
                n <= j < n + k ==> (#[trigger] r@[j])@ == selected.facts@[j - n].value@,
        decreases selected.facts@.len() - k,
    {
        r.push(selected.facts[k].value.clone());
        k = k + 1;
    }
    assert(texts(r@) =~= value_sources(selected@));
    r
}

/// The first command that is remembered.
pub fn remembered_command_hint(selected: &RetrievedTaskMemory) -> (r: Option<String>)
    ensures
        opt_text(r) == remembered_command(selected@),
{
    let mut v = signature_texts(&selected.command_patterns);
    let ghost first = texts(v@);
    let mut rest = value_texts(selected);
    let ghost second = texts(rest@);
    v.append(&mut rest);
    assert(texts(v@) =~= first + second);
    let ghost f = command_anchor_fn();
    let mut i: usize = 0;
    while i < v.len()
        invariant
            i <= v@.len(),
            f == command_anchor_fn(),
            texts(v@) == command_sources(selected@),
            first_found(f, texts(v@), i as int) == first_found(f, texts(v@), 0),
        decreases v@.len() - i,
    {
        assert(f(texts(v@)[i as int]) == command_anchor(v@[i as int]@));
        if let Some(a) = extract_shell_command_anchor(v[i].as_str()) {
            return Some(a);
        }
        i = i + 1;
    }
    None
}

/// The first file that is remembered.
pub fn remembered_file_anchor(selected: &RetrievedTaskMemory) -> (r: Option<String>)
    ensures
        opt_text(r) == remembered_file(selected@),
{
    let v = anchor_source_texts(selected);
    let ghost f = file_anchor_fn();
    let mut i: usize = 0;
    while i < v.len()
        invariant
            i <= v@.len(),
            f == file_anchor_fn(),
            texts(v@) == anchor_sources(selected@),
            first_found(f, texts(v@), i as int) == first_found(f, texts(v@), 0),
        decreases v@.len() - i,
    {
        assert(f(texts(v@)[i as int]) == file_anchor(v@[i as int]@));
        if let Some(a) = extract_file_anchor(v[i].as_str()) {
            return Some(a);
        }
        i = i + 1;
    }
    None
}

/// The first address that is remembered.
pub fn remembered_url_anchor(selected: &RetrievedTaskMemory) -> (r: Option<String>)
    ensures
        opt_text(r) == remembered_url(selected@),
{
    let v = value_texts(selected);
    let ghost f = url_anchor_fn();
    let mut i: usize = 0;
    while i < v.len()
        invariant
            i <= v@.len(),
            f == url_anchor_fn(),
            texts(v@) == value_sources(selected@),
            first_found(f, texts(v@), i as int) == first_found(f, texts(v@), 0),
        decreases v@.len() - i,
    {
        assert(f(texts(v@)[i as int]) == url_anchor(v@[i as int]@));
        if let Some(a) = extract_url_anchor(v[i].as_str()) {
            return Some(a);
        }
        i = i + 1;
    }
    None
}

/// The file, else the address, else the command that a text names.
pub open spec fn any_anchor(t: Seq<char>) -> Option<Seq<char>> {
    if file_anchor(t) is Some {
        file_anchor(t)
    } else if url_anchor(t) is Some {
        url_anchor(t)
    } else {
        command_anchor(t)
    }
}

/// The commands among the first `n` texts, with `any` set the anchors of every
/// kind.
pub open spec fn anchors_of(v: Seq<Seq<char>>, any: bool, n: int) -> Seq<Seq<char>>
    decreases n,
{
    if n <= 0 {
        Seq::empty()
    } else {
        match if any {
            any_anchor(v[n - 1])
        } else {
            command_anchor(v[n - 1])
        } {
            Some(a) => anchors_of(v, any, n - 1).push(a),
            None => anchors_of(v, any, n - 1),
        }
    }
}

fn push_anchors(out: &mut Vec<String>, v: &Vec<String>, any: bool)
    ensures
        texts(final(out)@) == texts(old(out)@) + anchors_of(texts(v@), any, v@.len() as int),
{
    let ghost start = texts(out@);
    let mut n: usize = 0;
    assert(texts(out@) =~= start + anchors_of(texts(v@), any, 0));
    while n < v.len()
        invariant
            n <= v@.len(),
            texts(out@) == start + anchors_of(texts(v@), any, n as int),
        decreases v@.len() - n,
    {
        assert(texts(v@)[n as int] == v@[n as int]@);
        let mut found: Option<String> = None;
        if any {
            found = extract_file_anchor(v[n].as_str());
            if found.is_none() {
                found = extract_url_anchor(v[n].as_str());
            }
        }
        if found.is_none() {
            found = extract_shell_command_anchor(v[n].as_str());
        }
        if let Some(a) = found {
            let ghost before = texts(out@);
            let ghost view = a@;
            out.push(a);
            assert(texts(out@) =~= before.push(view));
        }
        n = n + 1;
        assert(texts(out@) =~= start + anchors_of(texts(v@), any, n as int));
    }
}

/// What must show up in an answer for what was picked to count as used.
pub open spec fn resolution_anchors(r: RetrievedView) -> Seq<Seq<char>> {
    let commands = r.command_patterns.map_values(|p: PatternView| p.signature);
    let all = anchors_of(commands, false, commands.len() as int) + anchors_of(
        anchor_sources(r),
        true,
        anchor_sources(r).len() as int,
    );
    first_texts(all_noted(all, 120, all.len() as int), 5)
}

/// What must show up in an answer for what was picked to count as used.
pub fn task_memory_resolution_anchors(selected: &RetrievedTaskMemory) -> (r: Vec<String>)
    ensures
        texts(r@) == resolution_anchors(selected@),
{
    let mut all: Vec<String> = Vec::new();
    assert(texts(all@) =~= Seq::empty());
    let signatures = signature_texts(&selected.command_patterns);
    push_anchors(&mut all, &signatures, false);
    assert(texts(signatures@).len() == signatures@.len());
    assert(texts(all@) =~= anchors_of(texts(signatures@), false, signatures@.len() as int));
    let sources = anchor_source_texts(selected);
    assert(texts(sources@).len() == sources@.len());
    push_anchors(&mut all, &sources, true);
    assert(texts(all@).len() == all@.len());
    let mut out = note_all(&all, 120);
    cut(&mut out, 5);
    out
}

// ---------------------------------------------------------------------------
// Next actions and hints
// ---------------------------------------------------------------------------

/// What is suggested as next actions, before repetitions are dropped.
pub open spec fn action_candidates(r: RetrievedView, i: TaskIntent) -> Seq<Seq<char>> {
    let loops = Seq::new(
        if r.open_loops.len() < 2 {
            r.open_loops.len()
        } else {
            2
        },
        |k: int|
            "Revisit '"@ + r.open_loops[k].goal + "': "@ + r.open_loops[k].next_step,
    );
    let lessons = Seq::new(
        if r.lessons.len() < 2 {
            r.lessons.len()
        } else {
            2
        },
        |k: int| r.lessons[k].recommendation,
    );
    let patterns = if (i is Change || i is Execute) && r.command_patterns.len() > 0 {
        seq![
            "Reuse `"@ + r.command_patterns[0].signature + "` when "@
                + r.command_patterns[0].purpose,
        ]
    } else {
        Seq::empty()
    };
    loops + lessons + patterns
}

/// The next actions that the memory suggests.
pub fn task_memory_next_actions(selected: &RetrievedTaskMemory, intent: TaskIntent) -> (r: Vec<
    String,
>)
    ensures
        texts(r@) == first_texts(
            all_noted(
                action_candidates(selected@, intent),
                180,
                action_candidates(selected@, intent).len() as int,
            ),
            3,
        ),
{
    let mut v: Vec<String> = Vec::new();
    let mut i: usize = 0;
    let count: usize = if selected.open_loops.len() < 2 {
        selected.open_loops.len()
    } else {
        2
    };
    while i < count
        invariant
            i <= count <= selected.open_loops@.len(),
            v@.len() == i,
            forall|j: int|
                0 <= j < i ==> (#[trigger] v@[j])@ == "Revisit '"@ + selected.open_loops@[j].goal@
                    + "': "@ + selected.open_loops@[j].next_step@,
        decreases count - i,
    {
        let mut line = owned("Revisit '");
        line.append(selected.open_loops[i].goal.as_str());
        line.append("': ");
        line.append(selected.open_loops[i].next_step.as_str());
        v.push(line);
        i = i + 1;
    }
    let ghost loops = texts(v@);
    let mut k: usize = 0;
    let lessons: usize = if selected.lessons.len() < 2 {
        selected.lessons.len()
    } else {
        2
    };
    while k < lessons
        invariant
            k <= lessons <= selected.lessons@.len(),
            loops.len() == count,
            v@.len() == count + k,
            forall|j: int| 0 <= j < count ==> (#[trigger] v@[j])@ == loops[j],
            forall|j: int|
                count <= j < count + k ==> (#[trigger] v@[j])@ == selected.lessons@[j
                    - count].recommendation@,
        decreases lessons - k,
    {
        v.push(selected.lessons[k].recommendation.clone());
        k = k + 1;
    }
    let ghost before = texts(v@);
    let reuse = matches!(intent, TaskIntent::Change | TaskIntent::Execute);
    if reuse && selected.command_patterns.len() > 0 {
        let mut line = owned("Reuse `");
        line.append(selected.command_patterns[0].signature.as_str());
        line.append("` when ");
        line.append(selected.command_patterns[0].purpose.as_str());
        let ghost view = line@;
        assert(selected@.command_patterns[0] == selected.command_patterns@[0]@);
        v.push(line);
        assert(texts(v@) =~= before + seq![view]);
    } else {
        assert(texts(v@) =~= before + Seq::<Seq<char>>::empty());
    }
    assert(texts(v@) =~= action_candidates(selected@, intent));
    let mut out = note_all(&v, 180);
    cut(&mut out, 3);
    out
}

/// The most that the hints on tools take of a prompt, in bytes.
pub const TOOL_HINT_PROMPT_CHAR_BUDGET: usize = 700;

/// What is hinted on tools, before repetitions are dropped.
pub open spec fn hint_candidates(r: RetrievedView, i: TaskIntent) -> Seq<Seq<char>> {
    let command = match remembered_command(r) {
        Some(c) => seq![
            "Prefer `exec` when validating or reusing known commands like `"@ + c + "`."@,
        ],
        None => Seq::empty(),
    };
    let file = match remembered_file(r) {
        Some(a) => seq![
            "Prefer `read_file` or `search_files` around `"@ + a + "` before guessing."@,
        ],
        None => Seq::empty(),
    };
    let open = if r.open_loops.len() > 0 {
        seq![
            "Revisit '"@ + r.open_loops[0].goal + (match i {
                TaskIntent::Inform | TaskIntent::Investigate =>
                    "' with focused inspection before concluding."@,
                _ => "' and validate the result before wrapping up."@,
            }),
        ]
    } else {
        Seq::empty()
    };
    let url = match remembered_url(r) {
        Some(a) => seq![
            "Prefer `http_fetch` if you need to verify external docs or URLs like `"@ + a + "`."@,
        ],
        None => Seq::empty(),
    };
    command + file + open + url
}

/// The lines of the hints on tools.
pub open spec fn hint_lines(r: RetrievedView, i: TaskIntent) -> Seq<Seq<char>> {
    let c = hint_candidates(r, i);
    seq!["## Tool Hints"@] + all_noted(c, 220, c.len() as int).map_values(
        |t: Seq<char>| "- "@ + t,
    )
}

fn push_line(v: &mut Vec<String>, a: &str, b: &str, c: &str)
    ensures
        texts(final(v)@) == texts(old(v)@) + seq![a@ + b@ + c@],
{
    let ghost start = texts(v@);
    let line = concat3(a, b, c);
    let ghost view = line@;
    v.push(line);
    assert(texts(v@) =~= start + seq![view]);
}

fn hint_texts(selected: &RetrievedTaskMemory, intent: TaskIntent) -> (r: Vec<String>)
    ensures
        texts(r@) == hint_candidates(selected@, intent),
{
    let mut v: Vec<String> = Vec::new();
    let ghost none = Seq::<Seq<char>>::empty();
    assert(texts(v@) =~= none);
    if let Some(command) = remembered_command_hint(selected) {
        push_line(
            &mut v,
            "Prefer `exec` when validating or reusing known commands like `",
            command.as_str(),
            "`.",
        );
    }
    let ghost v1 = texts(v@);
    if let Some(anchor) = remembered_file_anchor(selected) {
        push_line(
            &mut v,
            "Prefer `read_file` or `search_files` around `",
            anchor.as_str(),
            "` before guessing.",
        );
    } else {
        assert(texts(v@) =~= v1 + none);
    }
    let ghost v2 = texts(v@);
    if selected.open_loops.len() > 0 {
        assert(selected@.open_loops[0] == selected.open_loops@[0]@);
        let tail = match intent {
            TaskIntent::Inform | TaskIntent::Investigate =>
                "' with focused inspection before concluding.",
            _ => "' and validate the result before wrapping up.",
        };
        push_line(&mut v, "Revisit '", selected.open_loops[0].goal.as_str(), tail);
    } else {
        assert(texts(v@) =~= v2 + none);
    }
    let ghost v3 = texts(v@);
    if let Some(anchor) = remembered_url_anchor(selected) {
        push_line(
            &mut v,
            "Prefer `http_fetch` if you need to verify external docs or URLs like `",
            anchor.as_str(),
            "`.",
        );
    } else {
        assert(texts(v@) =~= v3 + none);
    }
    assert(texts(v@) =~= hint_candidates(selected@, intent));
    v
}

/// The hints on tools; nothing where there are none.
pub fn format_task_tool_hints_for_prompt(selected: &RetrievedTaskMemory, intent: TaskIntent) -> (r:
    Option<String>)
    ensures
        opt_text(r) == (if hint_lines(selected@, intent).len() == 1 {
            None
        } else {
            Some(
                within_budget(
                    joined(hint_lines(selected@, intent), "\n"@),
                    TOOL_HINT_PROMPT_CHAR_BUDGET as nat,
                    "\n*(tool hints truncated)*"@,
                ),
            )
        }),
{
    let hints = note_all(&hint_texts(selected, intent), 220);
    let ghost noted = texts(hints@);
    let mut lines: Vec<String> = Vec::new();
    lines.push(owned("## Tool Hints"));
    let mut i: usize = 0;
    while i < hints.len()
        invariant
            i <= hints@.len(),
            lines@.len() == i + 1,
            lines@[0]@ == "## Tool Hints"@,
            forall|j: int| 1 <= j <= i ==> (#[trigger] lines@[j])@ == "- "@ + hints@[j - 1]@,
        decreases hints@.len() - i,
    {
        let mut line = owned("- ");
        line.append(hints[i].as_str());
        lines.push(line);
        i = i + 1;
    }
    assert(texts(lines@) =~= hint_lines(selected@, intent));
    if lines.len() == 1 {
        return None;
    }
    Some(fit(join(&lines, "\n"), TOOL_HINT_PROMPT_CHAR_BUDGET, "\n*(tool hints truncated)*"))
}

/// A tool that the memory speaks for.
#[derive(Debug, PartialEq, Eq)]
pub struct ToolPreference {
    pub tool: String,
    pub reason: String,
    pub weight: u32,
}

#[verifier::ext_equal]
pub struct PreferenceView {
    pub tool: Seq<char>,
    pub reason: Seq<char>,
    pub weight: u32,
}

impl ToolPreference {
    pub open spec fn view(self) -> PreferenceView {
        PreferenceView { tool: self.tool@, reason: self.reason@, weight: self.weight }
    }
}

pub open spec fn preferences_view(v: Seq<ToolPreference>) -> Seq<PreferenceView> {
    v.map_values(|p: ToolPreference| p@)
}

/// The tools that the memory speaks for.
pub open spec fn preferred_tools(r: RetrievedView) -> Seq<PreferenceView> {
    let command = if remembered_command(r) is Some {
        seq![
            PreferenceView { tool: "exec"@, reason: "remembered command pattern"@, weight: 4 },
        ]
    } else {
        Seq::empty()
    };
    let file = if remembered_file(r) is Some {
        seq![
            PreferenceView { tool: "read_file"@, reason: "remembered file anchor"@, weight: 4 },
            PreferenceView { tool: "search_files"@, reason: "remembered file anchor"@, weight: 4 },
        ]
    } else {
        Seq::empty()
    };
    let url = if remembered_url(r) is Some {
        seq![
            PreferenceView { tool: "http_fetch"@, reason: "remembered URL anchor"@, weight: 4 },
        ]
    } else {
        Seq::empty()
    };
    let open = if r.open_loops.len() > 0 {
        seq![PreferenceView { tool: "think"@, reason: "open memory loop"@, weight: 3 }]
    } else {
        Seq::empty()
    };
    command + file + url + open
}

fn prefer(v: &mut Vec<ToolPreference>, tool: &str, reason: &str, weight: u32)
    ensures
        preferences_view(final(v)@) == preferences_view(old(v)@).push(
            PreferenceView { tool: tool@, reason: reason@, weight },
        ),
{
    let ghost start = preferences_view(v@);
    let p = ToolPreference { tool: owned(tool), reason: owned(reason), weight };
    let ghost view = p@;
    v.push(p);
    assert(preferences_view(v@) =~= start.push(view));
}

/// The tools that the memory speaks for.
pub fn task_tool_ranking_context(selected: &RetrievedTaskMemory) -> (r: Vec<ToolPreference>)
    ensures
        preferences_view(r@) == preferred_tools(selected@),
{
    let mut v: Vec<ToolPreference> = Vec::new();
    if remembered_command_hint(selected).is_some() {
        prefer(&mut v, "exec", "remembered command pattern", 4);
    }
    if remembered_file_anchor(selected).is_some() {
        prefer(&mut v, "read_file", "remembered file anchor", 4);
        prefer(&mut v, "search_files", "remembered file anchor", 4);
    }
    if remembered_url_anchor(selected).is_some() {
        prefer(&mut v, "http_fetch", "remembered URL anchor", 4);
    }
    if selected.open_loops.len() > 0 {
        prefer(&mut v, "think", "open memory loop", 3);
    }
    assert(preferences_view(v@) =~= preferred_tools(selected@));
    v
}

/// No two texts that were noted once compare equal.
pub proof fn law_noted_once_distinct(from: Seq<Seq<char>>, max: nat, n: int)
    ensures
        forall|i: int, j: int|
            0 <= i < j < all_noted(from, max, n).len() ==> match_text(
                #[trigger] all_noted(from, max, n)[i],
            ) != match_text(#[trigger] all_noted(from, max, n)[j]),
        forall|i: int|
            0 <= i < all_noted(from, max, n).len() ==> (#[trigger] all_noted(
                from,
                max,
                n,
            )[i]).len() <= max,
    decreases n,
{
    if n > 0 {
        law_noted_once_distinct(from, max, n - 1);
        let before = all_noted(from, max, n - 1);
        let after = all_noted(from, max, n);
        assert forall|i: int, j: int| 0 <= i < j < after.len() implies match_text(
            #[trigger] after[i],
        ) != match_text(#[trigger] after[j]) by {
            assert(after[i] == before[i]);
            if j < before.len() {
                assert(after[j] == before[j]);
            }
        }
        assert forall|i: int| 0 <= i < after.len() implies (#[trigger] after[i]).len() <= max by {
            if i < before.len() {
                assert(after[i] == before[i]);
            }
        }
    }
}

} // verus!
