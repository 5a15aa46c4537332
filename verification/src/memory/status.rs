//! What the user is shown of the memory and of the background updates.

use crate::memory::model::{
    CommandPattern, FactView, LessonView, LoopView, MemoryFact, MemoryLesson, MemoryView,
    OpenLoop, PatternView, ProjectSignal, SignalView, StructuredMemory, confidence_label,
    facts_view, lessons_view, loop_status_label, loops_view, memory_empty, patterns_view,
    signals_view,
};
use crate::memory::prompt::{push_section, section};
use crate::text::{
    clone_opt, concat3, decimal, decimal_spec, ellipsize, ellipsized, join, joined, lines,
    lines_of, opt_text, owned, texts,
};
use vstd::prelude::*;
use vstd::string::*;

verus! {

/// An age in words.
pub open spec fn age_text(secs: nat) -> Seq<char> {
    if secs < 60 {
        "just now"@
    } else if secs < 3600 {
        decimal_spec(secs / 60) + "m ago"@
    } else if secs < 86400 {
        decimal_spec(secs / 3600) + "h ago"@
    } else {
        decimal_spec(secs / 86400) + "d ago"@
    }
}

/// An age in words.
pub fn format_relative_age(age_secs: u64) -> (r: String)
    ensures
        r@ == age_text(age_secs as nat),
{
    if age_secs < 60 {
        return owned("just now");
    }
    if age_secs < 3600 {
        let mut s = decimal(age_secs / 60);
        s.append("m ago");
        return s;
    }
    if age_secs < 86400 {
        let mut s = decimal(age_secs / 3600);
        s.append("h ago");
        return s;
    }
    let mut s = decimal(age_secs / 86400);
    s.append("d ago");
    s
}

/// The seconds from `ts` to `now`, none where `ts` is later.
pub open spec fn age_of(ts: u64, now: u64) -> nat {
    if now >= ts {
        (now - ts) as nat
    } else {
        0
    }
}

fn age(ts: u64, now: u64) -> (r: u64)
    ensures
        r == age_of(ts, now),
{
    if now >= ts {
        now - ts
    } else {
        0
    }
}

/// How long ago `ts` was; nothing where there is no time.
pub fn timestamp_label(ts: u64, now: u64) -> (r: Option<String>)
    ensures
        opt_text(r) == (if ts == 0 {
            None
        } else {
            Some(age_text(age_of(ts, now)))
        }),
{
    if ts == 0 {
        return None;
    }
    Some(format_relative_age(age(ts, now)))
}

/// A text within a number of bytes, with an ellipsis where it was cut.
pub fn truncate_inline(text: &str, limit: usize) -> (r: String)
    ensures
        r@ == ellipsized(text@, limit as nat),
{
    ellipsize(text, limit)
}

// ---------------------------------------------------------------------------
// The memory
// ---------------------------------------------------------------------------

/// A count with its unit, left out where it is zero.
pub open spec fn count_part(n: nat, unit: Seq<char>) -> Seq<Seq<char>> {
    if n == 0 {
        Seq::empty()
    } else {
        seq![decimal_spec(n) + unit]
    }
}

/// How many records of each kind there are.
pub open spec fn count_parts(m: MemoryView) -> Seq<Seq<char>> {
    count_part(m.facts.len(), " facts"@) + count_part(m.lessons.len(), " lessons"@) + count_part(
        m.open_loops.len(),
        " open loops"@,
    ) + count_part(m.command_patterns.len(), " command patterns"@) + count_part(
        m.project_signals.len(),
        " project signals"@,
    )
}

fn push_count(out: &mut Vec<String>, n: usize, unit: &str)
    ensures
        texts(final(out)@) == texts(old(out)@) + count_part(n as nat, unit@),
{
    let ghost start = texts(out@);
    if n > 0 {
        let mut s = decimal(n as u64);
        s.append(unit);
        let ghost view = s@;
        out.push(s);
        assert(texts(out@) =~= start + seq![view]);
    } else {
        assert(texts(out@) =~= start + count_part(n as nat, unit@));
    }
}

/// `  <number>. `: the start of a numbered line.
pub open spec fn numbered(n: nat) -> Seq<char> {
    "  "@ + decimal_spec(n) + ". "@
}

fn number_start(n: u64) -> (r: String)
    ensures
        r@ == numbered(n as nat),
{
    concat3("  ", decimal(n).as_str(), ". ")
}

pub open spec fn status_fact(v: FactView, n: nat) -> Seq<char> {
    numbered(n) + "**"@ + v.key + "**: "@ + ellipsized(v.value, 80)
}

pub open spec fn status_lesson(v: LessonView, n: nat) -> Seq<char> {
    numbered(n) + "**"@ + v.title + "** ["@ + confidence_label(v.confidence) + "]: when "@
        + ellipsized(v.when_to_apply, 60) + "; "@ + ellipsized(v.recommendation, 80)
}

pub open spec fn status_loop(v: LoopView, n: nat) -> Seq<char> {
    numbered(n) + "**"@ + v.goal + "** ["@ + loop_status_label(v.status) + "]: next "@ + ellipsized(
        v.next_step,
        80,
    )
}

pub open spec fn status_pattern(v: PatternView, n: nat) -> Seq<char> {
    numbered(n) + "`"@ + ellipsized(v.signature, 60) + "` ["@ + confidence_label(v.confidence)
        + "]: "@ + ellipsized(v.outcome, 80)
}

pub open spec fn status_signal(v: SignalView, n: nat) -> Seq<char> {
    numbered(n) + "**"@ + v.key + "**: "@ + ellipsized(v.value, 80)
}

/// The lines on what is remembered.
pub open spec fn status_lines(m: MemoryView, now: u64) -> Seq<Seq<char>> {
    let head = seq!["**Structured Memory** ("@ + joined(count_parts(m), ", "@) + ")"@];
    let context = match m.user_context {
        Some(c) => seq!["User context: "@ + ellipsized(c, 100)],
        None => Seq::empty(),
    };
    let updated = if m.updated_at > 0 {
        seq!["Last updated: "@ + age_text(age_of(m.updated_at, now))]
    } else {
        Seq::empty()
    };
    head + context + section(
        "Facts:"@,
        Seq::new(m.facts.len(), |i: int| status_fact(m.facts[i], (i + 1) as nat)),
    ) + section(
        "Lessons:"@,
        Seq::new(m.lessons.len(), |i: int| status_lesson(m.lessons[i], (i + 1) as nat)),
    ) + section(
        "Open loops:"@,
        Seq::new(m.open_loops.len(), |i: int| status_loop(m.open_loops[i], (i + 1) as nat)),
    ) + section(
        "Command patterns:"@,
        Seq::new(
            m.command_patterns.len(),
            |i: int| status_pattern(m.command_patterns[i], (i + 1) as nat),
        ),
    ) + section(
        "Project signals:"@,
        Seq::new(
            m.project_signals.len(),
            |i: int| status_signal(m.project_signals[i], (i + 1) as nat),
        ),
    ) + updated
}

/// What the user is shown of the memory.
pub open spec fn status_text(m: MemoryView, now: u64) -> Seq<char> {
    if memory_empty(m) {
        "Structured memory: empty (will populate after first conversation)"@
    } else {
        joined(status_lines(m, now), "\n"@)
    }
}

fn fact_status(v: &Vec<MemoryFact>) -> (r: Vec<String>)
    ensures
        texts(r@) == Seq::new(v@.len(), |i: int| status_fact(facts_view(v@)[i], (i + 1) as nat)),
{
    let mut r: Vec<String> = Vec::new();
    let mut i: usize = 0;
    while i < v.len()
        invariant
            i <= v@.len(),
            r@.len() == i,
            forall|j: int|
                0 <= j < i ==> (#[trigger] r@[j])@ == status_fact(v@[j]@, (j + 1) as nat),
        decreases v@.len() - i,
    {
        let mut s = number_start(i as u64 + 1);
        s.append("**");
        s.append(v[i].key.as_str());
        s.append("**: ");
        s.append(ellipsize(v[i].value.as_str(), 80).as_str());
        r.push(s);
        i = i + 1;
    }
    assert(texts(r@) =~= Seq::new(
        v@.len(),
        |i: int| status_fact(facts_view(v@)[i], (i + 1) as nat),
    ));
    r
}

fn lesson_status(v: &Vec<MemoryLesson>) -> (r: Vec<String>)
    ensures
        texts(r@) == Seq::new(
            v@.len(),
            |i: int| status_lesson(lessons_view(v@)[i], (i + 1) as nat),
        ),
{
    let mut r: Vec<String> = Vec::new();
    let mut i: usize = 0;
    while i < v.len()
        invariant
            i <= v@.len(),
            r@.len() == i,
            forall|j: int|
                0 <= j < i ==> (#[trigger] r@[j])@ == status_lesson(v@[j]@, (j + 1) as nat),
        decreases v@.len() - i,
    {
        let mut s = number_start(i as u64 + 1);
        s.append("**");
        s.append(v[i].title.as_str());
        s.append("** [");
        s.append(v[i].confidence.label());
        s.append("]: when ");
        s.append(ellipsize(v[i].when_to_apply.as_str(), 60).as_str());
        s.append("; ");
        s.append(ellipsize(v[i].recommendation.as_str(), 80).as_str());
        r.push(s);
        i = i + 1;
    }
    assert(texts(r@) =~= Seq::new(
        v@.len(),
        |i: int| status_lesson(lessons_view(v@)[i], (i + 1) as nat),
    ));
    r
}

fn loop_status(v: &Vec<OpenLoop>) -> (r: Vec<String>)
    ensures
        texts(r@) == Seq::new(v@.len(), |i: int| status_loop(loops_view(v@)[i], (i + 1) as nat)),
{
    let mut r: Vec<String> = Vec::new();
    let mut i: usize = 0;
    while i < v.len()
        invariant
            i <= v@.len(),
            r@.len() == i,
            forall|j: int|
                0 <= j < i ==> (#[trigger] r@[j])@ == status_loop(v@[j]@, (j + 1) as nat),
        decreases v@.len() - i,
    {
        let mut s = number_start(i as u64 + 1);
        s.append("**");
        s.append(v[i].goal.as_str());
        s.append("** [");
        s.append(v[i].status.label());
        s.append("]: next ");
        s.append(ellipsize(v[i].next_step.as_str(), 80).as_str());
        r.push(s);
        i = i + 1;
    }
    assert(texts(r@) =~= Seq::new(
        v@.len(),
        |i: int| status_loop(loops_view(v@)[i], (i + 1) as nat),
    ));
    r
}

fn pattern_status(v: &Vec<CommandPattern>) -> (r: Vec<String>)
    ensures
        texts(r@) == Seq::new(
            v@.len(),
            |i: int| status_pattern(patterns_view(v@)[i], (i + 1) as nat),
        ),
{
    let mut r: Vec<String> = Vec::new();
    let mut i: usize = 0;
    while i < v.len()
        invariant
            i <= v@.len(),
            r@.len() == i,
            forall|j: int|
                0 <= j < i ==> (#[trigger] r@[j])@ == status_pattern(v@[j]@, (j + 1) as nat),
        decreases v@.len() - i,
    {
        let mut s = number_start(i as u64 + 1);
        s.append("`");
        s.append(ellipsize(v[i].signature.as_str(), 60).as_str());
        s.append("` [");
        s.append(v[i].confidence.label());
        s.append("]: ");
        s.append(ellipsize(v[i].outcome.as_str(), 80).as_str());
        r.push(s);
        i = i + 1;
    }
    assert(texts(r@) =~= Seq::new(
        v@.len(),
        |i: int| status_pattern(patterns_view(v@)[i], (i + 1) as nat),
    ));
    r
}

fn signal_status(v: &Vec<ProjectSignal>) -> (r: Vec<String>)
    ensures
        texts(r@) == Seq::new(
            v@.len(),
            |i: int| status_signal(signals_view(v@)[i], (i + 1) as nat),
        ),
{
    let mut r: Vec<String> = Vec::new();
    let mut i: usize = 0;
    while i < v.len()
        invariant
            i <= v@.len(),
            r@.len() == i,
            forall|j: int|
                0 <= j < i ==> (#[trigger] r@[j])@ == status_signal(v@[j]@, (j + 1) as nat),
        decreases v@.len() - i,
    {
        let mut s = number_start(i as u64 + 1);
        s.append("**");
        s.append(v[i].key.as_str());
        s.append("**: ");
        s.append(ellipsize(v[i].value.as_str(), 80).as_str());
        r.push(s);
        i = i + 1;
    }
    assert(texts(r@) =~= Seq::new(
        v@.len(),
        |i: int| status_signal(signals_view(v@)[i], (i + 1) as nat),
    ));
    r
}

/// Appends `a + b` as one line.
pub fn push_pair(out: &mut Vec<String>, a: &str, b: &str)
    ensures
        texts(final(out)@) == texts(old(out)@) + seq![a@ + b@],
{
    let ghost start = texts(out@);
    let mut line = owned(a);
    line.append(b);
    let ghost view = line@;
    out.push(line);
    assert(texts(out@) =~= start + seq![view]);
}

/// What the user is shown of the memory.
pub fn memory_status(mem: &StructuredMemory, now: u64) -> (r: String)
    ensures
        r@ == status_text(mem@, now),
{
    if mem.is_empty() {
        return owned("Structured memory: empty (will populate after first conversation)");
    }
    let ghost none = Seq::<Seq<char>>::empty();
    let mut counts: Vec<String> = Vec::new();
    assert(texts(counts@) =~= none);
    push_count(&mut counts, mem.facts.len(), " facts");
    push_count(&mut counts, mem.lessons.len(), " lessons");
    push_count(&mut counts, mem.open_loops.len(), " open loops");
    push_count(&mut counts, mem.command_patterns.len(), " command patterns");
    push_count(&mut counts, mem.project_signals.len(), " project signals");
    assert(texts(counts@) =~= count_parts(mem@));
    let mut out: Vec<String> = Vec::new();
    let head = concat3("**Structured Memory** (", join(&counts, ", ").as_str(), ")");
    let ghost head_view = head@;
    out.push(head);
    assert(texts(out@) =~= seq![head_view]);
    let ghost o1 = texts(out@);
    if let Some(ctx) = &mem.user_context {
        push_pair(&mut out, "User context: ", ellipsize(ctx.as_str(), 100).as_str());
    } else {
        assert(texts(out@) =~= o1 + none);
    }
    push_section(&mut out, "Facts:", fact_status(&mem.facts));
    push_section(&mut out, "Lessons:", lesson_status(&mem.lessons));
    push_section(&mut out, "Open loops:", loop_status(&mem.open_loops));
    push_section(&mut out, "Command patterns:", pattern_status(&mem.command_patterns));
    push_section(&mut out, "Project signals:", signal_status(&mem.project_signals));
    let ghost o2 = texts(out@);
    if mem.updated_at > 0 {
        push_pair(
            &mut out,
            "Last updated: ",
            format_relative_age(age(mem.updated_at, now)).as_str(),
        );
    } else {
        assert(texts(out@) =~= o2 + none);
    }
    assert(texts(out@) == status_lines(mem@, now));
    join(&out, "\n")
}

// ---------------------------------------------------------------------------
// The queue
// ---------------------------------------------------------------------------

/// How the background updates are doing.
#[derive(Debug, PartialEq, Eq)]
pub struct MemoryQueueStatusSnapshot {
    pub state: String,
    pub enqueued: u64,
    pub replaced_during_debounce: u64,
    pub started: u64,
    pub succeeded: u64,
    pub failed: u64,
    pub timed_out: u64,
    pub last_model: Option<String>,
    pub last_excerpt_chars: usize,
    pub last_duration_ms: u64,
    pub last_error: Option<String>,
    pub last_enqueued_at: u64,
    pub last_started_at: u64,
    pub last_finished_at: u64,
    pub last_success_at: u64,
    pub last_failure_at: u64,
}

#[verifier::ext_equal]
pub struct SnapshotView {
    pub state: Seq<char>,
    pub enqueued: u64,
    pub replaced_during_debounce: u64,
    pub started: u64,
    pub succeeded: u64,
    pub failed: u64,
    pub timed_out: u64,
    pub last_model: Option<Seq<char>>,
    pub last_excerpt_chars: usize,
    pub last_duration_ms: u64,
    pub last_error: Option<Seq<char>>,
    pub last_enqueued_at: u64,
    pub last_started_at: u64,
    pub last_finished_at: u64,
    pub last_success_at: u64,
    pub last_failure_at: u64,
}

impl MemoryQueueStatusSnapshot {
    pub open spec fn view(self) -> SnapshotView {
        SnapshotView {
            state: self.state@,
            enqueued: self.enqueued,
            replaced_during_debounce: self.replaced_during_debounce,
            started: self.started,
            succeeded: self.succeeded,
            failed: self.failed,
            timed_out: self.timed_out,
            last_model: opt_text(self.last_model),
            last_excerpt_chars: self.last_excerpt_chars,
            last_duration_ms: self.last_duration_ms,
            last_error: opt_text(self.last_error),
            last_enqueued_at: self.last_enqueued_at,
            last_started_at: self.last_started_at,
            last_finished_at: self.last_finished_at,
            last_success_at: self.last_success_at,
            last_failure_at: self.last_failure_at,
        }
    }
}

/// A line on a time; nothing where there is none.
pub open spec fn time_line(label: Seq<char>, ts: u64, now: u64) -> Seq<Seq<char>> {
    if ts == 0 {
        Seq::empty()
    } else {
        seq![label + age_text(age_of(ts, now))]
    }
}

fn push_time(out: &mut Vec<String>, label: &str, ts: u64, now: u64)
    ensures
        texts(final(out)@) == texts(old(out)@) + time_line(label@, ts, now),
{
    let ghost start = texts(out@);
    match timestamp_label(ts, now) {
        Some(t) => push_pair(out, label, t.as_str()),
        None => {
            assert(texts(out@) =~= start + time_line(label@, ts, now));
        },
    }
}

/// The line on how many updates there were.
pub open spec fn attempts_line(s: SnapshotView) -> Seq<char> {
    "Attempts: enqueued "@ + decimal_spec(s.enqueued as nat) + " | started "@ + decimal_spec(
        s.started as nat,
    ) + " | ok "@ + decimal_spec(s.succeeded as nat) + " | failed "@ + decimal_spec(
        s.failed as nat,
    ) + " | timed out "@ + decimal_spec(s.timed_out as nat)
}

/// One line where `shown` holds, else none.
pub open spec fn line_if(shown: bool, line: Seq<char>) -> Seq<Seq<char>> {
    if shown {
        seq![line]
    } else {
        Seq::empty()
    }
}

/// The lines on the background updates.
pub open spec fn queue_lines(s: SnapshotView, now: u64) -> Seq<Seq<char>> {
    seq!["**Memory Updater**"@, "State: "@ + s.state, attempts_line(s)] + line_if(
        s.replaced_during_debounce > 0,
        "Debounce replacements: "@ + decimal_spec(s.replaced_during_debounce as nat),
    ) + line_if(s.last_model is Some, "Last model: "@ + s.last_model->0) + line_if(
        s.last_excerpt_chars > 0,
        "Last excerpt: "@ + decimal_spec(s.last_excerpt_chars as nat) + " chars"@,
    ) + line_if(
        s.last_duration_ms > 0,
        "Last duration: "@ + decimal_spec(s.last_duration_ms as nat) + " ms"@,
    ) + time_line("Last enqueued: "@, s.last_enqueued_at, now) + time_line(
        "Last started: "@,
        s.last_started_at,
        now,
    ) + time_line("Last success: "@, s.last_success_at, now) + time_line(
        "Last failure: "@,
        s.last_failure_at,
        now,
    ) + line_if(s.last_error is Some, "Last error: "@ + ellipsized(s.last_error->0, 160))
}

fn push_if(out: &mut Vec<String>, shown: bool, a: &str, b: &str, c: &str)
    ensures
        texts(final(out)@) == texts(old(out)@) + line_if(shown, a@ + b@ + c@),
{
    let ghost start = texts(out@);
    if shown {
        let line = concat3(a, b, c);
        let ghost view = line@;
        out.push(line);
        assert(texts(out@) =~= start + seq![view]);
    } else {
        assert(texts(out@) =~= start + line_if(shown, a@ + b@ + c@));
    }
}

/// What the user is shown of the background updates.
pub fn format_queue_status(snapshot: &MemoryQueueStatusSnapshot, now: u64) -> (r: String)
    ensures
        r@ == joined(queue_lines(snapshot@, now), "\n"@),
{
    let ghost none = Seq::<Seq<char>>::empty();
    let mut out: Vec<String> = Vec::new();
    out.push(owned("**Memory Updater**"));
    let mut state = owned("State: ");
    state.append(snapshot.state.as_str());
    out.push(state);
    let mut attempts = owned("Attempts: enqueued ");
    attempts.append(decimal(snapshot.enqueued).as_str());
    attempts.append(" | started ");
    attempts.append(decimal(snapshot.started).as_str());
    attempts.append(" | ok ");
    attempts.append(decimal(snapshot.succeeded).as_str());
    attempts.append(" | failed ");
    attempts.append(decimal(snapshot.failed).as_str());
    attempts.append(" | timed out ");
    attempts.append(decimal(snapshot.timed_out).as_str());
    out.push(attempts);
    assert(texts(out@) =~= seq![
        "**Memory Updater**"@,
        "State: "@ + snapshot@.state,
        attempts_line(snapshot@),
    ]);
    let ghost o1 = texts(out@);
    if snapshot.replaced_during_debounce > 0 {
        push_pair(
            &mut out,
            "Debounce replacements: ",
            decimal(snapshot.replaced_during_debounce).as_str(),
        );
    } else {
        assert(texts(out@) =~= o1 + none);
    }
    let ghost o2 = texts(out@);
    if let Some(model) = &snapshot.last_model {
        push_pair(&mut out, "Last model: ", model.as_str());
    } else {
        assert(texts(out@) =~= o2 + none);
    }
    push_if(
        &mut out,
        snapshot.last_excerpt_chars > 0,
        "Last excerpt: ",
        decimal(snapshot.last_excerpt_chars as u64).as_str(),
        " chars",
    );
    push_if(
        &mut out,
        snapshot.last_duration_ms > 0,
        "Last duration: ",
        decimal(snapshot.last_duration_ms).as_str(),
        " ms",
    );
    push_time(&mut out, "Last enqueued: ", snapshot.last_enqueued_at, now);
    push_time(&mut out, "Last started: ", snapshot.last_started_at, now);
    push_time(&mut out, "Last success: ", snapshot.last_success_at, now);
    push_time(&mut out, "Last failure: ", snapshot.last_failure_at, now);
    let ghost o3 = texts(out@);
    if let Some(error) = &snapshot.last_error {
        push_pair(&mut out, "Last error: ", ellipsize(error.as_str(), 160).as_str());
    } else {
        assert(texts(out@) =~= o3 + none);
    }
    assert(texts(out@) == queue_lines(snapshot@, now));
    join(&out, "\n")
}

/// What the user is shown of the background updates, where there are any.
pub open spec fn runtime_text(s: Option<SnapshotView>, now: u64) -> Seq<char> {
    match s {
        Some(x) => joined(queue_lines(x, now), "\n"@),
        None => "**Memory Updater**\nState: unavailable in this process"@,
    }
}

/// The snapshot behind an optional snapshot.
pub open spec fn opt_snapshot(s: Option<&MemoryQueueStatusSnapshot>) -> Option<SnapshotView> {
    match s {
        Some(x) => Some(x@),
        None => None,
    }
}

/// What the user is shown of the background updates, where there are any.
pub fn memory_runtime_status(queue: Option<&MemoryQueueStatusSnapshot>, now: u64) -> (r: String)
    ensures
        r@ == runtime_text(opt_snapshot(queue), now),
{
    match queue {
        Some(q) => format_queue_status(q, now),
        None => owned("**Memory Updater**\nState: unavailable in this process"),
    }
}

// ---------------------------------------------------------------------------
// The audit log
// ---------------------------------------------------------------------------

/// One entry of the audit log.
#[derive(Debug, PartialEq, Eq)]
pub struct MemoryAuditRecord {
    pub timestamp: u64,
    pub model: String,
    pub status: String,
    pub excerpt_chars: usize,
    pub duration_ms: u64,
    pub facts_before: usize,
    pub facts_after: usize,
    pub entries_before: usize,
    pub entries_after: usize,
    pub had_user_context_before: bool,
    pub had_user_context_after: bool,
    pub changed: bool,
    pub error: Option<String>,
}

#[verifier::ext_equal]
pub struct AuditView {
    pub timestamp: u64,
    pub model: Seq<char>,
    pub status: Seq<char>,
    pub excerpt_chars: usize,
    pub duration_ms: u64,
    pub facts_before: usize,
    pub facts_after: usize,
    pub entries_before: usize,
    pub entries_after: usize,
    pub had_user_context_before: bool,
    pub had_user_context_after: bool,
    pub changed: bool,
    pub error: Option<Seq<char>>,
}

impl MemoryAuditRecord {
    pub open spec fn view(self) -> AuditView {
        AuditView {
            timestamp: self.timestamp,
            model: self.model@,
            status: self.status@,
            excerpt_chars: self.excerpt_chars,
            duration_ms: self.duration_ms,
            facts_before: self.facts_before,
            facts_after: self.facts_after,
            entries_before: self.entries_before,
            entries_after: self.entries_after,
            had_user_context_before: self.had_user_context_before,
            had_user_context_after: self.had_user_context_after,
            changed: self.changed,
            error: opt_text(self.error),
        }
    }

    /// A copy of this entry.
    pub fn copy(&self) -> (r: MemoryAuditRecord)
        ensures
            r@ == self@,
    {
        MemoryAuditRecord {
            timestamp: self.timestamp,
            model: self.model.clone(),
            status: self.status.clone(),
            excerpt_chars: self.excerpt_chars,
            duration_ms: self.duration_ms,
            facts_before: self.facts_before,
            facts_after: self.facts_after,
            entries_before: self.entries_before,
            entries_after: self.entries_after,
            had_user_context_before: self.had_user_context_before,
            had_user_context_after: self.had_user_context_after,
            changed: self.changed,
            error: clone_opt(&self.error),
        }
    }
}

pub open spec fn audits_view(v: Seq<MemoryAuditRecord>) -> Seq<AuditView> {
    v.map_values(|a: MemoryAuditRecord| a@)
}

/// The log is larger than this before its older half is dropped.
pub const MEMORY_AUDIT_MAX_BYTES: u64 = 256000;

/// Whether a log of this many bytes is due to be shortened.
pub fn audit_needs_rotation(size: u64) -> (r: bool)
    ensures
        r == (size > MEMORY_AUDIT_MAX_BYTES),
{
    size > MEMORY_AUDIT_MAX_BYTES
}

/// A log without the older half of its lines.
pub open spec fn rotated(data: Seq<char>) -> Seq<char> {
    let v = lines_of(data);
    joined(v.skip((v.len() / 2) as int), "\n"@) + "\n"@
}

/// The log without the older half of its lines.
pub fn rotate_audit(data: &str) -> (r: String)
    ensures
        r@ == rotated(data@),
{
    let v = lines(data);
    let ghost all = texts(v@);
    let from: usize = v.len() / 2;
    let mut kept: Vec<String> = Vec::new();
    let mut i: usize = from;
    while i < v.len()
        invariant
            from <= i <= v@.len(),
            kept@.len() == i - from,
            forall|j: int| 0 <= j < i - from ==> (#[trigger] kept@[j])@ == v@[from + j]@,
        decreases v@.len() - i,
    {
        kept.push(v[i].clone());
        i = i + 1;
    }
    assert(all.len() == v@.len());
    assert(texts(kept@) =~= all.skip((all.len() / 2) as int));
    let mut out = join(&kept, "\n");
    out.append("\n");
    out
}

/// What could be read of the lines of the log.
pub open spec fn read_lines(v: Seq<Option<MemoryAuditRecord>>) -> Seq<Option<AuditView>> {
    v.map_values(
        |o: Option<MemoryAuditRecord>|
            match o {
                Some(a) => Some(a@),
                None => None,
            },
    )
}

/// The last `limit` entries among the first `n` lines, in order.
pub open spec fn recent_entries(v: Seq<Option<AuditView>>, limit: nat, n: int) -> Seq<AuditView>
    decreases n,
{
    if n <= 0 || limit == 0 {
        Seq::empty()
    } else {
        match v[n - 1] {
            Some(a) => recent_entries(v, (limit - 1) as nat, n - 1).push(a),
            None => recent_entries(v, limit, n - 1),
        }
    }
}

/// The last `limit` entries of the log, in order. `parsed` holds what each line
/// was read as, from the oldest to the newest.
pub fn read_recent_memory_audit(parsed: &Vec<Option<MemoryAuditRecord>>, limit: usize) -> (r: Vec<
    MemoryAuditRecord,
>)
    ensures
        audits_view(r@) == recent_entries(
            read_lines(parsed@),
            limit as nat,
            parsed@.len() as int,
        ),
    decreases parsed@.len(),
{
    recent_upto(parsed, limit, parsed.len())
}

fn recent_upto(parsed: &Vec<Option<MemoryAuditRecord>>, limit: usize, n: usize) -> (r: Vec<
    MemoryAuditRecord,
>)
    requires
        n <= parsed@.len(),
    ensures
        audits_view(r@) == recent_entries(read_lines(parsed@), limit as nat, n as int),
    decreases n,
{
    if n == 0 || limit == 0 {
        let r: Vec<MemoryAuditRecord> = Vec::new();
        assert(audits_view(r@) =~= Seq::empty());
        return r;
    }
    match &parsed[n - 1] {
        Some(a) => {
            assert(read_lines(parsed@)[n - 1] == Some(a@));
            let mut r = recent_upto(parsed, limit - 1, n - 1);
            let ghost before = audits_view(r@);
            let x = a.copy();
            let ghost view = x@;
            r.push(x);
            assert(audits_view(r@) =~= before.push(view));
            r
        },
        None => {
            assert(read_lines(parsed@)[n - 1] is None);
            recent_upto(parsed, limit, n - 1)
        },
    }
}

/// A line on an entry of the log.
pub open spec fn audit_line(a: AuditView, now: u64) -> Seq<char> {
    let base = "- "@ + age_text(age_of(a.timestamp, now)) + " | "@ + a.status + " | model "@
        + a.model + " | excerpt "@ + decimal_spec(a.excerpt_chars as nat) + " chars | facts "@
        + decimal_spec(a.facts_before as nat) + " -> "@ + decimal_spec(a.facts_after as nat)
        + " | entries "@ + decimal_spec(a.entries_before as nat) + " -> "@ + decimal_spec(
        a.entries_after as nat,
    ) + " | "@ + decimal_spec(a.duration_ms as nat) + " ms"@;
    match a.error {
        Some(e) => base + (" | "@ + ellipsized(e, 120)),
        None => base,
    }
}

fn audit_text(a: &MemoryAuditRecord, now: u64) -> (r: String)
    ensures
        r@ == audit_line(a@, now),
{
    let mut s = owned("- ");
    s.append(format_relative_age(age(a.timestamp, now)).as_str());
    s.append(" | ");
    s.append(a.status.as_str());
    s.append(" | model ");
    s.append(a.model.as_str());
    s.append(" | excerpt ");
    s.append(decimal(a.excerpt_chars as u64).as_str());
    s.append(" chars | facts ");
    s.append(decimal(a.facts_before as u64).as_str());
    s.append(" -> ");
    s.append(decimal(a.facts_after as u64).as_str());
    s.append(" | entries ");
    s.append(decimal(a.entries_before as u64).as_str());
    s.append(" -> ");
    s.append(decimal(a.entries_after as u64).as_str());
    s.append(" | ");
    s.append(decimal(a.duration_ms).as_str());
    s.append(" ms");
    if let Some(e) = &a.error {
        let ghost base = s@;
        let mut tail = owned(" | ");
        tail.append(ellipsize(e.as_str(), 120).as_str());
        s.append(tail.as_str());
    }
    s
}

/// The lines on the background updates and their log.
pub open spec fn debug_lines(s: Option<SnapshotView>, audit: Seq<AuditView>, now: u64) -> Seq<
    Seq<char>,
> {
    if audit.len() == 0 {
        seq![runtime_text(s, now), "\nRecent audit entries: none"@]
    } else {
        seq![runtime_text(s, now), "\nRecent audit entries:"@] + audit.map_values(
            |a: AuditView| audit_line(a, now),
        )
    }
}

/// What is shown of the background updates and the last entries of their log.
pub fn memory_debug_status(
    queue: Option<&MemoryQueueStatusSnapshot>,
    records: &Vec<MemoryAuditRecord>,
    now: u64,
) -> (r: String)
    ensures
        r@ == joined(debug_lines(opt_snapshot(queue), audits_view(records@), now), "\n"@),
{
    let mut out: Vec<String> = Vec::new();
    out.push(memory_runtime_status(queue, now));
    if records.len() == 0 {
        out.push(owned("\nRecent audit entries: none"));
        assert(texts(out@) =~= debug_lines(opt_snapshot(queue), audits_view(records@), now));
        return join(&out, "\n");
    }
    out.push(owned("\nRecent audit entries:"));
    let mut i: usize = 0;
    while i < records.len()
        invariant
            i <= records@.len(),
            out@.len() == i + 2,
            out@[0]@ == runtime_text(opt_snapshot(queue), now),
            out@[1]@ == "\nRecent audit entries:"@,
            forall|j: int| 2 <= j < i + 2 ==> (#[trigger] out@[j])@ == audit_line(
                records@[j - 2]@,
                now,
            ),
        decreases records@.len() - i,
    {
        out.push(audit_text(&records[i], now));
        i = i + 1;
    }
    assert(texts(out@) =~= debug_lines(opt_snapshot(queue), audits_view(records@), now));
    join(&out, "\n")
}

} // verus!
