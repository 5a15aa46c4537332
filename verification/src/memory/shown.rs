//! What the sections of a prompt show of the memory.

use crate::memory::model::{
    FactView, LessonView, LoopView, MemoryView, PatternView, RetrievedView, SignalView,
    confidence_label, loop_status_label,
};
use crate::memory::prompt::{
    MEMORY_INJECTION_CHAR_BUDGET, fact_line, injection_lines, injection_text, lesson_line,
    loop_line, pattern_line, section, signal_line,
};
use crate::memory::select::{
    QueryView, picked_facts, picked_lessons, picked_loops, picked_patterns, picked_signals,
};
use crate::memory::task::{
    TaskIntent, focus_line, task_fact_line, task_lesson_line, task_lines, task_loop_line,
    task_pattern_line, task_signal_line,
};
use crate::text::{byte_len, joined, trimmed};
use crate::within::{lemma_carries_over, lemma_within, occurs};
use vstd::prelude::*;
use vstd::string::*;

verus! {

/// One of the lines shows the text.
pub open spec fn some_line_shows(lines: Seq<Seq<char>>, a: Seq<char>, b: Seq<char>) -> bool {
    exists|i: int|
        0 <= i < lines.len() && occurs(#[trigger] lines[i], a) && occurs(lines[i], b)
}

proof fn lemma_line_of_all(lines: Seq<Seq<char>>, sep: Seq<char>, i: int)
    requires
        0 <= i < lines.len(),
    ensures
        occurs(joined(lines, sep), lines[i]),
    decreases lines.len(),
{
    let none = Seq::<char>::empty();
    if lines.len() == 1 {
        lemma_within(none, lines[0], none);
        assert(none + lines[0] + none =~= lines[0]);
    } else {
        let front = lines.drop_last();
        let all = joined(lines, sep);
        if i == lines.len() - 1 {
            lemma_within(joined(front, sep) + sep, lines[i], none);
            assert(joined(front, sep) + sep + lines[i] + none =~= all);
        } else {
            lemma_line_of_all(front, sep, i);
            assert(front[i] == lines[i]);
            lemma_within(none, joined(front, sep), sep + lines.last());
            assert(none + joined(front, sep) + (sep + lines.last()) =~= all);
            lemma_carries_over(all, joined(front, sep), lines[i]);
        }
    }
}

proof fn lemma_among(a: Seq<Seq<char>>, b: Seq<Seq<char>>, x: Seq<char>, y: Seq<char>)
    ensures
        some_line_shows(a, x, y) || some_line_shows(b, x, y) ==> some_line_shows(a + b, x, y),
{
    if some_line_shows(a, x, y) {
        let i = choose|i: int| 0 <= i < a.len() && occurs(#[trigger] a[i], x) && occurs(a[i], y);
        assert((a + b)[i] == a[i]);
    }
    if some_line_shows(b, x, y) {
        let i = choose|i: int| 0 <= i < b.len() && occurs(#[trigger] b[i], x) && occurs(b[i], y);
        assert((a + b)[a.len() + i] == b[i]);
    }
}

proof fn lemma_in_section(
    title: Seq<char>,
    lines: Seq<Seq<char>>,
    i: int,
    x: Seq<char>,
    y: Seq<char>,
)
    requires
        0 <= i < lines.len(),
        occurs(lines[i], x),
        occurs(lines[i], y),
    ensures
        some_line_shows(section(title, lines), x, y),
{
    assert(section(title, lines)[i + 1] == lines[i]);
}

/// The section on a task shows every record that was picked for it: the key and
/// the value of a fact or a signal, the title and the recommendation of a
/// lesson, the goal and the next step of an open loop, the signature and the
/// purpose of a command pattern.
pub proof fn law_task_section_shows(r: RetrievedView, intent: TaskIntent, i: int)
    ensures
        0 <= i < r.facts.len() ==> some_line_shows(
            task_lines(r, intent),
            r.facts[i].key,
            r.facts[i].value,
        ),
        0 <= i < r.project_signals.len() ==> some_line_shows(
            task_lines(r, intent),
            r.project_signals[i].key,
            r.project_signals[i].value,
        ),
        0 <= i < r.lessons.len() ==> some_line_shows(
            task_lines(r, intent),
            r.lessons[i].title,
            r.lessons[i].recommendation,
        ),
        0 <= i < r.open_loops.len() ==> some_line_shows(
            task_lines(r, intent),
            r.open_loops[i].goal,
            r.open_loops[i].next_step,
        ),
        0 <= i < r.command_patterns.len() ==> some_line_shows(
            task_lines(r, intent),
            r.command_patterns[i].signature,
            r.command_patterns[i].purpose,
        ),
{
    let none = Seq::<char>::empty();
    let head = seq!["## Relevant Past Experience"@, focus_line(intent)];
    let l1 = r.open_loops.map_values(|v: LoopView| task_loop_line(v));
    let l2 = r.lessons.map_values(|v: LessonView| task_lesson_line(v));
    let l3 = r.project_signals.map_values(|v: SignalView| task_signal_line(v));
    let l4 = r.command_patterns.map_values(|v: PatternView| task_pattern_line(v));
    let l5 = r.facts.map_values(|v: FactView| task_fact_line(v));
    let s1 = section("- Open loops to revisit:"@, l1);
    let s2 = section("- Relevant lessons:"@, l2);
    let s3 = section("- Project signals:"@, l3);
    let s4 = section("- Command patterns:"@, l4);
    let s5 = section("- Relevant facts:"@, l5);
    if 0 <= i < r.facts.len() {
        let v = r.facts[i];
        let (x, y) = (v.key, v.value);
        lemma_within("  - "@, x, ": "@ + y);
        assert("  - "@ + x + (": "@ + y) =~= task_fact_line(v));
        lemma_within("  - "@ + x + ": "@, y, none);
        assert("  - "@ + x + ": "@ + y + none =~= task_fact_line(v));
        lemma_in_section("- Relevant facts:"@, l5, i, x, y);
        lemma_among(head + s1 + s2 + s3 + s4, s5, x, y);
    }
    if 0 <= i < r.command_patterns.len() {
        let v = r.command_patterns[i];
        let (x, y) = (v.signature, v.purpose);
        let mid = "` ["@ + confidence_label(v.confidence) + "]: "@;
        lemma_within("  - `"@, x, mid + y);
        assert("  - `"@ + x + (mid + y) =~= task_pattern_line(v));
        lemma_within("  - `"@ + x + mid, y, none);
        assert("  - `"@ + x + mid + y + none =~= task_pattern_line(v));
        lemma_in_section("- Command patterns:"@, l4, i, x, y);
        lemma_among(head + s1 + s2 + s3, s4, x, y);
        lemma_among(head + s1 + s2 + s3 + s4, s5, x, y);
    }
    if 0 <= i < r.project_signals.len() {
        let v = r.project_signals[i];
        let (x, y) = (v.key, v.value);
        lemma_within("  - "@, x, ": "@ + y);
        assert("  - "@ + x + (": "@ + y) =~= task_signal_line(v));
        lemma_within("  - "@ + x + ": "@, y, none);
        assert("  - "@ + x + ": "@ + y + none =~= task_signal_line(v));
        lemma_in_section("- Project signals:"@, l3, i, x, y);
        lemma_among(head + s1 + s2, s3, x, y);
        lemma_among(head + s1 + s2 + s3, s4, x, y);
        lemma_among(head + s1 + s2 + s3 + s4, s5, x, y);
    }
    if 0 <= i < r.lessons.len() {
        let v = r.lessons[i];
        let (x, y) = (v.title, v.recommendation);
        let mid = " ["@ + confidence_label(v.confidence) + "]: "@;
        lemma_within("  - "@, x, mid + y);
        assert("  - "@ + x + (mid + y) =~= task_lesson_line(v));
        lemma_within("  - "@ + x + mid, y, none);
        assert("  - "@ + x + mid + y + none =~= task_lesson_line(v));
        lemma_in_section("- Relevant lessons:"@, l2, i, x, y);
        lemma_among(head + s1, s2, x, y);
        lemma_among(head + s1 + s2, s3, x, y);
        lemma_among(head + s1 + s2 + s3, s4, x, y);
        lemma_among(head + s1 + s2 + s3 + s4, s5, x, y);
    }
    if 0 <= i < r.open_loops.len() {
        let v = r.open_loops[i];
        let (x, y) = (v.goal, v.next_step);
        let mid = " ["@ + loop_status_label(v.status) + "]: next "@;
        lemma_within("  - "@, x, mid + y);
        assert("  - "@ + x + (mid + y) =~= task_loop_line(v));
        lemma_within("  - "@ + x + mid, y, none);
        assert("  - "@ + x + mid + y + none =~= task_loop_line(v));
        lemma_in_section("- Open loops to revisit:"@, l1, i, x, y);
        lemma_among(head, s1, x, y);
        lemma_among(head + s1, s2, x, y);
        lemma_among(head + s1 + s2, s3, x, y);
        lemma_among(head + s1 + s2 + s3, s4, x, y);
        lemma_among(head + s1 + s2 + s3 + s4, s5, x, y);
    }
}

proof fn lemma_among_six(
    a: Seq<Seq<char>>,
    s1: Seq<Seq<char>>,
    s2: Seq<Seq<char>>,
    s3: Seq<Seq<char>>,
    s4: Seq<Seq<char>>,
    s5: Seq<Seq<char>>,
    x: Seq<char>,
    y: Seq<char>,
)
    requires
        some_line_shows(a, x, y) || some_line_shows(s1, x, y) || some_line_shows(s2, x, y)
            || some_line_shows(s3, x, y) || some_line_shows(s4, x, y) || some_line_shows(s5, x, y),
    ensures
        some_line_shows(a + s1 + s2 + s3 + s4 + s5, x, y),
{
    lemma_among(a, s1, x, y);
    lemma_among(a + s1, s2, x, y);
    lemma_among(a + s1 + s2, s3, x, y);
    lemma_among(a + s1 + s2 + s3, s4, x, y);
    lemma_among(a + s1 + s2 + s3 + s4, s5, x, y);
}

/// What a line made of these pieces shows.
proof fn lemma_line(p: Seq<char>, x: Seq<char>, mid: Seq<char>, y: Seq<char>, rest: Seq<char>)
    ensures
        occurs(p + x + mid + y + rest, x),
        occurs(p + x + mid + y + rest, y),
{
    lemma_within(p, x, mid + y + rest);
    assert(p + x + (mid + y + rest) =~= p + x + mid + y + rest);
    lemma_within(p + x + mid, y, rest);
}

proof fn lemma_lines_shown(f: FactView, s: SignalView, l: LessonView, o: LoopView, p: PatternView)
    ensures
        occurs(fact_line(f), f.key) && occurs(fact_line(f), f.value),
        occurs(signal_line(s), s.key) && occurs(signal_line(s), s.value),
        occurs(lesson_line(l), l.title) && occurs(lesson_line(l), l.recommendation),
        occurs(loop_line(o), o.goal) && occurs(loop_line(o), o.next_step),
        occurs(pattern_line(p), p.signature) && occurs(pattern_line(p), p.outcome),
{
    let none = Seq::<char>::empty();
    lemma_line("- **"@, f.key, "**: "@, f.value, none);
    assert("- **"@ + f.key + "**: "@ + f.value + none =~= fact_line(f));
    lemma_line("- **"@, s.key, "**: "@, s.value, none);
    assert("- **"@ + s.key + "**: "@ + s.value + none =~= signal_line(s));
    let scope = if l.scope.len() == 0 {
        "general"@
    } else {
        l.scope
    };
    let a = "** ["@ + confidence_label(l.confidence) + " | "@ + scope + "]: when "@ + l.when_to_apply
        + "; "@;
    lemma_line("- **"@, l.title, a, l.recommendation, none);
    assert("- **"@ + l.title + a + l.recommendation + none =~= lesson_line(l));
    let b = "** ["@ + loop_status_label(o.status) + "]: blocker: "@ + o.blocker + "; next: "@;
    lemma_line("- **"@, o.goal, b, o.next_step, none);
    assert("- **"@ + o.goal + b + o.next_step + none =~= loop_line(o));
    let c = "` ["@ + confidence_label(p.confidence) + "]: "@ + p.purpose + " -> "@;
    lemma_line("- `"@, p.signature, c, p.outcome, none);
    assert("- `"@ + p.signature + c + p.outcome + none =~= pattern_line(p));
}

/// The section on the memory shows every record that was picked for a prompt,
/// and the user context.
pub proof fn law_memory_section_shows(m: MemoryView, q: Option<QueryView>, i: int)
    ensures
        0 <= i < picked_facts(m, q).len() ==> some_line_shows(
            injection_lines(m, q),
            picked_facts(m, q)[i].key,
            picked_facts(m, q)[i].value,
        ),
        0 <= i < picked_signals(m, q).len() ==> some_line_shows(
            injection_lines(m, q),
            picked_signals(m, q)[i].key,
            picked_signals(m, q)[i].value,
        ),
        0 <= i < picked_lessons(m, q).len() ==> some_line_shows(
            injection_lines(m, q),
            picked_lessons(m, q)[i].title,
            picked_lessons(m, q)[i].recommendation,
        ),
        0 <= i < picked_loops(m, q).len() ==> some_line_shows(
            injection_lines(m, q),
            picked_loops(m, q)[i].goal,
            picked_loops(m, q)[i].next_step,
        ),
        0 <= i < picked_patterns(m, q).len() ==> some_line_shows(
            injection_lines(m, q),
            picked_patterns(m, q)[i].signature,
            picked_patterns(m, q)[i].outcome,
        ),
        m.user_context is Some && trimmed(m.user_context->0).len() > 0 ==> some_line_shows(
            injection_lines(m, q),
            trimmed(m.user_context->0),
            trimmed(m.user_context->0),
        ),
{
    let none = Seq::<char>::empty();
    let context = if m.user_context is Some && trimmed(m.user_context->0).len() > 0 {
        seq!["**User context:** "@ + trimmed(m.user_context->0)]
    } else {
        Seq::empty()
    };
    let a = seq!["## Structured Memory (auto-maintained)"@] + context;
    let (o, l, s, p, f) = (
        picked_loops(m, q),
        picked_lessons(m, q),
        picked_signals(m, q),
        picked_patterns(m, q),
        picked_facts(m, q),
    );
    let l1 = o.map_values(|v: LoopView| loop_line(v));
    let l2 = l.map_values(|v: LessonView| lesson_line(v));
    let l3 = s.map_values(|v: SignalView| signal_line(v));
    let l4 = p.map_values(|v: PatternView| pattern_line(v));
    let l5 = f.map_values(|v: FactView| fact_line(v));
    let s1 = section("**Open loops:**"@, l1);
    let s2 = section("**Lessons:**"@, l2);
    let s3 = section("**Project signals:**"@, l3);
    let s4 = section("**Command patterns:**"@, l4);
    let s5 = section("**Remembered facts:**"@, l5);
    assert(injection_lines(m, q) == a + s1 + s2 + s3 + s4 + s5);
    lemma_lines_shown(f[i], s[i], l[i], o[i], p[i]);
    if m.user_context is Some && trimmed(m.user_context->0).len() > 0 {
        let x = trimmed(m.user_context->0);
        lemma_within("**User context:** "@, x, none);
        assert("**User context:** "@ + x + none =~= context[0]);
        assert(a[1] == context[0]);
        assert(some_line_shows(a, x, x));
        lemma_among_six(a, s1, s2, s3, s4, s5, x, x);
    }
    if 0 <= i < o.len() {
        lemma_in_section("**Open loops:**"@, l1, i, o[i].goal, o[i].next_step);
        lemma_among_six(a, s1, s2, s3, s4, s5, o[i].goal, o[i].next_step);
    }
    if 0 <= i < l.len() {
        lemma_in_section("**Lessons:**"@, l2, i, l[i].title, l[i].recommendation);
        lemma_among_six(a, s1, s2, s3, s4, s5, l[i].title, l[i].recommendation);
    }
    if 0 <= i < s.len() {
        lemma_in_section("**Project signals:**"@, l3, i, s[i].key, s[i].value);
        lemma_among_six(a, s1, s2, s3, s4, s5, s[i].key, s[i].value);
    }
    if 0 <= i < p.len() {
        lemma_in_section("**Command patterns:**"@, l4, i, p[i].signature, p[i].outcome);
        lemma_among_six(a, s1, s2, s3, s4, s5, p[i].signature, p[i].outcome);
    }
    if 0 <= i < f.len() {
        lemma_in_section("**Remembered facts:**"@, l5, i, f[i].key, f[i].value);
        lemma_among_six(a, s1, s2, s3, s4, s5, f[i].key, f[i].value);
    }
}

/// A section on the memory that fits its budget is shown whole, line by line.
pub proof fn law_memory_section_is_whole(m: MemoryView, q: Option<QueryView>, i: int)
    requires
        0 <= i < injection_lines(m, q).len(),
        byte_len(joined(injection_lines(m, q), "\n"@)) <= MEMORY_INJECTION_CHAR_BUDGET,
    ensures
        occurs(injection_text(m, q), injection_lines(m, q)[i]),
{
    lemma_line_of_all(injection_lines(m, q), "\n"@, i);
}

} // verus!
