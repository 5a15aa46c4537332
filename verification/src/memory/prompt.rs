//! The memory as a section of the system prompt.

use crate::memory::model::{
    CommandPattern, FactView, LessonView, LoopView, MemoryFact, MemoryLesson, MemoryView,
    OpenLoop, PatternView, ProjectSignal, SignalView, StructuredMemory, confidence_label,
    facts_view, lessons_view, loop_status_label, loops_view, memory_empty, patterns_view,
    signals_view,
};
use crate::memory::select::{
    MemoryQuery, QueryView, opt_query, picked_facts, picked_lessons, picked_loops,
    picked_patterns, picked_signals, scores_fit, select_command_patterns_for_injection,
    select_facts_for_injection, select_lessons_for_injection, select_open_loops_for_injection,
    select_project_signals_for_injection,
};
use crate::text::{
    byte_count, byte_len, join, joined, opt_text, owned, texts, trim, trimmed, truncate,
    truncated,
};
use vstd::prelude::*;
use vstd::string::*;

verus! {

/// A titled group of lines; nothing where there are none.
pub open spec fn section(title: Seq<char>, lines: Seq<Seq<char>>) -> Seq<Seq<char>> {
    if lines.len() == 0 {
        Seq::empty()
    } else {
        seq![title] + lines
    }
}

/// Appends a titled group of lines.
pub fn push_section(out: &mut Vec<String>, title: &str, lines: Vec<String>)
    ensures
        texts(final(out)@) == texts(old(out)@) + section(title@, texts(lines@)),
{
    let ghost start = texts(out@);
    if lines.len() == 0 {
        assert(texts(out@) =~= start + section(title@, texts(lines@)));
        return;
    }
    out.push(owned(title));
    let mut i: usize = 0;
    assert(texts(out@) =~= start + (seq![title@] + texts(lines@).take(0)));
    while i < lines.len()
        invariant
            i <= lines@.len(),
            texts(out@) == start + (seq![title@] + texts(lines@).take(i as int)),
        decreases lines@.len() - i,
    {
        let ghost before = texts(out@);
        out.push(lines[i].clone());
        assert(texts(out@) =~= before.push(lines@[i as int]@));
        assert(texts(lines@).take(i + 1) =~= texts(lines@).take(i as int).push(
            lines@[i as int]@,
        ));
        i = i + 1;
        assert(texts(out@) =~= start + (seq![title@] + texts(lines@).take(i as int)));
    }
    assert(texts(lines@).take(i as int) =~= texts(lines@));
}

/// An open loop in a prompt.
pub open spec fn loop_line(v: LoopView) -> Seq<char> {
    "- **"@ + v.goal + "** ["@ + loop_status_label(v.status) + "]: blocker: "@ + v.blocker
        + "; next: "@ + v.next_step
}

fn loop_text(v: &OpenLoop) -> (r: String)
    ensures
        r@ == loop_line(v@),
{
    let mut out = owned("- **");
    out.append(v.goal.as_str());
    out.append("** [");
    out.append(v.status.label());
    out.append("]: blocker: ");
    out.append(v.blocker.as_str());
    out.append("; next: ");
    out.append(v.next_step.as_str());
    out
}

/// A lesson in a prompt.
pub open spec fn lesson_line(v: LessonView) -> Seq<char> {
    "- **"@ + v.title + "** ["@ + confidence_label(v.confidence) + " | "@ + (if v.scope.len()
        == 0 {
        "general"@
    } else {
        v.scope
    }) + "]: when "@ + v.when_to_apply + "; "@ + v.recommendation
}

fn lesson_text(v: &MemoryLesson) -> (r: String)
    ensures
        r@ == lesson_line(v@),
{
    let mut out = owned("- **");
    out.append(v.title.as_str());
    out.append("** [");
    out.append(v.confidence.label());
    out.append(" | ");
    if v.scope.as_str().is_empty() {
        out.append("general");
    } else {
        out.append(v.scope.as_str());
    }
    out.append("]: when ");
    out.append(v.when_to_apply.as_str());
    out.append("; ");
    out.append(v.recommendation.as_str());
    out
}

/// A project signal in a prompt.
pub open spec fn signal_line(v: SignalView) -> Seq<char> {
    "- **"@ + v.key + "**: "@ + v.value
}

/// A fact in a prompt.
pub open spec fn fact_line(v: FactView) -> Seq<char> {
    "- **"@ + v.key + "**: "@ + v.value
}

fn keyed_text(key: &str, value: &str) -> (r: String)
    ensures
        r@ == "- **"@ + key@ + "**: "@ + value@,
{
    let mut out = owned("- **");
    out.append(key);
    out.append("**: ");
    out.append(value);
    out
}

/// A command pattern in a prompt.
pub open spec fn pattern_line(v: PatternView) -> Seq<char> {
    "- `"@ + v.signature + "` ["@ + confidence_label(v.confidence) + "]: "@ + v.purpose + " -> "@
        + v.outcome
}

fn pattern_text(v: &CommandPattern) -> (r: String)
    ensures
        r@ == pattern_line(v@),
{
    let mut out = owned("- `");
    out.append(v.signature.as_str());
    out.append("` [");
    out.append(v.confidence.label());
    out.append("]: ");
    out.append(v.purpose.as_str());
    out.append(" -> ");
    out.append(v.outcome.as_str());
    out
}

/// The lines of the section on the memory.
pub open spec fn injection_lines(m: MemoryView, q: Option<QueryView>) -> Seq<Seq<char>> {
    let head = seq!["## Structured Memory (auto-maintained)"@];
    let context = if m.user_context is Some && trimmed(m.user_context->0).len() > 0 {
        seq!["**User context:** "@ + trimmed(m.user_context->0)]
    } else {
        Seq::empty()
    };
    head + context + section(
        "**Open loops:**"@,
        picked_loops(m, q).map_values(|v: LoopView| loop_line(v)),
    ) + section("**Lessons:**"@, picked_lessons(m, q).map_values(|v: LessonView| lesson_line(v)))
        + section(
        "**Project signals:**"@,
        picked_signals(m, q).map_values(|v: SignalView| signal_line(v)),
    ) + section(
        "**Command patterns:**"@,
        picked_patterns(m, q).map_values(|v: PatternView| pattern_line(v)),
    ) + section(
        "**Remembered facts:**"@,
        picked_facts(m, q).map_values(|v: FactView| fact_line(v)),
    )
}

/// The most that the memory takes of a prompt, in bytes.
pub const MEMORY_INJECTION_CHAR_BUDGET: usize = 2000;

/// The section on the memory, within its budget.
pub open spec fn injection_text(m: MemoryView, q: Option<QueryView>) -> Seq<char> {
    let result = joined(injection_lines(m, q), "\n"@);
    if byte_len(result) > MEMORY_INJECTION_CHAR_BUDGET {
        truncated(result, MEMORY_INJECTION_CHAR_BUDGET as nat) + "\n*(memory truncated)*"@
    } else {
        result
    }
}

fn loop_texts(v: &Vec<OpenLoop>) -> (r: Vec<String>)
    ensures
        texts(r@) == loops_view(v@).map_values(|x: LoopView| loop_line(x)),
{
    let mut r: Vec<String> = Vec::new();
    let mut i: usize = 0;
    while i < v.len()
        invariant
            i <= v@.len(),
            r@.len() == i,
            forall|j: int| 0 <= j < i ==> (#[trigger] r@[j])@ == loop_line(v@[j]@),
        decreases v@.len() - i,
    {
        r.push(loop_text(&v[i]));
        i = i + 1;
    }
    assert(texts(r@) =~= loops_view(v@).map_values(|x: LoopView| loop_line(x)));
    r
}

fn lesson_texts(v: &Vec<MemoryLesson>) -> (r: Vec<String>)
    ensures
        texts(r@) == lessons_view(v@).map_values(|x: LessonView| lesson_line(x)),
{
    let mut r: Vec<String> = Vec::new();
    let mut i: usize = 0;
    while i < v.len()
        invariant
            i <= v@.len(),
            r@.len() == i,
            forall|j: int| 0 <= j < i ==> (#[trigger] r@[j])@ == lesson_line(v@[j]@),
        decreases v@.len() - i,
    {
        r.push(lesson_text(&v[i]));
        i = i + 1;
    }
    assert(texts(r@) =~= lessons_view(v@).map_values(|x: LessonView| lesson_line(x)));
    r
}

fn signal_texts(v: &Vec<ProjectSignal>) -> (r: Vec<String>)
    ensures
        texts(r@) == signals_view(v@).map_values(|x: SignalView| signal_line(x)),
{
    let mut r: Vec<String> = Vec::new();
    let mut i: usize = 0;
    while i < v.len()
        invariant
            i <= v@.len(),
            r@.len() == i,
            forall|j: int| 0 <= j < i ==> (#[trigger] r@[j])@ == signal_line(v@[j]@),
        decreases v@.len() - i,
    {
        r.push(keyed_text(v[i].key.as_str(), v[i].value.as_str()));
        i = i + 1;
    }
    assert(texts(r@) =~= signals_view(v@).map_values(|x: SignalView| signal_line(x)));
    r
}

fn pattern_texts(v: &Vec<CommandPattern>) -> (r: Vec<String>)
    ensures
        texts(r@) == patterns_view(v@).map_values(|x: PatternView| pattern_line(x)),
{
    let mut r: Vec<String> = Vec::new();
    let mut i: usize = 0;
    while i < v.len()
        invariant
            i <= v@.len(),
            r@.len() == i,
            forall|j: int| 0 <= j < i ==> (#[trigger] r@[j])@ == pattern_line(v@[j]@),
        decreases v@.len() - i,
    {
        r.push(pattern_text(&v[i]));
        i = i + 1;
    }
    assert(texts(r@) =~= patterns_view(v@).map_values(|x: PatternView| pattern_line(x)));
    r
}

fn fact_texts(v: &Vec<MemoryFact>) -> (r: Vec<String>)
    ensures
        texts(r@) == facts_view(v@).map_values(|x: FactView| fact_line(x)),
{
    let mut r: Vec<String> = Vec::new();
    let mut i: usize = 0;
    while i < v.len()
        invariant
            i <= v@.len(),
            r@.len() == i,
            forall|j: int| 0 <= j < i ==> (#[trigger] r@[j])@ == fact_line(v@[j]@),
        decreases v@.len() - i,
    {
        r.push(keyed_text(v[i].key.as_str(), v[i].value.as_str()));
        i = i + 1;
    }
    assert(texts(r@) =~= facts_view(v@).map_values(|x: FactView| fact_line(x)));
    r
}

/// The section on the memory for the system prompt; nothing where the memory
/// is empty. With a query, what is relevant to it comes first; without one, the
/// latest.
pub fn format_memory_for_injection(
    mem: &StructuredMemory,
    current_query: Option<&MemoryQuery>,
) -> (r: Option<String>)
    requires
        scores_fit(opt_query(current_query)),
    ensures
        opt_text(r) == (if memory_empty(mem@) {
            None
        } else {
            Some(injection_text(mem@, opt_query(current_query)))
        }),
{
    if mem.is_empty() {
        return None;
    }
    let ghost q = opt_query(current_query);
    let mut lines: Vec<String> = Vec::new();
    lines.push(owned("## Structured Memory (auto-maintained)"));
    let ghost head = seq!["## Structured Memory (auto-maintained)"@];
    assert(texts(lines@) =~= head);
    if let Some(ctx) = &mem.user_context {
        let shown = trim(ctx.as_str());
        if !shown.as_str().is_empty() {
            let mut line = owned("**User context:** ");
            line.append(shown.as_str());
            let ghost view = line@;
            lines.push(line);
            assert(texts(lines@) =~= head + seq![view]);
        }
    }
    assert(mem@.user_context is None || trimmed(mem@.user_context->0).len() == 0 ==> texts(lines@)
        =~= head + Seq::<Seq<char>>::empty());
    let loops = select_open_loops_for_injection(mem, current_query);
    push_section(&mut lines, "**Open loops:**", loop_texts(&loops));
    let lessons = select_lessons_for_injection(mem, current_query);
    push_section(&mut lines, "**Lessons:**", lesson_texts(&lessons));
    let signals = select_project_signals_for_injection(mem, current_query);
    push_section(&mut lines, "**Project signals:**", signal_texts(&signals));
    let patterns = select_command_patterns_for_injection(mem, current_query);
    push_section(&mut lines, "**Command patterns:**", pattern_texts(&patterns));
    let facts = select_facts_for_injection(mem, current_query);
    push_section(&mut lines, "**Remembered facts:**", fact_texts(&facts));
    assert(texts(lines@) == injection_lines(mem@, q));
    let result = join(&lines, "\n");
    if byte_count(result.as_str()) > MEMORY_INJECTION_CHAR_BUDGET {
        let mut cut = truncate(result.as_str(), MEMORY_INJECTION_CHAR_BUDGET);
        cut.append("\n*(memory truncated)*");
        return Some(cut);
    }
    Some(result)
}

} // verus!
