//! The data of the structured memory and the mathematical view of each type.

use crate::text::{ascii_lower, opt_str, opt_text, same, to_ascii_lower, trim, trimmed};
use vstd::prelude::*;
use vstd::string::*;

verus! {

pub const MAX_MEMORY_FACT_VALUE_CHARS: usize = 240;

pub const MAX_MEMORY_USER_CONTEXT_CHARS: usize = 320;

pub const MAX_MEMORY_LESSON_TITLE_CHARS: usize = 96;

pub const MAX_MEMORY_LESSON_WHEN_CHARS: usize = 160;

pub const MAX_MEMORY_LESSON_RECOMMENDATION_CHARS: usize = 220;

pub const MAX_MEMORY_SCOPE_CHARS: usize = 72;

pub const MAX_OPEN_LOOP_GOAL_CHARS: usize = 140;

pub const MAX_OPEN_LOOP_BLOCKER_CHARS: usize = 220;

pub const MAX_OPEN_LOOP_NEXT_STEP_CHARS: usize = 180;

pub const MAX_COMMAND_SIGNATURE_CHARS: usize = 140;

pub const MAX_COMMAND_PURPOSE_CHARS: usize = 180;

pub const MAX_COMMAND_OUTCOME_CHARS: usize = 160;

pub const MAX_PROJECT_SIGNAL_VALUE_CHARS: usize = 180;

pub const MAX_MEMORY_FACTS: usize = 50;

pub const MAX_MEMORY_LESSONS: usize = 24;

pub const MAX_MEMORY_OPEN_LOOPS: usize = 16;

pub const MAX_MEMORY_COMMAND_PATTERNS: usize = 24;

pub const MAX_MEMORY_PROJECT_SIGNALS: usize = 24;

/// A single remembered fact or decision.
#[derive(Debug, PartialEq, Eq)]
pub struct MemoryFact {
    /// Short label.
    pub key: String,
    /// The remembered content.
    pub value: String,
    /// When this fact was recorded, in seconds since 1970.
    pub recorded_at: u64,
}

#[verifier::ext_equal]
pub struct FactView {
    pub key: Seq<char>,
    pub value: Seq<char>,
    pub recorded_at: u64,
}

impl MemoryFact {
    pub open spec fn view(self) -> FactView {
        FactView { key: self.key@, value: self.value@, recorded_at: self.recorded_at }
    }
}

/// How sure the assistant is of something.
#[derive(Clone, Copy, Debug, PartialEq, Eq, Structural)]
pub enum MemoryConfidence {
    Low,
    Medium,
    High,
}

/// The name of a degree of confidence.
pub open spec fn confidence_label(c: MemoryConfidence) -> Seq<char> {
    match c {
        MemoryConfidence::Low => "low"@,
        MemoryConfidence::Medium => "medium"@,
        MemoryConfidence::High => "high"@,
    }
}

/// The degree of confidence that a text names; medium where it names none.
pub open spec fn confidence_named(value: Option<Seq<char>>) -> MemoryConfidence {
    let name = match value {
        Some(s) => ascii_lower(trimmed(s)),
        None => Seq::empty(),
    };
    if name == "low"@ {
        MemoryConfidence::Low
    } else if name == "high"@ {
        MemoryConfidence::High
    } else {
        MemoryConfidence::Medium
    }
}

fn plain_name(value: Option<&str>) -> (r: String)
    ensures
        r@ == (match opt_str(value) {
            Some(s) => ascii_lower(trimmed(s)),
            None => Seq::empty(),
        }),
{
    match value {
        Some(s) => to_ascii_lower(trim(s).as_str()),
        None => String::new(),
    }
}

impl MemoryConfidence {
    /// The name of this degree of confidence.
    pub fn label(self) -> (r: &'static str)
        ensures
            r@ == confidence_label(self),
    {
        match self {
            MemoryConfidence::Low => "low",
            MemoryConfidence::Medium => "medium",
            MemoryConfidence::High => "high",
        }
    }

    /// The degree of confidence that a text names.
    pub fn from_raw(value: Option<&str>) -> (r: Self)
        ensures
            r == confidence_named(opt_str(value)),
    {
        let name = plain_name(value);
        if same(name.as_str(), "low") {
            MemoryConfidence::Low
        } else if same(name.as_str(), "high") {
            MemoryConfidence::High
        } else {
            MemoryConfidence::Medium
        }
    }
}

/// Reading the name of a degree of confidence gives it back.
pub proof fn law_confidence_round_trip(c: MemoryConfidence)
    ensures
        confidence_named(Some(confidence_label(c))) == c,
{
    reveal_strlit("low");
    reveal_strlit("medium");
    reveal_strlit("high");
    let s = confidence_label(c);
    assert(trimmed(s) == s);
    assert(ascii_lower(s) =~= s);
    assert("low"@[0] != "high"@[0]);
    assert("medium"@[0] != "high"@[0]);
    assert("medium"@[0] != "low"@[0]);
}

/// Reusable guidance from repeated successful or failed work.
#[derive(Debug, PartialEq, Eq)]
pub struct MemoryLesson {
    pub title: String,
    pub when_to_apply: String,
    pub recommendation: String,
    pub scope: String,
    pub confidence: MemoryConfidence,
    pub last_seen_at: u64,
}

#[verifier::ext_equal]
pub struct LessonView {
    pub title: Seq<char>,
    pub when_to_apply: Seq<char>,
    pub recommendation: Seq<char>,
    pub scope: Seq<char>,
    pub confidence: MemoryConfidence,
    pub last_seen_at: u64,
}

impl MemoryLesson {
    pub open spec fn view(self) -> LessonView {
        LessonView {
            title: self.title@,
            when_to_apply: self.when_to_apply@,
            recommendation: self.recommendation@,
            scope: self.scope@,
            confidence: self.confidence,
            last_seen_at: self.last_seen_at,
        }
    }
}

/// Where an open loop stands.
#[derive(Clone, Copy, Debug, PartialEq, Eq, Structural)]
pub enum OpenLoopStatus {
    Open,
    InProgress,
    Resolved,
}

/// The name of a status.
pub open spec fn loop_status_label(s: OpenLoopStatus) -> Seq<char> {
    match s {
        OpenLoopStatus::Open => "open"@,
        OpenLoopStatus::InProgress => "in_progress"@,
        OpenLoopStatus::Resolved => "resolved"@,
    }
}

/// The status that a text names; open where it names none.
pub open spec fn loop_status_named(value: Option<Seq<char>>) -> OpenLoopStatus {
    let name = match value {
        Some(s) => ascii_lower(trimmed(s)),
        None => Seq::empty(),
    };
    if name == "in_progress"@ || name == "in-progress"@ || name == "active"@ {
        OpenLoopStatus::InProgress
    } else if name == "resolved"@ || name == "closed"@ || name == "done"@ {
        OpenLoopStatus::Resolved
    } else {
        OpenLoopStatus::Open
    }
}

/// How urgent a status is.
pub open spec fn loop_rank(s: OpenLoopStatus) -> int {
    match s {
        OpenLoopStatus::Open => 2,
        OpenLoopStatus::InProgress => 1,
        OpenLoopStatus::Resolved => 0,
    }
}

impl OpenLoopStatus {
    /// The name of this status.
    pub fn label(self) -> (r: &'static str)
        ensures
            r@ == loop_status_label(self),
    {
        match self {
            OpenLoopStatus::Open => "open",
            OpenLoopStatus::InProgress => "in_progress",
            OpenLoopStatus::Resolved => "resolved",
        }
    }

    /// The status that a text names.
    pub fn from_raw(value: Option<&str>) -> (r: Self)
        ensures
            r == loop_status_named(opt_str(value)),
    {
        let name = plain_name(value);
        let name = name.as_str();
        if same(name, "in_progress") || same(name, "in-progress") || same(name, "active") {
            OpenLoopStatus::InProgress
        } else if same(name, "resolved") || same(name, "closed") || same(name, "done") {
            OpenLoopStatus::Resolved
        } else {
            OpenLoopStatus::Open
        }
    }

    /// How urgent this status is.
    pub fn rank(self) -> (r: usize)
        ensures
            r == loop_rank(self),
    {
        match self {
            OpenLoopStatus::Open => 2,
            OpenLoopStatus::InProgress => 1,
            OpenLoopStatus::Resolved => 0,
        }
    }

    /// Whether the loop is closed.
    pub fn is_resolved(self) -> (r: bool)
        ensures
            r == (self is Resolved),
    {
        matches!(self, OpenLoopStatus::Resolved)
    }
}

/// An unresolved goal or blocker that may still matter.
#[derive(Debug, PartialEq, Eq)]
pub struct OpenLoop {
    pub goal: String,
    pub blocker: String,
    pub next_step: String,
    pub status: OpenLoopStatus,
    pub updated_at: u64,
}

#[verifier::ext_equal]
pub struct LoopView {
    pub goal: Seq<char>,
    pub blocker: Seq<char>,
    pub next_step: Seq<char>,
    pub status: OpenLoopStatus,
    pub updated_at: u64,
}

impl OpenLoop {
    pub open spec fn view(self) -> LoopView {
        LoopView {
            goal: self.goal@,
            blocker: self.blocker@,
            next_step: self.next_step@,
            status: self.status,
            updated_at: self.updated_at,
        }
    }
}

/// A use of a command or tool worth remembering.
#[derive(Debug, PartialEq, Eq)]
pub struct CommandPattern {
    pub signature: String,
    pub purpose: String,
    pub outcome: String,
    pub confidence: MemoryConfidence,
    pub last_seen_at: u64,
}

#[verifier::ext_equal]
pub struct PatternView {
    pub signature: Seq<char>,
    pub purpose: Seq<char>,
    pub outcome: Seq<char>,
    pub confidence: MemoryConfidence,
    pub last_seen_at: u64,
}

impl CommandPattern {
    pub open spec fn view(self) -> PatternView {
        PatternView {
            signature: self.signature@,
            purpose: self.purpose@,
            outcome: self.outcome@,
            confidence: self.confidence,
            last_seen_at: self.last_seen_at,
        }
    }
}

/// A stable signal of the project such as its build system.
#[derive(Debug, PartialEq, Eq)]
pub struct ProjectSignal {
    pub key: String,
    pub value: String,
    pub recorded_at: u64,
}

#[verifier::ext_equal]
pub struct SignalView {
    pub key: Seq<char>,
    pub value: Seq<char>,
    pub recorded_at: u64,
}

impl ProjectSignal {
    pub open spec fn view(self) -> SignalView {
        SignalView { key: self.key@, value: self.value@, recorded_at: self.recorded_at }
    }
}

pub open spec fn facts_view(v: Seq<MemoryFact>) -> Seq<FactView> {
    v.map_values(|x: MemoryFact| x@)
}

pub open spec fn lessons_view(v: Seq<MemoryLesson>) -> Seq<LessonView> {
    v.map_values(|x: MemoryLesson| x@)
}

pub open spec fn loops_view(v: Seq<OpenLoop>) -> Seq<LoopView> {
    v.map_values(|x: OpenLoop| x@)
}

pub open spec fn patterns_view(v: Seq<CommandPattern>) -> Seq<PatternView> {
    v.map_values(|x: CommandPattern| x@)
}

pub open spec fn signals_view(v: Seq<ProjectSignal>) -> Seq<SignalView> {
    v.map_values(|x: ProjectSignal| x@)
}

/// The structured memory of a session.
#[derive(Debug, PartialEq, Eq)]
pub struct StructuredMemory {
    /// Preferences, background, language and the like.
    pub user_context: Option<String>,
    pub facts: Vec<MemoryFact>,
    pub lessons: Vec<MemoryLesson>,
    pub open_loops: Vec<OpenLoop>,
    pub command_patterns: Vec<CommandPattern>,
    pub project_signals: Vec<ProjectSignal>,
    /// When the memory was last written, in seconds since 1970.
    pub updated_at: u64,
}

#[verifier::ext_equal]
pub struct MemoryView {
    pub user_context: Option<Seq<char>>,
    pub facts: Seq<FactView>,
    pub lessons: Seq<LessonView>,
    pub open_loops: Seq<LoopView>,
    pub command_patterns: Seq<PatternView>,
    pub project_signals: Seq<SignalView>,
    pub updated_at: u64,
}

/// The memory holds nothing.
pub open spec fn memory_empty(m: MemoryView) -> bool {
    m.user_context is None && m.facts.len() == 0 && m.lessons.len() == 0 && m.open_loops.len() == 0
        && m.command_patterns.len() == 0 && m.project_signals.len() == 0
}

/// How many records the memory holds.
pub open spec fn memory_entries(m: MemoryView) -> nat {
    m.facts.len() + m.lessons.len() + m.open_loops.len() + m.command_patterns.len()
        + m.project_signals.len()
}

impl StructuredMemory {
    pub open spec fn view(self) -> MemoryView {
        MemoryView {
            user_context: opt_text(self.user_context),
            facts: facts_view(self.facts@),
            lessons: lessons_view(self.lessons@),
            open_loops: loops_view(self.open_loops@),
            command_patterns: patterns_view(self.command_patterns@),
            project_signals: signals_view(self.project_signals@),
            updated_at: self.updated_at,
        }
    }

    /// A memory that holds nothing.
    pub fn new() -> (r: StructuredMemory)
        ensures
            memory_empty(r@),
            r@.updated_at == 0,
    {
        StructuredMemory {
            user_context: None,
            facts: Vec::new(),
            lessons: Vec::new(),
            open_loops: Vec::new(),
            command_patterns: Vec::new(),
            project_signals: Vec::new(),
            updated_at: 0,
        }
    }

    /// The memory that a file was read as; an empty one where there is no file,
    /// or where it cannot be read.
    pub fn loaded(decoded: Option<Result<StructuredMemory, String>>) -> (r: StructuredMemory)
        ensures
            match decoded {
                Some(Ok(memory)) => r == memory,
                _ => memory_empty(r@) && r@.updated_at == 0,
            },
    {
        match decoded {
            Some(Ok(memory)) => memory,
            _ => StructuredMemory::new(),
        }
    }

    /// Whether the memory holds nothing.
    pub fn is_empty(&self) -> (r: bool)
        ensures
            r == memory_empty(self@),
    {
        self.user_context.is_none() && self.facts.len() == 0 && self.lessons.len() == 0
            && self.open_loops.len() == 0 && self.command_patterns.len() == 0
            && self.project_signals.len() == 0
    }

    /// How many records the memory holds.
    pub fn entry_count(&self) -> (n: usize)
        requires
            memory_entries(self@) <= usize::MAX,
        ensures
            n == memory_entries(self@),
    {
        self.facts.len() + self.lessons.len() + self.open_loops.len() + self.command_patterns.len()
            + self.project_signals.len()
    }
}

/// What was picked from the memory for a task.
#[derive(Debug, PartialEq, Eq)]
pub struct RetrievedTaskMemory {
    pub lessons: Vec<MemoryLesson>,
    pub open_loops: Vec<OpenLoop>,
    pub command_patterns: Vec<CommandPattern>,
    pub project_signals: Vec<ProjectSignal>,
    pub facts: Vec<MemoryFact>,
}

#[verifier::ext_equal]
pub struct RetrievedView {
    pub lessons: Seq<LessonView>,
    pub open_loops: Seq<LoopView>,
    pub command_patterns: Seq<PatternView>,
    pub project_signals: Seq<SignalView>,
    pub facts: Seq<FactView>,
}

/// Nothing was picked.
pub open spec fn retrieved_nothing(r: RetrievedView) -> bool {
    r.lessons.len() == 0 && r.open_loops.len() == 0 && r.command_patterns.len() == 0
        && r.project_signals.len() == 0 && r.facts.len() == 0
}

impl RetrievedTaskMemory {
    pub open spec fn view(self) -> RetrievedView {
        RetrievedView {
            lessons: lessons_view(self.lessons@),
            open_loops: loops_view(self.open_loops@),
            command_patterns: patterns_view(self.command_patterns@),
            project_signals: signals_view(self.project_signals@),
            facts: facts_view(self.facts@),
        }
    }

    /// Whether nothing was picked.
    pub fn is_empty(&self) -> (r: bool)
        ensures
            r == retrieved_nothing(self@),
    {
        self.lessons.len() == 0 && self.open_loops.len() == 0 && self.command_patterns.len() == 0
            && self.project_signals.len() == 0 && self.facts.len() == 0
    }
}

} // verus!
