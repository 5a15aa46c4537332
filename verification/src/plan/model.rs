//! The data of a plan and the mathematical view of each type.

use crate::json::{Json, JsonView, opt_json};
use crate::text::{opt_text, texts};
use vstd::prelude::*;

verus! {

/// The tools by which a model hands in a plan and reports on it.
pub const TOOL_NAME_SUBMIT_PLAN: &'static str = "submit_plan";

pub const TOOL_NAME_UPDATE_PLAN: &'static str = "update_plan";

pub const MAX_PLAN_BYTES: usize = 65536;

pub const MAX_PLAN_STEPS: usize = 12;

pub const MAX_PLAN_QUESTIONS: usize = 5;

pub const MAX_PLAN_EVIDENCE: usize = 256;

pub const MAX_PLAN_COMPLETION_CHECKS: usize = 24;

pub const MAX_PLAN_COMPLETION_EXACT_CONTENT_BYTES: usize = 8192;

pub const MAX_PLAN_COMPLETION_FILE_BYTES: u64 = 67108864;

pub const MAX_PLAN_COMPLETION_DIRECTORY_ENTRIES: usize = 100000;

pub const MAX_INITIAL_PLACEHOLDER_GOAL_BYTES: usize = 4000;

pub const MAX_EVIDENCE_HASH_FILE_BYTES: u64 = 4194304;

pub const MAX_EVIDENCE_HASH_TOTAL_BYTES: u64 = 33554432;

/// Where a plan stands in its life.
#[derive(Clone, Copy, Debug, PartialEq, Eq, Structural)]
pub enum PlanStatus {
    Planning,
    NeedsInput,
    Ready,
    Executing,
    Completed,
    Failed,
    Stopped,
    Discarded,
}

/// The name under which a plan status is stored and shown.
pub open spec fn plan_status_label(s: PlanStatus) -> Seq<char> {
    match s {
        PlanStatus::Planning => "planning"@,
        PlanStatus::NeedsInput => "needs_input"@,
        PlanStatus::Ready => "ready"@,
        PlanStatus::Executing => "executing"@,
        PlanStatus::Completed => "completed"@,
        PlanStatus::Failed => "failed"@,
        PlanStatus::Stopped => "stopped"@,
        PlanStatus::Discarded => "discarded"@,
    }
}

impl PlanStatus {
    /// The name under which this status is stored and shown.
    pub fn label(self) -> (r: &'static str)
        ensures
            r@ == plan_status_label(self),
    {
        match self {
            PlanStatus::Planning => "planning",
            PlanStatus::NeedsInput => "needs_input",
            PlanStatus::Ready => "ready",
            PlanStatus::Executing => "executing",
            PlanStatus::Completed => "completed",
            PlanStatus::Failed => "failed",
            PlanStatus::Stopped => "stopped",
            PlanStatus::Discarded => "discarded",
        }
    }

    /// Whether the plan is being made, waits for the user, or runs.
    pub fn is_active(self) -> (r: bool)
        ensures
            r == (self is Planning || self is NeedsInput || self is Ready || self is Executing),
    {
        matches!(
            self,
            PlanStatus::Planning | PlanStatus::NeedsInput | PlanStatus::Ready
                | PlanStatus::Executing
        )
    }

    /// Whether the plan can still continue or be revised and therefore keeps
    /// ownership of the session's current working directory.
    pub fn blocks_workspace_rebind(self) -> (r: bool)
        ensures
            r == !(self is Completed || self is Discarded),
    {
        matches!(
            self,
            PlanStatus::Planning | PlanStatus::NeedsInput | PlanStatus::Ready
                | PlanStatus::Executing | PlanStatus::Failed | PlanStatus::Stopped
        )
    }

    /// Whether the user can send feedback on the plan.
    pub fn can_receive_feedback(self) -> (r: bool)
        ensures
            r == (self is NeedsInput || self is Ready || self is Failed || self is Stopped),
    {
        matches!(
            self,
            PlanStatus::NeedsInput | PlanStatus::Ready | PlanStatus::Failed | PlanStatus::Stopped
        )
    }
}

/// Where one step of a plan stands.
#[derive(Clone, Copy, Debug, PartialEq, Eq, Structural)]
pub enum PlanStepStatus {
    Pending,
    InProgress,
    Completed,
    Blocked,
    Skipped,
}

/// The name under which a step status is stored and shown.
pub open spec fn step_status_label(s: PlanStepStatus) -> Seq<char> {
    match s {
        PlanStepStatus::Pending => "pending"@,
        PlanStepStatus::InProgress => "in_progress"@,
        PlanStepStatus::Completed => "completed"@,
        PlanStepStatus::Blocked => "blocked"@,
        PlanStepStatus::Skipped => "skipped"@,
    }
}

impl PlanStepStatus {
    /// The name under which this status is stored and shown.
    pub fn label(self) -> (r: &'static str)
        ensures
            r@ == step_status_label(self),
    {
        match self {
            PlanStepStatus::Pending => "pending",
            PlanStepStatus::InProgress => "in_progress",
            PlanStepStatus::Completed => "completed",
            PlanStepStatus::Blocked => "blocked",
            PlanStepStatus::Skipped => "skipped",
        }
    }
}

/// One step of a plan as the user approves it.
#[derive(Debug, PartialEq, Eq)]
pub struct PlanStep {
    pub id: String,
    pub title: String,
    pub description: String,
    pub affected_areas: Vec<String>,
}

#[verifier::ext_equal]
pub struct StepView {
    pub id: Seq<char>,
    pub title: Seq<char>,
    pub description: Seq<char>,
    pub affected_areas: Seq<Seq<char>>,
}

impl PlanStep {
    pub open spec fn view(self) -> StepView {
        StepView {
            id: self.id@,
            title: self.title@,
            description: self.description@,
            affected_areas: texts(self.affected_areas@),
        }
    }
}

/// One answer that a question offers.
#[derive(Debug, PartialEq, Eq)]
pub struct PlanQuestionOption {
    pub id: String,
    pub label: String,
    pub description: String,
}

#[verifier::ext_equal]
pub struct OptionView {
    pub id: Seq<char>,
    pub label: Seq<char>,
    pub description: Seq<char>,
}

impl PlanQuestionOption {
    pub open spec fn view(self) -> OptionView {
        OptionView { id: self.id@, label: self.label@, description: self.description@ }
    }
}

/// A question that blocks the plan until the user answers it.
#[derive(Debug, PartialEq, Eq)]
pub struct PlanQuestion {
    pub id: String,
    pub prompt: String,
    pub options: Vec<PlanQuestionOption>,
}

#[verifier::ext_equal]
pub struct QuestionView {
    pub id: Seq<char>,
    pub prompt: Seq<char>,
    pub options: Seq<OptionView>,
}

pub open spec fn options_view(v: Seq<PlanQuestionOption>) -> Seq<OptionView> {
    v.map_values(|o: PlanQuestionOption| o@)
}

impl PlanQuestion {
    pub open spec fn view(self) -> QuestionView {
        QuestionView { id: self.id@, prompt: self.prompt@, options: options_view(self.options@) }
    }
}

/// The two lists of the artifact that completion checks refer to.
#[derive(Clone, Copy, Debug, PartialEq, Eq, Structural)]
pub enum PlanContractSection {
    Verification,
    AcceptanceCriteria,
}

/// One item of the approved contract, by section and zero-based index.
#[derive(Clone, Copy, Debug, PartialEq, Eq, Structural)]
pub struct PlanContractClauseRef {
    pub section: PlanContractSection,
    pub index: usize,
}

/// What a completion check looks at.
#[derive(Clone, Copy, Debug, PartialEq, Eq, Structural)]
pub enum PlanCompletionCheckKind {
    WorkspacePath,
    ApprovedEvidenceUnchanged,
    PlanProgress,
    ToolCallSuccess,
}

/// What a workspace path must turn out to be.
#[derive(Clone, Copy, Debug, PartialEq, Eq, Structural)]
pub enum PlanExpectedPathType {
    File,
    Directory,
    Absent,
}

/// What a piece of evidence was taken from.
#[derive(Clone, Copy, Debug, PartialEq, Eq, Structural)]
pub enum PlanEvidenceKind {
    File,
    Directory,
    DirectoryTree,
    Git,
}

/// Server-verifiable evidence required before an approved revision can be
/// marked completed. Which fields may be set depends on the kind.
#[derive(Debug, PartialEq, Eq)]
pub struct PlanCompletionCheck {
    pub id: String,
    pub step_id: String,
    pub covers: Vec<PlanContractClauseRef>,
    pub kind: PlanCompletionCheckKind,
    pub path: Option<String>,
    pub expected_path_type: Option<PlanExpectedPathType>,
    pub exact_content: Option<String>,
    pub size_bytes: Option<u64>,
    pub sha256: Option<String>,
    pub evidence_kind: Option<PlanEvidenceKind>,
    pub required_step_ids: Vec<String>,
    pub tool_name: Option<String>,
    pub arguments: Option<Json>,
}

#[verifier::ext_equal]
pub struct CheckView {
    pub id: Seq<char>,
    pub step_id: Seq<char>,
    pub covers: Seq<PlanContractClauseRef>,
    pub kind: PlanCompletionCheckKind,
    pub path: Option<Seq<char>>,
    pub expected_path_type: Option<PlanExpectedPathType>,
    pub exact_content: Option<Seq<char>>,
    pub size_bytes: Option<u64>,
    pub sha256: Option<Seq<char>>,
    pub evidence_kind: Option<PlanEvidenceKind>,
    pub required_step_ids: Seq<Seq<char>>,
    pub tool_name: Option<Seq<char>>,
    pub arguments: Option<JsonView>,
}

impl PlanCompletionCheck {
    pub open spec fn view(self) -> CheckView {
        CheckView {
            id: self.id@,
            step_id: self.step_id@,
            covers: self.covers@,
            kind: self.kind,
            path: opt_text(self.path),
            expected_path_type: self.expected_path_type,
            exact_content: opt_text(self.exact_content),
            size_bytes: self.size_bytes,
            sha256: opt_text(self.sha256),
            evidence_kind: self.evidence_kind,
            required_step_ids: texts(self.required_step_ids@),
            tool_name: opt_text(self.tool_name),
            arguments: opt_json(self.arguments),
        }
    }
}

/// A plan as submitted: the immutable content of one revision.
#[derive(Debug, PartialEq, Eq)]
pub struct PlanArtifact {
    pub schema_version: u32,
    pub title: String,
    pub goal: String,
    pub summary: String,
    pub steps: Vec<PlanStep>,
    pub assumptions: Vec<String>,
    pub risks: Vec<String>,
    pub verification: Vec<String>,
    pub acceptance_criteria: Vec<String>,
    pub completion_checks: Vec<PlanCompletionCheck>,
    pub questions: Vec<PlanQuestion>,
    pub legacy_markdown: Option<String>,
}

#[verifier::ext_equal]
pub struct ArtifactView {
    pub schema_version: u32,
    pub title: Seq<char>,
    pub goal: Seq<char>,
    pub summary: Seq<char>,
    pub steps: Seq<StepView>,
    pub assumptions: Seq<Seq<char>>,
    pub risks: Seq<Seq<char>>,
    pub verification: Seq<Seq<char>>,
    pub acceptance_criteria: Seq<Seq<char>>,
    pub completion_checks: Seq<CheckView>,
    pub questions: Seq<QuestionView>,
    pub legacy_markdown: Option<Seq<char>>,
}

pub open spec fn steps_view(v: Seq<PlanStep>) -> Seq<StepView> {
    v.map_values(|s: PlanStep| s@)
}

pub open spec fn checks_view(v: Seq<PlanCompletionCheck>) -> Seq<CheckView> {
    v.map_values(|c: PlanCompletionCheck| c@)
}

pub open spec fn questions_view(v: Seq<PlanQuestion>) -> Seq<QuestionView> {
    v.map_values(|q: PlanQuestion| q@)
}

/// The artifact with nothing in it.
pub open spec fn empty_artifact() -> ArtifactView {
    ArtifactView {
        schema_version: 1,
        title: Seq::empty(),
        goal: Seq::empty(),
        summary: Seq::empty(),
        steps: Seq::empty(),
        assumptions: Seq::empty(),
        risks: Seq::empty(),
        verification: Seq::empty(),
        acceptance_criteria: Seq::empty(),
        completion_checks: Seq::empty(),
        questions: Seq::empty(),
        legacy_markdown: None,
    }
}

impl PlanArtifact {
    pub open spec fn view(self) -> ArtifactView {
        ArtifactView {
            schema_version: self.schema_version,
            title: self.title@,
            goal: self.goal@,
            summary: self.summary@,
            steps: steps_view(self.steps@),
            assumptions: texts(self.assumptions@),
            risks: texts(self.risks@),
            verification: texts(self.verification@),
            acceptance_criteria: texts(self.acceptance_criteria@),
            completion_checks: checks_view(self.completion_checks@),
            questions: questions_view(self.questions@),
            legacy_markdown: opt_text(self.legacy_markdown),
        }
    }
}

/// The version that artifacts are written in.
pub fn plan_artifact_schema_version() -> (r: u32)
    ensures
        r == 1,
{
    1
}

/// The revision of a plan that was stored without one.
pub fn default_revision() -> (r: u32)
    ensures
        r == 1,
{
    1
}

impl Default for PlanArtifact {
    fn default() -> (r: Self)
        ensures
            r@ == empty_artifact(),
    {
        let r = PlanArtifact {
            schema_version: plan_artifact_schema_version(),
            title: String::new(),
            goal: String::new(),
            summary: String::new(),
            steps: Vec::new(),
            assumptions: Vec::new(),
            risks: Vec::new(),
            verification: Vec::new(),
            acceptance_criteria: Vec::new(),
            completion_checks: Vec::new(),
            questions: Vec::new(),
            legacy_markdown: None,
        };
        assert(r@ =~= empty_artifact());
        r
    }
}

/// What is known of one step while the plan runs.
#[derive(Debug, PartialEq, Eq)]
pub struct PlanProgressStep {
    pub id: String,
    pub title: String,
    pub status: PlanStepStatus,
    pub note: String,
    pub deviation_reason: Option<String>,
}

#[verifier::ext_equal]
pub struct ProgressView {
    pub id: Seq<char>,
    pub title: Seq<char>,
    pub status: PlanStepStatus,
    pub note: Seq<char>,
    pub deviation_reason: Option<Seq<char>>,
}

impl PlanProgressStep {
    pub open spec fn view(self) -> ProgressView {
        ProgressView {
            id: self.id@,
            title: self.title@,
            status: self.status,
            note: self.note@,
            deviation_reason: opt_text(self.deviation_reason),
        }
    }

    /// A copy of this record.
    pub fn copy(&self) -> (r: PlanProgressStep)
        ensures
            r@ == self@,
    {
        PlanProgressStep {
            id: self.id.clone(),
            title: self.title.clone(),
            status: self.status,
            note: self.note.clone(),
            deviation_reason: crate::text::clone_opt(&self.deviation_reason),
        }
    }
}

pub open spec fn progress_view(v: Seq<PlanProgressStep>) -> Seq<ProgressView> {
    v.map_values(|p: PlanProgressStep| p@)
}

/// A fingerprint of something that the plan was based on.
#[derive(Debug, PartialEq, Eq)]
pub struct PlanEvidence {
    pub path: String,
    pub kind: PlanEvidenceKind,
    pub fingerprint: String,
    pub selector: Option<String>,
}

#[verifier::ext_equal]
pub struct EvidenceView {
    pub path: Seq<char>,
    pub kind: PlanEvidenceKind,
    pub fingerprint: Seq<char>,
    pub selector: Option<Seq<char>>,
}

impl PlanEvidence {
    pub open spec fn view(self) -> EvidenceView {
        EvidenceView {
            path: self.path@,
            kind: self.kind,
            fingerprint: self.fingerprint@,
            selector: opt_text(self.selector),
        }
    }

    /// A copy of this piece of evidence.
    pub fn copy(&self) -> (r: PlanEvidence)
        ensures
            r@ == self@,
    {
        PlanEvidence {
            path: self.path.clone(),
            kind: self.kind,
            fingerprint: self.fingerprint.clone(),
            selector: crate::text::clone_opt(&self.selector),
        }
    }
}

pub open spec fn evidence_view(v: Seq<PlanEvidence>) -> Seq<EvidenceView> {
    v.map_values(|e: PlanEvidence| e@)
}

/// Evidence captured for one tool call.
#[derive(Debug, PartialEq, Eq)]
pub struct CapturedPlanEvidence {
    pub evidence: Vec<PlanEvidence>,
    pub truncated: bool,
}

/// A plan of a session, with what has become of it.
#[derive(Debug, PartialEq, Eq)]
pub struct PendingPlan {
    pub id: String,
    pub original_user_message_index: usize,
    pub assistant_plan_message_index: usize,
    pub created_at: u64,
    pub revision: u32,
    pub status: PlanStatus,
    pub artifact: PlanArtifact,
    pub progress: Vec<PlanProgressStep>,
    pub evidence: Vec<PlanEvidence>,
    pub evidence_truncated: bool,
    pub updated_at: u64,
    pub approved_at: Option<u64>,
    pub finished_at: Option<u64>,
    pub execution_attempt: u32,
    pub stale_override_paths: Vec<String>,
    pub stale_override_confirmed_at: Option<u64>,
    pub pending_feedback: Option<String>,
    /// True only while the initial planning run has not submitted its first
    /// artifact.
    pub initial_submission_pending: bool,
}

#[verifier::ext_equal]
pub struct PlanView {
    pub id: Seq<char>,
    pub original_user_message_index: usize,
    pub assistant_plan_message_index: usize,
    pub created_at: u64,
    pub revision: u32,
    pub status: PlanStatus,
    pub artifact: ArtifactView,
    pub progress: Seq<ProgressView>,
    pub evidence: Seq<EvidenceView>,
    pub evidence_truncated: bool,
    pub updated_at: u64,
    pub approved_at: Option<u64>,
    pub finished_at: Option<u64>,
    pub execution_attempt: u32,
    pub stale_override_paths: Seq<Seq<char>>,
    pub stale_override_confirmed_at: Option<u64>,
    pub pending_feedback: Option<Seq<char>>,
    pub initial_submission_pending: bool,
}

impl PendingPlan {
    pub open spec fn view(self) -> PlanView {
        PlanView {
            id: self.id@,
            original_user_message_index: self.original_user_message_index,
            assistant_plan_message_index: self.assistant_plan_message_index,
            created_at: self.created_at,
            revision: self.revision,
            status: self.status,
            artifact: self.artifact@,
            progress: progress_view(self.progress@),
            evidence: evidence_view(self.evidence@),
            evidence_truncated: self.evidence_truncated,
            updated_at: self.updated_at,
            approved_at: self.approved_at,
            finished_at: self.finished_at,
            execution_attempt: self.execution_attempt,
            stale_override_paths: texts(self.stale_override_paths@),
            stale_override_confirmed_at: self.stale_override_confirmed_at,
            pending_feedback: opt_text(self.pending_feedback),
            initial_submission_pending: self.initial_submission_pending,
        }
    }
}

/// Whether a submission is complete or asks the user something first.
#[derive(Clone, Copy, Debug, PartialEq, Eq, Structural)]
pub enum PlanSubmissionState {
    NeedsInput,
    Ready,
}

/// A submitted plan.
#[derive(Debug, PartialEq, Eq)]
pub struct PlanSubmission {
    pub state: PlanSubmissionState,
    pub artifact: PlanArtifact,
}

/// A change of one existing step.
#[derive(Debug, PartialEq, Eq)]
pub struct PlanStepUpdate {
    pub id: String,
    pub status: PlanStepStatus,
    pub note: String,
}

#[verifier::ext_equal]
pub struct StepUpdateView {
    pub id: Seq<char>,
    pub status: PlanStepStatus,
    pub note: Seq<char>,
}

impl PlanStepUpdate {
    pub open spec fn view(self) -> StepUpdateView {
        StepUpdateView { id: self.id@, status: self.status, note: self.note@ }
    }
}

/// A step added while the plan runs.
#[derive(Debug, PartialEq, Eq)]
pub struct PlanAppendedStep {
    pub id: String,
    pub title: String,
    pub note: String,
    pub deviation_reason: String,
}

#[verifier::ext_equal]
pub struct AppendedView {
    pub id: Seq<char>,
    pub title: Seq<char>,
    pub note: Seq<char>,
    pub deviation_reason: Seq<char>,
}

impl PlanAppendedStep {
    pub open spec fn view(self) -> AppendedView {
        AppendedView {
            id: self.id@,
            title: self.title@,
            note: self.note@,
            deviation_reason: self.deviation_reason@,
        }
    }
}

/// A report on the progress of a running plan.
#[derive(Debug, PartialEq, Eq)]
pub struct PlanProgressUpdate {
    pub base_revision: u32,
    pub updates: Vec<PlanStepUpdate>,
    pub append_steps: Vec<PlanAppendedStep>,
}

#[verifier::ext_equal]
pub struct ProgressUpdateView {
    pub base_revision: u32,
    pub updates: Seq<StepUpdateView>,
    pub append_steps: Seq<AppendedView>,
}

pub open spec fn updates_view(v: Seq<PlanStepUpdate>) -> Seq<StepUpdateView> {
    v.map_values(|u: PlanStepUpdate| u@)
}

pub open spec fn appended_view(v: Seq<PlanAppendedStep>) -> Seq<AppendedView> {
    v.map_values(|s: PlanAppendedStep| s@)
}

impl PlanProgressUpdate {
    pub open spec fn view(self) -> ProgressUpdateView {
        ProgressUpdateView {
            base_revision: self.base_revision,
            updates: updates_view(self.updates@),
            append_steps: appended_view(self.append_steps@),
        }
    }
}

} // verus!
