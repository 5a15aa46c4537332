//! The life of a session's plan.

use crate::chat::{ChatMessage, MessageView, messages_view};
use crate::json::{
    Json, JsonNumber, JsonView, Obj, items_view, json_view, lemma_array_view, no_entries,
    text_array, texts_json, with_entry,
};
use crate::plan::accept::{image_goal, legacy_artifact, legacy_view};
use crate::plan::encode::{artifact_json, encode_artifact, text_value, with_text, with_value};
use crate::plan::markdown::{artifact_markdown, canonical_markdown};
use crate::plan::model::{
    ArtifactView, EvidenceView, PendingPlan, PlanArtifact, PlanEvidence, PlanProgressStep,
    PlanStatus, PlanStep, PlanStepStatus, PlanView, ProgressView, StepView, default_revision,
    empty_artifact, evidence_view, plan_status_label, progress_view, step_status_label,
    steps_view,
};
use crate::text::{decimal, decimal_spec, owned, same, trim, trimmed};
use vstd::prelude::*;
use vstd::string::*;

verus! {

/// The record of a step that nothing was reported on yet.
pub open spec fn fresh_progress(s: StepView) -> ProgressView {
    ProgressView {
        id: s.id,
        title: s.title,
        status: PlanStepStatus::Pending,
        note: Seq::empty(),
        deviation_reason: None,
    }
}

/// The records of steps that nothing was reported on yet.
pub open spec fn initial_progress(steps: Seq<StepView>) -> Seq<ProgressView> {
    steps.map_values(|s: StepView| fresh_progress(s))
}

fn start_progress(steps: &Vec<PlanStep>) -> (r: Vec<PlanProgressStep>)
    ensures
        progress_view(r@) == initial_progress(steps_view(steps@)),
{
    let mut r: Vec<PlanProgressStep> = Vec::new();
    let mut i: usize = 0;
    while i < steps.len()
        invariant
            i <= steps@.len(),
            r@.len() == i,
            forall|j: int| 0 <= j < i ==> (#[trigger] r@[j])@ == fresh_progress(steps@[j]@),
        decreases steps@.len() - i,
    {
        r.push(
            PlanProgressStep {
                id: steps[i].id.clone(),
                title: steps[i].title.clone(),
                status: PlanStepStatus::Pending,
                note: String::new(),
                deviation_reason: None,
            },
        );
        assert(r@[i as int]@ =~= fresh_progress(steps@[i as int]@));
        i = i + 1;
    }
    assert(progress_view(r@) =~= initial_progress(steps_view(steps@)));
    r
}

/// A step is finished when it was completed or skipped.
pub open spec fn is_finished(s: PlanStepStatus) -> bool {
    s is Completed || s is Skipped
}

/// Whether a step is finished.
pub fn finished(s: PlanStepStatus) -> (r: bool)
    ensures
        r == is_finished(s),
{
    matches!(s, PlanStepStatus::Completed | PlanStepStatus::Skipped)
}

/// How many of the records are of steps that are not finished.
pub open spec fn unfinished(progress: Seq<ProgressView>) -> nat
    decreases progress.len(),
{
    if progress.len() == 0 {
        0
    } else {
        unfinished(progress.drop_last()) + (if is_finished(progress.last().status) {
            0nat
        } else {
            1nat
        })
    }
}

/// Where a message stands after `removed` messages before it were dropped; the
/// first message stays first.
pub open spec fn rebased(index: usize, removed: usize) -> usize {
    if index <= removed {
        0
    } else {
        (index - removed) as usize
    }
}

fn rebase(index: usize, removed: usize) -> (r: usize)
    ensures
        r == rebased(index, removed),
{
    if index <= removed {
        0
    } else {
        index - removed
    }
}

/// One line on the progress of a step.
pub open spec fn progress_line(steps: Seq<StepView>, p: ProgressView) -> Seq<char> {
    let base = "\n- `"@ + p.id + "` ["@ + step_status_label(p.status) + "] "@ + p.title;
    let marked = if exists|i: int| 0 <= i < steps.len() && (#[trigger] steps[i]).id == p.id {
        base
    } else {
        base + " (runtime adaptation)"@
    };
    let noted = if p.note.len() == 0 {
        marked
    } else {
        marked + " — note: "@ + p.note
    };
    match p.deviation_reason {
        Some(reason) => noted + " — deviation reason: "@ + reason,
        None => noted,
    }
}

/// The lines on the first `n` records.
pub open spec fn progress_lines(steps: Seq<StepView>, progress: Seq<ProgressView>, n: int) -> Seq<
    char,
>
    decreases n,
{
    if n <= 0 {
        Seq::empty()
    } else {
        progress_lines(steps, progress, n - 1) + progress_line(steps, progress[n - 1])
    }
}

/// What a model is told of the plan that it carries out.
pub open spec fn prompt_section(p: PlanView) -> Seq<char> {
    let head = "## Approved Execution Plan\n\n"@ + "Plan ID: `"@ + p.id + "`\nRevision: "@
        + decimal_spec(p.revision as nat) + "\n\n"@ + artifact_markdown(p.artifact);
    let body = if p.progress.len() == 0 {
        head
    } else {
        head + "\n\n### Current execution progress\n"@ + progress_lines(
            p.artifact.steps,
            p.progress,
            p.progress.len() as int,
        )
    };
    body
        + "\n\nFollow this exact approved revision as an immutable execution contract. Its goal, original step constraints, verification, acceptance criteria, and server completion checks take precedence over broader assumptions such as following the current contents of a stale input. `allow_stale` permits execution in the changed environment; it does not approve a refresh, reinterpretation, or replacement of this revision. Use `update_plan` to report progress. You may append an adaptation step only to help satisfy this contract, must include a deviation reason, and must block the affected original step when new evidence conflicts with the contract. Do not change or replace the approved goal, constraints, verification, acceptance criteria, or completion checks."@
}

fn progress_line_text(steps: &Vec<PlanStep>, p: &PlanProgressStep) -> (r: String)
    ensures
        r@ == progress_line(steps_view(steps@), p@),
{
    let mut known: bool = false;
    let mut i: usize = 0;
    while i < steps.len()
        invariant
            i <= steps@.len(),
            known == exists|j: int| 0 <= j < i && (#[trigger] steps_view(steps@)[j]).id == p@.id,
        decreases steps@.len() - i,
    {
        assert(steps_view(steps@)[i as int].id == steps@[i as int].id@);
        if same(steps[i].id.as_str(), p.id.as_str()) {
            known = true;
        }
        i = i + 1;
    }
    let mut out = owned("\n- `");
    out.append(p.id.as_str());
    out.append("` [");
    out.append(p.status.label());
    out.append("] ");
    out.append(p.title.as_str());
    if !known {
        out.append(" (runtime adaptation)");
    }
    if !p.note.as_str().is_empty() {
        out.append(" — note: ");
        out.append(p.note.as_str());
    }
    if let Some(reason) = &p.deviation_reason {
        out.append(" — deviation reason: ");
        out.append(reason.as_str());
    }
    out
}

/// A record of progress as JSON.
pub open spec fn progress_json(p: ProgressView) -> JsonView {
    let e = with_entry(no_entries(), "id"@, JsonView::Text(p.id));
    let e = with_entry(e, "title"@, JsonView::Text(p.title));
    let e = with_entry(e, "status"@, JsonView::Text(step_status_label(p.status)));
    let e = with_text(e, "note"@, p.note);
    JsonView::Object(with_value(e, "deviation_reason"@, text_value(p.deviation_reason)))
}

fn encode_progress(p: &PlanProgressStep) -> (r: Json)
    ensures
        r@ == progress_json(p@),
{
    let mut o = Obj::new();
    o.set_text("id", p.id.as_str());
    o.set_text("title", p.title.as_str());
    o.set_text("status", p.status.label());
    if !p.note.as_str().is_empty() {
        o.set_text("note", p.note.as_str());
    }
    if let Some(reason) = &p.deviation_reason {
        o.set_text("deviation_reason", reason.as_str());
    }
    o.done()
}

fn encode_progress_list(v: &Vec<PlanProgressStep>) -> (r: Json)
    ensures
        r@ == JsonView::Array(
            progress_view(v@).map_values(|p: ProgressView| progress_json(p)),
        ),
{
    let mut out: Vec<Json> = Vec::new();
    let mut i: usize = 0;
    while i < v.len()
        invariant
            i <= v@.len(),
            out@.len() == i,
            forall|j: int| 0 <= j < i ==> json_view(#[trigger] out@[j]) == progress_json(v@[j]@),
        decreases v@.len() - i,
    {
        out.push(encode_progress(&v[i]));
        i = i + 1;
    }
    assert(items_view(out@) =~= progress_view(v@).map_values(|p: ProgressView| progress_json(p)));
    proof {
        lemma_array_view(out);
    }
    Json::Array(out)
}

/// An optional number as JSON.
pub open spec fn number_or_null(n: Option<u64>) -> JsonView {
    match n {
        Some(v) => JsonView::Unsigned(v),
        None => JsonView::Null,
    }
}

fn optional_number(n: Option<u64>) -> (r: Json)
    ensures
        r@ == number_or_null(n),
{
    match n {
        Some(v) => Json::Number(JsonNumber::Unsigned(v)),
        None => Json::Null,
    }
}

/// The plan was asked for by an image alone and was not submitted yet.
pub open spec fn image_only(p: PlanView) -> bool {
    p.initial_submission_pending && p.artifact.goal == image_goal()
}

/// What a client is shown of a plan.
pub open spec fn live_json(p: PlanView) -> JsonView {
    let e = with_entry(no_entries(), "plan_id"@, JsonView::Text(p.id));
    let e = with_entry(e, "revision"@, JsonView::Unsigned(p.revision as u64));
    let e = with_entry(e, "status"@, JsonView::Text(plan_status_label(p.status)));
    let e = with_entry(
        e,
        "message_index"@,
        JsonView::Unsigned(p.assistant_plan_message_index as u64),
    );
    let e = with_entry(e, "created_at"@, JsonView::Unsigned(p.created_at));
    let e = with_entry(e, "updated_at"@, JsonView::Unsigned(p.updated_at));
    let e = with_entry(e, "approved_at"@, number_or_null(p.approved_at));
    let e = with_entry(e, "finished_at"@, number_or_null(p.finished_at));
    let e = with_entry(e, "execution_attempt"@, JsonView::Unsigned(p.execution_attempt as u64));
    let e = with_entry(e, "artifact"@, artifact_json(p.artifact));
    let e = with_entry(
        e,
        "progress"@,
        JsonView::Array(p.progress.map_values(|s: ProgressView| progress_json(s))),
    );
    let e = with_entry(e, "evidence_count"@, JsonView::Unsigned(p.evidence.len() as u64));
    let e = with_entry(e, "evidence_truncated"@, JsonView::Bool(p.evidence_truncated));
    let e = with_entry(e, "stale_override_paths"@, texts_json(p.stale_override_paths));
    let e = with_entry(
        e,
        "stale_override_confirmed_at"@,
        number_or_null(p.stale_override_confirmed_at),
    );
    let e = with_entry(
        e,
        "pending_feedback"@,
        match p.pending_feedback {
            Some(t) => JsonView::Text(t),
            None => JsonView::Null,
        },
    );
    let e = with_entry(
        e,
        "initial_submission_pending"@,
        JsonView::Bool(p.initial_submission_pending),
    );
    let e = with_entry(e, "initial_request_image_only"@, JsonView::Bool(image_only(p)));
    let e = with_entry(e, "unfinished_steps"@, JsonView::Unsigned(unfinished(p.progress) as u64));
    JsonView::Object(
        with_entry(
            e,
            "run_finished_with_unreported_steps"@,
            JsonView::Bool(p.status is Completed && unfinished(p.progress) > 0),
        ),
    )
}

impl Default for PendingPlan {
    fn default() -> (r: Self)
        ensures
            r@.id == Seq::<char>::empty(),
            r@.original_user_message_index == 0,
            r@.assistant_plan_message_index == 0,
            r@.created_at == 0,
            r@.revision == 1,
            r@.status == PlanStatus::Ready,
            r@.artifact == empty_artifact(),
            r@.progress == Seq::<ProgressView>::empty(),
            r@.evidence == Seq::<EvidenceView>::empty(),
            !r@.evidence_truncated,
            r@.updated_at == 0,
            r@.approved_at is None,
            r@.finished_at is None,
            r@.execution_attempt == 0,
            r@.stale_override_paths == Seq::<Seq<char>>::empty(),
            r@.stale_override_confirmed_at is None,
            r@.pending_feedback is None,
            !r@.initial_submission_pending,
    {
        PendingPlan {
            id: String::new(),
            original_user_message_index: 0,
            assistant_plan_message_index: 0,
            created_at: 0,
            revision: default_revision(),
            status: PlanStatus::Ready,
            artifact: PlanArtifact::default(),
            progress: Vec::new(),
            evidence: Vec::new(),
            evidence_truncated: false,
            updated_at: 0,
            approved_at: None,
            finished_at: None,
            execution_attempt: 0,
            stale_override_paths: Vec::new(),
            stale_override_confirmed_at: None,
            pending_feedback: None,
            initial_submission_pending: false,
        }
    }
}

/// A plan as it was stored, with what older versions left out filled in.
pub open spec fn modernized(p: PlanView, messages: Seq<MessageView>) -> PlanView {
    let index = p.assistant_plan_message_index as int;
    let markdown = if index < messages.len() && messages[index].content is Some {
        messages[index].content->0
    } else {
        "Approved plan"@
    };
    let artifact = if trimmed(p.artifact.title).len() == 0 {
        legacy_view(markdown)
    } else {
        ArtifactView {
            schema_version: if p.artifact.schema_version == 0 {
                1
            } else {
                p.artifact.schema_version
            },
            ..p.artifact
        }
    };
    PlanView {
        revision: if p.revision == 0 {
            1
        } else {
            p.revision
        },
        updated_at: if p.updated_at == 0 {
            p.created_at
        } else {
            p.updated_at
        },
        artifact,
        progress: if p.progress.len() == 0 {
            initial_progress(artifact.steps)
        } else {
            p.progress
        },
        ..p
    }
}

impl PendingPlan {
    /// A plan that was just made.
    pub fn new(
        id: String,
        original_user_message_index: usize,
        assistant_plan_message_index: usize,
        created_at: u64,
        revision: u32,
        status: PlanStatus,
        artifact: PlanArtifact,
        evidence: Vec<PlanEvidence>,
        evidence_truncated: bool,
    ) -> (r: Self)
        ensures
            r@ == (PlanView {
                id: id@,
                original_user_message_index,
                assistant_plan_message_index,
                created_at,
                revision,
                status,
                artifact: artifact@,
                progress: initial_progress(artifact@.steps),
                evidence: evidence_view(evidence@),
                evidence_truncated,
                updated_at: created_at,
                approved_at: None,
                finished_at: None,
                execution_attempt: 0,
                stale_override_paths: Seq::empty(),
                stale_override_confirmed_at: None,
                pending_feedback: None,
                initial_submission_pending: false,
            }),
    {
        let progress = start_progress(&artifact.steps);
        let r = PendingPlan {
            id,
            original_user_message_index,
            assistant_plan_message_index,
            created_at,
            revision,
            status,
            artifact,
            progress,
            evidence,
            evidence_truncated,
            updated_at: created_at,
            approved_at: None,
            finished_at: None,
            execution_attempt: 0,
            stale_override_paths: Vec::new(),
            stale_override_confirmed_at: None,
            pending_feedback: None,
            initial_submission_pending: false,
        };
        assert(r@.stale_override_paths =~= Seq::empty());
        r
    }

    /// Fills in what older versions did not store: revision, time of the last
    /// change, version, artifact and progress.
    pub fn normalize_legacy(&mut self, messages: &Vec<ChatMessage>)
        ensures
            final(self)@ == modernized(old(self)@, messages_view(messages@)),
    {
        if self.revision == 0 {
            self.revision = 1;
        }
        if self.updated_at == 0 {
            self.updated_at = self.created_at;
        }
        if self.artifact.schema_version == 0 {
            self.artifact.schema_version = 1;
        }
        if trim(self.artifact.title.as_str()).as_str().is_empty() {
            let index: usize = self.assistant_plan_message_index;
            let mut markdown = owned("Approved plan");
            if index < messages.len() {
                assert(messages_view(messages@)[index as int] == messages@[index as int]@);
                if let Some(content) = &messages[index].content {
                    markdown = content.clone();
                }
            }
            self.artifact = legacy_artifact(markdown.as_str());
        }
        if self.progress.len() == 0 {
            self.progress = start_progress(&self.artifact.steps);
        }
    }

    /// How many steps are neither completed nor skipped.
    pub fn unfinished_step_count(&self) -> (n: usize)
        ensures
            n == unfinished(self@.progress),
            n <= self@.progress.len(),
    {
        let mut n: usize = 0;
        let mut i: usize = 0;
        while i < self.progress.len()
            invariant
                i <= self.progress@.len(),
                n <= i,
                n == unfinished(self@.progress.take(i as int)),
            decreases self.progress@.len() - i,
        {
            assert(self@.progress.take(i + 1).drop_last() =~= self@.progress.take(i as int));
            assert(self@.progress.take(i + 1).last() == self.progress@[i as int]@);
            if !finished(self.progress[i].status) {
                n = n + 1;
            }
            i = i + 1;
        }
        assert(self@.progress.take(i as int) =~= self@.progress);
        n
    }

    /// What a client is shown of the plan.
    pub fn to_live_value(&self) -> (r: Json)
        ensures
            r@ == live_json(self@),
    {
        let unfinished_steps: usize = self.unfinished_step_count();
        let image_only: bool = self.initial_submission_pending && same(
            self.artifact.goal.as_str(),
            "Prepare a plan using the attached image input.",
        );
        let mut o = Obj::new();
        o.set_text("plan_id", self.id.as_str());
        o.set_number("revision", self.revision as u64);
        o.set_text("status", self.status.label());
        o.set_number("message_index", self.assistant_plan_message_index as u64);
        o.set_number("created_at", self.created_at);
        o.set_number("updated_at", self.updated_at);
        o.set("approved_at", optional_number(self.approved_at));
        o.set("finished_at", optional_number(self.finished_at));
        o.set_number("execution_attempt", self.execution_attempt as u64);
        o.set("artifact", encode_artifact(&self.artifact));
        o.set("progress", encode_progress_list(&self.progress));
        o.set_number("evidence_count", self.evidence.len() as u64);
        o.set_bool("evidence_truncated", self.evidence_truncated);
        o.set("stale_override_paths", text_array(&self.stale_override_paths));
        o.set("stale_override_confirmed_at", optional_number(self.stale_override_confirmed_at));
        let feedback = match &self.pending_feedback {
            Some(t) => Json::Text(t.clone()),
            None => Json::Null,
        };
        o.set("pending_feedback", feedback);
        o.set_bool("initial_submission_pending", self.initial_submission_pending);
        o.set_bool("initial_request_image_only", image_only);
        o.set_number("unfinished_steps", unfinished_steps as u64);
        let unreported: bool = self.status == PlanStatus::Completed && unfinished_steps > 0;
        o.set_bool("run_finished_with_unreported_steps", unreported);
        o.done()
    }

    /// What a model is told of the plan that it carries out.
    pub fn approved_prompt_section(&self) -> (r: String)
        ensures
            r@ == prompt_section(self@),
    {
        let mut output = owned("## Approved Execution Plan\n\n");
        output.append("Plan ID: `");
        output.append(self.id.as_str());
        output.append("`\nRevision: ");
        output.append(decimal(self.revision as u64).as_str());
        output.append("\n\n");
        output.append(canonical_markdown(&self.artifact).as_str());
        if self.progress.len() > 0 {
            output.append("\n\n### Current execution progress\n");
            let ghost start = output@;
            let ghost steps = self@.artifact.steps;
            assert(output@ =~= start + progress_lines(steps, self@.progress, 0));
            let mut i: usize = 0;
            while i < self.progress.len()
                invariant
                    i <= self.progress@.len(),
                    steps == self@.artifact.steps,
                    output@ == start + progress_lines(steps, self@.progress, i as int),
                decreases self.progress@.len() - i,
            {
                let line = progress_line_text(&self.artifact.steps, &self.progress[i]);
                assert(self@.progress[i as int] == self.progress@[i as int]@);
                let ghost so_far = progress_lines(steps, self@.progress, i as int);
                output.append(line.as_str());
                assert(output@ =~= start + (so_far + line@));
                i = i + 1;
            }
        }
        output.append(
            "\n\nFollow this exact approved revision as an immutable execution contract. Its goal, original step constraints, verification, acceptance criteria, and server completion checks take precedence over broader assumptions such as following the current contents of a stale input. `allow_stale` permits execution in the changed environment; it does not approve a refresh, reinterpretation, or replacement of this revision. Use `update_plan` to report progress. You may append an adaptation step only to help satisfy this contract, must include a deviation reason, and must block the affected original step when new evidence conflicts with the contract. Do not change or replace the approved goal, constraints, verification, acceptance criteria, or completion checks.",
        );
        output
    }

    /// Moves the plan's message positions after the first `removed` messages
    /// of the session were dropped.
    pub fn rebase_message_indices_after_prefix_prune(&mut self, removed: usize)
        ensures
            final(self)@ == (PlanView {
                original_user_message_index: rebased(
                    old(self)@.original_user_message_index,
                    removed,
                ),
                assistant_plan_message_index: rebased(
                    old(self)@.assistant_plan_message_index,
                    removed,
                ),
                ..old(self)@
            }),
    {
        self.original_user_message_index = rebase(self.original_user_message_index, removed);
        self.assistant_plan_message_index = rebase(self.assistant_plan_message_index, removed);
    }
}

/// Dropping messages in two rounds moves a position as dropping them in one.
pub proof fn law_rebase_composes(index: usize, first: usize, second: usize)
    requires
        first + second <= usize::MAX,
    ensures
        rebased(rebased(index, first), second) == rebased(index, (first + second) as usize),
{
}

/// A plan that was filled in once is not changed by filling it in again.
pub proof fn law_modernize_idempotent(p: PlanView, messages: Seq<MessageView>)
    ensures
        modernized(modernized(p, messages), messages) == modernized(p, messages),
{
    let m = modernized(p, messages);
    reveal_strlit("Proposed plan");
    let t = "Proposed plan"@;
    assert(trimmed(t) == t);
    let n = modernized(m, messages);
    assert(n.artifact == m.artifact);
    if m.progress.len() == 0 {
        assert(initial_progress(m.artifact.steps) == m.progress);
    }
}

} // verus!
