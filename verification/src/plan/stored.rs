//! Plans that come back from storage.

use crate::json::{json_parsed, parse};
use crate::plan::accept::{
    artifact_problem, legacy_shape_problem, limit_message, limit_text, placeholder_problem,
    step_problems, validate_artifact, validate_initial_placeholder,
    validate_persisted_legacy_artifact,
};
use crate::plan::completion::{FailureView, charged, law_charging_only_blocks};
use crate::plan::model::{
    ArtifactView, EvidenceView, MAX_PLAN_BYTES, MAX_PLAN_EVIDENCE, MAX_PLAN_STEPS, PendingPlan,
    PlanArtifact, PlanEvidence, PlanEvidenceKind, PlanProgressStep, PlanStatus,
    PlanSubmissionState, PlanView, ProgressUpdateView, ProgressView, StepUpdateView, StepView,
    evidence_view, plan_status_label, progress_view,
};
use crate::plan::normalize::normal_artifact;
use crate::plan::pending::{fresh_progress, initial_progress};
use crate::plan::progress::{
    added_record, appended_problems, changed, ids_unique, law_progress_keeps_ids_unique,
    law_progress_keeps_steps, lemma_extended_keeps, lemma_position_in_range, normal_report,
    progress_after, report_problem, update_problems,
};
use crate::plan::rules::{
    about, identifier_problem, string_list_problem, text_problem, validate_identifier,
    validate_string_list, validate_text,
};
use crate::plan::submit::submission_problem;
use crate::text::{
    before, concat3, first_problem, opt_text, or_else, owned, problem, problem_if, same,
    text_before,
};
use vstd::prelude::*;
use vstd::string::*;

verus! {

/// The title of the last step among the first `n` with the given id.
pub open spec fn approved_title(steps: Seq<StepView>, id: Seq<char>, n: int) -> Option<Seq<char>>
    decreases n,
{
    if n <= 0 {
        None
    } else if steps[n - 1].id == id {
        Some(steps[n - 1].title)
    } else {
        approved_title(steps, id, n - 1)
    }
}

/// The progress has a record of the step `id`.
pub open spec fn has_progress(progress: Seq<ProgressView>, id: Seq<char>) -> bool {
    exists|i: int| 0 <= i < progress.len() && (#[trigger] progress[i]).id == id
}

/// The first id, in the order of texts, among the first `n` steps that the
/// progress has no record of.
pub open spec fn first_missing(steps: Seq<StepView>, progress: Seq<ProgressView>, n: int) -> Option<
    Seq<char>,
>
    decreases n,
{
    if n <= 0 {
        None
    } else {
        let earlier = first_missing(steps, progress, n - 1);
        let id = steps[n - 1].id;
        if has_progress(progress, id) {
            earlier
        } else {
            match earlier {
                Some(m) => if text_before(id, m) {
                    Some(id)
                } else {
                    Some(m)
                },
                None => Some(id),
            }
        }
    }
}

/// What is wrong with the progress record at `i`, given those before it.
pub open spec fn progress_step_problem(p: PlanView, i: int) -> Option<Seq<char>> {
    let s = p.progress[i];
    or_else(
        identifier_problem("progress step id"@, s.id),
        or_else(
            problem_if(
                exists|j: int| 0 <= j < i && (#[trigger] p.progress[j]).id == s.id,
                about("duplicate progress step id '"@, s.id, "'"@),
            ),
            or_else(
                text_problem("progress step title"@, s.title, 1, 240),
                or_else(
                    text_problem("progress step note"@, s.note, 0, 2000),
                    match approved_title(p.artifact.steps, s.id, p.artifact.steps.len() as int) {
                        Some(title) => problem_if(
                            s.title != title,
                            about(
                                "progress step '"@,
                                s.id,
                                "' does not match the approved plan title"@,
                            ),
                        ),
                        None => match s.deviation_reason {
                            None => Some(
                                about("adaptation step '"@, s.id, "' requires a deviation reason"@),
                            ),
                            Some(reason) => text_problem(
                                "adaptation deviation reason"@,
                                reason,
                                1,
                                2000,
                            ),
                        },
                    },
                ),
            ),
        ),
    )
}

/// The problem of the progress record at each position.
pub open spec fn progress_step_problems(p: PlanView) -> spec_fn(int) -> Option<Seq<char>> {
    |i: int| progress_step_problem(p, i)
}

/// What is wrong with the progress of a stored plan.
pub open spec fn persisted_progress_problem(p: PlanView) -> Option<Seq<char>> {
    or_else(
        problem_if(
            p.progress.len() > MAX_PLAN_STEPS,
            limit_text("plan progress contains more than "@, MAX_PLAN_STEPS as nat, " steps"@),
        ),
        or_else(
            first_problem(progress_step_problems(p), 0, p.progress.len() as int),
            match first_missing(p.artifact.steps, p.progress, p.artifact.steps.len() as int) {
                Some(id) => Some(about("plan progress is missing approved step '"@, id, "'"@)),
                None => None,
            },
        ),
    )
}

fn find_approved_title(artifact: &PlanArtifact, id: &str) -> (r: Option<String>)
    ensures
        opt_text(r) == approved_title(artifact@.steps, id@, artifact@.steps.len() as int),
{
    let mut i: usize = artifact.steps.len();
    while i > 0
        invariant
            i <= artifact.steps@.len(),
            approved_title(artifact@.steps, id@, i as int) == approved_title(
                artifact@.steps,
                id@,
                artifact@.steps.len() as int,
            ),
        decreases i,
    {
        assert(artifact@.steps[i - 1] == artifact.steps@[i - 1]@);
        if same(artifact.steps[i - 1].id.as_str(), id) {
            return Some(artifact.steps[i - 1].title.clone());
        }
        i = i - 1;
    }
    None
}

/// Whether the progress has a record of the step `id`.
pub fn records_step(progress: &Vec<PlanProgressStep>, id: &str) -> (r: bool)
    ensures
        r == has_progress(progress_view(progress@), id@),
{
    let mut i: usize = 0;
    while i < progress.len()
        invariant
            i <= progress@.len(),
            forall|j: int|
                0 <= j < i ==> (#[trigger] progress_view(progress@)[j]).id != id@,
        decreases progress@.len() - i,
    {
        assert(progress_view(progress@)[i as int].id == progress@[i as int].id@);
        if same(progress[i].id.as_str(), id) {
            return true;
        }
        i = i + 1;
    }
    false
}

fn find_first_missing(plan: &PendingPlan) -> (r: Option<String>)
    ensures
        opt_text(r) == first_missing(
            plan@.artifact.steps,
            plan@.progress,
            plan@.artifact.steps.len() as int,
        ),
{
    let mut found: Option<String> = None;
    let mut i: usize = 0;
    while i < plan.artifact.steps.len()
        invariant
            i <= plan.artifact.steps@.len(),
            opt_text(found) == first_missing(plan@.artifact.steps, plan@.progress, i as int),
        decreases plan.artifact.steps@.len() - i,
    {
        let id = &plan.artifact.steps[i].id;
        assert(plan@.artifact.steps[i as int].id == id@);
        if !records_step(&plan.progress, id.as_str()) {
            let earlier = match &found {
                Some(m) => before(id.as_str(), m.as_str()),
                None => true,
            };
            if earlier {
                found = Some(id.clone());
            }
        }
        i = i + 1;
    }
    found
}

fn validate_progress_step(plan: &PendingPlan, i: usize) -> (r: Result<(), String>)
    requires
        i < plan.progress@.len(),
    ensures
        problem(r) == progress_step_problem(plan@, i as int),
{
    let step = &plan.progress[i];
    assert(plan@.progress[i as int] == step@);
    if let Err(e) = validate_identifier("progress step id", step.id.as_str()) {
        return Err(e);
    }
    let mut j: usize = 0;
    while j < i
        invariant
            j <= i < plan.progress@.len(),
            plan@.progress[i as int] == step@,
            identifier_problem("progress step id"@, step@.id) is None,
            forall|k: int| 0 <= k < j ==> (#[trigger] plan@.progress[k]).id != step@.id,
        decreases i - j,
    {
        assert(plan@.progress[j as int].id == plan.progress@[j as int].id@);
        if same(plan.progress[j].id.as_str(), step.id.as_str()) {
            return Err(concat3("duplicate progress step id '", step.id.as_str(), "'"));
        }
        j = j + 1;
    }
    if let Err(e) = validate_text("progress step title", step.title.as_str(), 1, 240) {
        return Err(e);
    }
    if let Err(e) = validate_text("progress step note", step.note.as_str(), 0, 2000) {
        return Err(e);
    }
    match find_approved_title(&plan.artifact, step.id.as_str()) {
        Some(title) => {
            if !same(step.title.as_str(), title.as_str()) {
                return Err(
                    concat3(
                        "progress step '",
                        step.id.as_str(),
                        "' does not match the approved plan title",
                    ),
                );
            }
            Ok(())
        },
        None => match &step.deviation_reason {
            None => Err(
                concat3("adaptation step '", step.id.as_str(), "' requires a deviation reason"),
            ),
            Some(reason) => validate_text("adaptation deviation reason", reason.as_str(), 1, 2000),
        },
    }
}

fn validate_progress_steps(plan: &PendingPlan) -> (r: Result<(), String>)
    ensures
        problem(r) == first_problem(
            progress_step_problems(plan@),
            0,
            plan@.progress.len() as int,
        ),
{
    let ghost f = progress_step_problems(plan@);
    let count: usize = plan.progress.len();
    let mut i: usize = 0;
    while i < count
        invariant
            i <= count == plan.progress@.len(),
            f == progress_step_problems(plan@),
            first_problem(f, i as int, count as int) == first_problem(f, 0, count as int),
        decreases count - i,
    {
        assert(f(i as int) == progress_step_problem(plan@, i as int));
        if let Err(e) = validate_progress_step(plan, i) {
            return Err(e);
        }
        i = i + 1;
    }
    Ok(())
}

/// Checks the progress of a stored plan against its approved steps.
pub fn validate_persisted_progress(plan: &PendingPlan) -> (r: Result<(), String>)
    ensures
        problem(r) == persisted_progress_problem(plan@),
{
    if plan.progress.len() > MAX_PLAN_STEPS {
        return Err(limit_message("plan progress contains more than ", MAX_PLAN_STEPS, " steps"));
    }
    if let Err(e) = validate_progress_steps(plan) {
        return Err(e);
    }
    match find_first_missing(plan) {
        Some(id) => Err(concat3("plan progress is missing approved step '", id.as_str(), "'")),
        None => Ok(()),
    }
}

/// What is wrong with one stored piece of evidence.
pub open spec fn stored_evidence_problem(e: EvidenceView) -> Option<Seq<char>> {
    or_else(
        text_problem("evidence path"@, e.path, 1, 4096),
        or_else(
            text_problem("evidence fingerprint"@, e.fingerprint, 1, 256),
            match e.kind {
                PlanEvidenceKind::Git => match e.selector {
                    None => Some("Git evidence requires a selector"@),
                    Some(selector) => or_else(
                        text_problem("Git evidence selector"@, selector, 1, 16384),
                        match json_parsed(selector) {
                            Ok(_) => None,
                            Err(message) => Some(
                                "invalid Git evidence selector: "@ + message,
                            ),
                        },
                    ),
                },
                _ => problem_if(
                    e.selector is Some,
                    "non-Git evidence cannot contain a selector"@,
                ),
            },
        ),
    )
}

/// The problem of the evidence at each position.
pub open spec fn stored_evidence_problems(v: Seq<EvidenceView>) -> spec_fn(int) -> Option<
    Seq<char>,
> {
    |i: int| stored_evidence_problem(v[i])
}

fn validate_evidence(evidence: &PlanEvidence) -> (r: Result<(), String>)
    ensures
        problem(r) == stored_evidence_problem(evidence@),
{
    if let Err(e) = validate_text("evidence path", evidence.path.as_str(), 1, 4096) {
        return Err(e);
    }
    if let Err(e) = validate_text("evidence fingerprint", evidence.fingerprint.as_str(), 1, 256) {
        return Err(e);
    }
    match evidence.kind {
        PlanEvidenceKind::Git => {
            let selector = match &evidence.selector {
                Some(s) => s,
                None => {
                    return Err(owned("Git evidence requires a selector"));
                },
            };
            if let Err(e) = validate_text("Git evidence selector", selector.as_str(), 1, 16384) {
                return Err(e);
            }
            match parse(selector.as_str()) {
                Ok(_) => Ok(()),
                Err(message) => {
                    let mut m = owned("invalid Git evidence selector: ");
                    m.append(message.as_str());
                    Err(m)
                },
            }
        },
        _ => {
            if evidence.selector.is_some() {
                return Err(owned("non-Git evidence cannot contain a selector"));
            }
            Ok(())
        },
    }
}

fn validate_evidence_list(evidence: &Vec<PlanEvidence>) -> (r: Result<(), String>)
    ensures
        problem(r) == first_problem(
            stored_evidence_problems(evidence_view(evidence@)),
            0,
            evidence@.len() as int,
        ),
{
    let ghost f = stored_evidence_problems(evidence_view(evidence@));
    let count: usize = evidence.len();
    let mut i: usize = 0;
    while i < count
        invariant
            i <= count == evidence@.len(),
            f == stored_evidence_problems(evidence_view(evidence@)),
            first_problem(f, i as int, count as int) == first_problem(f, 0, count as int),
        decreases count - i,
    {
        assert(f(i as int) == stored_evidence_problem(evidence@[i as int]@));
        if let Err(e) = validate_evidence(&evidence[i]) {
            return Err(e);
        }
        i = i + 1;
    }
    Ok(())
}

/// The artifact is complete: plain Markdown, or without open questions.
pub open spec fn artifact_is_ready(a: ArtifactView) -> bool {
    a.legacy_markdown is Some || a.questions.len() == 0
}

/// What is wrong with a stored plan that still waits for its first submission.
pub open spec fn awaiting_problem(p: PlanView) -> Option<Seq<char>> {
    or_else(
        problem_if(
            !(p.status is Planning || p.status is Failed || p.status is Stopped || p.status
                is Discarded),
            "initial plan submission marker is invalid for the persisted status"@,
        ),
        or_else(
            placeholder_problem(p.artifact),
            problem_if(
                p.progress.len() > 0,
                "initial plan placeholder cannot contain progress steps"@,
            ),
        ),
    )
}

/// What is wrong with a stored plan that was submitted.
pub open spec fn submitted_problem(p: PlanView, fold_case: bool) -> Option<Seq<char>> {
    or_else(
        if p.artifact.legacy_markdown is Some {
            legacy_shape_problem(p.artifact)
        } else if p.artifact.questions.len() == 0 {
            artifact_problem(p.artifact, PlanSubmissionState::Ready, fold_case)
        } else {
            artifact_problem(p.artifact, PlanSubmissionState::NeedsInput, fold_case)
        },
        or_else(
            match p.status {
                PlanStatus::NeedsInput => problem_if(
                    artifact_is_ready(p.artifact),
                    "needs_input plan must contain blocking questions"@,
                ),
                PlanStatus::Ready | PlanStatus::Executing | PlanStatus::Completed => problem_if(
                    !artifact_is_ready(p.artifact),
                    plan_status_label(p.status) + " plan cannot contain blocking questions"@,
                ),
                _ => None,
            },
            persisted_progress_problem(p),
        ),
    )
}

/// What is wrong with a stored plan.
pub open spec fn persisted_problem(p: PlanView, fold_case: bool) -> Option<Seq<char>> {
    or_else(
        identifier_problem("plan id"@, p.id),
        or_else(
            problem_if(p.revision == 0, "plan revision must be positive"@),
            or_else(
                if p.initial_submission_pending {
                    awaiting_problem(p)
                } else {
                    submitted_problem(p, fold_case)
                },
                or_else(
                    problem_if(
                        p.evidence.len() > MAX_PLAN_EVIDENCE,
                        "plan evidence exceeds its limit"@,
                    ),
                    or_else(
                        first_problem(
                            stored_evidence_problems(p.evidence),
                            0,
                            p.evidence.len() as int,
                        ),
                        or_else(
                            string_list_problem(
                                "stale override paths"@,
                                p.stale_override_paths,
                                MAX_PLAN_EVIDENCE as nat,
                                4096,
                            ),
                            match p.pending_feedback {
                                Some(feedback) => text_problem(
                                    "pending plan feedback"@,
                                    feedback,
                                    1,
                                    MAX_PLAN_BYTES as nat,
                                ),
                                None => None,
                            },
                        ),
                    ),
                ),
            ),
        ),
    )
}

fn validate_awaiting(plan: &PendingPlan) -> (r: Result<(), String>)
    ensures
        problem(r) == awaiting_problem(plan@),
{
    let allowed = matches!(
        plan.status,
        PlanStatus::Planning | PlanStatus::Failed | PlanStatus::Stopped | PlanStatus::Discarded
    );
    if !allowed {
        return Err(owned("initial plan submission marker is invalid for the persisted status"));
    }
    if let Err(e) = validate_initial_placeholder(&plan.artifact) {
        return Err(e);
    }
    if plan.progress.len() > 0 {
        return Err(owned("initial plan placeholder cannot contain progress steps"));
    }
    Ok(())
}

fn validate_submitted(plan: &PendingPlan, fold_case: bool) -> (r: Result<(), String>)
    ensures
        problem(r) == submitted_problem(plan@, fold_case),
{
    let is_legacy: bool = plan.artifact.legacy_markdown.is_some();
    let no_questions: bool = plan.artifact.questions.len() == 0;
    let shape = if is_legacy {
        validate_persisted_legacy_artifact(&plan.artifact)
    } else if no_questions {
        validate_artifact(&plan.artifact, PlanSubmissionState::Ready, fold_case)
    } else {
        validate_artifact(&plan.artifact, PlanSubmissionState::NeedsInput, fold_case)
    };
    if let Err(e) = shape {
        return Err(e);
    }
    let ready: bool = is_legacy || no_questions;
    match plan.status {
        PlanStatus::NeedsInput => {
            if ready {
                return Err(owned("needs_input plan must contain blocking questions"));
            }
        },
        PlanStatus::Ready | PlanStatus::Executing | PlanStatus::Completed => {
            if !ready {
                let mut m = owned(plan.status.label());
                m.append(" plan cannot contain blocking questions");
                return Err(m);
            }
        },
        _ => {},
    }
    validate_persisted_progress(plan)
}

/// Checks a plan reconstructed from storage without silently repairing it.
/// Initial placeholders and plain Markdown are the only shapes that differ
/// from a submitted artifact.
pub fn validate_persisted_plan(plan: &PendingPlan, fold_case: bool) -> (r: Result<(), String>)
    ensures
        problem(r) == persisted_problem(plan@, fold_case),
{
    if let Err(e) = validate_identifier("plan id", plan.id.as_str()) {
        return Err(e);
    }
    if plan.revision == 0 {
        return Err(owned("plan revision must be positive"));
    }
    let body = if plan.initial_submission_pending {
        validate_awaiting(plan)
    } else {
        validate_submitted(plan, fold_case)
    };
    if let Err(e) = body {
        return Err(e);
    }
    if plan.evidence.len() > MAX_PLAN_EVIDENCE {
        return Err(owned("plan evidence exceeds its limit"));
    }
    if let Err(e) = validate_evidence_list(&plan.evidence) {
        return Err(e);
    }
    if let Err(e) = validate_string_list(
        "stale override paths",
        &plan.stale_override_paths,
        MAX_PLAN_EVIDENCE,
        4096,
    ) {
        return Err(e);
    }
    match &plan.pending_feedback {
        Some(feedback) => validate_text(
            "pending plan feedback",
            feedback.as_str(),
            1,
            MAX_PLAN_BYTES,
        ),
        None => Ok(()),
    }
}

proof fn lemma_no_problem(f: spec_fn(int) -> Option<Seq<char>>, i: int, n: int)
    ensures
        first_problem(f, i, n) is None <==> forall|k: int| i <= k < n ==> #[trigger] f(k) is None,
    decreases n - i,
{
    if i < n {
        lemma_no_problem(f, i + 1, n);
        if first_problem(f, i, n) is None {
            assert forall|k: int| i <= k < n implies #[trigger] f(k) is None by {
                if k > i {
                    assert(i + 1 <= k);
                }
            }
        } else if f(i) is None {
            let k = choose|k: int| i + 1 <= k < n && #[trigger] f(k) is Some;
            assert(f(k) is Some);
        }
    }
}

proof fn lemma_nothing_missing(steps: Seq<StepView>, progress: Seq<ProgressView>, n: int)
    requires
        0 <= n <= steps.len(),
    ensures
        first_missing(steps, progress, n) is None <==> forall|i: int|
            0 <= i < n ==> has_progress(progress, (#[trigger] steps[i]).id),
    decreases n,
{
    if n > 0 {
        lemma_nothing_missing(steps, progress, n - 1);
        if first_missing(steps, progress, n) is None {
            assert(has_progress(progress, steps[n - 1].id));
        }
    }
}

proof fn lemma_title_of_step(steps: Seq<StepView>, id: Seq<char>, n: int)
    requires
        0 <= n <= steps.len(),
        approved_title(steps, id, n) is Some,
    ensures
        exists|i: int| 0 <= i < n && (#[trigger] steps[i]).id == id,
    decreases n,
{
    if steps[n - 1].id != id {
        lemma_title_of_step(steps, id, n - 1);
    }
}

proof fn lemma_notes_bounded(progress: Seq<ProgressView>, updates: Seq<StepUpdateView>, n: int)
    requires
        0 <= n <= updates.len(),
        changed(progress, updates, n) is Ok,
        forall|i: int| 0 <= i < progress.len() ==> (#[trigger] progress[i]).note.len() <= 2000,
        forall|i: int| 0 <= i < updates.len() ==> (#[trigger] updates[i]).note.len() <= 2000,
    ensures
        forall|i: int|
            0 <= i < changed(progress, updates, n)->Ok_0.len() ==> (#[trigger] changed(
                progress,
                updates,
                n,
            )->Ok_0[i]).note.len() <= 2000,
    decreases n,
{
    if n > 0 {
        lemma_notes_bounded(progress, updates, n - 1);
        lemma_position_in_range(
            changed(progress, updates, n - 1)->Ok_0,
            updates[n - 1].id,
            0,
        );
    }
}

/// A report that was accepted, applied to a plan that may be stored, leaves a
/// plan that may be stored.
pub proof fn law_progress_keeps_plan_valid(p: PlanView, report: ProgressUpdateView, fold_case: bool)
    requires
        persisted_problem(p, fold_case) is None,
        report_problem(report) is None,
        progress_after(p, normal_report(report)) is Ok,
    ensures
        persisted_problem(
            PlanView { progress: progress_after(p, normal_report(report))->Ok_0, ..p },
            fold_case,
        ) is None,
{
    let u = normal_report(report);
    let q = PlanView { progress: progress_after(p, u)->Ok_0, ..p };
    let n = p.progress.len() as int;
    let steps = p.artifact.steps;
    law_progress_keeps_steps(p, u);
    lemma_valid_ids_stay_unique(p, u, fold_case);
    lemma_no_problem(progress_step_problems(p), 0, n);
    lemma_no_problem(update_problems(report.updates), 0, report.updates.len() as int);
    lemma_no_problem(appended_problems(report.append_steps), 0, report.append_steps.len() as int);
    lemma_nothing_missing(steps, p.progress, steps.len() as int);
    lemma_nothing_missing(steps, q.progress, steps.len() as int);
    assert forall|i: int| 0 <= i < p.progress.len() implies (#[trigger] p.progress[i]).note.len()
        <= 2000 by {
        assert(progress_step_problems(p)(i) is None);
    }
    assert forall|i: int| 0 <= i < u.updates.len() implies (#[trigger] u.updates[i]).note.len()
        <= 2000 by {
        assert(update_problems(report.updates)(i) is None);
    }
    lemma_notes_bounded(p.progress, u.updates, u.updates.len() as int);
    let c = changed(p.progress, u.updates, u.updates.len() as int)->Ok_0;
    lemma_extended_keeps(c, u.append_steps, u.append_steps.len() as int);
    assert forall|i: int| 0 <= i < q.progress.len() implies #[trigger] progress_step_problems(q)(i)
        is None by {
        let s = q.progress[i];
        if i < n {
            assert(progress_step_problems(p)(i) is None);
            assert(s == c[i]);
        } else {
            let k = i - n;
            assert(q.progress[n + k] == added_record(u.append_steps[k]));
            assert(appended_problems(report.append_steps)(k) is None);
            if approved_title(steps, s.id, steps.len() as int) is Some {
                lemma_title_of_step(steps, s.id, steps.len() as int);
                let m = choose|m: int| 0 <= m < steps.len() && (#[trigger] steps[m]).id == s.id;
                assert(has_progress(p.progress, steps[m].id));
                let j = choose|j: int|
                    0 <= j < p.progress.len() && (#[trigger] p.progress[j]).id == s.id;
                assert(q.progress[j].id == s.id);
            }
        }
    }
    lemma_no_problem(progress_step_problems(q), 0, q.progress.len() as int);
    assert forall|i: int| 0 <= i < steps.len() implies has_progress(
        q.progress,
        (#[trigger] steps[i]).id,
    ) by {
        assert(has_progress(p.progress, steps[i].id));
        let j = choose|j: int|
            0 <= j < p.progress.len() && (#[trigger] p.progress[j]).id == steps[i].id;
        assert(q.progress[j].id == steps[i].id);
    }
    assert(persisted_progress_problem(q) is None);
}

/// The ids of the steps of a plan that may be stored stay unique.
proof fn lemma_valid_ids_stay_unique(p: PlanView, u: ProgressUpdateView, fold_case: bool)
    requires
        persisted_problem(p, fold_case) is None,
        progress_after(p, u) is Ok,
    ensures
        ids_unique(progress_after(p, u)->Ok_0),
{
    let n = p.progress.len() as int;
    lemma_no_problem(progress_step_problems(p), 0, n);
    assert forall|i: int, j: int| 0 <= i < j < n implies (#[trigger] p.progress[i]).id != (
    #[trigger] p.progress[j]).id by {
        assert(progress_step_problems(p)(j) is None);
    }
    law_progress_keeps_ids_unique(p, u);
}

/// Charging failed checks to the steps of a plan that may be stored leaves a
/// plan that may be stored.
pub proof fn law_charging_keeps_plan_valid(
    p: PlanView,
    failures: Seq<FailureView>,
    revision: u32,
    n: int,
    fold_case: bool,
)
    requires
        persisted_problem(p, fold_case) is None,
    ensures
        persisted_problem(
            PlanView { progress: charged(p.progress, failures, revision, n).0, ..p },
            fold_case,
        ) is None,
{
    let q = PlanView { progress: charged(p.progress, failures, revision, n).0, ..p };
    let steps = p.artifact.steps;
    law_charging_only_blocks(p.progress, failures, revision, n);
    lemma_no_problem(progress_step_problems(p), 0, p.progress.len() as int);
    lemma_no_problem(progress_step_problems(q), 0, q.progress.len() as int);
    lemma_nothing_missing(steps, p.progress, steps.len() as int);
    lemma_nothing_missing(steps, q.progress, steps.len() as int);
    if !p.initial_submission_pending {
        assert forall|i: int| 0 <= i < q.progress.len() implies #[trigger] progress_step_problems(
            q,
        )(i) is None by {
            assert(progress_step_problems(p)(i) is None);
            assert(q.progress[i].id == p.progress[i].id);
        }
        assert forall|i: int| 0 <= i < steps.len() implies has_progress(
            q.progress,
            (#[trigger] steps[i]).id,
        ) by {
            assert(has_progress(p.progress, steps[i].id));
            let j = choose|j: int|
                0 <= j < p.progress.len() && (#[trigger] p.progress[j]).id == steps[i].id;
            assert(q.progress[j].id == steps[i].id);
        }
        assert(persisted_progress_problem(q) is None);
    }
}

proof fn lemma_title_of_unique_step(steps: Seq<StepView>, i: int, n: int)
    requires
        0 <= i < n <= steps.len(),
        forall|j: int, k: int|
            0 <= j < k < steps.len() ==> (#[trigger] steps[j]).id != (#[trigger] steps[k]).id,
    ensures
        approved_title(steps, steps[i].id, n) == Some(steps[i].title),
    decreases n,
{
    if i < n - 1 {
        assert(steps[i].id != steps[n - 1].id);
        lemma_title_of_unique_step(steps, i, n - 1);
    }
}

/// A new plan made of an accepted submission may be stored, where its id, its
/// revision and its evidence may: the submission leaves nothing to object to.
pub proof fn law_accepted_submission_may_be_stored(
    a: ArtifactView,
    state: PlanSubmissionState,
    p: PlanView,
    fold_case: bool,
)
    requires
        submission_problem(a, state, fold_case) is None,
        a.legacy_markdown is None,
        p.artifact == normal_artifact(a),
        p.progress == initial_progress(p.artifact.steps),
        p.status == (match state {
            PlanSubmissionState::Ready => PlanStatus::Ready,
            PlanSubmissionState::NeedsInput => PlanStatus::NeedsInput,
        }),
        !p.initial_submission_pending,
        p.pending_feedback is None,
        p.stale_override_paths.len() == 0,
        identifier_problem("plan id"@, p.id) is None,
        p.revision > 0,
        p.evidence.len() <= MAX_PLAN_EVIDENCE,
        first_problem(stored_evidence_problems(p.evidence), 0, p.evidence.len() as int) is None,
    ensures
        persisted_problem(p, fold_case) is None,
{
    let steps = p.artifact.steps;
    let n = steps.len() as int;
    lemma_no_problem(step_problems(p.artifact), 0, n);
    lemma_no_problem(progress_step_problems(p), 0, n);
    lemma_nothing_missing(steps, p.progress, n);
    assert forall|j: int, k: int| 0 <= j < k < n implies (#[trigger] steps[j]).id != (
    #[trigger] steps[k]).id by {
        assert(step_problems(p.artifact)(k) is None);
    }
    assert forall|i: int| 0 <= i < n implies #[trigger] progress_step_problems(p)(i) is None by {
        assert(step_problems(p.artifact)(i) is None);
        assert(p.progress[i] == fresh_progress(steps[i]));
        assert forall|j: int| 0 <= j < i implies (#[trigger] p.progress[j]).id
            != p.progress[i].id by {
            assert(steps[j].id != steps[i].id);
        }
        lemma_title_of_unique_step(steps, i, n);
    }
    assert forall|i: int| 0 <= i < n implies has_progress(
        p.progress,
        (#[trigger] steps[i]).id,
    ) by {
        assert(p.progress[i].id == steps[i].id);
    }
    assert(persisted_progress_problem(p) is None);
}

} // verus!
