//! Submissions and reports as they arrive from a model.

use crate::json::{
    Json, JsonView, Obj, entry, json_outcome, json_parsed, lemma_object_view, parse, take_entry,
    without_entry,
};
use crate::plan::accept::{
    artifact_problem, limit_message, limit_text, submitted_contract_problem, validate_artifact,
    validate_submitted_completion_contract,
};
use crate::plan::model::{
    ArtifactView, MAX_PLAN_BYTES, MAX_PLAN_COMPLETION_CHECKS, MAX_PLAN_STEPS, PlanProgressUpdate,
    PlanSubmission, PlanSubmissionState,
};
use crate::plan::normalize::{
    law_normalize_artifact_idempotent, normal_artifact, normalize_artifact,
};
use crate::plan::progress::{normal_report, report_problem, validate_progress_update};
use crate::text::{byte_count, byte_len, or_else, owned};
use vstd::prelude::*;
use vstd::string::*;

verus! {

/// What is wrong with a submission once its artifact is in normal form.
pub open spec fn submission_problem(
    a: ArtifactView,
    state: PlanSubmissionState,
    fold_case: bool,
) -> Option<Seq<char>> {
    or_else(
        artifact_problem(normal_artifact(a), state, fold_case),
        submitted_contract_problem(normal_artifact(a), state, fold_case),
    )
}

/// The state and the rest of a submission, or why its text holds none, given
/// what the text was read as.
pub open spec fn submission_parts(args: Seq<char>, parsed: Result<JsonView, Seq<char>>) -> Result<
    (JsonView, JsonView),
    Seq<char>,
> {
    if byte_len(args) > MAX_PLAN_BYTES {
        Err(limit_text("plan exceeds the "@, MAX_PLAN_BYTES as nat, "-byte limit"@))
    } else {
        match parsed {
            Err(e) => Err("invalid plan JSON: "@ + e),
            Ok(JsonView::Object(e)) => match entry(e, "state"@) {
                Some(state) => Ok((state, JsonView::Object(without_entry(e, "state"@)))),
                None => Err("plan state is required"@),
            },
            Ok(_) => Err("plan must be a JSON object"@),
        }
    }
}

/// A result with its parts seen through their views.
pub open spec fn parts_outcome(r: Result<(Json, Json), String>) -> Result<
    (JsonView, JsonView),
    Seq<char>,
> {
    match r {
        Ok((a, b)) => Ok((a@, b@)),
        Err(e) => Err(e@),
    }
}

/// The state and the rest of a submission, given what its text was read as.
pub fn split_submission(args: &str, parsed: Result<Json, String>) -> (r: Result<
    (Json, Json),
    String,
>)
    ensures
        parts_outcome(r) == submission_parts(args@, json_outcome(parsed)),
{
    if byte_count(args) > MAX_PLAN_BYTES {
        return Err(limit_message("plan exceeds the ", MAX_PLAN_BYTES, "-byte limit"));
    }
    match parsed {
        Err(e) => {
            let mut text = owned("invalid plan JSON: ");
            text.append(e.as_str());
            Err(text)
        },
        Ok(Json::Object(entries)) => {
            proof {
                lemma_object_view(entries);
            }
            let (state, rest) = take_entry(entries, "state");
            match state {
                Some(s) => {
                    let o = Obj { entries: rest };
                    Ok((s, o.done()))
                },
                None => Err(owned("plan state is required")),
            }
        },
        Ok(_) => Err(owned("plan must be a JSON object")),
    }
}

/// Reads the text of a submission as its state and the rest.
pub fn read_submission(args: &str) -> (r: Result<(Json, Json), String>)
    ensures
        parts_outcome(r) == submission_parts(args@, json_parsed(args@)),
{
    split_submission(args, parse(args))
}

/// Accepts a submission. `args` is the text that it came in and `parsed` what
/// its state and the rest of it stand for, or why they stand for nothing.
pub fn validate_submission_json(
    args: &str,
    parsed: Result<PlanSubmission,
    String>,
    fold_case: bool,
) -> (r: Result<PlanSubmission, String>)
    ensures
        match r {
            Ok(s) => {
                &&& byte_len(args@) <= MAX_PLAN_BYTES
                &&& parsed matches Ok(given)
                &&& s.state == given.state
                &&& s.artifact@ == normal_artifact(given.artifact@)
                &&& submission_problem(given.artifact@, given.state, fold_case) is None
            },
            Err(e) => if byte_len(args@) > MAX_PLAN_BYTES {
                e@ == limit_text("plan exceeds the "@, MAX_PLAN_BYTES as nat, "-byte limit"@)
            } else {
                match parsed {
                    Err(reason) => e@ == reason@,
                    Ok(given) => submission_problem(
                        given.artifact@,
                        given.state,
                        fold_case,
                    ) == Some(e@),
                }
            },
        },
{
    if byte_count(args) > MAX_PLAN_BYTES {
        return Err(limit_message("plan exceeds the ", MAX_PLAN_BYTES, "-byte limit"));
    }
    let mut submission = match parsed {
        Ok(s) => s,
        Err(e) => {
            return Err(e);
        },
    };
    normalize_artifact(&mut submission.artifact);
    if let Err(e) = validate_artifact(&submission.artifact, submission.state, fold_case) {
        return Err(e);
    }
    if let Err(e) = validate_submitted_completion_contract(
        &submission.artifact,
        submission.state,
        fold_case,
    ) {
        return Err(e);
    }
    Ok(submission)
}

/// Accepts a report. `args` is the text that it came in and `parsed` what the
/// text was read as, or why it could not be read.
pub fn validate_progress_json(args: &str, parsed: Result<PlanProgressUpdate, String>) -> (r: Result<
    PlanProgressUpdate,
    String,
>)
    ensures
        match r {
            Ok(u) => {
                &&& byte_len(args@) <= MAX_PLAN_BYTES
                &&& parsed matches Ok(given)
                &&& u@ == normal_report(given@)
                &&& report_problem(given@) is None
            },
            Err(e) => if byte_len(args@) > MAX_PLAN_BYTES {
                e@ == limit_text(
                    "plan update exceeds the "@,
                    MAX_PLAN_BYTES as nat,
                    "-byte limit"@,
                )
            } else {
                match parsed {
                    Err(reason) => e@ == reason@,
                    Ok(given) => report_problem(given@) == Some(e@),
                }
            },
        },
{
    if byte_count(args) > MAX_PLAN_BYTES {
        return Err(limit_message("plan update exceeds the ", MAX_PLAN_BYTES, "-byte limit"));
    }
    match parsed {
        Ok(u) => validate_progress_update(u),
        Err(e) => Err(e),
    }
}

/// Every artifact that is accepted as ready is in normal form, holds at least
/// one step, no open question, and a checked contract.
pub proof fn law_ready_submission(a: ArtifactView, fold_case: bool)
    requires
        submission_problem(a, PlanSubmissionState::Ready, fold_case) is None,
    ensures
        ({
            let n = normal_artifact(a);
            &&& normal_artifact(n) == n
            &&& 1 <= n.steps.len() <= MAX_PLAN_STEPS
            &&& n.questions.len() == 0
            &&& n.acceptance_criteria.len() > 0
            &&& 1 <= n.completion_checks.len() <= MAX_PLAN_COMPLETION_CHECKS
            &&& crate::plan::rules::completion_checks_problem(n, true, fold_case) is None
        }),
{
    law_normalize_artifact_idempotent(a);
}

} // verus!
