//! Which artifacts and stored plans are accepted.

use crate::plan::encode::{encoded_len, encoded_size, is_bare};
use crate::plan::model::{
    ArtifactView, CheckView, MAX_INITIAL_PLACEHOLDER_GOAL_BYTES, MAX_PLAN_BYTES,
    MAX_PLAN_QUESTIONS, MAX_PLAN_STEPS, PlanArtifact, PlanCompletionCheckKind, PlanEvidenceKind,
    PlanQuestion, PlanStep, PlanSubmissionState, QuestionView, StepView, empty_artifact,
    plan_artifact_schema_version,
};
use crate::plan::rules::{
    about, completion_checks_problem, identifier_problem, string_list_problem, text_problem,
    validate_completion_checks, validate_identifier, validate_string_list, validate_text,
};
use crate::text::{
    clip, clipped, concat3, decimal, decimal_spec, first_problem, is_space, lemma_clipped_len,
    or_else, owned, problem, problem_if, same, trim, trimmed,
};
use vstd::prelude::*;
use vstd::string::*;

verus! {

/// What is wrong with the completion contract of a submitted artifact.
pub open spec fn submitted_contract_problem(
    a: ArtifactView,
    state: PlanSubmissionState,
    fold_case: bool,
) -> Option<Seq<char>> {
    match state {
        PlanSubmissionState::NeedsInput => problem_if(
            a.completion_checks.len() > 0,
            "needs_input cannot include completion_checks"@,
        ),
        PlanSubmissionState::Ready => or_else(
            problem_if(
                a.acceptance_criteria.len() == 0,
                "a ready plan must contain acceptance_criteria"@,
            ),
            or_else(
                problem_if(
                    a.completion_checks.len() == 0,
                    "a ready plan must bind its verification and acceptance criteria to completion_checks"@,
                ),
                or_else(
                    completion_checks_problem(a, true, fold_case),
                    problem_if(
                        exists|k: int|
                            0 <= k < a.completion_checks.len() && watches_tree(
                                #[trigger] a.completion_checks[k],
                            ),
                        "new approved_evidence_unchanged checks support only file or directory evidence"@,
                    ),
                ),
            ),
        ),
    }
}

/// The check asks for a whole directory tree to stay unchanged.
pub open spec fn watches_tree(c: CheckView) -> bool {
    c.kind is ApprovedEvidenceUnchanged && c.evidence_kind == Some(PlanEvidenceKind::DirectoryTree)
}

/// Checks the completion contract of a submitted artifact.
pub fn validate_submitted_completion_contract(
    artifact: &PlanArtifact,
    state: PlanSubmissionState,
    fold_case: bool,
) -> (r: Result<(), String>)
    ensures
        problem(r) == submitted_contract_problem(artifact@, state, fold_case),
{
    match state {
        PlanSubmissionState::NeedsInput => {
            if artifact.completion_checks.len() > 0 {
                return Err(owned("needs_input cannot include completion_checks"));
            }
        },
        PlanSubmissionState::Ready => {
            if artifact.acceptance_criteria.len() == 0 {
                return Err(owned("a ready plan must contain acceptance_criteria"));
            }
            if artifact.completion_checks.len() == 0 {
                return Err(
                    owned(
                        "a ready plan must bind its verification and acceptance criteria to completion_checks",
                    ),
                );
            }
            if let Err(e) = validate_completion_checks(artifact, true, fold_case) {
                return Err(e);
            }
            let mut k: usize = 0;
            while k < artifact.completion_checks.len()
                invariant
                    k <= artifact.completion_checks@.len(),
                    artifact.acceptance_criteria@.len() > 0,
                    artifact.completion_checks@.len() > 0,
                    state is Ready,
                    completion_checks_problem(artifact@, true, fold_case) is None,
                    forall|j: int|
                        0 <= j < k ==> !watches_tree(#[trigger] artifact@.completion_checks[j]),
                decreases artifact.completion_checks@.len() - k,
            {
                let check = &artifact.completion_checks[k];
                assert(artifact@.completion_checks[k as int] == check@);
                if let (
                    PlanCompletionCheckKind::ApprovedEvidenceUnchanged,
                    Some(PlanEvidenceKind::DirectoryTree),
                ) = (check.kind, check.evidence_kind) {
                    return Err(
                        owned(
                            "new approved_evidence_unchanged checks support only file or directory evidence",
                        ),
                    );
                }
                k = k + 1;
            }
        },
    }
    Ok(())
}

/// The artifact is written in a version that is not known.
pub open spec fn version_problem(a: ArtifactView) -> Option<Seq<char>> {
    problem_if(
        a.schema_version != 1,
        "unsupported plan artifact schema version "@ + decimal_spec(a.schema_version as nat),
    )
}

/// Checks the version that the artifact is written in.
pub fn validate_version(artifact: &PlanArtifact) -> (r: Result<(), String>)
    ensures
        problem(r) == version_problem(artifact@),
{
    if artifact.schema_version != plan_artifact_schema_version() {
        let mut m = owned("unsupported plan artifact schema version ");
        m.append(decimal(artifact.schema_version as u64).as_str());
        return Err(m);
    }
    Ok(())
}

/// What is wrong with the step at `i`, given the steps before it.
pub open spec fn step_problem(a: ArtifactView, i: int) -> Option<Seq<char>> {
    let s = a.steps[i];
    or_else(
        identifier_problem("step id"@, s.id),
        or_else(
            problem_if(
                exists|j: int| 0 <= j < i && (#[trigger] a.steps[j]).id == s.id,
                about("duplicate step id '"@, s.id, "'"@),
            ),
            or_else(
                text_problem("step title"@, s.title, 1, 240),
                or_else(
                    text_problem("step description"@, s.description, 0, 4000),
                    string_list_problem("affected_areas"@, s.affected_areas, 12, 512),
                ),
            ),
        ),
    )
}

/// The problem of the step at each position.
pub open spec fn step_problems(a: ArtifactView) -> spec_fn(int) -> Option<Seq<char>> {
    |i: int| step_problem(a, i)
}

fn validate_step(artifact: &PlanArtifact, i: usize) -> (r: Result<(), String>)
    requires
        i < artifact.steps@.len(),
    ensures
        problem(r) == step_problem(artifact@, i as int),
{
    let step = &artifact.steps[i];
    assert(artifact@.steps[i as int] == step@);
    if let Err(e) = validate_identifier("step id", step.id.as_str()) {
        return Err(e);
    }
    let mut j: usize = 0;
    while j < i
        invariant
            j <= i < artifact.steps@.len(),
            artifact@.steps[i as int] == step@,
            identifier_problem("step id"@, step@.id) is None,
            forall|k: int| 0 <= k < j ==> (#[trigger] artifact@.steps[k]).id != step@.id,
        decreases i - j,
    {
        assert(artifact@.steps[j as int].id == artifact.steps@[j as int].id@);
        if same(artifact.steps[j].id.as_str(), step.id.as_str()) {
            return Err(concat3("duplicate step id '", step.id.as_str(), "'"));
        }
        j = j + 1;
    }
    if let Err(e) = validate_text("step title", step.title.as_str(), 1, 240) {
        return Err(e);
    }
    if let Err(e) = validate_text("step description", step.description.as_str(), 0, 4000) {
        return Err(e);
    }
    validate_string_list("affected_areas", &step.affected_areas, 12, 512)
}

/// What is wrong with the option at `i` of a question, given those before it.
pub open spec fn option_problem(q: QuestionView, i: int) -> Option<Seq<char>> {
    let o = q.options[i];
    or_else(
        identifier_problem("option id"@, o.id),
        or_else(
            problem_if(
                exists|j: int| 0 <= j < i && (#[trigger] q.options[j]).id == o.id,
                about("duplicate option id '"@, o.id, "'"@),
            ),
            or_else(
                text_problem("option label"@, o.label, 1, 240),
                text_problem("option description"@, o.description, 0, 1000),
            ),
        ),
    )
}

/// The problem of the option at each position.
pub open spec fn option_problems(q: QuestionView) -> spec_fn(int) -> Option<Seq<char>> {
    |i: int| option_problem(q, i)
}

fn validate_option(question: &PlanQuestion, i: usize) -> (r: Result<(), String>)
    requires
        i < question.options@.len(),
    ensures
        problem(r) == option_problem(question@, i as int),
{
    let option = &question.options[i];
    assert(question@.options[i as int] == option@);
    if let Err(e) = validate_identifier("option id", option.id.as_str()) {
        return Err(e);
    }
    let mut j: usize = 0;
    while j < i
        invariant
            j <= i < question.options@.len(),
            question@.options[i as int] == option@,
            identifier_problem("option id"@, option@.id) is None,
            forall|k: int| 0 <= k < j ==> (#[trigger] question@.options[k]).id != option@.id,
        decreases i - j,
    {
        assert(question@.options[j as int].id == question.options@[j as int].id@);
        if same(question.options[j].id.as_str(), option.id.as_str()) {
            return Err(concat3("duplicate option id '", option.id.as_str(), "'"));
        }
        j = j + 1;
    }
    if let Err(e) = validate_text("option label", option.label.as_str(), 1, 240) {
        return Err(e);
    }
    validate_text("option description", option.description.as_str(), 0, 1000)
}

/// What is wrong with the question at `i`, given those before it.
pub open spec fn question_problem(a: ArtifactView, i: int) -> Option<Seq<char>> {
    let q = a.questions[i];
    or_else(
        identifier_problem("question id"@, q.id),
        or_else(
            problem_if(
                exists|j: int| 0 <= j < i && (#[trigger] a.questions[j]).id == q.id,
                about("duplicate question id '"@, q.id, "'"@),
            ),
            or_else(
                text_problem("question prompt"@, q.prompt, 1, 1000),
                or_else(
                    problem_if(
                        q.options.len() > 0 && !(2 <= q.options.len() <= 4),
                        "question options must contain 2 to 4 items when present"@,
                    ),
                    first_problem(option_problems(q), 0, q.options.len() as int),
                ),
            ),
        ),
    )
}

/// The problem of the question at each position.
pub open spec fn question_problems(a: ArtifactView) -> spec_fn(int) -> Option<Seq<char>> {
    |i: int| question_problem(a, i)
}

fn validate_options(question: &PlanQuestion) -> (r: Result<(), String>)
    ensures
        problem(r) == first_problem(
            option_problems(question@),
            0,
            question@.options.len() as int,
        ),
{
    let ghost f = option_problems(question@);
    let count: usize = question.options.len();
    let mut m: usize = 0;
    while m < count
        invariant
            m <= count == question.options@.len(),
            f == option_problems(question@),
            first_problem(f, m as int, count as int) == first_problem(f, 0, count as int),
        decreases count - m,
    {
        assert(f(m as int) == option_problem(question@, m as int));
        if let Err(e) = validate_option(question, m) {
            return Err(e);
        }
        m = m + 1;
    }
    Ok(())
}

fn validate_question(artifact: &PlanArtifact, i: usize) -> (r: Result<(), String>)
    requires
        i < artifact.questions@.len(),
    ensures
        problem(r) == question_problem(artifact@, i as int),
{
    let question = &artifact.questions[i];
    assert(artifact@.questions[i as int] == question@);
    if let Err(e) = validate_identifier("question id", question.id.as_str()) {
        return Err(e);
    }
    let mut j: usize = 0;
    while j < i
        invariant
            j <= i < artifact.questions@.len(),
            artifact@.questions[i as int] == question@,
            identifier_problem("question id"@, question@.id) is None,
            forall|k: int| 0 <= k < j ==> (#[trigger] artifact@.questions[k]).id != question@.id,
        decreases i - j,
    {
        assert(artifact@.questions[j as int].id == artifact.questions@[j as int].id@);
        if same(artifact.questions[j].id.as_str(), question.id.as_str()) {
            return Err(concat3("duplicate question id '", question.id.as_str(), "'"));
        }
        j = j + 1;
    }
    if let Err(e) = validate_text("question prompt", question.prompt.as_str(), 1, 1000) {
        return Err(e);
    }
    let count: usize = question.options.len();
    if count > 0 && !(2 <= count && count <= 4) {
        return Err(owned("question options must contain 2 to 4 items when present"));
    }
    validate_options(question)
}

/// `before + limit + after`: a message about a limit.
pub open spec fn limit_text(before: Seq<char>, limit: nat, after: Seq<char>) -> Seq<char> {
    before + decimal_spec(limit) + after
}

/// A message about a limit.
pub fn limit_message(before: &str, limit: usize, after: &str) -> (r: String)
    ensures
        r@ == limit_text(before@, limit as nat, after@),
{
    concat3(before, decimal(limit as u64).as_str(), after)
}

/// What is wrong with an artifact submitted in the given state.
pub open spec fn artifact_problem(
    a: ArtifactView,
    state: PlanSubmissionState,
    fold_case: bool,
) -> Option<Seq<char>> {
    or_else(
        version_problem(a),
        or_else(
            text_problem("title"@, a.title, 1, 160),
            or_else(
                text_problem("goal"@, a.goal, 1, 2000),
                or_else(
                    text_problem("summary"@, a.summary, 0, 4000),
                    or_else(
                        problem_if(
                            a.steps.len() > MAX_PLAN_STEPS,
                            limit_text(
                                "steps must contain at most "@,
                                MAX_PLAN_STEPS as nat,
                                " items"@,
                            ),
                        ),
                        or_else(
                            problem_if(
                                state is Ready && a.steps.len() == 0,
                                "a ready plan must contain at least one step"@,
                            ),
                            or_else(
                                first_problem(step_problems(a), 0, a.steps.len() as int),
                                or_else(lists_problem(a), artifact_rest_problem(
                                    a,
                                    state,
                                    fold_case,
                                )),
                            ),
                        ),
                    ),
                ),
            ),
        ),
    )
}

/// What is wrong with the lists of texts of an artifact.
pub open spec fn lists_problem(a: ArtifactView) -> Option<Seq<char>> {
    or_else(
        string_list_problem("assumptions"@, a.assumptions, 12, 1000),
        or_else(
            string_list_problem("risks"@, a.risks, 12, 1000),
            or_else(
                string_list_problem("verification"@, a.verification, 12, 1000),
                string_list_problem("acceptance_criteria"@, a.acceptance_criteria, 12, 1000),
            ),
        ),
    )
}

/// What is wrong with the checks, the questions and the size of an artifact.
pub open spec fn artifact_rest_problem(
    a: ArtifactView,
    state: PlanSubmissionState,
    fold_case: bool,
) -> Option<Seq<char>> {
    or_else(
        completion_checks_problem(a, a.completion_checks.len() > 0, fold_case),
        or_else(
            problem_if(
                a.questions.len() > MAX_PLAN_QUESTIONS,
                limit_text("questions must contain at most "@, MAX_PLAN_QUESTIONS as nat, " items"@),
            ),
            or_else(
                match state {
                    PlanSubmissionState::NeedsInput => problem_if(
                        a.questions.len() == 0,
                        "needs_input requires at least one blocking question"@,
                    ),
                    PlanSubmissionState::Ready => problem_if(
                        a.questions.len() > 0,
                        "a ready plan cannot contain blocking questions"@,
                    ),
                },
                or_else(
                    first_problem(question_problems(a), 0, a.questions.len() as int),
                    problem_if(
                        encoded_size(a) > MAX_PLAN_BYTES,
                        limit_text("plan exceeds the "@, MAX_PLAN_BYTES as nat, "-byte limit"@),
                    ),
                ),
            ),
        ),
    )
}

fn validate_questions(artifact: &PlanArtifact) -> (r: Result<(), String>)
    ensures
        problem(r) == first_problem(
            question_problems(artifact@),
            0,
            artifact@.questions.len() as int,
        ),
{
    let ghost f = question_problems(artifact@);
    let count: usize = artifact.questions.len();
    let mut i: usize = 0;
    while i < count
        invariant
            i <= count == artifact.questions@.len(),
            f == question_problems(artifact@),
            first_problem(f, i as int, count as int) == first_problem(f, 0, count as int),
        decreases count - i,
    {
        assert(f(i as int) == question_problem(artifact@, i as int));
        if let Err(e) = validate_question(artifact, i) {
            return Err(e);
        }
        i = i + 1;
    }
    Ok(())
}

fn validate_steps(artifact: &PlanArtifact) -> (r: Result<(), String>)
    ensures
        problem(r) == first_problem(step_problems(artifact@), 0, artifact@.steps.len() as int),
{
    let ghost f = step_problems(artifact@);
    let count: usize = artifact.steps.len();
    let mut i: usize = 0;
    while i < count
        invariant
            i <= count == artifact.steps@.len(),
            f == step_problems(artifact@),
            first_problem(f, i as int, count as int) == first_problem(f, 0, count as int),
        decreases count - i,
    {
        assert(f(i as int) == step_problem(artifact@, i as int));
        if let Err(e) = validate_step(artifact, i) {
            return Err(e);
        }
        i = i + 1;
    }
    Ok(())
}

fn validate_lists(artifact: &PlanArtifact) -> (r: Result<(), String>)
    ensures
        problem(r) == lists_problem(artifact@),
{
    if let Err(e) = validate_string_list("assumptions", &artifact.assumptions, 12, 1000) {
        return Err(e);
    }
    if let Err(e) = validate_string_list("risks", &artifact.risks, 12, 1000) {
        return Err(e);
    }
    if let Err(e) = validate_string_list("verification", &artifact.verification, 12, 1000) {
        return Err(e);
    }
    validate_string_list("acceptance_criteria", &artifact.acceptance_criteria, 12, 1000)
}

fn validate_rest(
    artifact: &PlanArtifact,
    state: PlanSubmissionState,
    fold_case: bool,
) -> (r: Result<(), String>)
    ensures
        problem(r) == artifact_rest_problem(artifact@, state, fold_case),
{
    if let Err(e) = validate_completion_checks(
        artifact,
        artifact.completion_checks.len() > 0,
        fold_case,
    ) {
        return Err(e);
    }
    let count: usize = artifact.questions.len();
    if count > MAX_PLAN_QUESTIONS {
        return Err(limit_message("questions must contain at most ", MAX_PLAN_QUESTIONS, " items"));
    }
    match state {
        PlanSubmissionState::NeedsInput => {
            if count == 0 {
                return Err(owned("needs_input requires at least one blocking question"));
            }
        },
        PlanSubmissionState::Ready => {
            if count > 0 {
                return Err(owned("a ready plan cannot contain blocking questions"));
            }
        },
    }
    if let Err(e) = validate_questions(artifact) {
        return Err(e);
    }
    if encoded_len(artifact) > MAX_PLAN_BYTES {
        return Err(limit_message("plan exceeds the ", MAX_PLAN_BYTES, "-byte limit"));
    }
    Ok(())
}

/// Checks an artifact submitted in the given state.
pub fn validate_artifact(
    artifact: &PlanArtifact,
    state: PlanSubmissionState,
    fold_case: bool,
) -> (r: Result<(), String>)
    ensures
        problem(r) == artifact_problem(artifact@, state, fold_case),
{
    if let Err(e) = validate_version(artifact) {
        return Err(e);
    }
    if let Err(e) = validate_text("title", artifact.title.as_str(), 1, 160) {
        return Err(e);
    }
    if let Err(e) = validate_text("goal", artifact.goal.as_str(), 1, 2000) {
        return Err(e);
    }
    if let Err(e) = validate_text("summary", artifact.summary.as_str(), 0, 4000) {
        return Err(e);
    }
    let count: usize = artifact.steps.len();
    if count > MAX_PLAN_STEPS {
        return Err(limit_message("steps must contain at most ", MAX_PLAN_STEPS, " items"));
    }
    if let PlanSubmissionState::Ready = state {
        if count == 0 {
            return Err(owned("a ready plan must contain at least one step"));
        }
    }
    if let Err(e) = validate_steps(artifact) {
        return Err(e);
    }
    if let Err(e) = validate_lists(artifact) {
        return Err(e);
    }
    validate_rest(artifact, state, fold_case)
}

// ---------------------------------------------------------------------------
// Placeholders
// ---------------------------------------------------------------------------

/// What stands as the goal of a plan that was asked for by an image alone.
pub open spec fn image_goal() -> Seq<char> {
    "Prepare a plan using the attached image input."@
}

/// What is wrong with the artifact of a plan whose first submission is still
/// to come.
pub open spec fn placeholder_problem(a: ArtifactView) -> Option<Seq<char>> {
    or_else(
        version_problem(a),
        or_else(
            text_problem("placeholder title"@, a.title, 1, 160),
            or_else(
                text_problem("placeholder goal"@, a.goal, 1, MAX_PLAN_BYTES as nat),
                or_else(
                    problem_if(
                        a.summary.len() > 0 || a.steps.len() > 0 || a.assumptions.len() > 0
                            || a.risks.len() > 0 || a.verification.len() > 0
                            || a.acceptance_criteria.len() > 0 || a.completion_checks.len() > 0
                            || a.questions.len() > 0 || a.legacy_markdown is Some,
                        "initial plan placeholder contains submitted plan data"@,
                    ),
                    problem_if(
                        encoded_size(a) > MAX_PLAN_BYTES,
                        limit_text(
                            "initial plan placeholder exceeds the "@,
                            MAX_PLAN_BYTES as nat,
                            "-byte limit"@,
                        ),
                    ),
                ),
            ),
        ),
    )
}

/// Checks the artifact of a plan whose first submission is still to come.
pub fn validate_initial_placeholder(artifact: &PlanArtifact) -> (r: Result<(), String>)
    ensures
        problem(r) == placeholder_problem(artifact@),
        is_bare(artifact@) && artifact@.schema_version == 1 && 1 <= artifact@.title.len() <= 160
            && 1 <= artifact@.goal.len() <= MAX_INITIAL_PLACEHOLDER_GOAL_BYTES ==> r is Ok,
{
    if let Err(e) = validate_version(artifact) {
        return Err(e);
    }
    if let Err(e) = validate_text("placeholder title", artifact.title.as_str(), 1, 160) {
        return Err(e);
    }
    if let Err(e) = validate_text("placeholder goal", artifact.goal.as_str(), 1, MAX_PLAN_BYTES) {
        return Err(e);
    }
    if !artifact.summary.as_str().is_empty() || artifact.steps.len() > 0
        || artifact.assumptions.len() > 0 || artifact.risks.len() > 0
        || artifact.verification.len() > 0 || artifact.acceptance_criteria.len() > 0
        || artifact.completion_checks.len() > 0 || artifact.questions.len() > 0
        || artifact.legacy_markdown.is_some() {
        return Err(owned("initial plan placeholder contains submitted plan data"));
    }
    if encoded_len(artifact) > MAX_PLAN_BYTES {
        return Err(
            limit_message("initial plan placeholder exceeds the ", MAX_PLAN_BYTES, "-byte limit"),
        );
    }
    Ok(())
}

/// The artifact that stands for a plan until its first submission.
pub open spec fn placeholder_view(request_text: Seq<char>) -> ArtifactView {
    ArtifactView {
        title: "Planning"@,
        goal: clipped(
            if trimmed(request_text).len() == 0 {
                image_goal()
            } else {
                trimmed(request_text)
            },
            MAX_INITIAL_PLACEHOLDER_GOAL_BYTES as nat,
        ),
        ..empty_artifact()
    }
}

/// Builds the artifact that is stored before the planning run starts. The full
/// user message remains in the session; the goal is only a bounded preview.
pub fn initial_placeholder_artifact(request_text: &str, has_images: bool) -> (r: Result<
    PlanArtifact,
    String,
>)
    ensures
        match r {
            Ok(a) => a@ == placeholder_view(request_text@) && placeholder_problem(a@) is None && (
            trimmed(request_text@).len() > 0 || has_images),
            Err(e) => trimmed(request_text@).len() == 0 && !has_images && e@
                == "a plan request must include text or an image"@,
        },
{
    let mut goal = trim(request_text);
    if goal.as_str().is_empty() {
        if !has_images {
            return Err(owned("a plan request must include text or an image"));
        }
        goal = owned("Prepare a plan using the attached image input.");
    }
    let goal = clip(goal.as_str(), MAX_INITIAL_PLACEHOLDER_GOAL_BYTES);
    let artifact = PlanArtifact {
        schema_version: plan_artifact_schema_version(),
        title: owned("Planning"),
        goal,
        summary: String::new(),
        steps: Vec::new(),
        assumptions: Vec::new(),
        risks: Vec::new(),
        verification: Vec::new(),
        acceptance_criteria: Vec::new(),
        completion_checks: Vec::new(),
        questions: Vec::new(),
        legacy_markdown: None,
    };
    assert(artifact@ =~= placeholder_view(request_text@));
    proof {
        reveal_strlit("Planning");
        reveal_strlit("Prepare a plan using the attached image input.");
        let whole = if trimmed(request_text@).len() == 0 {
            image_goal()
        } else {
            trimmed(request_text@)
        };
        lemma_clipped_len(whole, MAX_INITIAL_PLACEHOLDER_GOAL_BYTES as nat);
    }
    match validate_initial_placeholder(&artifact) {
        Ok(_) => Ok(artifact),
        Err(e) => Err(e),
    }
}

// ---------------------------------------------------------------------------
// Legacy plans
// ---------------------------------------------------------------------------

/// What is wrong with the shape of an artifact made from plain Markdown.
pub open spec fn legacy_shape_problem(a: ArtifactView) -> Option<Seq<char>> {
    or_else(
        version_problem(a),
        match a.legacy_markdown {
            None => Some("legacy plan is missing Markdown"@),
            Some(markdown) => or_else(
                text_problem("legacy title"@, a.title, 1, 160),
                or_else(
                    text_problem("legacy goal"@, a.goal, 1, 2000),
                    or_else(
                        problem_if(
                            a.summary.len() > 0 || a.assumptions.len() > 0 || a.risks.len() > 0
                                || a.verification.len() > 0 || a.acceptance_criteria.len() > 0
                                || a.completion_checks.len() > 0 || a.questions.len() > 0
                                || a.steps.len() != 1,
                            "legacy plan artifact has an invalid shape"@,
                        ),
                        problem_if(
                            a.steps[0].id != "legacy-plan"@ || trimmed(a.steps[0].title).len() == 0
                                || a.steps[0].affected_areas.len() > 0 || a.steps[0].description
                                != markdown,
                            "legacy plan step does not match its Markdown"@,
                        ),
                    ),
                ),
            ),
        },
    )
}

/// Checks the shape of an artifact made from plain Markdown.
pub fn validate_legacy_artifact_shape(artifact: &PlanArtifact) -> (r: Result<(), String>)
    ensures
        problem(r) == legacy_shape_problem(artifact@),
{
    if let Err(e) = validate_version(artifact) {
        return Err(e);
    }
    let markdown = match &artifact.legacy_markdown {
        Some(m) => m,
        None => {
            return Err(owned("legacy plan is missing Markdown"));
        },
    };
    if let Err(e) = validate_text("legacy title", artifact.title.as_str(), 1, 160) {
        return Err(e);
    }
    if let Err(e) = validate_text("legacy goal", artifact.goal.as_str(), 1, 2000) {
        return Err(e);
    }
    if !artifact.summary.as_str().is_empty() || artifact.assumptions.len() > 0
        || artifact.risks.len() > 0 || artifact.verification.len() > 0
        || artifact.acceptance_criteria.len() > 0 || artifact.completion_checks.len() > 0
        || artifact.questions.len() > 0 || artifact.steps.len() != 1 {
        return Err(owned("legacy plan artifact has an invalid shape"));
    }
    let step = &artifact.steps[0];
    assert(artifact@.steps[0] == step@);
    if !same(step.id.as_str(), "legacy-plan") || trim(step.title.as_str()).as_str().is_empty()
        || step.affected_areas.len() > 0 || !same(step.description.as_str(), markdown.as_str()) {
        return Err(owned("legacy plan step does not match its Markdown"));
    }
    Ok(())
}

/// What is wrong with a newly made artifact of plain Markdown.
pub open spec fn legacy_problem(a: ArtifactView) -> Option<Seq<char>> {
    or_else(
        legacy_shape_problem(a),
        problem_if(
            encoded_size(a) > MAX_PLAN_BYTES,
            limit_text("legacy plan exceeds the "@, MAX_PLAN_BYTES as nat, "-byte limit"@),
        ),
    )
}

/// Checks a newly made artifact of plain Markdown. The size limit applies to
/// new plans, not to those imported from the former unbounded format.
pub fn validate_legacy_artifact(artifact: &PlanArtifact) -> (r: Result<(), String>)
    ensures
        problem(r) == legacy_problem(artifact@),
{
    if let Err(e) = validate_legacy_artifact_shape(artifact) {
        return Err(e);
    }
    if encoded_len(artifact) > MAX_PLAN_BYTES {
        return Err(limit_message("legacy plan exceeds the ", MAX_PLAN_BYTES, "-byte limit"));
    }
    Ok(())
}

/// Checks a stored artifact of plain Markdown, whatever its size.
pub fn validate_persisted_legacy_artifact(artifact: &PlanArtifact) -> (r: Result<(), String>)
    ensures
        problem(r) == legacy_shape_problem(artifact@),
{
    validate_legacy_artifact_shape(artifact)
}

/// The artifact that wraps plain Markdown.
pub open spec fn legacy_view(markdown: Seq<char>) -> ArtifactView {
    ArtifactView {
        title: "Proposed plan"@,
        goal: "Execute the approved plan described below."@,
        steps: seq![
            StepView {
                id: "legacy-plan"@,
                title: "Execute the approved plan"@,
                description: trimmed(markdown),
                affected_areas: Seq::empty(),
            },
        ],
        legacy_markdown: Some(trimmed(markdown)),
        ..empty_artifact()
    }
}

/// Wraps plain Markdown as an artifact.
pub fn legacy_artifact(markdown: &str) -> (r: PlanArtifact)
    ensures
        r@ == legacy_view(markdown@),
{
    let body = trim(markdown);
    let mut steps: Vec<PlanStep> = Vec::new();
    steps.push(
        PlanStep {
            id: owned("legacy-plan"),
            title: owned("Execute the approved plan"),
            description: body.clone(),
            affected_areas: Vec::new(),
        },
    );
    let r = PlanArtifact {
        schema_version: 1,
        title: owned("Proposed plan"),
        goal: owned("Execute the approved plan described below."),
        summary: String::new(),
        steps,
        assumptions: Vec::new(),
        risks: Vec::new(),
        verification: Vec::new(),
        acceptance_criteria: Vec::new(),
        completion_checks: Vec::new(),
        questions: Vec::new(),
        legacy_markdown: Some(body),
    };
    assert(r@.steps[0] =~= legacy_view(markdown@).steps[0]);
    assert(r@ =~= legacy_view(markdown@));
    r
}

/// Every wrapped Markdown text has the shape of a legacy plan.
pub proof fn law_legacy_artifact_has_legacy_shape(markdown: Seq<char>)
    ensures
        legacy_shape_problem(legacy_view(markdown)) is None,
{
    reveal_strlit("Proposed plan");
    reveal_strlit("Execute the approved plan described below.");
    reveal_strlit("Execute the approved plan");
    let t = "Execute the approved plan"@;
    assert(!is_space(t[0]));
    assert(!is_space(t.last()));
    assert(trimmed(t) == t);
}

} // verus!
