//! Bringing a submitted artifact into its normal form.

use crate::plan::model::{
    ArtifactView, CheckView, OptionView, PlanArtifact, PlanCompletionCheck, PlanQuestion,
    PlanQuestionOption, PlanStep, QuestionView, StepView, checks_view, questions_view,
    steps_view,
};
use crate::text::{
    ascii_lower, ascii_lower_char, is_space, lemma_ascii_lower_idempotent, lemma_trimmed_edges,
    lemma_trimmed_idempotent, opt_text, texts, to_ascii_lower, trim, trimmed,
};
use vstd::prelude::*;
use vstd::string::*;

verus! {

/// The texts of `v` without white space around them, without the empty ones.
pub open spec fn kept_texts(v: Seq<Seq<char>>) -> Seq<Seq<char>>
    decreases v.len(),
{
    if v.len() == 0 {
        Seq::empty()
    } else {
        let rest = kept_texts(v.drop_last());
        if trimmed(v.last()).len() == 0 {
            rest
        } else {
            rest.push(trimmed(v.last()))
        }
    }
}

/// Trims every string and drops those that turn out empty.
pub fn normalize_strings(values: &mut Vec<String>)
    ensures
        texts(final(values)@) == kept_texts(texts(old(values)@)),
{
    let ghost all = texts(values@);
    let mut out: Vec<String> = Vec::new();
    let mut i: usize = 0;
    assert(texts(out@) =~= kept_texts(all.take(0)));
    while i < values.len()
        invariant
            i <= values@.len(),
            all == texts(values@),
            texts(out@) == kept_texts(all.take(i as int)),
        decreases values@.len() - i,
    {
        let t = trim(values[i].as_str());
        assert(all.take(i + 1).drop_last() =~= all.take(i as int));
        assert(all.take(i + 1).last() == values@[i as int]@);
        let ghost so_far = texts(out@);
        if !t.as_str().is_empty() {
            out.push(t);
            assert(texts(out@) =~= so_far.push(trimmed(values@[i as int]@)));
        }
        i = i + 1;
    }
    assert(all.take(i as int) =~= all);
    *values = out;
}

/// A step in normal form.
pub open spec fn normal_step(s: StepView) -> StepView {
    StepView {
        id: trimmed(s.id),
        title: trimmed(s.title),
        description: trimmed(s.description),
        affected_areas: kept_texts(s.affected_areas),
    }
}

fn normalize_step(step: &mut PlanStep)
    ensures
        final(step)@ == normal_step(old(step)@),
{
    step.id = trim(step.id.as_str());
    step.title = trim(step.title.as_str());
    step.description = trim(step.description.as_str());
    normalize_strings(&mut step.affected_areas);
}

/// An optional text without white space around it.
pub open spec fn opt_trimmed(t: Option<Seq<char>>) -> Option<Seq<char>> {
    match t {
        Some(s) => Some(trimmed(s)),
        None => None,
    }
}

/// A completion check in normal form.
pub open spec fn normal_check(c: CheckView) -> CheckView {
    CheckView {
        id: trimmed(c.id),
        step_id: trimmed(c.step_id),
        path: opt_trimmed(c.path),
        sha256: match c.sha256 {
            Some(h) => Some(ascii_lower(trimmed(h))),
            None => None,
        },
        tool_name: opt_trimmed(c.tool_name),
        required_step_ids: kept_texts(c.required_step_ids),
        ..c
    }
}

fn trim_opt(t: &Option<String>) -> (r: Option<String>)
    ensures
        opt_text(r) == opt_trimmed(opt_text(*t)),
{
    match t {
        Some(s) => Some(trim(s.as_str())),
        None => None,
    }
}

fn normalize_check(check: &mut PlanCompletionCheck)
    ensures
        final(check)@ == normal_check(old(check)@),
{
    check.id = trim(check.id.as_str());
    check.step_id = trim(check.step_id.as_str());
    check.path = trim_opt(&check.path);
    check.sha256 = match &check.sha256 {
        Some(h) => Some(to_ascii_lower(trim(h.as_str()).as_str())),
        None => None,
    };
    check.tool_name = trim_opt(&check.tool_name);
    normalize_strings(&mut check.required_step_ids);
}

/// An offered answer in normal form.
pub open spec fn normal_option(o: OptionView) -> OptionView {
    OptionView { id: trimmed(o.id), label: trimmed(o.label), description: trimmed(o.description) }
}

/// A question in normal form.
pub open spec fn normal_question(q: QuestionView) -> QuestionView {
    QuestionView {
        id: trimmed(q.id),
        prompt: trimmed(q.prompt),
        options: q.options.map_values(|o: OptionView| normal_option(o)),
    }
}

fn normalize_option(option: &mut PlanQuestionOption)
    ensures
        final(option)@ == normal_option(old(option)@),
{
    option.id = trim(option.id.as_str());
    option.label = trim(option.label.as_str());
    option.description = trim(option.description.as_str());
}

fn normalize_question(question: &mut PlanQuestion)
    ensures
        final(question)@ == normal_question(old(question)@),
{
    let ghost start = question@;
    question.id = trim(question.id.as_str());
    question.prompt = trim(question.prompt.as_str());
    let mut i: usize = 0;
    while i < question.options.len()
        invariant
            i <= question.options@.len() == start.options.len(),
            question.id@ == trimmed(start.id),
            question.prompt@ == trimmed(start.prompt),
            forall|j: int|
                0 <= j < i ==> (#[trigger] question.options@[j])@ == normal_option(
                    start.options[j],
                ),
            forall|j: int|
                i <= j < question.options@.len() ==> (#[trigger] question.options@[j])@
                    == start.options[j],
        decreases question.options@.len() - i,
    {
        normalize_option(&mut question.options[i]);
        i = i + 1;
    }
    assert(question@ =~= normal_question(start));
}

/// An artifact in normal form: every text without white space around it, and
/// lists without empty texts.
pub open spec fn normal_artifact(a: ArtifactView) -> ArtifactView {
    ArtifactView {
        title: trimmed(a.title),
        goal: trimmed(a.goal),
        summary: trimmed(a.summary),
        steps: a.steps.map_values(|s: StepView| normal_step(s)),
        assumptions: kept_texts(a.assumptions),
        risks: kept_texts(a.risks),
        verification: kept_texts(a.verification),
        acceptance_criteria: kept_texts(a.acceptance_criteria),
        completion_checks: a.completion_checks.map_values(|c: CheckView| normal_check(c)),
        questions: a.questions.map_values(|q: QuestionView| normal_question(q)),
        ..a
    }
}

fn normalize_steps(steps: &mut Vec<PlanStep>)
    ensures
        steps_view(final(steps)@) == steps_view(old(steps)@).map_values(
            |s: StepView| normal_step(s),
        ),
{
    let ghost start = steps_view(steps@);
    let mut i: usize = 0;
    while i < steps.len()
        invariant
            i <= steps@.len() == start.len(),
            forall|j: int| 0 <= j < i ==> (#[trigger] steps@[j])@ == normal_step(start[j]),
            forall|j: int| i <= j < steps@.len() ==> (#[trigger] steps@[j])@ == start[j],
        decreases steps@.len() - i,
    {
        normalize_step(&mut steps[i]);
        i = i + 1;
    }
    assert(steps_view(steps@) =~= start.map_values(|s: StepView| normal_step(s)));
}

fn normalize_checks(checks: &mut Vec<PlanCompletionCheck>)
    ensures
        checks_view(final(checks)@) == checks_view(old(checks)@).map_values(
            |c: CheckView| normal_check(c),
        ),
{
    let ghost start = checks_view(checks@);
    let mut i: usize = 0;
    while i < checks.len()
        invariant
            i <= checks@.len() == start.len(),
            forall|j: int| 0 <= j < i ==> (#[trigger] checks@[j])@ == normal_check(start[j]),
            forall|j: int| i <= j < checks@.len() ==> (#[trigger] checks@[j])@ == start[j],
        decreases checks@.len() - i,
    {
        normalize_check(&mut checks[i]);
        i = i + 1;
    }
    assert(checks_view(checks@) =~= start.map_values(|c: CheckView| normal_check(c)));
}

fn normalize_questions(questions: &mut Vec<PlanQuestion>)
    ensures
        questions_view(final(questions)@) == questions_view(old(questions)@).map_values(
            |q: QuestionView| normal_question(q),
        ),
{
    let ghost start = questions_view(questions@);
    let mut i: usize = 0;
    while i < questions.len()
        invariant
            i <= questions@.len() == start.len(),
            forall|j: int|
                0 <= j < i ==> (#[trigger] questions@[j])@ == normal_question(start[j]),
            forall|j: int| i <= j < questions@.len() ==> (#[trigger] questions@[j])@ == start[j],
        decreases questions@.len() - i,
    {
        normalize_question(&mut questions[i]);
        i = i + 1;
    }
    assert(questions_view(questions@) =~= start.map_values(|q: QuestionView| normal_question(q)));
}

/// Brings an artifact into its normal form.
pub fn normalize_artifact(artifact: &mut PlanArtifact)
    ensures
        final(artifact)@ == normal_artifact(old(artifact)@),
{
    artifact.title = trim(artifact.title.as_str());
    artifact.goal = trim(artifact.goal.as_str());
    artifact.summary = trim(artifact.summary.as_str());
    normalize_steps(&mut artifact.steps);
    normalize_strings(&mut artifact.assumptions);
    normalize_strings(&mut artifact.risks);
    normalize_strings(&mut artifact.verification);
    normalize_strings(&mut artifact.acceptance_criteria);
    normalize_checks(&mut artifact.completion_checks);
    normalize_questions(&mut artifact.questions);
}

proof fn lemma_kept_texts(v: Seq<Seq<char>>)
    ensures
        forall|i: int|
            0 <= i < kept_texts(v).len() ==> (#[trigger] kept_texts(v)[i]).len() > 0 && trimmed(
                kept_texts(v)[i],
            ) == kept_texts(v)[i],
        kept_texts(v).len() <= v.len(),
    decreases v.len(),
{
    if v.len() > 0 {
        lemma_kept_texts(v.drop_last());
        lemma_trimmed_idempotent(v.last());
    }
}

proof fn lemma_kept_all(v: Seq<Seq<char>>)
    requires
        forall|i: int| 0 <= i < v.len() ==> (#[trigger] v[i]).len() > 0 && trimmed(v[i]) == v[i],
    ensures
        kept_texts(v) == v,
    decreases v.len(),
{
    if v.len() > 0 {
        lemma_kept_all(v.drop_last());
        assert(v.drop_last().push(v.last()) =~= v);
    } else {
        assert(v =~= Seq::empty());
    }
}

/// Normalizing a list of texts a second time changes nothing, and no text that
/// is kept is empty.
pub proof fn law_normal_texts(v: Seq<Seq<char>>)
    ensures
        kept_texts(kept_texts(v)) == kept_texts(v),
        forall|i: int| 0 <= i < kept_texts(v).len() ==> (#[trigger] kept_texts(v)[i]).len() > 0,
{
    lemma_kept_texts(v);
    lemma_kept_all(kept_texts(v));
}

proof fn lemma_lower_trimmed(h: Seq<char>)
    ensures
        ascii_lower(trimmed(ascii_lower(trimmed(h)))) == ascii_lower(trimmed(h)),
{
    let t = trimmed(h);
    lemma_trimmed_edges(h);
    lemma_ascii_lower_idempotent(t);
    let l = ascii_lower(t);
    if l.len() > 0 {
        assert(l[0] == ascii_lower_char(t[0]));
        assert(l.last() == ascii_lower_char(t.last()));
        assert(!is_space(l[0]));
        assert(!is_space(l.last()));
    }
    assert(trimmed(l) == l);
}

/// Normalizing an artifact a second time changes nothing.
pub proof fn law_normalize_artifact_idempotent(a: ArtifactView)
    ensures
        normal_artifact(normal_artifact(a)) == normal_artifact(a),
{
    let n = normal_artifact(a);
    let m = normal_artifact(n);
    lemma_trimmed_idempotent(a.title);
    lemma_trimmed_idempotent(a.goal);
    lemma_trimmed_idempotent(a.summary);
    law_normal_texts(a.assumptions);
    law_normal_texts(a.risks);
    law_normal_texts(a.verification);
    law_normal_texts(a.acceptance_criteria);
    assert forall|i: int| 0 <= i < a.steps.len() implies m.steps[i] == n.steps[i] by {
        lemma_trimmed_idempotent(a.steps[i].id);
        lemma_trimmed_idempotent(a.steps[i].title);
        lemma_trimmed_idempotent(a.steps[i].description);
        law_normal_texts(a.steps[i].affected_areas);
    }
    assert(m.steps =~= n.steps);
    assert forall|i: int| 0 <= i < a.completion_checks.len() implies m.completion_checks[i]
        == n.completion_checks[i] by {
        let c = a.completion_checks[i];
        lemma_trimmed_idempotent(c.id);
        lemma_trimmed_idempotent(c.step_id);
        if c.path is Some {
            lemma_trimmed_idempotent(c.path->0);
        }
        if c.tool_name is Some {
            lemma_trimmed_idempotent(c.tool_name->0);
        }
        if c.sha256 is Some {
            lemma_lower_trimmed(c.sha256->0);
        }
        law_normal_texts(c.required_step_ids);
    }
    assert(m.completion_checks =~= n.completion_checks);
    assert forall|i: int| 0 <= i < a.questions.len() implies m.questions[i] == n.questions[i] by {
        let q = a.questions[i];
        lemma_trimmed_idempotent(q.id);
        lemma_trimmed_idempotent(q.prompt);
        assert forall|j: int| 0 <= j < q.options.len() implies m.questions[i].options[j]
            == n.questions[i].options[j] by {
            lemma_trimmed_idempotent(q.options[j].id);
            lemma_trimmed_idempotent(q.options[j].label);
            lemma_trimmed_idempotent(q.options[j].description);
        }
        assert(m.questions[i].options =~= n.questions[i].options);
    }
    assert(m.questions =~= n.questions);
    assert(m =~= n);
}

} // verus!
