//! What the Markdown of a plan shows.

use crate::plan::markdown::{
    artifact_markdown, bullets, check_summary, checks_markdown, list_markdown, options_markdown,
    questions_markdown, step_markdown, steps_markdown,
};
use crate::plan::model::{ArtifactView, CheckView, QuestionView, StepView};
use crate::text::{decimal_spec, joined};
use crate::within::{lemma_in_either, lemma_within, occurs};
use vstd::prelude::*;
use vstd::string::*;

verus! {

proof fn lemma_bullet(values: Seq<Seq<char>>, n: int, i: int)
    requires
        0 <= i < n <= values.len(),
    ensures
        occurs(bullets(values, n), values[i]),
    decreases n,
{
    let none = Seq::<char>::empty();
    let before = bullets(values, n - 1) + "\n\n- "@;
    lemma_within(before, values[n - 1], none);
    assert(before + values[n - 1] + none =~= bullets(values, n));
    if i < n - 1 {
        lemma_bullet(values, n - 1, i);
        lemma_in_either(bullets(values, n - 1), "\n\n- "@ + values[n - 1], values[i]);
        assert(bullets(values, n - 1) + ("\n\n- "@ + values[n - 1]) =~= bullets(values, n));
    }
}

proof fn lemma_listed(title: Seq<char>, values: Seq<Seq<char>>, i: int)
    requires
        0 <= i < values.len(),
    ensures
        occurs(list_markdown(title, values), values[i]),
{
    lemma_bullet(values, values.len() as int, i);
    lemma_in_either("\n\n## "@ + title, bullets(values, values.len() as int), values[i]);
}

proof fn lemma_step(s: StepView, number: nat)
    ensures
        occurs(step_markdown(s, number), s.title),
        s.description.len() > 0 ==> occurs(step_markdown(s, number), s.description),
{
    let none = Seq::<char>::empty();
    let start = "\n\n"@ + decimal_spec(number) + ". **"@;
    let head = start + s.title + "**"@;
    lemma_within(start, s.title, "**"@);
    let described = if s.description.len() == 0 {
        head
    } else {
        head + " — "@ + s.description
    };
    lemma_in_either(head, " — "@ + s.description, s.title);
    assert(head + (" — "@ + s.description) =~= head + " — "@ + s.description);
    lemma_within(head + " — "@, s.description, none);
    assert(head + " — "@ + s.description + none =~= head + " — "@ + s.description);
    let areas = "\n   - Areas: "@ + joined(s.affected_areas, ", "@);
    lemma_in_either(described, areas, s.title);
    lemma_in_either(described, areas, s.description);
    assert(described + areas =~= described + "\n   - Areas: "@ + joined(s.affected_areas, ", "@));
}

proof fn lemma_steps(steps: Seq<StepView>, n: int, i: int)
    requires
        0 <= i < n <= steps.len(),
    ensures
        occurs(steps_markdown(steps, n), steps[i].title),
        steps[i].description.len() > 0 ==> occurs(steps_markdown(steps, n), steps[i].description),
    decreases n,
{
    let before = steps_markdown(steps, n - 1);
    let last = step_markdown(steps[n - 1], n as nat);
    if i < n - 1 {
        lemma_steps(steps, n - 1, i);
    } else {
        lemma_step(steps[i], n as nat);
    }
    lemma_in_either(before, last, steps[i].title);
    lemma_in_either(before, last, steps[i].description);
}

proof fn lemma_checks(checks: Seq<CheckView>, n: int, i: int)
    requires
        0 <= i < n <= checks.len(),
    ensures
        occurs(checks_markdown(checks, n), checks[i].id),
        occurs(checks_markdown(checks, n), checks[i].step_id),
        occurs(checks_markdown(checks, n), check_summary(checks[i])),
    decreases n,
{
    let before = checks_markdown(checks, n - 1);
    let c = checks[n - 1];
    let last = "\n\n- `"@ + c.id + "` → `"@ + c.step_id + "`: "@ + check_summary(c);
    if i < n - 1 {
        lemma_checks(checks, n - 1, i);
    } else {
        let none = Seq::<char>::empty();
        lemma_within("\n\n- `"@, c.id, "` → `"@ + c.step_id + "`: "@ + check_summary(c));
        assert("\n\n- `"@ + c.id + ("` → `"@ + c.step_id + "`: "@ + check_summary(c)) =~= last);
        let p = "\n\n- `"@ + c.id + "` → `"@;
        lemma_within(p, c.step_id, "`: "@ + check_summary(c));
        assert(p + c.step_id + ("`: "@ + check_summary(c)) =~= last);
        lemma_within(p + c.step_id + "`: "@, check_summary(c), none);
        assert(p + c.step_id + "`: "@ + check_summary(c) + none =~= last);
    }
    lemma_in_either(before, last, checks[i].id);
    lemma_in_either(before, last, checks[i].step_id);
    lemma_in_either(before, last, check_summary(checks[i]));
}

proof fn lemma_questions(questions: Seq<QuestionView>, n: int, i: int)
    requires
        0 <= i < n <= questions.len(),
    ensures
        occurs(questions_markdown(questions, n), questions[i].prompt),
    decreases n,
{
    let before = questions_markdown(questions, n - 1);
    let q = questions[n - 1];
    let rest = options_markdown(q.options, q.options.len() as int);
    if i < n - 1 {
        lemma_questions(questions, n - 1, i);
    } else {
        lemma_within("\n\n- "@, q.prompt, rest);
    }
    lemma_in_either(before, "\n\n- "@ + q.prompt + rest, questions[i].prompt);
}

/// The parts of the Markdown, one behind the other.
spec fn parts_of(a: ArtifactView) -> Seq<Seq<char>> {
    let none = Seq::<char>::empty();
    seq![
        "# "@ + a.title + "\n\n"@ + a.goal,
        if a.summary.len() == 0 {
            none
        } else {
            "\n\n"@ + a.summary
        },
        if a.steps.len() == 0 {
            none
        } else {
            "\n\n## Steps"@ + steps_markdown(a.steps, a.steps.len() as int)
        },
        list_markdown("Assumptions"@, a.assumptions),
        list_markdown("Risks"@, a.risks),
        list_markdown("Verification"@, a.verification),
        list_markdown("Acceptance criteria"@, a.acceptance_criteria),
        if a.completion_checks.len() == 0 {
            none
        } else {
            "\n\n## Server completion checks"@ + checks_markdown(
                a.completion_checks,
                a.completion_checks.len() as int,
            )
        },
        if a.questions.len() == 0 {
            none
        } else {
            "\n\n## Questions"@ + questions_markdown(a.questions, a.questions.len() as int)
        },
    ]
}

proof fn lemma_part_shown(a: ArtifactView, k: int, x: Seq<char>)
    requires
        a.legacy_markdown is None,
        0 <= k < 9,
        occurs(parts_of(a)[k], x),
    ensures
        occurs(artifact_markdown(a), x),
{
    let p = parts_of(a);
    let s1 = p[0] + p[1];
    let s2 = s1 + p[2];
    let s3 = s2 + p[3];
    let s4 = s3 + p[4];
    let s5 = s4 + p[5];
    let s6 = s5 + p[6];
    let s7 = s6 + p[7];
    let s8 = s7 + p[8];
    lemma_in_either(p[0], p[1], x);
    lemma_in_either(s1, p[2], x);
    lemma_in_either(s2, p[3], x);
    lemma_in_either(s3, p[4], x);
    lemma_in_either(s4, p[5], x);
    lemma_in_either(s5, p[6], x);
    lemma_in_either(s6, p[7], x);
    lemma_in_either(s7, p[8], x);
    assert(s8 == artifact_markdown(a));
}

/// The Markdown of a plan shows its title, its goal and its summary, and of
/// every step the title and the description.
pub proof fn law_markdown_shows_steps(a: ArtifactView, i: int)
    requires
        a.legacy_markdown is None,
    ensures
        occurs(artifact_markdown(a), a.title),
        occurs(artifact_markdown(a), a.goal),
        a.summary.len() > 0 ==> occurs(artifact_markdown(a), a.summary),
        0 <= i < a.steps.len() ==> occurs(artifact_markdown(a), a.steps[i].title),
        0 <= i < a.steps.len() && a.steps[i].description.len() > 0 ==> occurs(
            artifact_markdown(a),
            a.steps[i].description,
        ),
{
    let none = Seq::<char>::empty();
    lemma_within("# "@, a.title, "\n\n"@ + a.goal);
    assert("# "@ + a.title + ("\n\n"@ + a.goal) =~= parts_of(a)[0]);
    lemma_part_shown(a, 0, a.title);
    lemma_within("# "@ + a.title + "\n\n"@, a.goal, none);
    assert("# "@ + a.title + "\n\n"@ + a.goal + none =~= parts_of(a)[0]);
    lemma_part_shown(a, 0, a.goal);
    if a.summary.len() > 0 {
        lemma_within("\n\n"@, a.summary, none);
        assert("\n\n"@ + a.summary + none =~= parts_of(a)[1]);
        lemma_part_shown(a, 1, a.summary);
    }
    if 0 <= i < a.steps.len() {
        let n = a.steps.len() as int;
        let s = a.steps[i];
        lemma_steps(a.steps, n, i);
        lemma_in_either("\n\n## Steps"@, steps_markdown(a.steps, n), s.title);
        lemma_in_either("\n\n## Steps"@, steps_markdown(a.steps, n), s.description);
        lemma_part_shown(a, 2, s.title);
        if s.description.len() > 0 {
            lemma_part_shown(a, 2, s.description);
        }
    }
}

/// The Markdown of a plan shows every assumption, risk, verification and
/// criterion, every check with its step and what it demands, and every question.
pub proof fn law_markdown_shows_contract(a: ArtifactView, i: int)
    requires
        a.legacy_markdown is None,
    ensures
        0 <= i < a.assumptions.len() ==> occurs(artifact_markdown(a), a.assumptions[i]),
        0 <= i < a.risks.len() ==> occurs(artifact_markdown(a), a.risks[i]),
        0 <= i < a.verification.len() ==> occurs(artifact_markdown(a), a.verification[i]),
        0 <= i < a.acceptance_criteria.len() ==> occurs(
            artifact_markdown(a),
            a.acceptance_criteria[i],
        ),
        0 <= i < a.completion_checks.len() ==> occurs(
            artifact_markdown(a),
            a.completion_checks[i].id,
        ) && occurs(artifact_markdown(a), a.completion_checks[i].step_id) && occurs(
            artifact_markdown(a),
            check_summary(a.completion_checks[i]),
        ),
        0 <= i < a.questions.len() ==> occurs(artifact_markdown(a), a.questions[i].prompt),
{
    if 0 <= i < a.assumptions.len() {
        lemma_listed("Assumptions"@, a.assumptions, i);
        lemma_part_shown(a, 3, a.assumptions[i]);
    }
    if 0 <= i < a.risks.len() {
        lemma_listed("Risks"@, a.risks, i);
        lemma_part_shown(a, 4, a.risks[i]);
    }
    if 0 <= i < a.verification.len() {
        lemma_listed("Verification"@, a.verification, i);
        lemma_part_shown(a, 5, a.verification[i]);
    }
    if 0 <= i < a.acceptance_criteria.len() {
        lemma_listed("Acceptance criteria"@, a.acceptance_criteria, i);
        lemma_part_shown(a, 6, a.acceptance_criteria[i]);
    }
    if 0 <= i < a.completion_checks.len() {
        let n = a.completion_checks.len() as int;
        let c = a.completion_checks[i];
        lemma_checks(a.completion_checks, n, i);
        let title = "\n\n## Server completion checks"@;
        lemma_in_either(title, checks_markdown(a.completion_checks, n), c.id);
        lemma_in_either(title, checks_markdown(a.completion_checks, n), c.step_id);
        lemma_in_either(title, checks_markdown(a.completion_checks, n), check_summary(c));
        lemma_part_shown(a, 7, c.id);
        lemma_part_shown(a, 7, c.step_id);
        lemma_part_shown(a, 7, check_summary(c));
    }
    if 0 <= i < a.questions.len() {
        let n = a.questions.len() as int;
        lemma_questions(a.questions, n, i);
        lemma_in_either("\n\n## Questions"@, questions_markdown(a.questions, n), a.questions[i].prompt);
        lemma_part_shown(a, 8, a.questions[i].prompt);
    }
}

} // verus!
