//! What the stored form of a plan holds.

use crate::json::{JsonView, entry, law_with_entry, member, no_entries};
use crate::plan::encode::{
    artifact_json, check_json, check_kind_key, clause_json, evidence_kind_key, option_json,
    path_type_key, question_json, step_json, text_value, with_value,
};
use crate::plan::model::{
    ArtifactView, CheckView, OptionView, PlanContractClauseRef, QuestionView, StepView,
};
use vstd::prelude::*;
use vstd::string::*;

verus! {

/// A text, unless it is empty.
pub open spec fn unless_blank(t: Seq<char>) -> Option<JsonView> {
    if t.len() == 0 {
        None
    } else {
        Some(JsonView::Text(t))
    }
}

/// A list of texts, unless it is empty.
pub open spec fn unless_none(v: Seq<Seq<char>>) -> Option<JsonView> {
    if v.len() == 0 {
        None
    } else {
        Some(JsonView::Array(v.map_values(|t: Seq<char>| JsonView::Text(t))))
    }
}

/// A list of values, unless it is empty.
pub open spec fn unless_no_items(v: Seq<JsonView>) -> Option<JsonView> {
    if v.len() == 0 {
        None
    } else {
        Some(JsonView::Array(v))
    }
}

spec fn are_distinct(l: Seq<(Seq<char>, Option<JsonView>)>) -> bool {
    forall|i: int, j: int| 0 <= i < j < l.len() ==> (#[trigger] l[i]).0 != (#[trigger] l[j]).0
}

/// The entries of an object with the first `n` values that there are.
spec fn written_upto(l: Seq<(Seq<char>, Option<JsonView>)>, n: int) -> Seq<(Seq<char>, JsonView)>
    decreases n,
{
    if n <= 0 {
        no_entries()
    } else {
        with_value(written_upto(l, n - 1), l[n - 1].0, l[n - 1].1)
    }
}

proof fn lemma_not_yet(l: Seq<(Seq<char>, Option<JsonView>)>, n: int, k: Seq<char>)
    requires
        0 <= n <= l.len(),
        forall|i: int| 0 <= i < n ==> (#[trigger] l[i]).0 != k,
    ensures
        entry(written_upto(l, n), k) is None,
    decreases n,
{
    if n > 0 {
        lemma_not_yet(l, n - 1, k);
        if l[n - 1].1 is Some {
            law_with_entry(written_upto(l, n - 1), l[n - 1].0, l[n - 1].1->0, k);
        }
    }
}

proof fn lemma_written(l: Seq<(Seq<char>, Option<JsonView>)>, n: int, i: int)
    requires
        0 <= i < n <= l.len(),
        are_distinct(l),
    ensures
        entry(written_upto(l, n), l[i].0) == l[i].1,
    decreases n,
{
    let before = written_upto(l, n - 1);
    if i < n - 1 {
        lemma_written(l, n - 1, i);
        assert(l[i].0 != l[n - 1].0);
    } else {
        lemma_not_yet(l, n - 1, l[i].0);
    }
    if l[n - 1].1 is Some {
        law_with_entry(before, l[n - 1].0, l[n - 1].1->0, l[i].0);
    }
}

/// What is stored of a step, each value under its key.
spec fn step_list(s: StepView) -> Seq<(Seq<char>, Option<JsonView>)> {
    seq![
        ("id"@, Some(JsonView::Text(s.id))),
        ("title"@, Some(JsonView::Text(s.title))),
        ("description"@, unless_blank(s.description)),
        ("affected_areas"@, unless_none(s.affected_areas)),
    ]
}

proof fn lemma_step_list(s: StepView)
    ensures
        step_json(s) == JsonView::Object(written_upto(step_list(s), 4)),
        are_distinct(step_list(s)),
{
    reveal_with_fuel(written_upto, 5);
    reveal_strlit("id");
    reveal_strlit("title");
    reveal_strlit("description");
    reveal_strlit("affected_areas");
    let l = step_list(s);
    assert forall|i: int, j: int| 0 <= i < j < l.len() implies (#[trigger] l[i]).0 != (
    #[trigger] l[j]).0 by {
        assert(l[i].0.len() != l[j].0.len() || l[i].0[0] != l[j].0[0] || l[i].0[1] != l[j].0[1]);
    }
}

/// A stored step holds its id and title, and its description and areas where it has
/// any, and nothing else.
pub proof fn law_step_as_stored(s: StepView)
    ensures
        member(step_json(s), "id"@) == (Some(JsonView::Text(s.id))),
        member(step_json(s), "title"@) == (Some(JsonView::Text(s.title))),
        member(step_json(s), "description"@) == (unless_blank(s.description)),
        member(step_json(s), "affected_areas"@) == (unless_none(s.affected_areas)),
        forall|k: Seq<char>| #[trigger]
            member(step_json(s), k) is Some ==> seq![
                "id"@,
                "title"@,
                "description"@,
                "affected_areas"@,
            ].contains(k),
{
    lemma_step_list(s);
    let l = step_list(s);
    lemma_written(l, 4, 0);
    lemma_written(l, 4, 1);
    lemma_written(l, 4, 2);
    lemma_written(l, 4, 3);
    let keys = seq![
        "id"@,
        "title"@,
        "description"@,
        "affected_areas"@,
    ];
    assert forall|k: Seq<char>| #[trigger] member(step_json(s), k) is Some implies keys.contains(
        k,
    ) by {
        if !keys.contains(k) {
            assert forall|i: int| 0 <= i < l.len() implies (#[trigger] l[i]).0 != k by {
                assert(l[i].0 == keys[i]);
            }
            lemma_not_yet(l, 4, k);
        }
    }
}

/// What is stored of a check, each value under its key.
spec fn check_list(c: CheckView) -> Seq<(Seq<char>, Option<JsonView>)> {
    seq![
        ("id"@, Some(JsonView::Text(c.id))),
        ("step_id"@, Some(JsonView::Text(c.step_id))),
        ("covers"@, Some(JsonView::Array(c.covers.map_values(|r: PlanContractClauseRef| clause_json(r))))),
        ("kind"@, Some(JsonView::Text(check_kind_key(c.kind)))),
        ("path"@, text_value(c.path)),
        ("expected_path_type"@, match c.expected_path_type {
            Some(t) => Some(JsonView::Text(path_type_key(t))),
            None => None,
        }),
        ("exact_content"@, text_value(c.exact_content)),
        ("size_bytes"@, match c.size_bytes {
            Some(n) => Some(JsonView::Unsigned(n)),
            None => None,
        }),
        ("sha256"@, text_value(c.sha256)),
        ("evidence_kind"@, match c.evidence_kind {
            Some(k) => Some(JsonView::Text(evidence_kind_key(k))),
            None => None,
        }),
        ("required_step_ids"@, unless_none(c.required_step_ids)),
        ("tool_name"@, text_value(c.tool_name)),
        ("arguments"@, c.arguments),
    ]
}

proof fn lemma_check_list(c: CheckView)
    ensures
        check_json(c) == JsonView::Object(written_upto(check_list(c), 13)),
        are_distinct(check_list(c)),
{
    reveal_with_fuel(written_upto, 14);
    reveal_strlit("id");
    reveal_strlit("step_id");
    reveal_strlit("covers");
    reveal_strlit("kind");
    reveal_strlit("path");
    reveal_strlit("expected_path_type");
    reveal_strlit("exact_content");
    reveal_strlit("size_bytes");
    reveal_strlit("sha256");
    reveal_strlit("evidence_kind");
    reveal_strlit("required_step_ids");
    reveal_strlit("tool_name");
    reveal_strlit("arguments");
    let l = check_list(c);
    assert forall|i: int, j: int| 0 <= i < j < l.len() implies (#[trigger] l[i]).0 != (
    #[trigger] l[j]).0 by {
        assert(l[i].0.len() != l[j].0.len() || l[i].0[0] != l[j].0[0] || l[i].0[1] != l[j].0[1]);
    }
}

/// A stored check holds each thing that it demands under its own key, leaves out
/// what it does not speak of, and holds nothing else.
pub proof fn law_check_as_stored(c: CheckView)
    ensures
        member(check_json(c), "id"@) == (Some(JsonView::Text(c.id))),
        member(check_json(c), "step_id"@) == (Some(JsonView::Text(c.step_id))),
        member(check_json(c), "covers"@) == (Some(JsonView::Array(c.covers.map_values(|r: PlanContractClauseRef| clause_json(r))))),
        member(check_json(c), "kind"@) == (Some(JsonView::Text(check_kind_key(c.kind)))),
        member(check_json(c), "path"@) == (text_value(c.path)),
        member(check_json(c), "expected_path_type"@) == (match c.expected_path_type {
            Some(t) => Some(JsonView::Text(path_type_key(t))),
            None => None,
        }),
        member(check_json(c), "exact_content"@) == (text_value(c.exact_content)),
        member(check_json(c), "size_bytes"@) == (match c.size_bytes {
            Some(n) => Some(JsonView::Unsigned(n)),
            None => None,
        }),
        member(check_json(c), "sha256"@) == (text_value(c.sha256)),
        member(check_json(c), "evidence_kind"@) == (match c.evidence_kind {
            Some(k) => Some(JsonView::Text(evidence_kind_key(k))),
            None => None,
        }),
        member(check_json(c), "required_step_ids"@) == (unless_none(c.required_step_ids)),
        member(check_json(c), "tool_name"@) == (text_value(c.tool_name)),
        member(check_json(c), "arguments"@) == (c.arguments),
        forall|k: Seq<char>| #[trigger]
            member(check_json(c), k) is Some ==> seq![
                "id"@,
                "step_id"@,
                "covers"@,
                "kind"@,
                "path"@,
                "expected_path_type"@,
                "exact_content"@,
                "size_bytes"@,
                "sha256"@,
                "evidence_kind"@,
                "required_step_ids"@,
                "tool_name"@,
                "arguments"@,
            ].contains(k),
{
    lemma_check_list(c);
    let l = check_list(c);
    lemma_written(l, 13, 0);
    lemma_written(l, 13, 1);
    lemma_written(l, 13, 2);
    lemma_written(l, 13, 3);
    lemma_written(l, 13, 4);
    lemma_written(l, 13, 5);
    lemma_written(l, 13, 6);
    lemma_written(l, 13, 7);
    lemma_written(l, 13, 8);
    lemma_written(l, 13, 9);
    lemma_written(l, 13, 10);
    lemma_written(l, 13, 11);
    lemma_written(l, 13, 12);
    let keys = seq![
        "id"@,
        "step_id"@,
        "covers"@,
        "kind"@,
        "path"@,
        "expected_path_type"@,
        "exact_content"@,
        "size_bytes"@,
        "sha256"@,
        "evidence_kind"@,
        "required_step_ids"@,
        "tool_name"@,
        "arguments"@,
    ];
    assert forall|k: Seq<char>| #[trigger] member(check_json(c), k) is Some implies keys.contains(
        k,
    ) by {
        if !keys.contains(k) {
            assert forall|i: int| 0 <= i < l.len() implies (#[trigger] l[i]).0 != k by {
                assert(l[i].0 == keys[i]);
            }
            lemma_not_yet(l, 13, k);
        }
    }
}

/// What is stored of an answer, each value under its key.
spec fn option_list(o: OptionView) -> Seq<(Seq<char>, Option<JsonView>)> {
    seq![
        ("id"@, Some(JsonView::Text(o.id))),
        ("label"@, Some(JsonView::Text(o.label))),
        ("description"@, unless_blank(o.description)),
    ]
}

proof fn lemma_option_list(o: OptionView)
    ensures
        option_json(o) == JsonView::Object(written_upto(option_list(o), 3)),
        are_distinct(option_list(o)),
{
    reveal_with_fuel(written_upto, 4);
    reveal_strlit("id");
    reveal_strlit("label");
    reveal_strlit("description");
    let l = option_list(o);
    assert forall|i: int, j: int| 0 <= i < j < l.len() implies (#[trigger] l[i]).0 != (
    #[trigger] l[j]).0 by {
        assert(l[i].0.len() != l[j].0.len() || l[i].0[0] != l[j].0[0] || l[i].0[1] != l[j].0[1]);
    }
}

/// A stored answer holds its id and label, its description where it has one, and
/// nothing else.
pub proof fn law_option_as_stored(o: OptionView)
    ensures
        member(option_json(o), "id"@) == (Some(JsonView::Text(o.id))),
        member(option_json(o), "label"@) == (Some(JsonView::Text(o.label))),
        member(option_json(o), "description"@) == (unless_blank(o.description)),
        forall|k: Seq<char>| #[trigger]
            member(option_json(o), k) is Some ==> seq![
                "id"@,
                "label"@,
                "description"@,
            ].contains(k),
{
    lemma_option_list(o);
    let l = option_list(o);
    lemma_written(l, 3, 0);
    lemma_written(l, 3, 1);
    lemma_written(l, 3, 2);
    let keys = seq![
        "id"@,
        "label"@,
        "description"@,
    ];
    assert forall|k: Seq<char>| #[trigger] member(option_json(o), k) is Some implies keys.contains(
        k,
    ) by {
        if !keys.contains(k) {
            assert forall|i: int| 0 <= i < l.len() implies (#[trigger] l[i]).0 != k by {
                assert(l[i].0 == keys[i]);
            }
            lemma_not_yet(l, 3, k);
        }
    }
}

/// What is stored of a question, each value under its key.
spec fn question_list(q: QuestionView) -> Seq<(Seq<char>, Option<JsonView>)> {
    seq![
        ("id"@, Some(JsonView::Text(q.id))),
        ("prompt"@, Some(JsonView::Text(q.prompt))),
        ("options"@, unless_no_items(q.options.map_values(|o: OptionView| option_json(o)))),
    ]
}

proof fn lemma_question_list(q: QuestionView)
    ensures
        question_json(q) == JsonView::Object(written_upto(question_list(q), 3)),
        are_distinct(question_list(q)),
{
    reveal_with_fuel(written_upto, 4);
    reveal_strlit("id");
    reveal_strlit("prompt");
    reveal_strlit("options");
    let l = question_list(q);
    assert forall|i: int, j: int| 0 <= i < j < l.len() implies (#[trigger] l[i]).0 != (
    #[trigger] l[j]).0 by {
        assert(l[i].0.len() != l[j].0.len() || l[i].0[0] != l[j].0[0] || l[i].0[1] != l[j].0[1]);
    }
}

/// A stored question holds its id and prompt, its answers where it has any, and
/// nothing else.
pub proof fn law_question_as_stored(q: QuestionView)
    ensures
        member(question_json(q), "id"@) == (Some(JsonView::Text(q.id))),
        member(question_json(q), "prompt"@) == (Some(JsonView::Text(q.prompt))),
        member(question_json(q), "options"@) == (unless_no_items(q.options.map_values(|o: OptionView| option_json(o)))),
        forall|k: Seq<char>| #[trigger]
            member(question_json(q), k) is Some ==> seq![
                "id"@,
                "prompt"@,
                "options"@,
            ].contains(k),
{
    lemma_question_list(q);
    let l = question_list(q);
    lemma_written(l, 3, 0);
    lemma_written(l, 3, 1);
    lemma_written(l, 3, 2);
    let keys = seq![
        "id"@,
        "prompt"@,
        "options"@,
    ];
    assert forall|k: Seq<char>| #[trigger] member(question_json(q), k) is Some implies keys.contains(
        k,
    ) by {
        if !keys.contains(k) {
            assert forall|i: int| 0 <= i < l.len() implies (#[trigger] l[i]).0 != k by {
                assert(l[i].0 == keys[i]);
            }
            lemma_not_yet(l, 3, k);
        }
    }
}

/// What is stored of a plan, each value under its key.
spec fn artifact_list(a: ArtifactView) -> Seq<(Seq<char>, Option<JsonView>)> {
    seq![
        ("schema_version"@, Some(JsonView::Unsigned(a.schema_version as u64))),
        ("title"@, Some(JsonView::Text(a.title))),
        ("goal"@, Some(JsonView::Text(a.goal))),
        ("summary"@, unless_blank(a.summary)),
        ("steps"@, unless_no_items(a.steps.map_values(|s: StepView| step_json(s)))),
        ("assumptions"@, unless_none(a.assumptions)),
        ("risks"@, unless_none(a.risks)),
        ("verification"@, unless_none(a.verification)),
        ("acceptance_criteria"@, unless_none(a.acceptance_criteria)),
        ("completion_checks"@, unless_no_items(a.completion_checks.map_values(|c: CheckView| check_json(c)))),
        ("questions"@, unless_no_items(a.questions.map_values(|q: QuestionView| question_json(q)))),
        ("legacy_markdown"@, text_value(a.legacy_markdown)),
    ]
}

proof fn lemma_artifact_list(a: ArtifactView)
    ensures
        artifact_json(a) == JsonView::Object(written_upto(artifact_list(a), 12)),
        are_distinct(artifact_list(a)),
{
    reveal_with_fuel(written_upto, 13);
    reveal_strlit("schema_version");
    reveal_strlit("title");
    reveal_strlit("goal");
    reveal_strlit("summary");
    reveal_strlit("steps");
    reveal_strlit("assumptions");
    reveal_strlit("risks");
    reveal_strlit("verification");
    reveal_strlit("acceptance_criteria");
    reveal_strlit("completion_checks");
    reveal_strlit("questions");
    reveal_strlit("legacy_markdown");
    let l = artifact_list(a);
    assert forall|i: int, j: int| 0 <= i < j < l.len() implies (#[trigger] l[i]).0 != (
    #[trigger] l[j]).0 by {
        assert(l[i].0.len() != l[j].0.len() || l[i].0[0] != l[j].0[0] || l[i].0[1] != l[j].0[1]);
    }
}

/// A stored plan holds each of its parts under its own key, leaves out those that
/// are empty, and holds nothing else.
pub proof fn law_plan_as_stored(a: ArtifactView)
    ensures
        member(artifact_json(a), "schema_version"@) == (Some(JsonView::Unsigned(a.schema_version as u64))),
        member(artifact_json(a), "title"@) == (Some(JsonView::Text(a.title))),
        member(artifact_json(a), "goal"@) == (Some(JsonView::Text(a.goal))),
        member(artifact_json(a), "summary"@) == (unless_blank(a.summary)),
        member(artifact_json(a), "steps"@) == (unless_no_items(a.steps.map_values(|s: StepView| step_json(s)))),
        member(artifact_json(a), "assumptions"@) == (unless_none(a.assumptions)),
        member(artifact_json(a), "risks"@) == (unless_none(a.risks)),
        member(artifact_json(a), "verification"@) == (unless_none(a.verification)),
        member(artifact_json(a), "acceptance_criteria"@) == (unless_none(a.acceptance_criteria)),
        member(artifact_json(a), "completion_checks"@) == (unless_no_items(a.completion_checks.map_values(|c: CheckView| check_json(c)))),
        member(artifact_json(a), "questions"@) == (unless_no_items(a.questions.map_values(|q: QuestionView| question_json(q)))),
        member(artifact_json(a), "legacy_markdown"@) == (text_value(a.legacy_markdown)),
        forall|k: Seq<char>| #[trigger]
            member(artifact_json(a), k) is Some ==> seq![
                "schema_version"@,
                "title"@,
                "goal"@,
                "summary"@,
                "steps"@,
                "assumptions"@,
                "risks"@,
                "verification"@,
                "acceptance_criteria"@,
                "completion_checks"@,
                "questions"@,
                "legacy_markdown"@,
            ].contains(k),
{
    lemma_artifact_list(a);
    let l = artifact_list(a);
    lemma_written(l, 12, 0);
    lemma_written(l, 12, 1);
    lemma_written(l, 12, 2);
    lemma_written(l, 12, 3);
    lemma_written(l, 12, 4);
    lemma_written(l, 12, 5);
    lemma_written(l, 12, 6);
    lemma_written(l, 12, 7);
    lemma_written(l, 12, 8);
    lemma_written(l, 12, 9);
    lemma_written(l, 12, 10);
    lemma_written(l, 12, 11);
    let keys = seq![
        "schema_version"@,
        "title"@,
        "goal"@,
        "summary"@,
        "steps"@,
        "assumptions"@,
        "risks"@,
        "verification"@,
        "acceptance_criteria"@,
        "completion_checks"@,
        "questions"@,
        "legacy_markdown"@,
    ];
    assert forall|k: Seq<char>| #[trigger] member(artifact_json(a), k) is Some implies keys.contains(
        k,
    ) by {
        if !keys.contains(k) {
            assert forall|i: int| 0 <= i < l.len() implies (#[trigger] l[i]).0 != k by {
                assert(l[i].0 == keys[i]);
            }
            lemma_not_yet(l, 12, k);
        }
    }
}

} // verus!
