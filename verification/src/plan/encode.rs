//! Plans as JSON values.

use crate::json::{
    Json, JsonView, Obj, all_flat, compact, flat_limit, items_view, json_compact, json_view,
    lemma_array_view, lemma_flat_entry, no_entries, text_array, texts_json, with_entry,
};
use crate::plan::model::{
    ArtifactView, CheckView, OptionView, PlanArtifact, PlanCompletionCheck,
    PlanCompletionCheckKind, PlanContractClauseRef, PlanContractSection, PlanEvidenceKind,
    PlanExpectedPathType, PlanQuestion, PlanQuestionOption, PlanStep, QuestionView, StepView,
};
use crate::text::{byte_count, byte_len, opt_text, texts};
use vstd::prelude::*;
use vstd::string::*;

verus! {

/// The name under which a section is stored.
pub open spec fn section_key(s: PlanContractSection) -> Seq<char> {
    match s {
        PlanContractSection::Verification => "verification"@,
        PlanContractSection::AcceptanceCriteria => "acceptance_criteria"@,
    }
}

/// The name under which a kind of check is stored.
pub open spec fn check_kind_key(k: PlanCompletionCheckKind) -> Seq<char> {
    match k {
        PlanCompletionCheckKind::WorkspacePath => "workspace_path"@,
        PlanCompletionCheckKind::ApprovedEvidenceUnchanged => "approved_evidence_unchanged"@,
        PlanCompletionCheckKind::PlanProgress => "plan_progress"@,
        PlanCompletionCheckKind::ToolCallSuccess => "tool_call_success"@,
    }
}

/// The name under which a type of path is stored.
pub open spec fn path_type_key(t: PlanExpectedPathType) -> Seq<char> {
    match t {
        PlanExpectedPathType::File => "file"@,
        PlanExpectedPathType::Directory => "directory"@,
        PlanExpectedPathType::Absent => "absent"@,
    }
}

/// The name under which a kind of evidence is stored.
pub open spec fn evidence_kind_key(k: PlanEvidenceKind) -> Seq<char> {
    match k {
        PlanEvidenceKind::File => "file"@,
        PlanEvidenceKind::Directory => "directory"@,
        PlanEvidenceKind::DirectoryTree => "directory_tree"@,
        PlanEvidenceKind::Git => "git"@,
    }
}

/// The name under which `s` is stored.
pub fn section_label(s: PlanContractSection) -> (r: &'static str)
    ensures
        r@ == section_key(s),
{
    match s {
        PlanContractSection::Verification => "verification",
        PlanContractSection::AcceptanceCriteria => "acceptance_criteria",
    }
}

/// The name under which `k` is stored.
pub fn check_kind_label(k: PlanCompletionCheckKind) -> (r: &'static str)
    ensures
        r@ == check_kind_key(k),
{
    match k {
        PlanCompletionCheckKind::WorkspacePath => "workspace_path",
        PlanCompletionCheckKind::ApprovedEvidenceUnchanged => "approved_evidence_unchanged",
        PlanCompletionCheckKind::PlanProgress => "plan_progress",
        PlanCompletionCheckKind::ToolCallSuccess => "tool_call_success",
    }
}

/// The name under which `t` is stored.
pub fn path_type_label(t: PlanExpectedPathType) -> (r: &'static str)
    ensures
        r@ == path_type_key(t),
{
    match t {
        PlanExpectedPathType::File => "file",
        PlanExpectedPathType::Directory => "directory",
        PlanExpectedPathType::Absent => "absent",
    }
}

/// The name under which `k` is stored.
pub fn evidence_kind_label(k: PlanEvidenceKind) -> (r: &'static str)
    ensures
        r@ == evidence_kind_key(k),
{
    match k {
        PlanEvidenceKind::File => "file",
        PlanEvidenceKind::Directory => "directory",
        PlanEvidenceKind::DirectoryTree => "directory_tree",
        PlanEvidenceKind::Git => "git",
    }
}



/// `e` with a text that is left out where it is empty.
pub open spec fn with_text(e: Seq<(Seq<char>, JsonView)>, key: Seq<char>, v: Seq<char>) -> Seq<
    (Seq<char>, JsonView),
> {
    if v.len() == 0 {
        e
    } else {
        with_entry(e, key, JsonView::Text(v))
    }
}

/// `e` with a list of texts that is left out where it is empty.
pub open spec fn with_texts(
    e: Seq<(Seq<char>, JsonView)>,
    key: Seq<char>,
    v: Seq<Seq<char>>,
) -> Seq<(Seq<char>, JsonView)> {
    if v.len() == 0 {
        e
    } else {
        with_entry(e, key, texts_json(v))
    }
}

/// `e` with a value that is left out where there is none.
pub open spec fn with_value(
    e: Seq<(Seq<char>, JsonView)>,
    key: Seq<char>,
    v: Option<JsonView>,
) -> Seq<(Seq<char>, JsonView)> {
    match v {
        Some(j) => with_entry(e, key, j),
        None => e,
    }
}

/// `e` with a list that is left out where it is empty.
pub open spec fn with_items(
    e: Seq<(Seq<char>, JsonView)>,
    key: Seq<char>,
    v: Seq<JsonView>,
) -> Seq<(Seq<char>, JsonView)> {
    if v.len() == 0 {
        e
    } else {
        with_entry(e, key, JsonView::Array(v))
    }
}

/// The JSON string of an optional text.
pub open spec fn text_value(t: Option<Seq<char>>) -> Option<JsonView> {
    match t {
        Some(s) => Some(JsonView::Text(s)),
        None => None,
    }
}

fn put_text(o: &mut Obj, key: &str, v: &str)
    ensures
        final(o)@ == with_text(old(o)@, key@, v@),
{
    if !v.is_empty() {
        o.set_text(key, v);
    }
}

fn put_texts(o: &mut Obj, key: &str, v: &Vec<String>)
    ensures
        final(o)@ == with_texts(old(o)@, key@, texts(v@)),
{
    if v.len() > 0 {
        o.set(key, text_array(v));
    }
}

fn put_opt_text(o: &mut Obj, key: &str, v: &Option<String>)
    ensures
        final(o)@ == with_value(old(o)@, key@, text_value(opt_text(*v))),
{
    if let Some(s) = v {
        o.set_text(key, s.as_str());
    }
}

fn put_items(o: &mut Obj, key: &str, v: Vec<Json>)
    ensures
        final(o)@ == with_items(old(o)@, key@, items_view(v@)),
{
    if v.len() > 0 {
        proof {
            lemma_array_view(v);
        }
        o.set(key, Json::Array(v));
    }
}

/// A step as JSON.
pub open spec fn step_json(s: StepView) -> JsonView {
    let e = with_entry(no_entries(), "id"@, JsonView::Text(s.id));
    let e = with_entry(e, "title"@, JsonView::Text(s.title));
    let e = with_text(e, "description"@, s.description);
    JsonView::Object(with_texts(e, "affected_areas"@, s.affected_areas))
}

fn encode_step(s: &PlanStep) -> (r: Json)
    ensures
        r@ == step_json(s@),
{
    let mut o = Obj::new();
    o.set_text("id", s.id.as_str());
    o.set_text("title", s.title.as_str());
    put_text(&mut o, "description", s.description.as_str());
    put_texts(&mut o, "affected_areas", &s.affected_areas);
    o.done()
}

/// A reference to a clause as JSON.
pub open spec fn clause_json(c: PlanContractClauseRef) -> JsonView {
    let e = with_entry(no_entries(), "section"@, JsonView::Text(section_key(c.section)));
    JsonView::Object(with_entry(e, "index"@, JsonView::Unsigned(c.index as u64)))
}

fn encode_clause(c: PlanContractClauseRef) -> (r: Json)
    ensures
        r@ == clause_json(c),
{
    let mut o = Obj::new();
    o.set_text("section", section_label(c.section));
    o.set_number("index", c.index as u64);
    o.done()
}

/// A completion check as JSON.
pub open spec fn check_json(c: CheckView) -> JsonView {
    let e = with_entry(no_entries(), "id"@, JsonView::Text(c.id));
    let e = with_entry(e, "step_id"@, JsonView::Text(c.step_id));
    let e = with_entry(
        e,
        "covers"@,
        JsonView::Array(c.covers.map_values(|r: PlanContractClauseRef| clause_json(r))),
    );
    let e = with_entry(e, "kind"@, JsonView::Text(check_kind_key(c.kind)));
    let e = with_value(e, "path"@, text_value(c.path));
    let e = with_value(
        e,
        "expected_path_type"@,
        match c.expected_path_type {
            Some(t) => Some(JsonView::Text(path_type_key(t))),
            None => None,
        },
    );
    let e = with_value(e, "exact_content"@, text_value(c.exact_content));
    let e = with_value(
        e,
        "size_bytes"@,
        match c.size_bytes {
            Some(n) => Some(JsonView::Unsigned(n)),
            None => None,
        },
    );
    let e = with_value(e, "sha256"@, text_value(c.sha256));
    let e = with_value(
        e,
        "evidence_kind"@,
        match c.evidence_kind {
            Some(k) => Some(JsonView::Text(evidence_kind_key(k))),
            None => None,
        },
    );
    let e = with_texts(e, "required_step_ids"@, c.required_step_ids);
    let e = with_value(e, "tool_name"@, text_value(c.tool_name));
    JsonView::Object(with_value(e, "arguments"@, c.arguments))
}

fn encode_check(c: &PlanCompletionCheck) -> (r: Json)
    ensures
        r@ == check_json(c@),
{
    let mut covers: Vec<Json> = Vec::new();
    let mut i: usize = 0;
    while i < c.covers.len()
        invariant
            i <= c.covers@.len(),
            covers@.len() == i,
            forall|j: int|
                0 <= j < i ==> json_view(#[trigger] covers@[j]) == clause_json(c.covers@[j]),
        decreases c.covers@.len() - i,
    {
        covers.push(encode_clause(c.covers[i]));
        i = i + 1;
    }
    assert(items_view(covers@) =~= c@.covers.map_values(
        |r: PlanContractClauseRef| clause_json(r),
    ));
    proof {
        lemma_array_view(covers);
    }
    let mut o = Obj::new();
    o.set_text("id", c.id.as_str());
    o.set_text("step_id", c.step_id.as_str());
    o.set("covers", Json::Array(covers));
    o.set_text("kind", check_kind_label(c.kind));
    put_opt_text(&mut o, "path", &c.path);
    if let Some(t) = c.expected_path_type {
        o.set_text("expected_path_type", path_type_label(t));
    }
    put_opt_text(&mut o, "exact_content", &c.exact_content);
    if let Some(n) = c.size_bytes {
        o.set_number("size_bytes", n);
    }
    put_opt_text(&mut o, "sha256", &c.sha256);
    if let Some(k) = c.evidence_kind {
        o.set_text("evidence_kind", evidence_kind_label(k));
    }
    put_texts(&mut o, "required_step_ids", &c.required_step_ids);
    put_opt_text(&mut o, "tool_name", &c.tool_name);
    if let Some(j) = &c.arguments {
        o.set("arguments", j.copy());
    }
    o.done()
}

/// An offered answer as JSON.
pub open spec fn option_json(o: OptionView) -> JsonView {
    let e = with_entry(no_entries(), "id"@, JsonView::Text(o.id));
    let e = with_entry(e, "label"@, JsonView::Text(o.label));
    JsonView::Object(with_text(e, "description"@, o.description))
}

fn encode_option(o: &PlanQuestionOption) -> (r: Json)
    ensures
        r@ == option_json(o@),
{
    let mut b = Obj::new();
    b.set_text("id", o.id.as_str());
    b.set_text("label", o.label.as_str());
    put_text(&mut b, "description", o.description.as_str());
    b.done()
}

/// A question as JSON.
pub open spec fn question_json(q: QuestionView) -> JsonView {
    let e = with_entry(no_entries(), "id"@, JsonView::Text(q.id));
    let e = with_entry(e, "prompt"@, JsonView::Text(q.prompt));
    JsonView::Object(
        with_items(e, "options"@, q.options.map_values(|o: OptionView| option_json(o))),
    )
}

fn encode_question(q: &PlanQuestion) -> (r: Json)
    ensures
        r@ == question_json(q@),
{
    let mut options: Vec<Json> = Vec::new();
    let mut i: usize = 0;
    while i < q.options.len()
        invariant
            i <= q.options@.len(),
            options@.len() == i,
            forall|j: int|
                0 <= j < i ==> json_view(#[trigger] options@[j]) == option_json(q.options@[j]@),
        decreases q.options@.len() - i,
    {
        options.push(encode_option(&q.options[i]));
        i = i + 1;
    }
    assert(items_view(options@) =~= q@.options.map_values(|o: OptionView| option_json(o)));
    let mut b = Obj::new();
    b.set_text("id", q.id.as_str());
    b.set_text("prompt", q.prompt.as_str());
    put_items(&mut b, "options", options);
    b.done()
}

/// An artifact as JSON, without the fields that are empty.
pub open spec fn artifact_json(a: ArtifactView) -> JsonView {
    let e = with_entry(no_entries(), "schema_version"@, JsonView::Unsigned(a.schema_version as u64));
    let e = with_entry(e, "title"@, JsonView::Text(a.title));
    let e = with_entry(e, "goal"@, JsonView::Text(a.goal));
    let e = with_text(e, "summary"@, a.summary);
    let e = with_items(e, "steps"@, a.steps.map_values(|s: StepView| step_json(s)));
    let e = with_texts(e, "assumptions"@, a.assumptions);
    let e = with_texts(e, "risks"@, a.risks);
    let e = with_texts(e, "verification"@, a.verification);
    let e = with_texts(e, "acceptance_criteria"@, a.acceptance_criteria);
    let e = with_items(
        e,
        "completion_checks"@,
        a.completion_checks.map_values(|c: CheckView| check_json(c)),
    );
    let e = with_items(e, "questions"@, a.questions.map_values(|q: QuestionView| question_json(q)));
    JsonView::Object(with_value(e, "legacy_markdown"@, text_value(a.legacy_markdown)))
}

/// The artifact as JSON.
pub fn encode_artifact(a: &PlanArtifact) -> (r: Json)
    ensures
        r@ == artifact_json(a@),
{
    let mut steps: Vec<Json> = Vec::new();
    let mut i: usize = 0;
    while i < a.steps.len()
        invariant
            i <= a.steps@.len(),
            steps@.len() == i,
            forall|j: int|
                0 <= j < i ==> json_view(#[trigger] steps@[j]) == step_json(a.steps@[j]@),
        decreases a.steps@.len() - i,
    {
        steps.push(encode_step(&a.steps[i]));
        i = i + 1;
    }
    assert(items_view(steps@) =~= a@.steps.map_values(|s: StepView| step_json(s)));
    let mut checks: Vec<Json> = Vec::new();
    let mut k: usize = 0;
    while k < a.completion_checks.len()
        invariant
            k <= a.completion_checks@.len(),
            checks@.len() == k,
            forall|j: int|
                0 <= j < k ==> json_view(#[trigger] checks@[j]) == check_json(
                    a.completion_checks@[j]@,
                ),
        decreases a.completion_checks@.len() - k,
    {
        checks.push(encode_check(&a.completion_checks[k]));
        k = k + 1;
    }
    assert(items_view(checks@) =~= a@.completion_checks.map_values(|c: CheckView| check_json(c)));
    let mut questions: Vec<Json> = Vec::new();
    let mut q: usize = 0;
    while q < a.questions.len()
        invariant
            q <= a.questions@.len(),
            questions@.len() == q,
            forall|j: int|
                0 <= j < q ==> json_view(#[trigger] questions@[j]) == question_json(
                    a.questions@[j]@,
                ),
        decreases a.questions@.len() - q,
    {
        questions.push(encode_question(&a.questions[q]));
        q = q + 1;
    }
    assert(items_view(questions@) =~= a@.questions.map_values(
        |x: QuestionView| question_json(x),
    ));
    let mut o = Obj::new();
    o.set_number("schema_version", a.schema_version as u64);
    o.set_text("title", a.title.as_str());
    o.set_text("goal", a.goal.as_str());
    put_text(&mut o, "summary", a.summary.as_str());
    put_items(&mut o, "steps", steps);
    put_texts(&mut o, "assumptions", &a.assumptions);
    put_texts(&mut o, "risks", &a.risks);
    put_texts(&mut o, "verification", &a.verification);
    put_texts(&mut o, "acceptance_criteria", &a.acceptance_criteria);
    put_items(&mut o, "completion_checks", checks);
    put_items(&mut o, "questions", questions);
    put_opt_text(&mut o, "legacy_markdown", &a.legacy_markdown);
    o.done()
}

/// The number of bytes that an artifact takes when it is stored.
pub open spec fn encoded_size(a: ArtifactView) -> nat {
    byte_len(json_compact(artifact_json(a)))
}

/// The number of bytes that the artifact takes when it is stored.
pub fn encoded_len(a: &PlanArtifact) -> (n: usize)
    ensures
        n == encoded_size(a@),
        is_bare(a@) ==> n <= 6 * (a@.title.len() + a@.goal.len()) + 260,
{
    proof {
        if is_bare(a@) {
            lemma_bare_limit(a@);
        }
    }
    byte_count(compact(&encode_artifact(a)).as_str())
}

/// The artifact holds a title and a goal and nothing else.
pub open spec fn is_bare(a: ArtifactView) -> bool {
    a.summary.len() == 0 && a.steps.len() == 0 && a.assumptions.len() == 0 && a.risks.len() == 0
        && a.verification.len() == 0 && a.acceptance_criteria.len() == 0
        && a.completion_checks.len() == 0 && a.questions.len() == 0 && a.legacy_markdown is None
}

proof fn lemma_bare_limit(a: ArtifactView)
    requires
        is_bare(a),
    ensures
        artifact_json(a) is Object,
        all_flat(artifact_json(a)->Object_0),
        flat_limit(artifact_json(a)->Object_0) <= 6 * (a.title.len() + a.goal.len()) + 260,
{
    reveal_strlit("schema_version");
    reveal_strlit("title");
    reveal_strlit("goal");
    let version = JsonView::Unsigned(a.schema_version as u64);
    let e0 = no_entries();
    let e1 = with_entry(e0, "schema_version"@, version);
    let e2 = with_entry(e1, "title"@, JsonView::Text(a.title));
    let e3 = with_entry(e2, "goal"@, JsonView::Text(a.goal));
    lemma_flat_entry(e0, "schema_version"@, version);
    lemma_flat_entry(e1, "title"@, JsonView::Text(a.title));
    lemma_flat_entry(e2, "goal"@, JsonView::Text(a.goal));
    assert(artifact_json(a) == JsonView::Object(e3));
}

} // verus!
