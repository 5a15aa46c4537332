//! The tools through which a model submits plans and reports progress.

use crate::chat::Provider;
use crate::json::{
    Json, JsonView, Obj, entries_view, items_view, json_view, lemma_array_view,
    lemma_object_view, no_entries, text_array, texts_json, with_entry,
};
use crate::plan::model::{
    MAX_PLAN_COMPLETION_CHECKS, MAX_PLAN_COMPLETION_EXACT_CONTENT_BYTES, MAX_PLAN_QUESTIONS,
    MAX_PLAN_STEPS,
};
use crate::text::{owned, same, texts};
use vstd::prelude::*;
use vstd::string::*;

verus! {

/// An entry for a limit that is left out where there is none.
pub open spec fn with_limit(
    e: Seq<(Seq<char>, JsonView)>,
    key: Seq<char>,
    n: Option<u64>,
) -> Seq<(Seq<char>, JsonView)> {
    match n {
        Some(v) => with_entry(e, key, JsonView::Unsigned(v)),
        None => e,
    }
}

fn set_limit(o: &mut Obj, key: &str, n: Option<u64>)
    ensures
        final(o)@ == with_limit(old(o)@, key@, n),
{
    if let Some(v) = n {
        o.set_number(key, v);
    }
}

/// A string of limited length.
pub open spec fn string_schema(min: Option<u64>, max: Option<u64>) -> JsonView {
    let e = with_entry(no_entries(), "type"@, JsonView::Text("string"@));
    JsonView::Object(with_limit(with_limit(e, "minLength"@, min), "maxLength"@, max))
}

fn string_of(min: Option<u64>, max: Option<u64>) -> (r: Json)
    ensures
        r@ == string_schema(min, max),
{
    let mut o = Obj::new();
    o.set_text("type", "string");
    set_limit(&mut o, "minLength", min);
    set_limit(&mut o, "maxLength", max);
    o.done()
}

/// One of the given names.
pub open spec fn enum_schema(names: Seq<Seq<char>>) -> JsonView {
    let e = with_entry(no_entries(), "type"@, JsonView::Text("string"@));
    JsonView::Object(with_entry(e, "enum"@, texts_json(names)))
}

fn enum_of(names: &Vec<String>) -> (r: Json)
    ensures
        r@ == enum_schema(texts(names@)),
{
    let mut o = Obj::new();
    o.set_text("type", "string");
    o.set("enum", text_array(names));
    o.done()
}

/// An integer within limits.
pub open spec fn integer_schema(min: Option<u64>, max: Option<u64>) -> JsonView {
    let e = with_entry(no_entries(), "type"@, JsonView::Text("integer"@));
    JsonView::Object(with_limit(with_limit(e, "minimum"@, min), "maximum"@, max))
}

fn integer_of(min: Option<u64>, max: Option<u64>) -> (r: Json)
    ensures
        r@ == integer_schema(min, max),
{
    let mut o = Obj::new();
    o.set_text("type", "integer");
    set_limit(&mut o, "minimum", min);
    set_limit(&mut o, "maximum", max);
    o.done()
}

/// The entries of a list of items.
pub open spec fn array_entries(min: Option<u64>, max: u64, items: JsonView) -> Seq<
    (Seq<char>, JsonView),
> {
    let e = with_entry(no_entries(), "type"@, JsonView::Text("array"@));
    let e = with_limit(e, "minItems"@, min);
    let e = with_entry(e, "maxItems"@, JsonView::Unsigned(max));
    with_entry(e, "items"@, items)
}

fn array_obj(min: Option<u64>, max: u64, items: Json) -> (r: Obj)
    ensures
        r@ == array_entries(min, max, items@),
{
    let mut o = Obj::new();
    o.set_text("type", "array");
    set_limit(&mut o, "minItems", min);
    o.set_number("maxItems", max);
    o.set("items", items);
    o
}

/// A list of items.
pub open spec fn array_schema(min: Option<u64>, max: u64, items: JsonView) -> JsonView {
    JsonView::Object(array_entries(min, max, items))
}

fn array_of(min: Option<u64>, max: u64, items: Json) -> (r: Json)
    ensures
        r@ == array_schema(min, max, items@),
{
    array_obj(min, max, items).done()
}

/// A list of texts that are not empty.
pub open spec fn string_array_json(max_items: nat, max_length: nat) -> JsonView {
    array_schema(
        None,
        max_items as u64,
        string_schema(Some(1), Some(max_length as u64)),
    )
}

/// A list of texts that are not empty.
pub fn string_array_schema(max_items: usize, max_length: usize) -> (r: Json)
    ensures
        r@ == string_array_json(max_items as nat, max_length as nat),
{
    array_of(None, max_items as u64, string_of(Some(1), Some(max_length as u64)))
}

/// An object with the given properties and no others.
pub open spec fn closed_object(
    properties: Seq<(Seq<char>, JsonView)>,
    required: Seq<Seq<char>>,
) -> JsonView {
    let e = with_entry(no_entries(), "type"@, JsonView::Text("object"@));
    let e = with_entry(e, "properties"@, JsonView::Object(properties));
    let e = with_entry(e, "required"@, texts_json(required));
    JsonView::Object(with_entry(e, "additionalProperties"@, JsonView::Bool(false)))
}

fn closed_object_of(properties: Obj, required: &Vec<String>) -> (r: Json)
    ensures
        r@ == closed_object(properties@, texts(required@)),
{
    let mut o = Obj::new();
    o.set_text("type", "object");
    o.set("properties", properties.done());
    o.set("required", text_array(required));
    o.set_bool("additionalProperties", false);
    o.done()
}

fn names1(a: &str) -> (r: Vec<String>)
    ensures
        texts(r@) == seq![a@],
{
    let mut v: Vec<String> = Vec::new();
    v.push(owned(a));
    assert(texts(v@) =~= seq![a@]);
    v
}

fn names2(a: &str, b: &str) -> (r: Vec<String>)
    ensures
        texts(r@) == seq![a@, b@],
{
    let mut v = names1(a);
    let ghost start = texts(v@);
    v.push(owned(b));
    assert(texts(v@) =~= start.push(b@));
    assert(texts(v@) =~= seq![a@, b@]);
    v
}

fn names3(a: &str, b: &str, c: &str) -> (r: Vec<String>)
    ensures
        texts(r@) == seq![a@, b@, c@],
{
    let mut v = names2(a, b);
    let ghost start = texts(v@);
    v.push(owned(c));
    assert(texts(v@) =~= start.push(c@));
    assert(texts(v@) =~= seq![a@, b@, c@]);
    v
}

fn names4(a: &str, b: &str, c: &str, d: &str) -> (r: Vec<String>)
    ensures
        texts(r@) == seq![a@, b@, c@, d@],
{
    let mut v = names3(a, b, c);
    let ghost start = texts(v@);
    v.push(owned(d));
    assert(texts(v@) =~= start.push(d@));
    assert(texts(v@) =~= seq![a@, b@, c@, d@]);
    v
}

fn names5(a: &str, b: &str, c: &str, d: &str, e: &str) -> (r: Vec<String>)
    ensures
        texts(r@) == seq![a@, b@, c@, d@, e@],
{
    let mut v = names4(a, b, c, d);
    let ghost start = texts(v@);
    v.push(owned(e));
    assert(texts(v@) =~= start.push(e@));
    assert(texts(v@) =~= seq![a@, b@, c@, d@, e@]);
    v
}

/// An identifier.
pub open spec fn id_schema() -> JsonView {
    string_schema(Some(1), Some(80))
}

/// A step of a submitted plan.
pub open spec fn step_schema() -> JsonView {
    let p = with_entry(no_entries(), "id"@, id_schema());
    let p = with_entry(p, "title"@, string_schema(Some(1), Some(240)));
    let p = with_entry(p, "description"@, string_schema(None, Some(4000)));
    let p = with_entry(
        p,
        "affected_areas"@,
        array_schema(None, 12, string_schema(None, Some(512))),
    );
    closed_object(p, seq!["id"@, "title"@])
}

fn step_of() -> (r: Json)
    ensures
        r@ == step_schema(),
{
    let mut p = Obj::new();
    p.set("id", string_of(Some(1), Some(80)));
    p.set("title", string_of(Some(1), Some(240)));
    p.set("description", string_of(None, Some(4000)));
    p.set("affected_areas", array_of(None, 12, string_of(None, Some(512))));
    closed_object_of(p, &names2("id", "title"))
}

/// A reference to an item of the contract.
pub open spec fn clause_schema() -> JsonView {
    let p = with_entry(
        no_entries(),
        "section"@,
        enum_schema(seq!["verification"@, "acceptance_criteria"@]),
    );
    let p = with_entry(p, "index"@, integer_schema(Some(0), Some(11)));
    closed_object(p, seq!["section"@, "index"@])
}

fn clause_of() -> (r: Json)
    ensures
        r@ == clause_schema(),
{
    let mut p = Obj::new();
    p.set("section", enum_of(&names2("verification", "acceptance_criteria")));
    p.set("index", integer_of(Some(0), Some(11)));
    closed_object_of(p, &names2("section", "index"))
}

/// Any object.
pub open spec fn any_object() -> JsonView {
    JsonView::Object(with_entry(no_entries(), "type"@, JsonView::Text("object"@)))
}

/// A completion check.
pub open spec fn check_schema() -> JsonView {
    let p = with_entry(no_entries(), "id"@, id_schema());
    let p = with_entry(p, "step_id"@, id_schema());
    let p = with_entry(p, "covers"@, array_schema(Some(1), 24, clause_schema()));
    let p = with_entry(
        p,
        "kind"@,
        enum_schema(
            seq![
                "workspace_path"@,
                "approved_evidence_unchanged"@,
                "plan_progress"@,
                "tool_call_success"@,
            ],
        ),
    );
    let p = with_entry(p, "path"@, string_schema(Some(1), Some(4096)));
    let p = with_entry(
        p,
        "expected_path_type"@,
        enum_schema(seq!["file"@, "directory"@, "absent"@]),
    );
    let p = with_entry(
        p,
        "exact_content"@,
        string_schema(None, Some(MAX_PLAN_COMPLETION_EXACT_CONTENT_BYTES as u64)),
    );
    let p = with_entry(p, "size_bytes"@, integer_schema(Some(0), None));
    let p = with_entry(p, "sha256"@, string_schema(Some(64), Some(64)));
    let p = with_entry(p, "evidence_kind"@, enum_schema(seq!["file"@, "directory"@]));
    let p = with_entry(
        p,
        "required_step_ids"@,
        array_schema(None, MAX_PLAN_STEPS as u64, id_schema()),
    );
    let p = with_entry(p, "tool_name"@, string_schema(Some(1), Some(256)));
    let p = with_entry(p, "arguments"@, any_object());
    closed_object(p, seq!["id"@, "step_id"@, "covers"@, "kind"@])
}

fn check_of() -> (r: Json)
    ensures
        r@ == check_schema(),
{
    let mut any = Obj::new();
    any.set_text("type", "object");
    let mut p = Obj::new();
    p.set("id", string_of(Some(1), Some(80)));
    p.set("step_id", string_of(Some(1), Some(80)));
    p.set("covers", array_of(Some(1), 24, clause_of()));
    p.set(
        "kind",
        enum_of(
            &names4(
                "workspace_path",
                "approved_evidence_unchanged",
                "plan_progress",
                "tool_call_success",
            ),
        ),
    );
    p.set("path", string_of(Some(1), Some(4096)));
    p.set("expected_path_type", enum_of(&names3("file", "directory", "absent")));
    p.set(
        "exact_content",
        string_of(None, Some(MAX_PLAN_COMPLETION_EXACT_CONTENT_BYTES as u64)),
    );
    p.set("size_bytes", integer_of(Some(0), None));
    p.set("sha256", string_of(Some(64), Some(64)));
    p.set("evidence_kind", enum_of(&names2("file", "directory")));
    p.set(
        "required_step_ids",
        array_of(None, MAX_PLAN_STEPS as u64, string_of(Some(1), Some(80))),
    );
    p.set("tool_name", string_of(Some(1), Some(256)));
    p.set("arguments", any.done());
    closed_object_of(p, &names4("id", "step_id", "covers", "kind"))
}

/// A question with the answers it offers.
pub open spec fn question_schema() -> JsonView {
    let o = with_entry(no_entries(), "id"@, id_schema());
    let o = with_entry(o, "label"@, string_schema(Some(1), Some(240)));
    let o = with_entry(o, "description"@, string_schema(None, Some(1000)));
    let p = with_entry(no_entries(), "id"@, id_schema());
    let p = with_entry(p, "prompt"@, string_schema(Some(1), Some(1000)));
    let p = with_entry(
        p,
        "options"@,
        array_schema(Some(2), 4, closed_object(o, seq!["id"@, "label"@])),
    );
    closed_object(p, seq!["id"@, "prompt"@])
}

fn question_of() -> (r: Json)
    ensures
        r@ == question_schema(),
{
    let mut o = Obj::new();
    o.set("id", string_of(Some(1), Some(80)));
    o.set("label", string_of(Some(1), Some(240)));
    o.set("description", string_of(None, Some(1000)));
    let mut p = Obj::new();
    p.set("id", string_of(Some(1), Some(80)));
    p.set("prompt", string_of(Some(1), Some(1000)));
    p.set("options", array_of(Some(2), 4, closed_object_of(o, &names2("id", "label"))));
    closed_object_of(p, &names2("id", "prompt"))
}

/// What completion checks are for, as a model is told.
pub open spec fn checks_description() -> Seq<char> {
    "Server-verifiable checks for every zero-based verification and acceptance_criteria item. Checks are immutable with this revision and must bind to an original step. plan_progress may add a progress gate, but it does not provide contract-clause coverage; each covered clause also requires workspace_path, approved_evidence_unchanged, or tool_call_success."@
}

/// The parameters of the tool that submits a plan.
pub open spec fn submit_plan_json() -> JsonView {
    let p = with_entry(no_entries(), "state"@, enum_schema(seq!["needs_input"@, "ready"@]));
    let p = with_entry(p, "title"@, string_schema(Some(1), Some(160)));
    let p = with_entry(p, "goal"@, string_schema(Some(1), Some(2000)));
    let p = with_entry(p, "summary"@, string_schema(None, Some(4000)));
    let p = with_entry(p, "steps"@, array_schema(None, MAX_PLAN_STEPS as u64, step_schema()));
    let p = with_entry(p, "assumptions"@, string_array_json(12, 1000));
    let p = with_entry(p, "risks"@, string_array_json(12, 1000));
    let p = with_entry(p, "verification"@, string_array_json(12, 1000));
    let p = with_entry(p, "acceptance_criteria"@, string_array_json(12, 1000));
    let checks = with_entry(
        array_entries(None, MAX_PLAN_COMPLETION_CHECKS as u64, check_schema()),
        "description"@,
        JsonView::Text(checks_description()),
    );
    let p = with_entry(p, "completion_checks"@, JsonView::Object(checks));
    let p = with_entry(
        p,
        "questions"@,
        array_schema(None, MAX_PLAN_QUESTIONS as u64, question_schema()),
    );
    closed_object(p, seq!["state"@, "title"@, "goal"@, "steps"@])
}

/// The parameters of the tool that submits a plan.
pub fn submit_plan_tool_parameters() -> (r: Json)
    ensures
        r@ == submit_plan_json(),
{
    let mut p = Obj::new();
    p.set("state", enum_of(&names2("needs_input", "ready")));
    p.set("title", string_of(Some(1), Some(160)));
    p.set("goal", string_of(Some(1), Some(2000)));
    p.set("summary", string_of(None, Some(4000)));
    p.set("steps", array_of(None, MAX_PLAN_STEPS as u64, step_of()));
    p.set("assumptions", string_array_schema(12, 1000));
    p.set("risks", string_array_schema(12, 1000));
    p.set("verification", string_array_schema(12, 1000));
    p.set("acceptance_criteria", string_array_schema(12, 1000));
    let mut checks = array_obj(None, MAX_PLAN_COMPLETION_CHECKS as u64, check_of());
    checks.set_text(
        "description",
        "Server-verifiable checks for every zero-based verification and acceptance_criteria item. Checks are immutable with this revision and must bind to an original step. plan_progress may add a progress gate, but it does not provide contract-clause coverage; each covered clause also requires workspace_path, approved_evidence_unchanged, or tool_call_success.",
    );
    p.set("completion_checks", checks.done());
    p.set("questions", array_of(None, MAX_PLAN_QUESTIONS as u64, question_of()));
    closed_object_of(p, &names4("state", "title", "goal", "steps"))
}

/// The parameters of the tool that reports progress.
pub open spec fn update_plan_json() -> JsonView {
    let u = with_entry(no_entries(), "id"@, id_schema());
    let u = with_entry(
        u,
        "status"@,
        enum_schema(
            seq!["pending"@, "in_progress"@, "completed"@, "blocked"@, "skipped"@],
        ),
    );
    let u = with_entry(u, "note"@, string_schema(None, Some(2000)));
    let a = with_entry(no_entries(), "id"@, id_schema());
    let a = with_entry(a, "title"@, string_schema(Some(1), Some(240)));
    let a = with_entry(a, "note"@, string_schema(None, Some(2000)));
    let a = with_entry(a, "deviation_reason"@, string_schema(Some(1), Some(2000)));
    let p = with_entry(no_entries(), "base_revision"@, integer_schema(Some(1), None));
    let p = with_entry(
        p,
        "updates"@,
        array_schema(None, MAX_PLAN_STEPS as u64, closed_object(u, seq!["id"@, "status"@])),
    );
    let p = with_entry(
        p,
        "append_steps"@,
        array_schema(
            None,
            MAX_PLAN_STEPS as u64,
            closed_object(a, seq!["id"@, "title"@, "deviation_reason"@]),
        ),
    );
    closed_object(p, seq!["base_revision"@])
}

/// The parameters of the tool that reports progress.
pub fn update_plan_tool_parameters() -> (r: Json)
    ensures
        r@ == update_plan_json(),
{
    let mut u = Obj::new();
    u.set("id", string_of(Some(1), Some(80)));
    u.set(
        "status",
        enum_of(&names5("pending", "in_progress", "completed", "blocked", "skipped")),
    );
    u.set("note", string_of(None, Some(2000)));
    let mut a = Obj::new();
    a.set("id", string_of(Some(1), Some(80)));
    a.set("title", string_of(Some(1), Some(240)));
    a.set("note", string_of(None, Some(2000)));
    a.set("deviation_reason", string_of(Some(1), Some(2000)));
    let mut p = Obj::new();
    p.set("base_revision", integer_of(Some(1), None));
    p.set(
        "updates",
        array_of(None, MAX_PLAN_STEPS as u64, closed_object_of(u, &names2("id", "status"))),
    );
    p.set(
        "append_steps",
        array_of(
            None,
            MAX_PLAN_STEPS as u64,
            closed_object_of(a, &names3("id", "title", "deviation_reason")),
        ),
    );
    closed_object_of(p, &names1("base_revision"))
}

// ---------------------------------------------------------------------------
// Tool definitions
// ---------------------------------------------------------------------------

/// A schema without the keyword that Gemini does not know, at every level.
pub open spec fn gemini_schema(v: JsonView) -> JsonView
    decreases v,
{
    match v {
        JsonView::Array(items) => JsonView::Array(gemini_items(items, items.len() as int)),
        JsonView::Object(entries) => JsonView::Object(gemini_entries(entries, entries.len() as int)),
        _ => v,
    }
}

/// The first `n` items of a list without the keyword that Gemini does not know.
pub open spec fn gemini_items(items: Seq<JsonView>, n: int) -> Seq<JsonView>
    decreases items, n,
{
    if n <= 0 || n > items.len() {
        Seq::empty()
    } else {
        gemini_items(items, n - 1).push(gemini_schema(items[n - 1]))
    }
}

/// The first `n` entries of a schema without the keyword that Gemini does not
/// know.
pub open spec fn gemini_entries(entries: Seq<(Seq<char>, JsonView)>, n: int) -> Seq<
    (Seq<char>, JsonView),
>
    decreases entries, n,
{
    if n <= 0 || n > entries.len() {
        Seq::empty()
    } else if entries[n - 1].0 == "additionalProperties"@ {
        gemini_entries(entries, n - 1)
    } else {
        gemini_entries(entries, n - 1).push((entries[n - 1].0, gemini_schema(entries[n - 1].1)))
    }
}

/// The parameters of a tool in the form that Gemini accepts.
pub fn gemini_tool_parameters(parameters: &Json) -> (r: Json)
    ensures
        r@ == gemini_schema(parameters@),
    decreases parameters,
{
    match parameters {
        Json::Array(v) => {
            let mut out: Vec<Json> = Vec::new();
            let mut i: usize = 0;
            assert(items_view(out@) =~= gemini_items(items_view(v@), 0));
            while i < v.len()
                invariant
                    i <= v@.len(),
                    *parameters is Array,
                    parameters->Array_0 == *v,
                    items_view(out@) == gemini_items(items_view(v@), i as int),
                decreases v@.len() - i,
            {
                let ghost before = items_view(out@);
                assert(items_view(v@)[i as int] == json_view(v@[i as int]));
                let item = gemini_tool_parameters(&v[i]);
                let ghost view = json_view(item);
                out.push(item);
                assert(items_view(out@) =~= before.push(view));
                i = i + 1;
            }
            proof {
                lemma_array_view(out);
                lemma_array_view(*v);
            }
            Json::Array(out)
        },
        Json::Object(v) => {
            let mut out: Vec<(String, Json)> = Vec::new();
            let mut i: usize = 0;
            assert(entries_view(out@) =~= gemini_entries(entries_view(v@), 0));
            while i < v.len()
                invariant
                    i <= v@.len(),
                    *parameters is Object,
                    parameters->Object_0 == *v,
                    entries_view(out@) == gemini_entries(entries_view(v@), i as int),
                decreases v@.len() - i,
            {
                assert(entries_view(v@)[i as int] == (v@[i as int].0@, json_view(v@[i as int].1)));
                if !same(v[i].0.as_str(), "additionalProperties") {
                    let ghost before = entries_view(out@);
                    let value = gemini_tool_parameters(&v[i].1);
                    let ghost view = (v@[i as int].0@, json_view(value));
                    out.push((v[i].0.clone(), value));
                    assert(entries_view(out@) =~= before.push(view));
                }
                i = i + 1;
            }
            proof {
                lemma_object_view(out);
                lemma_object_view(*v);
            }
            Json::Object(out)
        },
        _ => parameters.copy(),
    }
}

/// A tool as a provider is told of it.
pub open spec fn tool_definition_json(
    provider: Provider,
    name: Seq<char>,
    description: Seq<char>,
    parameters: JsonView,
) -> JsonView {
    let e = with_entry(no_entries(), "name"@, JsonView::Text(name));
    let e = with_entry(e, "description"@, JsonView::Text(description));
    match provider {
        Provider::Anthropic => JsonView::Object(with_entry(e, "input_schema"@, parameters)),
        Provider::Gemini => JsonView::Object(
            with_entry(e, "parameters"@, gemini_schema(parameters)),
        ),
        _ => {
            let f = with_entry(no_entries(), "type"@, JsonView::Text("function"@));
            JsonView::Object(
                with_entry(
                    f,
                    "function"@,
                    JsonView::Object(with_entry(e, "parameters"@, parameters)),
                ),
            )
        },
    }
}

/// A tool as a provider is told of it.
pub fn tool_definition(provider: Provider, name: &str, description: &str, parameters: Json) -> (r:
    Json)
    ensures
        r@ == tool_definition_json(provider, name@, description@, parameters@),
{
    let mut e = Obj::new();
    e.set_text("name", name);
    e.set_text("description", description);
    match provider {
        Provider::Anthropic => {
            e.set("input_schema", parameters);
            e.done()
        },
        Provider::Gemini => {
            e.set("parameters", gemini_tool_parameters(&parameters));
            e.done()
        },
        _ => {
            e.set("parameters", parameters);
            let mut f = Obj::new();
            f.set_text("type", "function");
            f.set("function", e.done());
            f.done()
        },
    }
}

/// `key` occurs nowhere in `v`.
pub open spec fn free_of_key(v: JsonView, key: Seq<char>) -> bool
    decreases v,
{
    match v {
        JsonView::Array(items) => forall|i: int|
            0 <= i < items.len() ==> free_of_key(#[trigger] items[i], key),
        JsonView::Object(entries) => forall|i: int|
            0 <= i < entries.len() ==> (#[trigger] entries[i]).0 != key && free_of_key(
                entries[i].1,
                key,
            ),
        _ => true,
    }
}

/// The form that Gemini accepts never holds the keyword that Gemini does not
/// know.
pub proof fn law_gemini_schema_compatible(v: JsonView)
    ensures
        free_of_key(gemini_schema(v), "additionalProperties"@),
    decreases v,
{
    match v {
        JsonView::Array(items) => {
            lemma_gemini_items(items, items.len() as int);
            assert(gemini_schema(v)->Array_0 == gemini_items(items, items.len() as int));
            assert(free_of_key(gemini_schema(v), "additionalProperties"@));
        },
        JsonView::Object(entries) => {
            lemma_gemini_entries(entries, entries.len() as int);
            let kept = gemini_entries(entries, entries.len() as int);
            reveal_with_fuel(free_of_key, 2);
            assert(gemini_schema(v) == JsonView::Object(kept));
            assert forall|i: int| 0 <= i < kept.len() implies (#[trigger] kept[i]).0
                != "additionalProperties"@ && free_of_key(kept[i].1, "additionalProperties"@) by {}
            assert(free_of_key(JsonView::Object(kept), "additionalProperties"@));
            assert(free_of_key(gemini_schema(v), "additionalProperties"@));
        },
        _ => {},
    }
}

proof fn lemma_gemini_items(items: Seq<JsonView>, n: int)
    requires
        n <= items.len(),
    ensures
        forall|i: int|
            0 <= i < gemini_items(items, n).len() ==> free_of_key(
                #[trigger] gemini_items(items, n)[i],
                "additionalProperties"@,
            ),
    decreases items, n,
{
    if n > 0 {
        lemma_gemini_items(items, n - 1);
        law_gemini_schema_compatible(items[n - 1]);
        let before = gemini_items(items, n - 1);
        let after = gemini_items(items, n);
        assert forall|i: int| 0 <= i < after.len() implies free_of_key(
            #[trigger] after[i],
            "additionalProperties"@,
        ) by {
            if i < before.len() {
                assert(after[i] == before[i]);
            }
        }
    }
}

proof fn lemma_gemini_entries(entries: Seq<(Seq<char>, JsonView)>, n: int)
    requires
        n <= entries.len(),
    ensures
        forall|i: int|
            0 <= i < gemini_entries(entries, n).len() ==> (#[trigger] gemini_entries(
                entries,
                n,
            )[i]).0 != "additionalProperties"@ && free_of_key(
                gemini_entries(entries, n)[i].1,
                "additionalProperties"@,
            ),
    decreases entries, n,
{
    if n > 0 {
        lemma_gemini_entries(entries, n - 1);
        law_gemini_schema_compatible(entries[n - 1].1);
        let before = gemini_entries(entries, n - 1);
        let after = gemini_entries(entries, n);
        assert forall|i: int| 0 <= i < after.len() implies (#[trigger] after[i]).0
            != "additionalProperties"@ && free_of_key(after[i].1, "additionalProperties"@) by {
            if i < before.len() {
                assert(after[i] == before[i]);
            }
        }
    }
}

} // verus!
