//! Plans: submissions, progress, completion and evidence.

use lingclaw::chat::Provider;
use lingclaw::json::{Json, JsonNumber};
use lingclaw::plan::accept::{
    initial_placeholder_artifact, legacy_artifact, validate_initial_placeholder,
    validate_legacy_artifact,
};
use lingclaw::plan::completion::{
    apply_completion_failures, evaluate_approved_evidence_check,
    evaluate_completion_contract_until, evaluate_workspace_path_check,
    hash_checked_evidence_directory, hash_checked_evidence_file, observation_fits,
    CheckObservation, CompletionCheckError, CompletionVerificationControl,
    EvidenceCheckObservation, EvidenceDirectoryObservation, EvidenceFileObservation,
    EvidenceObject, FileObservation, ListedEntry, OpenedFacts, PathObservation,
    PlanCompletionFailure, PlanCompletionReport, PlanCompletionVerificationError,
    ReadObservation,
};
use lingclaw::plan::encode::encoded_len;
use lingclaw::plan::capture::{try_capture_tool_evidence, CaptureObservation};
use lingclaw::plan::completion::matching_tool_completion_check_ids;
use lingclaw::plan::evidence::{merge_evidence, reconcile_tool_evidence, supports_tool_evidence};
use lingclaw::plan::fingerprint::{
    file_fingerprint, hash_directory_tree, hash_directory_tree_with_limits, plan_sample,
    sorted_directory_fingerprint, DirectoryEntry, EntryKind, FileFacts, FileRead, SamplePlan,
    TreeEntry,
};
use lingclaw::plan::snapshot::{
    verify_evidence, verify_evidence_until, EvidenceObservation, EvidenceVerificationError,
};
use lingclaw::plan::stored::validate_persisted_plan;
use lingclaw::plan::markdown::canonical_markdown;
use lingclaw::plan::model::{
    CapturedPlanEvidence, PendingPlan, PlanAppendedStep, PlanArtifact, PlanCompletionCheck, PlanCompletionCheckKind,
    PlanContractClauseRef, PlanContractSection, PlanEvidence, PlanEvidenceKind,
    PlanExpectedPathType, PlanProgressUpdate, PlanStatus, PlanStep, PlanStepStatus,
    PlanStepUpdate, PlanSubmission, PlanSubmissionState, MAX_EVIDENCE_HASH_FILE_BYTES, MAX_PLAN_BYTES,
    MAX_PLAN_COMPLETION_DIRECTORY_ENTRIES, MAX_PLAN_COMPLETION_FILE_BYTES, TOOL_NAME_SUBMIT_PLAN,
};
use lingclaw::plan::normalize::normalize_artifact;
use lingclaw::plan::progress::apply_progress_update;
use lingclaw::plan::rules::{normalize_contract_path, validate_completion_checks};
use lingclaw::plan::schema::{
    submit_plan_tool_parameters, tool_definition, update_plan_tool_parameters,
};
use lingclaw::plan::submit::{
    read_submission, validate_progress_json as accept_progress,
    validate_submission_json as accept_submission,
};

// ── reading ────────────────────────────────────────────────────────────────

fn entries(v: &Json) -> Result<&Vec<(String, Json)>, String> {
    match v {
        Json::Object(e) => Ok(e),
        _ => Err("invalid type: expected an object".into()),
    }
}

fn known(v: &Json, allowed: &[&str]) -> Result<(), String> {
    for (key, _) in entries(v)? {
        if !allowed.contains(&key.as_str()) {
            return Err(format!("unknown field `{key}`"));
        }
    }
    Ok(())
}

fn text(v: &Json, key: &str) -> Result<String, String> {
    match v.get(key) {
        Some(Json::Text(t)) => Ok(t.clone()),
        Some(_) => Err(format!("invalid type for `{key}`")),
        None => Err(format!("missing field `{key}`")),
    }
}

fn text_or_default(v: &Json, key: &str) -> Result<String, String> {
    if v.get(key).is_none() {
        return Ok(String::new());
    }
    text(v, key)
}

fn opt_text(v: &Json, key: &str) -> Result<Option<String>, String> {
    match v.get(key) {
        None | Some(Json::Null) => Ok(None),
        Some(_) => text(v, key).map(Some),
    }
}

fn items<'a>(v: &'a Json, key: &str) -> Result<Vec<&'a Json>, String> {
    match v.get(key) {
        None => Ok(Vec::new()),
        Some(Json::Array(a)) => Ok(a.iter().collect()),
        Some(_) => Err(format!("invalid type for `{key}`")),
    }
}

fn texts(v: &Json, key: &str) -> Result<Vec<String>, String> {
    items(v, key)?
        .into_iter()
        .map(|item| match item {
            Json::Text(t) => Ok(t.clone()),
            _ => Err(format!("invalid type in `{key}`")),
        })
        .collect()
}

fn number(v: &Json, key: &str) -> Result<Option<u64>, String> {
    match v.get(key) {
        None | Some(Json::Null) => Ok(None),
        Some(Json::Number(JsonNumber::Unsigned(n))) => Ok(Some(*n)),
        Some(_) => Err(format!("invalid type for `{key}`")),
    }
}

fn check_of(v: &Json) -> Result<PlanCompletionCheck, String> {
    known(
        v,
        &[
            "id",
            "step_id",
            "covers",
            "kind",
            "path",
            "expected_path_type",
            "exact_content",
            "size_bytes",
            "sha256",
            "evidence_kind",
            "required_step_ids",
            "tool_name",
            "arguments",
        ],
    )?;
    let mut covers = Vec::new();
    for clause in items(v, "covers")? {
        known(clause, &["section", "index"])?;
        covers.push(PlanContractClauseRef {
            section: match text(clause, "section")?.as_str() {
                "verification" => PlanContractSection::Verification,
                "acceptance_criteria" => PlanContractSection::AcceptanceCriteria,
                other => return Err(format!("unknown variant `{other}`")),
            },
            index: number(clause, "index")?.ok_or("missing field `index`")? as usize,
        });
    }
    Ok(PlanCompletionCheck {
        id: text(v, "id")?,
        step_id: text(v, "step_id")?,
        covers,
        kind: match text(v, "kind")?.as_str() {
            "workspace_path" => PlanCompletionCheckKind::WorkspacePath,
            "approved_evidence_unchanged" => PlanCompletionCheckKind::ApprovedEvidenceUnchanged,
            "plan_progress" => PlanCompletionCheckKind::PlanProgress,
            "tool_call_success" => PlanCompletionCheckKind::ToolCallSuccess,
            other => return Err(format!("unknown variant `{other}`")),
        },
        path: opt_text(v, "path")?,
        expected_path_type: match opt_text(v, "expected_path_type")?.as_deref() {
            None => None,
            Some("file") => Some(PlanExpectedPathType::File),
            Some("directory") => Some(PlanExpectedPathType::Directory),
            Some("absent") => Some(PlanExpectedPathType::Absent),
            Some(other) => return Err(format!("unknown variant `{other}`")),
        },
        exact_content: opt_text(v, "exact_content")?,
        size_bytes: number(v, "size_bytes")?,
        sha256: opt_text(v, "sha256")?,
        evidence_kind: match opt_text(v, "evidence_kind")?.as_deref() {
            None => None,
            Some("file") => Some(PlanEvidenceKind::File),
            Some("directory") => Some(PlanEvidenceKind::Directory),
            Some("directory_tree") => Some(PlanEvidenceKind::DirectoryTree),
            Some("git") => Some(PlanEvidenceKind::Git),
            Some(other) => return Err(format!("unknown variant `{other}`")),
        },
        required_step_ids: texts(v, "required_step_ids")?,
        tool_name: opt_text(v, "tool_name")?,
        arguments: v.get("arguments").map(|a| a.copy()),
    })
}

fn artifact_of(v: &Json) -> Result<PlanArtifact, String> {
    known(
        v,
        &[
            "schema_version",
            "title",
            "goal",
            "summary",
            "steps",
            "assumptions",
            "risks",
            "verification",
            "acceptance_criteria",
            "completion_checks",
            "questions",
            "legacy_markdown",
        ],
    )?;
    let mut steps = Vec::new();
    for step in items(v, "steps")? {
        known(step, &["id", "title", "description", "affected_areas"])?;
        steps.push(PlanStep {
            id: text(step, "id")?,
            title: text(step, "title")?,
            description: text_or_default(step, "description")?,
            affected_areas: texts(step, "affected_areas")?,
        });
    }
    let mut completion_checks = Vec::new();
    for check in items(v, "completion_checks")? {
        completion_checks.push(check_of(check)?);
    }
    Ok(PlanArtifact {
        schema_version: number(v, "schema_version")?.unwrap_or(1) as u32,
        title: text(v, "title")?,
        goal: text(v, "goal")?,
        summary: text_or_default(v, "summary")?,
        steps,
        assumptions: texts(v, "assumptions")?,
        risks: texts(v, "risks")?,
        verification: texts(v, "verification")?,
        acceptance_criteria: texts(v, "acceptance_criteria")?,
        completion_checks,
        questions: Vec::new(),
        legacy_markdown: opt_text(v, "legacy_markdown")?,
    })
}

fn validate_submission_json(args: &str) -> Result<PlanSubmission, String> {
    let parsed = read_submission(args).and_then(|(state, rest)| {
        let state = match state.as_str() {
            Some("ready") => PlanSubmissionState::Ready,
            Some("needs_input") => PlanSubmissionState::NeedsInput,
            _ => return Err("invalid plan state".to_string()),
        };
        let artifact = artifact_of(&rest).map_err(|e| format!("invalid plan JSON: {e}"))?;
        Ok(PlanSubmission { state, artifact })
    });
    accept_submission(args, parsed, false)
}

fn status_of(v: &Json) -> Result<PlanStepStatus, String> {
    Ok(match text(v, "status")?.as_str() {
        "pending" => PlanStepStatus::Pending,
        "in_progress" => PlanStepStatus::InProgress,
        "completed" => PlanStepStatus::Completed,
        "blocked" => PlanStepStatus::Blocked,
        "skipped" => PlanStepStatus::Skipped,
        other => return Err(format!("unknown variant `{other}`")),
    })
}

fn json_of(value: &serde_json::Value) -> Json {
    match value {
        serde_json::Value::Null => Json::Null,
        serde_json::Value::Bool(b) => Json::Bool(*b),
        serde_json::Value::Number(n) => match n.as_u64() {
            Some(u) => Json::Number(JsonNumber::Unsigned(u)),
            None => Json::Number(JsonNumber::Float(n.to_string())),
        },
        serde_json::Value::String(s) => Json::Text(s.clone()),
        serde_json::Value::Array(a) => Json::Array(a.iter().map(json_of).collect()),
        serde_json::Value::Object(m) => {
            Json::Object(m.iter().map(|(k, v)| (k.clone(), json_of(v))).collect())
        }
    }
}

fn validate_progress_json(args: &str) -> Result<PlanProgressUpdate, String> {
    let parsed = serde_json::from_str::<serde_json::Value>(args)
        .map_err(|e| format!("invalid plan update JSON: {e}"))
        .and_then(|value| {
            let v = json_of(&value);
            known(&v, &["base_revision", "updates", "append_steps"])?;
            let mut updates = Vec::new();
            for u in items(&v, "updates")? {
                updates.push(PlanStepUpdate {
                    id: text(u, "id")?,
                    status: status_of(u)?,
                    note: text_or_default(u, "note")?,
                });
            }
            let mut append_steps = Vec::new();
            for s in items(&v, "append_steps")? {
                append_steps.push(PlanAppendedStep {
                    id: text(s, "id")?,
                    title: text(s, "title")?,
                    note: text_or_default(s, "note")?,
                    deviation_reason: text(s, "deviation_reason")?,
                });
            }
            Ok(PlanProgressUpdate {
                base_revision: number(&v, "base_revision")?.ok_or("missing field")? as u32,
                updates,
                append_steps,
            })
        });
    accept_progress(args, parsed)
}

// ── observing ──────────────────────────────────────────────────────────────

const GO: CompletionVerificationControl =
    CompletionVerificationControl { cancelled: false, expired: false };

fn file_facts(len: u64) -> OpenedFacts {
    OpenedFacts { len, is_file: true, is_dir: false, modified: Some(1) }
}

fn dir_facts() -> OpenedFacts {
    OpenedFacts { len: 0, is_file: false, is_dir: true, modified: Some(1) }
}

fn read(bytes: &[u8]) -> ReadObservation {
    ReadObservation { before: GO, bytes: Ok(bytes.to_vec()), after: GO }
}

fn file_seen(bytes: &[u8]) -> FileObservation {
    FileObservation {
        facts: file_facts(bytes.len() as u64),
        reads: vec![read(bytes), read(b"")],
        before_recheck: GO,
        recheck: Ok(file_facts(bytes.len() as u64)),
        reverified: Ok(()),
        at_end: GO,
    }
}

fn path_seen(opened: Result<Option<OpenedFacts>, String>, file: FileObservation) -> PathObservation {
    PathObservation {
        start: GO,
        resolved: Ok(()),
        after_resolve: GO,
        opened,
        after_open: GO,
        before_probe: GO,
        probe: Ok(false),
        reverified: Ok(()),
        at_end: GO,
        file,
    }
}

fn evaluate(
    plan: &PendingPlan,
    seen: Vec<CheckObservation>,
) -> PlanCompletionReport {
    let seen = seen.into_iter().map(|o| (GO, o)).collect();
    evaluate_completion_contract_until(plan, GO, &seen, GO, &Vec::new(), 0, false)
        .expect("the verification should not stop")
}

fn completion_workspace_check(
    path: &str,
    expected_path_type: PlanExpectedPathType,
) -> PlanCompletionCheck {
    PlanCompletionCheck {
        id: "secure-path".into(),
        step_id: "verify".into(),
        covers: vec![PlanContractClauseRef {
            section: PlanContractSection::AcceptanceCriteria,
            index: 0,
        }],
        kind: PlanCompletionCheckKind::WorkspacePath,
        path: Some(path.into()),
        expected_path_type: Some(expected_path_type),
        exact_content: None,
        size_bytes: None,
        sha256: None,
        evidence_kind: None,
        required_step_ids: Vec::new(),
        tool_name: None,
        arguments: None,
    }
}

fn ready_plan_json(extra: &str) -> String {
    format!(
        r#"{{
            "state":"ready",
            "title":"Implement the change",
            "goal":"Ship a verified implementation",
            "steps":[{{"id":"inspect","title":"Inspect the code"}}],
            "acceptance_criteria":["The workspace remains available for the approved inspection."],
            "completion_checks":[{{
                "id":"inspect-workspace",
                "step_id":"inspect",
                "covers":[{{"section":"acceptance_criteria","index":0}}],
                "kind":"workspace_path",
                "path":".",
                "expected_path_type":"directory"
            }}]
            {extra}
        }}"#
    )
}

// ── plans ──────────────────────────────────────────────────────────────────

#[test]
fn gemini_plan_tool_schema_uses_compatible_keywords() {
    let definition = tool_definition(
        Provider::Gemini,
        TOOL_NAME_SUBMIT_PLAN,
        "Submit a plan",
        submit_plan_tool_parameters(),
    );
    let parameters = definition.get("parameters").expect("parameters");

    assert!(parameters.get("additionalProperties").is_none());
    let properties = parameters.get("properties").expect("properties");
    assert!(properties
        .get("steps")
        .and_then(|s| s.get("items"))
        .expect("step items")
        .get("additionalProperties")
        .is_none());
    assert!(properties
        .get("questions")
        .and_then(|s| s.get("items"))
        .expect("question items")
        .get("additionalProperties")
        .is_none());
}

#[test]
fn submission_json_accepts_escaped_nested_strings_and_rejects_raw_escapes() {
    let encoded = r#"{
            "state": "ready",
            "title": "Write the result",
            "goal": "Create the requested artifact",
            "summary": "Keep nested string data intact",
            "steps": [{
                "id": "write-result",
                "title": "Write result.txt",
                "description": "Read C:\\workspace\\spec.txt\nThen write result.txt",
                "affected_areas": ["nested\\folder", "result.txt"]
            }],
            "verification": ["Line one\nLine two"],
            "acceptance_criteria": ["result.txt exists."],
            "completion_checks": [
                {
                    "id": "write-progress",
                    "step_id": "write-result",
                    "covers": [
                        {"section": "verification", "index": 0},
                        {"section": "acceptance_criteria", "index": 0}
                    ],
                    "kind": "plan_progress",
                    "required_step_ids": ["write-result"]
                },
                {
                    "id": "result-file",
                    "step_id": "write-result",
                    "covers": [
                        {"section": "verification", "index": 0},
                        {"section": "acceptance_criteria", "index": 0}
                    ],
                    "kind": "workspace_path",
                    "path": "result.txt",
                    "expected_path_type": "file"
                }
            ]
        }"#;

    let submission = validate_submission_json(encoded)
        .expect("JSON-escaped backslashes and newlines should validate");
    assert_eq!(
        submission.artifact.steps[0].description,
        "Read C:\\workspace\\spec.txt\nThen write result.txt"
    );
    assert_eq!(
        submission.artifact.steps[0].affected_areas[0],
        "nested\\folder"
    );

    let raw_windows_escape = r#"{"state":"ready","title":"Write","goal":"Write","steps":[{"id":"write","title":"Write","description":"Use \\?\E:\work\spec.txt"}]}"#;
    assert!(validate_submission_json(raw_windows_escape)
        .expect_err("an unescaped Windows path must remain invalid")
        .contains("invalid escape"));

    let raw_newline = "{\"state\":\"ready\",\"title\":\"Write\",\"goal\":\"Write\",\"steps\":[{\"id\":\"write\",\"title\":\"Write\",\"description\":\"line one\nline two\"}]}";
    assert!(validate_submission_json(raw_newline)
        .expect_err("a raw newline inside a JSON string must remain invalid")
        .contains("control character"));
}

#[test]
fn submission_validation_enforces_state_shape_and_unknown_fields() {
    let ready = validate_submission_json(&ready_plan_json(""))
        .expect("a minimal ready plan should validate");
    assert!(matches!(ready.state, PlanSubmissionState::Ready));
    assert_eq!(ready.artifact.steps[0].id, "inspect");

    let missing_questions = ready_plan_json("").replace("\"ready\"", "\"needs_input\"");
    assert!(validate_submission_json(&missing_questions)
        .expect_err("needs_input without questions must fail")
        .contains("blocking question"));
    assert!(
        validate_submission_json(&ready_plan_json(",\"unexpected\":true"))
            .expect_err("unknown fields must fail closed")
            .contains("unknown field")
    );
    assert!(
        validate_submission_json(&ready_plan_json(",\"schema_version\":999"))
            .expect_err("explicit unsupported schema versions must fail closed")
            .contains("unsupported plan artifact schema version 999")
    );
}

#[test]
fn completion_contract_rejects_missing_and_contradictory_acceptance_evidence() {
    let missing = r#"{
            "state": "ready",
            "title": "Verify both outcomes",
            "goal": "Produce a verified artifact",
            "steps": [{"id": "write", "title": "Write the artifact"}],
            "acceptance_criteria": ["result.txt exists", "result.txt has the approved bytes"],
            "completion_checks": [{
                "id": "result-exists",
                "step_id": "write",
                "covers": [{"section": "acceptance_criteria", "index": 0}],
                "kind": "workspace_path",
                "path": "result.txt",
                "expected_path_type": "file"
            }]
        }"#;
    assert!(validate_submission_json(missing)
        .expect_err("every acceptance item requires executable evidence")
        .contains("acceptance_criteria item 1"));

    let contradictory = r#"{
            "state": "ready",
            "title": "Reject contradictory output",
            "goal": "Produce one exact artifact",
            "steps": [{"id": "write", "title": "Write the artifact"}],
            "acceptance_criteria": ["result.txt equals A", "result.txt has two bytes"],
            "completion_checks": [
                {
                    "id": "result-a",
                    "step_id": "write",
                    "covers": [{"section": "acceptance_criteria", "index": 0}],
                    "kind": "workspace_path",
                    "path": "result.txt",
                    "expected_path_type": "file",
                    "exact_content": "A"
                },
                {
                    "id": "result-b",
                    "step_id": "write",
                    "covers": [{"section": "acceptance_criteria", "index": 1}],
                    "kind": "workspace_path",
                    "path": "./result.txt",
                    "expected_path_type": "file",
                    "size_bytes": 2
                }
            ]
        }"#;
    assert!(validate_submission_json(contradictory)
        .expect_err("one revision cannot approve conflicting final states")
        .contains("contradictory expectations"));

    let recursive_evidence = r#"{
            "state": "ready",
            "title": "Reject unsafe recursive evidence",
            "goal": "Keep the inspected tree unchanged",
            "steps": [{"id": "verify", "title": "Verify the tree"}],
            "acceptance_criteria": ["The inspected tree is unchanged"],
            "completion_checks": [{
                "id": "tree-unchanged",
                "step_id": "verify",
                "covers": [{"section": "acceptance_criteria", "index": 0}],
                "kind": "approved_evidence_unchanged",
                "path": ".",
                "evidence_kind": "directory_tree"
            }]
        }"#;
    assert!(validate_submission_json(recursive_evidence)
        .expect_err("new recursive completion evidence must fail closed")
        .contains("only file or directory evidence"));
}

#[test]
fn plan_progress_is_only_a_supplemental_completion_gate() {
    let progress_only = r#"{
            "state": "ready",
            "title": "Write exact approved bytes",
            "goal": "Create the immutable approved result",
            "steps": [{"id": "write", "title": "Write result.txt"}],
            "acceptance_criteria": ["result.txt contains exactly V2"],
            "completion_checks": [{
                "id": "write-progress",
                "step_id": "write",
                "covers": [{"section": "acceptance_criteria", "index": 0}],
                "kind": "plan_progress",
                "required_step_ids": ["write"]
            }]
        }"#;
    assert!(validate_submission_json(progress_only)
        .expect_err("Agent-reported progress must not prove exact acceptance")
        .contains("acceptance_criteria item 0 is missing a server-verifiable"));

    let split_coverage = r#"{
            "state": "ready",
            "title": "Verify and write",
            "goal": "Create the immutable approved result",
            "steps": [{"id": "write", "title": "Write result.txt"}],
            "verification": ["The write step is reported complete"],
            "acceptance_criteria": ["result.txt contains exactly V2"],
            "completion_checks": [
                {
                    "id": "write-progress",
                    "step_id": "write",
                    "covers": [{"section": "verification", "index": 0}],
                    "kind": "plan_progress",
                    "required_step_ids": ["write"]
                },
                {
                    "id": "result-bytes",
                    "step_id": "write",
                    "covers": [{"section": "acceptance_criteria", "index": 0}],
                    "kind": "workspace_path",
                    "path": "result.txt",
                    "expected_path_type": "file",
                    "exact_content": "V2",
                    "size_bytes": 2
                }
            ]
        }"#;
    assert!(validate_submission_json(split_coverage)
        .expect_err("each clause needs independent server-verifiable coverage")
        .contains("verification item 0 is missing a server-verifiable"));

    let jointly_bound = r#"{
            "state": "ready",
            "title": "Write and report exact approved bytes",
            "goal": "Create the immutable approved result",
            "steps": [{"id": "write", "title": "Write result.txt"}],
            "acceptance_criteria": ["result.txt contains exactly V2"],
            "completion_checks": [
                {
                    "id": "write-progress",
                    "step_id": "write",
                    "covers": [{"section": "acceptance_criteria", "index": 0}],
                    "kind": "plan_progress",
                    "required_step_ids": ["write"]
                },
                {
                    "id": "result-bytes",
                    "step_id": "write",
                    "covers": [{"section": "acceptance_criteria", "index": 0}],
                    "kind": "workspace_path",
                    "path": "result.txt",
                    "expected_path_type": "file",
                    "exact_content": "V2",
                    "size_bytes": 2
                }
            ]
        }"#;
    let artifact = validate_submission_json(jointly_bound)
        .expect("server evidence may share a clause with a supplemental progress gate")
        .artifact;
    let mut plan = PendingPlan::new(
        "plan-progress-supplement".into(),
        0,
        1,
        1,
        1,
        PlanStatus::Executing,
        artifact,
        Vec::new(),
        false,
    );
    let seen = || {
        vec![
            CheckObservation::Nothing,
            CheckObservation::Path(path_seen(Ok(Some(file_facts(2))), file_seen(b"V2"))),
        ]
    };

    let pending = evaluate(&plan, seen());
    assert!(!pending.passed(), "the supplemental progress gate still applies");
    assert_eq!(pending.failures[0].check_id, "write-progress");

    plan.progress[0].status = PlanStepStatus::Completed;
    let completed = evaluate(&plan, seen());
    assert!(completed.passed(), "both progress and exact bytes now pass");
}

#[test]
fn completion_contract_distinguishes_cancellation_from_deadline_expiry() {
    let artifact = validate_submission_json(&ready_plan_json(""))
        .expect("test plan should validate")
        .artifact;
    let mut plan = PendingPlan::new(
        "plan-bounded-verifier".into(),
        0,
        1,
        1,
        2,
        PlanStatus::Executing,
        artifact,
        Vec::new(),
        false,
    );
    plan.progress[0].status = PlanStepStatus::Completed;
    let seen = vec![(
        GO,
        CheckObservation::Path(path_seen(Ok(Some(dir_facts())), file_seen(b""))),
    )];

    let cancelled = CompletionVerificationControl { cancelled: true, expired: false };
    assert_eq!(
        evaluate_completion_contract_until(&plan, cancelled, &seen, GO, &Vec::new(), 0, false).err(),
        Some(PlanCompletionVerificationError::Cancelled)
    );

    let expired = CompletionVerificationControl { cancelled: false, expired: true };
    assert_eq!(
        evaluate_completion_contract_until(&plan, expired, &seen, GO, &Vec::new(), 0, false).err(),
        Some(PlanCompletionVerificationError::TimedOut)
    );
}

#[test]
fn initial_placeholder_is_valid_for_image_only_and_adversarial_text() {
    let image_only = initial_placeholder_artifact("", true)
        .expect("an image-only planning request needs a durable placeholder");
    assert!(!image_only.goal.is_empty());
    validate_initial_placeholder(&image_only).expect("image placeholder should validate");

    let mut pending = PendingPlan::new(
        "plan-image-only".into(),
        0,
        1,
        1,
        1,
        PlanStatus::Planning,
        image_only,
        Vec::new(),
        false,
    );
    pending.initial_submission_pending = true;
    let live = pending.to_live_value();
    assert_eq!(
        live.get("initial_submission_pending").and_then(|v| v.as_bool()),
        Some(true)
    );
    assert_eq!(
        live.get("initial_request_image_only").and_then(|v| v.as_bool()),
        Some(true)
    );

    let escaped = "\0".repeat(100_000);
    let bounded = initial_placeholder_artifact(&escaped, false)
        .expect("large request text should be reduced to a safe preview");
    validate_initial_placeholder(&bounded).expect("bounded placeholder should validate");
    assert!(encoded_len(&bounded) <= MAX_PLAN_BYTES);

    let mut text_pending = PendingPlan::new(
        "plan-text".into(),
        0,
        1,
        1,
        1,
        PlanStatus::Planning,
        bounded,
        Vec::new(),
        false,
    );
    text_pending.initial_submission_pending = true;
    assert_eq!(
        text_pending
            .to_live_value()
            .get("initial_request_image_only")
            .and_then(|v| v.as_bool()),
        Some(false)
    );

    assert!(initial_placeholder_artifact("   ", false).is_err());
}

#[test]
fn legacy_plan_size_limit_covers_the_complete_serialized_artifact() {
    let artifact = legacy_artifact(&"x".repeat(MAX_PLAN_BYTES / 2));
    assert!(encoded_len(&artifact) > MAX_PLAN_BYTES);
    assert!(validate_legacy_artifact(&artifact)
        .expect_err("duplicated legacy Markdown must count toward the artifact limit")
        .contains("exceeds"));

    validate_legacy_artifact(&legacy_artifact("Inspect, implement, and verify."))
        .expect("a small legacy plan should remain valid");
}

#[test]
fn progress_updates_preserve_the_immutable_revision_artifact() {
    let artifact = validate_submission_json(&ready_plan_json(""))
        .expect("plan should validate")
        .artifact;
    let mut plan = PendingPlan::new(
        "plan-1".into(),
        0,
        1,
        1,
        3,
        PlanStatus::Executing,
        artifact,
        Vec::new(),
        false,
    );
    let original_artifact = validate_submission_json(&ready_plan_json(""))
        .expect("plan should validate")
        .artifact;
    let update = validate_progress_json(
        r#"{
            "base_revision":3,
            "updates":[{"id":"inspect","status":"completed","note":"Checked"}],
            "append_steps":[{
                "id":"adapt",
                "title":"Handle the discovered edge case",
                "deviation_reason":"Inspection exposed a new compatibility requirement"
            }]
        }"#,
    )
    .expect("progress update should validate");

    apply_progress_update(&mut plan, update).expect("progress should apply");

    assert_eq!(
        canonical_markdown(&plan.artifact),
        canonical_markdown(&original_artifact)
    );
    assert_eq!(plan.artifact.steps, original_artifact.steps);
    assert_eq!(plan.progress.len(), 2);
    assert_eq!(plan.progress[0].status, PlanStepStatus::Completed);
    assert_eq!(plan.progress[1].id, "adapt");
    let prompt = plan.approved_prompt_section();
    assert!(prompt.contains("### Current execution progress"));
    assert!(prompt.contains("`inspect` [completed] Inspect the code — note: Checked"));
    assert!(
        prompt.contains("`adapt` [pending] Handle the discovered edge case (runtime adaptation)")
    );
    assert!(
        prompt.contains("deviation reason: Inspection exposed a new compatibility requirement")
    );
}

#[test]
fn rejected_progress_update_does_not_apply_an_earlier_change() {
    let artifact = validate_submission_json(&ready_plan_json(""))
        .expect("plan should validate")
        .artifact;
    let mut plan = PendingPlan::new(
        "plan-atomic".into(),
        0,
        1,
        1,
        2,
        PlanStatus::Executing,
        artifact,
        Vec::new(),
        false,
    );
    let before: Vec<_> = plan
        .progress
        .iter()
        .map(|s| (s.id.clone(), s.status, s.note.clone()))
        .collect();
    let update = validate_progress_json(
        r#"{
            "base_revision":2,
            "updates":[
                {"id":"inspect","status":"completed","note":"Must roll back"},
                {"id":"missing","status":"blocked","note":"Unknown step"}
            ]
        }"#,
    )
    .expect("update shape should validate");

    assert!(apply_progress_update(&mut plan, update)
        .expect_err("unknown step should reject the complete update")
        .contains("unknown plan step"));
    let after: Vec<_> = plan
        .progress
        .iter()
        .map(|s| (s.id.clone(), s.status, s.note.clone()))
        .collect();
    assert_eq!(after, before);
}

#[test]
fn persisted_contract_without_server_checks_cannot_complete_from_notes_alone() {
    let artifact = PlanArtifact {
        title: "Legacy structured plan".into(),
        goal: "Produce a verified result".into(),
        steps: vec![PlanStep {
            id: "write".into(),
            title: "Write the result".into(),
            description: String::new(),
            affected_areas: Vec::new(),
        }],
        verification: vec!["Verify result.txt".into()],
        acceptance_criteria: vec!["result.txt has the requested bytes".into()],
        ..Default::default()
    };
    let expected_markdown = canonical_markdown(&artifact);
    let mut plan = PendingPlan::new(
        "plan-missing-contract".into(),
        0,
        1,
        1,
        4,
        PlanStatus::Executing,
        artifact,
        Vec::new(),
        false,
    );
    plan.progress[0].status = PlanStepStatus::Completed;
    plan.progress[0].note = "Everything is correct".into();

    let report = evaluate(&plan, Vec::new());
    assert!(!report.passed());
    assert_eq!(report.plan_id, "plan-missing-contract");
    assert_eq!(report.revision, 4);
    assert_eq!(report.failures[0].check_id, "completion-contract-missing");

    apply_completion_failures(&mut plan, &report)
        .expect("the server failure should bind to the original step");
    assert_eq!(canonical_markdown(&plan.artifact), expected_markdown);
    assert_eq!(plan.progress[0].status, PlanStepStatus::Blocked);
    assert!(plan.progress[0].note.contains("completion-contract-missing"));
}

// ── further cases ──────────────────────────────────────────────────────────

#[test]
fn path_check_reports_what_stands_in_its_way() {
    let check = completion_workspace_check("linked.txt", PlanExpectedPathType::File);
    let refused = path_seen(Err("path is a symbolic link".into()), file_seen(b""));
    match evaluate_workspace_path_check(&check, &refused) {
        Err(CompletionCheckError::Failed(reason)) => assert!(reason.contains("link")),
        other => panic!("unexpected outcome: {other:?}"),
    }

    let absent = completion_workspace_check("missing", PlanExpectedPathType::Absent);
    assert!(evaluate_workspace_path_check(&absent, &path_seen(Ok(None), file_seen(b""))).is_ok());
    let mut reappeared = path_seen(Ok(None), file_seen(b""));
    reappeared.probe = Ok(true);
    assert!(evaluate_workspace_path_check(&absent, &reappeared).is_err());

    let dir = completion_workspace_check(".", PlanExpectedPathType::Directory);
    assert!(
        evaluate_workspace_path_check(&dir, &path_seen(Ok(Some(dir_facts())), file_seen(b"")))
            .is_ok()
    );
    assert!(
        evaluate_workspace_path_check(&dir, &path_seen(Ok(Some(file_facts(1))), file_seen(b"x")))
            .is_err()
    );
}

#[test]
fn file_check_compares_bytes_and_digest() {
    let mut check = completion_workspace_check("result.txt", PlanExpectedPathType::File);
    check.sha256 =
        Some("ba7816bf8f01cfea414140de5dae2223b00361a396177a9cb410ff61f20015ad".into());
    assert!(evaluate_workspace_path_check(
        &check,
        &path_seen(Ok(Some(file_facts(3))), file_seen(b"abc"))
    )
    .is_ok());
    assert!(evaluate_workspace_path_check(
        &check,
        &path_seen(Ok(Some(file_facts(3))), file_seen(b"abd"))
    )
    .is_err());
}

#[test]
fn evidence_digest_changes_with_the_content() {
    let seen = |bytes: &[u8]| EvidenceFileObservation {
        facts: file_facts(bytes.len() as u64),
        head: vec![read(bytes), read(b"")],
        before_seek: GO,
        seek: Ok(()),
        tail: Vec::new(),
        before_recheck: GO,
        recheck: Ok(file_facts(bytes.len() as u64)),
        reverified: Ok(()),
        at_end: GO,
    };
    let a = hash_checked_evidence_file(&seen(b"one")).expect("digest");
    let b = hash_checked_evidence_file(&seen(b"two")).expect("digest");
    assert_eq!(a.len(), 64);
    assert_ne!(a, b);
    assert_eq!(a, hash_checked_evidence_file(&seen(b"one")).expect("digest"));
}

#[test]
fn contract_paths_are_brought_to_one_form() {
    assert_eq!(normalize_contract_path(" ././a\\b ", false), "a/b");
    assert_eq!(normalize_contract_path("a/b", false), "a/b");
    assert_eq!(normalize_contract_path(".", false), ".");
    assert_eq!(normalize_contract_path("./Src\\Main.rs", false), "Src/Main.rs");
    assert_eq!(normalize_contract_path("./Src\\Main.rs", true), "src/main.rs");
}

#[test]
fn wider_evidence_keeps_its_place() {
    let piece = |kind, fingerprint: &str| PlanEvidence {
        path: ".".into(),
        kind,
        fingerprint: fingerprint.into(),
        selector: None,
    };
    let mut known = vec![piece(PlanEvidenceKind::DirectoryTree, "deep")];
    merge_evidence(&mut known, vec![piece(PlanEvidenceKind::Directory, "shallow")]);
    assert!(known
        .iter()
        .any(|e| e.kind == PlanEvidenceKind::DirectoryTree && e.fingerprint == "deep"));
}

#[test]
fn normal_form_is_reached_in_one_pass() {
    let mut artifact = PlanArtifact {
        title: "  Title  ".into(),
        goal: " Goal ".into(),
        risks: vec![" a ".into(), "".into(), "a".into()],
        ..Default::default()
    };
    normalize_artifact(&mut artifact);
    let once = canonical_markdown(&artifact);
    assert_eq!(artifact.title, "Title");
    normalize_artifact(&mut artifact);
    assert_eq!(canonical_markdown(&artifact), once);
}

#[test]
fn large_files_are_sampled_within_the_budget() {
    let (_, left, whole) = plan_sample(10, 100, 100);
    assert_eq!(left, 90);
    let (_, rest, cut) = plan_sample(1_000_000, 100, 60);
    assert!(rest <= 60);
    assert_ne!(whole, cut);
}

// ── evidence ───────────────────────────────────────────────────────────────

fn facts(len: u64) -> FileFacts {
    FileFacts { len, modified: Some(7) }
}

fn tree_file(relative: &str, bytes: &[u8]) -> TreeEntry {
    TreeEntry {
        name: relative.rsplit('/').next().unwrap_or("").into(),
        relative: relative.into(),
        kind: EntryKind::File,
        facts: Some(facts(bytes.len() as u64)),
        content: FileRead::Read { head: bytes.to_vec(), tail: Vec::new() },
        children: Vec::new(),
    }
}

fn tree_dir(relative: &str, children: Vec<TreeEntry>) -> TreeEntry {
    TreeEntry {
        name: relative.rsplit('/').next().unwrap_or("").into(),
        relative: relative.into(),
        kind: EntryKind::Directory,
        facts: None,
        content: FileRead::Unopened,
        children,
    }
}

fn capture(
    tool: &str,
    args: &str,
    relative: &str,
    hashed: (String, bool),
) -> CapturedPlanEvidence {
    let seen = CaptureObservation {
        cancelled_before: false,
        relative: relative.into(),
        hashed: Ok(hashed),
        cancelled_after: false,
    };
    try_capture_tool_evidence(tool, args, &seen).expect("evidence")
}

fn captured(tool: &str, args: &str, relative: &str, hashed: (String, bool)) -> Vec<PlanEvidence> {
    capture(tool, args, relative, hashed).evidence
}

fn observed(cancelled: bool, expired: bool, fingerprint: Option<&str>) -> EvidenceObservation {
    EvidenceObservation {
        cancelled_before: cancelled,
        expired_before: expired,
        fingerprint: fingerprint.map(str::to_string),
        cancelled_after: false,
        expired_after: false,
    }
}

fn found(fingerprint: &str) -> EvidenceObservation {
    observed(false, false, Some(fingerprint))
}

#[test]
fn evidence_fingerprint_detects_workspace_changes() {
    let args = r#"{"path":"notes.txt"}"#;
    let before = file_fingerprint(facts(6), &b"before".to_vec(), &Vec::new());
    let after = file_fingerprint(facts(5), &b"after".to_vec(), &Vec::new());
    let evidence = captured("read_file", args, "notes.txt", before.clone());
    assert_eq!(evidence.len(), 1);
    assert!(verify_evidence(&evidence, &vec![found(&before.0)]).is_empty());
    assert_eq!(verify_evidence(&evidence, &vec![found(&after.0)]), vec!["notes.txt"]);
}

#[test]
fn evidence_capture_reports_failures_instead_of_returning_an_empty_snapshot() {
    let seen = CaptureObservation {
        cancelled_before: false,
        relative: "missing".into(),
        hashed: Err("no such directory".into()),
        cancelled_after: false,
    };
    let error = try_capture_tool_evidence(
        "search_files",
        r#"{"path":"missing","pattern":"anything"}"#,
        &seen,
    )
    .expect_err("an unreadable evidence root must not look like an empty snapshot");
    assert!(!error.is_empty());
}

#[test]
fn tool_evidence_requires_a_stable_execution_window() {
    let args = r#"{"path":"notes.txt"}"#;
    let before = file_fingerprint(facts(6), &b"before".to_vec(), &Vec::new());
    let after = file_fingerprint(facts(5), &b"after".to_vec(), &Vec::new());
    let capture = |h: &(String, bool)| captured("read_file", args, "notes.txt", h.clone());

    let stable = reconcile_tool_evidence(capture(&before), capture(&before));
    assert!(verify_evidence(&stable, &vec![found(&before.0)]).is_empty());

    let unstable = reconcile_tool_evidence(capture(&before), capture(&after));
    assert_eq!(unstable[0].fingerprint, "unstable");
    assert_eq!(verify_evidence(&unstable, &vec![found(&after.0)]), vec!["notes.txt"]);
}

fn unused_evidence() -> Vec<PlanEvidence> {
    vec![PlanEvidence {
        path: "notes.txt".into(),
        kind: PlanEvidenceKind::File,
        fingerprint: "unused".into(),
        selector: None,
    }]
}

#[test]
fn evidence_verification_stops_when_cancelled() {
    let seen = vec![observed(true, false, None)];
    assert_eq!(
        verify_evidence_until(&unused_evidence(), &seen),
        Err(EvidenceVerificationError::Cancelled)
    );
}

#[test]
fn evidence_verification_stops_after_deadline() {
    let seen = vec![observed(false, true, None)];
    assert_eq!(
        verify_evidence_until(&unused_evidence(), &seen),
        Err(EvidenceVerificationError::TimedOut)
    );
}

#[test]
fn evidence_hash_samples_large_file_tail() {
    let len = MAX_EVIDENCE_HASH_FILE_BYTES + 1_024;
    let head = b"head".to_vec();
    let (plan, _, _) = plan_sample(len, MAX_EVIDENCE_HASH_FILE_BYTES, MAX_EVIDENCE_HASH_FILE_BYTES);
    assert!(matches!(plan, SamplePlan::Sampled { .. }));
    let first = file_fingerprint(facts(len), &head, &b"tail".to_vec());
    let second = file_fingerprint(facts(len), &head, &b"fail".to_vec());
    let capture = capture("read_file", r#"{"path":"large.bin"}"#, "large.bin", first.clone());
    assert!(capture.truncated);
    let evidence = capture.evidence;
    assert_eq!(evidence.len(), 1);
    assert!(verify_evidence(&evidence, &vec![found(&first.0)]).is_empty());
    assert_eq!(verify_evidence(&evidence, &vec![found(&second.0)]), vec!["large.bin"]);
}

#[test]
fn search_evidence_detects_same_size_changes_in_nested_files() {
    let tree = |content: &[u8]| {
        vec![tree_dir(
            "src",
            vec![tree_dir("src/nested", vec![tree_file("src/nested/notes.txt", content)])],
        )]
    };
    let alpha = hash_directory_tree(&tree(b"alpha"));
    let bravo = hash_directory_tree(&tree(b"bravo"));
    let evidence =
        captured("search_files", r#"{"path":".","pattern":"alpha"}"#, "", alpha.clone());
    assert!(!alpha.1);
    assert_eq!(evidence.len(), 1);
    assert_eq!(evidence[0].kind, PlanEvidenceKind::DirectoryTree);
    assert!(verify_evidence(&evidence, &vec![found(&alpha.0)]).is_empty());
    assert_eq!(verify_evidence(&evidence, &vec![found(&bravo.0)]), vec!["."]);
}

#[test]
fn search_evidence_marks_depth_limit_as_incomplete() {
    let mut relative: Vec<String> = Vec::new();
    for level in 0..=5 {
        let parent = relative.last().map(|p| format!("{p}/")).unwrap_or_default();
        relative.push(format!("{parent}level-{level}"));
    }
    let mut entry = tree_file(&format!("{}/notes.txt", relative[5]), b"needle");
    for path in relative.iter().rev() {
        entry = tree_dir(path, vec![entry]);
    }
    let hashed = hash_directory_tree(&vec![entry]);
    let capture = capture("search_files", r#"{"path":".","pattern":"needle"}"#, "", hashed);
    assert!(capture.truncated);
    assert_eq!(capture.evidence.len(), 1);
}

#[test]
fn directory_tree_hash_marks_file_limit_as_incomplete() {
    let root = vec![tree_file("a.txt", b"a"), tree_file("b.txt", b"b")];
    let (_, truncated) = hash_directory_tree_with_limits(&root, 5, 1, 4, 8);
    assert!(truncated);
}

#[test]
fn directory_tree_hash_marks_content_budget_as_incomplete() {
    let root = vec![tree_file("a.txt", b"abcd"), tree_file("b.txt", b"efgh")];
    let (_, truncated) = hash_directory_tree_with_limits(&root, 5, 10, 4, 4);
    assert!(truncated);
    let (_, whole) = hash_directory_tree_with_limits(&root, 5, 10, 4, 8);
    assert!(!whole);
}

#[test]
fn reads_that_break_off_end_the_walk() {
    let broken = |tail: Option<Vec<u8>>| {
        let mut file = tree_file("a.txt", b"abcdefgh");
        file.content = FileRead::Failed { head: b"ab".to_vec(), end: tail, error: "gone".into() };
        hash_directory_tree_with_limits(&vec![file, tree_file("b.txt", b"x")], 5, 10, 4, 4)
    };
    let (at_head, stopped) = broken(None);
    assert!(stopped);
    let (at_tail, _) = broken(Some(b"g".to_vec()));
    assert_ne!(at_head, at_tail);
    assert_eq!(broken(None).0, at_head);
}

#[test]
fn shallow_directory_evidence_does_not_replace_recursive_evidence() {
    let tree = |content: &[u8]| {
        vec![tree_dir(
            "src",
            vec![tree_dir("src/nested", vec![tree_file("src/nested/notes.txt", content)])],
        )]
    };
    let mut evidence = captured(
        "search_files",
        r#"{"path":".","pattern":"alpha"}"#,
        "",
        hash_directory_tree(&tree(b"alpha")),
    );
    let shallow = captured("list_dir", r#"{"path":"."}"#, "", ("shallow".into(), false));
    assert!(!merge_evidence(&mut evidence, shallow));
    assert_eq!(evidence.len(), 1);
    assert_eq!(evidence[0].kind, PlanEvidenceKind::DirectoryTree);

    let bravo = hash_directory_tree(&tree(b"bravo"));
    assert_eq!(verify_evidence(&evidence, &vec![found(&bravo.0)]), vec!["."]);
}

#[test]
fn listings_do_not_depend_on_their_order() {
    let entry = |name: &str| DirectoryEntry {
        name: name.into(),
        kind: EntryKind::File,
        facts: Some(facts(1)),
    };
    let a = sorted_directory_fingerprint(&vec![entry("x"), entry("y")]);
    let b = sorted_directory_fingerprint(&vec![entry("y"), entry("x")]);
    assert_eq!(a, b);
    assert!(supports_tool_evidence("read_file"));
    assert!(!supports_tool_evidence("exec"));
}

#[test]
fn stored_plans_are_checked_and_brought_up_to_date() {
    let artifact = validate_submission_json(&ready_plan_json("")).expect("plan").artifact;
    let mut plan = PendingPlan::new(
        "plan-1".into(),
        4,
        6,
        1,
        1,
        PlanStatus::Ready,
        artifact,
        Vec::new(),
        false,
    );
    assert_eq!(validate_persisted_plan(&plan, false), Ok(()));
    plan.rebase_message_indices_after_prefix_prune(5);
    assert_eq!((plan.original_user_message_index, plan.assistant_plan_message_index), (0, 1));
    plan.revision = 0;
    assert!(validate_persisted_plan(&plan, false).is_err());
    plan.updated_at = 0;
    plan.normalize_legacy(&Vec::new());
    assert_eq!((plan.revision, plan.updated_at), (1, 1));
    assert_eq!(validate_persisted_plan(&plan, false), Ok(()));
    assert!(plan.status.is_active());
    assert!(plan.status.blocks_workspace_rebind());
    assert!(plan.status.can_receive_feedback());
    assert_eq!(plan.unfinished_step_count(), 1);
}

#[test]
fn reports_and_failed_checks_leave_a_plan_that_may_be_stored() {
    let artifact = validate_submission_json(&ready_plan_json("")).expect("plan").artifact;
    let mut plan = PendingPlan::new(
        "plan-1".into(),
        0,
        1,
        1,
        3,
        PlanStatus::Ready,
        artifact,
        Vec::new(),
        false,
    );
    assert_eq!(validate_persisted_plan(&plan, false), Ok(()));
    let update = validate_progress_json(
        r#"{
            "base_revision":3,
            "updates":[{"id":"inspect","status":"in_progress","note":"Begun"}],
            "append_steps":[{
                "id":"adapt",
                "title":"Handle the edge case",
                "deviation_reason":"It was found on the way"
            }]
        }"#,
    )
    .expect("report");
    plan.status = PlanStatus::Executing;
    apply_progress_update(&mut plan, update).expect("report applies");
    assert_eq!(validate_persisted_plan(&plan, false), Ok(()));

    let report = PlanCompletionReport {
        plan_id: "plan-1".into(),
        revision: 3,
        failures: vec![PlanCompletionFailure {
            check_id: "check".into(),
            step_id: "inspect".into(),
            reason: "missing".into(),
        }],
    };
    apply_completion_failures(&mut plan, &report).expect("failure is bound");
    assert_eq!(plan.progress[0].status, PlanStepStatus::Blocked);
    assert!(plan.progress[0].note.starts_with("Begun | "));
    assert_eq!(validate_persisted_plan(&plan, false), Ok(()));
}

#[test]
fn the_same_failures_are_charged_once() {
    let artifact = validate_submission_json(&ready_plan_json("")).expect("plan").artifact;
    let mut plan = PendingPlan::new(
        "plan-1".into(),
        0,
        1,
        1,
        3,
        PlanStatus::Executing,
        artifact,
        Vec::new(),
        false,
    );
    let failure = |id: &str, reason: String| PlanCompletionFailure {
        check_id: id.into(),
        step_id: "inspect".into(),
        reason,
    };
    let mut report = PlanCompletionReport {
        plan_id: "plan-1".into(),
        revision: 3,
        failures: vec![failure("a", "missing".into()), failure("b", "x".repeat(3_000))],
    };
    apply_completion_failures(&mut plan, &report).expect("bound");
    let once = plan.progress[0].note.clone();
    assert!(once.starts_with(
        "Server completion check 'a' failed for revision 3: missing | Server completion check 'b'"
    ));
    assert_eq!(once.chars().count(), 2_000);
    apply_completion_failures(&mut plan, &report).expect("bound");
    assert_eq!(plan.progress[0].note, once);

    report.failures[0].step_id = "unknown".into();
    assert!(apply_completion_failures(&mut plan, &report)
        .expect_err("unbound")
        .contains("is not bound to an active approved step"));
    report.revision = 4;
    assert_eq!(
        apply_completion_failures(&mut plan, &report),
        Err("completion report does not match the active plan revision".into())
    );
    assert_eq!(plan.progress[0].note, once);
}

#[test]
fn tool_checks_are_matched_by_name_and_arguments() {
    let mut check = completion_workspace_check("x", PlanExpectedPathType::File);
    check.kind = PlanCompletionCheckKind::ToolCallSuccess;
    check.tool_name = Some("exec".into());
    check.arguments = Some(Json::Object(vec![("cmd".into(), Json::Text("ls".into()))]));
    let artifact = PlanArtifact { completion_checks: vec![check], ..Default::default() };
    let plan = PendingPlan::new(
        "p".into(),
        0,
        0,
        1,
        1,
        PlanStatus::Executing,
        artifact,
        Vec::new(),
        false,
    );
    let args = |cmd: &str| Json::Object(vec![("cmd".into(), Json::Text(cmd.into()))]);
    assert_eq!(matching_tool_completion_check_ids(&plan, "exec", &args("ls")), ["secure-path"]);
    assert!(matching_tool_completion_check_ids(&plan, "exec", &args("rm")).is_empty());
    assert!(matching_tool_completion_check_ids(&plan, "read", &args("ls")).is_empty());

    let number = |s: &str| Json::Array(vec![Json::Number(JsonNumber::Float(s.into()))]);
    assert!(number("0.0").says_same(&number("-0.0")));
    assert!(!number("0.0").says_same(&number("0.5")));
}

#[test]
fn paths_meet_under_one_spelling_where_cases_are_not_told_apart() {
    let mut first = completion_workspace_check("Out.txt", PlanExpectedPathType::File);
    first.exact_content = Some("a".into());
    let mut second = completion_workspace_check("out.txt", PlanExpectedPathType::File);
    second.id = "second".into();
    second.exact_content = Some("b".into());
    let artifact = |checks| PlanArtifact {
        steps: vec![PlanStep {
            id: "inspect".into(),
            title: "Inspect".into(),
            description: String::new(),
            affected_areas: Vec::new(),
        }],
        verification: vec!["v".into()],
        completion_checks: checks,
        ..Default::default()
    };
    let mut both = vec![first, second];
    for check in &mut both {
        check.step_id = "inspect".into();
        check.covers =
            vec![PlanContractClauseRef { section: PlanContractSection::Verification, index: 0 }];
    }
    let artifact = artifact(both);
    assert_eq!(validate_completion_checks(&artifact, true, false), Ok(()));
    assert!(validate_completion_checks(&artifact, true, true)
        .expect_err("the paths are one")
        .contains("contradictory expectations"));
}

// ── paths and directories ──────────────────────────────────────────────────

fn completion_check_failure(result: Result<(), CompletionCheckError>) -> String {
    match result {
        Err(CompletionCheckError::Failed(reason)) => reason,
        other => panic!("expected a completion failure, got {other:?}"),
    }
}

#[test]
fn completion_hash_enforces_the_byte_limit_when_the_opened_file_grows() {
    let mut check = completion_workspace_check("result.bin", PlanExpectedPathType::File);
    check.sha256 =
        Some("81db8ebbbbc69c6c6ad4a6aa92b76e0c08af547da236b9e2c9dbe1d8285a8130".into());
    let piece = vec![0_u8; 1 << 20];
    let mut file = file_seen(b"small");
    file.reads = (0..65).map(|_| read(&piece)).collect();
    file.recheck = Ok(file_facts(MAX_PLAN_COMPLETION_FILE_BYTES + 1));
    let reason = completion_check_failure(evaluate_workspace_path_check(
        &check,
        &path_seen(Ok(Some(file_facts(5))), file),
    ));
    assert!(reason.contains("read limit") || reason.contains("changed"), "{reason}");
}

#[test]
fn completion_hash_rejects_an_initial_file_above_the_hard_limit() {
    let mut check = completion_workspace_check("result.bin", PlanExpectedPathType::File);
    check.sha256 = Some("0".repeat(64));
    let mut file = file_seen(b"");
    file.facts = file_facts(MAX_PLAN_COMPLETION_FILE_BYTES + 1);
    let reason = completion_check_failure(evaluate_workspace_path_check(
        &check,
        &path_seen(Ok(Some(file_facts(MAX_PLAN_COMPLETION_FILE_BYTES + 1))), file),
    ));
    assert!(reason.contains("completion-hash limit"), "{reason}");
}

#[test]
fn completion_absence_rechecks_the_retained_parent_after_the_first_probe() {
    let check = completion_workspace_check("unexpected.txt", PlanExpectedPathType::Absent);
    let mut seen = path_seen(Ok(None), file_seen(b""));
    seen.probe = Ok(true);
    let reason = completion_check_failure(evaluate_workspace_path_check(&check, &seen));
    assert!(reason.contains("appeared"), "unexpected absence race: {reason}");
}

#[test]
fn completion_path_checks_accept_a_checked_directory_and_missing_path() {
    let directory = completion_workspace_check("output", PlanExpectedPathType::Directory);
    assert!(evaluate_workspace_path_check(
        &directory,
        &path_seen(Ok(Some(dir_facts())), file_seen(b""))
    )
    .is_ok());
    let missing = completion_workspace_check("missing", PlanExpectedPathType::Absent);
    assert!(
        evaluate_workspace_path_check(&missing, &path_seen(Ok(None), file_seen(b""))).is_ok()
    );
}

fn listed(names: &[&str]) -> EvidenceDirectoryObservation {
    EvidenceDirectoryObservation {
        facts: dir_facts(),
        start: GO,
        listing: Ok(names
            .iter()
            .map(|name| ListedEntry {
                before: GO,
                entry: DirectoryEntry {
                    name: name.to_string(),
                    kind: EntryKind::File,
                    facts: Some(facts(1)),
                },
            })
            .collect()),
        after_listing: GO,
        after_taking: GO,
        hashing: names.iter().map(|_| GO).collect(),
        reverified: Ok(()),
        recheck: Ok(dir_facts()),
        at_end: GO,
    }
}

#[test]
fn evidence_directories_are_hashed_by_name_and_stop_on_request() {
    let entry = |name: &str| DirectoryEntry {
        name: name.into(),
        kind: EntryKind::File,
        facts: Some(facts(1)),
    };
    let digest = hash_checked_evidence_directory(&listed(&["b", "a"])).expect("digest");
    assert_eq!(digest, sorted_directory_fingerprint(&vec![entry("a"), entry("b")]));

    let mut seen = listed(&["a", "b"]);
    seen.hashing[1].cancelled = true;
    assert_eq!(
        hash_checked_evidence_directory(&seen),
        Err(CompletionCheckError::Interrupted(PlanCompletionVerificationError::Cancelled))
    );
    let mut seen = listed(&["a"]);
    seen.listing = Err("unreadable".into());
    assert_eq!(
        hash_checked_evidence_directory(&seen),
        Err(CompletionCheckError::Failed("unreadable".into()))
    );
    let mut seen = listed(&["a"]);
    seen.recheck = Err("gone".into());
    assert_eq!(
        hash_checked_evidence_directory(&seen),
        Err(CompletionCheckError::Failed(
            "directory metadata could not be rechecked: gone".into()
        ))
    );
    let names = vec!["x"; MAX_PLAN_COMPLETION_DIRECTORY_ENTRIES + 1];
    assert_eq!(
        hash_checked_evidence_directory(&listed(&names)),
        Err(CompletionCheckError::Failed(
            "checked directory exceeds the 100000-entry completion limit".into()
        ))
    );
}

#[test]
fn approved_evidence_is_held_against_its_object() {
    let mut check = completion_workspace_check("docs", PlanExpectedPathType::Directory);
    check.kind = PlanCompletionCheckKind::ApprovedEvidenceUnchanged;
    check.expected_path_type = None;
    check.evidence_kind = Some(PlanEvidenceKind::Directory);
    let artifact = validate_submission_json(&ready_plan_json("")).expect("plan").artifact;
    let fingerprint = hash_checked_evidence_directory(&listed(&["a"])).expect("digest");
    let approved = PlanEvidence {
        path: "./docs".into(),
        kind: PlanEvidenceKind::Directory,
        fingerprint,
        selector: None,
    };
    let plan = PendingPlan::new(
        "plan-1".into(),
        0,
        1,
        1,
        1,
        PlanStatus::Executing,
        artifact,
        vec![approved],
        false,
    );
    let seen = |object: Option<EvidenceObject>| EvidenceCheckObservation {
        start: GO,
        resolved: Ok(()),
        opened: Ok(object),
    };
    let same = seen(Some(EvidenceObject::Directory(listed(&["a"]))));
    assert!(evaluate_approved_evidence_check(&plan, &check, &same, false).is_ok());
    assert!(observation_fits(&check, &CheckObservation::Evidence(same)));
    let other = seen(Some(EvidenceObject::Directory(listed(&["a", "b"]))));
    let reason =
        completion_check_failure(evaluate_approved_evidence_check(&plan, &check, &other, false));
    assert_eq!(reason, "workspace evidence changed after the approved revision was captured");
    let reason =
        completion_check_failure(evaluate_approved_evidence_check(&plan, &check, &seen(None), false));
    assert_eq!(reason, "approved directory evidence is no longer a checked directory");
    check.path = Some("other".into());
    let reason =
        completion_check_failure(evaluate_approved_evidence_check(&plan, &check, &other, false));
    assert_eq!(reason, "the approved revision did not capture the required evidence");
    check.evidence_kind = Some(PlanEvidenceKind::File);
    assert!(!observation_fits(&check, &CheckObservation::Evidence(other)));
}

#[test]
fn reports_are_described_to_the_model() {
    let expected = concat_lines(&[
        r#"{"additionalProperties":false,"properties":{"append_steps":{"items":"#,
        r#"{"additionalProperties":false,"properties":{"deviation_reason":"#,
        r#"{"maxLength":2000,"minLength":1,"type":"string"},"id":"#,
        r#"{"maxLength":80,"minLength":1,"type":"string"},"note":"#,
        r#"{"maxLength":2000,"type":"string"},"title":"#,
        r#"{"maxLength":240,"minLength":1,"type":"string"}},"#,
        r#""required":["id","title","deviation_reason"],"type":"object"},"#,
        r#""maxItems":12,"type":"array"},"#,
        r#""base_revision":{"minimum":1,"type":"integer"},"updates":{"items":"#,
        r#"{"additionalProperties":false,"properties":{"id":"#,
        r#"{"maxLength":80,"minLength":1,"type":"string"},"note":"#,
        r#"{"maxLength":2000,"type":"string"},"status":"#,
        r#"{"enum":["pending","in_progress","completed","blocked","skipped"],"type":"string"}},"#,
        r#""required":["id","status"],"type":"object"},"maxItems":12,"type":"array"}},"#,
        r#""required":["base_revision"],"type":"object"}"#,
    ]);
    let value: serde_json::Value = serde_json::from_str(&expected).expect("schema");
    assert!(update_plan_tool_parameters().says_same(&json_of(&value)));
}

fn concat_lines(lines: &[&str]) -> String {
    lines.concat()
}
