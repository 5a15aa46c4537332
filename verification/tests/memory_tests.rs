//! The structured memory and its background updates.

use lingclaw::chat::{ChatMessage, FunctionCall, ToolCall};
use lingclaw::json::Json;
use lingclaw::memory::clean::{
    normalize_match_text, normalize_memory_fact_key, sanitize_memory_lesson_title,
    sanitize_user_context_value,
};
use lingclaw::memory::excerpt::{build_conversation_excerpt, prefilter_for_memory};
use lingclaw::memory::merge::{cap_memory, merge_llm_response_into_memory};
use lingclaw::memory::model::{
    CommandPattern, MemoryConfidence, MemoryFact, MemoryLesson, OpenLoop, OpenLoopStatus,
    ProjectSignal, RetrievedTaskMemory, StructuredMemory, MAX_MEMORY_FACTS,
    MAX_MEMORY_PROJECT_SIGNALS,
};
use lingclaw::memory::prompt::format_memory_for_injection;
use lingclaw::memory::records::{
    dedupe_memory_facts, dedupe_structured_memory, upsert_command_pattern, upsert_memory_lesson,
    upsert_open_loop, upsert_project_signal,
};
use lingclaw::memory::select::{
    command_pattern_relevance_score, composite_memory_relevance_score, fact_relevance_score,
    lesson_relevance_score, open_loop_relevance_score, project_signal_relevance_score,
    select_facts_for_injection, MemoryQuery,
};
use lingclaw::memory::status::{
    audit_needs_rotation, format_queue_status, format_relative_age, memory_debug_status,
    memory_runtime_status, memory_status, read_recent_memory_audit, rotate_audit,
    timestamp_label, truncate_inline, MemoryAuditRecord, MemoryQueueStatusSnapshot,
};
use lingclaw::memory::task::{
    extract_file_anchor, extract_shell_command_anchor, extract_url_anchor,
    format_task_memory_for_prompt, format_task_tool_hints_for_prompt, retrieve_task_memory,
    task_memory_cache_key, task_memory_caps, task_memory_next_actions,
    task_memory_resolution_anchors, task_tool_ranking_context, TaskIntent,
};
use lingclaw::memory::updater::{
    audit_record, begin_memory_update, build_audit_baseline, enqueue_step, memory_updater_step,
    process_memory_update, settle_usage, MemoryUpdateOutcome, MemoryUpdateStart, QueueAction,
    UpdaterAction, UpdaterEvent, UsageSource, MEMORY_QUEUE_CAPACITY,
};

fn fact(key: &str, value: &str, at: u64) -> MemoryFact {
    MemoryFact { key: key.into(), value: value.into(), recorded_at: at }
}

fn lesson(title: &str, recommendation: &str, at: u64) -> MemoryLesson {
    MemoryLesson {
        title: title.into(),
        when_to_apply: "always".into(),
        recommendation: recommendation.into(),
        scope: "repo".into(),
        confidence: MemoryConfidence::High,
        last_seen_at: at,
    }
}

fn query(text: &str) -> MemoryQuery {
    MemoryQuery {
        text: text.into(),
        tokens: text.split_whitespace().map(|w| w.to_lowercase()).collect(),
    }
}

fn text(s: &str) -> Json {
    Json::Text(s.into())
}

fn object(entries: Vec<(&str, Json)>) -> Json {
    Json::Object(entries.into_iter().map(|(k, v)| (k.to_string(), v)).collect())
}

fn message(role: &str, content: &str) -> ChatMessage {
    ChatMessage {
        role: role.into(),
        content: Some(content.into()),
        images: None,
        thinking: None,
        anthropic_thinking_blocks: None,
        tool_calls: None,
        tool_call_id: None,
        timestamp: None,
    }
}

#[test]
fn texts_are_cleaned_and_bounded() {
    assert_eq!(sanitize_user_context_value("  likes   Rust \n a lot ").as_deref(), Some("likes Rust a lot"));
    assert_eq!(sanitize_user_context_value("   "), None);
    assert_eq!(
        sanitize_memory_lesson_title(&"x".repeat(500)).map(|t| t.chars().count() <= 96),
        Some(true)
    );
    assert_eq!(normalize_match_text("  Run   TESTS "), "run tests");
    assert_eq!(normalize_memory_fact_key("  Build Tool "), normalize_memory_fact_key("build tool"));
}

#[test]
fn confidence_and_status_are_read_by_name() {
    assert_eq!(MemoryConfidence::from_raw(Some(" HIGH ")), MemoryConfidence::High);
    assert_eq!(MemoryConfidence::from_raw(None), MemoryConfidence::Medium);
    assert_eq!(MemoryConfidence::from_raw(Some(MemoryConfidence::Low.label())), MemoryConfidence::Low);
    assert_eq!(OpenLoopStatus::from_raw(Some("done")), OpenLoopStatus::Resolved);
    assert_eq!(OpenLoopStatus::from_raw(Some("?")), OpenLoopStatus::Open);
}

#[test]
fn the_newest_record_of_a_subject_stays() {
    let mut facts = vec![fact("k", "old", 1), fact("K ", "new", 5), fact("k", "older", 3)];
    dedupe_memory_facts(&mut facts);
    assert_eq!(facts.len(), 1);
    assert_eq!((facts[0].value.as_str(), facts[0].recorded_at), ("new", 5));

    let mut lessons = vec![lesson("Test first", "do", 1)];
    upsert_memory_lesson(&mut lessons, lesson("test   FIRST", "do more", 2));
    assert_eq!(lessons.len(), 1);
    assert_eq!(lessons[0].recommendation, "do more");
    let mut memory = StructuredMemory::new();
    memory.facts = facts;
    let before = memory.copy();
    dedupe_structured_memory(&mut memory);
    assert!(memory.says_same(&before));
}

#[test]
fn a_report_updates_deletes_and_clears() {
    let mut memory = StructuredMemory::new();
    memory.user_context = Some("old".into());
    memory.facts = vec![fact("keep", "a", 1), fact("drop", "b", 1)];
    let raw = object(vec![
        ("delete_facts", Json::Array(vec![text("drop")])),
        (
            "update_facts",
            Json::Array(vec![object(vec![("key", text("keep")), ("value", text("c"))])]),
        ),
        ("user_context", Json::Null),
    ]);
    merge_llm_response_into_memory(&mut memory, &raw, 9);
    assert_eq!(memory.user_context, None);
    assert_eq!(memory.facts.len(), 1);
    assert_eq!((memory.facts[0].value.as_str(), memory.facts[0].recorded_at), ("c", 9));

    let untouched = object(vec![("update_facts", Json::Array(Vec::new()))]);
    memory.user_context = Some("kept".into());
    merge_llm_response_into_memory(&mut memory, &untouched, 10);
    assert_eq!(memory.user_context.as_deref(), Some("kept"));
}

#[test]
fn each_list_is_capped_to_the_newest() {
    let mut memory = StructuredMemory::new();
    memory.facts = (0..60).map(|i| fact(&format!("k{i}"), "v", i)).collect();
    cap_memory(&mut memory);
    assert_eq!(memory.facts.len(), 50);
    assert_eq!(memory.facts[0].recorded_at, 59);
    assert!(memory.facts.iter().all(|f| f.recorded_at >= 10));
}

#[test]
fn relevant_facts_come_first() {
    let mut memory = StructuredMemory::new();
    memory.facts = (0..20).map(|i| fact(&format!("k{i}"), "nothing", i)).collect();
    memory.facts.push(fact("build", "cargo build", 0));
    let picked = select_facts_for_injection(&memory, Some(&query("how to build")));
    assert_eq!(picked[0].key, "build");
    assert!(picked.len() <= memory.facts.len());
    assert_eq!(format_memory_for_injection(&StructuredMemory::new(), None), None);
    assert!(format_memory_for_injection(&memory, Some(&query("build")))
        .expect("memory")
        .contains("cargo build"));
}

#[test]
fn a_task_gets_what_it_needs() {
    let mut memory = StructuredMemory::new();
    memory.command_patterns = vec![CommandPattern {
        signature: "cargo test --all".into(),
        purpose: "run tests".into(),
        outcome: "passes".into(),
        confidence: MemoryConfidence::High,
        last_seen_at: 1,
    }];
    memory.project_signals = vec![ProjectSignal {
        key: "entry".into(),
        value: "src/main.rs".into(),
        recorded_at: 1,
    }];
    memory.open_loops = vec![OpenLoop {
        goal: "fix tests".into(),
        blocker: "flaky".into(),
        next_step: "rerun".into(),
        status: OpenLoopStatus::Open,
        updated_at: 1,
    }];
    let words = query("run tests").tokens;
    let picked: RetrievedTaskMemory =
        retrieve_task_memory(&memory, Some("run tests"), None, TaskIntent::Execute, words);
    assert!(!picked.is_empty());
    let caps = task_memory_caps(TaskIntent::Execute);
    assert!(picked.command_patterns.len() <= caps.command_patterns);
    assert!(format_task_memory_for_prompt(&picked, TaskIntent::Execute).is_some());
    let hints = format_task_tool_hints_for_prompt(&picked, TaskIntent::Execute).expect("hints");
    assert!(hints.contains("Prefer `exec` when validating or reusing known commands like `cargo test --all`."));
    assert!(task_tool_ranking_context(&picked).iter().any(|p| p.tool == "exec" && p.weight == 4));
    let key = task_memory_cache_key(Some("run"), None, TaskIntent::Execute);
    assert_ne!(key, task_memory_cache_key(Some("run"), None, TaskIntent::Inform));
}

#[test]
fn anchors_are_found_in_texts() {
    assert_eq!(
        extract_shell_command_anchor(" Cargo   build --release").as_deref(),
        Some("Cargo build --release")
    );
    assert_eq!(extract_shell_command_anchor("just words"), None);
    assert_eq!(extract_shell_command_anchor("cargo"), None);
    assert_eq!(
        extract_file_anchor("see (`src/main.rs`): for it").as_deref(),
        Some("src/main.rs`)")
    );
    assert_eq!(extract_file_anchor("edit \"Cargo.TOML\", then").as_deref(), Some("Cargo.TOML"));
    assert_eq!(
        extract_url_anchor("docs at (https://example.org/x).").as_deref(),
        Some("https://example.org/x)")
    );
    assert_eq!(
        extract_url_anchor("docs at https://example.org/x...").as_deref(),
        Some("https://example.org/x")
    );
    assert_eq!(extract_url_anchor("no address"), None);
}

#[test]
fn excerpts_leave_out_noise() {
    let mut calling = message("assistant", "## Context Summary (auto-generated)\nx");
    calling.tool_calls = Some(vec![ToolCall {
        id: "c".into(),
        call_type: "function".into(),
        gemini_thought_signature: None,
        function: FunctionCall { name: "exec".into(), arguments: "{}".into() },
    }]);
    let long = format!("first line\n{}", "y".repeat(300));
    let messages = vec![
        message("system", "rules"),
        message("user", "hi"),
        calling,
        message("tool", &long),
        message("tool", "  "),
        message("assistant", "bye"),
    ];
    assert_eq!(
        build_conversation_excerpt(&messages),
        "User: hi\n\n[tool: exec]\n\n[tool result: first line]\n\nAssistant: bye"
    );
    let wide = "é".repeat(150);
    assert_eq!(
        build_conversation_excerpt(&vec![message("tool", &wide)]),
        format!("[tool result: {wide}]")
    );
    let long_line = "é".repeat(201);
    assert_eq!(
        build_conversation_excerpt(&vec![message("tool", &long_line)]),
        format!("[tool result: {}…]", "é".repeat(200))
    );
    let mut many: Vec<ChatMessage> = (0..50).map(|i| message("assistant", &format!("{i}"))).collect();
    many[5] = message("user", "question");
    let recent = prefilter_for_memory(&many);
    assert_eq!(recent[0].content.as_deref(), Some("question"));
    assert_eq!(recent.len(), 45);
}

#[test]
fn keys_are_stored_in_one_form() {
    assert_eq!(normalize_memory_fact_key(" Project / Stack: v2"), "project_stack_v2");
    assert_eq!(normalize_memory_fact_key("a@b"), "ab");
    assert_eq!(normalize_memory_fact_key("__--"), "");
    for key in [" Project / Stack: v2", "A..B", "x_", "Über Uns"] {
        let stored = normalize_memory_fact_key(key);
        assert_eq!(normalize_memory_fact_key(&stored), stored);
    }
}

#[test]
fn repetitions_are_dropped_once_and_for_all() {
    let mut memory = StructuredMemory::new();
    memory.user_context = Some("who".into());
    memory.updated_at = 4;
    memory.facts =
        vec![fact("Build Tool", " cargo  build ", 1), fact("build_tool", "cargo test", 2)];
    memory.lessons = vec![lesson("Title", "do", 3), lesson(" title ", "do", 5)];
    dedupe_structured_memory(&mut memory);
    assert_eq!(memory.facts, vec![fact("build_tool", "cargo test", 2)]);
    assert_eq!(memory.lessons.len(), 1);
    assert_eq!((memory.user_context.as_deref(), memory.updated_at), (Some("who"), 4));
    let once = memory.copy();
    dedupe_structured_memory(&mut memory);
    assert!(memory.says_same(&once));
}

#[test]
fn limits_drop_the_oldest_records() {
    let mut memory = StructuredMemory::new();
    memory.facts = (0..MAX_MEMORY_FACTS as u64 + 2).map(|i| fact(&format!("k{i}"), "v", i)).collect();
    memory.project_signals = (0..MAX_MEMORY_PROJECT_SIGNALS + 1)
        .map(|i| ProjectSignal { key: format!("k{:03}", 900 - i), value: "v".into(), recorded_at: 1 })
        .collect();
    cap_memory(&mut memory);
    assert_eq!(memory.facts.len(), MAX_MEMORY_FACTS);
    assert_eq!(memory.facts[0].recorded_at, MAX_MEMORY_FACTS as u64 + 1);
    assert!(memory.facts.iter().all(|f| f.recorded_at >= 2));
    assert_eq!(memory.project_signals.len(), MAX_MEMORY_PROJECT_SIGNALS);
    assert!(memory.project_signals.iter().all(|s| s.key != "k900"));
    assert!(memory.project_signals.windows(2).all(|w| w[0].key < w[1].key));
}

#[test]
fn full_queues_keep_the_newest_request() {
    assert_eq!(enqueue_step(false, 0), QueueAction::Append);
    assert_eq!(enqueue_step(false, MEMORY_QUEUE_CAPACITY - 1), QueueAction::Append);
    assert_eq!(enqueue_step(false, MEMORY_QUEUE_CAPACITY), QueueAction::ReplaceLatest);
    assert_eq!(enqueue_step(true, 0), QueueAction::Ignore);
    assert!(StructuredMemory::loaded(None).is_empty());
    assert!(StructuredMemory::loaded(Some(Err("broken".into()))).is_empty());
    let mut memory = StructuredMemory::new();
    memory.updated_at = 9;
    assert_eq!(StructuredMemory::loaded(Some(Ok(memory))).updated_at, 9);
}

#[test]
fn many_texts_are_scored() {
    let parts: Vec<String> = ["a", "b", "run it", "run", "c", "d"].map(String::from).to_vec();
    assert_eq!(composite_memory_relevance_score(&parts, &vec!["run".into()], "run"), 8 + 2 + 4);
}

#[test]
fn updates_start_only_with_something_to_say() {
    let memory = StructuredMemory::new();
    match begin_memory_update(&memory, "{}", &vec![message("user", "  ")]) {
        MemoryUpdateStart::Ask(messages) => {
            assert!(messages[1].content.as_deref().unwrap_or("").ends_with("User:   "));
        }
        MemoryUpdateStart::Nothing(_) => panic!("a blank line is still shown with its speaker"),
    }
    match begin_memory_update(&memory, "{}", &Vec::new()) {
        MemoryUpdateStart::Nothing(stats) => assert!(!stats.changed),
        MemoryUpdateStart::Ask(_) => panic!("nothing to ask"),
    }
}

#[test]
fn a_reply_changes_the_memory_or_leaves_it() {
    let usage = settle_usage(Some(5), None, 1, 2);
    assert_eq!(usage.input_source, UsageSource::Provider);
    assert_eq!(usage.output_tokens, 2);
    let mut memory = StructuredMemory::new();
    let reply = r#"{"update_facts":[{"key":"k","value":"v"}]}"#;
    let stats = process_memory_update(&mut memory, reply, reply, 3, usage, 77).expect("applies");
    assert!(stats.changed);
    assert_eq!((stats.facts_before, stats.facts_after), (0, 1));
    assert_eq!(memory.updated_at, 77);

    let stats = process_memory_update(&mut memory, " ", "", 3, usage, 99).expect("blank");
    assert!(!stats.changed);
    assert_eq!(memory.updated_at, 77);
    let error = process_memory_update(&mut memory, "x", "nope", 3, usage, 99).expect_err("broken");
    assert!(error.starts_with("parse LLM response: "));
    assert_eq!(memory.updated_at, 77);
}

#[test]
fn the_updater_waits_for_quiet() {
    assert_eq!(memory_updater_step(false, UpdaterEvent::Requested), (true, UpdaterAction::Hold));
    assert_eq!(memory_updater_step(true, UpdaterEvent::Requested), (true, UpdaterAction::Replace));
    assert_eq!(memory_updater_step(true, UpdaterEvent::Quiet), (false, UpdaterAction::Process));
    assert_eq!(memory_updater_step(true, UpdaterEvent::Cancelled), (false, UpdaterAction::Stop));
    assert_eq!(memory_updater_step(false, UpdaterEvent::Closed), (false, UpdaterAction::Stop));
}

#[test]
fn the_queue_counts_what_happens() {
    let mut s = MemoryQueueStatusSnapshot::idle();
    s.note_enqueued("m", 100);
    s.note_replaced("m2", 101);
    s.note_started("m2", 12, 102);
    s.note_finished(&MemoryUpdateOutcome::Failed("boom".into()), 30, 103);
    let shown = format_queue_status(&s, 163);
    assert!(shown.contains("State: idle"));
    assert!(shown.contains("Attempts: enqueued 1 | started 1 | ok 0 | failed 1 | timed out 0"));
    assert!(shown.contains("Debounce replacements: 1"));
    assert!(shown.contains("Last excerpt: 12 chars"));
    assert!(shown.contains("Last failure: 1m ago"));
    assert!(shown.contains("Last error: boom"));
    s.note_finished(&MemoryUpdateOutcome::TimedOut, 30, 104);
    assert_eq!((s.timed_out, s.last_error.as_deref()), (1, Some("memory update timed out")));
    assert_eq!(memory_runtime_status(None, 0), "**Memory Updater**\nState: unavailable in this process");
}

#[test]
fn the_log_tells_of_each_update() {
    let memory = StructuredMemory::new();
    let base = build_audit_baseline(&memory, &vec![message("user", "hi")]);
    assert_eq!(base.excerpt_chars, 8);
    let record = audit_record(&base, &MemoryUpdateOutcome::Failed("boom".into()), "m", 5, 100);
    assert_eq!((record.status.as_str(), record.error.as_deref()), ("error", Some("boom")));
    let shown = memory_debug_status(None, &vec![record.copy()], 100);
    assert!(shown.ends_with(
        "- just now | error | model m | excerpt 8 chars | facts 0 -> 0 | entries 0 -> 0 | 5 ms | boom"
    ));
    assert!(memory_debug_status(None, &Vec::new(), 0).ends_with("\nRecent audit entries: none"));

    let stamped = |t: u64| {
        let mut r: MemoryAuditRecord = record.copy();
        r.timestamp = t;
        Some(r)
    };
    let recent = read_recent_memory_audit(&vec![stamped(1), None, stamped(2), stamped(3)], 2);
    assert_eq!(recent.iter().map(|r| r.timestamp).collect::<Vec<_>>(), [2, 3]);
    assert_eq!(rotate_audit("a\nb\nc\n"), "b\nc\n");
    assert!(audit_needs_rotation(256_001));
    assert!(!audit_needs_rotation(256_000));
}

#[test]
fn the_memory_is_shown_in_words() {
    assert_eq!(
        memory_status(&StructuredMemory::new(), 0),
        "Structured memory: empty (will populate after first conversation)"
    );
    let mut memory = StructuredMemory::new();
    memory.facts = vec![fact("k", &"v".repeat(90), 1)];
    memory.lessons = vec![lesson("t", "r", 1)];
    memory.updated_at = 10;
    let shown = memory_status(&memory, 10 + 7200);
    assert!(shown.starts_with("**Structured Memory** (1 facts, 1 lessons)\nFacts:\n  1. **k**: "));
    assert!(shown.contains("v…"));
    assert!(shown.contains("  1. **t** [high]: when always; r"));
    assert!(shown.ends_with("Last updated: 2h ago"));
    assert_eq!(format_relative_age(86400 * 3), "3d ago");
    assert_eq!(timestamp_label(0, 5), None);
    assert_eq!(timestamp_label(5, 1).as_deref(), Some("just now"));
}

fn open_loop(goal: &str, next_step: &str, at: u64) -> OpenLoop {
    OpenLoop {
        goal: goal.into(),
        blocker: "none".into(),
        next_step: next_step.into(),
        status: OpenLoopStatus::Open,
        updated_at: at,
    }
}

fn pattern(signature: &str, purpose: &str, at: u64) -> CommandPattern {
    CommandPattern {
        signature: signature.into(),
        purpose: purpose.into(),
        outcome: "ok".into(),
        confidence: MemoryConfidence::Medium,
        last_seen_at: at,
    }
}

fn signal(key: &str, value: &str, at: u64) -> ProjectSignal {
    ProjectSignal { key: key.into(), value: value.into(), recorded_at: at }
}

#[test]
fn reports_replace_what_changed_and_refresh_the_rest() {
    let mut loops = vec![open_loop("Ship", "tag", 7)];
    upsert_open_loop(&mut loops, open_loop(" ship ", "tag", 3));
    assert_eq!((loops.len(), loops[0].updated_at), (1, 7));
    upsert_open_loop(&mut loops, open_loop("ship", "push", 3));
    assert_eq!((loops.len(), loops[0].next_step.as_str(), loops[0].updated_at), (1, "push", 3));
    upsert_open_loop(&mut loops, open_loop("Test", "run", 4));
    assert_eq!(loops.len(), 2);

    let mut patterns = vec![pattern("cargo test", "check", 1)];
    upsert_command_pattern(&mut patterns, pattern("Cargo  test", "check", 9));
    assert_eq!((patterns.len(), patterns[0].last_seen_at), (1, 9));
    upsert_command_pattern(&mut patterns, pattern("cargo test", "verify", 2));
    assert_eq!((patterns[0].purpose.as_str(), patterns[0].last_seen_at), ("verify", 2));

    let mut signals = vec![signal("entry", "src/main.rs", 5)];
    upsert_project_signal(&mut signals, signal("entry", "src/main.rs", 8));
    assert_eq!((signals.len(), signals[0].recorded_at), (1, 8));
    upsert_project_signal(&mut signals, signal("entry", "src/lib.rs", 2));
    assert_eq!((signals.len(), signals[0].value.as_str()), (1, "src/lib.rs"));
}

#[test]
fn relevance_counts_phrases_words_and_parts() {
    let tokens = vec!["cargo".to_string(), "".to_string(), "test".to_string()];
    let parts = vec!["Cargo".to_string(), "runs tests".to_string()];
    assert_eq!(composite_memory_relevance_score(&parts, &tokens, "cargo test"), 4 + 2);
    assert_eq!(composite_memory_relevance_score(&parts, &tokens, "cargo runs"), 8 + 4 + 2);
    assert_eq!(composite_memory_relevance_score(&parts, &Vec::new(), "cargo"), 0);
    assert_eq!(fact_relevance_score(&fact("cargo", "test", 0), &tokens, "cargo test"), 8 + 8);
    assert_eq!(lesson_relevance_score(&lesson("cargo", "x", 0), &tokens, "zzz"), 4);
    assert_eq!(open_loop_relevance_score(&open_loop("tests", "x", 0), &tokens, ""), 2);
    assert_eq!(
        command_pattern_relevance_score(&pattern("cargo test", "x", 0), &tokens, "cargo test"),
        8 + 2 + 2
    );
    assert_eq!(project_signal_relevance_score(&signal("a", "b", 0), &tokens, "zzz"), 0);
}

#[test]
fn picked_memory_becomes_actions_and_anchors() {
    let picked = RetrievedTaskMemory {
        lessons: vec![lesson("a", "Run the tests", 0), lesson("b", "run the  TESTS", 0)],
        open_loops: vec![open_loop("Ship", "see docs/ship.md", 0)],
        command_patterns: vec![pattern("cargo test", "code changed", 0)],
        project_signals: vec![signal("docs", "https://example.org/guide", 0)],
        facts: vec![fact("stack", "rust", 0)],
    };
    assert_eq!(
        task_memory_next_actions(&picked, TaskIntent::Change),
        vec![
            "Revisit 'Ship': see docs/ship.md".to_string(),
            "Run the tests".to_string(),
            "Reuse `cargo test` when code changed".to_string(),
        ]
    );
    assert_eq!(task_memory_next_actions(&picked, TaskIntent::Inform).len(), 2);
    assert_eq!(
        task_memory_resolution_anchors(&picked),
        vec![
            "cargo test".to_string(),
            "https://example.org/guide".to_string(),
            "docs/ship.md".to_string(),
        ]
    );
}

#[test]
fn long_lines_are_cut_between_characters() {
    assert_eq!(truncate_inline("abc", 3), "abc");
    assert_eq!(truncate_inline("abcd", 3), "abc…");
    assert_eq!(truncate_inline("aéb", 2), "a…");
}
