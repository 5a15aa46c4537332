//! Sessions: messages, turns, names and commands.

use lingclaw::chat::{ChatMessage, FunctionCall, Provider, ToolCall};
use lingclaw::session::commands::{
    check_dangerous_command, format_size, is_admin_tool, matches_glob,
};
use lingclaw::session::events::{
    build_agent_hard_cap_events, generate_shutdown_token, token_from_words,
};
use lingclaw::session::history::{sanitize_session_messages, trim_incomplete_tool_calls};
use lingclaw::session::targets::{
    build_active_session_lines, resolve_session_target, SessionSummary, DEFAULT_PORT,
    MAIN_SESSION_ID,
};
use lingclaw::session::tokens::{estimate_tokens, message_token_len, prune_messages, turn_len};
use lingclaw::text::truncate;

fn summary(id: &str, name: &str, model_override: Option<&str>) -> SessionSummary {
    SessionSummary {
        id: id.to_string(),
        name: name.to_string(),
        model_override: model_override.map(|value| value.to_string()),
    }
}

#[test]
fn prune_messages_removes_complete_turns_without_recomputing_from_scratch() {
    let mut messages = vec![
        ChatMessage {
            role: "system".into(),
            content: Some("system".into()),
            images: None,
            thinking: None,
            anthropic_thinking_blocks: None,
            tool_calls: None,
            tool_call_id: None,
            timestamp: None,
        },
        ChatMessage {
            role: "user".into(),
            content: Some("a".repeat(500)),
            images: None,
            thinking: None,
            anthropic_thinking_blocks: None,
            tool_calls: None,
            tool_call_id: None,
            timestamp: None,
        },
        ChatMessage {
            role: "assistant".into(),
            content: Some("b".repeat(500)),
            images: None,
            thinking: None,
            anthropic_thinking_blocks: None,
            tool_calls: None,
            tool_call_id: None,
            timestamp: None,
        },
        ChatMessage {
            role: "user".into(),
            content: Some("keep".into()),
            images: None,
            thinking: None,
            anthropic_thinking_blocks: None,
            tool_calls: None,
            tool_call_id: None,
            timestamp: None,
        },
    ];

    prune_messages(&mut messages, 50);

    assert_eq!(messages.len(), 2);
    assert_eq!(messages[0].role, "system");
    assert_eq!(messages[1].content.as_deref(), Some("keep"));
}

#[test]
fn sanitize_session_messages_removes_empty_assistant_reply() {
    let mut messages = vec![
        ChatMessage {
            role: "system".into(),
            content: Some("system".into()),
            images: None,
            thinking: None,
            anthropic_thinking_blocks: None,
            tool_calls: None,
            tool_call_id: None,
            timestamp: None,
        },
        ChatMessage {
            role: "assistant".into(),
            content: None,
            images: None,
            thinking: None,
            anthropic_thinking_blocks: None,
            tool_calls: None,
            tool_call_id: None,
            timestamp: Some(1),
        },
        ChatMessage {
            role: "assistant".into(),
            content: Some(String::new()),
            images: None,
            thinking: None,
            anthropic_thinking_blocks: None,
            tool_calls: Some(vec![ToolCall {
                id: "call-1".into(),
                call_type: "function".into(),
                gemini_thought_signature: None,
                function: FunctionCall {
                    name: "exec".into(),
                    arguments: "{}".into(),
                },
            }]),
            tool_call_id: None,
            timestamp: Some(2),
        },
    ];

    sanitize_session_messages(&mut messages);

    assert_eq!(messages.len(), 2);
    assert_eq!(messages[0].role, "system");
    assert_eq!(messages[1].role, "assistant");
    assert!(messages[1].has_tool_calls());
}

#[test]
fn generate_shutdown_token_returns_64_hex_chars() {
    let token = generate_shutdown_token();

    assert_eq!(token.len(), 64);
    assert!(token.chars().all(|ch| ch.is_ascii_hexdigit()));
}

#[test]
fn prune_messages_tracks_removal_count() {
    let mut messages = vec![
        ChatMessage {
            role: "system".into(),
            content: Some("sys".into()),
            images: None,
            thinking: None,
            anthropic_thinking_blocks: None,
            tool_calls: None,
            tool_call_id: None,
            timestamp: None,
        },
        ChatMessage {
            role: "user".into(),
            content: Some("a".repeat(200_000)),
            images: None,
            thinking: None,
            anthropic_thinking_blocks: None,
            tool_calls: None,
            tool_call_id: None,
            timestamp: None,
        },
        ChatMessage {
            role: "assistant".into(),
            content: Some("b".repeat(200_000)),
            images: None,
            thinking: None,
            anthropic_thinking_blocks: None,
            tool_calls: None,
            tool_call_id: None,
            timestamp: None,
        },
        ChatMessage {
            role: "user".into(),
            content: Some("latest".into()),
            images: None,
            thinking: None,
            anthropic_thinking_blocks: None,
            tool_calls: None,
            tool_call_id: None,
            timestamp: None,
        },
    ];
    let before = messages.len();
    prune_messages(&mut messages, 1000); // very small limit → must prune
    let pruned = before - messages.len();
    assert!(pruned > 0, "should have removed at least one turn");
    // System + latest user should remain
    assert_eq!(messages[0].role, "system");
    assert!(messages.last().unwrap().content.as_deref() == Some("latest"));
}

#[test]
fn dangerous_command_blocks_rm_rf_root() {
    assert!(check_dangerous_command("rm -rf /").is_some());
    assert!(check_dangerous_command("sudo rm -rf / --no-preserve-root").is_some());
    assert!(check_dangerous_command("rm -rf /*").is_some());
}

#[test]
fn dangerous_command_blocks_mkfs_and_dd() {
    assert!(check_dangerous_command("mkfs.ext4 /dev/sda1").is_some());
    assert!(check_dangerous_command("dd if=/dev/zero of=/dev/sda").is_some());
}

#[test]
fn dangerous_command_blocks_fork_bomb_and_dev_overwrite() {
    assert!(check_dangerous_command(":(){ :|:& };:").is_some());
    assert!(check_dangerous_command("echo test > /dev/sda").is_some());
}

#[test]
fn dangerous_command_blocks_windows_destructive_commands() {
    assert!(check_dangerous_command("format c:").is_some());
    assert!(check_dangerous_command("FORMAT C:").is_some()); // case-insensitive
    assert!(check_dangerous_command("del /f /s /q c:\\windows").is_some());
    assert!(check_dangerous_command("rd /s /q c:\\").is_some());
}

#[test]
fn dangerous_command_allows_safe_commands() {
    assert!(check_dangerous_command("ls -la").is_none());
    assert!(check_dangerous_command("cat /dev/null").is_none());
    assert!(check_dangerous_command("echo hello").is_none());
    assert!(check_dangerous_command("cargo build").is_none());
    assert!(check_dangerous_command("rm temp.txt").is_none());
}

#[test]
fn truncate_short_string_unchanged() {
    let s = "hello world";
    assert_eq!(truncate(s, 100), s);
}

#[test]
fn truncate_ascii_at_boundary() {
    let s = "abcdefghij"; // 10 bytes
    let result = truncate(s, 5);
    assert!(result.starts_with("abcde"));
    assert!(result.contains("[truncated at 5 bytes, total 10 bytes]"));
}

#[test]
fn truncate_utf8_multibyte_boundary() {
    let s = "\u{4f60}\u{597d}\u{4e16}\u{754c}"; // 12 bytes (3 per char)
    let result = truncate(s, 7); // mid-char boundary
                                 // Should cut at char boundary <= 7, which is 6 (after first 2 chars)
    assert!(result.starts_with("\u{4f60}\u{597d}"));
    assert!(result.contains("[truncated at 6 bytes"));
}

#[test]
fn truncate_emoji_boundary() {
    let s = "\u{1F980}\u{1F980}\u{1F980}"; // 12 bytes (4 per emoji)
    let result = truncate(s, 5); // mid-emoji
    assert!(result.starts_with("\u{1F980}"));
    assert!(result.contains("[truncated at 4 bytes"));
}

#[test]
fn format_size_bytes() {
    assert_eq!(format_size(0), "0 B");
    assert_eq!(format_size(512), "512 B");
    assert_eq!(format_size(1023), "1023 B");
}

#[test]
fn format_size_kilobytes() {
    assert_eq!(format_size(1024), "1.0 KB");
    assert_eq!(format_size(1536), "1.5 KB");
}

#[test]
fn format_size_megabytes() {
    assert_eq!(format_size(1024 * 1024), "1.0 MB");
    assert_eq!(format_size(2 * 1024 * 1024), "2.0 MB");
}

#[test]
fn matches_glob_extension_pattern() {
    assert!(matches_glob("main.rs", "*.rs"));
    assert!(!matches_glob("main.py", "*.rs"));
    assert!(matches_glob("deeply.nested.test.rs", "*.rs"));
}

#[test]
fn matches_glob_prefix_pattern() {
    assert!(matches_glob("test_main.rs", "test_*"));
    assert!(!matches_glob("main_test.rs", "test_*"));
}

#[test]
fn matches_glob_exact_match() {
    assert!(matches_glob("Cargo.toml", "Cargo.toml"));
    assert!(!matches_glob("Cargo.lock", "Cargo.toml"));
}

#[test]
fn message_token_len_empty_message() {
    let msg = ChatMessage {
        role: "user".into(),
        content: None,
        images: None,
        thinking: None,
        anthropic_thinking_blocks: None,
        tool_calls: None,
        tool_call_id: None,
        timestamp: None,
    };
    // (0 + 0 + 10) / 4 = 2
    assert_eq!(message_token_len(&msg), 2);
}

#[test]
fn message_token_len_content_only() {
    let msg = ChatMessage {
        role: "user".into(),
        content: Some("hello world".into()), // 11 chars
        images: None,
        thinking: None,
        anthropic_thinking_blocks: None,
        tool_calls: None,
        tool_call_id: None,
        timestamp: None,
    };
    // (11 + 0 + 10) / 4 = 5
    assert_eq!(message_token_len(&msg), 5);
}

#[test]
fn message_token_len_with_tool_calls() {
    let msg = ChatMessage {
        role: "assistant".into(),
        content: None,
        images: None,
        thinking: None,
        anthropic_thinking_blocks: None,
        tool_calls: Some(vec![ToolCall {
            id: "tc1".into(),
            call_type: "function".into(),
            gemini_thought_signature: None,
            function: FunctionCall {
                name: "exec".into(),                 // 4
                arguments: r#"{"cmd":"ls"}"#.into(), // 12
            },
        }]),
        tool_call_id: None,
        timestamp: None,
    };
    // (0 + (4+12) + 10) / 4 = 26/4 = 6
    assert_eq!(message_token_len(&msg), 6);
}

#[test]
fn estimate_tokens_sums_messages() {
    let messages = vec![
        ChatMessage {
            role: "system".into(),
            content: Some("sys".into()), // 3
            images: None,
            thinking: None,
            anthropic_thinking_blocks: None,
            tool_calls: None,
            tool_call_id: None,
            timestamp: None,
        },
        ChatMessage {
            role: "user".into(),
            content: Some("hello".into()), // 5
            images: None,
            thinking: None,
            anthropic_thinking_blocks: None,
            tool_calls: None,
            tool_call_id: None,
            timestamp: None,
        },
    ];
    // (3+0+10)/4 + (5+0+10)/4 = 3 + 3 = 6
    assert_eq!(estimate_tokens(&messages), 6);
}

#[test]
fn turn_len_standalone_user() {
    let messages = vec![ChatMessage {
        role: "user".into(),
        content: Some("hi".into()),
        images: None,
        thinking: None,
        anthropic_thinking_blocks: None,
        tool_calls: None,
        tool_call_id: None,
        timestamp: None,
    }];
    assert_eq!(turn_len(&messages, 0), 1);
}

#[test]
fn turn_len_user_plus_assistant() {
    let messages = vec![
        ChatMessage {
            role: "user".into(),
            content: Some("hi".into()),
            images: None,
            thinking: None,
            anthropic_thinking_blocks: None,
            tool_calls: None,
            tool_call_id: None,
            timestamp: None,
        },
        ChatMessage {
            role: "assistant".into(),
            content: Some("hello".into()),
            images: None,
            thinking: None,
            anthropic_thinking_blocks: None,
            tool_calls: None,
            tool_call_id: None,
            timestamp: None,
        },
    ];
    assert_eq!(turn_len(&messages, 0), 2);
}

#[test]
fn turn_len_user_assistant_with_tool_calls_and_results() {
    let messages = vec![
        ChatMessage {
            role: "user".into(),
            content: Some("list files".into()),
            images: None,
            thinking: None,
            anthropic_thinking_blocks: None,
            tool_calls: None,
            tool_call_id: None,
            timestamp: None,
        },
        ChatMessage {
            role: "assistant".into(),
            content: None,
            images: None,
            thinking: None,
            anthropic_thinking_blocks: None,
            tool_calls: Some(vec![ToolCall {
                id: "tc1".into(),
                call_type: "function".into(),
                gemini_thought_signature: None,
                function: FunctionCall {
                    name: "list_dir".into(),
                    arguments: "{}".into(),
                },
            }]),
            tool_call_id: None,
            timestamp: None,
        },
        ChatMessage {
            role: "tool".into(),
            content: Some("file1.txt\nfile2.txt".into()),
            images: None,
            thinking: None,
            anthropic_thinking_blocks: None,
            tool_calls: None,
            tool_call_id: Some("tc1".into()),
            timestamp: None,
        },
    ];
    // user + assistant(tool_calls) + 1 tool result = 3
    assert_eq!(turn_len(&messages, 0), 3);
}

#[test]
fn turn_len_orphan_assistant_with_tool_results() {
    let messages = vec![
        ChatMessage {
            role: "assistant".into(),
            content: None,
            images: None,
            thinking: None,
            anthropic_thinking_blocks: None,
            tool_calls: Some(vec![ToolCall {
                id: "tc1".into(),
                call_type: "function".into(),
                gemini_thought_signature: None,
                function: FunctionCall {
                    name: "exec".into(),
                    arguments: "{}".into(),
                },
            }]),
            tool_call_id: None,
            timestamp: None,
        },
        ChatMessage {
            role: "tool".into(),
            content: Some("ok".into()),
            images: None,
            thinking: None,
            anthropic_thinking_blocks: None,
            tool_calls: None,
            tool_call_id: Some("tc1".into()),
            timestamp: None,
        },
        ChatMessage {
            role: "tool".into(),
            content: Some("ok2".into()),
            images: None,
            thinking: None,
            anthropic_thinking_blocks: None,
            tool_calls: None,
            tool_call_id: Some("tc2".into()),
            timestamp: None,
        },
    ];
    // assistant + 2 tool results = 3
    assert_eq!(turn_len(&messages, 0), 3);
}

#[test]
fn turn_len_standalone_assistant_text() {
    let messages = vec![ChatMessage {
        role: "assistant".into(),
        content: Some("just text".into()),
        images: None,
        thinking: None,
        anthropic_thinking_blocks: None,
        tool_calls: None,
        tool_call_id: None,
        timestamp: None,
    }];
    assert_eq!(turn_len(&messages, 0), 1);
}

#[test]
fn chat_message_has_nonempty_content() {
    let none_content = ChatMessage {
        role: "user".into(),
        content: None,
        images: None,
        thinking: None,
        anthropic_thinking_blocks: None,
        tool_calls: None,
        tool_call_id: None,
        timestamp: None,
    };
    assert!(!none_content.has_nonempty_content());

    let empty_content = ChatMessage {
        role: "user".into(),
        content: Some(String::new()),
        images: None,
        thinking: None,
        anthropic_thinking_blocks: None,
        tool_calls: None,
        tool_call_id: None,
        timestamp: None,
    };
    assert!(!empty_content.has_nonempty_content());

    let with_content = ChatMessage {
        role: "user".into(),
        content: Some("hello".into()),
        images: None,
        thinking: None,
        anthropic_thinking_blocks: None,
        tool_calls: None,
        tool_call_id: None,
        timestamp: None,
    };
    assert!(with_content.has_nonempty_content());
}

#[test]
fn chat_message_has_tool_calls() {
    let none_tc = ChatMessage {
        role: "assistant".into(),
        content: None,
        images: None,
        thinking: None,
        anthropic_thinking_blocks: None,
        tool_calls: None,
        tool_call_id: None,
        timestamp: None,
    };
    assert!(!none_tc.has_tool_calls());

    let empty_tc = ChatMessage {
        role: "assistant".into(),
        content: None,
        images: None,
        thinking: None,
        anthropic_thinking_blocks: None,
        tool_calls: Some(vec![]),
        tool_call_id: None,
        timestamp: None,
    };
    assert!(!empty_tc.has_tool_calls());

    let with_tc = ChatMessage {
        role: "assistant".into(),
        content: None,
        images: None,
        thinking: None,
        anthropic_thinking_blocks: None,
        tool_calls: Some(vec![ToolCall {
            id: "tc1".into(),
            call_type: "function".into(),
            gemini_thought_signature: None,
            function: FunctionCall {
                name: "exec".into(),
                arguments: "{}".into(),
            },
        }]),
        tool_call_id: None,
        timestamp: None,
    };
    assert!(with_tc.has_tool_calls());
}

#[test]
fn chat_message_is_empty_assistant_message() {
    let empty_asst = ChatMessage {
        role: "assistant".into(),
        content: None,
        images: None,
        thinking: None,
        anthropic_thinking_blocks: None,
        tool_calls: None,
        tool_call_id: None,
        timestamp: None,
    };
    assert!(empty_asst.is_empty_assistant_message());

    let with_content = ChatMessage {
        role: "assistant".into(),
        content: Some("reply".into()),
        images: None,
        thinking: None,
        anthropic_thinking_blocks: None,
        tool_calls: None,
        tool_call_id: None,
        timestamp: None,
    };
    assert!(!with_content.is_empty_assistant_message());

    let user_msg = ChatMessage {
        role: "user".into(),
        content: None,
        images: None,
        thinking: None,
        anthropic_thinking_blocks: None,
        tool_calls: None,
        tool_call_id: None,
        timestamp: None,
    };
    assert!(!user_msg.is_empty_assistant_message());
}

#[test]
fn is_admin_tool_recognizes_admin_tools() {
    assert!(is_admin_tool("list_sessions"));
    assert!(is_admin_tool("delete_session"));
}

#[test]
fn is_admin_tool_rejects_regular_tools() {
    assert!(!is_admin_tool("exec"));
    assert!(!is_admin_tool("read_file"));
    assert!(!is_admin_tool("think"));
    assert!(!is_admin_tool("http_fetch"));
}

#[test]
fn prune_messages_removes_complete_tool_turn() {
    let big = "x".repeat(200_000);
    let mut messages = vec![
        ChatMessage {
            role: "system".into(),
            content: Some("sys".into()),
            images: None,
            thinking: None,
            anthropic_thinking_blocks: None,
            tool_calls: None,
            tool_call_id: None,
            timestamp: None,
        },
        ChatMessage {
            role: "user".into(),
            content: Some(big.clone()),
            images: None,
            thinking: None,
            anthropic_thinking_blocks: None,
            tool_calls: None,
            tool_call_id: None,
            timestamp: None,
        },
        ChatMessage {
            role: "assistant".into(),
            content: None,
            images: None,
            thinking: None,
            anthropic_thinking_blocks: None,
            tool_calls: Some(vec![ToolCall {
                id: "tc1".into(),
                call_type: "function".into(),
                gemini_thought_signature: None,
                function: FunctionCall {
                    name: "exec".into(),
                    arguments: big.clone(),
                },
            }]),
            tool_call_id: None,
            timestamp: None,
        },
        ChatMessage {
            role: "tool".into(),
            content: Some(big.clone()),
            images: None,
            thinking: None,
            anthropic_thinking_blocks: None,
            tool_calls: None,
            tool_call_id: Some("tc1".into()),
            timestamp: None,
        },
        ChatMessage {
            role: "user".into(),
            content: Some("latest".into()),
            images: None,
            thinking: None,
            anthropic_thinking_blocks: None,
            tool_calls: None,
            tool_call_id: None,
            timestamp: None,
        },
    ];
    let before = messages.len();
    prune_messages(&mut messages, 1000);
    let pruned = before - messages.len();
    assert!(
        pruned >= 3,
        "should remove complete tool turn, pruned={pruned}"
    );
    assert_eq!(messages[0].role, "system");
    assert!(messages.last().unwrap().content.as_deref() == Some("latest"));
}

#[test]
fn trim_incomplete_tool_calls_preserves_complete_transaction() {
    let mut messages = vec![
        ChatMessage {
            role: "system".into(),
            content: Some("sys".into()),
            images: None,
            thinking: None,
            anthropic_thinking_blocks: None,
            tool_calls: None,
            tool_call_id: None,
            timestamp: None,
        },
        ChatMessage {
            role: "user".into(),
            content: Some("do something".into()),
            images: None,
            thinking: None,
            anthropic_thinking_blocks: None,
            tool_calls: None,
            tool_call_id: None,
            timestamp: None,
        },
        ChatMessage {
            role: "assistant".into(),
            content: None,
            images: None,
            thinking: None,
            anthropic_thinking_blocks: None,
            tool_calls: Some(vec![
                ToolCall {
                    id: "tc1".into(),
                    call_type: "function".into(),
                    gemini_thought_signature: None,
                    function: FunctionCall {
                        name: "exec".into(),
                        arguments: r#"{"cmd":"ls"}"#.into(),
                    },
                },
                ToolCall {
                    id: "tc2".into(),
                    call_type: "function".into(),
                    gemini_thought_signature: None,
                    function: FunctionCall {
                        name: "read_file".into(),
                        arguments: r#"{"path":"a.txt"}"#.into(),
                    },
                },
            ]),
            tool_call_id: None,
            timestamp: None,
        },
        ChatMessage {
            role: "tool".into(),
            content: Some("result1".into()),
            images: None,
            thinking: None,
            anthropic_thinking_blocks: None,
            tool_calls: None,
            tool_call_id: Some("tc1".into()),
            timestamp: None,
        },
        ChatMessage {
            role: "tool".into(),
            content: Some("result2".into()),
            images: None,
            thinking: None,
            anthropic_thinking_blocks: None,
            tool_calls: None,
            tool_call_id: Some("tc2".into()),
            timestamp: None,
        },
    ];
    let before_len = messages.len();
    trim_incomplete_tool_calls(&mut messages);
    assert_eq!(messages.len(), before_len);
}

#[test]
fn default_port_constant_is_18989() {
    assert_eq!(DEFAULT_PORT, 18989);
}

#[test]
fn provider_detect_accepts_provider_prefixed_model_refs() {
    assert_eq!(
        Provider::detect(
            "anthropic/sonnet-4-20250514",
            "https://api.openai.com/v1",
            None,
        ),
        Provider::Anthropic
    );
    assert_eq!(
        Provider::detect("openai/gpt-4o-mini", "https://api.anthropic.com", None),
        Provider::OpenAI
    );
}

#[test]
fn resolve_session_target_accepts_unique_prefix() {
    let known_ids = vec![
        "main".to_string(),
        "abc1234567890".to_string(),
        "def9999999999".to_string(),
    ];

    let resolved = resolve_session_target("abc123", &known_ids).expect("prefix should resolve");

    assert_eq!(resolved, "abc1234567890");
}

#[test]
fn resolve_session_target_rejects_ambiguous_prefix() {
    let known_ids = vec!["abc1234567890".to_string(), "abc1239999999".to_string()];

    let err = resolve_session_target("abc123", &known_ids).expect_err("prefix should be ambiguous");

    assert!(err.contains("ambiguous"));
}

#[test]
fn resolved_main_prefix_is_still_protected() {
    let known_ids = vec![MAIN_SESSION_ID.to_string(), "misc-session".to_string()];

    let resolved = resolve_session_target("ma", &known_ids).expect("prefix should resolve");

    assert_eq!(resolved, MAIN_SESSION_ID);
}

#[test]
fn build_active_session_lines_lists_only_active_sessions_with_full_ids() {
    let sessions = vec![
        summary(MAIN_SESSION_ID, "Main", None),
        summary("idle-session-123", "Idle", Some("custom-model")),
    ];
    let active_ids = vec![MAIN_SESSION_ID.to_string()];

    let lines = build_active_session_lines(&sessions, &active_ids, "gpt-4o-mini");

    assert_eq!(lines.len(), 1);
    assert!(lines[0].contains(MAIN_SESSION_ID));
    assert!(lines[0].contains("Main"));
    assert!(!lines[0].contains("Idle"));
}

#[test]
fn hard_cap_events_include_terminal_done_message() {
    let (system_event, done_event) = build_agent_hard_cap_events(200, 3, 7);

    let text = |event: &lingclaw::json::Json, key: &str| -> String {
        event.get(key).and_then(|v| v.as_str()).unwrap_or("").to_string()
    };
    assert_eq!(text(&system_event, "type"), "system");
    assert_eq!(
        text(&system_event, "content"),
        "Detected abnormal tool loop (200 consecutive rounds). Stopping."
    );

    assert_eq!(text(&done_event, "type"), "done");
    assert_eq!(text(&done_event, "phase"), "hard_cap");
    assert_eq!(text(&done_event, "reason"), "hard_cap");
    assert_eq!(done_event.get("cycles").and_then(|v| v.as_u64()), Some(3));
    assert_eq!(done_event.get("tool_calls").and_then(|v| v.as_u64()), Some(7));
}

// ── further cases ──────────────────────────────────────────────────────────

#[test]
fn session_target_prefers_the_exact_name_and_reports_strangers() {
    let known = vec!["abc".to_string(), "abcdef".to_string()];
    assert_eq!(resolve_session_target("abc", &known), Ok("abc".to_string()));
    assert_eq!(
        resolve_session_target("zzz", &known),
        Err("session 'zzz' not found".to_string())
    );
}

#[test]
fn size_rounds_ties_to_the_even_tenth() {
    assert_eq!(format_size(1280), "1.2 KB");
    assert_eq!(format_size(1792), "1.8 KB");
    assert_eq!(format_size(1048575), "1024.0 KB");
}

fn plain(role: &str, content: &str) -> ChatMessage {
    ChatMessage {
        role: role.into(),
        content: Some(content.into()),
        images: None,
        thinking: None,
        anthropic_thinking_blocks: None,
        tool_calls: None,
        tool_call_id: None,
        timestamp: None,
    }
}

fn calling(ids: &[&str]) -> ChatMessage {
    let mut m = plain("assistant", "");
    m.tool_calls = Some(
        ids.iter()
            .map(|id| ToolCall {
                id: id.to_string(),
                call_type: "function".into(),
                gemini_thought_signature: None,
                function: FunctionCall { name: "exec".into(), arguments: "{}".into() },
            })
            .collect(),
    );
    m
}

fn answer(id: &str) -> ChatMessage {
    let mut m = plain("tool", "ok");
    m.tool_call_id = Some(id.into());
    m
}

#[test]
fn trim_cuts_before_the_first_unanswered_call() {
    let mut messages = vec![
        plain("system", "system"),
        calling(&["call_1", "call_2"]),
        answer("call_1"),
        plain("user", "after"),
    ];
    trim_incomplete_tool_calls(&mut messages);
    assert_eq!(messages.len(), 1);
    assert_eq!(messages[0].role, "system");
}

#[test]
fn prune_keeps_the_last_turn_whole_even_if_it_is_too_long() {
    let mut messages = vec![
        plain("system", "s"),
        plain("user", "old"),
        plain("user", &"x".repeat(400)),
        calling(&["a"]),
        answer("a"),
    ];
    prune_messages(&mut messages, 10);
    assert_eq!(messages.len(), 4);
    assert_eq!(messages[0].role, "system");
    assert_eq!(messages[1].content.as_deref().map(str::len), Some(400));
}

#[test]
fn prune_leaves_a_short_conversation_alone() {
    let mut messages = vec![plain("system", "s"), plain("user", "hello")];
    prune_messages(&mut messages, 1000);
    assert_eq!(messages.len(), 2);
}

#[test]
fn shutdown_tokens_differ() {
    assert_ne!(generate_shutdown_token(), generate_shutdown_token());
}

#[test]
fn provider_falls_back_to_the_address() {
    assert_eq!(
        Provider::detect("sonnet-4", "https://api.anthropic.com", None),
        Provider::Anthropic
    );
    assert_eq!(
        Provider::detect("gpt-4o", "https://api.openai.com/v1", None),
        Provider::OpenAI
    );
    assert_eq!(
        Provider::detect("openai/x", "https://api.openai.com/v1", Some("ollama")),
        Provider::Ollama
    );
}

#[test]
fn tokens_are_made_of_their_words() {
    assert_eq!(
        token_from_words(&vec![1, 2, 3, 4]),
        "73e200e2b048c86d4e8c86b86bf62bbda84c7384e34e250b01aa30ab29d234a4"
    );
    assert_ne!(generate_shutdown_token(), generate_shutdown_token());
}
