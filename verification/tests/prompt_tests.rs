//! The instructions of the system, skills and diagnostics.

use lingclaw::diagnostics::{RunDiagnostic, RunDiagnosticCode};
use lingclaw::json::Json;
use lingclaw::memory::model::{MemoryFact, StructuredMemory};
use lingclaw::memory::select::MemoryQuery;
use lingclaw::prompts::assembly::{
    load_memory_uncached, load_persona_uncached, MemoryFiles, PersonaFiles, PrefixParts,
    SystemPromptToolMode,
};
use lingclaw::prompts::bootstrap::{
    ensure_bootstrap_baseline, maybe_complete_bootstrap, migrate_legacy_agent_file,
    profile_file_has_user_edits, template_file_content, write_missing_templates,
};
use lingclaw::prompts::cache::{
    build_system_prompt_static_prefix_cached, cached_text, PrefixCache, PromptFileCache,
    PromptFileFingerprint,
};
use lingclaw::prompts::clock::LocalTimeSnapshot;
use lingclaw::prompts::frontmatter::{
    read_nonempty, read_prompt_nonempty, strip_yaml_frontmatter, unquote_yaml_value,
};
use lingclaw::prompts::skills::{
    discover_all_skills_uncached, discover_skills_by_source, discover_skills_in_dir,
    is_system_skill_disabled, is_system_skill_enabled, list_system_skill_groups,
    parse_skill_frontmatter, render_skills_catalog, resolve_skill_path, skills_cache_is_fresh,
    system_skill_relative_dir, SkillFolder, SkillMeta, SkillPlace, SkillSource,
};
use lingclaw::prompts::system::{
    build_system_prompt, build_system_prompt_with_query_cached,
    build_system_prompt_with_query_cached_for_tool_mode, PromptInputs,
};
use lingclaw::providers::caching::anthropic_system_payload;

fn skill(name: &str, description: &str, path: &str, source: SkillSource) -> SkillMeta {
    SkillMeta { name: name.into(), description: description.into(), path: path.into(), source }
}

fn folder(name: &str, file: Option<&str>, children: Vec<SkillFolder>) -> SkillFolder {
    SkillFolder { name: name.into(), skill_file: file.map(str::to_string), children }
}

#[test]
fn frontmatter_names_a_skill() {
    let s = parse_skill_frontmatter("\n---\nname: \"pdf\"\ndescription: 'Reads PDFs'\n---\nbody")
        .expect("skill");
    assert_eq!((s.name.as_str(), s.description.as_str()), ("pdf", "Reads PDFs"));
    assert!(parse_skill_frontmatter("---\ndescription: x\n---\n").is_none());
    assert!(parse_skill_frontmatter("name: x").is_none());
    assert!(parse_skill_frontmatter("---\nname: x\n").is_none());
    assert_eq!(unquote_yaml_value(" \"a b\" "), "a b");
    assert_eq!(unquote_yaml_value("'a\""), "'a\"");
}

#[test]
fn frontmatter_is_stripped_only_where_it_is_one() {
    assert_eq!(strip_yaml_frontmatter("\u{feff}---\nkey: v\n- item\n# note\n---\nbody"), "body");
    assert_eq!(strip_yaml_frontmatter("---\r\nkey: v\r\n---\r\nbody"), "body");
    let no_settings = "---\nnot settings\n---\nbody";
    assert_eq!(strip_yaml_frontmatter(no_settings), no_settings);
    let open = "---\nkey: v\nbody";
    assert_eq!(strip_yaml_frontmatter(open), open);
    assert_eq!(strip_yaml_frontmatter("plain"), "plain");
    assert_eq!(read_prompt_nonempty(Some("---\na: b\n---\n  ")), None);
    assert_eq!(read_nonempty(Some("  x ")).as_deref(), Some("x"));
    assert_eq!(read_nonempty(None), None);
}

#[test]
fn skills_are_found_in_nested_folders() {
    let root = folder(
        "skills",
        None,
        vec![
            folder(
                "org",
                None,
                vec![folder("pdf", Some("---\nname: pdf\n---\n"), Vec::new())],
            ),
            folder("broken", Some("no settings"), vec![folder("x", Some("---\nname: x\n---\n"), Vec::new())]),
        ],
    );
    let found = discover_skills_in_dir(&root, SkillSource::System, "system://skills/");
    assert_eq!(found.len(), 1);
    assert_eq!(found[0].path, "system://skills/org/pdf/SKILL.md");
}

#[test]
fn later_layers_hide_earlier_ones() {
    let system = vec![
        skill("pdf", "a", "system://skills/a/pdf/SKILL.md", SkillSource::System),
        skill("pdf", "b", "system://skills/b/pdf/SKILL.md", SkillSource::System),
        skill("zip", "", "system://skills/zip/SKILL.md", SkillSource::System),
    ];
    let both = discover_all_skills_uncached(&system, &Vec::new(), &Vec::new());
    assert_eq!(both.len(), 3);
    let session = vec![skill("pdf", "mine", "skills/pdf/SKILL.md", SkillSource::Session)];
    let merged = discover_all_skills_uncached(&system, &Vec::new(), &session);
    let names: Vec<&str> = merged.iter().map(|s| s.path.as_str()).collect();
    assert_eq!(names, ["skills/pdf/SKILL.md", "system://skills/zip/SKILL.md"]);
    assert_eq!(discover_skills_by_source(&system)[0].description, "a");
    assert_eq!(
        list_system_skill_groups(&vec!["b".into(), "a".into(), "b".into()]),
        ["a", "b", "b"]
    );
    assert!(skills_cache_is_fresh(true, true, 9));
    assert!(!skills_cache_is_fresh(true, true, 10));
}

#[test]
fn the_best_skills_are_described() {
    let skills: Vec<SkillMeta> = (0..7)
        .map(|i| {
            let d = if i == 6 { "makes Spreadsheets" } else { "other" };
            skill(&format!("s{i}"), d, &format!("p{i}"), SkillSource::Global)
        })
        .collect();
    let all = render_skills_catalog(&skills, None).expect("catalog");
    assert_eq!(all.matches("— other").count(), 6);
    let tokens = vec!["spreadsheets".to_string()];
    let ranked = render_skills_catalog(&skills, Some(&tokens)).expect("catalog");
    let lines: Vec<&str> = ranked.lines().collect();
    assert_eq!(lines[4], "- **s6** [`global`] — makes Spreadsheets (`p6`)");
    assert_eq!(lines[7], "- **s2** [`global`] (`p2`)");
    assert_eq!(ranked.matches(" — ").count(), 3);
    let none = vec!["zebra".to_string()];
    assert_eq!(render_skills_catalog(&skills, Some(&none)), Some(all));
    assert_eq!(render_skills_catalog(&Vec::new(), None), None);
}

#[test]
fn patterns_cover_directories_and_what_is_in_them() {
    let path = "system://skills/anthropics/pdf/SKILL.md";
    assert_eq!(system_skill_relative_dir(path).as_deref(), Some("anthropics/pdf"));
    assert_eq!(system_skill_relative_dir("a//b"), None);
    assert_eq!(system_skill_relative_dir("../x/SKILL.md"), None);
    assert!(is_system_skill_enabled(path, &vec!["anthropics".into()]));
    assert!(is_system_skill_enabled(path, &vec!["anthropics/pdf".into()]));
    assert!(!is_system_skill_disabled(path, &vec!["anthro".into()]));
    assert_eq!(resolve_skill_path("system://skills/a/b"), SkillPlace::System("a/b".into()));
    assert_eq!(resolve_skill_path("~/.lingclaw/skills"), SkillPlace::Global(String::new()));
    assert_eq!(resolve_skill_path("system://skills/../x"), SkillPlace::Nowhere);
    assert_eq!(resolve_skill_path("skills/x"), SkillPlace::Nowhere);
}

#[test]
fn time_is_local() {
    // 2024-02-29 23:30:00 UTC
    let t = LocalTimeSnapshot::from_datetime(1_709_249_400, 3600).expect("date");
    assert_eq!(t.today(), "2024-03-01");
    assert_eq!(t.yesterday(), "2024-02-29");
    assert_eq!(t.hhmm(), "00:30");
    assert_eq!(t.datetime_label(), "2024-03-01 00:30 +01:00");
    let west = LocalTimeSnapshot::from_datetime(1_709_249_400, -12_600).expect("date");
    assert_eq!(west.datetime_label(), "2024-02-29 20:00 -03:30");
    assert!(LocalTimeSnapshot::from_datetime(0, 86_400).is_none());
}

fn persona(bootstrap: Option<&str>) -> PersonaFiles {
    PersonaFiles {
        bootstrap: bootstrap.map(str::to_string),
        agents: None,
        agent: Some("old way".into()),
        identity: Some("id".into()),
        user: Some("  ".into()),
        soul: Some("soul".into()),
    }
}

fn notes(bootstrap: Option<&str>) -> MemoryFiles {
    MemoryFiles {
        bootstrap: bootstrap.map(str::to_string),
        memory: Some("long".into()),
        today: Some("x".repeat(5000)),
        yesterday: None,
    }
}

#[test]
fn the_first_run_has_its_own_guide() {
    assert_eq!(
        load_persona_uncached(&persona(None)),
        "<!-- AGENT.md -->\nold way\n\n---\n\n<!-- IDENTITY.md -->\nid\n\n---\n\n<!-- SOUL.md -->\nsoul"
    );
    assert_eq!(
        load_persona_uncached(&persona(Some("begin"))),
        "<!-- BOOTSTRAP.md -->\nbegin\n\n---\n\n<!-- AGENT.md -->\nold way"
    );
    assert_eq!(load_memory_uncached(&notes(Some("begin")), "d1", "d0"), "");
    let text = load_memory_uncached(&notes(None), "d1", "d0");
    assert!(text.starts_with("<!-- MEMORY.md -->\nlong\n\n---\n\n<!-- memory/d1.md -->\nxxx"));
    assert!(text.ends_with("[truncated at 4000 bytes, total 5000 bytes]"));
}

#[test]
fn setup_ends_with_the_first_edit() {
    assert!(!profile_file_has_user_edits(Some("a\r\nb\n"), Some("a\nb"), None));
    assert!(profile_file_has_user_edits(Some("mine"), None, Some("template")));
    assert!(!profile_file_has_user_edits(None, None, Some("template")));
    assert!(maybe_complete_bootstrap(true, true, false));
    assert!(!maybe_complete_bootstrap(true, false, false));
    assert!(migrate_legacy_agent_file(false, true));
    assert!(!migrate_legacy_agent_file(true, true));
    assert!(ensure_bootstrap_baseline(true, false, Some("t"), Some("t\n")));
    assert!(!ensure_bootstrap_baseline(true, false, Some("t"), Some("edited")));
    assert_eq!(
        write_missing_templates(&vec!["USER.md".into(), "SOUL.md".into()], false),
        ["AGENTS.md", "IDENTITY.md", "MEMORY.md"]
    );
    assert_eq!(template_file_content(None, "e"), "e");
    assert_eq!(template_file_content(Some("d"), "e"), "d");
}

fn inputs() -> PromptInputs {
    let mut memory = StructuredMemory::new();
    memory.facts = vec![MemoryFact { key: "k".into(), value: "remembered".into(), recorded_at: 1 }];
    PromptInputs {
        workspace: "/work".into(),
        os_name: "Linux".into(),
        model: "m".into(),
        now: LocalTimeSnapshot::from_datetime(1_709_249_400, 0).expect("date"),
        persona_files: persona(None),
        memory_files: notes(None),
        tool_lines: "- exec".into(),
        mcp_note: Some("servers".into()),
        skills: vec![
            skill("on", "", "system://skills/on/SKILL.md", SkillSource::System),
            skill("off", "", "system://skills/off/SKILL.md", SkillSource::System),
        ],
        enabled_system_skills: vec!["on".into()],
        agents_catalog: Some("## Agents".into()),
        memory: Some(memory),
        query: Some(MemoryQuery { text: "q".into(), tokens: vec!["q".into()] }),
    }
}

#[test]
fn instructions_are_put_together_and_parted_for_the_cache() {
    let i = inputs();
    let mut cache = PrefixCache::new();
    let first = build_system_prompt_with_query_cached(&mut cache, &i);
    let second = build_system_prompt_with_query_cached(&mut cache, &i);
    assert_eq!(first, second);
    assert_eq!(build_system_prompt(&i), first);
    assert_eq!(cache.system_prompt_cache_metrics(), (1, 1));
    let text = first.content.expect("content");
    assert!(text.contains("\n\n## Available Tools\n- exec\n\n## MCP Runtime\n- servers\n\n## Skills"));
    assert!(text.contains("**on**"));
    assert!(!text.contains("**off**"));
    assert!(text.contains("remembered"));
    assert!(text.ends_with("- Working directory: /work\n- Model: m"));
    assert!(text.contains("- Current system local time: 2024-02-29 23:30 +00:00"));
    match anthropic_system_payload(&text, true) {
        Json::Array(blocks) => {
            let kept = blocks[0].get("text").and_then(|v| v.as_str()).unwrap_or("");
            assert!(kept.ends_with("## Agents"));
            assert!(!kept.contains("remembered"));
        }
        other => panic!("unexpected payload: {other:?}"),
    }

    let plan = build_system_prompt_with_query_cached_for_tool_mode(
        &mut cache,
        &i,
        SystemPromptToolMode::PlanOnly,
    );
    let text = plan.content.expect("content");
    assert!(!text.contains("## MCP Runtime"));
    assert!(!text.contains("## Agents"));
    assert!(text.contains("plan-only mode"));
}

#[test]
fn a_full_cache_is_emptied() {
    let mut cache = PrefixCache::new();
    let parts = |n: usize| PrefixParts {
        persona: format!("p{n}"),
        tool_lines: String::new(),
        mcp_note: None,
        skills: None,
        agents: None,
    };
    for n in 0..64 {
        let text = build_system_prompt_static_prefix_cached(
            &mut cache,
            "w",
            Some("  "),
            &Vec::new(),
            &parts(n),
            SystemPromptToolMode::Execute,
        );
        assert!(text.starts_with(&format!("p{n}\n\n")));
    }
    assert_eq!(cache.entries.len(), 64);
    build_system_prompt_static_prefix_cached(
        &mut cache,
        "w",
        None,
        &Vec::new(),
        &parts(3),
        SystemPromptToolMode::Execute,
    );
    assert_eq!(cache.system_prompt_cache_metrics(), (1, 64));
    build_system_prompt_static_prefix_cached(
        &mut cache,
        "w",
        None,
        &Vec::new(),
        &parts(99),
        SystemPromptToolMode::Execute,
    );
    assert_eq!(cache.entries.len(), 1);
}

#[test]
fn kept_texts_count_while_their_files_stay() {
    let stamp = |len| PromptFileFingerprint { modified: Some(5), len: Some(len) };
    let cache = Some(PromptFileCache {
        workspace: "w".into(),
        today: None,
        fingerprints: vec![stamp(1)],
        result: "text".into(),
    });
    assert_eq!(cached_text(&cache, "w", &None, &vec![stamp(1)]).as_deref(), Some("text"));
    assert_eq!(cached_text(&cache, "w", &None, &vec![stamp(2)]), None);
    assert_eq!(cached_text(&cache, "v", &None, &vec![stamp(1)]), None);
    assert_eq!(cached_text(&cache, "w", &Some("d".into()), &vec![stamp(1)]), None);
}

#[test]
fn diagnostics_depend_on_the_envelope_alone() {
    let code = |e: &str| RunDiagnostic::from_provider_error(e).code;
    assert_eq!(code("API 401 Unauthorized"), RunDiagnosticCode::ProviderAuthentication);
    assert_eq!(code("API 429 x"), RunDiagnosticCode::ProviderRateLimited);
    assert_eq!(code("API 408 x"), RunDiagnosticCode::ProviderUnavailable);
    assert_eq!(code("API 599 x"), RunDiagnosticCode::ProviderUnavailable);
    assert_eq!(code("API 422 says 401"), RunDiagnosticCode::ProviderRequestRejected);
    assert_eq!(code("HTTP error: t"), RunDiagnosticCode::ProviderConnection);
    assert_eq!(
        code("Provider configuration error: x"),
        RunDiagnosticCode::ModelConfiguration
    );
    assert_eq!(code("API 4010 x"), RunDiagnosticCode::ProviderResponseInvalid);
    assert_eq!(code("OpenAI API error: 401"), RunDiagnosticCode::ProviderResponseInvalid);
    let d = RunDiagnostic { code: RunDiagnosticCode::ContextBudgetExceeded };
    assert_eq!(RunDiagnostic::from_reason(Some(d.reason())), Some(d));
    assert_eq!(RunDiagnostic::from_reason(Some("other")), None);
    assert_eq!(RunDiagnostic::from_reason(None), None);
    assert!(d.safe_message().starts_with("The request exceeds"));
}
