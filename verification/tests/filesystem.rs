//! Ignore-file merging, copy planning, conflicts, and the apply machine.

use clemp::apply::stage;
use clemp::apply::ApplyPhase;
use clemp::apply::CommitStep;
use clemp::apply::TemplateTree;
use clemp::cli::Cli;
use clemp::language::TreeIndex;
use clemp::mcp::McpDir;
use clemp::settings::HooksDir;
use clemp::copyplan::collect_conditional_dir_sources;
use clemp::copyplan::collect_conflicts;
use clemp::copyplan::collect_copy_files_sources;
use clemp::copyplan::conditional_source_dirs;
use clemp::copyplan::CondDirListing;
use clemp::gitignore::merge_gitignore;

fn strings(names: &[&str]) -> Vec<String> {
    names.iter().map(|s| s.to_string()).collect()
}

#[test]
fn gitignore_creates_new_file() {
    let content = merge_gitignore(&None, ".agent/\n.clinerules\n").unwrap();
    assert!(content.contains("# Agent related"));
    assert!(content.contains(".agent/"));
    assert!(content.contains(".clinerules"));
}

#[test]
fn gitignore_appends_to_existing() {
    let content = merge_gitignore(
        &Some("node_modules/\n".to_string()),
        ".agent/\nnode_modules/\n",
    )
    .unwrap();
    assert!(content.starts_with("node_modules/\n"));
    assert!(content.contains(".agent/"));
    assert_eq!(content.matches("node_modules/").count(), 1, "should not duplicate");
}

#[test]
fn gitignore_no_op_when_all_present() {
    let merged = merge_gitignore(
        &Some(".agent/\n.clinerules\n".to_string()),
        ".agent/\n.clinerules\n",
    );
    assert!(merged.is_none());
}

#[test]
fn gitignore_handles_whitespace_in_additions() {
    let content = merge_gitignore(&None, "  .agent/  \n  \n.foo\n").unwrap();
    assert!(content.contains(".agent/"));
    assert!(content.contains(".foo"));
}

#[test]
fn gitignore_appends_newline_if_missing() {
    let content = merge_gitignore(&Some("node_modules/".to_string()), ".agent/\n").unwrap();
    assert!(content.contains("node_modules/\n\n# Agent related"));
}

#[test]
fn gitignore_append_scenario_exact_bytes() {
    // The worked example: entry without a trailing line break plus one
    // addition.
    let content = merge_gitignore(&Some("node_modules/".to_string()), ".agent/\n").unwrap();
    assert_eq!(content, "node_modules/\n\n# Agent related\n.agent/\n");
}

#[test]
fn copy_files_excludes_reserved_entries() {
    let listing = strings(&[
        ".git",
        "commands",
        "skills",
        "copied",
        "hooks",
        "mcp",
        "agent-md",
        "README.md",
        ".gitignore",
        "gitignore-additions",
        "AGENT.md.jinja",
        "settings.local.json",
        "clarg",
        "AGENT.md",
        ".mcp.json",
        ".agent",
        "somefile.txt",
    ]);
    let sources = collect_copy_files_sources(&listing);
    assert_eq!(sources, strings(&["AGENT.md", ".mcp.json", ".agent", "somefile.txt"]));
}

#[test]
fn copy_conditional_default_only() {
    let cond = CondDirListing {
        default_entries: Some(strings(&["commit.md", "isolated.md"])),
        lang_dirs: vec![],
    };
    let sources = collect_conditional_dir_sources(&cond, &strings(&[]));
    assert_eq!(sources, strings(&["commit.md", "isolated.md"]));
    assert_eq!(conditional_source_dirs(&cond, &strings(&[])), strings(&["default"]));
}

#[test]
fn copy_conditional_with_language() {
    let cond = CondDirListing {
        default_entries: Some(strings(&["commit.md"])),
        lang_dirs: vec![("svelte".to_string(), strings(&["svelte.md"]))],
    };
    let sources = collect_conditional_dir_sources(&cond, &strings(&["svelte"]));
    assert_eq!(sources, strings(&["commit.md", "svelte.md"]));
}

#[test]
fn copy_conditional_language_overrides_default() {
    // Both contribute `shared.md`; the language directory comes later in
    // the copy order, so its version lands last and wins.
    let cond = CondDirListing {
        default_entries: Some(strings(&["shared.md"])),
        lang_dirs: vec![("svelte".to_string(), strings(&["shared.md"]))],
    };
    let order = conditional_source_dirs(&cond, &strings(&["svelte"]));
    assert_eq!(order, strings(&["default", "svelte"]));
}

#[test]
fn copy_conditional_missing_lang_dir_ok() {
    let cond = CondDirListing {
        default_entries: Some(strings(&["commit.md"])),
        lang_dirs: vec![],
    };
    let sources = collect_conditional_dir_sources(&cond, &strings(&["rust"]));
    assert_eq!(sources, strings(&["commit.md"]));
    assert_eq!(conditional_source_dirs(&cond, &strings(&["rust"])), strings(&["default"]));
}

#[test]
fn copy_conditional_missing_source_dir_ok() {
    let cond = CondDirListing { default_entries: None, lang_dirs: vec![] };
    assert!(collect_conditional_dir_sources(&cond, &strings(&["rust"])).is_empty());
    assert!(conditional_source_dirs(&cond, &strings(&["rust"])).is_empty());
}

#[test]
fn conflicts_empty_when_nothing_exists() {
    let conflicts = collect_conflicts(&strings(&["a.txt", "b.txt"]), &strings(&[]));
    assert!(conflicts.is_empty());
}

#[test]
fn conflicts_report_existing_only() {
    let conflicts = collect_conflicts(
        &strings(&["a.txt", "b.txt", "c.txt"]),
        &strings(&["a.txt", "b.txt", "unrelated"]),
    );
    assert_eq!(conflicts, strings(&["a.txt", "b.txt"]));
}

#[test]
fn conflicts_deduplicate_planned_names() {
    let conflicts = collect_conflicts(
        &strings(&["a.txt", "a.txt", "b.txt"]),
        &strings(&["a.txt", "b.txt"]),
    );
    assert_eq!(conflicts, strings(&["a.txt", "b.txt"]));
}

#[test]
fn preflight_clean_opens_commit() {
    let mut phase = ApplyPhase::new(false);
    assert!(!phase.can_commit());
    phase.preflight(Vec::new()).unwrap();
    assert!(phase.can_commit());
    assert_eq!(
        phase.commit_plan(),
        vec![
            CommitStep::AppendGitignore,
            CommitStep::CopyTopLevel,
            CommitStep::CopyConditional,
        ]
    );
}

#[test]
fn preflight_conflict_without_force_aborts() {
    // The worked example: a pre-existing top-level document blocks the
    // whole apply phase, with the path named in the error.
    let mut phase = ApplyPhase::new(false);
    let err = phase
        .preflight(strings(&["AGENT.md", ".mcp.json"]))
        .unwrap_err();
    let msg = err.message();
    assert!(msg.contains("AGENT.md"));
    assert!(msg.contains(".mcp.json"));
    assert!(msg.contains("already exist"));
    assert!(!phase.can_commit());
}

#[test]
fn preflight_conflict_with_force_waits_for_confirmation() {
    let mut phase = ApplyPhase::new(true);
    phase.preflight(strings(&["AGENT.md"])).unwrap();
    assert!(!phase.can_commit());
}

#[test]
fn declined_confirmation_aborts() {
    let mut phase = ApplyPhase::new(true);
    phase.preflight(strings(&["AGENT.md"])).unwrap();
    let err = phase.resolve_confirmation(false).unwrap_err();
    assert_eq!(err.message(), "Aborted.");
    assert!(!phase.can_commit());
}

#[test]
fn accepted_confirmation_clears_and_commits() {
    let mut phase = ApplyPhase::new(true);
    phase.preflight(strings(&["AGENT.md"])).unwrap();
    let to_clear = phase.resolve_confirmation(true).unwrap();
    assert_eq!(to_clear, strings(&["AGENT.md"]));
    assert!(phase.can_commit());
}

#[test]
fn stage_full_flow() {
    let tree = TemplateTree {
        index: TreeIndex {
            rule_stems: strings(&["typescript"]),
            conditional_subdirs: strings(&[]),
        },
        lang_rules: vec![("typescript".to_string(), "strict mode".to_string())],
        mcp_rules: vec![],
        misc: vec![],
        template: "Hello {% for l in lang %}{{ l }}{% endfor %}\n{{ lang_rules }}".to_string(),
        mcp: Some(McpDir {
            default_files: vec![(
                "context7.json".to_string(),
                r#"{"context7": {"cmd": "c7"}}"#.to_string(),
            )],
            lang_dirs: vec![],
            named_files: vec![],
        }),
        hooks: HooksDir {
            default_files: vec![],
            named_files: vec![(
                "sound".to_string(),
                r#"{"Notification": [{"command": "beep"}]}"#.to_string(),
            )],
        },
        base_settings: Some("{}".to_string()),
        clarg_stems: None,
    };
    let cli = Cli {
        languages: strings(&["ts"]),
        hooks: strings(&["sound"]),
        mcp: strings(&[]),
        clarg: None,
        force: false,
    };
    let staged = stage(&cli, &tree).unwrap();
    assert_eq!(staged.languages, strings(&["typescript"]));
    assert!(staged.agent_md.contains("Hello typescript"));
    assert!(staged.agent_md.contains("<typescript-rules>"));
    let settings: serde_json::Value = serde_json::from_str(&staged.settings_text).unwrap();
    assert!(settings["hooks"]["Notification"].is_array());
    assert_eq!(settings["enabledMcpjsonServers"][0], "context7");
    let mcp: serde_json::Value = serde_json::from_str(&staged.mcp_text).unwrap();
    assert!(mcp["mcpServers"]["context7"].is_object());
    assert_eq!(staged.mcp_names, strings(&["context7"]));
    assert!(staged.clarg_copy.is_none());
}

#[test]
fn stage_unknown_language_fails_before_anything_else() {
    let tree = TemplateTree {
        index: TreeIndex { rule_stems: vec![], conditional_subdirs: vec![] },
        lang_rules: vec![],
        mcp_rules: vec![],
        misc: vec![],
        template: "{% if %}".to_string(),
        mcp: None,
        hooks: HooksDir { default_files: vec![], named_files: vec![] },
        base_settings: Some("not json".to_string()),
        clarg_stems: None,
    };
    let cli = Cli {
        languages: strings(&["brainfuck"]),
        hooks: vec![],
        mcp: vec![],
        clarg: None,
        force: false,
    };
    let msg = stage(&cli, &tree).unwrap_err().message();
    assert!(msg.contains("Unknown language 'brainfuck'"));
}
