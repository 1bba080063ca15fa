//! Language normalization and resolution.

use clemp::language::canonical_language;
use clemp::language::normalize_language;
use clemp::language::resolve_all_languages;
use clemp::language::resolve_language;
use clemp::language::LanguageResolution;
use clemp::language::TreeIndex;

fn tree(rule_stems: &[&str], conditional_subdirs: &[&str]) -> TreeIndex {
    TreeIndex {
        rule_stems: rule_stems.iter().map(|s| s.to_string()).collect(),
        conditional_subdirs: conditional_subdirs.iter().map(|s| s.to_string()).collect(),
    }
}

fn strings(names: &[&str]) -> Vec<String> {
    names.iter().map(|s| s.to_string()).collect()
}

#[test]
fn normalize_known_aliases() {
    assert_eq!(normalize_language("ts"), Some("typescript"));
    assert_eq!(normalize_language("typescript"), Some("typescript"));
    assert_eq!(normalize_language("TS"), Some("typescript"));
    assert_eq!(normalize_language("js"), Some("javascript"));
    assert_eq!(normalize_language("rs"), Some("rust"));
    assert_eq!(normalize_language("py"), Some("python"));
    assert_eq!(normalize_language("cs"), Some("csharp"));
    assert_eq!(normalize_language("c#"), Some("csharp"));
    assert_eq!(normalize_language("cpp"), Some("cplusplus"));
    assert_eq!(normalize_language("c++"), Some("cplusplus"));
    assert_eq!(normalize_language("rb"), Some("ruby"));
    assert_eq!(normalize_language("golang"), Some("go"));
    assert_eq!(normalize_language("swift"), Some("swift"));
    assert_eq!(normalize_language("html"), Some("html"));
    assert_eq!(normalize_language("svelte"), Some("svelte"));
    assert_eq!(normalize_language("java"), Some("java"));
}

#[test]
fn normalize_case_insensitive() {
    assert_eq!(normalize_language("PYTHON"), Some("python"));
    assert_eq!(normalize_language("GoLang"), Some("go"));
    assert_eq!(normalize_language("RuBy"), Some("ruby"));
}

#[test]
fn normalize_unknown_language() {
    assert_eq!(normalize_language("brainfuck"), None);
    assert_eq!(normalize_language(""), None);
    assert_eq!(normalize_language("zig"), None);
}

#[test]
fn normalize_is_idempotent_on_outputs() {
    for alias in ["ts", "GoLang", "C#", "ruby", "CPP"] {
        let canonical = normalize_language(alias).unwrap();
        assert_eq!(normalize_language(canonical), Some(canonical));
    }
    assert_eq!(canonical_language(&canonical_language("Zig")), "zig");
    assert_eq!(canonical_language(&canonical_language("TS")), "typescript");
}

#[test]
fn resolve_with_rules_file() {
    let t = tree(&["typescript"], &[]);
    match resolve_language("ts", &t) {
        LanguageResolution::HasRulesFile(name) => assert_eq!(name, "typescript"),
        _ => panic!("Expected HasRulesFile"),
    }
}

#[test]
fn resolve_conditional_only() {
    let t = tree(&[], &["svelte"]);
    match resolve_language("svelte", &t) {
        LanguageResolution::ConditionalOnly(name) => assert_eq!(name, "svelte"),
        _ => panic!("Expected ConditionalOnly"),
    }
}

#[test]
fn resolve_conditional_for_alias_input() {
    let t = tree(&[], &["swift"]);
    match resolve_language("Swift", &t) {
        LanguageResolution::ConditionalOnly(name) => assert_eq!(name, "swift"),
        _ => panic!("Expected ConditionalOnly"),
    }
}

#[test]
fn resolve_conditional_via_skills_dir() {
    // A skills subdirectory alone makes the language conditional-only.
    let t = tree(&[], &["svelte"]);
    match resolve_language("svelte", &t) {
        LanguageResolution::ConditionalOnly(name) => assert_eq!(name, "svelte"),
        _ => panic!("Expected ConditionalOnly"),
    }
}

#[test]
fn resolve_conditional_via_copied_dir() {
    // A copied subdirectory alone makes the language conditional-only.
    let t = tree(&[], &["swift"]);
    match resolve_language("swift", &t) {
        LanguageResolution::ConditionalOnly(name) => assert_eq!(name, "swift"),
        _ => panic!("Expected ConditionalOnly"),
    }
}

#[test]
fn resolve_conditional_via_mcp_dir() {
    // A server subdirectory alone makes the language conditional-only.
    let t = tree(&[], &["svelte"]);
    match resolve_language("svelte", &t) {
        LanguageResolution::ConditionalOnly(name) => assert_eq!(name, "svelte"),
        _ => panic!("Expected ConditionalOnly"),
    }
}

#[test]
fn resolve_no_match() {
    let t = tree(&[], &[]);
    match resolve_language("brainfuck", &t) {
        LanguageResolution::NoMatch => {}
        _ => panic!("Expected NoMatch"),
    }
}

#[test]
fn resolve_unknown_input_falls_back_to_lowercase() {
    let t = tree(&["zig"], &[]);
    match resolve_language("ZIG", &t) {
        LanguageResolution::HasRulesFile(name) => assert_eq!(name, "zig"),
        _ => panic!("Expected HasRulesFile for unknown-but-present language"),
    }
}

#[test]
fn resolve_rules_file_wins_over_conditional() {
    let t = tree(&["svelte"], &["svelte"]);
    match resolve_language("svelte", &t) {
        LanguageResolution::HasRulesFile(name) => assert_eq!(name, "svelte"),
        _ => panic!("Expected HasRulesFile"),
    }
}

#[test]
fn resolve_all_errors_on_unknown() {
    let t = tree(&[], &[]);
    let result = resolve_all_languages(&strings(&["brainfuck"]), &t);
    assert!(result.is_err());
    assert!(result.unwrap_err().message().contains("Unknown language"));
}

#[test]
fn resolve_all_includes_conditional_only() {
    let t = tree(&["typescript"], &["svelte"]);
    let resolved = resolve_all_languages(&strings(&["ts", "svelte"]), &t).unwrap();
    assert_eq!(resolved, vec!["typescript", "svelte"]);
}

#[test]
fn resolve_all_empty_input() {
    let t = tree(&[], &[]);
    let result = resolve_all_languages(&strings(&[]), &t).unwrap();
    assert!(result.is_empty());
}

#[test]
fn resolve_all_keeps_duplicates_and_order() {
    let t = tree(&["typescript", "rust"], &[]);
    let resolved = resolve_all_languages(&strings(&["rs", "ts", "rs"]), &t).unwrap();
    assert_eq!(resolved, vec!["rust", "typescript", "rust"]);
}

#[test]
fn resolve_all_fails_fast_on_first_unknown() {
    let t = tree(&["typescript"], &[]);
    let err = resolve_all_languages(&strings(&["ts", "brainfuck", "also-bad"]), &t).unwrap_err();
    let msg = err.message();
    assert!(msg.contains("brainfuck"));
    assert!(!msg.contains("also-bad"));
}
