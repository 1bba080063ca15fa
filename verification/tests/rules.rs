//! Rule block building, aggregation, and extraction.

use clemp::rules::build_language_rules;
use clemp::rules::build_mcp_rules;
use clemp::rules::extract_block;
use clemp::rules::wrap_block;

fn table(files: &[(&str, &str)]) -> Vec<(String, String)> {
    files
        .iter()
        .map(|(a, b)| (a.to_string(), b.to_string()))
        .collect()
}

fn strings(names: &[&str]) -> Vec<String> {
    names.iter().map(|s| s.to_string()).collect()
}

#[test]
fn build_language_rules_wraps_in_tags() {
    let rules = table(&[("rust", "  use iterators  \n"), ("go", "handle errors")]);
    let result = build_language_rules(&strings(&["rust", "go"]), &rules);
    assert!(result.contains("<rust-rules>\nuse iterators\n</rust-rules>"));
    assert!(result.contains("<go-rules>\nhandle errors\n</go-rules>"));
}

#[test]
fn build_language_rules_empty_list() {
    let result = build_language_rules(&strings(&[]), &table(&[]));
    assert_eq!(result, "");
}

#[test]
fn build_language_rules_skips_conditional_only() {
    let rules = table(&[("typescript", "ts rules")]);
    let result = build_language_rules(&strings(&["typescript", "svelte"]), &rules);
    assert!(result.contains("<typescript-rules>"));
    assert!(!result.contains("svelte"));
}

#[test]
fn build_language_rules_joined_with_blank_line() {
    let rules = table(&[("rust", "a"), ("go", "b")]);
    let result = build_language_rules(&strings(&["rust", "go"]), &rules);
    assert_eq!(
        result,
        "<rust-rules>\na\n</rust-rules>\n\n<go-rules>\nb\n</go-rules>"
    );
}

#[test]
fn build_language_rules_repeats_duplicates() {
    let rules = table(&[("rust", "a")]);
    let result = build_language_rules(&strings(&["rust", "rust"]), &rules);
    assert_eq!(result.matches("<rust-rules>").count(), 2);
}

#[test]
fn build_mcp_rules_wraps_in_tags() {
    let rules = table(&[("textbelt", "Use textbelt search")]);
    let result = build_mcp_rules(&strings(&["textbelt"]), &rules);
    assert!(result.contains("<textbelt-mcp-rules>"));
    assert!(result.contains("Use textbelt search"));
    assert!(result.contains("</textbelt-mcp-rules>"));
}

#[test]
fn build_mcp_rules_skips_mcps_without_rules() {
    let rules = table(&[("textbelt", "rules")]);
    let result = build_mcp_rules(&strings(&["textbelt", "context7"]), &rules);
    assert!(result.contains("<textbelt-mcp-rules>"));
    assert!(!result.contains("context7"));
}

#[test]
fn build_mcp_rules_empty_mcps() {
    let result = build_mcp_rules(&strings(&[]), &table(&[]));
    assert_eq!(result, "");
}

#[test]
fn build_mcp_rules_multi_joined() {
    let rules = table(&[("textbelt", "Use textbelt search"), ("maps", "Use maps API")]);
    let result = build_mcp_rules(&strings(&["textbelt", "maps"]), &rules);
    assert!(result.contains("<textbelt-mcp-rules>"));
    assert!(result.contains("</textbelt-mcp-rules>"));
    assert!(result.contains("<maps-mcp-rules>"));
    assert!(result.contains("</maps-mcp-rules>"));
    assert!(result.contains("</textbelt-mcp-rules>\n\n<maps-mcp-rules>"));
}

#[test]
fn wrap_block_trims_and_delimits() {
    let block = wrap_block("demo-rules", "  hello world \n");
    assert_eq!(block, "<demo-rules>\nhello world\n</demo-rules>");
}

#[test]
fn wrap_then_extract_round_trip() {
    let content = "  line one\nline two \n";
    let block = wrap_block("demo", content);
    let recovered = extract_block(&block, "demo").unwrap();
    assert_eq!(recovered, "line one\nline two");
}

#[test]
fn extract_between_surrounding_text() {
    let text = "preamble\n<tag>\ninner\n</tag>\ntrailer";
    assert_eq!(extract_block(text, "tag").unwrap(), "inner");
}

#[test]
fn extract_missing_tag_gives_none() {
    assert!(extract_block("no blocks here", "tag").is_none());
    assert!(extract_block("<tag>\nopen only", "tag").is_none());
}
