//! Server manifest assembly.

use clemp::json::pretty_text;
use clemp::mcp::assemble_mcp_json;
use clemp::mcp::McpDir;
use serde_json::Value;

fn table(files: &[(&str, &str)]) -> Vec<(String, String)> {
    files
        .iter()
        .map(|(a, b)| (a.to_string(), b.to_string()))
        .collect()
}

fn strings(names: &[&str]) -> Vec<String> {
    names.iter().map(|s| s.to_string()).collect()
}

fn mcp_dir(
    defaults: &[(&str, &str)],
    langs: &[(&str, &[(&str, &str)])],
    named: &[(&str, &str)],
) -> McpDir {
    McpDir {
        default_files: table(defaults),
        lang_dirs: langs
            .iter()
            .map(|(l, files)| (l.to_string(), table(files)))
            .collect(),
        named_files: table(named),
    }
}

fn as_value(doc: clemp::json::Json) -> Value {
    serde_json::from_str(&pretty_text(doc)).unwrap()
}

#[test]
fn default_mcps_always_included() {
    let m = mcp_dir(
        &[
            ("context7.json", r#"{"context7": {"type": "http", "url": "c7"}}"#),
            ("textbelt.json", r#"{"textbelt": {"type": "stdio", "cmd": "tb"}}"#),
        ],
        &[],
        &[],
    );
    let (json, names) = assemble_mcp_json(&strings(&[]), &strings(&[]), &Some(m)).unwrap();
    let v = as_value(json);
    let servers = v["mcpServers"].as_object().unwrap();
    assert_eq!(servers.len(), 2);
    assert!(servers.contains_key("context7"));
    assert!(servers.contains_key("textbelt"));
    assert_eq!(names.len(), 2);
}

#[test]
fn language_mcps_added() {
    let m = mcp_dir(
        &[("context7.json", r#"{"context7": {"url": "c7"}}"#)],
        &[("svelte", &[("svelte.json", r#"{"svelte": {"url": "sv"}}"#)])],
        &[],
    );
    let (json, names) = assemble_mcp_json(&strings(&["svelte"]), &strings(&[]), &Some(m)).unwrap();
    let v = as_value(json);
    let servers = v["mcpServers"].as_object().unwrap();
    assert_eq!(servers.len(), 2);
    assert!(servers.contains_key("context7"));
    assert!(servers.contains_key("svelte"));
    assert!(names.contains(&"svelte".to_string()));
}

#[test]
fn assembly_scenario_names_in_mapping_order() {
    // The worked example: one default server, one per-language server.
    let m = mcp_dir(
        &[("context7.json", r#"{"context7":{"url":"c7"}}"#)],
        &[("svelte", &[("svelte.json", r#"{"svelte":{"url":"sv"}}"#)])],
        &[],
    );
    let (json, names) = assemble_mcp_json(&strings(&["svelte"]), &strings(&[]), &Some(m)).unwrap();
    let v = as_value(json);
    let servers = v["mcpServers"].as_object().unwrap();
    assert_eq!(servers["context7"]["url"], "c7");
    assert_eq!(servers["svelte"]["url"], "sv");
    assert_eq!(names, vec!["context7".to_string(), "svelte".to_string()]);
}

#[test]
fn named_mcps_added() {
    let m = mcp_dir(
        &[("context7.json", r#"{"context7": {"url": "c7"}}"#)],
        &[],
        &[("maps", r#"{"maps": {"url": "maps"}}"#)],
    );
    let (json, names) = assemble_mcp_json(&strings(&[]), &strings(&["maps"]), &Some(m)).unwrap();
    let v = as_value(json);
    let servers = v["mcpServers"].as_object().unwrap();
    assert_eq!(servers.len(), 2);
    assert!(servers.contains_key("context7"));
    assert!(servers.contains_key("maps"));
    assert!(names.contains(&"maps".to_string()));
}

#[test]
fn named_mcp_not_found_errors() {
    let m = mcp_dir(&[("context7.json", r#"{"context7": {}}"#)], &[], &[]);
    let result = assemble_mcp_json(&strings(&[]), &strings(&["doesnt-exist"]), &Some(m));
    assert!(result.is_err());
    let msg = result.unwrap_err().message();
    assert!(msg.contains("doesnt-exist"));
    assert!(msg.contains("not found"));
}

#[test]
fn named_mcp_error_lists_available() {
    let m = mcp_dir(&[], &[], &[("maps", "{}"), ("docker", "{}")]);
    let msg = assemble_mcp_json(&strings(&[]), &strings(&["nope"]), &Some(m))
        .unwrap_err()
        .message();
    assert!(msg.contains("maps"));
    assert!(msg.contains("docker"));
}

#[test]
fn no_mcp_dir_is_ok() {
    let (json, names) = assemble_mcp_json(&strings(&[]), &strings(&[]), &None).unwrap();
    let v = as_value(json);
    assert!(v["mcpServers"].as_object().unwrap().is_empty());
    assert!(names.is_empty());
}

#[test]
fn no_mcp_dir_with_named_mcp_errors() {
    let result = assemble_mcp_json(&strings(&[]), &strings(&["maps"]), &None);
    assert!(result.is_err());
    assert!(result.unwrap_err().message().contains("--mcp specified"));
}

#[test]
fn all_three_sources_merged() {
    let m = mcp_dir(
        &[("context7.json", r#"{"context7": {"url": "c7"}}"#)],
        &[("svelte", &[("svelte.json", r#"{"svelte": {"url": "sv"}}"#)])],
        &[("maps", r#"{"maps": {"url": "maps"}}"#)],
    );
    let (json, names) =
        assemble_mcp_json(&strings(&["svelte"]), &strings(&["maps"]), &Some(m)).unwrap();
    let v = as_value(json);
    assert_eq!(v["mcpServers"].as_object().unwrap().len(), 3);
    assert_eq!(names.len(), 3);
}

#[test]
fn missing_lang_dir_silently_skipped() {
    let m = mcp_dir(&[("context7.json", r#"{"context7": {"url": "c7"}}"#)], &[], &[]);
    let (json, _) = assemble_mcp_json(&strings(&["rust"]), &strings(&[]), &Some(m)).unwrap();
    let v = as_value(json);
    assert_eq!(v["mcpServers"].as_object().unwrap().len(), 1);
}

#[test]
fn empty_mcp_json_when_no_servers() {
    let m = mcp_dir(&[], &[], &[]);
    let (json, names) = assemble_mcp_json(&strings(&[]), &strings(&[]), &Some(m)).unwrap();
    let v = as_value(json);
    assert!(v["mcpServers"].as_object().unwrap().is_empty());
    assert!(names.is_empty());
}

#[test]
fn language_overrides_default_same_name() {
    let m = mcp_dir(
        &[("shared.json", r#"{"shared": {"url": "from-default"}}"#)],
        &[("svelte", &[("shared.json", r#"{"shared": {"url": "from-svelte"}}"#)])],
        &[],
    );
    let (json, names) = assemble_mcp_json(&strings(&["svelte"]), &strings(&[]), &Some(m)).unwrap();
    let v = as_value(json);
    assert_eq!(v["mcpServers"]["shared"]["url"], "from-svelte");
    assert_eq!(names, vec!["shared".to_string()]);
}

#[test]
fn named_overrides_language_same_name() {
    let m = mcp_dir(
        &[],
        &[("svelte", &[("shared.json", r#"{"shared": {"url": "from-svelte"}}"#)])],
        &[("shared", r#"{"shared": {"url": "from-named"}}"#)],
    );
    let (json, _) =
        assemble_mcp_json(&strings(&["svelte"]), &strings(&["shared"]), &Some(m)).unwrap();
    let v = as_value(json);
    assert_eq!(v["mcpServers"]["shared"]["url"], "from-named");
}

#[test]
fn assembly_is_deterministic() {
    let build = || {
        let m = mcp_dir(
            &[("b.json", r#"{"b": {"n": 1}}"#), ("a.json", r#"{"a": {"n": 2}}"#)],
            &[("rust", &[("r.json", r#"{"r": {"n": 3}}"#)])],
            &[("x", r#"{"x": {"n": 4}}"#)],
        );
        let (json, names) =
            assemble_mcp_json(&strings(&["rust"]), &strings(&["x"]), &Some(m)).unwrap();
        (pretty_text(json), names)
    };
    let (t1, n1) = build();
    let (t2, n2) = build();
    assert_eq!(t1, t2);
    assert_eq!(n1, n2);
}

#[test]
fn unparseable_mcp_file_errors_with_path() {
    let m = mcp_dir(&[("bad.json", "not json at all")], &[], &[]);
    let msg = assemble_mcp_json(&strings(&[]), &strings(&[]), &Some(m))
        .unwrap_err()
        .message();
    assert!(msg.contains("Failed to parse"));
    assert!(msg.contains("mcp/default/bad.json"));
}

#[test]
fn manifest_text_reflects_server_contents() {
    // The written text carries the parsed definitions through, not the
    // input text verbatim.
    let m = mcp_dir(&[("c.json", r#"{"c":   {"url":"u"}}"#)], &[], &[]);
    let (json, _) = assemble_mcp_json(&strings(&[]), &strings(&[]), &Some(m)).unwrap();
    let text = pretty_text(json);
    assert!(text.contains("\"mcpServers\""));
    assert!(text.contains("\"url\": \"u\""));
    assert!(!text.contains("\"c\":   {"));
}
