//! Settings building and hook merging.

use clemp::json::pretty_text;
use clemp::settings::build_settings;
use clemp::settings::HooksDir;
use serde_json::Value;

fn table(files: &[(&str, &str)]) -> Vec<(String, String)> {
    files
        .iter()
        .map(|(a, b)| (a.to_string(), b.to_string()))
        .collect()
}

fn strings(names: &[&str]) -> Vec<String> {
    names.iter().map(|s| s.to_string()).collect()
}

fn hooks(defaults: &[(&str, &str)], named: &[(&str, &str)]) -> HooksDir {
    HooksDir { default_files: table(defaults), named_files: table(named) }
}

fn settings_value(
    base: Option<&str>,
    dir: HooksDir,
    named: &[&str],
    mcp_names: &[&str],
) -> Value {
    let doc = build_settings(
        &base.map(|s| s.to_string()),
        &dir,
        &strings(named),
        Vec::new(),
        &strings(mcp_names),
    )
    .unwrap();
    serde_json::from_str(&pretty_text(doc)).unwrap()
}

#[test]
fn default_hooks_always_applied() {
    let v = settings_value(
        Some(r#"{"permissions": {"allow": []}}"#),
        hooks(&[("sound.json", r#"{"Notification": [{"command": "beep"}]}"#)], &[]),
        &[],
        &[],
    );
    assert_eq!(v["hooks"]["Notification"].as_array().unwrap().len(), 1);
    assert!(v["permissions"]["allow"].is_array());
}

#[test]
fn named_hooks_merged_with_defaults() {
    let v = settings_value(
        Some("{}"),
        hooks(
            &[("sound.json", r#"{"Notification": [{"command": "beep"}]}"#)],
            &[(
                "blocker",
                r#"{"PreToolUse": [{"command": "block"}], "Notification": [{"command": "notify-block"}]}"#,
            )],
        ),
        &["blocker"],
        &[],
    );
    assert_eq!(v["hooks"]["Notification"].as_array().unwrap().len(), 2);
    assert_eq!(v["hooks"]["PreToolUse"].as_array().unwrap().len(), 1);
}

#[test]
fn hooks_are_additive_scenario() {
    // The worked example: two files contributing under one event type.
    let v = settings_value(
        None,
        hooks(
            &[
                ("a.json", r#"{"Notification":[{"command":"beep"}]}"#),
                (
                    "b.json",
                    r#"{"Notification":[{"command":"notify-lint"}],"PreToolUse":[{"command":"lint"}]}"#,
                ),
            ],
            &[],
        ),
        &[],
        &[],
    );
    let notif = v["hooks"]["Notification"].as_array().unwrap();
    assert_eq!(notif.len(), 2);
    assert_eq!(notif[0]["command"], "beep");
    assert_eq!(notif[1]["command"], "notify-lint");
    assert_eq!(v["hooks"]["PreToolUse"].as_array().unwrap().len(), 1);
}

#[test]
fn named_hook_not_found_errors() {
    let err = build_settings(
        &Some("{}".to_string()),
        &hooks(&[], &[("sound", "{}")]),
        &strings(&["nonexistent"]),
        Vec::new(),
        &strings(&[]),
    )
    .unwrap_err();
    let msg = err.message();
    assert!(msg.contains("not found"));
    assert!(msg.contains("sound"));
}

#[test]
fn no_hooks_dir_empty_hooks() {
    let v = settings_value(Some(r#"{"existing": true}"#), hooks(&[], &[]), &[], &[]);
    assert!(v["existing"].as_bool().unwrap());
    assert!(v["hooks"].as_object().unwrap().is_empty());
}

#[test]
fn enabled_mcp_servers_set() {
    let v = settings_value(Some("{}"), hooks(&[], &[]), &[], &["context7", "textbelt"]);
    let servers = v["enabledMcpjsonServers"].as_array().unwrap();
    assert_eq!(servers.len(), 2);
    assert_eq!(servers[0], "context7");
    assert_eq!(servers[1], "textbelt");
}

#[test]
fn settings_created_if_no_base_file() {
    let v = settings_value(
        None,
        hooks(&[("sound.json", r#"{"Notification": [{"command": "beep"}]}"#)], &[]),
        &[],
        &["ctx7"],
    );
    assert_eq!(v["hooks"]["Notification"].as_array().unwrap().len(), 1);
    assert_eq!(v["enabledMcpjsonServers"].as_array().unwrap().len(), 1);
}

#[test]
fn base_hooks_key_is_replaced() {
    let v = settings_value(
        Some(r#"{"hooks": {"Notification": [{"command": "old"}]}}"#),
        hooks(&[], &[]),
        &[],
        &[],
    );
    assert!(v["hooks"].as_object().unwrap().is_empty());
}

#[test]
fn base_not_object_errors() {
    let err = build_settings(
        &Some("[1, 2]".to_string()),
        &hooks(&[], &[]),
        &strings(&[]),
        Vec::new(),
        &strings(&[]),
    )
    .unwrap_err();
    assert!(err.message().contains("settings.local.json is not an object"));
}

#[test]
fn base_unparseable_errors() {
    let err = build_settings(
        &Some("{nope".to_string()),
        &hooks(&[], &[]),
        &strings(&[]),
        Vec::new(),
        &strings(&[]),
    )
    .unwrap_err();
    assert!(err.message().contains("Failed to parse settings.local.json"));
}

#[test]
fn hook_event_not_array_errors() {
    let err = build_settings(
        &None,
        &hooks(&[("bad.json", r#"{"Notification": {"command": "beep"}}"#)], &[]),
        &strings(&[]),
        Vec::new(),
        &strings(&[]),
    )
    .unwrap_err();
    let msg = err.message();
    assert!(msg.contains("'Notification'"));
    assert!(msg.contains("hooks/default/bad.json"));
    assert!(msg.contains("is not an array"));
}

#[test]
fn hook_file_not_object_errors() {
    let err = build_settings(
        &None,
        &hooks(&[("bad.json", "[1]")], &[]),
        &strings(&[]),
        Vec::new(),
        &strings(&[]),
    )
    .unwrap_err();
    assert!(err.message().contains("hooks/default/bad.json is not an object"));
}

#[test]
fn settings_build_is_deterministic() {
    let build = || {
        let doc = build_settings(
            &Some(r#"{"permissions": {"allow": ["Bash"]}}"#.to_string()),
            &hooks(
                &[("sound.json", r#"{"Notification": [{"command": "beep"}]}"#)],
                &[("lint", r#"{"PreToolUse": [{"command": "lint"}]}"#)],
            ),
            &strings(&["lint"]),
            Vec::new(),
            &strings(&["context7"]),
        )
        .unwrap();
        pretty_text(doc)
    };
    assert_eq!(build(), build());
}
