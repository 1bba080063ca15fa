//! Guard-profile planning and its settings integration.

use clemp::clarg::choose_clarg;
use clemp::clarg::plan_clarg;
use clemp::json::pretty_text;
use clemp::settings::build_settings;
use clemp::settings::HooksDir;
use serde_json::Value;

fn strings(names: &[&str]) -> Vec<String> {
    names.iter().map(|s| s.to_string()).collect()
}

fn entry_value(entry: clemp::json::Json) -> Value {
    serde_json::from_str(&pretty_text(entry)).unwrap()
}

#[test]
fn plan_clarg_names_and_hook_entry() {
    let plan = plan_clarg("strict", &Some(strings(&["strict"]))).unwrap();
    assert_eq!(plan.source_name, "strict.yaml");
    assert_eq!(plan.dest_name, "clarg-strict.yaml");
    let entry = entry_value(plan.entry);
    assert_eq!(
        entry["hooks"][0]["command"].as_str().unwrap(),
        "clarg .agent/clarg-strict.yaml"
    );
    assert_eq!(entry["hooks"][0]["type"].as_str().unwrap(), "command");
}

#[test]
fn setup_clarg_missing_config_errors_with_available_list() {
    let result = plan_clarg("nonexistent", &Some(strings(&["strict"])));
    assert!(result.is_err());
    let msg = result.unwrap_err().message();
    assert!(msg.contains("not found"));
    assert!(msg.contains("strict"));
}

#[test]
fn setup_clarg_no_clarg_dir_errors() {
    let result = plan_clarg("anything", &None);
    assert!(result.is_err());
    assert!(result.unwrap_err().message().contains("not found"));
}

#[test]
fn clarg_entry_merged_into_pretooluse_hooks() {
    let plan = plan_clarg("strict", &Some(strings(&["strict"]))).unwrap();
    let doc = build_settings(
        &Some("{}".to_string()),
        &HooksDir { default_files: Vec::new(), named_files: Vec::new() },
        &strings(&[]),
        vec![plan.entry],
        &strings(&[]),
    )
    .unwrap();
    let v: Value = serde_json::from_str(&pretty_text(doc)).unwrap();
    let pre = v["hooks"]["PreToolUse"].as_array().unwrap();
    assert_eq!(pre.len(), 1);
    assert_eq!(
        pre[0]["hooks"][0]["command"].as_str().unwrap(),
        "clarg .agent/clarg-strict.yaml"
    );
}

#[test]
fn clarg_merges_with_existing_pretooluse_hooks() {
    let plan = plan_clarg("strict", &Some(strings(&["strict"]))).unwrap();
    let doc = build_settings(
        &Some("{}".to_string()),
        &HooksDir {
            default_files: vec![(
                "guard.json".to_string(),
                r#"{"PreToolUse": [{"hooks": [{"type": "command", "command": "other-guard"}]}]}"#
                    .to_string(),
            )],
            named_files: Vec::new(),
        },
        &strings(&[]),
        vec![plan.entry],
        &strings(&[]),
    )
    .unwrap();
    let v: Value = serde_json::from_str(&pretty_text(doc)).unwrap();
    let pre = v["hooks"]["PreToolUse"].as_array().unwrap();
    assert_eq!(pre.len(), 2);
    assert_eq!(pre[0]["hooks"][0]["command"], "other-guard");
    assert!(pre[1]["hooks"][0]["command"].as_str().unwrap().contains("clarg"));
}

#[test]
fn clarg_without_clarg_entry_leaves_hooks_unchanged() {
    let doc = build_settings(
        &Some("{}".to_string()),
        &HooksDir {
            default_files: vec![(
                "sound.json".to_string(),
                r#"{"Notification": [{"command": "beep"}]}"#.to_string(),
            )],
            named_files: Vec::new(),
        },
        &strings(&[]),
        Vec::new(),
        &strings(&[]),
    )
    .unwrap();
    let v: Value = serde_json::from_str(&pretty_text(doc)).unwrap();
    assert!(v["hooks"].get("PreToolUse").is_none());
    assert_eq!(v["hooks"]["Notification"].as_array().unwrap().len(), 1);
}

#[test]
fn default_yaml_applied_without_clarg_flag() {
    let chosen = choose_clarg(&None, &Some(strings(&["default", "strict"])));
    assert_eq!(chosen.as_deref(), Some("default"));
    let plan = plan_clarg(&chosen.unwrap(), &Some(strings(&["default", "strict"]))).unwrap();
    assert_eq!(plan.dest_name, "clarg-default.yaml");
    let entry = entry_value(plan.entry);
    assert_eq!(
        entry["hooks"][0]["command"].as_str().unwrap(),
        "clarg .agent/clarg-default.yaml"
    );
}

#[test]
fn explicit_clarg_flag_overrides_default() {
    let chosen = choose_clarg(
        &Some("strict".to_string()),
        &Some(strings(&["default", "strict"])),
    );
    assert_eq!(chosen.as_deref(), Some("strict"));
    let plan = plan_clarg(&chosen.unwrap(), &Some(strings(&["default", "strict"]))).unwrap();
    assert_eq!(plan.dest_name, "clarg-strict.yaml");
}

#[test]
fn no_default_yaml_and_no_flag_skips_clarg() {
    assert!(choose_clarg(&None, &Some(strings(&["strict"]))).is_none());
    assert!(choose_clarg(&None, &None).is_none());
}
