//! The JSON object model: insertion-ordered puts and lookups.

use clemp::json::{obj_get, obj_put, pretty_text, singleton_obj, Json};

fn obj(entries: &[(&str, &str)]) -> Vec<(String, Json)> {
    entries
        .iter()
        .map(|(k, v)| (k.to_string(), Json::Str(v.to_string())))
        .collect()
}

fn str_of(j: &Json) -> String {
    match j {
        Json::Str(s) => s.clone(),
        _ => panic!("expected a string value"),
    }
}

#[test]
fn put_replaces_in_place_and_appends_new() {
    let mut m = obj(&[("a", "1"), ("b", "2")]);
    obj_put(&mut m, "a".to_string(), Json::Str("updated".to_string()));
    obj_put(&mut m, "c".to_string(), Json::Str("3".to_string()));
    assert_eq!(m.len(), 3);
    assert_eq!(m[0].0, "a");
    assert_eq!(str_of(&m[0].1), "updated");
    assert_eq!(m[1].0, "b");
    assert_eq!(m[2].0, "c");
}

#[test]
fn get_finds_first_entry() {
    let m = obj(&[("a", "1"), ("b", "2")]);
    assert_eq!(str_of(obj_get(&m, "b").unwrap()), "2");
    assert!(obj_get(&m, "missing").is_none());
}

#[test]
fn singleton_wraps_one_entry() {
    let doc = singleton_obj("key", Json::Str("value".to_string()));
    let v: serde_json::Value = serde_json::from_str(&pretty_text(doc)).unwrap();
    assert_eq!(v["key"], "value");
    assert_eq!(v.as_object().unwrap().len(), 1);
}

#[test]
fn object_key_order_survives_serialization() {
    let m = obj(&[("zeta", "1"), ("alpha", "2"), ("mid", "3")]);
    let text = pretty_text(Json::Obj(m));
    let zeta = text.find("zeta").unwrap();
    let alpha = text.find("alpha").unwrap();
    let mid = text.find("mid").unwrap();
    assert!(zeta < alpha && alpha < mid);
}

#[test]
fn parse_and_serialize_round_trip_values() {
    // Parsing happens inside assembly; drive it through a manifest and
    // check the values carried through include non-string scalars.
    let m = clemp::mcp::McpDir {
        default_files: vec![(
            "s.json".to_string(),
            r#"{"s": {"port": 8080, "on": true, "x": null, "arr": [1, "two"]}}"#.to_string(),
        )],
        lang_dirs: vec![],
        named_files: vec![],
    };
    let (doc, _) = clemp::mcp::assemble_mcp_json(&Vec::new(), &Vec::new(), &Some(m)).unwrap();
    let v: serde_json::Value = serde_json::from_str(&pretty_text(doc)).unwrap();
    assert_eq!(v["mcpServers"]["s"]["port"], 8080);
    assert_eq!(v["mcpServers"]["s"]["on"], true);
    assert!(v["mcpServers"]["s"]["x"].is_null());
    assert_eq!(v["mcpServers"]["s"]["arr"][1], "two");
}
