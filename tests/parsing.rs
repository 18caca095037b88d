use akiraka::assets::{parse_asset_index, sort_largest_first, Asset};
use akiraka::catalog::get_version_sources;
use akiraka::descriptor::{parse_descriptor, Library};
use akiraka::json::{parse_json, Json, ParseError};
use akiraka::rules::{Platform, RuleAction, RuleMode};

const CATALOG: &str = r#"{"latest":{"release":"1.20.1"},"versions":[
 {"id":"23w31a","type":"snapshot","url":"https://meta.example/23w31a.json","releaseTime":"2023-08-01T00:00:00+00:00"},
 {"id":"1.20.1","type":"release","url":"https://meta.example/1.20.1.json","releaseTime":"2023-06-12T00:00:00+00:00"},
 {"id":"b1.7.3","type":"old_beta","url":"https://meta.example/b1.7.3.json","releaseTime":"2011-07-08T00:00:00+00:00"},
 {"id":"a1.0.4","type":"old_alpha","url":"https://meta.example/a1.0.4.json","releaseTime":"2010-07-09T00:00:00+00:00"}]}"#;

const DESCRIPTOR: &str = r#"{
 "id": "1.20.1",
 "mainClass": "net.minecraft.client.main.Main",
 "downloads": {"client": {"url": "https://cdn.example/client.jar", "size": 10}},
 "assetIndex": {"id": "5", "url": "https://cdn.example/5.json"},
 "libraries": [
  {"name": "a:b:1", "downloads": {"artifact": {"path": "a/b/1/b-1.jar", "url": "https://libs.example/a/b/1/b-1.jar"}}},
  {"name": "c:d:2", "downloads": {"artifact": {"path": "c/d/2/d-2.jar", "url": "https://libs.example/c/d/2/d-2.jar"}},
   "rules": [{"action": "allow", "os": {"name": "osx"}}]},
  {"name": "e:f:3", "downloads": {"classifiers": {
      "natives-linux": {"path": "e/f/3/f-3-natives-linux.jar", "url": "https://libs.example/f-3-natives-linux.jar"},
      "natives-windows": null}},
   "natives": {"linux": "natives-linux", "windows": "natives-windows", "osx": "natives-macos"}}
 ]
}"#;

#[test]
fn json_lookup_finds_fields() {
    let j = parse_json(br#"{"a": 1, "b": "two", "c": [true, null], "d": -3, "e": 1.5}"#).unwrap();
    assert!(matches!(j.get("a"), Some(Json::Int(1))));
    assert_eq!(j.get_str("b").map(|s| s.as_str()), Some("two"));
    match j.get("c") {
        Some(Json::Array(items)) => {
            assert_eq!(items.len(), 2);
            assert!(matches!(items[0], Json::Bool(true)));
            assert!(matches!(items[1], Json::Null));
        }
        _ => panic!("array expected"),
    }
    assert!(matches!(j.get("d"), Some(Json::OtherNumber)));
    assert!(matches!(j.get("e"), Some(Json::OtherNumber)));
    assert!(j.get("missing").is_none());
    assert!(j.get_str("a").is_none());
}

#[test]
fn json_syntax_error() {
    assert_eq!(parse_json(b"{\"a\": ").err(), Some(ParseError::Syntax));
    assert_eq!(parse_json(b"not json").err(), Some(ParseError::Syntax));
}

#[test]
fn catalog_keeps_order_and_filters() {
    let all = get_version_sources(CATALOG.as_bytes(), true, true, true, true).unwrap();
    let ids: Vec<&str> = all.iter().map(|v| v.version_id.as_str()).collect();
    assert_eq!(ids, vec!["23w31a", "1.20.1", "b1.7.3", "a1.0.4"]);
    let releases = get_version_sources(CATALOG.as_bytes(), false, true, false, false).unwrap();
    assert_eq!(releases.len(), 1);
    assert_eq!(releases[0].version_id, "1.20.1");
    assert_eq!(releases[0].version_url, "https://meta.example/1.20.1.json");
    assert_eq!(releases[0].version_type, "release");
    assert_eq!(releases[0].release_time, "2023-06-12T00:00:00+00:00");
    let old = get_version_sources(CATALOG.as_bytes(), false, false, true, true).unwrap();
    let ids: Vec<&str> = old.iter().map(|v| v.version_id.as_str()).collect();
    assert_eq!(ids, vec!["b1.7.3", "a1.0.4"]);
    assert!(get_version_sources(CATALOG.as_bytes(), false, false, false, false).unwrap().is_empty());
}

#[test]
fn catalog_errors() {
    assert_eq!(get_version_sources(b"{", true, true, true, true).err(), Some(ParseError::Syntax));
    assert_eq!(get_version_sources(b"{}", true, true, true, true).err(), Some(ParseError::Schema));
    let missing_url = r#"{"versions":[{"id":"x","type":"release","releaseTime":"t"}]}"#;
    assert_eq!(get_version_sources(missing_url.as_bytes(), true, true, true, true).err(), Some(ParseError::Schema));
}

#[test]
fn descriptor_decodes() {
    let d = parse_descriptor(DESCRIPTOR.as_bytes()).unwrap();
    assert_eq!(d.client_url, "https://cdn.example/client.jar");
    assert_eq!(d.asset_index.id, "5");
    assert_eq!(d.asset_index.url, "https://cdn.example/5.json");
    assert_eq!(d.libraries.len(), 3);
    let a = d.libraries[0].artifact.as_ref().unwrap();
    assert_eq!(a.path, "a/b/1/b-1.jar");
    assert!(d.libraries[0].rules.is_none());
    let rules = d.libraries[1].rules.as_ref().unwrap();
    assert_eq!(rules.len(), 1);
    assert_eq!(rules[0].action, RuleAction::Allow);
    assert_eq!(rules[0].os.as_ref().unwrap().name.as_deref(), Some("osx"));
    let natives = &d.libraries[2].natives;
    assert_eq!(natives.len(), 3);
    let linux = natives.iter().find(|n| n.os == "linux").unwrap();
    assert_eq!(linux.classifier.as_ref().unwrap().path, "e/f/3/f-3-natives-linux.jar");
    assert!(natives.iter().find(|n| n.os == "windows").unwrap().classifier.is_none());
    assert!(natives.iter().find(|n| n.os == "osx").unwrap().classifier.is_none());
}

#[test]
fn descriptor_schema_errors() {
    assert_eq!(parse_descriptor(br#"{"libraries": []}"#).err(), Some(ParseError::Schema));
    let bad_artifact = r#"{"downloads":{"client":{"url":"u"}},"assetIndex":{"id":"1","url":"v"},
        "libraries":[{"downloads":{"artifact":{"url":"x"}}}]}"#;
    assert_eq!(parse_descriptor(bad_artifact.as_bytes()).err(), Some(ParseError::Schema));
    let bad_rule = r#"{"downloads":{"client":{"url":"u"}},"assetIndex":{"id":"1","url":"v"},
        "libraries":[{"rules":[{"os":{"name":"osx"}}]}]}"#;
    assert_eq!(parse_descriptor(bad_rule.as_bytes()).err(), Some(ParseError::Schema));
    assert_eq!(parse_descriptor(b"[").err(), Some(ParseError::Syntax));
}

#[test]
fn library_without_rules_always_included() {
    let d = parse_descriptor(DESCRIPTOR.as_bytes()).unwrap();
    let lib: &Library = &d.libraries[0];
    for os in ["linux", "windows", "macos", "freebsd"] {
        for mode in [RuleMode::ResetOnMismatch, RuleMode::KeepOnMismatch] {
            let p = Platform { os: os.to_string(), arch: "x86_64".to_string() };
            assert!(lib.is_included(&p, mode));
        }
    }
    let ruled = &d.libraries[1];
    let mac = Platform { os: "macos".to_string(), arch: "aarch64".to_string() };
    let linux = Platform { os: "linux".to_string(), arch: "x86_64".to_string() };
    assert!(ruled.is_included(&mac, RuleMode::ResetOnMismatch));
    assert!(!ruled.is_included(&linux, RuleMode::KeepOnMismatch));
}

#[test]
fn asset_index_decodes() {
    let text = r#"{"objects": {
        "icons/icon_16x16.png": {"hash": "bdf48ef6b5d0d23bbb02e17d04865216179f510a", "size": 3665},
        "minecraft/sounds/ambient/cave/cave1.ogg": {"hash": "0a1b2c3d4e5f", "size": 12}}}"#;
    let assets = parse_asset_index(text.as_bytes()).unwrap();
    assert_eq!(assets.len(), 2);
    let cave = assets.iter().find(|a| a.name == "minecraft/sounds/ambient/cave/cave1.ogg").unwrap();
    assert_eq!(cave.hash, "0a1b2c3d4e5f");
    assert_eq!(cave.size, 12);
}

#[test]
fn asset_index_errors() {
    assert_eq!(parse_asset_index(br#"{"objects": {"x": {"hash": "a", "size": 1}}}"#).err(), Some(ParseError::Schema));
    assert_eq!(parse_asset_index(br#"{"objects": {"x": {"hash": "ab", "size": -1}}}"#).err(), Some(ParseError::Schema));
    assert_eq!(parse_asset_index(br#"{"objects": []}"#).err(), Some(ParseError::Schema));
    assert_eq!(parse_asset_index(b"").err(), Some(ParseError::Syntax));
}

#[test]
fn assets_sorted_largest_first_stably() {
    let mk = |n: &str, s: u64| Asset { name: n.to_string(), hash: format!("{}{}", n, n), size: s };
    let sorted = sort_largest_first(vec![mk("a", 3), mk("b", 10), mk("c", 3), mk("d", 0), mk("e", 10)]);
    let names: Vec<&str> = sorted.iter().map(|a| a.name.as_str()).collect();
    assert_eq!(names, vec!["b", "e", "a", "c", "d"]);
    assert!(sort_largest_first(Vec::new()).is_empty());
}
