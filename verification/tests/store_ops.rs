use mcp_sync::backup::{
    backup_mcp_by_source, get_mcp_backup, read_backup_content, restore_mcp_backup,
    restore_single_mcp,
};
use mcp_sync::errors::ConfigError;
use mcp_sync::json::Json;
use mcp_sync::num::u64_to_string;
use mcp_sync::ops::{add_mcp, delete_mcp, get_mcp_list, sync_mcp, update_mcp};
use mcp_sync::skills::{add_skill, get_skills_config, remove_skill, save_skills_config, toggle_skill};
use mcp_sync::store::{load_document, Source};

fn s(x: &str) -> Json {
    Json::Str(x.to_string())
}

fn obj(pairs: Vec<(&str, Json)>) -> Json {
    Json::Obj(pairs.into_iter().map(|(k, v)| (k.to_string(), v)).collect())
}

#[test]
fn missing_document_is_an_empty_store() {
    let doc = load_document(None, Source::OpenCode).unwrap();
    assert_eq!(doc, obj(vec![]));
    let list = get_mcp_list(None, None).unwrap();
    assert!(list.opencode.is_empty());
    assert!(list.claude.is_empty());
}

#[test]
fn listing_reports_names_and_metadata() {
    let oc = r#"{"mcp":{"alpha":{"command":["npx"],"enabled":false,"description":"mine"}}}"#;
    let cl = r#"{"mcpServers":{"beta":{"command":"npx"}}}"#;
    let list = get_mcp_list(Some(oc), Some(cl)).unwrap();
    assert_eq!(list.opencode.len(), 1);
    assert_eq!(list.opencode[0].name, "alpha");
    assert_eq!(list.opencode[0].source, "opencode");
    assert!(!list.opencode[0].enabled);
    assert_eq!(list.opencode[0].description.as_deref(), Some("mine"));
    assert_eq!(list.claude.len(), 1);
    assert_eq!(list.claude[0].name, "beta");
    assert_eq!(list.claude[0].source, "claudecode");
    assert!(list.claude[0].enabled);
    assert!(list.claude[0].description.is_none());
}

#[test]
fn listing_fails_on_malformed_documents() {
    let bad = "not json";
    assert!(matches!(
        get_mcp_list(Some(bad), None),
        Err(ConfigError::ParseError(_))
    ));
    assert!(matches!(
        get_mcp_list(None, Some("[1,2]")),
        Err(ConfigError::ParseError(_))
    ));
    // a mapping key that is not an object is a schema mismatch
    assert!(matches!(
        get_mcp_list(Some(r#"{"mcp": 5}"#), None),
        Err(ConfigError::ParseError(_))
    ));
}

#[test]
fn add_validates_json_and_writes_the_entry() {
    assert!(matches!(
        add_mcp("x".to_string(), "{oops", Source::OpenCode, None, None),
        Err(ConfigError::ParseError(_))
    ));

    let text = add_mcp(
        "srv".to_string(),
        r#"{"command":["npx","-y","pkg"]}"#,
        Source::OpenCode,
        Some("hello".to_string()),
        None,
    )
    .unwrap();
    let list = get_mcp_list(Some(&text), None).unwrap();
    assert_eq!(list.opencode.len(), 1);
    assert_eq!(list.opencode[0].name, "srv");
    // a fresh Backend A entry is enabled and carries the description
    assert!(list.opencode[0].enabled);
    assert_eq!(list.opencode[0].description.as_deref(), Some("hello"));
}

#[test]
fn add_overwrites_an_existing_name() {
    let first = add_mcp("srv".to_string(), r#"{"command":"a"}"#, Source::Claude, None, None)
        .unwrap();
    let second = add_mcp(
        "srv".to_string(),
        r#"{"command":"b"}"#,
        Source::Claude,
        None,
        Some(&first),
    )
    .unwrap();
    let doc = load_document(Some(&second), Source::Claude).unwrap();
    let entry = doc.get("mcpServers").unwrap().get("srv").unwrap();
    assert_eq!(entry.get("command"), Some(&s("b")));
}

#[test]
fn add_preserves_unrelated_document_fields() {
    let text = add_mcp(
        "srv".to_string(),
        r#"{"command":"a"}"#,
        Source::OpenCode,
        None,
        Some(r#"{"$schema":"https://x.example/schema","mcp":{}}"#),
    )
    .unwrap();
    let doc = load_document(Some(&text), Source::OpenCode).unwrap();
    assert_eq!(doc.get("$schema"), Some(&s("https://x.example/schema")));
}

#[test]
fn update_requires_an_existing_name() {
    let err = update_mcp("ghost".to_string(), "{}", Source::OpenCode, None, None).unwrap_err();
    assert_eq!(err, ConfigError::FileNotFound("ghost".to_string()));

    let text = add_mcp("srv".to_string(), r#"{"command":"a"}"#, Source::OpenCode, None, None)
        .unwrap();
    let updated = update_mcp(
        "srv".to_string(),
        r#"{"command":"b"}"#,
        Source::OpenCode,
        None,
        Some(&text),
    )
    .unwrap();
    let doc = load_document(Some(&updated), Source::OpenCode).unwrap();
    let entry = doc.get("mcp").unwrap().get("srv").unwrap();
    assert_eq!(entry.get("command"), Some(&s("b")));
    // update does not fabricate an enabled field
    assert!(entry.get("enabled").is_none());
}

#[test]
fn delete_requires_an_existing_name() {
    assert_eq!(
        delete_mcp("ghost", Source::Claude, None).unwrap_err(),
        ConfigError::FileNotFound("ghost".to_string())
    );
    let text = add_mcp("srv".to_string(), r#"{"command":"a"}"#, Source::Claude, None, None)
        .unwrap();
    let after = delete_mcp("srv", Source::Claude, Some(&text)).unwrap();
    let list = get_mcp_list(None, Some(&after)).unwrap();
    assert!(list.claude.is_empty());
}

#[test]
fn sync_converts_across_backends() {
    // Backend A definition pushed into Backend B's store
    let text = sync_mcp(
        "srv".to_string(),
        Source::OpenCode,
        Source::Claude,
        r#"{"command":["npx","-y","pkg"],"environment":{"K":"v"},"enabled":true}"#,
        None,
    )
    .unwrap();
    let doc = load_document(Some(&text), Source::Claude).unwrap();
    let entry = doc.get("mcpServers").unwrap().get("srv").unwrap();
    assert_eq!(entry.get("command"), Some(&s("npx")));
    assert_eq!(entry.get("args"), Some(&Json::Arr(vec![s("-y"), s("pkg")])));
    assert_eq!(entry.get("env").unwrap().get("K"), Some(&s("v")));
    assert_eq!(entry.get("type"), Some(&s("stdio")));
    assert!(entry.get("enabled").is_none());
}

#[test]
fn sync_between_same_backend_copies_unconverted() {
    let text = sync_mcp(
        "srv".to_string(),
        Source::Claude,
        Source::Claude,
        r#"{"command":"npx","args":["-y"]}"#,
        None,
    )
    .unwrap();
    let doc = load_document(Some(&text), Source::Claude).unwrap();
    let entry = doc.get("mcpServers").unwrap().get("srv").unwrap();
    // no conversion: the command stays a string and no type is derived
    assert_eq!(entry.get("command"), Some(&s("npx")));
    assert!(entry.get("type").is_none());
}

#[test]
fn backup_snapshots_the_mapping() {
    let oc = r#"{"mcp":{"a":{"command":"x"},"b":{"command":"y"}}}"#;
    let (content, info) = backup_mcp_by_source(
        Source::OpenCode,
        Some(oc),
        "/tmp/b.json".to_string(),
        "20240101_000000".to_string(),
        "2024-01-01 00:00:00".to_string(),
    )
    .unwrap();
    assert_eq!(info.filename, "opencode_mcps.json");
    assert_eq!(info.source, "opencode");
    assert_eq!(info.mcp_count, 2);
    assert_eq!(info.path, "/tmp/b.json");
    let snap = load_document(Some(&content), Source::Claude).unwrap();
    assert_eq!(snap.get("source"), Some(&s("opencode")));
    assert_eq!(
        snap.get("mcps").unwrap().get("a").unwrap().get("command"),
        Some(&s("x"))
    );
}

#[test]
fn backup_info_reads_counts_without_mutating() {
    let r = get_mcp_backup(Source::Claude, None, String::new(), String::new()).unwrap();
    assert!(r.is_none());
    let snap = r#"{"source":"claudecode","mcps":{"a":{},"b":{},"c":{}}}"#;
    let info = get_mcp_backup(
        Source::Claude,
        Some(snap),
        "/p".to_string(),
        "now".to_string(),
    )
    .unwrap()
    .unwrap();
    assert_eq!(info.mcp_count, 3);
    assert_eq!(info.timestamp, "");
    // a snapshot without an entries object counts zero
    let odd = get_mcp_backup(Source::Claude, Some("{}"), String::new(), String::new())
        .unwrap()
        .unwrap();
    assert_eq!(odd.mcp_count, 0);
}

#[test]
fn read_backup_hands_text_through() {
    assert_eq!(
        read_backup_content(Source::OpenCode, Some("raw".to_string())).unwrap(),
        "raw"
    );
    assert_eq!(
        read_backup_content(Source::OpenCode, None).unwrap_err(),
        ConfigError::FileNotFound("opencode".to_string())
    );
}

#[test]
fn restore_merges_and_keeps_live_entries() {
    let snap = r#"{"source":"opencode","mcps":{"a":{"command":"x"},"b":{"command":"y"}}}"#;
    let live = r#"{"mcp":{"c":{"command":"z"}}}"#;
    let outcome = restore_mcp_backup(Source::OpenCode, Some(snap), Some(live), None).unwrap();
    assert_eq!(outcome.target, Source::OpenCode);
    assert_eq!(outcome.restored, 2);
    assert_eq!(outcome.summary, "Successfully restored 2 MCPs to OpenCode");
    let list = get_mcp_list(Some(&outcome.new_text), None).unwrap();
    // the live entry survives and the snapshot entries are present
    assert!(list.opencode.len() >= 2);
    assert_eq!(list.opencode.len(), 3);
    let names: Vec<&str> = list.opencode.iter().map(|i| i.name.as_str()).collect();
    assert!(names.contains(&"a") && names.contains(&"b") && names.contains(&"c"));
}

#[test]
fn restore_follows_the_recorded_source() {
    // the caller names Backend A's snapshot slot, but the snapshot records B
    let snap = r#"{"source":"claudecode","mcps":{"a":{"command":"x"}}}"#;
    let outcome = restore_mcp_backup(Source::OpenCode, Some(snap), None, None).unwrap();
    assert_eq!(outcome.target, Source::Claude);
    assert_eq!(outcome.summary, "Successfully restored 1 MCPs to ClaudeCode");
    let doc = load_document(Some(&outcome.new_text), Source::Claude).unwrap();
    assert!(doc.get("mcpServers").unwrap().get("a").is_some());
}

#[test]
fn restore_rejects_unknown_sources_and_bad_snapshots() {
    assert!(matches!(
        restore_mcp_backup(Source::OpenCode, None, None, None),
        Err(ConfigError::FileNotFound(_))
    ));
    assert!(matches!(
        restore_mcp_backup(Source::OpenCode, Some("{nope"), None, None),
        Err(ConfigError::ParseError(_))
    ));
    assert!(matches!(
        restore_mcp_backup(Source::OpenCode, Some(r#"{"source":"opencode"}"#), None, None),
        Err(ConfigError::ParseError(_))
    ));
    assert!(matches!(
        restore_mcp_backup(
            Source::OpenCode,
            Some(r#"{"source":"other","mcps":{}}"#),
            None,
            None
        ),
        Err(ConfigError::ParseError(_))
    ));
}

#[test]
fn restore_single_restores_one_entry() {
    let snap = r#"{"source":"opencode","mcps":{"a":{"command":"x"},"b":{"command":"y"}}}"#;
    let outcome = restore_single_mcp(Source::OpenCode, "a", Some(snap), None, None).unwrap();
    assert_eq!(outcome.restored, 1);
    assert_eq!(outcome.summary, "Successfully restored 'a' to OpenCode");
    let doc = load_document(Some(&outcome.new_text), Source::OpenCode).unwrap();
    assert!(doc.get("mcp").unwrap().get("a").is_some());
    assert!(doc.get("mcp").unwrap().get("b").is_none());
}

#[test]
fn restore_single_missing_name_is_not_found() {
    let snap = r#"{"source":"opencode","mcps":{}}"#;
    let err = restore_single_mcp(Source::OpenCode, "foo", Some(snap), None, None).unwrap_err();
    assert_eq!(err, ConfigError::FileNotFound("foo".to_string()));
}

#[test]
fn skills_load_save_and_mutate() {
    let empty = get_skills_config(None).unwrap();
    assert!(empty.skills.is_empty() && empty.agents.is_empty() && empty.plugins.is_empty());
    assert!(empty.schema.is_none());

    let text = add_skill(
        "formatter".to_string(),
        Some("formats things".to_string()),
        "manual".to_string(),
        None,
    )
    .unwrap();
    let cfg = get_skills_config(Some(&text)).unwrap();
    assert_eq!(cfg.skills.len(), 1);
    assert_eq!(cfg.skills[0].name, "formatter");
    assert_eq!(cfg.skills[0].enabled, Some(true));
    assert_eq!(cfg.skills[0].source.as_deref(), Some("manual"));

    let toggled = toggle_skill("formatter", false, Some(&text)).unwrap();
    let cfg = get_skills_config(Some(&toggled)).unwrap();
    assert_eq!(cfg.skills[0].enabled, Some(false));

    let removed = remove_skill("formatter", Some(&toggled)).unwrap();
    let cfg = get_skills_config(Some(&removed)).unwrap();
    assert!(cfg.skills.is_empty());

    let rendered = save_skills_config(&cfg);
    let back = get_skills_config(Some(&rendered)).unwrap();
    assert!(back.skills.is_empty());
}

#[test]
fn skills_parsing_is_strict_about_shapes() {
    // a skill without a name fails
    assert!(matches!(
        get_skills_config(Some(r#"{"skills":[{"enabled":true}]}"#)),
        Err(ConfigError::ParseError(_))
    ));
    // a non-array skills field fails
    assert!(matches!(
        get_skills_config(Some(r#"{"skills":5}"#)),
        Err(ConfigError::ParseError(_))
    ));
    // null optional fields are fine; unknown fields are ignored
    let cfg = get_skills_config(Some(
        r#"{"skills":[{"name":"n","description":null,"extra":1}],"plugins":["p"]}"#,
    ))
    .unwrap();
    assert_eq!(cfg.skills[0].name, "n");
    assert!(cfg.skills[0].description.is_none());
    assert_eq!(cfg.plugins, vec!["p".to_string()]);
}

#[test]
fn error_messages_are_tagged() {
    assert_eq!(
        ConfigError::FileNotFound("x".to_string()).message(),
        "File not found: x"
    );
    assert_eq!(
        ConfigError::ParseError("bad".to_string()).message(),
        "Parse error: bad"
    );
    assert_eq!(
        ConfigError::WriteError("w".to_string()).message(),
        "Write error: w"
    );
    assert_eq!(
        ConfigError::PermissionDenied("p".to_string()).message(),
        "Permission denied: p"
    );
}

#[test]
fn counts_render_in_decimal() {
    assert_eq!(u64_to_string(0), "0");
    assert_eq!(u64_to_string(7), "7");
    assert_eq!(u64_to_string(10), "10");
    assert_eq!(u64_to_string(90210), "90210");
}

#[test]
fn numbers_survive_a_document_round_trip() {
    let text = add_mcp(
        "srv".to_string(),
        r#"{"timeout":30,"ratio":1.5,"big":18446744073709551615}"#,
        Source::Claude,
        None,
        None,
    )
    .unwrap();
    let doc = load_document(Some(&text), Source::Claude).unwrap();
    let entry = doc.get("mcpServers").unwrap().get("srv").unwrap();
    assert_eq!(entry.get("timeout"), Some(&Json::Int(30)));
    assert_eq!(entry.get("ratio"), Some(&Json::Num("1.5".to_string())));
    assert_eq!(
        entry.get("big"),
        Some(&Json::Num("18446744073709551615".to_string()))
    );
}
