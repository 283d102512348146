use mcp_sync::json::Json;
use mcp_sync::convert::{convert_claude_to_opencode, convert_opencode_to_claude};

fn s(x: &str) -> Json {
    Json::Str(x.to_string())
}

fn obj(pairs: Vec<(&str, Json)>) -> Json {
    Json::Obj(pairs.into_iter().map(|(k, v)| (k.to_string(), v)).collect())
}

fn arr(items: Vec<Json>) -> Json {
    Json::Arr(items)
}

#[test]
fn test_opencode_to_claude_local_server() {
    let opencode_config = obj(vec![
        ("type", s("local")),
        ("command", arr(vec![s("npx"), s("-y"), s("@anthropic/mcp-server")])),
        ("environment", obj(vec![("API_KEY", s("test-key"))])),
        ("enabled", Json::Bool(true)),
        ("description", s("Test server")),
    ]);

    let claude_config = convert_opencode_to_claude(&opencode_config);

    // Command should be split
    assert_eq!(claude_config.get("command"), Some(&s("npx")));
    assert_eq!(
        claude_config.get("args"),
        Some(&arr(vec![s("-y"), s("@anthropic/mcp-server")]))
    );

    // environment -> env
    assert_eq!(
        claude_config.get("env").unwrap().get("API_KEY"),
        Some(&s("test-key"))
    );

    // OpenCode-specific fields should NOT be present
    assert!(claude_config.get("enabled").is_none());
    assert!(claude_config.get("description").is_none());

    // type SHOULD be present for Backend B (converted from OpenCode)
    assert_eq!(claude_config.get("type"), Some(&s("stdio")));

    // environment should NOT be present (renamed to env)
    assert!(claude_config.get("environment").is_none());
}

#[test]
fn test_opencode_to_claude_remote_server() {
    let opencode_config = obj(vec![
        ("type", s("remote")),
        ("url", s("https://api.example.com/mcp")),
        ("headers", obj(vec![("Authorization", s("Bearer token"))])),
        ("enabled", Json::Bool(true)),
    ]);

    let claude_config = convert_opencode_to_claude(&opencode_config);

    // URL should be preserved
    assert_eq!(claude_config.get("url"), Some(&s("https://api.example.com/mcp")));

    // Headers should be preserved
    assert_eq!(
        claude_config.get("headers").unwrap().get("Authorization"),
        Some(&s("Bearer token"))
    );

    // OpenCode-specific fields should NOT be present
    assert!(claude_config.get("enabled").is_none());

    // type SHOULD be present for Backend B (http for remote)
    assert_eq!(claude_config.get("type"), Some(&s("http")));
}

#[test]
fn test_claude_to_opencode_local_server() {
    let claude_config = obj(vec![
        ("command", s("npx")),
        ("args", arr(vec![s("-y"), s("@anthropic/mcp-server")])),
        ("env", obj(vec![("API_KEY", s("test-key"))])),
    ]);

    let opencode_config = convert_claude_to_opencode(&claude_config);

    // Type should be inferred as local
    assert_eq!(opencode_config.get("type"), Some(&s("local")));

    // enabled should be set to true
    assert_eq!(opencode_config.get("enabled"), Some(&Json::Bool(true)));

    // Command + args should be merged
    assert_eq!(
        opencode_config.get("command"),
        Some(&arr(vec![s("npx"), s("-y"), s("@anthropic/mcp-server")]))
    );

    // env -> environment
    assert_eq!(
        opencode_config.get("environment").unwrap().get("API_KEY"),
        Some(&s("test-key"))
    );
}

#[test]
fn test_claude_to_opencode_remote_server() {
    let claude_config = obj(vec![
        ("url", s("https://api.example.com/mcp")),
        ("headers", obj(vec![("Authorization", s("Bearer token"))])),
    ]);

    let opencode_config = convert_claude_to_opencode(&claude_config);

    // Type should be inferred as remote due to url presence
    assert_eq!(opencode_config.get("type"), Some(&s("remote")));

    // enabled should be set to true
    assert_eq!(opencode_config.get("enabled"), Some(&Json::Bool(true)));

    // URL should be preserved
    assert_eq!(opencode_config.get("url"), Some(&s("https://api.example.com/mcp")));
}

#[test]
fn test_roundtrip_conversion() {
    // Start with OpenCode config
    let original = obj(vec![
        ("type", s("local")),
        ("command", arr(vec![s("npx"), s("-y"), s("test-server")])),
        ("environment", obj(vec![("KEY", s("value"))])),
        ("enabled", Json::Bool(true)),
    ]);

    // Convert to Backend B's shape
    let claude = convert_opencode_to_claude(&original);

    // Convert back to OpenCode
    let back_to_opencode = convert_claude_to_opencode(&claude);

    // Key fields should be preserved
    assert_eq!(back_to_opencode.get("type"), Some(&s("local")));
    assert_eq!(back_to_opencode.get("enabled"), Some(&Json::Bool(true)));
    assert_eq!(
        back_to_opencode.get("command"),
        Some(&arr(vec![s("npx"), s("-y"), s("test-server")]))
    );
    assert_eq!(
        back_to_opencode.get("environment").unwrap().get("KEY"),
        Some(&s("value"))
    );
}

#[test]
fn atob_drops_enabled_even_when_false() {
    let input = obj(vec![
        ("command", arr(vec![s("run")])),
        ("enabled", Json::Bool(false)),
        ("description", s("x")),
    ]);
    let out = convert_opencode_to_claude(&input);
    assert!(out.get("enabled").is_none());
    assert!(out.get("description").is_none());
}

#[test]
fn btoa_overrides_existing_enabled() {
    let input = obj(vec![("command", s("run")), ("enabled", Json::Bool(false))]);
    let out = convert_claude_to_opencode(&input);
    assert_eq!(out.get("enabled"), Some(&Json::Bool(true)));
}

#[test]
fn atob_string_command_kept_and_single_element_array_has_no_args() {
    let as_string = obj(vec![("command", s("serve"))]);
    let out = convert_opencode_to_claude(&as_string);
    assert_eq!(out.get("command"), Some(&s("serve")));
    assert!(out.get("args").is_none());
    assert_eq!(out.get("type"), Some(&s("stdio")));

    let one_elem = obj(vec![("command", arr(vec![s("serve")]))]);
    let out = convert_opencode_to_claude(&one_elem);
    assert_eq!(out.get("command"), Some(&s("serve")));
    assert!(out.get("args").is_none());
}

#[test]
fn atob_empty_input_yields_empty_object_without_type() {
    let out = convert_opencode_to_claude(&obj(vec![]));
    assert_eq!(out, obj(vec![]));
}

#[test]
fn btoa_array_command_spreads_before_args() {
    let input = obj(vec![
        ("command", arr(vec![s("a"), s("b")])),
        ("args", arr(vec![s("c")])),
    ]);
    let out = convert_claude_to_opencode(&input);
    assert_eq!(out.get("command"), Some(&arr(vec![s("a"), s("b"), s("c")])));
}

#[test]
fn btoa_without_command_or_args_has_no_command() {
    let input = obj(vec![("env", obj(vec![("K", s("v"))]))]);
    let out = convert_claude_to_opencode(&input);
    assert!(out.get("command").is_none());
    assert_eq!(out.get("type"), Some(&s("local")));
    assert_eq!(out.get("environment"), Some(&obj(vec![("K", s("v"))])));
}

#[test]
fn common_fields_copied_both_ways() {
    let input = obj(vec![
        ("transport", s("sse")),
        ("timeout", Json::Int(30)),
        ("url", s("https://x.example")),
    ]);
    let to_b = convert_opencode_to_claude(&input);
    assert_eq!(to_b.get("transport"), Some(&s("sse")));
    assert_eq!(to_b.get("timeout"), Some(&Json::Int(30)));
    assert_eq!(to_b.get("type"), Some(&s("http")));

    let to_a = convert_claude_to_opencode(&input);
    assert_eq!(to_a.get("transport"), Some(&s("sse")));
    assert_eq!(to_a.get("timeout"), Some(&Json::Int(30)));
    assert_eq!(to_a.get("type"), Some(&s("remote")));
    // description is copied B-to-A where present
    let with_desc = obj(vec![("description", s("d"))]);
    assert_eq!(convert_claude_to_opencode(&with_desc).get("description"), Some(&s("d")));
}
