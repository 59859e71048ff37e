use code_agent::definition::{ImplementationType, ToolDefinition};

fn blank_definition(t: ImplementationType) -> ToolDefinition {
    ToolDefinition {
        name: "test".to_string(),
        description: "test".to_string(),
        parameters: "{}".to_string(),
        implementation_type: t,
        script_path: None,
        server_url: None,
        timeout_ms: None,
    }
}

#[test]
fn test_builtin_tool_validation() {
    let def = blank_definition(ImplementationType::Builtin);
    assert!(def.validate().is_ok());
}

#[test]
fn test_script_tool_requires_path() {
    let def = blank_definition(ImplementationType::Script);
    assert!(def.validate().is_err());
}

#[test]
fn test_mcp_tool_requires_url() {
    let def = blank_definition(ImplementationType::McpServer);
    assert!(def.validate().is_err());
}

#[test]
fn validate_messages_are_exact() {
    let def = blank_definition(ImplementationType::Script);
    assert_eq!(
        def.validate().unwrap_err(),
        "Tool 'test' has implementation_type 'script' but no script_path"
    );
    let def = blank_definition(ImplementationType::McpServer);
    assert_eq!(
        def.validate().unwrap_err(),
        "Tool 'test' has implementation_type 'mcp_server' but no server_url"
    );
}

#[test]
fn from_text_resolves_relative_script_path() {
    let content = "{\"name\":\"mytool\",\"description\":\"d\",\"parameters\":{\"type\":\"object\"},\"implementation_type\":\"script\",\"script_path\":\"run.sh\"}";
    let def = ToolDefinition::from_text("/home/u/.code_agent/tools/definitions/mytool.json", content)
        .unwrap();
    assert_eq!(def.name, "mytool");
    assert_eq!(def.description, "d");
    assert!(matches!(def.implementation_type, ImplementationType::Script));
    assert_eq!(
        def.script_path.as_deref(),
        Some("/home/u/.code_agent/tools/scripts/run.sh")
    );
}

#[test]
fn from_text_keeps_absolute_and_home_paths() {
    let content = "{\"name\":\"t\",\"description\":\"d\",\"parameters\":{},\"implementation_type\":\"script\",\"script_path\":\"/bin/x.sh\"}";
    let def = ToolDefinition::from_text("/tools/definitions/t.json", content).unwrap();
    assert_eq!(def.script_path.as_deref(), Some("/bin/x.sh"));

    let content = "{\"name\":\"t\",\"description\":\"d\",\"parameters\":{},\"implementation_type\":\"script\",\"script_path\":\"~/x.sh\"}";
    let def = ToolDefinition::from_text("/tools/definitions/t.json", content).unwrap();
    assert_eq!(def.script_path.as_deref(), Some("~/x.sh"));
}

#[test]
fn from_text_rejects_malformed_documents() {
    let err = ToolDefinition::from_text("/d/t.json", "not json at all").unwrap_err();
    assert_eq!(err, "Failed to parse tool definition from /d/t.json");

    let err = ToolDefinition::from_text("/d/t.json", "{\"description\":\"d\",\"parameters\":{}}")
        .unwrap_err();
    assert_eq!(err, "Failed to parse tool definition from /d/t.json");

    let err = ToolDefinition::from_text(
        "/d/t.json",
        "{\"name\":\"t\",\"description\":\"d\",\"parameters\":{},\"implementation_type\":\"weird\"}",
    )
    .unwrap_err();
    assert_eq!(err, "Failed to parse tool definition from /d/t.json");
}

#[test]
fn from_text_requires_location_data() {
    let err = ToolDefinition::from_text(
        "/d/t.json",
        "{\"name\":\"t\",\"description\":\"d\",\"parameters\":{},\"implementation_type\":\"script\"}",
    )
    .unwrap_err();
    assert_eq!(err, "Tool 't' has implementation_type 'script' but no script_path");

    let err = ToolDefinition::from_text(
        "/d/t.json",
        "{\"name\":\"t\",\"description\":\"d\",\"parameters\":{},\"implementation_type\":\"mcp_server\"}",
    )
    .unwrap_err();
    assert_eq!(err, "Tool 't' has implementation_type 'mcp_server' but no server_url");
}

#[test]
fn from_text_applies_defaults() {
    let def = ToolDefinition::from_text(
        "/d/t.json",
        "{\"name\":\"t\",\"description\":\"d\",\"parameters\":{\"a\":1}}",
    )
    .unwrap();
    assert!(matches!(def.implementation_type, ImplementationType::Builtin));
    assert!(def.script_path.is_none());
    assert!(def.server_url.is_none());
    assert!(def.timeout_ms.is_none());
    assert_eq!(def.parameters, "{\"a\":1}");
    assert!(matches!(
        code_agent::definition::default_implementation_type(),
        ImplementationType::Builtin
    ));
}

#[test]
fn from_text_reads_timeout() {
    let def = ToolDefinition::from_text(
        "/d/t.json",
        "{\"name\":\"t\",\"description\":\"d\",\"parameters\":{},\"implementation_type\":\"mcp_server\",\"server_url\":\"http://localhost:1\",\"timeout_ms\":5000}",
    )
    .unwrap();
    assert_eq!(def.timeout_ms, Some(5000));
    assert_eq!(def.server_url.as_deref(), Some("http://localhost:1"));
}
