use gen_mcp::config::{Config, Group, OutputFormat, ParamType, Parameter, Tool};
use gen_mcp::error::{GenMcpError, McpError};
use gen_mcp::json::JsonValue;
use gen_mcp::server::McpServer;
use gen_mcp::service::{ArgValue, CallArguments, CallError, GenMcpService};

fn param(description: &str, required: bool) -> Parameter {
    Parameter {
        description: description.to_string(),
        param_type: ParamType::Infer,
        enum_values: None,
        default: None,
        minimum: None,
        maximum: None,
        example: None,
        flag: None,
        takes_value: false,
        required,
        split_args: false,
    }
}

/// `[groups.test_group]` (timeout 30, max 300) with tool `echo` running
/// `/bin/echo` on a required `text`.
fn create_test_config() -> Config {
    let tool = Tool {
        name: "echo".to_string(),
        description: "Echo command".to_string(),
        command: "/bin/echo".to_string(),
        output: OutputFormat::Text,
        arg_order: Vec::new(),
        timeout: None,
        timeout_max: None,
        stop_after: None,
        stop_after_max: None,
        termination_signal: None,
        termination_grace_period: None,
        output_head_lines: None,
        output_head_lines_max: None,
        output_tail_lines: None,
        output_tail_lines_max: None,
        stderr_lines: None,
        stderr_lines_max: None,
        parameters: vec![("text".to_string(), param("Text to echo", true))],
    };
    let group = Group {
        default_timeout: Some(30),
        default_timeout_max: Some(300),
        default_stop_after: None,
        default_stop_after_max: None,
        default_termination_signal: None,
        default_termination_grace_period: None,
        default_output_head_lines: None,
        default_output_tail_lines: None,
        default_output_head_lines_max: None,
        default_output_tail_lines_max: None,
        default_stderr_lines: None,
        default_stderr_lines_max: None,
        tools: vec![tool],
    };
    Config {
        groups: vec![("test_group".to_string(), group)],
        expose_runtime_overrides: false,
        websocket_auth: None,
    }
}

fn text(s: &str) -> ArgValue {
    ArgValue::String(s.to_string())
}

fn number(n: u64) -> ArgValue {
    ArgValue::Number { as_i64: Some(n as i64), as_u64: Some(n), text: n.to_string() }
}

fn object(members: Vec<(&str, ArgValue)>) -> CallArguments {
    CallArguments::Object(members.into_iter().map(|(k, v)| (k.to_string(), v)).collect())
}

#[test]
fn test_server_creation() {
    let config = create_test_config();
    let server = McpServer::new(config).unwrap();
    assert!(!server.is_initialized());
}

#[test]
fn test_handle_initialize() {
    let config = create_test_config();
    let server = McpServer::new(config).unwrap();

    let capabilities = server.handle_initialize("2024-11-05", &JsonValue::Object(vec![])).unwrap();

    assert!(capabilities.get("protocolVersion").is_some());
    assert!(capabilities.get("serverInfo").is_some());
    assert!(capabilities.get("tools").is_some());

    let tools = capabilities.get("tools").unwrap().as_array().unwrap();
    assert_eq!(tools.len(), 1);
    assert_eq!(tools[0].get("name").unwrap().as_str().unwrap(), "test_group_echo");
}

#[test]
fn test_handle_initialize_2025_11_25() {
    let config = create_test_config();
    let server = McpServer::new(config).unwrap();

    let capabilities = server.handle_initialize("2025-11-25", &JsonValue::Object(vec![])).unwrap();

    assert!(capabilities.get("protocolVersion").is_some());
    assert_eq!(
        capabilities.get("protocolVersion").unwrap().as_str().unwrap(),
        "2025-11-25"
    );
}

#[test]
fn test_handle_initialize_invalid_version() {
    let config = create_test_config();
    let server = McpServer::new(config).unwrap();

    let result = server.handle_initialize("invalid-version", &JsonValue::Object(vec![]));

    assert!(result.is_err());
}

#[test]
fn test_handle_initialized() {
    let config = create_test_config();
    let mut server = McpServer::new(config).unwrap();

    assert!(!server.is_initialized());
    server.handle_initialized();
    assert!(server.is_initialized());
}

#[test]
fn test_handle_shutdown() {
    let config = create_test_config();
    let mut server = McpServer::new(config).unwrap();

    server.handle_initialized();
    assert!(server.is_initialized());

    server.handle_shutdown();
    assert!(!server.is_initialized());
}

#[test]
fn test_handle_tool_call_not_found() {
    let config = create_test_config();
    let server = McpServer::new(config).unwrap();

    let result = server.prepare_tool_call("nonexistent_tool", &object(vec![]));

    assert!(result.is_err());
    if let Err(e) = result {
        match e {
            GenMcpError::Mcp(McpError::ToolNotFound(_)) => {}
            _ => panic!("Expected ToolNotFound error"),
        }
    }
}

#[test]
fn test_handle_tool_call_missing_required_param() {
    let config = create_test_config();
    let server = McpServer::new(config).unwrap();

    let result = server.prepare_tool_call("test_group_echo", &object(vec![]));

    assert!(result.is_err());
    if let Err(e) = result {
        match e {
            GenMcpError::Mcp(McpError::InvalidToolParameters(_)) => {}
            _ => panic!("Expected InvalidToolParameters error"),
        }
    }
}

#[test]
fn test_handle_tool_call_override_exceeds_max() {
    let config = create_test_config();
    let server = McpServer::new(config).unwrap();

    let result = server.prepare_tool_call(
        "test_group_echo",
        &object(vec![("text", text("hello")), ("timeout", number(500))]),
    );

    assert!(result.is_err());
    if let Err(e) = result {
        match e {
            GenMcpError::Mcp(McpError::OverrideExceedsMax { .. }) => {}
            _ => panic!("Expected OverrideExceedsMax error"),
        }
    }
}

#[test]
fn prepared_call_uses_overrides_within_max() {
    let server = McpServer::new(create_test_config()).unwrap();
    let plan = server
        .prepare_tool_call(
            "test_group_echo",
            &object(vec![
                ("text", text("hello")),
                ("timeout", number(100)),
                ("output_head_lines", number(50)),
            ]),
        )
        .unwrap();
    assert_eq!(plan.command, "/bin/echo");
    assert_eq!(plan.args, vec!["hello"]);
    assert_eq!(plan.timeout_secs, 100);
    assert_eq!(plan.output_head_lines, 50);
    assert_eq!(plan.output_tail_lines, 100);
    assert_eq!(plan.stderr_lines, 50);
    assert_eq!(plan.stop_after_secs, None);
}

#[test]
fn prepared_call_needs_an_object() {
    let server = McpServer::new(create_test_config()).unwrap();
    match server.prepare_tool_call("test_group_echo", &CallArguments::Null) {
        Err(GenMcpError::Mcp(McpError::InvalidToolParameters(m))) => {
            assert_eq!(m, "Arguments must be an object")
        }
        other => panic!("unexpected {other:?}"),
    }
}

#[test]
fn list_tools_matches_the_initialize_tools() {
    let server = McpServer::new(create_test_config()).unwrap();
    let listed = server.list_tools();
    let init = server.handle_initialize("2025-06-18", &JsonValue::Null).unwrap();
    assert_eq!(&listed, init.get("tools").unwrap());
    let info = init.get("serverInfo").unwrap();
    assert_eq!(info.get("name").unwrap().as_str(), Some("genmcp"));
    let caps = init.get("capabilities").unwrap();
    assert_eq!(
        caps.get("tools").unwrap().get("listChanged").unwrap(),
        &JsonValue::Bool(false)
    );
}

#[test]
fn server_and_service_agree_on_calls() {
    let server = McpServer::new(create_test_config()).unwrap();
    let service = GenMcpService::new(create_test_config()).unwrap();
    let ok = object(vec![("text", text("hi there")), ("timeout", number(60))]);
    let a = server.prepare_tool_call("test_group_echo", &ok).unwrap();
    let b = service.plan_tool_call("test_group_echo", &ok).unwrap();
    assert_eq!((a.command.clone(), a.args.clone(), a.timeout_secs), (b.command.clone(), b.args.clone(), b.timeout_secs));
    assert_eq!((a.stop_after_secs, a.output_head_lines, a.output_tail_lines, a.stderr_lines),
        (b.stop_after_secs, b.output_head_lines, b.output_tail_lines, b.stderr_lines));
    assert_eq!(a.termination_grace_period, b.termination_grace_period);

    match (server.prepare_tool_call("nope", &ok), service.plan_tool_call("nope", &ok)) {
        (Err(GenMcpError::Mcp(McpError::ToolNotFound(n))), Err(CallError::Tool(m))) => {
            assert_eq!(format!("Tool not found: {n}"), m)
        }
        other => panic!("unexpected {other:?}"),
    }
    let big = object(vec![("text", text("x")), ("timeout", number(100000))]);
    match (server.prepare_tool_call("test_group_echo", &big), service.plan_tool_call("test_group_echo", &big)) {
        (Err(e @ GenMcpError::Mcp(McpError::OverrideExceedsMax { .. })), Err(CallError::InvalidParams(m))) => {
            assert_eq!(e.message(), m)
        }
        other => panic!("unexpected {other:?}"),
    }
    match (server.prepare_tool_call("test_group_echo", &CallArguments::Other), service.plan_tool_call("test_group_echo", &CallArguments::Other)) {
        (Err(GenMcpError::Mcp(McpError::InvalidToolParameters(x))), Err(CallError::InvalidParams(m))) => {
            assert_eq!(x, m)
        }
        other => panic!("unexpected {other:?}"),
    }
}
