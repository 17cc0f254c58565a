use gen_mcp::config::{Config, Group, OutputFormat, ParamType, Parameter, Tool};
use gen_mcp::error::{ConfigError, GenMcpError, McpError, ToolRegistryError};
use gen_mcp::json::{JsonNumber, JsonValue};
use gen_mcp::tools::ToolRegistry;

fn param(description: &str) -> Parameter {
    Parameter {
        description: description.to_string(),
        param_type: ParamType::Infer,
        enum_values: None,
        default: None,
        minimum: None,
        maximum: None,
        example: None,
        flag: None,
        takes_value: false,
        required: false,
        split_args: false,
    }
}

fn tool(name: &str, description: &str, params: Vec<(&str, Parameter)>) -> Tool {
    Tool {
        name: name.to_string(),
        description: description.to_string(),
        command: "/bin/echo".to_string(),
        output: OutputFormat::Text,
        arg_order: Vec::new(),
        timeout: None,
        timeout_max: None,
        stop_after: None,
        stop_after_max: None,
        termination_signal: None,
        termination_grace_period: None,
        output_head_lines: None,
        output_head_lines_max: None,
        output_tail_lines: None,
        output_tail_lines_max: None,
        stderr_lines: None,
        stderr_lines_max: None,
        parameters: params.into_iter().map(|(n, p)| (n.to_string(), p)).collect(),
    }
}

fn group(tools: Vec<Tool>) -> Group {
    Group {
        default_timeout: None,
        default_timeout_max: None,
        default_stop_after: None,
        default_stop_after_max: None,
        default_termination_signal: None,
        default_termination_grace_period: None,
        default_output_head_lines: None,
        default_output_tail_lines: None,
        default_output_head_lines_max: None,
        default_output_tail_lines_max: None,
        default_stderr_lines: None,
        default_stderr_lines_max: None,
        tools,
    }
}

fn config(groups: Vec<(&str, Group)>, expose: bool) -> Config {
    Config {
        groups: groups.into_iter().map(|(n, g)| (n.to_string(), g)).collect(),
        expose_runtime_overrides: expose,
        websocket_auth: None,
    }
}

/// `[groups.test_group]` with timeout 30 / max 300 and one tool `test_tool`
/// taking a required `arg1` and an optional `arg2` with an example.
fn create_test_config_with(expose: bool) -> Config {
    let mut arg1 = param("First argument");
    arg1.required = true;
    let mut arg2 = param("Second argument");
    arg2.example = Some("example".to_string());
    let mut g = group(vec![tool("test_tool", "A test tool", vec![("arg1", arg1), ("arg2", arg2)])]);
    g.default_timeout = Some(30);
    g.default_timeout_max = Some(300);
    config(vec![("test_group", g)], expose)
}

fn create_test_config() -> Config {
    create_test_config_with(false)
}

fn has_key(v: &JsonValue, key: &str) -> bool {
    v.as_object().unwrap().iter().any(|(k, _)| k == key)
}

#[test]
fn test_tool_registry_creation() {
    let config = create_test_config();
    let registry = ToolRegistry::from_config(&config).unwrap();
    assert_eq!(registry.all_tools().len(), 1);
    assert!(registry.get_tool("test_group_test_tool").is_some());
}

#[test]
fn test_tool_name_generation() {
    let config = create_test_config();
    let registry = ToolRegistry::from_config(&config).unwrap();
    let tool = registry.get_tool("test_group_test_tool").unwrap();
    assert_eq!(tool.full_name, "test_group_test_tool");
    assert_eq!(tool.group_name, "test_group");
    assert_eq!(tool.tool_name, "test_tool");
}

#[test]
fn test_tool_not_found() {
    let config = create_test_config();
    let registry = ToolRegistry::from_config(&config).unwrap();
    assert!(registry.get_tool("nonexistent_tool").is_none());
}

#[test]
fn test_generate_tool_schema() {
    let config = create_test_config();
    let registry = ToolRegistry::from_config(&config).unwrap();
    let tool = registry.get_tool("test_group_test_tool").unwrap();
    let schema = registry.generate_tool_schema(tool);

    assert_eq!(schema.name, "test_group_test_tool");
    assert!(schema.description.contains("A test tool"));
    assert!(schema.input_schema.get("type").unwrap().as_str().unwrap() == "object");
}

#[test]
fn test_schema_includes_parameters() {
    let config = create_test_config();
    let registry = ToolRegistry::from_config(&config).unwrap();
    let tool = registry.get_tool("test_group_test_tool").unwrap();
    let schema = registry.generate_tool_schema(tool);

    let properties = schema.input_schema.get("properties").unwrap();
    assert!(has_key(properties, "arg1"));
    assert!(has_key(properties, "arg2"));

    let required = schema.input_schema.get("required").unwrap().as_array().unwrap();
    assert!(required.iter().any(|v| v.as_str().unwrap() == "arg1"));
    assert!(!required.iter().any(|v| v.as_str().unwrap() == "arg2"));
}

#[test]
fn test_schema_param_types_reflect_flags() {
    // A flag-only parameter is a boolean toggle; a flag-with-value and a
    // plain positional parameter are strings.
    let mut verbose = param("verbose flag");
    verbose.flag = Some("-v".to_string());
    let mut count = param("count");
    count.flag = Some("-n".to_string());
    count.takes_value = true;
    let path = param("path");
    let config = config(
        vec![("g", group(vec![tool("tool", "tool", vec![("verbose", verbose), ("count", count), ("path", path)])]))],
        false,
    );
    let registry = ToolRegistry::from_config(&config).unwrap();
    let tool = registry.get_tool("g_tool").unwrap();
    let schema = registry.generate_tool_schema(tool);

    let properties = schema.input_schema.get("properties").unwrap();
    let ty = |name: &str| {
        properties
            .get(name)
            .and_then(|p| p.get("type"))
            .and_then(|t| t.as_str())
            .unwrap()
            .to_string()
    };
    assert_eq!(ty("verbose"), "boolean");
    assert_eq!(ty("count"), "string");
    assert_eq!(ty("path"), "string");
}

#[test]
fn test_runtime_overrides_absent_by_default() {
    // By default the runtime-override knobs are NOT advertised in the schema.
    let config = create_test_config();
    let registry = ToolRegistry::from_config(&config).unwrap();
    let tool = registry.get_tool("test_group_test_tool").unwrap();
    let schema = registry.generate_tool_schema(tool);

    let properties = schema.input_schema.get("properties").unwrap();
    assert!(!has_key(properties, "timeout"));
    assert!(!has_key(properties, "stop_after"));
    assert!(!has_key(properties, "output_head_lines"));
    assert!(!has_key(properties, "output_tail_lines"));
    assert!(!has_key(properties, "stderr_lines"));
}

#[test]
fn test_schema_includes_runtime_overrides_when_exposed() {
    // With `expose_runtime_overrides = true` the 5 knobs are advertised.
    let mut arg1 = param("First argument");
    arg1.required = true;
    let mut g = group(vec![tool("test_tool", "A test tool", vec![("arg1", arg1)])]);
    g.default_timeout = Some(30);
    g.default_timeout_max = Some(300);
    let config = config(vec![("test_group", g)], true);
    let registry = ToolRegistry::from_config(&config).unwrap();
    let tool = registry.get_tool("test_group_test_tool").unwrap();
    let schema = registry.generate_tool_schema(tool);

    let properties = schema.input_schema.get("properties").unwrap();
    assert!(has_key(properties, "timeout"));
    assert!(has_key(properties, "stop_after"));
    assert!(has_key(properties, "output_head_lines"));
    assert!(has_key(properties, "output_tail_lines"));
    assert!(has_key(properties, "stderr_lines"));
}

#[test]
fn test_typed_param_schema_emits_constraints() {
    // Explicit type/enum/default/min/max are emitted precisely.
    let mut count = param("count");
    count.param_type = ParamType::Integer;
    count.default = Some(JsonValue::Number(JsonNumber::PosInt(5)));
    count.minimum = Some(JsonNumber::Finite("1.0".to_string()));
    count.maximum = Some(JsonNumber::Finite("100.0".to_string()));
    let mut mode = param("mode");
    mode.param_type = ParamType::Enum;
    mode.enum_values = Some(vec!["fast".to_string(), "slow".to_string()]);
    let config = config(
        vec![("g", group(vec![tool("tool", "tool", vec![("count", count), ("mode", mode)])]))],
        false,
    );
    let registry = ToolRegistry::from_config(&config).unwrap();
    let tool = registry.get_tool("g_tool").unwrap();
    let schema = registry.generate_tool_schema(tool);
    let props = schema.input_schema.get("properties").unwrap();

    let count = props.get("count").unwrap();
    assert_eq!(count.get("type").unwrap().as_str(), Some("integer"));
    assert_eq!(count.get("default").unwrap(), &JsonValue::Number(JsonNumber::PosInt(5)));
    assert_eq!(
        count.get("minimum").unwrap(),
        &JsonValue::Number(JsonNumber::Finite("1.0".to_string()))
    );
    assert_eq!(
        count.get("maximum").unwrap(),
        &JsonValue::Number(JsonNumber::Finite("100.0".to_string()))
    );

    let mode = props.get("mode").unwrap();
    assert_eq!(mode.get("type").unwrap().as_str(), Some("string"));
    let enum_vals = mode.get("enum").unwrap().as_array().unwrap();
    assert_eq!(enum_vals.len(), 2);
    assert_eq!(enum_vals[0].as_str(), Some("fast"));
}

#[test]
fn test_validate_runtime_overrides_within_max() {
    let config = create_test_config();
    let registry = ToolRegistry::from_config(&config).unwrap();
    let tool = registry.get_tool("test_group_test_tool").unwrap();

    // Valid overrides (within MAX)
    assert!(registry
        .validate_runtime_overrides(
            tool,
            Some(100), // timeout < 300 (max)
            None,
            Some(500), // output_head_lines < 1000 (max)
            None,
            None,
        )
        .is_ok());
}

#[test]
fn test_validate_runtime_overrides_exceeds_max() {
    let config = create_test_config();
    let registry = ToolRegistry::from_config(&config).unwrap();
    let tool = registry.get_tool("test_group_test_tool").unwrap();

    // Invalid override (exceeds MAX)
    let result = registry.validate_runtime_overrides(
        tool,
        Some(500), // timeout > 300 (max)
        None,
        None,
        None,
        None,
    );
    assert!(result.is_err());

    if let Err(e) = result {
        if let GenMcpError::Mcp(McpError::OverrideExceedsMax { field, value, max }) = e {
            assert_eq!(field, "timeout");
            assert_eq!(value, 500);
            assert_eq!(max, 300);
        } else {
            panic!("Unexpected error type");
        }
    }
}

#[test]
fn test_validate_runtime_overrides_none() {
    let config = create_test_config();
    let registry = ToolRegistry::from_config(&config).unwrap();
    let tool = registry.get_tool("test_group_test_tool").unwrap();

    // No overrides (all None)
    assert!(registry
        .validate_runtime_overrides(tool, None, None, None, None, None)
        .is_ok());
}

#[test]
fn test_all_tools_iterator() {
    let config = config(
        vec![
            ("group1", group(vec![tool("tool1", "Tool 1", vec![])])),
            ("group2", group(vec![tool("tool2", "Tool 2", vec![])])),
        ],
        false,
    );
    let registry = ToolRegistry::from_config(&config).unwrap();

    let tools: Vec<_> = registry.all_tools().iter().collect();
    assert_eq!(tools.len(), 2);
}

#[test]
fn test_duplicate_tool_error() {
    // This should work - different groups, same tool name
    let config = config(
        vec![
            ("group1", group(vec![tool("tool", "Tool", vec![])])),
            ("group2", group(vec![tool("tool", "Tool", vec![])])),
        ],
        false,
    );
    let registry = ToolRegistry::from_config(&config).unwrap();
    assert_eq!(registry.all_tools().len(), 2);
    assert!(registry.get_tool("group1_tool").is_some());
    assert!(registry.get_tool("group2_tool").is_some());
}

#[test]
fn colliding_full_names_are_refused() {
    // group `a_b` tool `c` and group `a` tool `b_c` share the name `a_b_c`.
    let config = config(
        vec![
            ("a", group(vec![tool("b_c", "first", vec![])])),
            ("a_b", group(vec![tool("c", "second", vec![])])),
        ],
        false,
    );
    match ToolRegistry::from_config(&config) {
        Err(GenMcpError::ToolRegistry(ToolRegistryError::DuplicateTool(name))) => {
            assert_eq!(name, "a_b_c")
        }
        other => panic!("expected DuplicateTool, got {other:?}"),
    }
}

#[test]
fn first_override_above_its_max_is_reported_in_order() {
    let config = create_test_config();
    let registry = ToolRegistry::from_config(&config).unwrap();
    let tool = registry.get_tool("test_group_test_tool").unwrap();
    // stop_after (MAX 3600) and stderr_lines (MAX 500) both too large: stop_after first.
    match registry.validate_runtime_overrides(tool, Some(300), Some(3601), None, None, Some(501)) {
        Err(e) => {
            assert_eq!(
                e.message(),
                "MCP protocol error: Runtime override 'stop_after' (3601) exceeds MAX value (3600)"
            );
        }
        Ok(()) => panic!("expected an error"),
    }
    // Exactly the MAX values are accepted.
    assert!(registry
        .validate_runtime_overrides(tool, Some(300), Some(3600), Some(1000), Some(1000), Some(500))
        .is_ok());
}

#[test]
fn defaults_resolve_from_group_then_global() {
    let config = create_test_config();
    let registry = ToolRegistry::from_config(&config).unwrap();
    let t = registry.get_tool("test_group_test_tool").unwrap();
    assert_eq!((t.timeout, t.timeout_max), (30, 300));
    assert_eq!((t.stop_after, t.stop_after_max), (0, 3600));
    assert_eq!(t.termination_grace_period, 5);
    assert_eq!((t.output_head_lines, t.output_head_lines_max), (100, 1000));
    assert_eq!((t.output_tail_lines, t.output_tail_lines_max), (100, 1000));
    assert_eq!((t.stderr_lines, t.stderr_lines_max), (50, 500));
    // The defaults themselves always pass validation.
    assert!(registry
        .validate_runtime_overrides(
            t,
            Some(t.timeout),
            Some(t.stop_after),
            Some(t.output_head_lines),
            Some(t.output_tail_lines),
            Some(t.stderr_lines)
        )
        .is_ok());
}

#[test]
fn schema_description_lists_non_default_maxima() {
    let mut g = group(vec![tool("t", "Does things", vec![])]);
    g.default_timeout_max = Some(600);
    g.default_stderr_lines_max = Some(60);
    let config = config(vec![("g", g)], false);
    let registry = ToolRegistry::from_config(&config).unwrap();
    let schema = registry.generate_tool_schema(registry.get_tool("g_t").unwrap());
    assert_eq!(
        schema.description,
        "Does things\n\nConstraints: Maximum timeout: 600 seconds, Maximum stderr_lines: 60"
    );
}

#[test]
fn max_below_default_is_a_config_error() {
    let mut g = group(vec![tool("t", "x", vec![])]);
    g.default_timeout = Some(50);
    g.default_timeout_max = Some(40);
    let config = config(vec![("g", g)], false);
    match ToolRegistry::from_config(&config) {
        Err(e) => assert_eq!(
            e.message(),
            "Configuration error: Invalid MAX value for 'timeout': MAX (40) must be >= default (50)"
        ),
        Ok(_) => panic!("expected an error"),
    }
}

#[test]
fn an_exposed_knob_replaces_a_parameter_of_the_same_name() {
    let t = tool("t", "x", vec![("timeout", param("my own timeout")), ("a", param("a"))]);
    let cfg = config(vec![("g", group(vec![t]))], true);
    let registry = ToolRegistry::from_config(&cfg).unwrap();
    let schema = registry.generate_tool_schema(registry.get_tool("g_t").unwrap());
    let props = schema.input_schema.get("properties").unwrap().as_object().unwrap();
    let names: Vec<&str> = props.iter().map(|(k, _)| k.as_str()).collect();
    assert_eq!(
        names,
        vec!["timeout", "a", "stop_after", "output_head_lines", "output_tail_lines", "stderr_lines"]
    );
    let timeout = schema.input_schema.get("properties").unwrap().get("timeout").unwrap();
    assert_eq!(timeout.get("type").unwrap().as_str(), Some("number"));
    assert_eq!(
        timeout.get("description").unwrap().as_str(),
        Some("Timeout in seconds (default: 30, max: 300)")
    );
}

#[test]
fn repeated_parameter_name_is_refused() {
    let config = config(
        vec![("g", group(vec![tool("t", "Tool", vec![("a", param("first")), ("a", param("second"))])]))],
        false,
    );
    match ToolRegistry::from_config(&config) {
        Err(GenMcpError::Config(ConfigError::InvalidValue { field, message })) => {
            assert_eq!(field, "parameters");
            assert_eq!(message, "duplicate parameter name in tool g_t");
        }
        other => panic!("expected InvalidValue, got {other:?}"),
    }
    assert!(config.validate().is_err());
}

#[test]
fn repeated_group_name_is_refused_by_validate() {
    let config = config(
        vec![
            ("g", group(vec![tool("t", "Tool", vec![])])),
            ("g", group(vec![tool("u", "Tool", vec![])])),
        ],
        false,
    );
    match config.validate() {
        Err(GenMcpError::Config(ConfigError::InvalidValue { field, message })) => {
            assert_eq!(field, "groups");
            assert_eq!(message, "duplicate group name: g");
        }
        other => panic!("expected InvalidValue, got {other:?}"),
    }
}

#[test]
fn required_lists_each_required_parameter_once() {
    let mut a = param("a");
    a.required = true;
    let mut b = param("b");
    b.required = true;
    let config = config(vec![("g", group(vec![tool("t", "Tool", vec![("b", b), ("a", a), ("c", param("c"))])]))], false);
    let registry = ToolRegistry::from_config(&config).unwrap();
    let schema = registry.generate_tool_schema(registry.get_tool("g_t").unwrap());
    let required = schema.input_schema.get("required").unwrap().as_array().unwrap();
    let names: Vec<&str> = required.iter().map(|v| v.as_str().unwrap()).collect();
    assert_eq!(names.len(), 2);
    assert!(names.contains(&"a") && names.contains(&"b"));
}
