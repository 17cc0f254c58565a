use gen_mcp::config::{Config, Group, OutputFormat, ParamType, Parameter, TerminationSignal, Tool};
use gen_mcp::error::ExecutionError;
use gen_mcp::executor::ExecutionResult;
use gen_mcp::json::{JsonNumber, JsonValue};
use gen_mcp::service::{
    build_tool_args, finish_tool_call, run_outcome, ArgValue, CallArguments, CallError,
    GenMcpService, ReplyBody, RunOutcome,
};

fn param(description: &str, required: bool) -> Parameter {
    Parameter {
        description: description.to_string(),
        param_type: ParamType::Infer,
        enum_values: None,
        default: None,
        minimum: None,
        maximum: None,
        example: None,
        flag: None,
        takes_value: false,
        required,
        split_args: false,
    }
}

fn tool(name: &str, command: &str, arg_order: Vec<&str>, params: Vec<(&str, Parameter)>) -> Tool {
    Tool {
        name: name.to_string(),
        description: format!("{name} tool"),
        command: command.to_string(),
        output: OutputFormat::Text,
        arg_order: arg_order.into_iter().map(|s| s.to_string()).collect(),
        timeout: None,
        timeout_max: None,
        stop_after: None,
        stop_after_max: None,
        termination_signal: None,
        termination_grace_period: None,
        output_head_lines: None,
        output_head_lines_max: None,
        output_tail_lines: None,
        output_tail_lines_max: None,
        stderr_lines: None,
        stderr_lines_max: None,
        parameters: params.into_iter().map(|(n, p)| (n.to_string(), p)).collect(),
    }
}

fn group(tools: Vec<Tool>, timeout: Option<u64>, timeout_max: Option<u64>) -> Group {
    Group {
        default_timeout: timeout,
        default_timeout_max: timeout_max,
        default_stop_after: None,
        default_stop_after_max: None,
        default_termination_signal: None,
        default_termination_grace_period: None,
        default_output_head_lines: None,
        default_output_tail_lines: None,
        default_output_head_lines_max: None,
        default_output_tail_lines_max: None,
        default_stderr_lines: None,
        default_stderr_lines_max: None,
        tools,
    }
}

fn echo_config(expose: bool) -> Config {
    let echo = tool("echo", "/bin/echo", vec![], vec![("text", param("Text to echo", true))]);
    Config {
        groups: vec![("test_group".to_string(), group(vec![echo], Some(30), Some(300)))],
        expose_runtime_overrides: expose,
        websocket_auth: None,
    }
}

fn echo_service() -> GenMcpService {
    GenMcpService::new(echo_config(false)).unwrap()
}

fn text(s: &str) -> ArgValue {
    ArgValue::String(s.to_string())
}

fn number(n: u64) -> ArgValue {
    ArgValue::Number { as_i64: Some(n as i64), as_u64: Some(n), text: n.to_string() }
}

fn object(members: Vec<(&str, ArgValue)>) -> CallArguments {
    CallArguments::Object(members.into_iter().map(|(k, v)| (k.to_string(), v)).collect())
}

fn has_key(v: &gen_mcp::json::JsonValue, key: &str) -> bool {
    v.as_object().unwrap().iter().any(|(k, _)| k == key)
}

fn ran(exit_code: i32, stdout: &str, stderr: &str, stopped_after: bool) -> ExecutionResult {
    ExecutionResult {
        exit_code,
        stdout: stdout.to_string(),
        stderr: stderr.to_string(),
        stopped_after,
    }
}

#[test]
fn tools_are_generated_from_config() {
    let svc = echo_service();
    let tools = svc.tools();
    assert_eq!(tools.len(), 1);
    assert_eq!(tools[0].name, "test_group_echo");
    // Declared parameters are present; the runtime-override knobs are NOT
    // advertised by default (only when `expose_runtime_overrides = true`).
    let props = tools[0].input_schema.get("properties").unwrap();
    assert!(props.get("text").is_some());
    assert!(props.get("timeout").is_none());
    assert!(props.get("stop_after").is_none());
}

#[test]
fn tools_advertise_overrides_when_exposed() {
    let svc = GenMcpService::new(echo_config(true)).unwrap();
    let tools = svc.tools();
    let props = tools[0].input_schema.get("properties").unwrap();
    assert!(has_key(props, "timeout"));
    assert!(has_key(props, "stop_after"));
}

#[test]
fn runtime_override_honored_even_when_not_advertised() {
    // The override is not in the schema but is still validated at call time.
    let svc = echo_service();
    let err = svc
        .plan_tool_call("test_group_echo", &object(vec![("text", text("hi")), ("timeout", number(99999))]))
        .unwrap_err();
    match err {
        CallError::InvalidParams(m) => assert_eq!(
            m,
            "MCP protocol error: Runtime override 'timeout' (99999) exceeds MAX value (300)"
        ),
        other => panic!("unexpected {other:?}"),
    }
}

#[test]
fn call_tool_unknown_is_tool_error() {
    let svc = echo_service();
    match svc.plan_tool_call("nope", &object(vec![])).unwrap_err() {
        CallError::Tool(m) => assert_eq!(m, "Tool not found: nope"),
        other => panic!("unexpected {other:?}"),
    }
}

#[test]
fn call_tool_missing_required_is_invalid_params() {
    let svc = echo_service();
    match svc.plan_tool_call("test_group_echo", &object(vec![])).unwrap_err() {
        CallError::InvalidParams(m) => assert_eq!(m, "Missing required parameter: text"),
        other => panic!("unexpected {other:?}"),
    }
    // Omitted arguments count as an empty object; other values are refused.
    assert!(matches!(
        svc.plan_tool_call("test_group_echo", &CallArguments::Null),
        Err(CallError::InvalidParams(_))
    ));
    match svc.plan_tool_call("test_group_echo", &CallArguments::Other).unwrap_err() {
        CallError::InvalidParams(m) => assert_eq!(m, "Arguments must be an object"),
        other => panic!("unexpected {other:?}"),
    }
}

#[test]
fn plan_carries_the_tool_settings() {
    let svc = echo_service();
    let plan = svc
        .plan_tool_call(
            "test_group_echo",
            &object(vec![("text", text("hello")), ("stop_after", number(7)), ("stderr_lines", number(3))]),
        )
        .unwrap();
    assert_eq!(plan.command, "/bin/echo");
    assert_eq!(plan.args, vec!["hello"]);
    assert_eq!(plan.timeout_secs, 30);
    assert_eq!(plan.stop_after_secs, Some(7));
    assert_eq!(plan.termination_signal, TerminationSignal::Sigterm);
    assert_eq!(plan.termination_grace_period, 5);
    assert_eq!((plan.output_head_lines, plan.output_tail_lines, plan.stderr_lines), (100, 100, 3));
    assert_eq!(plan.output, OutputFormat::Text);
    // A non-integer override is ignored, as `as_u64` would ignore it.
    let plan = svc
        .plan_tool_call(
            "test_group_echo",
            &object(vec![
                ("text", text("hello")),
                ("timeout", ArgValue::Number { as_i64: None, as_u64: None, text: "2.5".to_string() }),
            ]),
        )
        .unwrap();
    assert_eq!(plan.timeout_secs, 30);
}

#[test]
fn arguments_follow_arg_order_then_sorted_names() {
    let mut verbose = param("verbose", false);
    verbose.flag = Some("-v".to_string());
    let mut count = param("count", false);
    count.flag = Some("-n".to_string());
    count.takes_value = true;
    let mut items = param("items", true);
    items.split_args = true;
    let t = tool(
        "t",
        "/bin/x",
        vec!["items"],
        vec![("verbose", verbose), ("count", count), ("items", items), ("zeta", param("z", false))],
    );
    let cfg = Config {
        groups: vec![("g".to_string(), group(vec![t], None, None))],
        expose_runtime_overrides: false,
        websocket_auth: None,
    };
    let svc = GenMcpService::new(cfg).unwrap();
    let plan = svc
        .plan_tool_call(
            "g_t",
            &object(vec![
                ("zeta", ArgValue::Bool(true)),
                ("verbose", text(" Yes ")),
                ("count", number(3)),
                ("items", text(r#"one "two three""#)),
            ]),
        )
        .unwrap();
    assert_eq!(plan.args, vec!["one", "two three", "-n", "3", "-v", "true"]);
    // A falsy flag value leaves the flag out.
    let plan = svc
        .plan_tool_call("g_t", &object(vec![("verbose", text("Off")), ("items", text("a"))]))
        .unwrap();
    assert_eq!(plan.args, vec!["a"]);
}

#[test]
fn build_args_reports_unknown_arg_order_entries() {
    let t = tool("t", "/bin/x", vec!["ghost"], vec![]);
    let cfg = Config {
        groups: vec![("g".to_string(), group(vec![t], None, None))],
        expose_runtime_overrides: false,
        websocket_auth: None,
    };
    let reg = gen_mcp::tools::ToolRegistry::from_config(&cfg).unwrap();
    let tool = reg.get_tool("g_t").unwrap();
    assert_eq!(
        build_tool_args(tool, &vec![]).unwrap_err(),
        "Tool configuration error: arg_order references unknown parameter: ghost"
    );
}

#[test]
fn finished_run_is_formatted_as_text() {
    let reply = finish_tool_call(OutputFormat::Text, Ok(ran(0, "hello\n", "", false))).unwrap();
    assert!(!reply.is_error);
    match reply.body {
        ReplyBody::Text(t) => assert_eq!(t, "Exit code: 0\n\nSTDOUT:\nhello\n\n\nSTDERR:\n(no output)"),
        other => panic!("unexpected {other:?}"),
    }
    let reply = finish_tool_call(OutputFormat::Text, Ok(ran(-1, "", "boom", false))).unwrap();
    assert!(reply.is_error);
    match reply.body {
        ReplyBody::Text(t) => assert_eq!(t, "Exit code: -1\n\nSTDOUT:\n\n\nSTDERR:\nboom"),
        other => panic!("unexpected {other:?}"),
    }
}

#[test]
fn stopped_run_is_not_an_error() {
    let reply = finish_tool_call(OutputFormat::Text, Ok(ran(143, "partial", "", true))).unwrap();
    assert!(!reply.is_error);
}

#[test]
fn json_output_yields_the_parsed_document() {
    let reply = finish_tool_call(OutputFormat::Json, Ok(ran(0, "{\"k\":1}\n", "", false))).unwrap();
    assert!(!reply.is_error);
    match reply.body {
        ReplyBody::Json(v) => {
            assert_eq!(v.get("k").unwrap(), &gen_mcp::json::JsonValue::Number(gen_mcp::json::JsonNumber::PosInt(1)));
            assert_eq!(v.as_object().unwrap().len(), 1);
        }
        other => panic!("unexpected {other:?}"),
    }
}

#[test]
fn json_output_falls_back_to_text() {
    // Not JSON: the text block.
    let reply = finish_tool_call(OutputFormat::Json, Ok(ran(0, "not json", "", false))).unwrap();
    assert!(matches!(reply.body, ReplyBody::Text(ref t) if t.contains("not json")));
    // A failed run is never parsed.
    let reply = finish_tool_call(OutputFormat::Json, Ok(ran(1, "{}", "", false))).unwrap();
    assert!(reply.is_error);
    assert!(matches!(reply.body, ReplyBody::Text(_)));
}

#[test]
fn execution_failure_is_a_tool_error() {
    let err = finish_tool_call(
        OutputFormat::Text,
        Err(ExecutionError::Timeout { command: "/bin/sleep".to_string(), timeout: 1 }),
    )
    .unwrap_err();
    match err {
        CallError::Tool(m) => {
            assert_eq!(m, "Execution error: Command timed out after 1 seconds: /bin/sleep")
        }
        other => panic!("unexpected {other:?}"),
    }
}

#[test]
fn call_tool_override_exceeds_max_is_invalid_params() {
    let svc = echo_service();
    let err = svc
        .plan_tool_call("test_group_echo", &object(vec![("text", text("hi")), ("timeout", number(500))]))
        .unwrap_err();
    assert!(matches!(err, CallError::InvalidParams(_)));
}

#[test]
fn json_documents_keep_their_values() {
    let stdout = "{\"b\": [true, null, -3, 2.5, \"x\"], \"a\": {}}";
    let reply = finish_tool_call(OutputFormat::Json, Ok(ran(0, stdout, "", false))).unwrap();
    match reply.body {
        ReplyBody::Json(v) => {
            let b = v.get("b").unwrap().as_array().unwrap();
            assert_eq!(b[0], JsonValue::Bool(true));
            assert_eq!(b[1], JsonValue::Null);
            assert_eq!(b[2], JsonValue::Number(JsonNumber::NegInt(-3)));
            assert_eq!(b[3], JsonValue::Number(JsonNumber::Finite("2.5".to_string())));
            assert_eq!(b[4].as_str(), Some("x"));
            assert_eq!(v.get("a").unwrap(), &JsonValue::Object(vec![]));
        }
        other => panic!("unexpected {other:?}"),
    }
}

#[test]
fn run_outcomes_carry_their_metric_labels() {
    let label = |o: Result<ExecutionResult, ExecutionError>| run_outcome(&o).label();
    assert_eq!(label(Ok(ran(0, "hi", "", false))), "ok");
    assert_eq!(label(Ok(ran(1, "", "boom", false))), "nonzero_exit");
    // A stop_after-ended run is its own outcome, killed (0) or exited (143).
    assert_eq!(label(Ok(ran(0, "", "", true))), "stopped_after");
    assert_eq!(label(Ok(ran(143, "", "", true))), "stopped_after");
    assert_eq!(
        label(Err(ExecutionError::Timeout { command: "/bin/sleep".to_string(), timeout: 1 })),
        "timeout"
    );
    assert_eq!(label(Err(ExecutionError::CommandNotFound("/no/such".to_string()))), "command_not_found");
    assert_eq!(
        label(Err(ExecutionError::CommandFailed {
            command: "x".to_string(),
            exit_code: None,
            stderr: "wait failed".to_string(),
        })),
        "error"
    );
    assert_eq!(run_outcome(&Ok(ran(2, "", "", false))), RunOutcome::NonzeroExit);
}

#[test]
fn nonzero_exit_outcome_matches_the_error_flag() {
    for (code, stopped) in [(0, false), (3, false), (0, true), (9, true)] {
        let r = ran(code, "", "", stopped);
        let counted_failed = run_outcome(&Ok(r.clone())) == RunOutcome::NonzeroExit;
        let reply = finish_tool_call(OutputFormat::Text, Ok(r)).unwrap();
        assert_eq!(counted_failed, reply.is_error);
    }
}
