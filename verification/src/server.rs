//! The MCP server state: its tools, whether the client has completed the
//! handshake, and the answers to `initialize`, `tools/list` and `tools/call`.

use vstd::prelude::*;
use crate::config::{clone_opt_string, opt_str_view, Config, WebSocketAuth};
use crate::error::{GenMcpError, McpError};
use crate::json::{lemma_array_view, lemma_object_view, JsonValue, JsonView};
use crate::service::{
    ArgView, args_override_problem, args_view, build_tool_args, call_args_view, plan_for,
    plan_with_overrides, spec_plan_call, spec_tool_args, CallArguments, CallErrorView, CallPlan,
};
use crate::config::{is_resolution, params_view, ResolvedTool};
use crate::error::override_exceeds_text;
use crate::shell::{spec_shell_args, unclosed_quote_message};
use crate::text::strs_view;
use crate::tools::{
    has_tool_named, input_schema_of, registry_built_from, schema_description, tool_named,
    ToolRegistry,
};

verus! {

/// Parse shell-like arguments respecting quotes and escapes (see
/// [`crate::shell::parse_shell_args`]); an unclosed quote is an invalid tool
/// parameter.
pub fn parse_shell_args(input: &str) -> (r: Result<Vec<String>, GenMcpError>)
    ensures
        match spec_shell_args(input@) {
            Some(words) => r matches Ok(v) && strs_view(v@) == words,
            None => r matches Err(GenMcpError::Mcp(McpError::InvalidToolParameters(m))) && m@
                == unclosed_quote_message(input@),
        },
{
    match crate::shell::parse_shell_args(input) {
        Ok(v) => Ok(v),
        Err(m) => Err(GenMcpError::Mcp(McpError::InvalidToolParameters(m))),
    }
}

/// The protocol versions this server speaks.
pub open spec fn supported_protocol_version(v: Seq<char>) -> bool {
    v == "2024-11-05"@ || v == "2025-06-18"@ || v == "2025-11-25"@
}

/// The version the server reports of itself.
pub open spec fn server_version() -> Seq<char> {
    "0.1.0"@
}

pub open spec fn jstring(s: Seq<char>) -> JsonView {
    JsonView::String(s)
}

/// The entry of `tools/list` for tool `t`.
pub open spec fn tool_entry(t: crate::config::ResolvedTool, expose: bool) -> JsonView {
    JsonView::Object(
        seq![
            ("name"@, jstring(t.full_name@)),
            ("description"@, jstring(schema_description(t))),
            ("inputSchema"@, input_schema_of(t, expose)),
        ],
    )
}

/// The entries of `tools/list` for the tools `ts`, in order.
pub open spec fn tool_entries_json(ts: Seq<crate::config::ResolvedTool>, expose: bool) -> Seq<JsonView> {
    ts.map_values(|t: crate::config::ResolvedTool| tool_entry(t, expose))
}

/// The answer to `initialize` for protocol version `v`.
pub open spec fn initialize_result(v: Seq<char>, tools: Seq<JsonView>) -> JsonView {
    JsonView::Object(
        seq![
            ("protocolVersion"@, jstring(v)),
            (
                "serverInfo"@,
                JsonView::Object(
                    seq![("name"@, jstring("genmcp"@)), ("version"@, jstring(server_version()))],
                ),
            ),
            (
                "capabilities"@,
                JsonView::Object(
                    seq![
                        (
                            "tools"@,
                            JsonView::Object(seq![("listChanged"@, JsonView::Bool(false))]),
                        ),
                    ],
                ),
            ),
            ("tools"@, JsonView::Array(tools)),
        ],
    )
}

/// What a `tools/call` request comes to before anything runs: the tool must
/// be registered, the arguments an object, the parameters complete and the
/// overrides within their MAX values.
pub open spec fn tool_call_prepared(
    tool: Option<crate::config::ResolvedTool>,
    name: Seq<char>,
    arguments: CallArguments,
    res: Result<CallPlan, GenMcpError>,
) -> bool {
    match tool {
        None => res matches Err(GenMcpError::Mcp(McpError::ToolNotFound(n))) && n@ == name,
        Some(t) => match arguments {
            CallArguments::Object(m) => match spec_tool_args(t, args_view(m@)) {
                Err(msg) => res matches Err(GenMcpError::Mcp(McpError::InvalidToolParameters(x)))
                    && x@ == msg,
                Ok(words) => match args_override_problem(t, args_view(m@)) {
                    Some((f, v, mx)) => res matches Err(
                        GenMcpError::Mcp(McpError::OverrideExceedsMax { field, value, max }),
                    ) && field@ == f && value == v && max == mx,
                    None => res matches Ok(p) && p@ == plan_for(t, words, args_view(m@)),
                },
            },
            _ => res matches Err(GenMcpError::Mcp(McpError::InvalidToolParameters(x))) && x@
                == "Arguments must be an object"@,
        },
    }
}

/// Two resolved tools that plan every call alike: same name, command, output
/// format, argument order, parameters and limits.
pub open spec fn plans_alike(a: ResolvedTool, b: ResolvedTool) -> bool {
    &&& a.full_name@ == b.full_name@
    &&& a.command@ == b.command@
    &&& a.output == b.output
    &&& strs_view(a.arg_order@) == strs_view(b.arg_order@)
    &&& params_view(a.parameters@) == params_view(b.parameters@)
    &&& a.timeout == b.timeout
    &&& a.timeout_max == b.timeout_max
    &&& a.stop_after == b.stop_after
    &&& a.stop_after_max == b.stop_after_max
    &&& a.termination_signal == b.termination_signal
    &&& a.termination_grace_period == b.termination_grace_period
    &&& a.output_head_lines == b.output_head_lines
    &&& a.output_head_lines_max == b.output_head_lines_max
    &&& a.output_tail_lines == b.output_tail_lines
    &&& a.output_tail_lines_max == b.output_tail_lines_max
    &&& a.stderr_lines == b.stderr_lines
    &&& a.stderr_lines_max == b.stderr_lines_max
}

/// What the service answers where the server answered `res`: the same plan,
/// or the same error as the service words it. (Preparing a call gives no
/// other error; any other maps to an empty internal error.)
pub open spec fn served_as(res: Result<CallPlan, GenMcpError>) -> Result<
    crate::service::CallPlanView,
    CallErrorView,
> {
    match res {
        Ok(p) => Ok(p@),
        Err(GenMcpError::Mcp(McpError::ToolNotFound(n))) => Err(
            CallErrorView::Tool("Tool not found: "@ + n@),
        ),
        Err(GenMcpError::Mcp(McpError::InvalidToolParameters(x))) => Err(
            CallErrorView::InvalidParams(x@),
        ),
        Err(GenMcpError::Mcp(McpError::OverrideExceedsMax { field, value, max })) => Err(
            CallErrorView::InvalidParams("MCP protocol error: "@ + override_exceeds_text(field@, value, max)),
        ),
        Err(_) => Err(CallErrorView::Internal(seq![])),
    }
}

proof fn lemma_same_plans(a: ResolvedTool, b: ResolvedTool, name: Seq<char>, args: Option<Seq<(Seq<char>, ArgView)>>)
    requires
        plans_alike(a, b),
    ensures
        spec_plan_call(Some(a), name, args) == spec_plan_call(Some(b), name, args),
{
    assert(crate::service::param_order(a) == crate::service::param_order(b));
    if let Some(m) = args {
        assert(spec_tool_args(a, m) == spec_tool_args(b, m));
        assert(args_override_problem(a, m) == args_override_problem(b, m));
    }
}

/// Both registries resolve `config`'s tools one for one, so each names the
/// same tool alike.
proof fn lemma_same_tool_named(config: Config, r1: ToolRegistry, r2: ToolRegistry, name: Seq<char>)
    requires
        registry_built_from(config, Ok(r1)),
        registry_built_from(config, Ok(r2)),
    ensures
        tool_named(r1.tool_list(), name) is Some <==> tool_named(r2.tool_list(), name) is Some,
        tool_named(r1.tool_list(), name) is Some ==> plans_alike(
            tool_named(r1.tool_list(), name)->0,
            tool_named(r2.tool_list(), name)->0,
        ),
{
    let (t1, t2) = (r1.tool_list(), r2.tool_list());
    let es = crate::config::tool_entries(config);
    assert forall|k: int| 0 <= k < t1.len() implies plans_alike(#[trigger] t1[k], t2[k]) by {
        let (gn, g) = config.groups@[es[k].0];
        assert(is_resolution(t1[k], gn@, g, g.tools@[es[k].1]));
        assert(is_resolution(t2[k], gn@, g, g.tools@[es[k].1]));
    }
    if has_tool_named(t1, name) {
        let i = choose|i: int| 0 <= i < t1.len() && (#[trigger] t1[i]).full_name@ == name;
        assert(plans_alike(t1[i], t2[i]));
        assert(has_tool_named(t2, name));
        let j = choose|j: int| 0 <= j < t2.len() && (#[trigger] t2[j]).full_name@ == name;
        assert(plans_alike(t1[j], t2[j]));
        assert(i == j);
    } else {
        assert forall|j: int| 0 <= j < t2.len() implies (#[trigger] t2[j]).full_name@ != name by {
            assert(plans_alike(t1[j], t2[j]));
        }
    }
}

/// The server and the service agree on every `tools/call` whose arguments are
/// an object or no object at all: built from one configuration, the server's
/// prepared run is the service's planned run, and where one refuses the other
/// refuses with the same error, worded as the service words it.
pub proof fn lemma_server_and_service_agree(
    config: Config,
    server_registry: ToolRegistry,
    service_registry: ToolRegistry,
    name: Seq<char>,
    arguments: CallArguments,
    res: Result<CallPlan, GenMcpError>,
)
    requires
        registry_built_from(config, Ok(server_registry)),
        registry_built_from(config, Ok(service_registry)),
        !(arguments is Null),
        tool_call_prepared(tool_named(server_registry.tool_list(), name), name, arguments, res),
    ensures
        served_as(res) == spec_plan_call(
            tool_named(service_registry.tool_list(), name),
            name,
            call_args_view(arguments),
        ),
{
    lemma_same_tool_named(config, server_registry, service_registry, name);
    let t1 = tool_named(server_registry.tool_list(), name);
    let t2 = tool_named(service_registry.tool_list(), name);
    if let Some(a) = t1 {
        lemma_same_plans(a, t2->0, name, call_args_view(arguments));
        assert(served_as(res) == spec_plan_call(t1, name, call_args_view(arguments)));
    }
}

/// MCP server state
#[derive(Debug)]
pub struct McpServer {
    /// Tool registry
    tool_registry: ToolRegistry,
    /// Server configuration
    config: Config,
    /// Whether the client has sent `notifications/initialized`
    initialized: bool,
    /// WebSocket authentication configuration
    websocket_auth: Option<WebSocketAuth>,
}

fn copy_ws_auth(a: &Option<WebSocketAuth>) -> (r: Option<WebSocketAuth>)
    ensures
        r is Some <==> a is Some,
        a is Some ==> {
            &&& r->0.enabled == a->0.enabled
            &&& opt_str_view(r->0.secret) == opt_str_view(a->0.secret)
            &&& opt_str_view(r->0.oidc_issuer) == opt_str_view(a->0.oidc_issuer)
            &&& opt_str_view(r->0.jwks_url) == opt_str_view(a->0.jwks_url)
        },
{
    match a {
        Some(w) => Some(
            WebSocketAuth {
                enabled: w.enabled,
                secret: clone_opt_string(&w.secret),
                oidc_issuer: clone_opt_string(&w.oidc_issuer),
                jwks_url: clone_opt_string(&w.jwks_url),
            },
        ),
        None => None,
    }
}

fn jstr(s: &str) -> (v: JsonValue)
    ensures
        v@ == jstring(s@),
{
    JsonValue::String(String::from_str(s))
}

fn member(k: &str, v: JsonValue) -> (m: (String, JsonValue))
    ensures
        m.0@ == k@,
        m.1@ == v@,
{
    (String::from_str(k), v)
}

impl McpServer {
    /// The registry the server answers from.
    pub closed spec fn registry(&self) -> ToolRegistry {
        self.tool_registry
    }

    /// Whether the handshake is complete.
    pub closed spec fn initialized_state(&self) -> bool {
        self.initialized
    }

    /// The configuration the server was built from.
    pub closed spec fn configuration(&self) -> Config {
        self.config
    }

    /// The server's `[websocket_auth]` section.
    pub closed spec fn ws_auth(&self) -> Option<WebSocketAuth> {
        self.websocket_auth
    }

    /// Create a new MCP server from configuration: its tools are those of
    /// [`ToolRegistry::from_config`], and it starts uninitialized.
    pub fn new(config: Config) -> (res: Result<McpServer, GenMcpError>)
        ensures
            match res {
                Ok(s) => {
                    &&& registry_built_from(config, Ok(s.registry()))
                    &&& !s.initialized_state()
                    &&& s.configuration() == config
                    &&& s.ws_auth() is Some <==> config.websocket_auth is Some
                    &&& config.websocket_auth is Some ==> {
                        let (a, c) = (s.ws_auth()->0, config.websocket_auth->0);
                        &&& a.enabled == c.enabled
                        &&& opt_str_view(a.secret) == opt_str_view(c.secret)
                        &&& opt_str_view(a.oidc_issuer) == opt_str_view(c.oidc_issuer)
                        &&& opt_str_view(a.jwks_url) == opt_str_view(c.jwks_url)
                    }
                },
                Err(e) => registry_built_from(config, Err(e)),
            },
    {
        let tool_registry = match ToolRegistry::from_config(&config) {
            Ok(r) => r,
            Err(e) => {
                return Err(e);
            },
        };
        let websocket_auth = copy_ws_auth(&config.websocket_auth);
        Ok(McpServer { tool_registry, config, initialized: false, websocket_auth })
    }

    /// Get WebSocket authentication configuration
    pub fn websocket_auth(&self) -> (r: Option<&WebSocketAuth>)
        ensures
            match r {
                Some(a) => self.ws_auth() == Some(*a),
                None => self.ws_auth() is None,
            },
    {
        self.websocket_auth.as_ref()
    }

    /// The `tools/list` entries: name, description and input schema of every
    /// registered tool, in order.
    fn tool_entries(&self) -> (r: Vec<JsonValue>)
        ensures
            r@.map_values(|v: JsonValue| v@) == tool_entries_json(
                self.registry().tool_list(),
                self.registry().exposes_overrides(),
            ),
    {
        let all = self.tool_registry.all_tools();
        let ghost expose = self.registry().exposes_overrides();
        let mut r: Vec<JsonValue> = Vec::new();
        let mut i: usize = 0;
        while i < all.len()
            invariant
                all@ == self.registry().tool_list(),
                expose == self.registry().exposes_overrides(),
                i <= all@.len(),
                r@.map_values(|v: JsonValue| v@) == tool_entries_json(all@.take(i as int), expose),
            decreases all@.len() - i,
        {
            let schema = self.tool_registry.generate_tool_schema(&all[i]);
            let mut ms: Vec<(String, JsonValue)> = Vec::new();
            ms.push(member("name", JsonValue::String(schema.name)));
            ms.push(member("description", JsonValue::String(schema.description)));
            ms.push(member("inputSchema", schema.input_schema));
            let ghost prev = r@;
            proof {
                lemma_object_view(ms);
                assert(crate::json::members_view(ms@) =~= seq![
                    ("name"@, jstring(all@[i as int].full_name@)),
                    ("description"@, jstring(schema_description(all@[i as int]))),
                    ("inputSchema"@, input_schema_of(all@[i as int], expose)),
                ]);
            }
            r.push(JsonValue::Object(ms));
            proof {
                assert(all@.take(i + 1) == all@.take(i as int).push(all@[i as int]));
                assert(r@.map_values(|v: JsonValue| v@) =~= prev.map_values(|v: JsonValue| v@).push(
                    tool_entry(all@[i as int], expose),
                ));
                assert(tool_entries_json(all@.take(i + 1), expose) =~= tool_entries_json(
                    all@.take(i as int),
                    expose,
                ).push(tool_entry(all@[i as int], expose)));
            }
            i = i + 1;
        }
        proof {
            assert(all@.take(all@.len() as int) == all@);
        }
        r
    }

    /// Handle `initialize`: refused unless the client speaks one of the
    /// supported protocol versions; otherwise the protocol version, the
    /// server's name and version, its capabilities and its tools.
    pub fn handle_initialize(&self, protocol_version: &str, _client_capabilities: &JsonValue) -> (r:
        Result<JsonValue, GenMcpError>)
        ensures
            !supported_protocol_version(protocol_version@) ==> (r matches Err(
                GenMcpError::Mcp(McpError::InvalidProtocolVersion(v)),
            ) && v@ == protocol_version@),
            supported_protocol_version(protocol_version@) ==> (r matches Ok(j) && j@
                == initialize_result(
                protocol_version@,
                tool_entries_json(self.registry().tool_list(), self.registry().exposes_overrides()),
            )),
    {
        if !(crate::text::str_eq(protocol_version, "2024-11-05") || crate::text::str_eq(
            protocol_version,
            "2025-06-18",
        ) || crate::text::str_eq(protocol_version, "2025-11-25")) {
            return Err(
                GenMcpError::Mcp(McpError::InvalidProtocolVersion(String::from_str(protocol_version))),
            );
        }
        let tools = self.tool_entries();
        let mut info: Vec<(String, JsonValue)> = Vec::new();
        info.push(member("name", jstr("genmcp")));
        info.push(member("version", jstr("0.1.0")));
        let mut list_changed: Vec<(String, JsonValue)> = Vec::new();
        list_changed.push(member("listChanged", JsonValue::Bool(false)));
        let mut caps: Vec<(String, JsonValue)> = Vec::new();
        proof {
            lemma_object_view(list_changed);
            assert(crate::json::members_view(list_changed@) =~= seq![
                ("listChanged"@, JsonView::Bool(false)),
            ]);
        }
        caps.push(member("tools", JsonValue::Object(list_changed)));
        let mut top: Vec<(String, JsonValue)> = Vec::new();
        top.push(member("protocolVersion", jstr(protocol_version)));
        proof {
            lemma_object_view(info);
            lemma_object_view(caps);
            lemma_array_view(tools);
            assert(crate::json::items_view(tools@) =~= tools@.map_values(|v: JsonValue| v@));
            assert(crate::json::members_view(info@) =~= seq![
                ("name"@, jstring("genmcp"@)),
                ("version"@, jstring(server_version())),
            ]);
            assert(crate::json::members_view(list_changed@) =~= seq![
                ("listChanged"@, JsonView::Bool(false)),
            ]);
            assert(crate::json::members_view(caps@) =~= seq![
                ("tools"@, JsonView::Object(seq![("listChanged"@, JsonView::Bool(false))])),
            ]);
        }
        top.push(member("serverInfo", JsonValue::Object(info)));
        top.push(member("capabilities", JsonValue::Object(caps)));
        top.push(member("tools", JsonValue::Array(tools)));
        proof {
            lemma_object_view(top);
            assert(crate::json::members_view(top@) =~= initialize_result(
                protocol_version@,
                tool_entries_json(self.registry().tool_list(), self.registry().exposes_overrides()),
            )->Object_0);
        }
        Ok(JsonValue::Object(top))
    }

    /// Handle `notifications/initialized`: the handshake is complete.
    pub fn handle_initialized(&mut self)
        ensures
            final(self).initialized_state(),
            final(self).registry() == old(self).registry(),
            final(self).configuration() == old(self).configuration(),
            final(self).ws_auth() == old(self).ws_auth(),
    {
        self.initialized = true;
    }

    /// Prepare a `tools/call`: look the tool up, check the arguments and the
    /// runtime overrides, and give the run to make (see [`tool_call_prepared`]).
    pub fn prepare_tool_call(&self, tool_name: &str, arguments: &CallArguments) -> (res: Result<
        CallPlan,
        GenMcpError,
    >)
        ensures
            self.registry().well_formed(),
            tool_call_prepared(
                tool_named(self.registry().tool_list(), tool_name@),
                tool_name@,
                *arguments,
                res,
            ),
    {
        proof {
            use_type_invariant(&self.tool_registry);
        }
        let tool = match self.tool_registry.get_tool(tool_name) {
            Some(t) => t,
            None => {
                return Err(GenMcpError::Mcp(McpError::ToolNotFound(String::from_str(tool_name))));
            },
        };
        let args = match arguments {
            CallArguments::Object(m) => m,
            _ => {
                return Err(
                    GenMcpError::Mcp(
                        McpError::InvalidToolParameters(
                            String::from_str("Arguments must be an object"),
                        ),
                    ),
                );
            },
        };
        let words = match build_tool_args(tool, args) {
            Ok(w) => w,
            Err(msg) => {
                return Err(GenMcpError::Mcp(McpError::InvalidToolParameters(msg)));
            },
        };
        plan_with_overrides(&self.tool_registry, tool, words, args)
    }

    /// Handle `shutdown`: the server is no longer initialized.
    pub fn handle_shutdown(&mut self)
        ensures
            !final(self).initialized_state(),
            final(self).registry() == old(self).registry(),
            final(self).configuration() == old(self).configuration(),
            final(self).ws_auth() == old(self).ws_auth(),
    {
        self.initialized = false;
    }

    /// List tools in MCP schema format
    pub fn list_tools(&self) -> (r: JsonValue)
        ensures
            r@ == JsonView::Array(
                tool_entries_json(self.registry().tool_list(), self.registry().exposes_overrides()),
            ),
    {
        let tools = self.tool_entries();
        proof {
            lemma_array_view(tools);
        }
        JsonValue::Array(tools)
    }

    /// Check if server is initialized
    pub fn is_initialized(&self) -> (r: bool)
        ensures
            r == self.initialized_state(),
    {
        self.initialized
    }
}

} // verus!
