//! The tool registry: resolved tools by full name, override validation, and
//! the input schemas advertised to clients.

use vstd::prelude::*;
use crate::config::{
    config_error_view, full_name_of, is_resolution, repeats_parameter_name, limits_consistent, resolves_entries,
    params_view, tool_entries, tool_problem, tool_settings_error, Config, Group,
    ParamType, Parameter, ParameterView, ResolvedTool, Tool, DEFAULT_OUTPUT_HEAD_LINES_MAX,
    DEFAULT_OUTPUT_TAIL_LINES_MAX, DEFAULT_STDERR_LINES_MAX, DEFAULT_STOP_AFTER_MAX,
    DEFAULT_TIMEOUT_MAX,
};
use crate::json::{
    items_view, lemma_array_view, lemma_object_set_get, lemma_object_set_other, lemma_object_view,
    member_value, members_view, object_insert, object_set, JsonValue, JsonView,
};
use crate::error::{GenMcpError, McpError, ToolRegistryError};
use crate::text::{decimal, join_seqs, join_strings, str_eq, strs_view, u64_to_string};

verus! {

/// Tool registry that manages all available tools
#[derive(Debug)]
pub struct ToolRegistry {
    /// The resolved tools; their full names are unique.
    tools: Vec<ResolvedTool>,
    /// Whether the runtime-override knobs are advertised in the generated input
    /// schemas. They are honoured at call time regardless.
    expose_runtime_overrides: bool,
}

/// The full name of the tool at `e`.
pub open spec fn entry_name(c: Config, e: (int, int)) -> Seq<char> {
    full_name_of(c.groups@[e.0].0@, c.groups@[e.0].1.tools@[e.1].name@)
}

/// Whether the tool at position `k` of `entries` has the full name of an earlier one.
pub open spec fn repeats_earlier_full_name(c: Config, entries: Seq<(int, int)>, k: int) -> bool {
    exists|j: int| 0 <= j < k && #[trigger] entry_name(c, entries[j]) == entry_name(c, entries[k])
}

/// No two tools of `ts` share a full name.
pub open spec fn distinct_full_names(ts: Seq<ResolvedTool>) -> bool {
    forall|i: int, j: int|
        0 <= i < ts.len() && 0 <= j < ts.len() && i != j ==> (#[trigger] ts[i]).full_name@
            != (#[trigger] ts[j]).full_name@
}

/// No two parameters of `t` share a name.
pub open spec fn distinct_parameter_names(t: ResolvedTool) -> bool {
    forall|a: int, b: int|
        0 <= a < b < t.parameters@.len() ==> (#[trigger] t.parameters@[a]).0@
            != (#[trigger] t.parameters@[b]).0@
}

/// Whether some tool of `ts` is named `name`.
pub open spec fn has_tool_named(ts: Seq<ResolvedTool>, name: Seq<char>) -> bool {
    exists|i: int| 0 <= i < ts.len() && (#[trigger] ts[i]).full_name@ == name
}

/// The tool of `ts` named `name`, if any (with distinct names there is at most one).
pub open spec fn tool_named(ts: Seq<ResolvedTool>, name: Seq<char>) -> Option<ResolvedTool> {
    if has_tool_named(ts, name) {
        Some(ts[choose|i: int| 0 <= i < ts.len() && (#[trigger] ts[i]).full_name@ == name])
    } else {
        None
    }
}

/// The first of the five runtime overrides that exceeds its MAX, in the order
/// timeout, stop_after, output_head_lines, output_tail_lines, stderr_lines, as
/// `(field, value, max)`.
pub open spec fn override_problem(
    t: ResolvedTool,
    timeout: Option<u64>,
    stop_after: Option<u64>,
    output_head_lines: Option<u64>,
    output_tail_lines: Option<u64>,
    stderr_lines: Option<u64>,
) -> Option<(Seq<char>, u64, u64)> {
    if timeout is Some && timeout->0 > t.timeout_max {
        Some(("timeout"@, timeout->0, t.timeout_max))
    } else if stop_after is Some && stop_after->0 > t.stop_after_max {
        Some(("stop_after"@, stop_after->0, t.stop_after_max))
    } else if output_head_lines is Some && output_head_lines->0 > t.output_head_lines_max {
        Some(("output_head_lines"@, output_head_lines->0, t.output_head_lines_max))
    } else if output_tail_lines is Some && output_tail_lines->0 > t.output_tail_lines_max {
        Some(("output_tail_lines"@, output_tail_lines->0, t.output_tail_lines_max))
    } else if stderr_lines is Some && stderr_lines->0 > t.stderr_lines_max {
        Some(("stderr_lines"@, stderr_lines->0, t.stderr_lines_max))
    } else {
        None
    }
}

fn exceeds(field: &str, value: u64, max: u64) -> (e: GenMcpError)
    ensures
        e == GenMcpError::Mcp(McpError::OverrideExceedsMax { field: e->Mcp_0->field, value, max }),
        e->Mcp_0->field@ == field@,
{
    GenMcpError::Mcp(McpError::OverrideExceedsMax { field: String::from_str(field), value, max })
}

proof fn lemma_resolution_consistent(r: ResolvedTool, gname: Seq<char>, g: Group, t: Tool)
    requires
        is_resolution(r, gname, g, t),
        tool_settings_error(g, t) is None,
    ensures
        limits_consistent(r),
{
}

/// What building a registry from `config` gives: the resolved tools of every
/// entry when no entry has a problem and no full name repeats; otherwise the
/// first entry's problem, or the first repeated full name.
pub open spec fn registry_built_from(config: Config, res: Result<ToolRegistry, GenMcpError>) -> bool {
    match res {
        Ok(reg) => {
            &&& reg.well_formed()
            &&& reg.exposes_overrides() == config.expose_runtime_overrides
            &&& forall|k: int|
                0 <= k < tool_entries(config).len() ==> tool_problem(
                    config,
                    #[trigger] tool_entries(config)[k],
                ) is None
            &&& forall|k: int|
                0 <= k < tool_entries(config).len() ==> !repeats_earlier_full_name(
                    config,
                    tool_entries(config),
                    k,
                )
            &&& resolves_entries(config, tool_entries(config), reg.tool_list())
        },
        Err(GenMcpError::Config(e)) => exists|k: int|
            0 <= k < tool_entries(config).len() && tool_problem(
                config,
                #[trigger] tool_entries(config)[k],
            ) is Some && config_error_view(e) == tool_problem(
                config,
                tool_entries(config)[k],
            ) && forall|k2: int|
                0 <= k2 < k ==> tool_problem(
                    config,
                    #[trigger] tool_entries(config)[k2],
                ) is None,
        Err(GenMcpError::ToolRegistry(ToolRegistryError::DuplicateTool(name))) => {
            &&& forall|k: int|
                0 <= k < tool_entries(config).len() ==> tool_problem(
                    config,
                    #[trigger] tool_entries(config)[k],
                ) is None
            &&& exists|k: int|
                0 <= k < tool_entries(config).len() && repeats_earlier_full_name(
                    config,
                    tool_entries(config),
                    k,
                ) && name@ == entry_name(config, tool_entries(config)[k]) && forall|
                    k2: int,
                |
                    0 <= k2 < k ==> !#[trigger] repeats_earlier_full_name(
                        config,
                        tool_entries(config),
                        k2,
                    )
        },
        Err(_) => false,
    }
}

impl ToolRegistry {
    /// The registered tools.
    pub closed spec fn tool_list(&self) -> Seq<ResolvedTool> {
        self.tools@
    }

    /// Whether the override knobs appear in generated schemas.
    pub closed spec fn exposes_overrides(&self) -> bool {
        self.expose_runtime_overrides
    }

    /// The registry's invariant: full names are unique, and every tool's
    /// defaults lie within its MAX values with a positive timeout.
    #[verifier::type_invariant]
    pub open spec fn well_formed(&self) -> bool {
        &&& distinct_full_names(self.tool_list())
        &&& forall|i: int|
            0 <= i < self.tool_list().len() ==> limits_consistent(#[trigger] self.tool_list()[i])
        &&& forall|i: int|
            0 <= i < self.tool_list().len() ==> distinct_parameter_names(
                #[trigger] self.tool_list()[i],
            )
    }

    /// Create a new tool registry from a configuration: every resolved tool of
    /// `config` (see [`Config::get_all_tools`]), keyed by full name. Two tools
    /// whose full names coincide (say group `a_b` tool `c` and group `a` tool
    /// `b_c`) are refused.
    pub fn from_config(config: &Config) -> (res: Result<ToolRegistry, GenMcpError>)
        ensures
            registry_built_from(*config, res),
    {
        let resolved = match config.get_all_tools() {
            Ok(rs) => rs,
            Err(e) => {
                return Err(e);
            },
        };
        let ghost entries = tool_entries(*config);
        proof {
            assert forall|k: int| 0 <= k < entries.len() implies (#[trigger] resolved@[k]).full_name@
                == entry_name(*config, entries[k]) by {
                assert(is_resolution(
                    resolved@[k],
                    config.groups@[entries[k].0].0@,
                    config.groups@[entries[k].0].1,
                    config.groups@[entries[k].0].1.tools@[entries[k].1],
                ));
            }
        }
        let mut k: usize = 0;
        while k < resolved.len()
            invariant
                entries == tool_entries(*config),
                resolves_entries(*config, entries, resolved@),
                forall|k: int| 0 <= k < entries.len() ==> (#[trigger] resolved@[k]).full_name@
                    == entry_name(*config, entries[k]),
                k <= resolved@.len(),
                forall|k2: int| 0 <= k2 < k ==> !#[trigger] repeats_earlier_full_name(*config, entries, k2),
                forall|k: int|
                    0 <= k < tool_entries(*config).len() ==> tool_problem(
                        *config,
                        #[trigger] tool_entries(*config)[k],
                    ) is None,
            decreases resolved@.len() - k,
        {
            let mut j: usize = 0;
            while j < k
                invariant
                    entries == tool_entries(*config),
                    resolves_entries(*config, entries, resolved@),
                    forall|k: int| 0 <= k < entries.len() ==> (#[trigger] resolved@[k]).full_name@
                        == entry_name(*config, entries[k]),
                    k < resolved@.len(),
                    j <= k,
                    forall|j2: int| 0 <= j2 < j ==> entry_name(*config, #[trigger] entries[j2]) != entry_name(*config, entries[k as int]),
                    forall|k2: int| 0 <= k2 < k ==> !#[trigger] repeats_earlier_full_name(*config, entries, k2),
                    forall|k: int|
                        0 <= k < tool_entries(*config).len() ==> tool_problem(
                            *config,
                            #[trigger] tool_entries(*config)[k],
                    ) is None,
                decreases k - j,
            {
                if resolved[j].full_name == resolved[k].full_name {
                    proof {
                        assert(repeats_earlier_full_name(*config, entries, k as int));
                        assert(resolved@[k as int].full_name@ == entry_name(*config, entries[k as int]));
                    }
                    return Err(
                        GenMcpError::ToolRegistry(
                            ToolRegistryError::DuplicateTool(resolved[k].full_name.clone()),
                        ),
                    );
                }
                j = j + 1;
            }
            proof {
                assert(!repeats_earlier_full_name(*config, entries, k as int));
            }
            k = k + 1;
        }
        proof {
            assert forall|i: int, j: int|
                0 <= i < resolved@.len() && 0 <= j < resolved@.len() && i != j
                implies (#[trigger] resolved@[i]).full_name@ != (#[trigger] resolved@[j]).full_name@ by {
                if i < j {
                    assert(!repeats_earlier_full_name(*config, entries, j));
                } else {
                    assert(!repeats_earlier_full_name(*config, entries, i));
                }
            }
            assert forall|i: int| 0 <= i < resolved@.len() implies distinct_parameter_names(
                #[trigger] resolved@[i],
            ) by {
                assert(tool_problem(*config, entries[i]) is None);
                let t = config.groups@[entries[i].0].1.tools@[entries[i].1];
                let r = resolved@[i];
                assert(params_view(r.parameters@) == params_view(t.parameters@));
                assert forall|a: int, b: int| 0 <= a < b < r.parameters@.len() implies (
                #[trigger] r.parameters@[a]).0@ != (#[trigger] r.parameters@[b]).0@ by {
                    assert(params_view(r.parameters@)[a] == params_view(t.parameters@)[a]);
                    assert(params_view(r.parameters@)[b] == params_view(t.parameters@)[b]);
                    assert(!repeats_parameter_name(t));
                    assert(t.parameters@[a].0@ != t.parameters@[b].0@);
                }
            }
            assert forall|i: int| 0 <= i < resolved@.len() implies limits_consistent(
                #[trigger] resolved@[i],
            ) by {
                assert(tool_problem(*config, entries[i]) is None);
                lemma_resolution_consistent(
                    resolved@[i],
                    config.groups@[entries[i].0].0@,
                    config.groups@[entries[i].0].1,
                    config.groups@[entries[i].0].1.tools@[entries[i].1],
                );
            }
        }
        let reg = ToolRegistry { tools: resolved, expose_runtime_overrides: config.expose_runtime_overrides };
        Ok(reg)
    }

    /// Get a tool by its full name
    pub fn get_tool(&self, name: &str) -> (r: Option<&ResolvedTool>)
        ensures
            match r {
                Some(t) => {
                    &&& self.tool_list().contains(*t)
                    &&& t.full_name@ == name@
                    &&& tool_named(self.tool_list(), name@) == Some(*t)
                },
                None => !has_tool_named(self.tool_list(), name@) && tool_named(
                    self.tool_list(),
                    name@,
                ) is None,
            },
    {
        proof {
            use_type_invariant(self);
        }
        let mut i: usize = 0;
        while i < self.tools.len()
            invariant
                self.well_formed(),
                i <= self.tools@.len(),
                forall|j: int| 0 <= j < i ==> (#[trigger] self.tools@[j]).full_name@ != name@,
            decreases self.tools@.len() - i,
        {
            if str_eq(self.tools[i].full_name.as_str(), name) {
                proof {
                    let ts = self.tool_list();
                    assert(ts[i as int] == self.tools@[i as int]);
                    assert(has_tool_named(ts, name@));
                    let c = choose|c: int| 0 <= c < ts.len() && (#[trigger] ts[c]).full_name@ == name@;
                    assert(c == i);
                }
                return Some(&self.tools[i]);
            }
            i = i + 1;
        }
        None
    }

    /// Get all tools
    pub fn all_tools(&self) -> (r: &[ResolvedTool])
        ensures
            r@ == self.tool_list(),
    {
        self.tools.as_slice()
    }

    /// Validate runtime override values against MAX constraints: the first
    /// provided override (timeout, stop_after, output_head_lines,
    /// output_tail_lines, stderr_lines, in that order) above its MAX is refused.
    pub fn validate_runtime_overrides(
        &self,
        tool: &ResolvedTool,
        timeout: Option<u64>,
        stop_after: Option<u64>,
        output_head_lines: Option<u64>,
        output_tail_lines: Option<u64>,
        stderr_lines: Option<u64>,
    ) -> (res: Result<(), GenMcpError>)
        ensures
            match res {
                Ok(()) => override_problem(
                    *tool,
                    timeout,
                    stop_after,
                    output_head_lines,
                    output_tail_lines,
                    stderr_lines,
                ) is None,
                Err(GenMcpError::Mcp(McpError::OverrideExceedsMax { field, value, max })) => override_problem(
                    *tool,
                    timeout,
                    stop_after,
                    output_head_lines,
                    output_tail_lines,
                    stderr_lines,
                ) == Some((field@, value, max)),
                Err(_) => false,
            },
    {
        proof {
            reveal_strlit("timeout");
            reveal_strlit("stop_after");
            reveal_strlit("output_head_lines");
            reveal_strlit("output_tail_lines");
            reveal_strlit("stderr_lines");
        }
        if let Some(v) = timeout {
            if v > tool.timeout_max {
                return Err(exceeds("timeout", v, tool.timeout_max));
            }
        }
        if let Some(v) = stop_after {
            if v > tool.stop_after_max {
                return Err(exceeds("stop_after", v, tool.stop_after_max));
            }
        }
        if let Some(v) = output_head_lines {
            if v > tool.output_head_lines_max {
                return Err(exceeds("output_head_lines", v, tool.output_head_lines_max));
            }
        }
        if let Some(v) = output_tail_lines {
            if v > tool.output_tail_lines_max {
                return Err(exceeds("output_tail_lines", v, tool.output_tail_lines_max));
            }
        }
        if let Some(v) = stderr_lines {
            if v > tool.stderr_lines_max {
                return Err(exceeds("stderr_lines", v, tool.stderr_lines_max));
            }
        }
        Ok(())
    }
}

/// A registered tool's own defaults never exceed its MAX values: asking for
/// exactly the defaults is always accepted.
pub proof fn lemma_defaults_pass_validation(reg: ToolRegistry, t: ResolvedTool)
    requires
        reg.well_formed(),
        reg.tool_list().contains(t),
    ensures
        override_problem(
            t,
            Some(t.timeout),
            Some(t.stop_after),
            Some(t.output_head_lines),
            Some(t.output_tail_lines),
            Some(t.stderr_lines),
        ) is None,
{
    let i = choose|i: int| 0 <= i < reg.tool_list().len() && reg.tool_list()[i] == t;
    assert(limits_consistent(reg.tool_list()[i]));
}

} // verus!

verus! {

/// MCP tool schema for tool registration
#[derive(Debug)]
pub struct McpToolSchema {
    /// Tool name
    pub name: String,
    /// Tool description (includes MAX constraints)
    pub description: String,
    /// Input schema (JSON Schema)
    pub input_schema: JsonValue,
}

pub open spec fn jstr(s: Seq<char>) -> JsonView {
    JsonView::String(s)
}

/// The JSON type advertised for a parameter: an explicit type wins; otherwise a
/// flag without a value is a boolean toggle and everything else a string.
pub open spec fn json_type_name(p: ParameterView) -> Seq<char> {
    match p.param_type {
        ParamType::Infer => if p.flag is Some && !p.takes_value {
            "boolean"@
        } else {
            "string"@
        },
        ParamType::String => "string"@,
        ParamType::Integer => "integer"@,
        ParamType::Number => "number"@,
        ParamType::Boolean => "boolean"@,
        ParamType::Enum => "string"@,
    }
}

/// The members of one parameter's schema.
pub open spec fn param_members(p: ParameterView) -> Seq<(Seq<char>, JsonView)> {
    let m0 = seq![("type"@, jstr(json_type_name(p))), ("description"@, jstr(p.description))];
    let m1 = match p.enum_values {
        Some(vs) => m0.push(("enum"@, JsonView::Array(vs.map_values(|s: Seq<char>| jstr(s))))),
        None => m0,
    };
    let m2 = match p.default {
        Some(d) => m1.push(("default"@, d)),
        None => m1,
    };
    let m3 = match p.minimum {
        Some(n) => m2.push(("minimum"@, JsonView::Number(n))),
        None => m2,
    };
    let m4 = match p.maximum {
        Some(n) => m3.push(("maximum"@, JsonView::Number(n))),
        None => m3,
    };
    match p.example {
        Some(e) => m4.push(("example"@, jstr(e))),
        None => m4,
    }
}

/// A parameter's schema advertises its declared JSON Schema type under
/// `"type"`: `number`, `integer` and `boolean` as declared, `string` for a
/// string or an enum; an undeclared type is `boolean` for a flag without a
/// value and `string` otherwise.
pub proof fn lemma_declared_type_advertised(p: ParameterView)
    ensures
        ({
            let ty = member_value(param_members(p), "type"@);
            &&& p.param_type == ParamType::Number ==> ty == Some(jstr("number"@))
            &&& p.param_type == ParamType::Integer ==> ty == Some(jstr("integer"@))
            &&& p.param_type == ParamType::Boolean ==> ty == Some(jstr("boolean"@))
            &&& p.param_type == ParamType::String ==> ty == Some(jstr("string"@))
            &&& p.param_type == ParamType::Enum ==> ty == Some(jstr("string"@))
            &&& (p.param_type == ParamType::Infer && p.flag is Some && !p.takes_value) ==> ty
                == Some(jstr("boolean"@))
            &&& (p.param_type == ParamType::Infer && !(p.flag is Some && !p.takes_value)) ==> ty
                == Some(jstr("string"@))
        }),
{
    let ms = param_members(p);
    assert(ms.len() >= 2 && ms[0] == ("type"@, jstr(json_type_name(p))));
    crate::json::lemma_key_index_first(ms, "type"@, 0);
}

/// The `properties` object built from the parameters, one after the other.
pub open spec fn properties_of(ps: Seq<(Seq<char>, ParameterView)>) -> Seq<(Seq<char>, JsonView)>
    decreases ps.len(),
{
    if ps.len() == 0 {
        seq![]
    } else {
        object_set(
            properties_of(ps.drop_last()),
            ps.last().0,
            JsonView::Object(param_members(ps.last().1)),
        )
    }
}

/// The names of the required parameters, in parameter order.
pub open spec fn required_of(ps: Seq<(Seq<char>, ParameterView)>) -> Seq<JsonView>
    decreases ps.len(),
{
    if ps.len() == 0 {
        seq![]
    } else if ps.last().1.required {
        required_of(ps.drop_last()).push(jstr(ps.last().0))
    } else {
        required_of(ps.drop_last())
    }
}

pub open spec fn default_max_text(prefix: Seq<char>, d: u64, m: u64) -> Seq<char> {
    prefix + decimal(d as nat) + ", max: "@ + decimal(m as nat) + ")"@
}

pub open spec fn number_knob(description: Seq<char>) -> JsonView {
    JsonView::Object(seq![("type"@, jstr("number"@)), ("description"@, jstr(description))])
}

/// The five runtime-override knobs of a tool, with their defaults and MAX values.
pub open spec fn override_properties(t: ResolvedTool) -> Seq<(Seq<char>, JsonView)> {
    seq![
        ("timeout"@, number_knob(default_max_text("Timeout in seconds (default: "@, t.timeout, t.timeout_max))),
        ("stop_after"@, number_knob(default_max_text("Stop after duration in seconds for long-running processes (default: "@, t.stop_after, t.stop_after_max))),
        ("output_head_lines"@, number_knob(default_max_text("Number of lines from head of output (default: "@, t.output_head_lines, t.output_head_lines_max))),
        ("output_tail_lines"@, number_knob(default_max_text("Number of lines from tail of output (default: "@, t.output_tail_lines, t.output_tail_lines_max))),
        ("stderr_lines"@, number_knob(default_max_text("Number of lines from stderr to return on error (default: "@, t.stderr_lines, t.stderr_lines_max))),
    ]
}

/// `ms` with each of `entries` set in turn.
pub open spec fn object_set_all(
    ms: Seq<(Seq<char>, JsonView)>,
    entries: Seq<(Seq<char>, JsonView)>,
) -> Seq<(Seq<char>, JsonView)>
    decreases entries.len(),
{
    if entries.len() == 0 {
        ms
    } else {
        object_set(object_set_all(ms, entries.drop_last()), entries.last().0, entries.last().1)
    }
}

/// The `properties` of a tool's input schema.
pub open spec fn schema_properties(t: ResolvedTool, expose: bool) -> Seq<(Seq<char>, JsonView)> {
    let base = properties_of(params_view(t.parameters@));
    if expose {
        object_set_all(base, override_properties(t))
    } else {
        base
    }
}

/// A tool's input schema: an object schema with its parameters (and, when
/// exposed, the override knobs) and the list of required parameters.
pub open spec fn input_schema_of(t: ResolvedTool, expose: bool) -> JsonView {
    JsonView::Object(
        seq![
            ("type"@, jstr("object"@)),
            ("properties"@, JsonView::Object(schema_properties(t, expose))),
            ("required"@, JsonView::Array(required_of(params_view(t.parameters@)))),
        ],
    )
}

/// The MAX values that differ from the global ones, as sentences.
pub open spec fn constraints_of(t: ResolvedTool) -> Seq<Seq<char>> {
    let c0 = if t.timeout_max != DEFAULT_TIMEOUT_MAX {
        seq!["Maximum timeout: "@ + decimal(t.timeout_max as nat) + " seconds"@]
    } else {
        seq![]
    };
    let c1 = if t.stop_after_max != DEFAULT_STOP_AFTER_MAX {
        c0.push("Maximum stop_after: "@ + decimal(t.stop_after_max as nat) + " seconds"@)
    } else {
        c0
    };
    let c2 = if t.output_head_lines_max != DEFAULT_OUTPUT_HEAD_LINES_MAX {
        c1.push("Maximum output_head_lines: "@ + decimal(t.output_head_lines_max as nat))
    } else {
        c1
    };
    let c3 = if t.output_tail_lines_max != DEFAULT_OUTPUT_TAIL_LINES_MAX {
        c2.push("Maximum output_tail_lines: "@ + decimal(t.output_tail_lines_max as nat))
    } else {
        c2
    };
    if t.stderr_lines_max != DEFAULT_STDERR_LINES_MAX {
        c3.push("Maximum stderr_lines: "@ + decimal(t.stderr_lines_max as nat))
    } else {
        c3
    }
}

/// A tool's description followed by its non-default MAX values.
pub open spec fn schema_description(t: ResolvedTool) -> Seq<char> {
    let cs = constraints_of(t);
    if cs.len() > 0 {
        t.description@ + "\n\nConstraints: "@ + join_seqs(cs, ", "@)
    } else {
        t.description@
    }
}

fn text_of(parts1: &str, n: u64, parts2: &str) -> (r: String)
    ensures
        r@ == parts1@ + decimal(n as nat) + parts2@,
{
    let mut r = String::from_str(parts1);
    let d = u64_to_string(n);
    r.append(d.as_str());
    r.append(parts2);
    r
}

fn json_string(s: &str) -> (v: JsonValue)
    ensures
        v@ == jstr(s@),
{
    JsonValue::String(String::from_str(s))
}

/// The schema object of one parameter.
pub fn param_schema(p: &Parameter) -> (v: JsonValue)
    ensures
        v@ == JsonView::Object(param_members(p@)),
{
    let ty = match p.param_type {
        ParamType::Infer => if p.flag.is_some() && !p.takes_value {
            "boolean"
        } else {
            "string"
        },
        ParamType::String => "string",
        ParamType::Integer => "integer",
        ParamType::Number => "number",
        ParamType::Boolean => "boolean",
        ParamType::Enum => "string",
    };
    let mut ms: Vec<(String, JsonValue)> = Vec::new();
    ms.push((String::from_str("type"), json_string(ty)));
    ms.push((String::from_str("description"), JsonValue::String(p.description.clone())));
    proof {
        assert(members_view(ms@) =~= seq![("type"@, jstr(json_type_name(p@))), ("description"@, jstr(p@.description))]);
    }
    if let Some(values) = &p.enum_values {
        let mut items: Vec<JsonValue> = Vec::new();
        let mut i: usize = 0;
        while i < values.len()
            invariant
                i <= values@.len(),
                items_view(items@) == strs_view(values@).take(i as int).map_values(
                    |s: Seq<char>| jstr(s),
                ),
            decreases values@.len() - i,
        {
            let ghost prev = items_view(items@);
            let item = JsonValue::String(values[i].clone());
            proof {
                assert(item@ == jstr(values@[i as int]@));
            }
            items.push(item);
            proof {
                let target = strs_view(values@).take(i + 1).map_values(|s: Seq<char>| jstr(s));
                let old_target = strs_view(values@).take(i as int).map_values(|s: Seq<char>| jstr(s));
                assert(items_view(items@) =~= prev.push(item@));
                assert(target =~= old_target.push(jstr(values@[i as int]@)));
            }
            i = i + 1;
        }
        proof {
            assert(strs_view(values@).take(values@.len() as int) == strs_view(values@));
            lemma_array_view(items);
        }
        let ghost before = members_view(ms@);
        ms.push((String::from_str("enum"), JsonValue::Array(items)));
        proof {
            assert(members_view(ms@) =~= before.push(("enum"@, JsonView::Array(strs_view(values@).map_values(|s: Seq<char>| jstr(s))))));
        }
    }
    if let Some(d) = &p.default {
        let ghost before = members_view(ms@);
        ms.push((String::from_str("default"), d.clone()));
        proof {
            assert(members_view(ms@) =~= before.push(("default"@, d@)));
        }
    }
    if let Some(n) = &p.minimum {
        let ghost before = members_view(ms@);
        ms.push((String::from_str("minimum"), JsonValue::Number(n.clone())));
        proof {
            assert(members_view(ms@) =~= before.push(("minimum"@, JsonView::Number(n@))));
        }
    }
    if let Some(n) = &p.maximum {
        let ghost before = members_view(ms@);
        ms.push((String::from_str("maximum"), JsonValue::Number(n.clone())));
        proof {
            assert(members_view(ms@) =~= before.push(("maximum"@, JsonView::Number(n@))));
        }
    }
    if let Some(e) = &p.example {
        let ghost before = members_view(ms@);
        ms.push((String::from_str("example"), JsonValue::String(e.clone())));
        proof {
            assert(members_view(ms@) =~= before.push(("example"@, jstr(e@))));
        }
    }
    proof {
        lemma_object_view(ms);
    }
    JsonValue::Object(ms)
}

fn number_knob_value(prefix: &str, d: u64, m: u64) -> (v: JsonValue)
    ensures
        v@ == number_knob(default_max_text(prefix@, d, m)),
{
    let mut text = text_of(prefix, d, ", max: ");
    let md = u64_to_string(m);
    text.append(md.as_str());
    text.append(")");
    let mut ms: Vec<(String, JsonValue)> = Vec::new();
    ms.push((String::from_str("type"), json_string("number")));
    ms.push((String::from_str("description"), JsonValue::String(text)));
    proof {
        lemma_object_view(ms);
        assert(members_view(ms@) =~= seq![("type"@, jstr("number"@)), ("description"@, jstr(default_max_text(prefix@, d, m)))]);
    }
    JsonValue::Object(ms)
}

} // verus!

verus! {

proof fn lemma_set_all_push(
    ms: Seq<(Seq<char>, JsonView)>,
    es: Seq<(Seq<char>, JsonView)>,
    e: (Seq<char>, JsonView),
)
    ensures
        object_set_all(ms, es.push(e)) == object_set(object_set_all(ms, es), e.0, e.1),
{
    assert(es.push(e).drop_last() == es);
}

impl ToolRegistry {
    /// Generate the MCP tool schema for a tool: its full name; its description
    /// followed by the MAX values that differ from the global ones; and an
    /// object input schema listing its parameters (typed, with their enum,
    /// default, bounds and example) and the required ones, plus the five
    /// runtime-override knobs when the registry exposes them.
    pub fn generate_tool_schema(&self, tool: &ResolvedTool) -> (r: McpToolSchema)
        ensures
            r.name@ == tool.full_name@,
            r.description@ == schema_description(*tool),
            r.input_schema@ == input_schema_of(*tool, self.exposes_overrides()),
    {
        let mut constraints: Vec<String> = Vec::new();
        let ghost c0 = if tool.timeout_max != DEFAULT_TIMEOUT_MAX {
            seq!["Maximum timeout: "@ + decimal(tool.timeout_max as nat) + " seconds"@]
        } else {
            seq![]
        };
        if tool.timeout_max != DEFAULT_TIMEOUT_MAX {
            constraints.push(text_of("Maximum timeout: ", tool.timeout_max, " seconds"));
        }
        proof {
            assert(strs_view(constraints@) =~= c0);
        }
        if tool.stop_after_max != DEFAULT_STOP_AFTER_MAX {
            constraints.push(text_of("Maximum stop_after: ", tool.stop_after_max, " seconds"));
        }
        let ghost c1 = strs_view(constraints@);
        if tool.output_head_lines_max != DEFAULT_OUTPUT_HEAD_LINES_MAX {
            constraints.push(text_of("Maximum output_head_lines: ", tool.output_head_lines_max, ""));
        }
        let ghost c2 = strs_view(constraints@);
        if tool.output_tail_lines_max != DEFAULT_OUTPUT_TAIL_LINES_MAX {
            constraints.push(text_of("Maximum output_tail_lines: ", tool.output_tail_lines_max, ""));
        }
        let ghost c3 = strs_view(constraints@);
        if tool.stderr_lines_max != DEFAULT_STDERR_LINES_MAX {
            constraints.push(text_of("Maximum stderr_lines: ", tool.stderr_lines_max, ""));
        }
        proof {
            reveal_strlit("");
            assert(strs_view(constraints@) =~= constraints_of(*tool));
        }
        let mut description = tool.description.clone();
        if constraints.len() > 0 {
            description.append("\n\nConstraints: ");
            let joined = join_strings(&constraints, ", ");
            description.append(joined.as_str());
        }
        let mut properties: Vec<(String, JsonValue)> = Vec::new();
        let mut required: Vec<JsonValue> = Vec::new();
        let ghost ps = params_view(tool.parameters@);
        let mut i: usize = 0;
        while i < tool.parameters.len()
            invariant
                ps == params_view(tool.parameters@),
                i <= tool.parameters@.len(),
                members_view(properties@) == properties_of(ps.take(i as int)),
                items_view(required@) == required_of(ps.take(i as int)),
            decreases tool.parameters@.len() - i,
        {
            let name = &tool.parameters[i].0;
            let p = &tool.parameters[i].1;
            proof {
                assert(ps.take(i + 1).drop_last() == ps.take(i as int));
                assert(ps.take(i + 1).last() == (name@, p@));
            }
            let schema = param_schema(p);
            object_insert(&mut properties, name.clone(), schema);
            if p.required {
                let ghost before = items_view(required@);
                required.push(JsonValue::String(name.clone()));
                proof {
                    assert(items_view(required@) =~= before.push(jstr(name@)));
                }
            }
            i = i + 1;
        }
        proof {
            assert(ps.take(tool.parameters@.len() as int) == ps);
        }
        if self.expose_runtime_overrides {
            Self::add_runtime_override_properties(tool, &mut properties);
        }
        proof {
            lemma_object_view(properties);
            lemma_array_view(required);
        }
        let mut top: Vec<(String, JsonValue)> = Vec::new();
        top.push((String::from_str("type"), json_string("object")));
        top.push((String::from_str("properties"), JsonValue::Object(properties)));
        top.push((String::from_str("required"), JsonValue::Array(required)));
        proof {
            lemma_object_view(top);
            assert(members_view(top@) =~= input_schema_of(*tool, self.exposes_overrides())->Object_0);
        }
        McpToolSchema {
            name: tool.full_name.clone(),
            description,
            input_schema: JsonValue::Object(top),
        }
    }

    /// Add the five runtime-override knobs to a tool's input-schema properties.
    fn add_runtime_override_properties(tool: &ResolvedTool, properties: &mut Vec<(String, JsonValue)>)
        ensures
            members_view(final(properties)@) == object_set_all(
                members_view(old(properties)@),
                override_properties(*tool),
            ),
    {
        let ghost start = members_view(properties@);
        let ghost ops = override_properties(*tool);
        proof {
            assert(ops.take(0) == Seq::<(Seq<char>, JsonView)>::empty());
        }
        let v = number_knob_value("Timeout in seconds (default: ", tool.timeout, tool.timeout_max);
        object_insert(properties, String::from_str("timeout"), v);
        proof {
            lemma_set_all_push(start, ops.take(0), ops[0]);
            assert(ops.take(0).push(ops[0]) == ops.take(1));
        }
        let v = number_knob_value(
            "Stop after duration in seconds for long-running processes (default: ",
            tool.stop_after,
            tool.stop_after_max,
        );
        object_insert(properties, String::from_str("stop_after"), v);
        proof {
            lemma_set_all_push(start, ops.take(1), ops[1]);
            assert(ops.take(1).push(ops[1]) == ops.take(2));
        }
        let v = number_knob_value(
            "Number of lines from head of output (default: ",
            tool.output_head_lines,
            tool.output_head_lines_max,
        );
        object_insert(properties, String::from_str("output_head_lines"), v);
        proof {
            lemma_set_all_push(start, ops.take(2), ops[2]);
            assert(ops.take(2).push(ops[2]) == ops.take(3));
        }
        let v = number_knob_value(
            "Number of lines from tail of output (default: ",
            tool.output_tail_lines,
            tool.output_tail_lines_max,
        );
        object_insert(properties, String::from_str("output_tail_lines"), v);
        proof {
            lemma_set_all_push(start, ops.take(3), ops[3]);
            assert(ops.take(3).push(ops[3]) == ops.take(4));
        }
        let v = number_knob_value(
            "Number of lines from stderr to return on error (default: ",
            tool.stderr_lines,
            tool.stderr_lines_max,
        );
        object_insert(properties, String::from_str("stderr_lines"), v);
        proof {
            lemma_set_all_push(start, ops.take(4), ops[4]);
            assert(ops.take(4).push(ops[4]) == ops);
        }
    }
}


/// Setting the members `entries`, whose names are distinct, leaves each of
/// them readable with its value.
proof fn lemma_object_set_all_get(ms: Seq<(Seq<char>, JsonView)>, entries: Seq<(Seq<char>, JsonView)>, i: int)
    requires
        0 <= i < entries.len(),
        forall|a: int, b: int| 0 <= a < b < entries.len() ==> entries[a].0 != entries[b].0,
    ensures
        member_value(object_set_all(ms, entries), entries[i].0) == Some(entries[i].1),
    decreases entries.len(),
{
    let prefix = entries.drop_last();
    let last = entries.last();
    if i == entries.len() - 1 {
        lemma_object_set_get(object_set_all(ms, prefix), last.0, last.1);
    } else {
        assert(prefix[i] == entries[i]);
        lemma_object_set_all_get(ms, prefix, i);
        assert(entries[i].0 != entries[entries.len() - 1].0);
        lemma_object_set_other(object_set_all(ms, prefix), last.0, last.1, entries[i].0);
    }
}

/// With `expose_runtime_overrides`, every one of the five override knobs is
/// advertised in a tool's input schema; without it, the schema's properties
/// are exactly the tool's parameters.
pub proof fn lemma_overrides_advertised_iff_exposed(t: ResolvedTool)
    ensures
        forall|i: int|
            0 <= i < 5 ==> member_value(schema_properties(t, true), #[trigger] override_properties(t)[i].0)
                == Some(override_properties(t)[i].1),
        schema_properties(t, false) == properties_of(params_view(t.parameters@)),
{
    reveal_strlit("timeout");
    reveal_strlit("stop_after");
    reveal_strlit("output_head_lines");
    reveal_strlit("output_tail_lines");
    reveal_strlit("stderr_lines");
    let entries = override_properties(t);
    assert forall|a: int, b: int| 0 <= a < b < entries.len() implies entries[a].0 != entries[b].0 by {
        assert(entries[a].0.len() != entries[b].0.len() || entries[a].0[0] != entries[b].0[0]
            || entries[a].0[7] != entries[b].0[7]);
    }
    assert forall|i: int| 0 <= i < 5 implies member_value(
        schema_properties(t, true),
        #[trigger] override_properties(t)[i].0,
    ) == Some(override_properties(t)[i].1) by {
        lemma_object_set_all_get(properties_of(params_view(t.parameters@)), entries, i);
    }
}

/// Every registered tool is found under its full name.
pub proof fn lemma_registered_tools_found(reg: ToolRegistry, t: ResolvedTool)
    requires
        reg.well_formed(),
        reg.tool_list().contains(t),
    ensures
        tool_named(reg.tool_list(), t.full_name@) == Some(t),
{
    let ts = reg.tool_list();
    let i = choose|i: int| 0 <= i < ts.len() && ts[i] == t;
    assert(has_tool_named(ts, t.full_name@));
    let c = choose|c: int| 0 <= c < ts.len() && (#[trigger] ts[c]).full_name@ == t.full_name@;
    if c != i {
        assert(ts[c].full_name@ == ts[i].full_name@);
    }
}


proof fn lemma_required_of(ps: Seq<(Seq<char>, ParameterView)>)
    requires
        forall|a: int, b: int| 0 <= a < b < ps.len() ==> (#[trigger] ps[a]).0 != (#[trigger] ps[b]).0,
    ensures
        forall|a: int, b: int|
            0 <= a < b < required_of(ps).len() ==> (#[trigger] required_of(ps)[a]) != (
            #[trigger] required_of(ps)[b]),
        forall|k: int|
            0 <= k < required_of(ps).len() ==> exists|i: int|
                0 <= i < ps.len() && #[trigger] required_of(ps)[k] == jstr(ps[i].0)
                    && ps[i].1.required,
        forall|i: int| 0 <= i < ps.len() && (#[trigger] ps[i]).1.required ==> required_of(ps).contains(jstr(ps[i].0)),
    decreases ps.len(),
{
    if ps.len() > 0 {
        let p = ps.drop_last();
        assert forall|a: int, b: int| 0 <= a < b < p.len() implies (#[trigger] p[a]).0 != (#[trigger] p[b]).0 by {
            assert(p[a] == ps[a] && p[b] == ps[b]);
        }
        lemma_required_of(p);
        let rp = required_of(p);
        let r = required_of(ps);
        if ps.last().1.required {
            assert(r == rp.push(jstr(ps.last().0)));
            assert forall|k: int| 0 <= k < rp.len() implies #[trigger] rp[k] != jstr(ps.last().0) by {
                let i = choose|i: int| 0 <= i < p.len() && rp[k] == jstr(p[i].0) && p[i].1.required;
                assert(ps[i] == p[i]);
                assert(ps[i].0 != ps[ps.len() - 1].0);
            }
            assert forall|a: int, b: int| 0 <= a < b < r.len() implies (#[trigger] r[a]) != (#[trigger] r[b]) by {
                if b < rp.len() {
                    assert(r[a] == rp[a] && r[b] == rp[b]);
                } else {
                    assert(r[a] == rp[a]);
                }
            }
            assert forall|k: int| 0 <= k < r.len() implies exists|i: int|
                0 <= i < ps.len() && #[trigger] r[k] == jstr(ps[i].0) && ps[i].1.required by {
                if k < rp.len() {
                    let i = choose|i: int| 0 <= i < p.len() && rp[k] == jstr(p[i].0) && p[i].1.required;
                    assert(ps[i] == p[i]);
                } else {
                    assert(r[k] == jstr(ps[ps.len() - 1].0));
                }
            }
            assert forall|i: int| 0 <= i < ps.len() && (#[trigger] ps[i]).1.required implies r.contains(jstr(ps[i].0)) by {
                if i < p.len() {
                    assert(p[i] == ps[i]);
                    let k = choose|k: int| 0 <= k < rp.len() && rp[k] == jstr(p[i].0);
                    assert(r[k] == rp[k]);
                } else {
                    assert(r[r.len() - 1] == jstr(ps[i].0));
                }
            }
        } else {
            assert(r == rp);
            assert forall|k: int| 0 <= k < r.len() implies exists|i: int|
                0 <= i < ps.len() && #[trigger] r[k] == jstr(ps[i].0) && ps[i].1.required by {
                let i = choose|i: int| 0 <= i < p.len() && rp[k] == jstr(p[i].0) && p[i].1.required;
                assert(ps[i] == p[i]);
            }
            assert forall|i: int| 0 <= i < ps.len() && (#[trigger] ps[i]).1.required implies r.contains(jstr(ps[i].0)) by {
                assert(i < p.len());
                assert(p[i] == ps[i]);
            }
        }
    }
}

/// In the input schema of a registered tool, `required` lists every required
/// parameter, nothing else, and each once.
pub proof fn lemma_required_lists_each_once(reg: ToolRegistry, t: ResolvedTool)
    requires
        reg.well_formed(),
        reg.tool_list().contains(t),
    ensures
        ({
            let req = required_of(params_view(t.parameters@));
            &&& forall|a: int, b: int| 0 <= a < b < req.len() ==> (#[trigger] req[a]) != (#[trigger] req[b])
            &&& forall|n: Seq<char>|
                req.contains(jstr(n)) <==> exists|i: int|
                    0 <= i < t.parameters@.len() && (#[trigger] t.parameters@[i]).0@ == n
                        && t.parameters@[i].1@.required
            &&& forall|k: int| 0 <= k < req.len() ==> (#[trigger] req[k]) is String
        }),
{
    let ts = reg.tool_list();
    let j = choose|j: int| 0 <= j < ts.len() && ts[j] == t;
    assert(distinct_parameter_names(ts[j]));
    let ps = params_view(t.parameters@);
    assert forall|a: int, b: int| 0 <= a < b < ps.len() implies (#[trigger] ps[a]).0 != (#[trigger] ps[b]).0 by {
        assert(t.parameters@[a].0@ != t.parameters@[b].0@);
    }
    lemma_required_of(ps);
    let req = required_of(ps);
    assert forall|n: Seq<char>|
        (exists|i: int|
            0 <= i < t.parameters@.len() && (#[trigger] t.parameters@[i]).0@ == n
                && t.parameters@[i].1@.required) implies req.contains(jstr(n)) by {
        let i = choose|i: int| 0 <= i < t.parameters@.len() && (#[trigger] t.parameters@[i]).0@ == n
            && t.parameters@[i].1@.required;
        assert(ps[i] == (t.parameters@[i].0@, t.parameters@[i].1@));
    }
    assert forall|n: Seq<char>| req.contains(jstr(n)) implies exists|i: int|
        0 <= i < t.parameters@.len() && (#[trigger] t.parameters@[i]).0@ == n
            && t.parameters@[i].1@.required by {
        let k = choose|k: int| 0 <= k < req.len() && req[k] == jstr(n);
        let i = choose|i: int| 0 <= i < ps.len() && req[k] == jstr(ps[i].0) && ps[i].1.required;
        assert(ps[i] == (t.parameters@[i].0@, t.parameters@[i].1@));
    }
    assert forall|k: int| 0 <= k < req.len() implies (#[trigger] req[k]) is String by {
        let i = choose|i: int| 0 <= i < ps.len() && req[k] == jstr(ps[i].0) && ps[i].1.required;
    }
}

} // verus!
