//! The configuration model: groups of tools with shared defaults, the
//! resolution of every tool's settings, and the validation of the whole.

use vstd::prelude::*;
use crate::error::{ConfigError, GenMcpError};
use crate::json::{JsonNumber, JsonNumberView, JsonValue, JsonView};
use crate::text::{str_eq, strs_view};

verus! {

/// Timeout used when neither the tool nor its group sets one (seconds).
pub const DEFAULT_TIMEOUT: u64 = 30;
/// Largest timeout a caller may ask for when nothing else is configured.
pub const DEFAULT_TIMEOUT_MAX: u64 = 300;
/// `stop_after` default: 0 disables it.
pub const DEFAULT_STOP_AFTER: u64 = 0;
/// Largest `stop_after` a caller may ask for when nothing else is configured.
pub const DEFAULT_STOP_AFTER_MAX: u64 = 3600;
/// Seconds between the termination signal and the forced kill.
pub const DEFAULT_TERMINATION_GRACE_PERIOD: u64 = 5;
/// Leading STDOUT lines kept by default.
pub const DEFAULT_OUTPUT_HEAD_LINES: u64 = 100;
/// Trailing STDOUT lines kept by default.
pub const DEFAULT_OUTPUT_TAIL_LINES: u64 = 100;
/// Largest head-line budget a caller may ask for by default.
pub const DEFAULT_OUTPUT_HEAD_LINES_MAX: u64 = 1000;
/// Largest tail-line budget a caller may ask for by default.
pub const DEFAULT_OUTPUT_TAIL_LINES_MAX: u64 = 1000;
/// Trailing STDERR lines kept by default.
pub const DEFAULT_STDERR_LINES: u64 = 50;
/// Largest STDERR budget a caller may ask for by default.
pub const DEFAULT_STDERR_LINES_MAX: u64 = 500;

/// Signal sent to a command that outlives its time budget.
#[derive(Clone, Copy, Debug, PartialEq, Eq, Structural)]
pub enum TerminationSignal {
    /// `SIGTERM`
    Sigterm,
    /// `SIGINT`
    Sigint,
}

/// How a tool's result is returned to the client.
#[derive(Clone, Copy, Debug, PartialEq, Eq, Structural)]
pub enum OutputFormat {
    /// The "Exit code / STDOUT / STDERR" text block.
    Text,
    /// STDOUT parsed as JSON, returned as structured content.
    Json,
}

/// The JSON Schema type advertised for a parameter.
#[derive(Clone, Copy, Debug, PartialEq, Eq, Structural)]
pub enum ParamType {
    /// Inferred from the CLI emission knobs.
    Infer,
    String,
    Integer,
    Number,
    Boolean,
    /// A string restricted to the configured values.
    Enum,
}

/// A tool parameter.
#[derive(Debug)]
pub struct Parameter {
    /// Parameter description
    pub description: String,
    /// JSON Schema type advertised to the client
    pub param_type: ParamType,
    /// Allowed values (the `enum` key)
    pub enum_values: Option<Vec<String>>,
    /// Default value advertised in the schema
    pub default: Option<JsonValue>,
    /// Lower numeric bound advertised in the schema (a finite number)
    pub minimum: Option<JsonNumber>,
    /// Upper numeric bound advertised in the schema (a finite number)
    pub maximum: Option<JsonNumber>,
    /// Example value
    pub example: Option<String>,
    /// CLI flag emitted when the parameter is provided
    pub flag: Option<String>,
    /// Whether the flag is followed by the value
    pub takes_value: bool,
    /// Whether the parameter must be provided
    pub required: bool,
    /// Whether a positional value is split shell-style into several arguments
    pub split_args: bool,
}

/// A tool as configured, before group defaults are applied.
#[derive(Debug)]
pub struct Tool {
    pub name: String,
    pub description: String,
    pub command: String,
    pub output: OutputFormat,
    pub arg_order: Vec<String>,
    pub timeout: Option<u64>,
    pub timeout_max: Option<u64>,
    pub stop_after: Option<u64>,
    pub stop_after_max: Option<u64>,
    pub termination_signal: Option<TerminationSignal>,
    pub termination_grace_period: Option<u64>,
    pub output_head_lines: Option<u64>,
    pub output_head_lines_max: Option<u64>,
    pub output_tail_lines: Option<u64>,
    pub output_tail_lines_max: Option<u64>,
    pub stderr_lines: Option<u64>,
    pub stderr_lines_max: Option<u64>,
    /// Parameters by name; [`Config::validate`] refuses a repeated name.
    pub parameters: Vec<(String, Parameter)>,
}

/// A group of tools with shared defaults.
#[derive(Debug)]
pub struct Group {
    pub default_timeout: Option<u64>,
    pub default_timeout_max: Option<u64>,
    pub default_stop_after: Option<u64>,
    pub default_stop_after_max: Option<u64>,
    pub default_termination_signal: Option<TerminationSignal>,
    pub default_termination_grace_period: Option<u64>,
    pub default_output_head_lines: Option<u64>,
    pub default_output_tail_lines: Option<u64>,
    pub default_output_head_lines_max: Option<u64>,
    pub default_output_tail_lines_max: Option<u64>,
    pub default_stderr_lines: Option<u64>,
    pub default_stderr_lines_max: Option<u64>,
    pub tools: Vec<Tool>,
}

/// The `[websocket_auth]` section.
#[derive(Debug)]
pub struct WebSocketAuth {
    pub enabled: bool,
    pub secret: Option<String>,
    pub oidc_issuer: Option<String>,
    pub jwks_url: Option<String>,
}

/// The whole configuration file.
#[derive(Debug)]
pub struct Config {
    /// Groups by name; [`Config::validate`] refuses a repeated name.
    pub groups: Vec<(String, Group)>,
    /// Whether the runtime-override knobs appear in the tool input schemas
    pub expose_runtime_overrides: bool,
    pub websocket_auth: Option<WebSocketAuth>,
}

/// A tool with every group and global default applied.
#[derive(Debug)]
pub struct ResolvedTool {
    /// `{group}_{tool}`
    pub full_name: String,
    pub group_name: String,
    pub tool_name: String,
    pub description: String,
    pub command: String,
    pub output: OutputFormat,
    pub arg_order: Vec<String>,
    pub parameters: Vec<(String, Parameter)>,
    pub timeout: u64,
    pub timeout_max: u64,
    pub stop_after: u64,
    pub stop_after_max: u64,
    pub termination_signal: TerminationSignal,
    pub termination_grace_period: u64,
    pub output_head_lines: u64,
    pub output_head_lines_max: u64,
    pub output_tail_lines: u64,
    pub output_tail_lines_max: u64,
    pub stderr_lines: u64,
    pub stderr_lines_max: u64,
}

/// The content of a [`Parameter`].
pub struct ParameterView {
    pub description: Seq<char>,
    pub param_type: ParamType,
    pub enum_values: Option<Seq<Seq<char>>>,
    pub default: Option<JsonView>,
    pub minimum: Option<JsonNumberView>,
    pub maximum: Option<JsonNumberView>,
    pub example: Option<Seq<char>>,
    pub flag: Option<Seq<char>>,
    pub takes_value: bool,
    pub required: bool,
    pub split_args: bool,
}

pub open spec fn opt_str_view(o: Option<String>) -> Option<Seq<char>> {
    match o {
        Some(s) => Some(s@),
        None => None,
    }
}


impl View for Parameter {
    type V = ParameterView;

    open spec fn view(&self) -> ParameterView {
        ParameterView {
            description: self.description@,
            param_type: self.param_type,
            enum_values: match self.enum_values {
                Some(v) => Some(strs_view(v@)),
                None => None,
            },
            default: match self.default {
                Some(d) => Some(d@),
                None => None,
            },
            minimum: match self.minimum {
                Some(n) => Some(n@),
                None => None,
            },
            maximum: match self.maximum {
                Some(n) => Some(n@),
                None => None,
            },
            example: opt_str_view(self.example),
            flag: opt_str_view(self.flag),
            takes_value: self.takes_value,
            required: self.required,
            split_args: self.split_args,
        }
    }
}

/// Parameters by name, as plain values.
pub open spec fn params_view(ps: Seq<(String, Parameter)>) -> Seq<(Seq<char>, ParameterView)> {
    ps.map_values(|p: (String, Parameter)| (p.0@, p.1@))
}

pub fn clone_opt_string(o: &Option<String>) -> (r: Option<String>)
    ensures
        opt_str_view(r) == opt_str_view(*o),
{
    match o {
        Some(s) => Some(s.clone()),
        None => None,
    }
}

pub fn clone_strings(v: &Vec<String>) -> (r: Vec<String>)
    ensures
        strs_view(r@) == strs_view(v@),
{
    let mut r: Vec<String> = Vec::new();
    let mut i: usize = 0;
    while i < v.len()
        invariant
            i <= v.len(),
            strs_view(r@) == strs_view(v@.take(i as int)),
        decreases v.len() - i,
    {
        r.push(v[i].clone());
        proof {
            assert(v@.take(i + 1) == v@.take(i as int).push(v@[i as int]));
            assert(strs_view(v@.take(i + 1)) =~= strs_view(v@.take(i as int)).push(v@[i as int]@));
        }
        i = i + 1;
    }
    proof {
        assert(v@.take(v.len() as int) == v@);
    }
    r
}

impl Parameter {
    /// A copy of this parameter.
    pub fn duplicate(&self) -> (r: Parameter)
        ensures
            r@ == self@,
    {
        Parameter {
            description: self.description.clone(),
            param_type: self.param_type,
            enum_values: match &self.enum_values {
                Some(v) => Some(clone_strings(v)),
                None => None,
            },
            default: match &self.default {
                Some(d) => Some(d.clone()),
                None => None,
            },
            minimum: match &self.minimum {
                Some(n) => Some(n.clone()),
                None => None,
            },
            maximum: match &self.maximum {
                Some(n) => Some(n.clone()),
                None => None,
            },
            example: clone_opt_string(&self.example),
            flag: clone_opt_string(&self.flag),
            takes_value: self.takes_value,
            required: self.required,
            split_args: self.split_args,
        }
    }
}

pub fn clone_params(v: &Vec<(String, Parameter)>) -> (r: Vec<(String, Parameter)>)
    ensures
        params_view(r@) == params_view(v@),
{
    let mut r: Vec<(String, Parameter)> = Vec::new();
    let mut i: usize = 0;
    while i < v.len()
        invariant
            i <= v.len(),
            params_view(r@) == params_view(v@.take(i as int)),
        decreases v.len() - i,
    {
        let name = v[i].0.clone();
        let p = v[i].1.duplicate();
        r.push((name, p));
        proof {
            assert(v@.take(i + 1) == v@.take(i as int).push(v@[i as int]));
            assert(params_view(v@.take(i + 1)) =~= params_view(v@.take(i as int)).push(
                (v@[i as int].0@, v@[i as int].1@),
            ));
        }
        i = i + 1;
    }
    proof {
        assert(v@.take(v.len() as int) == v@);
    }
    r
}

/// The first of `tool`, `group`, `fallback` that is set.
pub open spec fn pick(tool: Option<u64>, group: Option<u64>, fallback: u64) -> u64 {
    match tool {
        Some(v) => v,
        None => match group {
            Some(v) => v,
            None => fallback,
        },
    }
}

fn choose_value(tool: Option<u64>, group: Option<u64>, fallback: u64) -> (r: u64)
    ensures
        r == pick(tool, group, fallback),
{
    match tool {
        Some(v) => v,
        None => match group {
            Some(v) => v,
            None => fallback,
        },
    }
}

pub open spec fn pick_signal(
    tool: Option<TerminationSignal>,
    group: Option<TerminationSignal>,
) -> TerminationSignal {
    match tool {
        Some(v) => v,
        None => match group {
            Some(v) => v,
            None => TerminationSignal::Sigterm,
        },
    }
}

/// The five runtime-adjustable settings of a tool after defaults: the
/// `(default, max)` pairs for timeout, stop_after, head lines, tail lines and
/// stderr lines.
pub open spec fn resolved_limits(g: Group, t: Tool) -> Seq<(u64, u64)> {
    seq![
        (
            pick(t.timeout, g.default_timeout, DEFAULT_TIMEOUT),
            pick(t.timeout_max, g.default_timeout_max, DEFAULT_TIMEOUT_MAX),
        ),
        (
            pick(t.stop_after, g.default_stop_after, DEFAULT_STOP_AFTER),
            pick(t.stop_after_max, g.default_stop_after_max, DEFAULT_STOP_AFTER_MAX),
        ),
        (
            pick(t.output_head_lines, g.default_output_head_lines, DEFAULT_OUTPUT_HEAD_LINES),
            pick(
                t.output_head_lines_max,
                g.default_output_head_lines_max,
                DEFAULT_OUTPUT_HEAD_LINES_MAX,
            ),
        ),
        (
            pick(t.output_tail_lines, g.default_output_tail_lines, DEFAULT_OUTPUT_TAIL_LINES),
            pick(
                t.output_tail_lines_max,
                g.default_output_tail_lines_max,
                DEFAULT_OUTPUT_TAIL_LINES_MAX,
            ),
        ),
        (
            pick(t.stderr_lines, g.default_stderr_lines, DEFAULT_STDERR_LINES),
            pick(t.stderr_lines_max, g.default_stderr_lines_max, DEFAULT_STDERR_LINES_MAX),
        ),
    ]
}

/// The names under which the five adjustable settings are reported.
pub open spec fn limit_field_name(i: int) -> Seq<char> {
    if i == 0 {
        "timeout"@
    } else if i == 1 {
        "stop_after"@
    } else if i == 2 {
        "output_head_lines"@
    } else if i == 3 {
        "output_tail_lines"@
    } else {
        "stderr_lines"@
    }
}

/// The first problem in the settings of tool `t` of group `g`, if any: a zero
/// timeout, then the first setting whose MAX is below its default.
pub open spec fn tool_settings_error(g: Group, t: Tool) -> Option<ConfigErrorView> {
    let lim = resolved_limits(g, t);
    if lim[0].0 == 0 {
        Some(ConfigErrorView::InvalidTimeout(0))
    } else if lim[0].1 < lim[0].0 {
        Some(ConfigErrorView::InvalidMax(limit_field_name(0), lim[0].0, lim[0].1))
    } else if lim[1].1 < lim[1].0 {
        Some(ConfigErrorView::InvalidMax(limit_field_name(1), lim[1].0, lim[1].1))
    } else if lim[2].1 < lim[2].0 {
        Some(ConfigErrorView::InvalidMax(limit_field_name(2), lim[2].0, lim[2].1))
    } else if lim[3].1 < lim[3].0 {
        Some(ConfigErrorView::InvalidMax(limit_field_name(3), lim[3].0, lim[3].1))
    } else if lim[4].1 < lim[4].0 {
        Some(ConfigErrorView::InvalidMax(limit_field_name(4), lim[4].0, lim[4].1))
    } else {
        None
    }
}

/// The configuration errors that tool resolution can raise, as plain values.
pub enum ConfigErrorView {
    InvalidTimeout(u64),
    InvalidMax(Seq<char>, u64, u64),
    DuplicateToolName(Seq<char>),
    InvalidValue(Seq<char>, Seq<char>),
}

pub open spec fn config_error_view(e: ConfigError) -> Option<ConfigErrorView> {
    match e {
        ConfigError::InvalidTimeout(n) => Some(ConfigErrorView::InvalidTimeout(n)),
        ConfigError::InvalidMax { field, default, max } => Some(
            ConfigErrorView::InvalidMax(field@, default, max),
        ),
        ConfigError::DuplicateToolName(s) => Some(ConfigErrorView::DuplicateToolName(s@)),
        ConfigError::InvalidValue { field, message } => Some(
            ConfigErrorView::InvalidValue(field@, message@),
        ),
        _ => None,
    }
}

pub open spec fn full_name_of(group: Seq<char>, tool: Seq<char>) -> Seq<char> {
    group + "_"@ + tool
}

/// `r` is tool `t` of group `g` (named `gname`) with every default applied.
pub open spec fn is_resolution(r: ResolvedTool, gname: Seq<char>, g: Group, t: Tool) -> bool {
    let lim = resolved_limits(g, t);
    &&& r.full_name@ == full_name_of(gname, t.name@)
    &&& r.group_name@ == gname
    &&& r.tool_name@ == t.name@
    &&& r.description@ == t.description@
    &&& r.command@ == t.command@
    &&& r.output == t.output
    &&& strs_view(r.arg_order@) == strs_view(t.arg_order@)
    &&& params_view(r.parameters@) == params_view(t.parameters@)
    &&& r.timeout == lim[0].0
    &&& r.timeout_max == lim[0].1
    &&& r.stop_after == lim[1].0
    &&& r.stop_after_max == lim[1].1
    &&& r.output_head_lines == lim[2].0
    &&& r.output_head_lines_max == lim[2].1
    &&& r.output_tail_lines == lim[3].0
    &&& r.output_tail_lines_max == lim[3].1
    &&& r.stderr_lines == lim[4].0
    &&& r.stderr_lines_max == lim[4].1
    &&& r.termination_signal == pick_signal(t.termination_signal, g.default_termination_signal)
    &&& r.termination_grace_period == pick(
        t.termination_grace_period,
        g.default_termination_grace_period,
        DEFAULT_TERMINATION_GRACE_PERIOD,
    )
}

/// Resolution layers the settings: a value set on the tool is used as given,
/// whatever the group says; a value left unset on the tool comes from the
/// group's default; and one set on neither takes the global default.
pub proof fn lemma_tool_settings_win(r: ResolvedTool, gname: Seq<char>, g: Group, t: Tool)
    requires
        is_resolution(r, gname, g, t),
    ensures
        t.timeout is Some ==> r.timeout == t.timeout->0,
        t.timeout_max is Some ==> r.timeout_max == t.timeout_max->0,
        t.stop_after is Some ==> r.stop_after == t.stop_after->0,
        t.stop_after_max is Some ==> r.stop_after_max == t.stop_after_max->0,
        t.output_head_lines is Some ==> r.output_head_lines == t.output_head_lines->0,
        t.output_head_lines_max is Some ==> r.output_head_lines_max == t.output_head_lines_max->0,
        t.output_tail_lines is Some ==> r.output_tail_lines == t.output_tail_lines->0,
        t.output_tail_lines_max is Some ==> r.output_tail_lines_max == t.output_tail_lines_max->0,
        t.stderr_lines is Some ==> r.stderr_lines == t.stderr_lines->0,
        t.stderr_lines_max is Some ==> r.stderr_lines_max == t.stderr_lines_max->0,
        t.termination_signal is Some ==> r.termination_signal == t.termination_signal->0,
        t.termination_grace_period is Some ==> r.termination_grace_period
            == t.termination_grace_period->0,
        (t.timeout is None && g.default_timeout is Some) ==> r.timeout == g.default_timeout->0,
        (t.timeout_max is None && g.default_timeout_max is Some) ==> r.timeout_max
            == g.default_timeout_max->0,
        (t.stop_after is None && g.default_stop_after is Some) ==> r.stop_after
            == g.default_stop_after->0,
        (t.stop_after_max is None && g.default_stop_after_max is Some) ==> r.stop_after_max
            == g.default_stop_after_max->0,
        (t.output_head_lines is None && g.default_output_head_lines is Some) ==> r.output_head_lines
            == g.default_output_head_lines->0,
        (t.output_head_lines_max is None && g.default_output_head_lines_max is Some)
            ==> r.output_head_lines_max == g.default_output_head_lines_max->0,
        (t.output_tail_lines is None && g.default_output_tail_lines is Some) ==> r.output_tail_lines
            == g.default_output_tail_lines->0,
        (t.output_tail_lines_max is None && g.default_output_tail_lines_max is Some)
            ==> r.output_tail_lines_max == g.default_output_tail_lines_max->0,
        (t.stderr_lines is None && g.default_stderr_lines is Some) ==> r.stderr_lines
            == g.default_stderr_lines->0,
        (t.stderr_lines_max is None && g.default_stderr_lines_max is Some) ==> r.stderr_lines_max
            == g.default_stderr_lines_max->0,
        (t.termination_signal is None && g.default_termination_signal is Some)
            ==> r.termination_signal == g.default_termination_signal->0,
        (t.termination_grace_period is None && g.default_termination_grace_period is Some)
            ==> r.termination_grace_period == g.default_termination_grace_period->0,
        (t.timeout is None && g.default_timeout is None) ==> r.timeout == 30,
        (t.timeout_max is None && g.default_timeout_max is None) ==> r.timeout_max == 300,
        (t.stop_after is None && g.default_stop_after is None) ==> r.stop_after == 0,
        (t.stop_after_max is None && g.default_stop_after_max is None) ==> r.stop_after_max == 3600,
        (t.output_head_lines is None && g.default_output_head_lines is None) ==> r.output_head_lines
            == 100,
        (t.output_head_lines_max is None && g.default_output_head_lines_max is None)
            ==> r.output_head_lines_max == 1000,
        (t.output_tail_lines is None && g.default_output_tail_lines is None) ==> r.output_tail_lines
            == 100,
        (t.output_tail_lines_max is None && g.default_output_tail_lines_max is None)
            ==> r.output_tail_lines_max == 1000,
        (t.stderr_lines is None && g.default_stderr_lines is None) ==> r.stderr_lines == 50,
        (t.stderr_lines_max is None && g.default_stderr_lines_max is None) ==> r.stderr_lines_max
            == 500,
        (t.termination_signal is None && g.default_termination_signal is None)
            ==> r.termination_signal == TerminationSignal::Sigterm,
        (t.termination_grace_period is None && g.default_termination_grace_period is None)
            ==> r.termination_grace_period == 5,
{
}

/// Every default of a resolved tool lies within its MAX, and its timeout is positive.
pub open spec fn limits_consistent(r: ResolvedTool) -> bool {
    &&& r.timeout > 0
    &&& r.timeout <= r.timeout_max
    &&& r.stop_after <= r.stop_after_max
    &&& r.output_head_lines <= r.output_head_lines_max
    &&& r.output_tail_lines <= r.output_tail_lines_max
    &&& r.stderr_lines <= r.stderr_lines_max
}

fn invalid_max(field: &str, default: u64, max: u64) -> (e: ConfigError)
    ensures
        config_error_view(e) == Some(ConfigErrorView::InvalidMax(field@, default, max)),
{
    ConfigError::InvalidMax { field: String::from_str(field), default, max }
}

/// Apply the group's and the global defaults to tool `t` of group `g`, and
/// check the result: the timeout must be positive, and no MAX may be below its
/// default.
pub fn resolve_tool(group_name: &String, g: &Group, t: &Tool) -> (res: Result<ResolvedTool, ConfigError>)
    ensures
        match res {
            Ok(r) => tool_settings_error(*g, *t) is None && is_resolution(r, group_name@, *g, *t),
            Err(e) => tool_settings_error(*g, *t) is Some && config_error_view(e)
                == tool_settings_error(*g, *t),
        },
{
    let ghost lim = resolved_limits(*g, *t);
    let timeout = choose_value(t.timeout, g.default_timeout, DEFAULT_TIMEOUT);
    let timeout_max = choose_value(t.timeout_max, g.default_timeout_max, DEFAULT_TIMEOUT_MAX);
    let stop_after = choose_value(t.stop_after, g.default_stop_after, DEFAULT_STOP_AFTER);
    let stop_after_max = choose_value(
        t.stop_after_max,
        g.default_stop_after_max,
        DEFAULT_STOP_AFTER_MAX,
    );
    let head = choose_value(
        t.output_head_lines,
        g.default_output_head_lines,
        DEFAULT_OUTPUT_HEAD_LINES,
    );
    let head_max = choose_value(
        t.output_head_lines_max,
        g.default_output_head_lines_max,
        DEFAULT_OUTPUT_HEAD_LINES_MAX,
    );
    let tail = choose_value(
        t.output_tail_lines,
        g.default_output_tail_lines,
        DEFAULT_OUTPUT_TAIL_LINES,
    );
    let tail_max = choose_value(
        t.output_tail_lines_max,
        g.default_output_tail_lines_max,
        DEFAULT_OUTPUT_TAIL_LINES_MAX,
    );
    let stderr = choose_value(t.stderr_lines, g.default_stderr_lines, DEFAULT_STDERR_LINES);
    let stderr_max = choose_value(
        t.stderr_lines_max,
        g.default_stderr_lines_max,
        DEFAULT_STDERR_LINES_MAX,
    );
    proof {
        reveal_strlit("timeout");
        reveal_strlit("stop_after");
        reveal_strlit("output_head_lines");
        reveal_strlit("output_tail_lines");
        reveal_strlit("stderr_lines");
    }
    if timeout == 0 {
        return Err(ConfigError::InvalidTimeout(timeout));
    }
    if timeout_max < timeout {
        return Err(invalid_max("timeout", timeout, timeout_max));
    }
    if stop_after_max < stop_after {
        return Err(invalid_max("stop_after", stop_after, stop_after_max));
    }
    if head_max < head {
        return Err(invalid_max("output_head_lines", head, head_max));
    }
    if tail_max < tail {
        return Err(invalid_max("output_tail_lines", tail, tail_max));
    }
    if stderr_max < stderr {
        return Err(invalid_max("stderr_lines", stderr, stderr_max));
    }
    let signal = match t.termination_signal {
        Some(s) => s,
        None => match g.default_termination_signal {
            Some(s) => s,
            None => TerminationSignal::Sigterm,
        },
    };
    let grace = choose_value(
        t.termination_grace_period,
        g.default_termination_grace_period,
        DEFAULT_TERMINATION_GRACE_PERIOD,
    );
    let mut full_name = group_name.clone();
    full_name.append("_");
    full_name.append(t.name.as_str());
    Ok(
        ResolvedTool {
            full_name,
            group_name: group_name.clone(),
            tool_name: t.name.clone(),
            description: t.description.clone(),
            command: t.command.clone(),
            output: t.output,
            arg_order: clone_strings(&t.arg_order),
            parameters: clone_params(&t.parameters),
            timeout,
            timeout_max,
            stop_after,
            stop_after_max,
            termination_signal: signal,
            termination_grace_period: grace,
            output_head_lines: head,
            output_head_lines_max: head_max,
            output_tail_lines: tail,
            output_tail_lines_max: tail_max,
            stderr_lines: stderr,
            stderr_lines_max: stderr_max,
        },
    )
}

} // verus!

verus! {

/// The `(group index, tool index)` of every tool of the first `n` groups, in order.
pub open spec fn flat_upto(groups: Seq<(String, Group)>, n: int) -> Seq<(int, int)>
    decreases n,
{
    if n <= 0 {
        seq![]
    } else {
        flat_upto(groups, n - 1) + Seq::new(
            groups[n - 1].1.tools@.len(),
            |j: int| (n - 1, j),
        )
    }
}

/// The `(group index, tool index)` of every configured tool, group by group.
pub open spec fn tool_entries(c: Config) -> Seq<(int, int)> {
    flat_upto(c.groups@, c.groups@.len() as int)
}

/// Whether tool `ti` of group `gi` has the name of an earlier tool of that group.
pub open spec fn repeats_earlier_name(g: Group, ti: int) -> bool {
    exists|tj: int| 0 <= tj < ti && (#[trigger] g.tools@[tj]).name@ == g.tools@[ti].name@
}

/// Whether two parameters of `t` share a name.
pub open spec fn repeats_parameter_name(t: Tool) -> bool {
    exists|i: int, j: int|
        0 <= i < j < t.parameters@.len() && (#[trigger] t.parameters@[i]).0@
            == (#[trigger] t.parameters@[j]).0@
}

pub open spec fn duplicate_parameter_message(full_name: Seq<char>) -> Seq<char> {
    "duplicate parameter name in tool "@ + full_name
}

/// The problem with tool `ti` of group `gi`, if any: a name already used in the
/// group, then a parameter name used twice, then the checks of
/// [`tool_settings_error`].
pub open spec fn tool_problem(c: Config, e: (int, int)) -> Option<ConfigErrorView> {
    let (gname, g) = c.groups@[e.0];
    let t = g.tools@[e.1];
    if repeats_earlier_name(g, e.1) {
        Some(ConfigErrorView::DuplicateToolName(full_name_of(gname@, t.name@)))
    } else if repeats_parameter_name(t) {
        Some(
            ConfigErrorView::InvalidValue(
                "parameters"@,
                duplicate_parameter_message(full_name_of(gname@, t.name@)),
            ),
        )
    } else {
        tool_settings_error(g, t)
    }
}

/// `rs` resolves the tools at `entries` one for one.
pub open spec fn resolves_entries(c: Config, entries: Seq<(int, int)>, rs: Seq<ResolvedTool>) -> bool {
    &&& rs.len() == entries.len()
    &&& forall|k: int|
        0 <= k < entries.len() ==> is_resolution(
            #[trigger] rs[k],
            c.groups@[entries[k].0].0@,
            c.groups@[entries[k].0].1,
            c.groups@[entries[k].0].1.tools@[entries[k].1],
        )
}

proof fn lemma_flat_upto_step(groups: Seq<(String, Group)>, n: int)
    requires
        0 <= n < groups.len(),
    ensures
        flat_upto(groups, n + 1) == flat_upto(groups, n) + Seq::new(
            groups[n].1.tools@.len(),
            |j: int| (n, j),
        ),
{
}

proof fn lemma_flat_upto_bounds(groups: Seq<(String, Group)>, n: int)
    requires
        0 <= n <= groups.len(),
    ensures
        forall|k: int|
            0 <= k < flat_upto(groups, n).len() ==> 0 <= (#[trigger] flat_upto(groups, n)[k]).0
                < n && 0 <= flat_upto(groups, n)[k].1 < groups[flat_upto(
                groups,
                n,
            )[k].0].1.tools@.len(),
    decreases n,
{
    if n > 0 {
        lemma_flat_upto_bounds(groups, n - 1);
        let a = flat_upto(groups, n - 1);
        let b = Seq::new(groups[n - 1].1.tools@.len(), |j: int| (n - 1, j));
        assert forall|k: int| 0 <= k < flat_upto(groups, n).len() implies 0 <= (
        #[trigger] flat_upto(groups, n)[k]).0 < n && 0 <= flat_upto(groups, n)[k].1 < groups[flat_upto(
            groups,
            n,
        )[k].0].1.tools@.len() by {
            if k < a.len() {
                assert(flat_upto(groups, n)[k] == a[k]);
            } else {
                assert(flat_upto(groups, n)[k] == b[k - a.len()]);
            }
        }
    }
}

proof fn lemma_flat_monotone(groups: Seq<(String, Group)>, m: int, n: int)
    requires
        0 <= m <= n <= groups.len(),
    ensures
        flat_upto(groups, m).len() <= flat_upto(groups, n).len(),
        forall|k: int|
            0 <= k < flat_upto(groups, m).len() ==> #[trigger] flat_upto(groups, n)[k]
                == flat_upto(groups, m)[k],
    decreases n - m,
{
    if m < n {
        lemma_flat_monotone(groups, m, n - 1);
        let a = flat_upto(groups, n - 1);
        assert forall|k: int| 0 <= k < flat_upto(groups, m).len() implies #[trigger] flat_upto(
            groups,
            n,
        )[k] == flat_upto(groups, m)[k] by {
            assert(flat_upto(groups, n)[k] == a[k]);
        }
    }
}

/// The entries before and at tool `ti` of group `gi` open the list of all entries.
proof fn lemma_flat_upto_prefix(groups: Seq<(String, Group)>, gi: int, ti: int)
    requires
        0 <= gi < groups.len(),
        0 <= ti < groups[gi].1.tools@.len(),
    ensures
        ({
            let next = flat_upto(groups, gi) + Seq::new((ti + 1) as nat, |j: int| (gi, j));
            &&& next.len() <= flat_upto(groups, groups.len() as int).len()
            &&& forall|k: int|
                0 <= k < next.len() ==> #[trigger] flat_upto(groups, groups.len() as int)[k]
                    == next[k]
        }),
{
    let next = flat_upto(groups, gi) + Seq::new((ti + 1) as nat, |j: int| (gi, j));
    let whole = flat_upto(groups, gi + 1);
    lemma_flat_upto_step(groups, gi);
    lemma_flat_monotone(groups, gi + 1, groups.len() as int);
    assert forall|k: int| 0 <= k < next.len() implies #[trigger] flat_upto(
        groups,
        groups.len() as int,
    )[k] == next[k] by {
        assert(whole[k] == next[k]);
    }
}

fn parameter_name_repeated(t: &Tool) -> (r: bool)
    ensures
        r == repeats_parameter_name(*t),
{
    let n = t.parameters.len();
    let mut j: usize = 0;
    while j < n
        invariant
            n == t.parameters@.len(),
            j <= n,
            forall|a: int, b: int|
                0 <= a < b < j ==> (#[trigger] t.parameters@[a]).0@ != (#[trigger] t.parameters@[b]).0@,
        decreases n - j,
    {
        let mut i: usize = 0;
        while i < j
            invariant
                n == t.parameters@.len(),
                i <= j < n,
                forall|a: int| 0 <= a < i ==> (#[trigger] t.parameters@[a]).0@ != t.parameters@[j as int].0@,
            decreases j - i,
        {
            if str_eq(t.parameters[i].0.as_str(), t.parameters[j].0.as_str()) {
                proof {
                    assert(t.parameters@[i as int].0@ == t.parameters@[j as int].0@);
                }
                return true;
            }
            i = i + 1;
        }
        j = j + 1;
    }
    false
}

fn name_repeated(g: &Group, ti: usize) -> (r: bool)
    requires
        ti < g.tools@.len(),
    ensures
        r == repeats_earlier_name(*g, ti as int),
{
    let mut tj: usize = 0;
    while tj < ti
        invariant
            ti < g.tools@.len(),
            tj <= ti,
            forall|k: int| 0 <= k < tj ==> (#[trigger] g.tools@[k]).name@ != g.tools@[ti as int].name@,
        decreases ti - tj,
    {
        if g.tools[tj].name == g.tools[ti].name {
            return true;
        }
        tj = tj + 1;
    }
    false
}

impl Config {
    /// Every configured tool with its group's and the global defaults applied,
    /// group by group and in file order within a group. Fails on the first tool
    /// (in that order) whose name repeats an earlier name of its group, whose
    /// timeout is zero, or one of whose MAX values is below its default.
    pub fn get_all_tools(&self) -> (res: Result<Vec<ResolvedTool>, GenMcpError>)
        ensures
            match res {
                Ok(rs) => {
                    &&& forall|k: int|
                        0 <= k < tool_entries(*self).len() ==> tool_problem(
                            *self,
                            #[trigger] tool_entries(*self)[k],
                        ) is None
                    &&& resolves_entries(*self, tool_entries(*self), rs@)
                },
                Err(GenMcpError::Config(e)) => exists|k: int|
                    0 <= k < tool_entries(*self).len() && tool_problem(
                        *self,
                        #[trigger] tool_entries(*self)[k],
                    ) is Some && config_error_view(e) == tool_problem(*self, tool_entries(*self)[k])
                        && forall|k2: int|
                        0 <= k2 < k ==> tool_problem(
                            *self,
                            #[trigger] tool_entries(*self)[k2],
                        ) is None,
                Err(_) => false,
            },
    {
        let mut out: Vec<ResolvedTool> = Vec::new();
        let mut gi: usize = 0;
        let ghost groups = self.groups@;
        while gi < self.groups.len()
            invariant
                groups == self.groups@,
                gi <= groups.len(),
                resolves_entries(*self, flat_upto(groups, gi as int), out@),
                forall|k: int|
                    0 <= k < flat_upto(groups, gi as int).len() ==> tool_problem(
                        *self,
                        #[trigger] flat_upto(groups, gi as int)[k],
                    ) is None,
            decreases groups.len() - gi,
        {
            let gname = &self.groups[gi].0;
            let g = &self.groups[gi].1;
            let ghost before = flat_upto(groups, gi as int);
            proof {
                lemma_flat_upto_step(groups, gi as int);
            }
            let mut ti: usize = 0;
            let ghost mut cur_entries = before;
            proof {
                assert(before + Seq::new(0 as nat, |j: int| (gi as int, j)) == before);
            }
            while ti < g.tools.len()
                invariant
                    groups == self.groups@,
                    gi < groups.len(),
                    *gname == groups[gi as int].0,
                    *g == groups[gi as int].1,
                    before == flat_upto(groups, gi as int),
                    ti <= g.tools@.len(),
                    cur_entries == before + Seq::new(ti as nat, |j: int| (gi as int, j)),
                    resolves_entries(*self, cur_entries, out@),
                    forall|k: int|
                        0 <= k < cur_entries.len() ==> tool_problem(
                            *self,
                            #[trigger] cur_entries[k],
                        ) is None,
                decreases g.tools@.len() - ti,
            {
                let ghost cur = cur_entries;
                let ghost next = before + Seq::new((ti + 1) as nat, |j: int| (gi as int, j));
                proof {
                    assert(next == cur.push((gi as int, ti as int)));
                    assert(next[cur.len() as int] == (gi as int, ti as int));
                }
                let t = &g.tools[ti];
                if name_repeated(g, ti) {
                    let mut full = gname.clone();
                    full.append("_");
                    full.append(t.name.as_str());
                    proof {
                        assert(tool_problem(*self, next[cur.len() as int]) is Some);
                        assert forall|k2: int| 0 <= k2 < cur.len() implies tool_problem(
                            *self,
                            #[trigger] next[k2],
                        ) is None by {
                            assert(next[k2] == cur[k2]);
                        }
                        lemma_flat_upto_prefix(groups, gi as int, ti as int);
                        let k = cur.len() as int;
                        assert(tool_entries(*self)[k] == next[k]);
                        assert forall|k2: int| 0 <= k2 < k implies tool_problem(
                            *self,
                            #[trigger] tool_entries(*self)[k2],
                        ) is None by {
                            assert(tool_entries(*self)[k2] == next[k2]);
                        }
                        reveal_strlit("_");
                    }
                    return Err(GenMcpError::Config(ConfigError::DuplicateToolName(full)));
                }
                if parameter_name_repeated(t) {
                    let mut full = gname.clone();
                    full.append("_");
                    full.append(t.name.as_str());
                    let mut message = String::from_str("duplicate parameter name in tool ");
                    message.append(full.as_str());
                    proof {
                        reveal_strlit("_");
                        assert(tool_problem(*self, next[cur.len() as int]) is Some);
                        assert forall|k2: int| 0 <= k2 < cur.len() implies tool_problem(
                            *self,
                            #[trigger] next[k2],
                        ) is None by {
                            assert(next[k2] == cur[k2]);
                        }
                        lemma_flat_upto_prefix(groups, gi as int, ti as int);
                        let k = cur.len() as int;
                        assert(tool_entries(*self)[k] == next[k]);
                        assert forall|k2: int| 0 <= k2 < k implies tool_problem(
                            *self,
                            #[trigger] tool_entries(*self)[k2],
                        ) is None by {
                            assert(tool_entries(*self)[k2] == next[k2]);
                        }
                    }
                    return Err(
                        GenMcpError::Config(
                            ConfigError::InvalidValue { field: String::from_str("parameters"), message },
                        ),
                    );
                }
                match resolve_tool(gname, g, t) {
                    Ok(r) => {
                        out.push(r);
                        proof {
                            assert forall|k: int| 0 <= k < next.len() implies is_resolution(
                                #[trigger] out@[k],
                                self.groups@[next[k].0].0@,
                                self.groups@[next[k].0].1,
                                self.groups@[next[k].0].1.tools@[next[k].1],
                            ) by {
                                if k < cur.len() {
                                    assert(next[k] == cur[k]);
                                }
                            }
                            assert forall|k: int| 0 <= k < next.len() implies tool_problem(
                                *self,
                                #[trigger] next[k],
                            ) is None by {
                                if k < cur.len() {
                                    assert(next[k] == cur[k]);
                                }
                            }
                        }
                        proof {
                            cur_entries = next;
                        }
                    },
                    Err(e) => {
                        proof {
                            assert(tool_problem(*self, next[cur.len() as int]) is Some);
                            assert forall|k2: int| 0 <= k2 < cur.len() implies tool_problem(
                                *self,
                                #[trigger] next[k2],
                            ) is None by {
                                assert(next[k2] == cur[k2]);
                            }
                            lemma_flat_upto_prefix(groups, gi as int, ti as int);
                            let k = cur.len() as int;
                            assert(tool_entries(*self)[k] == next[k]);
                            assert forall|k2: int| 0 <= k2 < k implies tool_problem(
                                *self,
                                #[trigger] tool_entries(*self)[k2],
                            ) is None by {
                                assert(tool_entries(*self)[k2] == next[k2]);
                            }
                        }
                        return Err(GenMcpError::Config(e));
                    },
                }
                ti = ti + 1;
            }
            proof {
                assert(cur_entries =~= flat_upto(groups, gi + 1));
            }
            gi = gi + 1;
        }
        Ok(out)
    }
}

} // verus!

verus! {

/// How many authentication methods a `[websocket_auth]` section names.
pub open spec fn auth_method_count(a: WebSocketAuth) -> int {
    (if a.secret is Some { 1int } else { 0int }) + (if a.oidc_issuer is Some { 1int } else { 0int })
        + (if a.jwks_url is Some { 1int } else { 0int })
}

/// An enabled `[websocket_auth]` section must name exactly one method.
pub open spec fn websocket_auth_ok(a: Option<WebSocketAuth>) -> bool {
    match a {
        Some(auth) => !auth.enabled || auth_method_count(auth) == 1,
        None => true,
    }
}

pub open spec fn missing_auth_method_field() -> Seq<char> {
    "websocket_auth: one of secret, oidc_issuer, jwks_url"@
}

pub open spec fn auth_methods_exclusive_message() -> Seq<char> {
    "secret, oidc_issuer and jwks_url are mutually exclusive"@
}

/// The first group named `name`.
pub open spec fn group_lookup(groups: Seq<(String, Group)>, name: Seq<char>) -> Option<Group>
    decreases groups.len(),
{
    if groups.len() == 0 {
        None
    } else if groups[0].0@ == name {
        Some(groups[0].1)
    } else {
        group_lookup(groups.drop_first(), name)
    }
}

/// Whether group `j` has the name of an earlier group.
pub open spec fn repeats_earlier_group(groups: Seq<(String, Group)>, j: int) -> bool {
    exists|i: int| 0 <= i < j && (#[trigger] groups[i]).0@ == groups[j].0@
}

/// No two groups share a name.
pub open spec fn distinct_group_names(groups: Seq<(String, Group)>) -> bool {
    forall|j: int| 0 <= j < groups.len() ==> !#[trigger] repeats_earlier_group(groups, j)
}

pub open spec fn duplicate_group_message(name: Seq<char>) -> Seq<char> {
    "duplicate group name: "@ + name
}

/// `e` is the problem of the first tool, in the order of [`tool_entries`], that has one.
pub open spec fn is_first_tool_problem(c: Config, e: ConfigError) -> bool {
    exists|k: int|
        0 <= k < tool_entries(c).len() && tool_problem(c, #[trigger] tool_entries(c)[k]) is Some
            && config_error_view(e) == tool_problem(c, tool_entries(c)[k]) && forall|k2: int|
            0 <= k2 < k ==> tool_problem(c, #[trigger] tool_entries(c)[k2]) is None
}

/// The position of the first group whose name repeats an earlier one.
fn first_repeated_group(groups: &Vec<(String, Group)>) -> (r: Option<usize>)
    ensures
        match r {
            Some(j) => j < groups@.len() && repeats_earlier_group(groups@, j as int) && forall|j2: int|
                0 <= j2 < j ==> !#[trigger] repeats_earlier_group(groups@, j2),
            None => distinct_group_names(groups@),
        },
{
    let n = groups.len();
    let mut j: usize = 0;
    while j < n
        invariant
            n == groups@.len(),
            j <= n,
            forall|j2: int| 0 <= j2 < j ==> !#[trigger] repeats_earlier_group(groups@, j2),
        decreases n - j,
    {
        let mut i: usize = 0;
        while i < j
            invariant
                n == groups@.len(),
                i <= j < n,
                forall|j2: int| 0 <= j2 < j ==> !#[trigger] repeats_earlier_group(groups@, j2),
                forall|a: int| 0 <= a < i ==> (#[trigger] groups@[a]).0@ != groups@[j as int].0@,
            decreases j - i,
        {
            if str_eq(groups[i].0.as_str(), groups[j].0.as_str()) {
                proof {
                    assert(groups@[i as int].0@ == groups@[j as int].0@);
                }
                return Some(j);
            }
            i = i + 1;
        }
        j = j + 1;
    }
    None
}

impl Config {
    /// Check the `[websocket_auth]` section, the group names and every tool:
    /// an enabled section must name exactly one of `secret`, `oidc_issuer` and
    /// `jwks_url`; no two groups may share a name; and every tool must resolve
    /// (see [`Config::get_all_tools`]), the first failing tool giving the error.
    pub fn validate(&self) -> (res: Result<(), GenMcpError>)
        ensures
            res is Ok <==> websocket_auth_ok(self.websocket_auth) && distinct_group_names(
                self.groups@,
            ) && forall|k: int|
                0 <= k < tool_entries(*self).len() ==> tool_problem(
                    *self,
                    #[trigger] tool_entries(*self)[k],
                ) is None,
            !websocket_auth_ok(self.websocket_auth) ==> match res {
                Err(GenMcpError::Config(ConfigError::MissingField(f))) => auth_method_count(
                    self.websocket_auth->0,
                ) == 0 && f@ == missing_auth_method_field(),
                Err(GenMcpError::Config(ConfigError::InvalidValue { field, message })) => {
                    &&& auth_method_count(self.websocket_auth->0) > 1
                    &&& field@ == "websocket_auth"@
                    &&& message@ == auth_methods_exclusive_message()
                },
                _ => false,
            },
            websocket_auth_ok(self.websocket_auth) && !distinct_group_names(self.groups@) ==> (
            res matches Err(GenMcpError::Config(ConfigError::InvalidValue { field, message }))
                && field@ == "groups"@ && exists|j: int|
                0 <= j < self.groups@.len() && repeats_earlier_group(self.groups@, j) && message@
                    == duplicate_group_message(self.groups@[j].0@) && forall|j2: int|
                    0 <= j2 < j ==> !#[trigger] repeats_earlier_group(self.groups@, j2)),
            websocket_auth_ok(self.websocket_auth) && distinct_group_names(self.groups@)
                && res is Err ==> (res matches Err(GenMcpError::Config(e))
                && is_first_tool_problem(*self, e)),
    {
        if let Some(auth) = &self.websocket_auth {
            if auth.enabled {
                let n: u8 = (if auth.secret.is_some() { 1u8 } else { 0u8 }) + (
                if auth.oidc_issuer.is_some() {
                    1u8
                } else {
                    0u8
                }) + (if auth.jwks_url.is_some() { 1u8 } else { 0u8 });
                if n == 0 {
                    return Err(
                        GenMcpError::Config(
                            ConfigError::MissingField(
                                String::from_str("websocket_auth: one of secret, oidc_issuer, jwks_url"),
                            ),
                        ),
                    );
                }
                if n > 1 {
                    return Err(
                        GenMcpError::Config(
                            ConfigError::InvalidValue {
                                field: String::from_str("websocket_auth"),
                                message: String::from_str(
                                    "secret, oidc_issuer and jwks_url are mutually exclusive",
                                ),
                            },
                        ),
                    );
                }
            }
        }
        if let Some(j) = first_repeated_group(&self.groups) {
            let mut message = String::from_str("duplicate group name: ");
            message.append(self.groups[j].0.as_str());
            return Err(
                GenMcpError::Config(
                    ConfigError::InvalidValue { field: String::from_str("groups"), message },
                ),
            );
        }
        match self.get_all_tools() {
            Ok(_) => Ok(()),
            Err(e) => Err(e),
        }
    }

    /// The group named `name`.
    pub fn group(&self, name: &str) -> (r: Option<&Group>)
        ensures
            match r {
                Some(g) => group_lookup(self.groups@, name@) == Some(*g),
                None => group_lookup(self.groups@, name@) is None,
            },
    {
        let mut i: usize = 0;
        proof {
            assert(self.groups@.subrange(0, self.groups@.len() as int) == self.groups@);
        }
        while i < self.groups.len()
            invariant
                i <= self.groups@.len(),
                group_lookup(self.groups@, name@) == group_lookup(
                    self.groups@.subrange(i as int, self.groups@.len() as int),
                    name@,
                ),
            decreases self.groups@.len() - i,
        {
            let ghost rest = self.groups@.subrange(i as int, self.groups@.len() as int);
            if str_eq(self.groups[i].0.as_str(), name) {
                return Some(&self.groups[i].1);
            }
            proof {
                assert(rest.drop_first() == self.groups@.subrange(i + 1, self.groups@.len() as int));
            }
            i = i + 1;
        }
        None
    }
}

} // verus!
