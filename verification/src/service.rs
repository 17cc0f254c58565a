//! Turning a `tools/call` request into a command line, and a command's outcome
//! into the reply.

use vstd::prelude::*;
use crate::config::{
    params_view, Config, OutputFormat, Parameter, ParameterView, ResolvedTool, TerminationSignal,
};
use crate::error::{gen_mcp_error_text, override_exceeds_text, ExecutionError, GenMcpError};
use crate::executor::ExecutionResult;
use crate::json::{JsonNumber, JsonValue, JsonView};
use serde_json::Value;
use crate::tools::{
    input_schema_of, override_problem, registry_built_from, schema_description, tool_named,
    McpToolSchema, ToolRegistry,
};
use crate::shell::{parse_shell_args, spec_shell_args, unclosed_quote_message};
use crate::text::{
    contains_name, i64_to_string, signed_decimal, sort_seqs, sort_strings, str_eq, strs_view, trim_lowercase,
    trimmed_lower,
};

verus! {

/// One argument value of a tool call, as the client sent it.
#[derive(Debug)]
pub enum ArgValue {
    Null,
    Bool(bool),
    /// A number: its value as an `i64` and as a `u64` where it is one, and its JSON text.
    Number { as_i64: Option<i64>, as_u64: Option<u64>, text: String },
    String(String),
    /// An array or object, with its JSON text.
    Composite { text: String },
}

/// The `arguments` of a tool call.
#[derive(Debug)]
pub enum CallArguments {
    /// Omitted (JSON `null`).
    Null,
    /// A JSON object: members in order, keys unique.
    Object(Vec<(String, ArgValue)>),
    /// Any other JSON value.
    Other,
}

/// The content of an [`ArgValue`].
pub enum ArgView {
    Null,
    Bool(bool),
    Number { as_i64: Option<i64>, as_u64: Option<u64>, text: Seq<char> },
    String(Seq<char>),
    Composite { text: Seq<char> },
}

impl View for ArgValue {
    type V = ArgView;

    open spec fn view(&self) -> ArgView {
        match self {
            ArgValue::Null => ArgView::Null,
            ArgValue::Bool(b) => ArgView::Bool(*b),
            ArgValue::Number { as_i64, as_u64, text } => ArgView::Number {
                as_i64: *as_i64,
                as_u64: *as_u64,
                text: text@,
            },
            ArgValue::String(s) => ArgView::String(s@),
            ArgValue::Composite { text } => ArgView::Composite { text: text@ },
        }
    }
}

pub open spec fn args_view(m: Seq<(String, ArgValue)>) -> Seq<(Seq<char>, ArgView)> {
    m.map_values(|e: (String, ArgValue)| (e.0@, e.1@))
}

/// The first entry named `name`.
pub open spec fn lookup<V>(m: Seq<(Seq<char>, V)>, name: Seq<char>) -> Option<V>
    decreases m.len(),
{
    if m.len() == 0 {
        None
    } else if m[0].0 == name {
        Some(m[0].1)
    } else {
        lookup(m.drop_first(), name)
    }
}

/// How a non-string value is written on a command line: its JSON text.
pub open spec fn value_text(v: ArgView) -> Seq<char> {
    match v {
        ArgView::Null => "null"@,
        ArgView::Bool(b) => if b {
            "true"@
        } else {
            "false"@
        },
        ArgView::Number { text, .. } => text,
        ArgView::String(s) => s,
        ArgView::Composite { text } => text,
    }
}

/// Whether a flag-only parameter is switched on by `v`: a boolean as is, a
/// number when its `i64` value is non-zero, a string unless (trimmed, lower
/// case) it is empty, `false`, `0`, `no` or `off`, and anything else.
pub open spec fn truthy(v: ArgView) -> bool {
    match v {
        ArgView::Bool(b) => b,
        ArgView::Number { as_i64, .. } => match as_i64 {
            Some(n) => n != 0,
            None => false,
        },
        ArgView::String(s) => {
            let t = trimmed_lower(s);
            !(t.len() == 0 || t == "false"@ || t == "0"@ || t == "no"@ || t == "off"@)
        },
        _ => true,
    }
}

pub open spec fn unknown_parameter_message(name: Seq<char>) -> Seq<char> {
    "Tool configuration error: arg_order references unknown parameter: "@ + name
}

pub open spec fn missing_parameter_message(name: Seq<char>) -> Seq<char> {
    "Missing required parameter: "@ + name
}

/// The command-line words for parameter `name`, given the call's arguments.
pub open spec fn emit_param(
    params: Seq<(Seq<char>, ParameterView)>,
    args: Seq<(Seq<char>, ArgView)>,
    name: Seq<char>,
) -> Result<Seq<Seq<char>>, Seq<char>> {
    match lookup(params, name) {
        None => Err(unknown_parameter_message(name)),
        Some(p) => match lookup(args, name) {
            None => if p.required {
                Err(missing_parameter_message(name))
            } else {
                Ok(seq![])
            },
            Some(v) => match p.flag {
                Some(f) => if p.takes_value {
                    Ok(seq![f, value_text(v)])
                } else if truthy(v) {
                    Ok(seq![f])
                } else {
                    Ok(seq![])
                },
                None => match v {
                    ArgView::String(s) => if p.split_args {
                        match spec_shell_args(s) {
                            Some(words) => Ok(words),
                            None => Err(unclosed_quote_message(s)),
                        }
                    } else {
                        Ok(seq![s])
                    },
                    _ => Ok(seq![value_text(v)]),
                },
            },
        },
    }
}

/// A flag-only parameter given a JSON boolean puts its flag on the command
/// line exactly when the boolean is true, and nothing else.
pub proof fn lemma_flag_follows_boolean(
    params: Seq<(Seq<char>, ParameterView)>,
    args: Seq<(Seq<char>, ArgView)>,
    name: Seq<char>,
    flag: Seq<char>,
    b: bool,
)
    requires
        lookup(params, name) is Some,
        lookup(params, name)->0.flag == Some(flag),
        !lookup(params, name)->0.takes_value,
        lookup(args, name) == Some(ArgView::Bool(b)),
    ensures
        b ==> emit_param(params, args, name) == Ok::<Seq<Seq<char>>, Seq<char>>(seq![flag]),
        !b ==> emit_param(params, args, name) == Ok::<Seq<Seq<char>>, Seq<char>>(seq![]),
{
}

/// A flag-only parameter given a number puts its flag on the command line
/// exactly when the number is a non-zero integer; given `null`, an array or
/// an object it always does.
pub proof fn lemma_flag_follows_number(
    params: Seq<(Seq<char>, ParameterView)>,
    args: Seq<(Seq<char>, ArgView)>,
    name: Seq<char>,
    flag: Seq<char>,
)
    requires
        lookup(params, name) is Some,
        lookup(params, name)->0.flag == Some(flag),
        !lookup(params, name)->0.takes_value,
        lookup(args, name) is Some,
    ensures
        (lookup(args, name)->0 matches ArgView::Number { as_i64: Some(n), .. } && n != 0)
            ==> emit_param(params, args, name) == Ok::<Seq<Seq<char>>, Seq<char>>(seq![flag]),
        (lookup(args, name)->0 matches ArgView::Number { as_i64: Some(n), .. } && n == 0)
            ==> emit_param(params, args, name) == Ok::<Seq<Seq<char>>, Seq<char>>(seq![]),
        lookup(args, name)->0 matches ArgView::Number { as_i64: None, .. } ==> emit_param(
            params,
            args,
            name,
        ) == Ok::<Seq<Seq<char>>, Seq<char>>(seq![]),
        (lookup(args, name)->0 is Null || lookup(args, name)->0 is Composite) ==> emit_param(
            params,
            args,
            name,
        ) == Ok::<Seq<Seq<char>>, Seq<char>>(seq![flag]),
{
}

/// A flag parameter that takes a value puts the flag and then the value's
/// text on the command line; a boolean's text is `true` or `false`.
pub proof fn lemma_flag_with_value(
    params: Seq<(Seq<char>, ParameterView)>,
    args: Seq<(Seq<char>, ArgView)>,
    name: Seq<char>,
    flag: Seq<char>,
)
    requires
        lookup(params, name) is Some,
        lookup(params, name)->0.flag == Some(flag),
        lookup(params, name)->0.takes_value,
        lookup(args, name) is Some,
    ensures
        lookup(args, name)->0 matches ArgView::String(s) ==> emit_param(params, args, name)
            == Ok::<Seq<Seq<char>>, Seq<char>>(seq![flag, s]),
        lookup(args, name)->0 == ArgView::Bool(true) ==> emit_param(params, args, name) == Ok::<
            Seq<Seq<char>>,
            Seq<char>,
        >(seq![flag, "true"@]),
        lookup(args, name)->0 == ArgView::Bool(false) ==> emit_param(params, args, name) == Ok::<
            Seq<Seq<char>>,
            Seq<char>,
        >(seq![flag, "false"@]),
        lookup(args, name)->0 matches ArgView::Number { text, .. } ==> emit_param(
            params,
            args,
            name,
        ) == Ok::<Seq<Seq<char>>, Seq<char>>(seq![flag, text]),
{
}

/// The words for the parameters `order`, one after the other, stopping at the first error.
pub open spec fn emit_all(
    params: Seq<(Seq<char>, ParameterView)>,
    args: Seq<(Seq<char>, ArgView)>,
    order: Seq<Seq<char>>,
) -> Result<Seq<Seq<char>>, Seq<char>>
    decreases order.len(),
{
    if order.len() == 0 {
        Ok(seq![])
    } else {
        match emit_all(params, args, order.drop_last()) {
            Err(e) => Err(e),
            Ok(acc) => match emit_param(params, args, order.last()) {
                Err(e) => Err(e),
                Ok(words) => Ok(acc + words),
            },
        }
    }
}

/// The names of `ps`, in order, leaving out those in `excluded`.
pub open spec fn names_not_in(ps: Seq<(Seq<char>, ParameterView)>, excluded: Seq<Seq<char>>) -> Seq<
    Seq<char>,
>
    decreases ps.len(),
{
    if ps.len() == 0 {
        seq![]
    } else if excluded.contains(ps.last().0) {
        names_not_in(ps.drop_last(), excluded)
    } else {
        names_not_in(ps.drop_last(), excluded).push(ps.last().0)
    }
}

/// The order in which a tool's parameters are put on the command line: the
/// configured `arg_order`, then every other parameter by name.
pub open spec fn param_order(t: ResolvedTool) -> Seq<Seq<char>> {
    strs_view(t.arg_order@) + sort_seqs(names_not_in(params_view(t.parameters@), strs_view(t.arg_order@)))
}

/// The command-line arguments for a call of `t` with arguments `args`.
pub open spec fn spec_tool_args(t: ResolvedTool, args: Seq<(Seq<char>, ArgView)>) -> Result<
    Seq<Seq<char>>,
    Seq<char>,
> {
    emit_all(params_view(t.parameters@), args, param_order(t))
}

fn find_param<'a>(params: &'a Vec<(String, Parameter)>, name: &str) -> (r: Option<&'a Parameter>)
    ensures
        match r {
            Some(p) => lookup(params_view(params@), name@) == Some(p@),
            None => lookup(params_view(params@), name@) is None,
        },
{
    let ghost pv = params_view(params@);
    let mut i: usize = 0;
    proof {
        assert(pv.skip(0) == pv);
    }
    while i < params.len()
        invariant
            pv == params_view(params@),
            i <= params@.len(),
            lookup(pv, name@) == lookup(pv.skip(i as int), name@),
        decreases params@.len() - i,
    {
        proof {
            assert(pv.skip(i as int).drop_first() == pv.skip(i + 1));
            assert(pv.skip(i as int)[0] == (params@[i as int].0@, params@[i as int].1@));
        }
        if str_eq(params[i].0.as_str(), name) {
            return Some(&params[i].1);
        }
        i = i + 1;
    }
    None
}

fn find_arg<'a>(args: &'a Vec<(String, ArgValue)>, name: &str) -> (r: Option<&'a ArgValue>)
    ensures
        match r {
            Some(v) => lookup(args_view(args@), name@) == Some(v@),
            None => lookup(args_view(args@), name@) is None,
        },
{
    let ghost av = args_view(args@);
    let mut i: usize = 0;
    proof {
        assert(av.skip(0) == av);
    }
    while i < args.len()
        invariant
            av == args_view(args@),
            i <= args@.len(),
            lookup(av, name@) == lookup(av.skip(i as int), name@),
        decreases args@.len() - i,
    {
        proof {
            assert(av.skip(i as int).drop_first() == av.skip(i + 1));
            assert(av.skip(i as int)[0] == (args@[i as int].0@, args@[i as int].1@));
        }
        if str_eq(args[i].0.as_str(), name) {
            return Some(&args[i].1);
        }
        i = i + 1;
    }
    None
}

fn value_string(v: &ArgValue) -> (r: String)
    ensures
        r@ == value_text(v@),
{
    match v {
        ArgValue::Null => String::from_str("null"),
        ArgValue::Bool(b) => if *b {
            String::from_str("true")
        } else {
            String::from_str("false")
        },
        ArgValue::Number { text, .. } => text.clone(),
        ArgValue::String(s) => s.clone(),
        ArgValue::Composite { text } => text.clone(),
    }
}

fn is_truthy(v: &ArgValue) -> (r: bool)
    ensures
        r == truthy(v@),
{
    match v {
        ArgValue::Bool(b) => *b,
        ArgValue::Number { as_i64, .. } => match as_i64 {
            Some(n) => *n != 0,
            None => false,
        },
        ArgValue::String(s) => {
            let t = trim_lowercase(s.as_str());
            let t = t.as_str();
            !(t.is_empty() || str_eq(t, "false") || str_eq(t, "0") || str_eq(t, "no") || str_eq(
                t,
                "off",
            ))
        },
        _ => true,
    }
}

fn append_words(out: &mut Vec<String>, words: Vec<String>)
    ensures
        strs_view(final(out)@) == strs_view(old(out)@) + strs_view(words@),
{
    let ghost start = strs_view(out@);
    let mut i: usize = 0;
    while i < words.len()
        invariant
            i <= words@.len(),
            strs_view(out@) == start + strs_view(words@.take(i as int)),
        decreases words@.len() - i,
    {
        let ghost prev = out@;
        out.push(words[i].clone());
        proof {
            assert(strs_view(out@) =~= strs_view(prev).push(words@[i as int]@));
            assert(words@.take(i + 1) == words@.take(i as int).push(words@[i as int]));
            assert(strs_view(words@.take(i + 1)) =~= strs_view(words@.take(i as int)).push(
                words@[i as int]@,
            ));
            assert(strs_view(out@) =~= start + strs_view(words@.take(i + 1)));
        }
        i = i + 1;
    }
    proof {
        assert(words@.take(words@.len() as int) == words@);
    }
}

/// Put the words for parameter `name` at the end of `out`.
fn emit_one(
    params: &Vec<(String, Parameter)>,
    args: &Vec<(String, ArgValue)>,
    name: &str,
    out: &mut Vec<String>,
) -> (res: Result<(), String>)
    ensures
        match emit_param(params_view(params@), args_view(args@), name@) {
            Ok(words) => res is Ok && strs_view(final(out)@) == strs_view(old(out)@) + words,
            Err(msg) => res is Err && res->Err_0@ == msg,
        },
{
    let param = match find_param(params, name) {
        Some(p) => p,
        None => {
            let mut m = String::from_str(
                "Tool configuration error: arg_order references unknown parameter: ",
            );
            m.append(name);
            return Err(m);
        },
    };
    let value = match find_arg(args, name) {
        Some(v) => v,
        None => {
            if param.required {
                let mut m = String::from_str("Missing required parameter: ");
                m.append(name);
                return Err(m);
            }
            proof {
                assert(strs_view(out@) + seq![] =~= strs_view(out@));
            }
            return Ok(());
        },
    };
    let ghost start = strs_view(out@);
    match &param.flag {
        Some(flag) => {
            if param.takes_value {
                out.push(flag.clone());
                out.push(value_string(value));
                proof {
                    assert(strs_view(out@) =~= start + seq![flag@, value_text(value@)]);
                }
            } else if is_truthy(value) {
                out.push(flag.clone());
                proof {
                    assert(strs_view(out@) =~= start + seq![flag@]);
                }
            } else {
                proof {
                    assert(strs_view(out@) =~= start + seq![]);
                }
            }
        },
        None => {
            match value {
                ArgValue::String(s) => {
                    if param.split_args {
                        match parse_shell_args(s.as_str()) {
                            Ok(words) => {
                                append_words(out, words);
                            },
                            Err(msg) => {
                                return Err(msg);
                            },
                        }
                    } else {
                        out.push(s.clone());
                        proof {
                            assert(strs_view(out@) =~= start + seq![s@]);
                        }
                    }
                },
                _ => {
                    out.push(value_string(value));
                    proof {
                        assert(strs_view(out@) =~= start + seq![value_text(value@)]);
                    }
                },
            }
        },
    }
    Ok(())
}

/// The command-line arguments for calling `tool` with `args`: the parameters
/// of `arg_order` in that order, then the remaining parameters sorted by name,
/// each emitted as its flag and/or value (see [`emit_param`]). Fails with a
/// message on the first unknown name in `arg_order`, missing required
/// parameter, or unclosed quote in a value that is split.
pub fn build_tool_args(tool: &ResolvedTool, args: &Vec<(String, ArgValue)>) -> (res: Result<Vec<String>, String>)
    ensures
        match spec_tool_args(*tool, args_view(args@)) {
            Ok(words) => res is Ok && strs_view(res->Ok_0@) == words,
            Err(msg) => res is Err && res->Err_0@ == msg,
        },
{
    let ghost params = params_view(tool.parameters@);
    let ghost av = args_view(args@);
    let ghost order = param_order(*tool);
    let ghost first = strs_view(tool.arg_order@);
    let mut remaining: Vec<String> = Vec::new();
    let mut i: usize = 0;
    while i < tool.parameters.len()
        invariant
            params == params_view(tool.parameters@),
            first == strs_view(tool.arg_order@),
            i <= tool.parameters@.len(),
            strs_view(remaining@) == names_not_in(params.take(i as int), first),
        decreases tool.parameters@.len() - i,
    {
        proof {
            assert(params.take(i + 1).drop_last() == params.take(i as int));
            assert(params.take(i + 1).last() == params[i as int]);
        }
        if !contains_name(&tool.arg_order, tool.parameters[i].0.as_str()) {
            remaining.push(tool.parameters[i].0.clone());
            proof {
                assert(strs_view(remaining@) =~= names_not_in(params.take(i as int), first).push(
                    params[i as int].0,
                ));
            }
        }
        i = i + 1;
    }
    proof {
        assert(params.take(tool.parameters@.len() as int) == params);
    }
    let sorted = sort_strings(remaining);
    let mut names: Vec<String> = Vec::new();
    let mut k: usize = 0;
    while k < tool.arg_order.len()
        invariant
            k <= tool.arg_order@.len(),
            strs_view(names@) == strs_view(tool.arg_order@.take(k as int)),
        decreases tool.arg_order@.len() - k,
    {
        names.push(tool.arg_order[k].clone());
        proof {
            let ao = tool.arg_order@;
            assert(ao.take(k + 1) == ao.take(k as int).push(ao[k as int]));
            assert(strs_view(ao.take(k + 1)) =~= strs_view(ao.take(k as int)).push(ao[k as int]@));
        }
        k = k + 1;
    }
    let mut k: usize = 0;
    let ghost base = strs_view(names@);
    proof {
        assert(tool.arg_order@.take(tool.arg_order@.len() as int) == tool.arg_order@);
    }
    while k < sorted.len()
        invariant
            base == first,
            k <= sorted@.len(),
            strs_view(names@) == base + strs_view(sorted@.take(k as int)),
        decreases sorted@.len() - k,
    {
        let ghost prev = names@;
        names.push(sorted[k].clone());
        proof {
            assert(strs_view(names@) =~= strs_view(prev).push(sorted@[k as int]@));
            let so = sorted@;
            assert(so.take(k + 1) == so.take(k as int).push(so[k as int]));
            assert(strs_view(so.take(k + 1)) =~= strs_view(so.take(k as int)).push(so[k as int]@));
            assert(strs_view(names@) =~= base + strs_view(so.take(k + 1)));
        }
        k = k + 1;
    }
    proof {
        assert(sorted@.take(sorted@.len() as int) == sorted@);
        assert(strs_view(sorted@) == sorted@.map_values(|s: String| s@));
        assert(strs_view(remaining@) == remaining@.map_values(|s: String| s@));
        assert(strs_view(names@) == order);
    }
    let mut out: Vec<String> = Vec::new();
    let mut j: usize = 0;
    proof {
        assert(order.take(0) =~= Seq::<Seq<char>>::empty());
        assert(strs_view(out@) =~= Seq::<Seq<char>>::empty());
    }
    while j < names.len()
        invariant
            params == params_view(tool.parameters@),
            av == args_view(args@),
            order == param_order(*tool),
            strs_view(names@) == order,
            j <= names@.len(),
            emit_all(params, av, order.take(j as int)) == Ok::<Seq<Seq<char>>, Seq<char>>(
                strs_view(out@),
            ),
        decreases names@.len() - j,
    {
        proof {
            assert(order.take(j + 1).drop_last() == order.take(j as int));
            assert(order.take(j + 1).last() == names@[j as int]@);
        }
        match emit_one(&tool.parameters, args, names[j].as_str(), &mut out) {
            Ok(()) => {},
            Err(msg) => {
                proof {
                    assert(emit_all(params, av, order.take(j + 1)) == Err::<Seq<Seq<char>>, Seq<char>>(
                        msg@,
                    ));
                    lemma_emit_all_err_prefix(params, av, order, j as int + 1);
                }
                return Err(msg);
            },
        }
        j = j + 1;
    }
    proof {
        assert(order.take(names@.len() as int) == order);
    }
    Ok(out)
}

/// An error in a prefix of the order is the error of the whole order.
proof fn lemma_emit_all_err_prefix(
    params: Seq<(Seq<char>, ParameterView)>,
    args: Seq<(Seq<char>, ArgView)>,
    order: Seq<Seq<char>>,
    n: int,
)
    requires
        0 <= n <= order.len(),
        emit_all(params, args, order.take(n)) is Err,
    ensures
        emit_all(params, args, order) == emit_all(params, args, order.take(n)),
    decreases order.len() - n,
{
    if n < order.len() {
        assert(order.take(n + 1).drop_last() == order.take(n));
        lemma_emit_all_err_prefix(params, args, order, n + 1);
    } else {
        assert(order.take(n) == order);
    }
}


/// How a tool call fails, as the client is told.
#[derive(Debug)]
pub enum CallError {
    /// A tool-level failure the model can react to (unknown tool, failed run).
    Tool(String),
    /// The request's arguments are not acceptable.
    InvalidParams(String),
    /// A fault of the server itself.
    Internal(String),
}

/// The content of a [`CallError`].
pub enum CallErrorView {
    Tool(Seq<char>),
    InvalidParams(Seq<char>),
    Internal(Seq<char>),
}

impl View for CallError {
    type V = CallErrorView;

    open spec fn view(&self) -> CallErrorView {
        match self {
            CallError::Tool(m) => CallErrorView::Tool(m@),
            CallError::InvalidParams(m) => CallErrorView::InvalidParams(m@),
            CallError::Internal(m) => CallErrorView::Internal(m@),
        }
    }
}

/// Everything needed to run a tool once: the command line and its limits.
#[derive(Debug)]
pub struct CallPlan {
    pub command: String,
    pub args: Vec<String>,
    pub timeout_secs: u64,
    pub stop_after_secs: Option<u64>,
    pub termination_signal: TerminationSignal,
    pub termination_grace_period: u64,
    pub output_head_lines: u64,
    pub output_tail_lines: u64,
    pub stderr_lines: u64,
    /// How the outcome is to be returned.
    pub output: OutputFormat,
}

/// The content of a [`CallPlan`].
pub struct CallPlanView {
    pub command: Seq<char>,
    pub args: Seq<Seq<char>>,
    pub timeout_secs: u64,
    pub stop_after_secs: Option<u64>,
    pub termination_signal: TerminationSignal,
    pub termination_grace_period: u64,
    pub output_head_lines: u64,
    pub output_tail_lines: u64,
    pub stderr_lines: u64,
    pub output: OutputFormat,
}

impl View for CallPlan {
    type V = CallPlanView;

    open spec fn view(&self) -> CallPlanView {
        CallPlanView {
            command: self.command@,
            args: strs_view(self.args@),
            timeout_secs: self.timeout_secs,
            stop_after_secs: self.stop_after_secs,
            termination_signal: self.termination_signal,
            termination_grace_period: self.termination_grace_period,
            output_head_lines: self.output_head_lines,
            output_tail_lines: self.output_tail_lines,
            stderr_lines: self.stderr_lines,
            output: self.output,
        }
    }
}

/// The arguments' members, an omitted object counting as empty; `None` when
/// they are not an object.
pub open spec fn call_args_view(a: CallArguments) -> Option<Seq<(Seq<char>, ArgView)>> {
    match a {
        CallArguments::Null => Some(seq![]),
        CallArguments::Object(m) => Some(args_view(m@)),
        CallArguments::Other => None,
    }
}

/// A runtime override given in the arguments: a number that is a `u64`.
pub open spec fn override_arg(args: Seq<(Seq<char>, ArgView)>, name: Seq<char>) -> Option<u64> {
    match lookup(args, name) {
        Some(ArgView::Number { as_u64, .. }) => as_u64,
        _ => None,
    }
}

/// The override if given, else the tool's own value.
pub open spec fn or_default(o: Option<u64>, d: u64) -> u64 {
    match o {
        Some(v) => v,
        None => d,
    }
}

/// The run of `t` with command-line arguments `words`, its limits taken from
/// the overrides in `args` where given and from the tool otherwise; a
/// `stop_after` of 0 means none.
pub open spec fn plan_for(t: ResolvedTool, words: Seq<Seq<char>>, args: Seq<(Seq<char>, ArgView)>) -> CallPlanView {
    CallPlanView {
        command: t.command@,
        args: words,
        timeout_secs: or_default(override_arg(args, "timeout"@), t.timeout),
        stop_after_secs: match override_arg(args, "stop_after"@) {
            Some(v) => Some(v),
            None => if t.stop_after > 0 {
                Some(t.stop_after)
            } else {
                None
            },
        },
        termination_signal: t.termination_signal,
        termination_grace_period: t.termination_grace_period,
        output_head_lines: or_default(override_arg(args, "output_head_lines"@), t.output_head_lines),
        output_tail_lines: or_default(override_arg(args, "output_tail_lines"@), t.output_tail_lines),
        stderr_lines: or_default(override_arg(args, "stderr_lines"@), t.stderr_lines),
        output: t.output,
    }
}

/// The overrides of `args` above `t`'s MAX values, the first one found.
pub open spec fn args_override_problem(t: ResolvedTool, args: Seq<(Seq<char>, ArgView)>) -> Option<
    (Seq<char>, u64, u64),
> {
    override_problem(
        t,
        override_arg(args, "timeout"@),
        override_arg(args, "stop_after"@),
        override_arg(args, "output_head_lines"@),
        override_arg(args, "output_tail_lines"@),
        override_arg(args, "stderr_lines"@),
    )
}

/// What a `tools/call` of `name` with `arguments` comes to, `tool` being the
/// registered tool of that name: an unknown tool is a tool error; arguments
/// that are not an object, a parameter problem or an override above its MAX
/// are invalid parameters; otherwise the run to make.
pub open spec fn spec_plan_call(
    tool: Option<ResolvedTool>,
    name: Seq<char>,
    arguments: Option<Seq<(Seq<char>, ArgView)>>,
) -> Result<CallPlanView, CallErrorView> {
    match tool {
        None => Err(CallErrorView::Tool("Tool not found: "@ + name)),
        Some(t) => match arguments {
            None => Err(CallErrorView::InvalidParams("Arguments must be an object"@)),
            Some(args) => match spec_tool_args(t, args) {
                Err(msg) => Err(CallErrorView::InvalidParams(msg)),
                Ok(words) => match args_override_problem(t, args) {
                    Some((field, value, max)) => Err(
                        CallErrorView::InvalidParams(
                            "MCP protocol error: "@ + override_exceeds_text(field, value, max),
                        ),
                    ),
                    None => Ok(plan_for(t, words, args)),
                },
            },
        },
    }
}

/// `res` seen through the views of its plan or error.
pub open spec fn plan_result_view(res: Result<CallPlan, CallError>) -> Result<CallPlanView, CallErrorView> {
    match res {
        Ok(p) => Ok(p@),
        Err(e) => Err(e@),
    }
}

/// The reply to a tool call.
#[derive(Debug)]
pub enum ReplyBody {
    /// The "Exit code / STDOUT / STDERR" text block.
    Text(String),
    /// The command's stdout, parsed as JSON.
    Json(JsonValue),
}

/// A tool call's reply and whether it reports a failure.
#[derive(Debug)]
pub struct ToolReply {
    pub body: ReplyBody,
    pub is_error: bool,
}

/// `serde_json::Value`, a JSON document as `serde_json` parses it.
#[verifier::external_type_specification]
#[verifier::external_body]
pub struct ExJsonDocument(serde_json::Value);

/// The document `serde_json` reads from `text` (`None` when `text` is not one
/// JSON document), as a [`JsonView`].
pub uninterp spec fn parsed_json(text: Seq<char>) -> Option<JsonView>;

/// Converts a `serde_json::Value` into a [`JsonValue`], variant for variant;
/// a number is kept as its `u64` or `i64` value when it has one and by its
/// JSON text otherwise. Nothing is stated of the result: it is part of what
/// [`parse_json_document`] returns.
#[verifier::external_body]
fn json_from_serde(v: Value) -> JsonValue {
    match v {
        Value::Null => JsonValue::Null,
        Value::Bool(b) => JsonValue::Bool(b),
        Value::Number(n) => JsonValue::Number(match (n.as_u64(), n.as_i64()) {
            (Some(u), _) => JsonNumber::PosInt(u),
            (None, Some(i)) => JsonNumber::NegInt(i),
            (None, None) => JsonNumber::Finite(n.to_string()),
        }),
        Value::String(s) => JsonValue::String(s),
        Value::Array(a) => JsonValue::Array(a.into_iter().map(json_from_serde).collect()),
        Value::Object(m) => JsonValue::Object(
            m.into_iter().map(|(k, x)| (k, json_from_serde(x))).collect(),
        ),
    }
}

/// Calls `serde_json::from_str::<serde_json::Value>` on `text` and converts
/// the document it reads: the result is determined by the text alone, and is
/// `None` exactly when the text is not one JSON document.
#[verifier::external_body]
fn parse_json_document(text: &str) -> (r: Option<JsonValue>)
    ensures
        match r {
            Some(v) => parsed_json(text@) == Some(v@),
            None => parsed_json(text@) is None,
        },
{
    serde_json::from_str::<Value>(text).ok().map(json_from_serde)
}

/// The "Exit code / STDOUT / STDERR" block for a run; an empty stderr reads
/// `(no output)`.
pub open spec fn result_text(r: ExecutionResult) -> Seq<char> {
    "Exit code: "@ + signed_decimal(r.exit_code as int) + "\n\nSTDOUT:\n"@ + r.stdout@ + (
    if r.stderr@.len() == 0 {
        "\n\nSTDERR:\n(no output)"@
    } else {
        "\n\nSTDERR:\n"@ + r.stderr@
    })
}

/// A run failed when it exited non-zero, unless `stop_after` ended it.
pub open spec fn run_failed(r: ExecutionResult) -> bool {
    r.exit_code != 0 && !r.stopped_after
}

/// The text block for `result`, flagged as an error when the run failed.
pub fn text_reply(result: &ExecutionResult) -> (reply: ToolReply)
    ensures
        reply.body matches ReplyBody::Text(t) && t@ == result_text(*result),
        reply.is_error == run_failed(*result),
{
    let mut text = String::from_str("Exit code: ");
    let code = i64_to_string(result.exit_code as i64);
    text.append(code.as_str());
    text.append("\n\nSTDOUT:\n");
    text.append(result.stdout.as_str());
    if result.stderr.as_str().is_empty() {
        text.append("\n\nSTDERR:\n(no output)");
    } else {
        text.append("\n\nSTDERR:\n");
        text.append(result.stderr.as_str());
    }
    ToolReply { body: ReplyBody::Text(text), is_error: result.exit_code != 0 && !result.stopped_after }
}

/// The reply for a finished run, `parsed` being its stdout read as JSON where
/// that succeeded: in JSON mode a successful run whose stdout parsed is
/// returned as that document; anything else as the text block.
pub fn reply_for(output: OutputFormat, result: &ExecutionResult, parsed: Option<JsonValue>) -> (reply: ToolReply)
    ensures
        (output == OutputFormat::Json && !run_failed(*result) && parsed is Some) ==> (
        reply.body matches ReplyBody::Json(d) && d@ == parsed->0@ && !reply.is_error),
        !(output == OutputFormat::Json && !run_failed(*result) && parsed is Some) ==> (
        reply.body matches ReplyBody::Text(t) && t@ == result_text(*result) && reply.is_error
            == run_failed(*result)),
{
    let is_error = result.exit_code != 0 && !result.stopped_after;
    if output == OutputFormat::Json && !is_error {
        if let Some(doc) = parsed {
            return ToolReply { body: ReplyBody::Json(doc), is_error: false };
        }
    }
    text_reply(result)
}

/// The reply to a tool call whose run ended with `outcome`: a run that could
/// not be completed is a tool error carrying the error's message; otherwise
/// the reply of [`reply_for`], stdout being parsed as JSON only in JSON mode
/// for a run that did not fail.
pub fn finish_tool_call(output: OutputFormat, outcome: Result<ExecutionResult, ExecutionError>) -> (res: Result<ToolReply, CallError>)
    ensures
        match outcome {
            Err(e) => res matches Err(CallError::Tool(m)) && m@ == gen_mcp_error_text(
                GenMcpError::Execution(e),
            ),
            Ok(r) => res matches Ok(reply) && (if output == OutputFormat::Json && !run_failed(r)
                && parsed_json(r.stdout@) is Some {
                reply.body matches ReplyBody::Json(d) && Some(d@) == parsed_json(r.stdout@)
                    && !reply.is_error
            } else {
                reply.body matches ReplyBody::Text(t) && t@ == result_text(r) && reply.is_error
                    == run_failed(r)
            }),
        },
{
    match outcome {
        Err(e) => {
            let err = GenMcpError::Execution(e);
            Err(CallError::Tool(err.message()))
        },
        Ok(result) => {
            let is_error = result.exit_code != 0 && !result.stopped_after;
            let parsed = if output == OutputFormat::Json && !is_error {
                parse_json_document(result.stdout.as_str())
            } else {
                None
            };
            Ok(reply_for(output, &result, parsed))
        },
    }
}

/// The `outcome` label of the `command.execute` metric for one run.
#[derive(Clone, Copy, Debug, PartialEq, Eq, Structural)]
pub enum RunOutcome {
    /// The command exited with code 0.
    Success,
    /// The command exited with another code.
    NonzeroExit,
    /// The `stop_after` budget ended the command.
    StoppedAfter,
    /// The command outlived its timeout.
    Timeout,
    /// The command could not be started.
    CommandNotFound,
    /// Any other failure of the run.
    Failure,
}

/// The label text of each outcome.
pub open spec fn outcome_label(o: RunOutcome) -> Seq<char> {
    match o {
        RunOutcome::Success => "ok"@,
        RunOutcome::NonzeroExit => "nonzero_exit"@,
        RunOutcome::StoppedAfter => "stopped_after"@,
        RunOutcome::Timeout => "timeout"@,
        RunOutcome::CommandNotFound => "command_not_found"@,
        RunOutcome::Failure => "error"@,
    }
}

/// The outcome of a run that ended with `outcome`: a run the `stop_after`
/// budget ended is `StoppedAfter` whatever its exit code; otherwise a
/// finished run is `Success` or `NonzeroExit` by its exit code, and a failed run is
/// named by its error.
pub open spec fn run_outcome_of(outcome: Result<ExecutionResult, ExecutionError>) -> RunOutcome {
    match outcome {
        Ok(r) => if r.stopped_after {
            RunOutcome::StoppedAfter
        } else if r.exit_code != 0 {
            RunOutcome::NonzeroExit
        } else {
            RunOutcome::Success
        },
        Err(ExecutionError::Timeout { .. }) => RunOutcome::Timeout,
        Err(ExecutionError::CommandNotFound(_)) => RunOutcome::CommandNotFound,
        Err(ExecutionError::StoppedAfter { .. }) => RunOutcome::StoppedAfter,
        Err(_) => RunOutcome::Failure,
    }
}

impl RunOutcome {
    /// The label text, as the metric carries it.
    pub fn label(&self) -> (r: &'static str)
        ensures
            r@ == outcome_label(*self),
    {
        match self {
            RunOutcome::Success => "ok",
            RunOutcome::NonzeroExit => "nonzero_exit",
            RunOutcome::StoppedAfter => "stopped_after",
            RunOutcome::Timeout => "timeout",
            RunOutcome::CommandNotFound => "command_not_found",
            RunOutcome::Failure => "error",
        }
    }
}

/// The `command.execute` outcome of a run that ended with `outcome` (see
/// [`run_outcome_of`]). A finished run counts as `NonzeroExit` exactly when
/// [`finish_tool_call`] flags its reply as an error.
pub fn run_outcome(outcome: &Result<ExecutionResult, ExecutionError>) -> (r: RunOutcome)
    ensures
        r == run_outcome_of(*outcome),
        *outcome matches Ok(res) ==> (r == RunOutcome::NonzeroExit <==> run_failed(res)),
{
    match outcome {
        Ok(res) => if res.stopped_after {
            RunOutcome::StoppedAfter
        } else if res.exit_code != 0 {
            RunOutcome::NonzeroExit
        } else {
            RunOutcome::Success
        },
        Err(ExecutionError::Timeout { .. }) => RunOutcome::Timeout,
        Err(ExecutionError::CommandNotFound(_)) => RunOutcome::CommandNotFound,
        Err(ExecutionError::StoppedAfter { .. }) => RunOutcome::StoppedAfter,
        Err(_) => RunOutcome::Failure,
    }
}

/// The gen-mcp MCP service: a tool registry built from the loaded config.
/// The tool set is static for a given config.
#[derive(Debug)]
pub struct GenMcpService {
    tool_registry: ToolRegistry,
}

impl GenMcpService {
    /// The registry the service answers from.
    pub closed spec fn registry(&self) -> ToolRegistry {
        self.tool_registry
    }

    /// Build the service from a parsed [`Config`]: it fails as
    /// [`ToolRegistry::from_config`] does.
    pub fn new(config: Config) -> (res: Result<GenMcpService, GenMcpError>)
        ensures
            match res {
                Ok(svc) => registry_built_from(config, Ok(svc.registry())),
                Err(e) => registry_built_from(config, Err(e)),
            },
    {
        match ToolRegistry::from_config(&config) {
            Ok(tool_registry) => Ok(GenMcpService { tool_registry }),
            Err(e) => Err(e),
        }
    }

    /// The advertised tool list: one schema per registered tool, in order.
    pub fn tools(&self) -> (r: Vec<McpToolSchema>)
        ensures
            r@.len() == self.registry().tool_list().len(),
            forall|i: int|
                0 <= i < r@.len() ==> {
                    let t = self.registry().tool_list()[i];
                    &&& (#[trigger] r@[i]).name@ == t.full_name@
                    &&& r@[i].description@ == schema_description(t)
                    &&& r@[i].input_schema@ == input_schema_of(t, self.registry().exposes_overrides())
                },
    {
        let all = self.tool_registry.all_tools();
        let mut r: Vec<McpToolSchema> = Vec::new();
        let mut i: usize = 0;
        while i < all.len()
            invariant
                all@ == self.registry().tool_list(),
                i <= all@.len(),
                r@.len() == i,
                forall|j: int|
                    0 <= j < i ==> {
                        let t = self.registry().tool_list()[j];
                        &&& (#[trigger] r@[j]).name@ == t.full_name@
                        &&& r@[j].description@ == schema_description(t)
                        &&& r@[j].input_schema@ == input_schema_of(
                            t,
                            self.registry().exposes_overrides(),
                        )
                    },
            decreases all@.len() - i,
        {
            let schema = self.tool_registry.generate_tool_schema(&all[i]);
            r.push(schema);
            i = i + 1;
        }
        r
    }

    /// Turn a `tools/call` of `name` with `arguments` into the run to make, or
    /// the error to answer (see [`spec_plan_call`]).
    pub fn plan_tool_call(&self, name: &str, arguments: &CallArguments) -> (res: Result<CallPlan, CallError>)
        ensures
            self.registry().well_formed(),
            plan_result_view(res) == spec_plan_call(
                tool_named(self.registry().tool_list(), name@),
                name@,
                call_args_view(*arguments),
            ),
    {
        proof {
            use_type_invariant(&self.tool_registry);
        }
        let tool = match self.tool_registry.get_tool(name) {
            Some(t) => t,
            None => {
                let mut m = String::from_str("Tool not found: ");
                m.append(name);
                return Err(CallError::Tool(m));
            },
        };
        let empty: Vec<(String, ArgValue)> = Vec::new();
        let args = match arguments {
            CallArguments::Null => &empty,
            CallArguments::Object(m) => m,
            CallArguments::Other => {
                return Err(CallError::InvalidParams(String::from_str("Arguments must be an object")));
            },
        };
        proof {
            assert(args_view(empty@) =~= Seq::<(Seq<char>, ArgView)>::empty());
        }
        let words = match build_tool_args(tool, args) {
            Ok(w) => w,
            Err(msg) => {
                return Err(CallError::InvalidParams(msg));
            },
        };
        match plan_with_overrides(&self.tool_registry, tool, words, args) {
            Ok(plan) => Ok(plan),
            Err(e) => {
                let m = e.message();
                Err(CallError::InvalidParams(m))
            },
        }
    }
}

/// The run of `tool` with command-line arguments `words`, its limits taken
/// from the overrides in `args` where given: refused with the first override
/// above its MAX.
pub fn plan_with_overrides(
    registry: &ToolRegistry,
    tool: &ResolvedTool,
    words: Vec<String>,
    args: &Vec<(String, ArgValue)>,
) -> (res: Result<CallPlan, GenMcpError>)
    ensures
        match args_override_problem(*tool, args_view(args@)) {
            Some((f, v, mx)) => res matches Err(
                GenMcpError::Mcp(crate::error::McpError::OverrideExceedsMax { field, value, max }),
            ) && field@ == f && value == v && max == mx,
            None => res matches Ok(p) && p@ == plan_for(*tool, strs_view(words@), args_view(args@)),
        },
{
    let timeout = override_value(args, "timeout");
    let stop_after = override_value(args, "stop_after");
    let output_head_lines = override_value(args, "output_head_lines");
    let output_tail_lines = override_value(args, "output_tail_lines");
    let stderr_lines = override_value(args, "stderr_lines");
    match registry.validate_runtime_overrides(
        tool,
        timeout,
        stop_after,
        output_head_lines,
        output_tail_lines,
        stderr_lines,
    ) {
        Ok(()) => {},
        Err(e) => {
            return Err(e);
        },
    }
    let stop_after_secs = match stop_after {
        Some(v) => Some(v),
        None => if tool.stop_after > 0 {
            Some(tool.stop_after)
        } else {
            None
        },
    };
    Ok(
        CallPlan {
            command: tool.command.clone(),
            args: words,
            timeout_secs: unwrap_or(timeout, tool.timeout),
            stop_after_secs,
            termination_signal: tool.termination_signal,
            termination_grace_period: tool.termination_grace_period,
            output_head_lines: unwrap_or(output_head_lines, tool.output_head_lines),
            output_tail_lines: unwrap_or(output_tail_lines, tool.output_tail_lines),
            stderr_lines: unwrap_or(stderr_lines, tool.stderr_lines),
            output: tool.output,
        },
    )
}

fn unwrap_or(o: Option<u64>, d: u64) -> (r: u64)
    ensures
        r == or_default(o, d),
{
    match o {
        Some(v) => v,
        None => d,
    }
}

/// The runtime override `name` of a call: its value when it is a `u64` number.
fn override_value(args: &Vec<(String, ArgValue)>, name: &str) -> (r: Option<u64>)
    ensures
        r == override_arg(args_view(args@), name@),
{
    match find_arg(args, name) {
        Some(ArgValue::Number { as_u64, .. }) => *as_u64,
        _ => None,
    }
}


/// A run planned for a registered tool never exceeds the tool's MAX values:
/// the overrides that were accepted lie within them, and so do the tool's own
/// defaults. An accepted override is used as given.
pub proof fn lemma_planned_run_within_max(
    reg: ToolRegistry,
    name: Seq<char>,
    arguments: Option<Seq<(Seq<char>, ArgView)>>,
)
    requires
        reg.well_formed(),
        spec_plan_call(tool_named(reg.tool_list(), name), name, arguments) is Ok,
    ensures
        ({
            let t = tool_named(reg.tool_list(), name)->0;
            let args = arguments->0;
            let p = spec_plan_call(tool_named(reg.tool_list(), name), name, arguments)->Ok_0;
            &&& p.timeout_secs <= t.timeout_max
            &&& (p.stop_after_secs matches Some(s) ==> s <= t.stop_after_max)
            &&& p.output_head_lines <= t.output_head_lines_max
            &&& p.output_tail_lines <= t.output_tail_lines_max
            &&& p.stderr_lines <= t.stderr_lines_max
            &&& (override_arg(args, "timeout"@) matches Some(v) ==> p.timeout_secs == v)
            &&& (override_arg(args, "stop_after"@) matches Some(v) ==> p.stop_after_secs == Some(v))
            &&& (override_arg(args, "output_head_lines"@) matches Some(v) ==> p.output_head_lines == v)
            &&& (override_arg(args, "output_tail_lines"@) matches Some(v) ==> p.output_tail_lines == v)
            &&& (override_arg(args, "stderr_lines"@) matches Some(v) ==> p.stderr_lines == v)
        }),
{
    let ts = reg.tool_list();
    let t = tool_named(ts, name)->0;
    let i = choose|i: int| 0 <= i < ts.len() && (#[trigger] ts[i]).full_name@ == name;
    assert(ts[i] == t);
    assert(crate::config::limits_consistent(ts[i]));
}

} // verus!
