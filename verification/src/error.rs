//! The library's errors and their messages.

use vstd::prelude::*;
use crate::text::{decimal, u64_to_string};

verus! {

/// Errors of the library, by the part that raises them.
#[derive(Debug)]
pub enum GenMcpError {
    /// Configuration parsing or validation errors
    Config(ConfigError),
    /// Command execution errors
    Execution(ExecutionError),
    /// MCP protocol errors
    Mcp(McpError),
    /// Tool registry errors
    ToolRegistry(ToolRegistryError),
}

/// Configuration-related errors
#[derive(Debug)]
pub enum ConfigError {
    /// The TOML text could not be parsed; holds the parser's message.
    ParseToml(String),
    /// Missing required field
    MissingField(String),
    /// Invalid field value
    InvalidValue { field: String, message: String },
    /// File not found
    FileNotFound(String),
    /// Invalid timeout value
    InvalidTimeout(u64),
    /// Invalid MAX value (MAX must be >= default)
    InvalidMax { field: String, default: u64, max: u64 },
    /// Invalid signal name
    InvalidSignal(String),
    /// Duplicate tool name
    DuplicateToolName(String),
}

/// Command execution errors
#[derive(Debug)]
pub enum ExecutionError {
    /// Command execution failed
    CommandFailed { command: String, exit_code: Option<i32>, stderr: String },
    /// Command timeout
    Timeout { command: String, timeout: u64 },
    /// Process was stopped after stop_after duration (a success, kept for completeness)
    StoppedAfter { command: String, duration: u64 },
    /// Failed to send termination signal
    SignalFailed(String),
    /// Command not found
    CommandNotFound(String),
    /// Permission denied
    PermissionDenied(String),
    /// Invalid arguments
    InvalidArguments(String),
}

/// MCP-domain errors raised while preparing or answering a request.
#[derive(Debug)]
pub enum McpError {
    /// Runtime override exceeds MAX value
    OverrideExceedsMax { field: String, value: u64, max: u64 },
    /// The requested tool is not registered
    ToolNotFound(String),
    /// The arguments of a tool call are not acceptable
    InvalidToolParameters(String),
    /// The client asked for a protocol version this server does not speak
    InvalidProtocolVersion(String),
}

/// Tool registry errors
#[derive(Debug)]
pub enum ToolRegistryError {
    /// Tool already registered
    DuplicateTool(String),
    /// Tool not found in registry
    ToolNotFound(String),
    /// Invalid tool configuration
    InvalidConfig(String),
}

/// Failures of the message transports and of their authentication.
#[derive(Debug)]
pub enum TransportError {
    /// A framed message could not be read as one.
    InvalidMessage(String),
    /// The peer closed the stream.
    ConnectionClosed,
    /// A client could not be authenticated.
    Authentication(String),
}

pub open spec fn transport_error_text(e: TransportError) -> Seq<char> {
    match e {
        TransportError::InvalidMessage(s) => "Invalid message: "@ + s@,
        TransportError::ConnectionClosed => "Connection closed"@,
        TransportError::Authentication(s) => "Authentication failed: "@ + s@,
    }
}

pub open spec fn config_error_text(e: ConfigError) -> Seq<char> {
    match e {
        ConfigError::ParseToml(s) => "Failed to parse TOML: "@ + s@,
        ConfigError::MissingField(s) => "Missing required field: "@ + s@,
        ConfigError::InvalidValue { field, message } => "Invalid value for field '"@ + field@
            + "': "@ + message@,
        ConfigError::FileNotFound(s) => "Configuration file not found: "@ + s@,
        ConfigError::InvalidTimeout(n) => "Invalid timeout value: "@ + decimal(n as nat)
            + " seconds (must be positive)"@,
        ConfigError::InvalidMax { field, default, max } => "Invalid MAX value for '"@ + field@
            + "': MAX ("@ + decimal(max as nat) + ") must be >= default ("@ + decimal(
            default as nat,
        ) + ")"@,
        ConfigError::InvalidSignal(s) => "Invalid termination signal: "@ + s@
            + " (must be SIGTERM or SIGINT)"@,
        ConfigError::DuplicateToolName(s) => "Duplicate tool name: "@ + s@,
    }
}

pub open spec fn execution_error_text(e: ExecutionError) -> Seq<char> {
    match e {
        ExecutionError::CommandFailed { command, .. } => "Command execution failed: "@ + command@,
        ExecutionError::Timeout { command, timeout } => "Command timed out after "@ + decimal(
            timeout as nat,
        ) + " seconds: "@ + command@,
        ExecutionError::StoppedAfter { command, duration } => "Process stopped after "@
            + decimal(duration as nat) + " seconds: "@ + command@,
        ExecutionError::SignalFailed(s) => "Failed to send termination signal to process: "@
            + s@,
        ExecutionError::CommandNotFound(s) => "Command not found: "@ + s@,
        ExecutionError::PermissionDenied(s) => "Permission denied executing command: "@ + s@,
        ExecutionError::InvalidArguments(s) => "Invalid arguments for command: "@ + s@,
    }
}

/// The message of an override above its MAX.
pub open spec fn override_exceeds_text(field: Seq<char>, value: u64, max: u64) -> Seq<char> {
    "Runtime override '"@ + field + "' ("@ + decimal(value as nat) + ") exceeds MAX value ("@
        + decimal(max as nat) + ")"@
}

pub open spec fn mcp_error_text(e: McpError) -> Seq<char> {
    match e {
        McpError::OverrideExceedsMax { field, value, max } => override_exceeds_text(
            field@,
            value,
            max,
        ),
        McpError::ToolNotFound(s) => "Tool not found: "@ + s@,
        McpError::InvalidToolParameters(s) => "Invalid tool parameters: "@ + s@,
        McpError::InvalidProtocolVersion(s) => "Invalid protocol version: "@ + s@,
    }
}

pub open spec fn registry_error_text(e: ToolRegistryError) -> Seq<char> {
    match e {
        ToolRegistryError::DuplicateTool(s) => "Tool already registered: "@ + s@,
        ToolRegistryError::ToolNotFound(s) => "Tool not found in registry: "@ + s@,
        ToolRegistryError::InvalidConfig(s) => "Invalid tool configuration: "@ + s@,
    }
}

pub open spec fn gen_mcp_error_text(e: GenMcpError) -> Seq<char> {
    match e {
        GenMcpError::Config(c) => "Configuration error: "@ + config_error_text(c),
        GenMcpError::Execution(x) => "Execution error: "@ + execution_error_text(x),
        GenMcpError::Mcp(m) => "MCP protocol error: "@ + mcp_error_text(m),
        GenMcpError::ToolRegistry(r) => "Tool registry error: "@ + registry_error_text(r),
    }
}

/// `head` followed by `tail`.
fn text2(head: &str, tail: &str) -> (r: String)
    ensures
        r@ == head@ + tail@,
{
    let mut r = String::from_str(head);
    r.append(tail);
    r
}

fn text3(a: &str, b: &str, c: &str) -> (r: String)
    ensures
        r@ == a@ + b@ + c@,
{
    let mut r = String::from_str(a);
    r.append(b);
    r.append(c);
    r
}

impl ConfigError {
    /// The error's message, as it is displayed.
    pub fn message(&self) -> (r: String)
        ensures
            r@ == config_error_text(*self),
    {
        match self {
            ConfigError::ParseToml(s) => text2("Failed to parse TOML: ", s.as_str()),
            ConfigError::MissingField(s) => text2("Missing required field: ", s.as_str()),
            ConfigError::InvalidValue { field, message } => {
                let mut r = text3("Invalid value for field '", field.as_str(), "': ");
                r.append(message.as_str());
                r
            },
            ConfigError::FileNotFound(s) => text2("Configuration file not found: ", s.as_str()),
            ConfigError::InvalidTimeout(n) => {
                let d = u64_to_string(*n);
                text3("Invalid timeout value: ", d.as_str(), " seconds (must be positive)")
            },
            ConfigError::InvalidMax { field, default, max } => {
                let mut r = text3("Invalid MAX value for '", field.as_str(), "': MAX (");
                let m = u64_to_string(*max);
                let d = u64_to_string(*default);
                r.append(m.as_str());
                r.append(") must be >= default (");
                r.append(d.as_str());
                r.append(")");
                r
            },
            ConfigError::InvalidSignal(s) => text3(
                "Invalid termination signal: ",
                s.as_str(),
                " (must be SIGTERM or SIGINT)",
            ),
            ConfigError::DuplicateToolName(s) => text2("Duplicate tool name: ", s.as_str()),
        }
    }
}

impl ExecutionError {
    /// The error's message, as it is displayed.
    pub fn message(&self) -> (r: String)
        ensures
            r@ == execution_error_text(*self),
    {
        match self {
            ExecutionError::CommandFailed { command, .. } => text2(
                "Command execution failed: ",
                command.as_str(),
            ),
            ExecutionError::Timeout { command, timeout } => {
                let d = u64_to_string(*timeout);
                let mut r = text3("Command timed out after ", d.as_str(), " seconds: ");
                r.append(command.as_str());
                r
            },
            ExecutionError::StoppedAfter { command, duration } => {
                let d = u64_to_string(*duration);
                let mut r = text3("Process stopped after ", d.as_str(), " seconds: ");
                r.append(command.as_str());
                r
            },
            ExecutionError::SignalFailed(s) => text2(
                "Failed to send termination signal to process: ",
                s.as_str(),
            ),
            ExecutionError::CommandNotFound(s) => text2("Command not found: ", s.as_str()),
            ExecutionError::PermissionDenied(s) => text2(
                "Permission denied executing command: ",
                s.as_str(),
            ),
            ExecutionError::InvalidArguments(s) => text2(
                "Invalid arguments for command: ",
                s.as_str(),
            ),
        }
    }
}

impl McpError {
    /// The error's message, as it is displayed.
    pub fn message(&self) -> (r: String)
        ensures
            r@ == mcp_error_text(*self),
    {
        match self {
            McpError::OverrideExceedsMax { field, value, max } => {
                let mut r = text3("Runtime override '", field.as_str(), "' (");
                let v = u64_to_string(*value);
                let m = u64_to_string(*max);
                r.append(v.as_str());
                r.append(") exceeds MAX value (");
                r.append(m.as_str());
                r.append(")");
                r
            },
            McpError::ToolNotFound(s) => text2("Tool not found: ", s.as_str()),
            McpError::InvalidToolParameters(s) => text2("Invalid tool parameters: ", s.as_str()),
            McpError::InvalidProtocolVersion(s) => text2(
                "Invalid protocol version: ",
                s.as_str(),
            ),
        }
    }
}

impl ToolRegistryError {
    /// The error's message, as it is displayed.
    pub fn message(&self) -> (r: String)
        ensures
            r@ == registry_error_text(*self),
    {
        match self {
            ToolRegistryError::DuplicateTool(s) => text2("Tool already registered: ", s.as_str()),
            ToolRegistryError::ToolNotFound(s) => text2(
                "Tool not found in registry: ",
                s.as_str(),
            ),
            ToolRegistryError::InvalidConfig(s) => text2(
                "Invalid tool configuration: ",
                s.as_str(),
            ),
        }
    }
}

impl TransportError {
    /// The error's message, as it is displayed.
    pub fn message(&self) -> (r: String)
        ensures
            r@ == transport_error_text(*self),
    {
        match self {
            TransportError::InvalidMessage(s) => text2("Invalid message: ", s.as_str()),
            TransportError::ConnectionClosed => String::from_str("Connection closed"),
            TransportError::Authentication(s) => text2("Authentication failed: ", s.as_str()),
        }
    }
}

impl GenMcpError {
    /// The error's message, as it is displayed.
    pub fn message(&self) -> (r: String)
        ensures
            r@ == gen_mcp_error_text(*self),
    {
        match self {
            GenMcpError::Config(c) => {
                let m = c.message();
                text2("Configuration error: ", m.as_str())
            },
            GenMcpError::Execution(x) => {
                let m = x.message();
                text2("Execution error: ", m.as_str())
            },
            GenMcpError::Mcp(e) => {
                let m = e.message();
                text2("MCP protocol error: ", m.as_str())
            },
            GenMcpError::ToolRegistry(e) => {
                let m = e.message();
                text2("Tool registry error: ", m.as_str())
            },
        }
    }
}

} // verus!
