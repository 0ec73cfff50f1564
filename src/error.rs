//! Errors of schema registration, tool execution, providers and runs.
use vstd::prelude::*;
use vstd::string::*;
use crate::text::{decimal, push_decimal};

verus! {

/// A tool's parameter schema is malformed.
#[derive(Debug, Clone, Copy, PartialEq, Eq, Structural)]
pub enum SchemaError {
    SchemaNotObject,
    RootTypeMustBeObject,
    InvalidRequired,
}

/// A tool could not run; rendered into the conversation, never fatal.
#[derive(Debug)]
pub enum ToolError {
    NotFound(String),
    InvalidArguments { tool: String, message: String },
    MissingDependency(String),
    Execution(String),
    Schema(SchemaError),
}

/// A provider call failed: `Request` may be retried, `Response` may not.
#[derive(Debug)]
pub enum ProviderError {
    Request(String),
    Response(String),
}

/// A run failed.
#[derive(Debug)]
pub enum AgentError {
    Tool(ToolError),
    Provider(ProviderError),
    MaxIterationsReached { max_iterations: u32 },
    MissingFinalResponse,
    Config(String),
}

/// The message of a schema error.
pub open spec fn schema_error_text(e: SchemaError) -> Seq<char> {
    match e {
        SchemaError::SchemaNotObject => "tool schema must be a JSON object"@,
        SchemaError::RootTypeMustBeObject => "tool schema must declare type=object"@,
        SchemaError::InvalidRequired => "required must be an array of strings"@,
    }
}

/// The message of a tool error.
pub open spec fn tool_error_text(e: ToolError) -> Seq<char> {
    match e {
        ToolError::NotFound(n) => "tool not found: "@ + n@,
        ToolError::InvalidArguments { tool, message } => "invalid tool arguments for "@ + tool@
            + ": "@ + message@,
        ToolError::MissingDependency(n) => "dependency missing: "@ + n@,
        ToolError::Execution(m) => "tool execution failed: "@ + m@,
        ToolError::Schema(s) => schema_error_text(s),
    }
}

/// The message of a provider error.
pub open spec fn provider_error_text(e: ProviderError) -> Seq<char> {
    match e {
        ProviderError::Request(m) => "provider request failed: "@ + m@,
        ProviderError::Response(m) => "provider response invalid: "@ + m@,
    }
}

/// The message of a run error.
pub open spec fn agent_error_text(e: AgentError) -> Seq<char> {
    match e {
        AgentError::Tool(t) => tool_error_text(t),
        AgentError::Provider(p) => provider_error_text(p),
        AgentError::MaxIterationsReached { max_iterations } => "max iterations reached ("@
            + decimal(max_iterations as nat) + ")"@,
        AgentError::MissingFinalResponse => "agent stream ended without final response"@,
        AgentError::Config(m) => "agent configuration error: "@ + m@,
    }
}

impl SchemaError {
    /// The message of this error.
    pub fn message(&self) -> (r: String)
        ensures
            r@ == schema_error_text(*self),
    {
        match self {
            SchemaError::SchemaNotObject => String::from_str("tool schema must be a JSON object"),
            SchemaError::RootTypeMustBeObject => String::from_str(
                "tool schema must declare type=object",
            ),
            SchemaError::InvalidRequired => String::from_str("required must be an array of strings"),
        }
    }
}

impl ToolError {
    /// The message of this error.
    pub fn message(&self) -> (r: String)
        ensures
            r@ == tool_error_text(*self),
    {
        match self {
            ToolError::NotFound(n) => String::from_str("tool not found: ").concat(n.as_str()),
            ToolError::InvalidArguments { tool, message } => String::from_str(
                "invalid tool arguments for ",
            ).concat(tool.as_str()).concat(": ").concat(message.as_str()),
            ToolError::MissingDependency(n) => String::from_str("dependency missing: ").concat(
                n.as_str(),
            ),
            ToolError::Execution(m) => String::from_str("tool execution failed: ").concat(m.as_str()),
            ToolError::Schema(s) => s.message(),
        }
    }
}

impl ProviderError {
    /// The message of this error.
    pub fn message(&self) -> (r: String)
        ensures
            r@ == provider_error_text(*self),
    {
        match self {
            ProviderError::Request(m) => String::from_str("provider request failed: ").concat(
                m.as_str(),
            ),
            ProviderError::Response(m) => String::from_str("provider response invalid: ").concat(
                m.as_str(),
            ),
        }
    }
}

impl AgentError {
    /// The message of this error.
    pub fn message(&self) -> (r: String)
        ensures
            r@ == agent_error_text(*self),
    {
        match self {
            AgentError::Tool(t) => t.message(),
            AgentError::Provider(p) => p.message(),
            AgentError::MaxIterationsReached { max_iterations } => {
                let mut s = String::from_str("max iterations reached (");
                push_decimal(&mut s, *max_iterations as u64);
                s.append(")");
                s
            },
            AgentError::MissingFinalResponse => String::from_str(
                "agent stream ended without final response",
            ),
            AgentError::Config(m) => String::from_str("agent configuration error: ").concat(
                m.as_str(),
            ),
        }
    }
}

} // verus!
