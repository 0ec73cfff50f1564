//! Core of a tool-using agent.
//!
//! - [`agent`]: the turn loop as a state machine. A query starts with
//!   `Agent::begin_query`; the caller performs each returned action (invoke
//!   the provider, wait, run a tool handler) and hands the outcome back to
//!   `on_completion` or `on_tool_result`. Retries, tool-call ordering, the
//!   explicit completion signal and the iteration limit are decided here.
//! - [`schema`] and [`tools`]: parameter schemas and the checks that run before
//!   any tool handler.
//! - [`deps`]: the dependency registry handed to tool handlers, with merging in
//!   which overrides win.
//! - [`scripted`]: a provider answering from a script, and a whole query run
//!   against it without I/O.
//! - [`sandbox`] and [`todos`]: the path rules and the todo list of the
//!   built-in coding tools.
use vstd::prelude::*;

pub mod text;
pub mod json;
pub mod error;
pub mod schema;
pub mod deps;
pub mod model;
pub mod tools;
pub mod retry;
pub mod agent;
pub mod scripted;
pub mod sandbox;
pub mod todos;

pub use agent::{Agent, AgentBuilder, AgentConfig, AgentEvent, AgentRole, AgentToolChoice, StepStatus};
pub use deps::DependencyMap;
pub use error::{AgentError, ProviderError, SchemaError, ToolError};
pub use model::{ModelCompletion, ModelMessage, ModelToolCall, ModelToolChoice, ModelToolDefinition, ModelUsage};
pub use tools::{ToolOutcome, ToolSpec};

verus! {

} // verus!
