//! The conversation as a provider sees it: messages, tool calls, tool
//! definitions, tool-choice policy and completions.
use vstd::prelude::*;
use crate::json::{Json, copy_json};

verus! {

/// A structured request from the provider to invoke a named tool.
#[derive(Debug)]
pub struct ModelToolCall {
    pub id: String,
    pub name: String,
    pub arguments: Json,
}

/// One entry of the conversation history.
#[derive(Debug)]
pub enum ModelMessage {
    System(String),
    User(String),
    Assistant { content: Option<String>, tool_calls: Vec<ModelToolCall> },
    ToolResult { tool_call_id: String, tool_name: String, content: String, is_error: bool },
}

/// The provider-facing description of a tool.
#[derive(Debug)]
pub struct ModelToolDefinition {
    pub name: String,
    pub description: String,
    pub parameters: Json,
}

/// Whether and which tools the provider may call in a turn.
#[derive(Debug)]
pub enum ModelToolChoice {
    Auto,
    Required,
    Disabled,
    Tool(String),
}

/// Token counters of one provider round trip.
#[derive(Debug, Clone, Copy, PartialEq, Eq, Structural, Default)]
pub struct ModelUsage {
    pub input_tokens: u32,
    pub output_tokens: u32,
}

/// The result of one provider round trip.
#[derive(Debug)]
pub struct ModelCompletion {
    pub text: Option<String>,
    pub thinking: Option<String>,
    pub tool_calls: Vec<ModelToolCall>,
    pub usage: Option<ModelUsage>,
}

impl ModelToolCall {
    /// A copy of this call.
    pub fn copy(&self) -> (r: ModelToolCall)
        ensures
            r == *self,
    {
        ModelToolCall { id: self.id.clone(), name: self.name.clone(), arguments: copy_json(&self.arguments) }
    }
}

impl Clone for ModelToolCall {
    fn clone(&self) -> (r: Self)
        ensures
            r == *self,
    {
        self.copy()
    }
}

impl ModelToolChoice {
    /// A copy of this policy.
    pub fn copy(&self) -> (r: ModelToolChoice)
        ensures
            r == *self,
    {
        match self {
            ModelToolChoice::Auto => ModelToolChoice::Auto,
            ModelToolChoice::Required => ModelToolChoice::Required,
            ModelToolChoice::Disabled => ModelToolChoice::Disabled,
            ModelToolChoice::Tool(n) => ModelToolChoice::Tool(n.clone()),
        }
    }
}

impl Clone for ModelToolChoice {
    fn clone(&self) -> (r: Self)
        ensures
            r == *self,
    {
        self.copy()
    }
}

/// Copies a list of tool calls, element by element.
pub fn copy_calls(calls: &Vec<ModelToolCall>) -> (r: Vec<ModelToolCall>)
    ensures
        r@ == calls@,
{
    let mut r: Vec<ModelToolCall> = Vec::new();
    let mut i: usize = 0;
    while i < calls.len()
        invariant
            0 <= i <= calls@.len(),
            r@ == calls@.subrange(0, i as int),
        decreases calls.len() - i,
    {
        r.push(calls[i].copy());
        i = i + 1;
        assert(r@ =~= calls@.subrange(0, i as int));
    }
    assert(r@ =~= calls@);
    r
}

/// Copies an optional string.
pub fn copy_opt(s: &Option<String>) -> (r: Option<String>)
    ensures
        r == *s,
{
    match s {
        Some(t) => Some(t.clone()),
        None => None,
    }
}

/// Two messages say the same: equal, or assistant messages with equal text
/// and equal tool calls.
pub open spec fn same_message(a: ModelMessage, b: ModelMessage) -> bool {
    match a {
        ModelMessage::Assistant { content, tool_calls } => b matches ModelMessage::Assistant {
            content: c2,
            tool_calls: t2,
        } && content == c2 && tool_calls@ == t2@,
        _ => a == b,
    }
}

impl ModelMessage {
    /// A copy of this message.
    pub fn copy(&self) -> (r: ModelMessage)
        ensures
            same_message(r, *self),
            r matches ModelMessage::Assistant { content, tool_calls } ==> (self matches ModelMessage::Assistant { content: c, tool_calls: t } && content == c && tool_calls@ == t@),
            !(self is Assistant) ==> r == *self,
            (self is Assistant) == (r is Assistant),
    {
        match self {
            ModelMessage::System(t) => ModelMessage::System(t.clone()),
            ModelMessage::User(t) => ModelMessage::User(t.clone()),
            ModelMessage::Assistant { content, tool_calls } => ModelMessage::Assistant {
                content: copy_opt(content),
                tool_calls: copy_calls(tool_calls),
            },
            ModelMessage::ToolResult { tool_call_id, tool_name, content, is_error } => ModelMessage::ToolResult {
                tool_call_id: tool_call_id.clone(),
                tool_name: tool_name.clone(),
                content: content.clone(),
                is_error: *is_error,
            },
        }
    }
}

impl Clone for ModelMessage {
    fn clone(&self) -> (r: Self)
        ensures
            !(self is Assistant) ==> r == *self,
            (self is Assistant) == (r is Assistant),
    {
        self.copy()
    }
}

impl Clone for ModelToolDefinition {
    fn clone(&self) -> (r: Self)
        ensures
            r == *self,
    {
        ModelToolDefinition {
            name: self.name.clone(),
            description: self.description.clone(),
            parameters: copy_json(&self.parameters),
        }
    }
}

} // verus!
