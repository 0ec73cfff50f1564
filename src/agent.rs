//! The agent: configuration, builder, history, and the turn loop as a state
//! machine. The caller performs each action that a step returns (invoke the
//! provider, wait, run a tool handler) and hands the outcome back.
use vstd::prelude::*;
use vstd::string::*;
use std::any::TypeId;
use crate::deps::{DependencyMap, merged_slots};
use crate::error::{AgentError, ProviderError, ToolError, tool_error_text};
use crate::json::copy_json;
use crate::model::{
    ModelCompletion, ModelMessage, ModelToolCall, ModelToolChoice, ModelToolDefinition, copy_calls,
    copy_opt,
};
use crate::retry::{attempt_budget, retry_decision, retry_delay};
use crate::schema::argument_problem;
use crate::text::{decimal, push_decimal};
use crate::tools::{ToolOutcome, ToolSpec};

verus! {

/// The configured tool-choice policy.
#[derive(Debug)]
pub enum AgentToolChoice {
    Auto,
    Required,
    Disabled,
    Tool(String),
}

impl Default for AgentToolChoice {
    fn default() -> (r: Self)
        ensures
            r is Auto,
    {
        AgentToolChoice::Auto
    }
}

impl Clone for AgentToolChoice {
    fn clone(&self) -> (r: Self)
        ensures
            r == *self,
    {
        match self {
            AgentToolChoice::Auto => AgentToolChoice::Auto,
            AgentToolChoice::Required => AgentToolChoice::Required,
            AgentToolChoice::Disabled => AgentToolChoice::Disabled,
            AgentToolChoice::Tool(n) => AgentToolChoice::Tool(n.clone()),
        }
    }
}

/// How a run behaves.
#[derive(Debug)]
pub struct AgentConfig {
    pub require_done_tool: bool,
    pub max_iterations: u32,
    pub system_prompt: Option<String>,
    pub tool_choice: AgentToolChoice,
    pub llm_max_retries: u32,
    pub llm_retry_base_delay_ms: u64,
    pub llm_retry_max_delay_ms: u64,
    pub hidden_user_message_prompt: Option<String>,
}

impl Default for AgentConfig {
    fn default() -> (r: Self)
        ensures
            !r.require_done_tool,
            r.max_iterations == 24,
            r.system_prompt is None,
            r.tool_choice is Auto,
            r.llm_max_retries == 5,
            r.llm_retry_base_delay_ms == 1000,
            r.llm_retry_max_delay_ms == 60000,
            r.hidden_user_message_prompt is None,
    {
        AgentConfig {
            require_done_tool: false,
            max_iterations: 24,
            system_prompt: None,
            tool_choice: AgentToolChoice::Auto,
            llm_max_retries: 5,
            llm_retry_base_delay_ms: 1000,
            llm_retry_max_delay_ms: 60000,
            hidden_user_message_prompt: None,
        }
    }
}

impl Clone for AgentConfig {
    fn clone(&self) -> (r: Self)
        ensures
            r == *self,
    {
        AgentConfig {
            require_done_tool: self.require_done_tool,
            max_iterations: self.max_iterations,
            system_prompt: copy_opt(&self.system_prompt),
            tool_choice: self.tool_choice.clone(),
            llm_max_retries: self.llm_max_retries,
            llm_retry_base_delay_ms: self.llm_retry_base_delay_ms,
            llm_retry_max_delay_ms: self.llm_retry_max_delay_ms,
            hidden_user_message_prompt: copy_opt(&self.hidden_user_message_prompt),
        }
    }
}

/// Who a message comes from.
#[derive(Debug, Clone, Copy, PartialEq, Eq, Structural)]
pub enum AgentRole {
    User,
    Assistant,
}

/// How a tool step ended.
#[derive(Debug, Clone, Copy, PartialEq, Eq, Structural)]
pub enum StepStatus {
    Completed,
    Error,
}

/// One observable transition of a run.
#[derive(Debug)]
pub enum AgentEvent {
    MessageStart { message_id: String, role: AgentRole },
    MessageComplete { message_id: String, content: String },
    HiddenUserMessage { content: String },
    StepStart { step_id: String, title: String, step_number: u32 },
    StepComplete { step_id: String, status: StepStatus, duration_ms: u128 },
    Thinking { content: String },
    Text { content: String },
    ToolCall { tool: String, args_json: crate::json::Json, tool_call_id: String },
    ToolResult { tool: String, result_text: String, tool_call_id: String, is_error: bool },
    FinalResponse { content: String },
}

/// What the caller does next.
#[derive(Debug)]
pub enum RunAction {
    /// Invoke the provider with the history, the run's tool definitions and
    /// its tool choice, and hand the result to `on_completion`.
    Invoke,
    /// Wait this long, then invoke the provider as for `Invoke`.
    Wait { delay_ms: u64 },
    /// Run the handler of the tool at this index with the call's arguments
    /// and the runtime dependencies, and hand the outcome to `on_tool_result`.
    RunTool { tool_index: usize, call: ModelToolCall },
    /// The run is over with this final response.
    Finish(String),
    /// The run failed.
    Fail(AgentError),
}

/// The events of one transition and the action that follows it.
#[derive(Debug)]
pub struct Step {
    pub events: Vec<AgentEvent>,
    pub action: RunAction,
}

/// Where a run stands.
#[derive(Debug, Clone, Copy, PartialEq, Eq, Structural)]
pub enum RunStatus {
    AwaitingCompletion,
    AwaitingTool,
    Finished,
}

/// The state of one query between two steps.
#[derive(Debug)]
pub struct QueryRun {
    tool_definitions: Vec<ModelToolDefinition>,
    tool_choice: ModelToolChoice,
    rounds: u32,
    attempt: u32,
    hidden_injected: bool,
    calls: Vec<ModelToolCall>,
    next_call: usize,
    step_number: u32,
    status: RunStatus,
}

impl QueryRun {
    /// Completions received so far in this query.
    pub closed spec fn spec_rounds(&self) -> nat {
        self.rounds as nat
    }

    /// Failed attempts of the provider call in progress.
    pub closed spec fn spec_attempt(&self) -> nat {
        self.attempt as nat
    }

    pub closed spec fn spec_status(&self) -> RunStatus {
        self.status
    }

    pub closed spec fn spec_hidden_injected(&self) -> bool {
        self.hidden_injected
    }

    /// The tool calls of the latest completion.
    pub closed spec fn spec_calls(&self) -> Seq<ModelToolCall> {
        self.calls@
    }

    /// The number of the latest tool step of the current batch.
    pub closed spec fn spec_step_number(&self) -> nat {
        self.step_number as nat
    }

    /// The index of the call being run or to be handled next.
    pub closed spec fn spec_next_call(&self) -> nat {
        self.next_call as nat
    }

    pub closed spec fn spec_tool_choice(&self) -> ModelToolChoice {
        self.tool_choice
    }

    pub closed spec fn spec_tool_definitions(&self) -> Seq<ModelToolDefinition> {
        self.tool_definitions@
    }

    /// The state is consistent with the limit of `max_iterations` rounds.
    pub open spec fn consistent(&self, max_iterations: u32) -> bool {
        &&& self.spec_rounds() <= max_iterations
        &&& self.spec_status() == RunStatus::AwaitingCompletion ==> self.spec_rounds() < max_iterations
        &&& self.spec_status() == RunStatus::AwaitingTool ==> self.spec_next_call() < self.spec_calls().len()
        &&& self.spec_next_call() <= self.spec_calls().len()
    }

    pub fn tool_definitions(&self) -> (r: &Vec<ModelToolDefinition>)
        ensures
            r@ == self.spec_tool_definitions(),
    {
        &self.tool_definitions
    }

    pub fn tool_choice(&self) -> (r: &ModelToolChoice)
        ensures
            *r == self.spec_tool_choice(),
    {
        &self.tool_choice
    }

    pub fn rounds(&self) -> (r: u32)
        ensures
            r == self.spec_rounds(),
    {
        self.rounds
    }

    pub fn status(&self) -> (r: RunStatus)
        ensures
            r == self.spec_status(),
    {
        self.status
    }
}

/// The text of a completion, empty when absent.
pub open spec fn text_of(t: Option<String>) -> Seq<char> {
    match t {
        Some(s) => s@,
        None => Seq::empty(),
    }
}

/// Whether no two tools share a name.
pub open spec fn names_unique(tools: Seq<ToolSpec>) -> bool {
    forall|i: int, j: int|
        0 <= i < j < tools.len() ==> tools[i].spec_name() != tools[j].spec_name()
}

/// The policy sent to the provider: none when there are no tools, else the configured one.
pub open spec fn resolved_choice(choice: AgentToolChoice, has_tools: bool) -> ModelToolChoice {
    if !has_tools {
        ModelToolChoice::Disabled
    } else {
        match choice {
            AgentToolChoice::Auto => ModelToolChoice::Auto,
            AgentToolChoice::Required => ModelToolChoice::Required,
            AgentToolChoice::Disabled => ModelToolChoice::Disabled,
            AgentToolChoice::Tool(n) => ModelToolChoice::Tool(n),
        }
    }
}

/// The history entry that records a tool's result.
pub open spec fn is_tool_result(m: ModelMessage, call: ModelToolCall, text: Seq<char>, is_error: bool) -> bool {
    m matches ModelMessage::ToolResult { tool_call_id, tool_name, content, is_error: e } && tool_call_id
        == call.id && tool_name == call.name && content@ == text && e == is_error
}

/// The text of a tool result for a handler's outcome.
pub open spec fn outcome_text(outcome: Result<ToolOutcome, ToolError>) -> Seq<char> {
    match outcome {
        Ok(ToolOutcome::Text(t)) => t@,
        Ok(ToolOutcome::Done(m)) => "Task completed: "@ + m@,
        Err(e) => tool_error_text(e),
    }
}

/// The text of a tool error as the conversation receives it.
pub fn format_tool_error(err: ToolError) -> (r: String)
    ensures
        r@ == tool_error_text(err),
{
    err.message()
}

/// The text of the synthetic result for a call of an unknown tool.
pub open spec fn unknown_tool_text(name: Seq<char>) -> Seq<char> {
    "Unknown tool '"@ + name + "'."@
}

/// The identifier of the `n`-th message.
pub open spec fn message_id_text(n: nat, role: AgentRole) -> Seq<char> {
    "msg_"@ + decimal(n) + match role {
        AgentRole::User => "_user"@,
        AgentRole::Assistant => "_assistant"@,
    }
}

/// Assembles an agent from a provider, tools, configuration and dependencies.
pub struct AgentBuilder<M, V> {
    model: Option<M>,
    tools: Vec<ToolSpec>,
    config: AgentConfig,
    dependencies: DependencyMap<V>,
    dependency_overrides: DependencyMap<V>,
}

/// An agent: provider, tools, configuration, dependencies and history.
pub struct Agent<M, V> {
    model: M,
    tools: Vec<ToolSpec>,
    config: AgentConfig,
    dependencies: DependencyMap<V>,
    dependency_overrides: DependencyMap<V>,
    history: Vec<ModelMessage>,
    next_message_id: u64,
}


impl<M, V: Clone> AgentBuilder<M, V> {
    /// The dependency registries are well formed.
    pub closed spec fn wf(&self) -> bool {
        self.dependencies.wf() && self.dependency_overrides.wf()
    }

    pub closed spec fn spec_model(&self) -> Option<M> {
        self.model
    }

    pub closed spec fn spec_tools(&self) -> Seq<ToolSpec> {
        self.tools@
    }

    pub closed spec fn spec_config(&self) -> AgentConfig {
        self.config
    }

    pub closed spec fn spec_dependencies(&self) -> DependencyMap<V> {
        self.dependencies
    }

    pub closed spec fn spec_overrides(&self) -> DependencyMap<V> {
        self.dependency_overrides
    }

    /// A builder with no provider, no tools, the default configuration and no dependencies.
    pub fn new() -> (r: Self)
        ensures
            r.wf(),
            r.spec_model() is None,
            r.spec_tools().len() == 0,
            r.spec_config() == AgentConfig::default_spec(),
            r.spec_dependencies().typed_view().len() == 0,
            r.spec_dependencies().named_view().len() == 0,
            r.spec_overrides().typed_view().len() == 0,
            r.spec_overrides().named_view().len() == 0,
    {
        AgentBuilder {
            model: None,
            tools: Vec::new(),
            config: AgentConfig::default(),
            dependencies: DependencyMap::new(),
            dependency_overrides: DependencyMap::new(),
        }
    }

    /// Sets the provider.
    pub fn model(self, model: M) -> (r: Self)
        requires
            self.wf(),
        ensures
            r.wf(),
            r.spec_model() == Some(model),
            r.spec_tools() == self.spec_tools(),
            r.spec_config() == self.spec_config(),
            r.spec_dependencies() == self.spec_dependencies(),
            r.spec_overrides() == self.spec_overrides(),
    {
        AgentBuilder { model: Some(model), ..self }
    }

    /// Registers a tool after those already registered.
    pub fn tool(self, tool: ToolSpec) -> (r: Self)
        requires
            self.wf(),
        ensures
            r.wf(),
            r.spec_model() == self.spec_model(),
            r.spec_tools() == self.spec_tools().push(tool),
            r.spec_config() == self.spec_config(),
            r.spec_dependencies() == self.spec_dependencies(),
            r.spec_overrides() == self.spec_overrides(),
    {
        let mut tools = self.tools;
        tools.push(tool);
        AgentBuilder { model: self.model, tools, config: self.config, dependencies: self.dependencies, dependency_overrides: self.dependency_overrides }
    }

    /// Registers tools after those already registered, in order.
    pub fn tools(self, more: Vec<ToolSpec>) -> (r: Self)
        requires
            self.wf(),
        ensures
            r.wf(),
            r.spec_model() == self.spec_model(),
            r.spec_tools() == self.spec_tools() + more@,
            r.spec_config() == self.spec_config(),
            r.spec_dependencies() == self.spec_dependencies(),
            r.spec_overrides() == self.spec_overrides(),
    {
        let mut tools = self.tools;
        let mut more = more;
        tools.append(&mut more);
        AgentBuilder { model: self.model, tools, config: self.config, dependencies: self.dependencies, dependency_overrides: self.dependency_overrides }
    }

    /// Replaces the whole configuration.
    pub fn config(self, config: AgentConfig) -> (r: Self)
        requires
            self.wf(),
        ensures
            r.wf(),
            r.spec_model() == self.spec_model(),
            r.spec_tools() == self.spec_tools(),
            r.spec_config() == config,
            r.spec_dependencies() == self.spec_dependencies(),
            r.spec_overrides() == self.spec_overrides(),
    {
        AgentBuilder { config, ..self }
    }

    /// Sets the system prompt pushed at the start of a fresh history.
    pub fn system_prompt(self, system_prompt: String) -> (r: Self)
        requires
            self.wf(),
        ensures
            r.wf(),
            r.spec_model() == self.spec_model(),
            r.spec_tools() == self.spec_tools(),
            r.spec_config() == (AgentConfig { system_prompt: Some(system_prompt), ..self.spec_config() }),
            r.spec_dependencies() == self.spec_dependencies(),
            r.spec_overrides() == self.spec_overrides(),
    {
        let mut config = self.config;
        config.system_prompt = Some(system_prompt);
        AgentBuilder { config, ..self }
    }

    /// Whether a run may finish only through the explicit completion tool.
    pub fn require_done_tool(self, require_done_tool: bool) -> (r: Self)
        requires
            self.wf(),
        ensures
            r.wf(),
            r.spec_model() == self.spec_model(),
            r.spec_tools() == self.spec_tools(),
            r.spec_config() == (AgentConfig { require_done_tool, ..self.spec_config() }),
            r.spec_dependencies() == self.spec_dependencies(),
            r.spec_overrides() == self.spec_overrides(),
    {
        let mut config = self.config;
        config.require_done_tool = require_done_tool;
        AgentBuilder { config, ..self }
    }

    /// The largest number of provider rounds in one query.
    pub fn max_iterations(self, max_iterations: u32) -> (r: Self)
        requires
            self.wf(),
        ensures
            r.wf(),
            r.spec_model() == self.spec_model(),
            r.spec_tools() == self.spec_tools(),
            r.spec_config() == (AgentConfig { max_iterations, ..self.spec_config() }),
            r.spec_dependencies() == self.spec_dependencies(),
            r.spec_overrides() == self.spec_overrides(),
    {
        let mut config = self.config;
        config.max_iterations = max_iterations;
        AgentBuilder { config, ..self }
    }

    /// Sets the tool-choice policy.
    pub fn tool_choice(self, tool_choice: AgentToolChoice) -> (r: Self)
        requires
            self.wf(),
        ensures
            r.wf(),
            r.spec_model() == self.spec_model(),
            r.spec_tools() == self.spec_tools(),
            r.spec_config() == (AgentConfig { tool_choice, ..self.spec_config() }),
            r.spec_dependencies() == self.spec_dependencies(),
            r.spec_overrides() == self.spec_overrides(),
    {
        let mut config = self.config;
        config.tool_choice = tool_choice;
        AgentBuilder { config, ..self }
    }

    /// Sets the attempt budget and the delays of the retry policy.
    pub fn llm_retry_config(self, max_retries: u32, base_delay_ms: u64, max_delay_ms: u64) -> (r: Self)
        requires
            self.wf(),
        ensures
            r.wf(),
            r.spec_model() == self.spec_model(),
            r.spec_tools() == self.spec_tools(),
            r.spec_config() == (AgentConfig {
                llm_max_retries: max_retries,
                llm_retry_base_delay_ms: base_delay_ms,
                llm_retry_max_delay_ms: max_delay_ms,
                ..self.spec_config()
            }),
            r.spec_dependencies() == self.spec_dependencies(),
            r.spec_overrides() == self.spec_overrides(),
    {
        let mut config = self.config;
        config.llm_max_retries = max_retries;
        config.llm_retry_base_delay_ms = base_delay_ms;
        config.llm_retry_max_delay_ms = max_delay_ms;
        AgentBuilder { config, ..self }
    }

    /// Sets the follow-up prompt injected once when the model stops calling tools.
    pub fn hidden_user_message_prompt(self, prompt: String) -> (r: Self)
        requires
            self.wf(),
        ensures
            r.wf(),
            r.spec_model() == self.spec_model(),
            r.spec_tools() == self.spec_tools(),
            r.spec_config() == (AgentConfig { hidden_user_message_prompt: Some(prompt), ..self.spec_config() }),
            r.spec_dependencies() == self.spec_dependencies(),
            r.spec_overrides() == self.spec_overrides(),
    {
        let mut config = self.config;
        config.hidden_user_message_prompt = Some(prompt);
        AgentBuilder { config, ..self }
    }

    /// Adds a base dependency in the slot of the type identity `key`.
    pub fn dependency(self, key: TypeId, value: V) -> (r: Self)
        requires
            self.wf(),
        ensures
            r.wf(),
            r.spec_model() == self.spec_model(),
            r.spec_tools() == self.spec_tools(),
            r.spec_config() == self.spec_config(),
            r.spec_dependencies().typed_view() == self.spec_dependencies().typed_view().insert(key, value),
            r.spec_dependencies().named_view() == self.spec_dependencies().named_view(),
            r.spec_overrides() == self.spec_overrides(),
    {
        let mut d = self.dependencies;
        d.insert(key, value);
        AgentBuilder { model: self.model, tools: self.tools, config: self.config, dependencies: d, dependency_overrides: self.dependency_overrides }
    }

    /// Adds a base dependency in the slot named `key`.
    pub fn dependency_named(self, key: String, value: V) -> (r: Self)
        requires
            self.wf(),
        ensures
            r.wf(),
            r.spec_model() == self.spec_model(),
            r.spec_tools() == self.spec_tools(),
            r.spec_config() == self.spec_config(),
            r.spec_dependencies().named_view() == self.spec_dependencies().named_view().insert(key@, value),
            r.spec_dependencies().typed_view() == self.spec_dependencies().typed_view(),
            r.spec_overrides() == self.spec_overrides(),
    {
        let mut d = self.dependencies;
        d.insert_named(key, value);
        AgentBuilder { model: self.model, tools: self.tools, config: self.config, dependencies: d, dependency_overrides: self.dependency_overrides }
    }

    /// Adds an override in the slot of the type identity `key`.
    pub fn dependency_override(self, key: TypeId, value: V) -> (r: Self)
        requires
            self.wf(),
        ensures
            r.wf(),
            r.spec_model() == self.spec_model(),
            r.spec_tools() == self.spec_tools(),
            r.spec_config() == self.spec_config(),
            r.spec_dependencies() == self.spec_dependencies(),
            r.spec_overrides().typed_view() == self.spec_overrides().typed_view().insert(key, value),
            r.spec_overrides().named_view() == self.spec_overrides().named_view(),
    {
        let mut d = self.dependency_overrides;
        d.insert(key, value);
        AgentBuilder { model: self.model, tools: self.tools, config: self.config, dependencies: self.dependencies, dependency_overrides: d }
    }

    /// Adds an override in the slot named `key`.
    pub fn dependency_override_named(self, key: String, value: V) -> (r: Self)
        requires
            self.wf(),
        ensures
            r.wf(),
            r.spec_model() == self.spec_model(),
            r.spec_tools() == self.spec_tools(),
            r.spec_config() == self.spec_config(),
            r.spec_dependencies() == self.spec_dependencies(),
            r.spec_overrides().named_view() == self.spec_overrides().named_view().insert(key@, value),
            r.spec_overrides().typed_view() == self.spec_overrides().typed_view(),
    {
        let mut d = self.dependency_overrides;
        d.insert_named(key, value);
        AgentBuilder { model: self.model, tools: self.tools, config: self.config, dependencies: self.dependencies, dependency_overrides: d }
    }

    /// Builds the agent: a provider must be set and no two tools may share a name.
    pub fn build(self) -> (r: Result<Agent<M, V>, AgentError>)
        requires
            self.wf(),
        ensures
            r is Ok <==> self.spec_model() is Some && names_unique(self.spec_tools()),
            r matches Ok(a) ==> a.wf() && Some(a.spec_model()) == self.spec_model() && a.spec_tools()
                == self.spec_tools() && a.spec_config() == self.spec_config() && a.spec_history().len()
                == 0 && a.spec_dependencies() == self.spec_dependencies() && a.spec_overrides()
                == self.spec_overrides(),
            r matches Err(e) ==> e matches AgentError::Config(m) && (if self.spec_model() is None {
                m@ == "agent model must be configured via AgentBuilder::model(...)"@
            } else {
                exists|i: int, j: int|
                    0 <= i < j < self.spec_tools().len() && self.spec_tools()[i].spec_name()
                        == self.spec_tools()[j].spec_name() && m@ == "duplicate tool registered: "@
                        + self.spec_tools()[j].spec_name()
            }),
    {
        let model = match self.model {
            Some(m) => m,
            None => {
                return Err(AgentError::Config(String::from_str("agent model must be configured via AgentBuilder::model(...)")));
            },
        };
        let tools = self.tools;
        let mut j: usize = 0;
        while j < tools.len()
            invariant
                tools@ == self.spec_tools(),
                self.spec_model() is Some,
                0 <= j <= tools@.len(),
                forall|a: int, b: int| 0 <= a < b < j ==> tools@[a].spec_name() != tools@[b].spec_name(),
            decreases tools.len() - j,
        {
            let mut i: usize = 0;
            while i < j
                invariant
                    tools@ == self.spec_tools(),
                    self.spec_model() is Some,
                    0 <= i <= j < tools@.len(),
                    forall|a: int| 0 <= a < i ==> tools@[a].spec_name() != tools@[j as int].spec_name(),
                decreases j - i,
            {
                if crate::text::str_eq(tools[i].name(), tools[j].name()) {
                    assert(!names_unique(self.spec_tools()));
                    return Err(AgentError::Config(String::from_str("duplicate tool registered: ").concat(tools[j].name())));
                }
                i = i + 1;
            }
            j = j + 1;
        }
        Ok(Agent {
            model,
            tools,
            config: self.config,
            dependencies: self.dependencies,
            dependency_overrides: self.dependency_overrides,
            history: Vec::new(),
            next_message_id: 0,
        })
    }
}

impl AgentConfig {
    /// The default configuration.
    pub open spec fn default_spec() -> AgentConfig {
        AgentConfig {
            require_done_tool: false,
            max_iterations: 24,
            system_prompt: None,
            tool_choice: AgentToolChoice::Auto,
            llm_max_retries: 5,
            llm_retry_base_delay_ms: 1000,
            llm_retry_max_delay_ms: 60000,
            hidden_user_message_prompt: None,
        }
    }
}

impl<M, V: Clone> Agent<M, V> {
    /// The dependency registries are well formed and tool names are unique.
    pub closed spec fn wf(&self) -> bool {
        self.dependencies.wf() && self.dependency_overrides.wf() && names_unique(self.tools@)
    }

    pub closed spec fn spec_model(&self) -> M {
        self.model
    }

    pub closed spec fn spec_tools(&self) -> Seq<ToolSpec> {
        self.tools@
    }

    pub closed spec fn spec_config(&self) -> AgentConfig {
        self.config
    }

    pub closed spec fn spec_history(&self) -> Seq<ModelMessage> {
        self.history@
    }

    pub closed spec fn spec_dependencies(&self) -> DependencyMap<V> {
        self.dependencies
    }

    pub closed spec fn spec_overrides(&self) -> DependencyMap<V> {
        self.dependency_overrides
    }

    pub closed spec fn spec_message_counter(&self) -> nat {
        self.next_message_id as nat
    }
}


/// What is wrong with a call before any handler runs: no tool of that name,
/// or arguments that its schema rejects; `None` when the handler may run.
pub open spec fn call_problem(tools: Seq<ToolSpec>, call: ModelToolCall) -> Option<Seq<char>> {
    if exists|i: int| 0 <= i < tools.len() && #[trigger] tools[i].spec_name() == call.name@ {
        let i = choose|i: int| 0 <= i < tools.len() && #[trigger] tools[i].spec_name() == call.name@;
        match argument_problem(tools[i].spec_schema(), call.arguments) {
            Some(m) => Some("invalid tool arguments for "@ + call.name@ + ": "@ + m),
            None => None,
        }
    } else {
        Some(unknown_tool_text(call.name@))
    }
}

/// The tool definitions describe the tools, one for one and in order.
pub open spec fn describes(defs: Seq<ModelToolDefinition>, tools: Seq<ToolSpec>) -> bool {
    &&& defs.len() == tools.len()
    &&& forall|i: int| 0 <= i < defs.len() ==> #[trigger] defs[i].name@ == tools[i].spec_name()
        && defs[i].description@ == tools[i].spec_description() && defs[i].parameters == tools[i].spec_schema()
}

/// An entry before the old length is kept when the history is extended.
pub proof fn lemma_extends_keeps(old: Seq<ModelMessage>, new: Seq<ModelMessage>, i: int)
    requires
        extends(old, new),
        0 <= i < old.len(),
    ensures
        new[i] == old[i],
{
    assert(new.subrange(0, old.len() as int)[i] == new[i]);
}

/// The history grew from `old` to `new` by appending.
pub open spec fn extends(old: Seq<ModelMessage>, new: Seq<ModelMessage>) -> bool {
    old.len() <= new.len() && new.subrange(0, old.len() as int) == old
}

/// The calls `from..to` were each answered in `history` from position `at`
/// on by an error result, without running a handler.
pub open spec fn skipped_calls(
    tools: Seq<ToolSpec>,
    calls: Seq<ModelToolCall>,
    from: int,
    to: int,
    history: Seq<ModelMessage>,
    at: int,
) -> bool {
    &&& at + (to - from) <= history.len()
    &&& forall|k: int|
        from <= k < to ==> #[trigger] call_problem(tools, calls[k]) is Some && is_tool_result(
            history[at + (k - from)],
            calls[k],
            call_problem(tools, calls[k])->0,
            true,
        )
}

/// What follows a round: another provider call, or failure at the limit.
pub open spec fn round_action_ok(action: RunAction, run: QueryRun, max_iterations: u32) -> bool {
    &&& action is Invoke ==> run.spec_status() == RunStatus::AwaitingCompletion && run.spec_rounds()
        < max_iterations
    &&& action matches RunAction::Fail(e) ==> e == (AgentError::MaxIterationsReached {
        max_iterations,
    }) && run.spec_rounds() == max_iterations && run.spec_status() == RunStatus::Finished
    &&& (action is Invoke || action is Fail)
}

/// The action that hands a call to its handler.
pub open spec fn run_tool_ok(action: RunAction, run: QueryRun, tools: Seq<ToolSpec>) -> bool {
    action matches RunAction::RunTool { tool_index, call } ==> {
        &&& run.spec_status() == RunStatus::AwaitingTool
        &&& tool_index < tools.len()
        &&& run.spec_next_call() < run.spec_calls().len()
        &&& call == run.spec_calls()[run.spec_next_call() as int]
        &&& tools[tool_index as int].spec_name() == call.name@
        &&& call_problem(tools, call) is None
    }
}

/// The events from position `from` on all belong to tool steps.
pub open spec fn tool_step_events(events: Seq<AgentEvent>, from: int) -> bool {
    forall|k: int|
        from <= k < events.len() ==> (#[trigger] events[k] is StepStart || events[k] is ToolCall
            || events[k] is ToolResult || events[k] is StepComplete)
}

/// The number of the tool step `offset` places after the step numbered `base`,
/// saturated at the largest `u32`.
pub open spec fn step_at(base: nat, offset: int) -> nat {
    if base + offset + 1 < u32::MAX {
        (base + offset + 1) as nat
    } else {
        u32::MAX as nat
    }
}

/// The events at `b` open the step of `call`: its start and the call itself.
pub open spec fn call_opening(events: Seq<AgentEvent>, b: int, call: ModelToolCall, n: nat) -> bool {
    &&& 0 <= b && b + 1 < events.len()
    &&& events[b] matches AgentEvent::StepStart { step_id, title, step_number } && step_id == call.id && title == call.name
        && step_number == n
    &&& events[b + 1] == (AgentEvent::ToolCall { tool: call.name, args_json: call.arguments, tool_call_id: call.id })
}

/// The events at `b` close the step of `call` with this result text.
pub open spec fn call_closing(
    events: Seq<AgentEvent>,
    b: int,
    call: ModelToolCall,
    text: Seq<char>,
    is_error: bool,
    duration_ms: u128,
) -> bool {
    &&& 0 <= b && b + 1 < events.len()
    &&& events[b] matches AgentEvent::ToolResult { tool, result_text, tool_call_id, is_error: e } && tool == call.name
        && result_text@ == text && tool_call_id == call.id && e == is_error
    &&& events[b + 1] == (AgentEvent::StepComplete { step_id: call.id, status: step_status(is_error), duration_ms })
}

/// From position `at` on, four events for each of the calls `from..to`,
/// which were answered with an error result without running a handler; their
/// steps are numbered on from `base`.
pub open spec fn skipped_events(
    tools: Seq<ToolSpec>,
    calls: Seq<ModelToolCall>,
    from: int,
    to: int,
    events: Seq<AgentEvent>,
    at: int,
    base: nat,
) -> bool {
    &&& events.len() >= at + 4 * (to - from)
    &&& forall|k: int|
        from <= k < to ==> call_opening(events, at + 4 * (k - from), #[trigger] calls[k], step_at(base, k - from)) && call_closing(
            events,
            at + 4 * (k - from) + 2,
            calls[k],
            call_problem(tools, calls[k])->0,
            true,
            0,
        )
}

/// No event announces a final response.
pub open spec fn no_final_event(events: Seq<AgentEvent>) -> bool {
    forall|k: int| 0 <= k < events.len() ==> !(#[trigger] events[k] is FinalResponse)
}

/// No event injects the hidden prompt.
pub open spec fn no_hidden_event(events: Seq<AgentEvent>) -> bool {
    forall|k: int| 0 <= k < events.len() ==> !(#[trigger] events[k] is HiddenUserMessage)
}

/// The status of a tool step.
pub open spec fn step_status(is_error: bool) -> StepStatus {
    if is_error {
        StepStatus::Error
    } else {
        StepStatus::Completed
    }
}

/// The number of events that open an assistant message: start, thinking if
/// any, text if not empty, and completion.
pub open spec fn head_len(c: ModelCompletion) -> int {
    2 + (if c.thinking is Some {
        1int
    } else {
        0int
    }) + (if text_of(c.text).len() > 0 {
        1int
    } else {
        0int
    })
}

/// The events open with the assistant message of `c`: its start, its
/// thinking when present, its text when not empty, and its completion.
pub open spec fn assistant_head(events: Seq<AgentEvent>, c: ModelCompletion) -> bool {
    let th = if c.thinking is Some {
        1int
    } else {
        0int
    };
    let tx = if text_of(c.text).len() > 0 {
        1int
    } else {
        0int
    };
    &&& events.len() >= head_len(c)
    &&& events[0] matches AgentEvent::MessageStart { role, .. } && role == AgentRole::Assistant
    &&& c.thinking matches Some(t) ==> events[1] == AgentEvent::Thinking { content: t }
    &&& tx == 1 ==> (events[1 + th] matches AgentEvent::Text { content } && content@ == text_of(c.text))
    &&& events[1 + th + tx] matches AgentEvent::MessageComplete { content, .. } && content@ == text_of(c.text)
}

/// Entries below the old length are kept when a sequence is extended.
pub proof fn lemma_prefix_keeps<A>(old: Seq<A>, new: Seq<A>, i: int)
    requires
        old.len() <= new.len(),
        new.subrange(0, old.len() as int) == old,
        0 <= i < old.len(),
    ensures
        new[i] == old[i],
{
    assert(new.subrange(0, old.len() as int)[i] == new[i]);
}

/// A text event is present exactly when `text` is not empty, and carries it.
pub open spec fn text_events_ok(events: Seq<AgentEvent>, text: Seq<char>) -> bool {
    &&& (exists|k: int| 0 <= k < events.len() && #[trigger] events[k] is Text) <==> text.len() > 0
    &&& forall|k: int|
        0 <= k < events.len() ==> (#[trigger] events[k] matches AgentEvent::Text { content } ==> content@ == text)
}

/// Appending events other than text events keeps `text_events_ok`.
pub proof fn lemma_text_events_kept(pre: Seq<AgentEvent>, events: Seq<AgentEvent>, text: Seq<char>)
    requires
        text_events_ok(pre, text),
        pre.len() <= events.len(),
        events.subrange(0, pre.len() as int) == pre,
        forall|k: int| pre.len() <= k < events.len() ==> !(#[trigger] events[k] is Text),
    ensures
        text_events_ok(events, text),
{
    assert forall|k: int| 0 <= k < pre.len() implies #[trigger] events[k] == pre[k] by {
        assert(events.subrange(0, pre.len() as int)[k] == events[k]);
    }
    if text.len() > 0 {
        let k = choose|k: int| 0 <= k < pre.len() && #[trigger] pre[k] is Text;
        assert(events[k] == pre[k]);
    }
    if exists|k: int| 0 <= k < events.len() && #[trigger] events[k] is Text {
        let k = choose|k: int| 0 <= k < events.len() && #[trigger] events[k] is Text;
        assert(k < pre.len());
        assert(pre[k] is Text);
    }
}

/// The last event announces the final response `content`.
pub open spec fn ends_with_final(events: Seq<AgentEvent>, content: Seq<char>) -> bool {
    &&& events.len() > 0
    &&& events.last() matches AgentEvent::FinalResponse { content: c } && c@ == content
}

impl<M, V: Clone> Agent<M, V> {
    /// A builder with the default configuration.
    pub fn builder() -> (r: AgentBuilder<M, V>)
        ensures
            r.wf(),
            r.spec_model() is None,
            r.spec_tools().len() == 0,
            r.spec_config() == AgentConfig::default_spec(),
            r.spec_dependencies().typed_view().len() == 0,
            r.spec_dependencies().named_view().len() == 0,
            r.spec_overrides().typed_view().len() == 0,
            r.spec_overrides().named_view().len() == 0,
    {
        AgentBuilder::new()
    }

    /// Empties the history and restarts message numbering.
    pub fn clear_history(&mut self)
        requires
            old(self).wf(),
        ensures
            final(self).wf(),
            final(self).spec_history().len() == 0,
            final(self).spec_message_counter() == 0,
            final(self).spec_tools() == old(self).spec_tools(),
            final(self).spec_config() == old(self).spec_config(),
            final(self).spec_dependencies() == old(self).spec_dependencies(),
            final(self).spec_overrides() == old(self).spec_overrides(),
            final(self).spec_model() == old(self).spec_model(),
    {
        self.history = Vec::new();
        self.next_message_id = 0;
    }

    /// Replaces the history; numbering continues after its last message.
    pub fn load_history(&mut self, messages: Vec<ModelMessage>)
        requires
            old(self).wf(),
        ensures
            final(self).wf(),
            final(self).spec_history() == messages@,
            final(self).spec_message_counter() == messages@.len(),
            final(self).spec_tools() == old(self).spec_tools(),
            final(self).spec_config() == old(self).spec_config(),
            final(self).spec_dependencies() == old(self).spec_dependencies(),
            final(self).spec_overrides() == old(self).spec_overrides(),
            final(self).spec_model() == old(self).spec_model(),
    {
        self.next_message_id = messages.len() as u64;
        self.history = messages;
    }

    pub fn messages_len(&self) -> (r: usize)
        ensures
            r == self.spec_history().len(),
    {
        self.history.len()
    }

    pub fn messages(&self) -> (r: &Vec<ModelMessage>)
        ensures
            r@ == self.spec_history(),
    {
        &self.history
    }

    pub fn model(&self) -> (r: &M)
        ensures
            *r == self.spec_model(),
    {
        &self.model
    }

    pub fn tools(&self) -> (r: &Vec<ToolSpec>)
        ensures
            r@ == self.spec_tools(),
    {
        &self.tools
    }

    pub fn config(&self) -> (r: &AgentConfig)
        ensures
            *r == self.spec_config(),
    {
        &self.config
    }

    /// The dependencies a tool handler sees: the base ones merged with the
    /// overrides, recomputed for each tool execution.
    pub fn runtime_dependencies(&self) -> (r: DependencyMap<V>)
        requires
            self.wf(),
        ensures
            r.wf(),
            merged_slots(self.spec_dependencies().typed_view(), self.spec_overrides().typed_view(), r.typed_view()),
            merged_slots(self.spec_dependencies().named_view(), self.spec_overrides().named_view(), r.named_view()),
    {
        self.dependencies.merged_with(&self.dependency_overrides)
    }

    fn next_message_id(&mut self, role: AgentRole) -> (r: String)
        ensures
            final(self).spec_message_counter() == if old(self).spec_message_counter() < u64::MAX {
                old(self).spec_message_counter() + 1
            } else {
                old(self).spec_message_counter()
            },
            r@ == message_id_text(final(self).spec_message_counter(), role),
            final(self).history == old(self).history,
            final(self).tools == old(self).tools,
            final(self).config == old(self).config,
            final(self).dependencies == old(self).dependencies,
            final(self).dependency_overrides == old(self).dependency_overrides,
            final(self).model == old(self).model,
    {
        if self.next_message_id < u64::MAX {
            self.next_message_id = self.next_message_id + 1;
        }
        let mut s = String::from_str("msg_");
        push_decimal(&mut s, self.next_message_id);
        match role {
            AgentRole::User => s.append("_user"),
            AgentRole::Assistant => s.append("_assistant"),
        }
        s
    }

    fn find_tool(&self, name: &str) -> (r: Option<usize>)
        requires
            self.wf(),
        ensures
            r matches Some(i) ==> i < self.tools@.len() && self.tools@[i as int].spec_name() == name@
                && (forall|j: int| 0 <= j < self.tools@.len() && self.tools@[j].spec_name() == name@ ==> j == i),
            r is None ==> forall|j: int| 0 <= j < self.tools@.len() ==> self.tools@[j].spec_name() != name@,
    {
        let mut i: usize = 0;
        while i < self.tools.len()
            invariant
                names_unique(self.tools@),
                0 <= i <= self.tools@.len(),
                forall|j: int| 0 <= j < i ==> self.tools@[j].spec_name() != name@,
            decreases self.tools.len() - i,
        {
            if crate::text::str_eq(self.tools[i].name(), name) {
                proof {
                    assert forall|j: int| 0 <= j < self.tools@.len() && self.tools@[j].spec_name() == name@ implies j == i by {
                        if j != i {
                            assert(names_unique(self.tools@));
                            if j < i {
                                assert(self.tools@[j].spec_name() != self.tools@[i as int].spec_name());
                            } else {
                                assert(self.tools@[i as int].spec_name() != self.tools@[j].spec_name());
                            }
                        }
                    }
                }
                return Some(i);
            }
            i = i + 1;
        }
        None
    }

    fn resolve_tool_choice(&self, has_tools: bool) -> (r: ModelToolChoice)
        ensures
            r == resolved_choice(self.config.tool_choice, has_tools),
    {
        if !has_tools {
            return ModelToolChoice::Disabled;
        }
        match &self.config.tool_choice {
            AgentToolChoice::Auto => ModelToolChoice::Auto,
            AgentToolChoice::Required => ModelToolChoice::Required,
            AgentToolChoice::Disabled => ModelToolChoice::Disabled,
            AgentToolChoice::Tool(n) => ModelToolChoice::Tool(n.clone()),
        }
    }

    fn tool_definitions(&self) -> (r: Vec<ModelToolDefinition>)
        ensures
            describes(r@, self.tools@),
    {
        let mut r: Vec<ModelToolDefinition> = Vec::new();
        let mut i: usize = 0;
        while i < self.tools.len()
            invariant
                0 <= i <= self.tools@.len(),
                r@.len() == i,
                forall|j: int| 0 <= j < i ==> #[trigger] r@[j].name@ == self.tools@[j].spec_name()
                    && r@[j].description@ == self.tools@[j].spec_description() && r@[j].parameters
                    == self.tools@[j].spec_schema(),
            decreases self.tools.len() - i,
        {
            let t = &self.tools[i];
            r.push(ModelToolDefinition {
                name: String::from_str(t.name()),
                description: String::from_str(t.description()),
                parameters: copy_json(t.json_schema()),
            });
            i = i + 1;
        }
        r
    }

    fn next_round(&self, run: &mut QueryRun) -> (action: RunAction)
        requires
            old(run).spec_rounds() <= self.config.max_iterations,
        ensures
            round_action_ok(action, *final(run), self.config.max_iterations),
            final(run).spec_rounds() == old(run).spec_rounds(),
            final(run).spec_attempt() == old(run).spec_attempt(),
            final(run).spec_calls() == old(run).spec_calls(),
            final(run).spec_next_call() == old(run).spec_next_call(),
            final(run).spec_hidden_injected() == old(run).spec_hidden_injected(),
            final(run).spec_step_number() == old(run).spec_step_number(),
            final(run).spec_tool_choice() == old(run).spec_tool_choice(),
            final(run).spec_tool_definitions() == old(run).spec_tool_definitions(),
    {
        if run.rounds < self.config.max_iterations {
            run.status = RunStatus::AwaitingCompletion;
            RunAction::Invoke
        } else {
            run.status = RunStatus::Finished;
            RunAction::Fail(AgentError::MaxIterationsReached { max_iterations: self.config.max_iterations })
        }
    }
}


impl<M, V: Clone> Agent<M, V> {
    fn record_result(&mut self, call: &ModelToolCall, text: String, is_error: bool, duration_ms: u128, events: &mut Vec<AgentEvent>)
        ensures
            final(self).history@ == old(self).history@.push(
                ModelMessage::ToolResult { tool_call_id: call.id, tool_name: call.name, content: text, is_error },
            ),
            final(self).tools == old(self).tools,
            final(self).config == old(self).config,
            final(self).dependencies == old(self).dependencies,
            final(self).dependency_overrides == old(self).dependency_overrides,
            final(self).model == old(self).model,
            final(self).next_message_id == old(self).next_message_id,
            final(events)@ == old(events)@.push(
                AgentEvent::ToolResult { tool: call.name, result_text: text, tool_call_id: call.id, is_error },
            ).push(AgentEvent::StepComplete { step_id: call.id, status: step_status(is_error), duration_ms }),
    {
        events.push(AgentEvent::ToolResult {
            tool: call.name.clone(),
            result_text: text.clone(),
            tool_call_id: call.id.clone(),
            is_error,
        });
        events.push(AgentEvent::StepComplete {
            step_id: call.id.clone(),
            status: if is_error {
                StepStatus::Error
            } else {
                StepStatus::Completed
            },
            duration_ms,
        });
        self.history.push(ModelMessage::ToolResult {
            tool_call_id: call.id.clone(),
            tool_name: call.name.clone(),
            content: text,
            is_error,
        });
    }

    /// Handles the calls of the current batch from `next_call` on, in order,
    /// until one is handed to its handler or the batch is exhausted.
    fn advance_calls(&mut self, run: &mut QueryRun, events: &mut Vec<AgentEvent>) -> (action: RunAction)
        requires
            old(self).wf(),
            old(run).spec_rounds() <= old(self).config.max_iterations,
            old(run).spec_next_call() <= old(run).spec_calls().len(),
        ensures
            final(self).wf(),
            final(self).tools == old(self).tools,
            final(self).config == old(self).config,
            final(self).dependencies == old(self).dependencies,
            final(self).dependency_overrides == old(self).dependency_overrides,
            final(self).model == old(self).model,
            final(self).next_message_id == old(self).next_message_id,
            extends(old(self).history@, final(self).history@),
            final(self).history@.len() == old(self).history@.len() + (final(run).spec_next_call() - old(run).spec_next_call()),
            final(run).spec_rounds() == old(run).spec_rounds(),
            final(run).spec_attempt() == old(run).spec_attempt(),
            final(run).spec_calls() == old(run).spec_calls(),
            final(run).spec_hidden_injected() == old(run).spec_hidden_injected(),
            final(run).spec_tool_choice() == old(run).spec_tool_choice(),
            final(run).spec_tool_definitions() == old(run).spec_tool_definitions(),
            old(run).spec_next_call() <= final(run).spec_next_call() <= final(run).spec_calls().len(),
            skipped_calls(
                old(self).tools@,
                old(run).spec_calls(),
                old(run).spec_next_call() as int,
                final(run).spec_next_call() as int,
                final(self).history@,
                old(self).history@.len() as int,
            ),
            run_tool_ok(action, *final(run), old(self).tools@),
            !(action is RunTool) ==> round_action_ok(action, *final(run), old(self).config.max_iterations)
                && final(run).spec_next_call() == final(run).spec_calls().len(),
            old(events)@.len() <= final(events)@.len(),
            final(events)@.subrange(0, old(events)@.len() as int) == old(events)@,
            tool_step_events(final(events)@, old(events)@.len() as int),
            skipped_events(
                old(self).tools@,
                old(run).spec_calls(),
                old(run).spec_next_call() as int,
                final(run).spec_next_call() as int,
                final(events)@,
                old(events)@.len() as int,
                old(run).spec_step_number(),
            ),
            final(run).spec_step_number() == if final(run).spec_next_call() == old(run).spec_next_call() && !(action is RunTool) {
                old(run).spec_step_number()
            } else if action is RunTool {
                step_at(old(run).spec_step_number(), final(run).spec_next_call() - old(run).spec_next_call())
            } else {
                step_at(old(run).spec_step_number(), final(run).spec_next_call() - old(run).spec_next_call() - 1)
            },
            !(action is RunTool) ==> final(events)@.len() == old(events)@.len() + 4 * (final(run).spec_next_call()
                - old(run).spec_next_call()),
            action is RunTool ==> final(events)@.len() == old(events)@.len() + 4 * (final(run).spec_next_call()
                - old(run).spec_next_call()) + 2 && call_opening(
                final(events)@,
                old(events)@.len() + 4 * (final(run).spec_next_call() - old(run).spec_next_call()),
                final(run).spec_calls()[final(run).spec_next_call() as int],
                step_at(old(run).spec_step_number(), final(run).spec_next_call() - old(run).spec_next_call()),
            ),
    {
        let ghost h0 = self.history@;
        let ghost e0 = events@;
        assert(e0.subrange(0, e0.len() as int) =~= e0);
        let ghost n0 = run.next_call as int;
        let ghost s0 = run.step_number as nat;
        assert(h0.subrange(0, h0.len() as int) =~= h0);
        while run.next_call < run.calls.len()
            invariant
                self.wf(),
                self.tools == old(self).tools,
                self.config == old(self).config,
                self.dependencies == old(self).dependencies,
                self.dependency_overrides == old(self).dependency_overrides,
                self.model == old(self).model,
                self.next_message_id == old(self).next_message_id,
                h0 == old(self).history@,
                n0 == old(run).spec_next_call(),
                extends(h0, self.history@),
                self.history@.len() == h0.len() + (run.next_call - n0),
                run.rounds == old(run).rounds,
                run.attempt == old(run).attempt,
                run.calls@ == old(run).calls@,
                run.hidden_injected == old(run).hidden_injected,
                run.tool_choice == old(run).tool_choice,
                run.tool_definitions@ == old(run).tool_definitions@,
                run.rounds <= self.config.max_iterations,
                n0 <= run.next_call <= run.calls@.len(),
                skipped_calls(self.tools@, run.calls@, n0, run.next_call as int, self.history@, h0.len() as int),
                e0 == old(events)@,
                e0.len() <= events@.len(),
                events@.subrange(0, e0.len() as int) == e0,
                tool_step_events(events@, e0.len() as int),
                events@.len() == e0.len() + 4 * (run.next_call - n0),
                skipped_events(self.tools@, run.calls@, n0, run.next_call as int, events@, e0.len() as int, s0),
                s0 == old(run).step_number,
                run.step_number == if run.next_call == n0 {
                    s0
                } else {
                    step_at(s0, run.next_call - n0 - 1)
                },
            decreases run.calls@.len() - run.next_call,
        {
            let idx = run.next_call;
            if run.step_number < u32::MAX {
                run.step_number = run.step_number + 1;
            }
            assert(run.step_number == step_at(s0, idx - n0));
            let ghost hb = self.history@;
            let ghost eb = events@;
            let call = &run.calls[idx];
            events.push(AgentEvent::StepStart {
                step_id: call.id.clone(),
                title: call.name.clone(),
                step_number: run.step_number,
            });
            events.push(AgentEvent::ToolCall {
                tool: call.name.clone(),
                args_json: copy_json(&call.arguments),
                tool_call_id: call.id.clone(),
            });
            match self.find_tool(call.name.as_str()) {
                None => {
                    let text = String::from_str("Unknown tool '").concat(call.name.as_str()).concat("'.");
                    proof {
                        assert(!(exists|i: int| 0 <= i < self.tools@.len() && #[trigger] self.tools@[i].spec_name() == call.name@));
                    }
                    self.record_result(call, text, true, 0, events);
                },
                Some(i) => {
                    proof {
                        let j = choose|j: int| 0 <= j < self.tools@.len() && #[trigger] self.tools@[j].spec_name() == call.name@;
                        assert(j == i);
                    }
                    match self.tools[i].check_arguments(&call.arguments) {
                        Ok(()) => {
                            run.status = RunStatus::AwaitingTool;
                            proof {
                                assert(events@.subrange(0, e0.len() as int) =~= e0) by {
                                    assert(events@.subrange(0, eb.len() as int) =~= eb);
                                }
                                assert forall|k: int| n0 <= k < idx implies call_opening(events@, e0.len() + 4 * (k - n0), #[trigger] run.calls@[k], step_at(s0, k - n0))
                                    && call_closing(events@, e0.len() + 4 * (k - n0) + 2, run.calls@[k], call_problem(self.tools@, run.calls@[k])->0, true, 0) by {
                                    assert(call_opening(eb, e0.len() + 4 * (k - n0), run.calls@[k], step_at(s0, k - n0)));
                                    assert(call_closing(eb, e0.len() + 4 * (k - n0) + 2, run.calls@[k], call_problem(self.tools@, run.calls@[k])->0, true, 0));
                                    assert(events@[e0.len() + 4 * (k - n0)] == eb[e0.len() + 4 * (k - n0)]);
                                    assert(events@[e0.len() + 4 * (k - n0) + 1] == eb[e0.len() + 4 * (k - n0) + 1]);
                                    assert(events@[e0.len() + 4 * (k - n0) + 2] == eb[e0.len() + 4 * (k - n0) + 2]);
                                    assert(events@[e0.len() + 4 * (k - n0) + 3] == eb[e0.len() + 4 * (k - n0) + 3]);
                                }
                                assert(call_opening(events@, eb.len() as int, run.calls@[idx as int], step_at(s0, idx - n0)));
                            }
                            return RunAction::RunTool { tool_index: i, call: call.copy() };
                        },
                        Err(e) => {
                            let text = e.message();
                            self.record_result(call, text, true, 0, events);
                        },
                    }
                },
            }
            proof {
                assert(events@.subrange(0, e0.len() as int) =~= e0) by {
                    assert(events@.subrange(0, eb.len() as int) =~= eb);
                }
                let hn = self.history@;
                assert(hn.subrange(0, h0.len() as int) =~= h0) by {
                    assert(hn.subrange(0, hb.len() as int) == hb);
                    assert(hb.subrange(0, h0.len() as int) == h0);
                }
                assert forall|k: int| n0 <= k < idx + 1 implies call_opening(events@, e0.len() + 4 * (k - n0), #[trigger] run.calls@[k], step_at(s0, k - n0))
                    && call_closing(events@, e0.len() + 4 * (k - n0) + 2, run.calls@[k], call_problem(self.tools@, run.calls@[k])->0, true, 0) by {
                    if k < idx {
                        assert(call_opening(eb, e0.len() + 4 * (k - n0), run.calls@[k], step_at(s0, k - n0)));
                        assert(call_closing(eb, e0.len() + 4 * (k - n0) + 2, run.calls@[k], call_problem(self.tools@, run.calls@[k])->0, true, 0));
                        assert(events@[e0.len() + 4 * (k - n0)] == eb[e0.len() + 4 * (k - n0)]);
                        assert(events@[e0.len() + 4 * (k - n0) + 1] == eb[e0.len() + 4 * (k - n0) + 1]);
                        assert(events@[e0.len() + 4 * (k - n0) + 2] == eb[e0.len() + 4 * (k - n0) + 2]);
                        assert(events@[e0.len() + 4 * (k - n0) + 3] == eb[e0.len() + 4 * (k - n0) + 3]);
                    }
                }
                assert forall|k: int| n0 <= k < idx + 1 implies #[trigger] call_problem(self.tools@, run.calls@[k]) is Some
                    && is_tool_result(hn[h0.len() + (k - n0)], run.calls@[k], call_problem(self.tools@, run.calls@[k])->0, true) by {
                    if k < idx {
                        assert(hn[h0.len() + (k - n0)] == hb[h0.len() + (k - n0)]);
                    }
                }
            }
            run.next_call = idx + 1;
        }
        self.next_round(run)
    }
}


impl<M, V: Clone> Agent<M, V> {
    /// Starts a query: pushes the system prompt on a fresh history, then the
    /// user message, and resolves the tool definitions and tool choice.
    pub fn begin_query(&mut self, user_message: String) -> (r: (QueryRun, Step))
        requires
            old(self).wf(),
        ensures
            final(self).wf(),
            final(self).spec_tools() == old(self).spec_tools(),
            final(self).spec_config() == old(self).spec_config(),
            final(self).spec_dependencies() == old(self).spec_dependencies(),
            final(self).spec_overrides() == old(self).spec_overrides(),
            final(self).spec_model() == old(self).spec_model(),
            (old(self).spec_history().len() == 0 && old(self).spec_config().system_prompt is Some) ==> final(self).spec_history()
                == seq![ModelMessage::System(old(self).spec_config().system_prompt->0), ModelMessage::User(user_message)],
            !(old(self).spec_history().len() == 0 && old(self).spec_config().system_prompt is Some) ==> final(self).spec_history()
                == old(self).spec_history().push(ModelMessage::User(user_message)),
            r.0.spec_rounds() == 0,
            r.0.spec_attempt() == 0,
            !r.0.spec_hidden_injected(),
            r.0.spec_calls().len() == 0,
            r.0.spec_next_call() == 0,
            r.0.consistent(old(self).spec_config().max_iterations),
            r.0.spec_tool_choice() == resolved_choice(old(self).spec_config().tool_choice, old(self).spec_tools().len() > 0),
            describes(r.0.spec_tool_definitions(), old(self).spec_tools()),
            round_action_ok(r.1.action, r.0, old(self).spec_config().max_iterations),
            r.1.events@.len() == 2,
            r.1.events@[0] matches AgentEvent::MessageStart { role, .. } && role == AgentRole::User,
            r.1.events@[1] matches AgentEvent::MessageComplete { content, .. } && content == user_message,
    {
        if self.history.len() == 0 {
            match &self.config.system_prompt {
                Some(p) => {
                    self.history.push(ModelMessage::System(p.clone()));
                },
                None => {},
            }
        }
        let ghost h1 = self.history@;
        let mut events: Vec<AgentEvent> = Vec::new();
        let id = self.next_message_id(AgentRole::User);
        events.push(AgentEvent::MessageStart { message_id: id.clone(), role: AgentRole::User });
        events.push(AgentEvent::MessageComplete { message_id: id, content: user_message.clone() });
        self.history.push(ModelMessage::User(user_message));
        proof {
            if old(self).history@.len() == 0 && self.config.system_prompt is Some {
                assert(self.history@ =~= seq![ModelMessage::System(self.config.system_prompt->0), ModelMessage::User(user_message)]);
            }
        }
        let tool_definitions = self.tool_definitions();
        let tool_choice = self.resolve_tool_choice(tool_definitions.len() > 0);
        let mut run = QueryRun {
            tool_definitions,
            tool_choice,
            rounds: 0,
            attempt: 0,
            hidden_injected: false,
            calls: Vec::new(),
            next_call: 0,
            step_number: 0,
            status: RunStatus::AwaitingCompletion,
        };
        let action = self.next_round(&mut run);
        (run, Step { events, action })
    }

    /// Takes the provider's answer to an `Invoke` or `Wait` action.
    pub fn on_completion(&mut self, run: &mut QueryRun, result: Result<ModelCompletion, ProviderError>) -> (step: Step)
        requires
            old(self).wf(),
            old(run).consistent(old(self).spec_config().max_iterations),
            old(run).spec_status() == RunStatus::AwaitingCompletion,
        ensures
            final(self).wf(),
            final(self).spec_tools() == old(self).spec_tools(),
            final(self).spec_config() == old(self).spec_config(),
            final(self).spec_dependencies() == old(self).spec_dependencies(),
            final(self).spec_overrides() == old(self).spec_overrides(),
            final(self).spec_model() == old(self).spec_model(),
            final(run).consistent(old(self).spec_config().max_iterations),
            final(run).spec_tool_choice() == old(run).spec_tool_choice(),
            final(run).spec_tool_definitions() == old(run).spec_tool_definitions(),
            extends(old(self).spec_history(), final(self).spec_history()),
            !(step.action is Finish) ==> no_final_event(step.events@),
            old(self).spec_config().require_done_tool ==> no_hidden_event(step.events@),
            result matches Err(e) ==> {
                &&& final(self).spec_history() == old(self).spec_history()
                &&& final(run).spec_rounds() == old(run).spec_rounds()
                &&& if e is Request && old(run).spec_attempt() + 1 < attempt_budget(old(self).spec_config().llm_max_retries) {
                    &&& step.action == (RunAction::Wait {
                        delay_ms: retry_delay(
                            old(run).spec_attempt(),
                            old(self).spec_config().llm_retry_base_delay_ms as nat,
                            old(self).spec_config().llm_retry_max_delay_ms as nat,
                        ) as u64,
                    })
                    &&& final(run).spec_attempt() == old(run).spec_attempt() + 1
                    &&& final(run).spec_status() == RunStatus::AwaitingCompletion
                } else {
                    &&& step.action == RunAction::Fail(AgentError::Provider(e))
                    &&& final(run).spec_status() == RunStatus::Finished
                    &&& final(run).spec_attempt() == old(run).spec_attempt()
                }
            },
            result matches Ok(c) ==> {
                &&& step.events@.len() > 0
                &&& step.events@[0] matches AgentEvent::MessageStart { role, .. } && role == AgentRole::Assistant
                &&& c.thinking matches Some(t) ==> step.events@[1] == AgentEvent::Thinking { content: t }
                &&& text_events_ok(step.events@, text_of(c.text))
                &&& assistant_head(step.events@, c)
                &&& final(run).spec_hidden_injected() == (old(run).spec_hidden_injected() || (c.tool_calls@.len() == 0
                    && !old(self).spec_config().require_done_tool && old(self).spec_config().hidden_user_message_prompt is Some))
                &&& (c.tool_calls@.len() == 0 && !old(self).spec_config().require_done_tool
                    && (old(run).spec_hidden_injected() || old(self).spec_config().hidden_user_message_prompt is None)) ==> {
                    &&& step.events@.len() == head_len(c) + 1
                    &&& step.events@[head_len(c)] matches AgentEvent::FinalResponse { content } && content@ == text_of(c.text)
                }
                &&& (c.tool_calls@.len() == 0 && !old(self).spec_config().require_done_tool
                    && !old(run).spec_hidden_injected() && old(self).spec_config().hidden_user_message_prompt is Some) ==> {
                    &&& step.events@.len() == head_len(c) + 1
                    &&& step.events@[head_len(c)] == AgentEvent::HiddenUserMessage {
                        content: old(self).spec_config().hidden_user_message_prompt->0,
                    }
                }
                &&& (c.tool_calls@.len() == 0 && old(self).spec_config().require_done_tool) ==> step.events@.len() == head_len(c)
                &&& c.tool_calls@.len() > 0 ==> tool_step_events(step.events@, head_len(c))
                &&& c.tool_calls@.len() > 0 ==> skipped_events(
                    old(self).spec_tools(),
                    c.tool_calls@,
                    0,
                    final(run).spec_next_call() as int,
                    step.events@,
                    head_len(c),
                    0,
                )
                &&& (c.tool_calls@.len() > 0 && !(step.action is RunTool)) ==> step.events@.len() == head_len(c) + 4
                    * final(run).spec_next_call()
                &&& (c.tool_calls@.len() > 0 && step.action is RunTool) ==> step.events@.len() == head_len(c) + 4
                    * final(run).spec_next_call() + 2 && call_opening(
                    step.events@,
                    head_len(c) + 4 * final(run).spec_next_call(),
                    c.tool_calls@[final(run).spec_next_call() as int],
                    step_at(0, final(run).spec_next_call() as int),
                )
                &&& final(run).spec_rounds() == old(run).spec_rounds() + 1
                &&& final(run).spec_attempt() == 0
                &&& final(self).spec_history().len() > old(self).spec_history().len()
                &&& final(self).spec_history()[old(self).spec_history().len() as int] matches ModelMessage::Assistant { content, tool_calls }
                    && content == c.text && tool_calls@ == c.tool_calls@
                &&& c.tool_calls@.len() == 0 ==> !(step.action is RunTool)
                &&& (c.tool_calls@.len() == 0 && !old(self).spec_config().require_done_tool
                    && (old(run).spec_hidden_injected() || old(self).spec_config().hidden_user_message_prompt is None)) ==> {
                    &&& step.action matches RunAction::Finish(f) && f@ == text_of(c.text)
                    &&& ends_with_final(step.events@, text_of(c.text))
                    &&& final(run).spec_status() == RunStatus::Finished
                    &&& final(self).spec_history().len() == old(self).spec_history().len() + 1
                }
                &&& (c.tool_calls@.len() == 0 && !old(self).spec_config().require_done_tool
                    && !old(run).spec_hidden_injected() && old(self).spec_config().hidden_user_message_prompt is Some) ==> {
                    &&& round_action_ok(step.action, *final(run), old(self).spec_config().max_iterations)
                    &&& final(run).spec_hidden_injected()
                    &&& final(self).spec_history().len() == old(self).spec_history().len() + 2
                    &&& final(self).spec_history()[old(self).spec_history().len() as int + 1]
                        == ModelMessage::User(old(self).spec_config().hidden_user_message_prompt->0)
                }
                &&& (c.tool_calls@.len() == 0 && old(self).spec_config().require_done_tool) ==> {
                    &&& round_action_ok(step.action, *final(run), old(self).spec_config().max_iterations)
                    &&& final(self).spec_history().len() == old(self).spec_history().len() + 1
                }
                &&& c.tool_calls@.len() > 0 ==> {
                    &&& final(run).spec_calls() == c.tool_calls@
                    &&& final(self).spec_history().len() == old(self).spec_history().len() + 1 + final(run).spec_next_call()
                    &&& skipped_calls(old(self).spec_tools(), c.tool_calls@, 0, final(run).spec_next_call() as int,
                        final(self).spec_history(), old(self).spec_history().len() as int + 1)
                    &&& run_tool_ok(step.action, *final(run), old(self).spec_tools())
                    &&& !(step.action is RunTool) ==> round_action_ok(step.action, *final(run), old(self).spec_config().max_iterations)
                    &&& !(step.action is RunTool) ==> final(run).spec_next_call() == c.tool_calls@.len()
                }
            },
    {
        assert(self.history@.subrange(0, self.history@.len() as int) =~= self.history@);
        let completion = match result {
            Err(e) => {
                match retry_decision(
                    &e,
                    run.attempt,
                    self.config.llm_max_retries,
                    self.config.llm_retry_base_delay_ms,
                    self.config.llm_retry_max_delay_ms,
                ) {
                    Some(delay_ms) => {
                        run.attempt = run.attempt + 1;
                        return Step { events: Vec::new(), action: RunAction::Wait { delay_ms } };
                    },
                    None => {
                        run.status = RunStatus::Finished;
                        return Step { events: Vec::new(), action: RunAction::Fail(AgentError::Provider(e)) };
                    },
                }
            },
            Ok(c) => c,
        };
        run.attempt = 0;
        run.rounds = run.rounds + 1;
        let ghost h0 = self.history@;
        let mut events: Vec<AgentEvent> = Vec::new();
        let id = self.next_message_id(AgentRole::Assistant);
        events.push(AgentEvent::MessageStart { message_id: id.clone(), role: AgentRole::Assistant });
        match &completion.thinking {
            Some(t) => {
                events.push(AgentEvent::Thinking { content: t.clone() });
            },
            None => {},
        }
        let ModelCompletion { text, thinking: _, tool_calls, usage: _ } = completion;
        self.history.push(ModelMessage::Assistant { content: copy_opt(&text), tool_calls: copy_calls(&tool_calls) });
        let ghost h1 = self.history@;
        assert(h1.subrange(0, h0.len() as int) =~= h0);
        let content = match &text {
            Some(t) => t.clone(),
            None => String::new(),
        };
        if content.unicode_len() > 0 {
            events.push(AgentEvent::Text { content: content.clone() });
        }
        events.push(AgentEvent::MessageComplete { message_id: id, content: content.clone() });
        let ghost pre = events@;
        proof {
            assert(no_final_event(pre));
            assert(no_hidden_event(pre));
            assert(pre.len() == head_len(completion));
            assert(assistant_head(pre, completion));
            assert(content@ == text_of(completion.text));
            if content@.len() > 0 {
                assert(pre[pre.len() - 2] is Text);
            }
            assert(text_events_ok(pre, text_of(completion.text)));
            assert(pre.subrange(0, pre.len() as int) =~= pre);
        }
        if tool_calls.len() == 0 {
            if !self.config.require_done_tool {
                if !run.hidden_injected {
                    match &self.config.hidden_user_message_prompt {
                        Some(h) => {
                            run.hidden_injected = true;
                            self.history.push(ModelMessage::User(h.clone()));
                            events.push(AgentEvent::HiddenUserMessage { content: h.clone() });
                            proof {
                                assert(events@.subrange(0, pre.len() as int) =~= pre);
                                lemma_text_events_kept(pre, events@, text_of(completion.text));
                                assert forall|i: int| 0 <= i < pre.len() implies events@[i] == pre[i] by {
                                    lemma_prefix_keeps(pre, events@, i);
                                }
                            }
                            assert(self.history@.subrange(0, h0.len() as int) =~= h0);
                            assert(self.history@[h0.len() as int] == h1[h0.len() as int]);
                            let action = self.next_round(run);
                            return Step { events, action };
                        },
                        None => {},
                    }
                }
                run.status = RunStatus::Finished;
                events.push(AgentEvent::FinalResponse { content: content.clone() });
                proof {
                    assert(events@.subrange(0, pre.len() as int) =~= pre);
                    lemma_text_events_kept(pre, events@, text_of(completion.text));
                    assert forall|i: int| 0 <= i < pre.len() implies events@[i] == pre[i] by {
                        lemma_prefix_keeps(pre, events@, i);
                    }
                }
                return Step { events, action: RunAction::Finish(content) };
            }
            let action = self.next_round(run);
            return Step { events, action };
        }
        run.calls = tool_calls;
        run.next_call = 0;
        run.step_number = 0;
        let action = self.advance_calls(run, &mut events);
        proof {
            assert(self.history@.subrange(0, h0.len() as int) =~= h0) by {
                assert(self.history@.subrange(0, h1.len() as int) == h1);
            }
            lemma_extends_keeps(h1, self.history@, h0.len() as int);
            lemma_text_events_kept(pre, events@, text_of(completion.text));
            assert forall|i: int| 0 <= i < pre.len() implies events@[i] == pre[i] by {
                lemma_prefix_keeps(pre, events@, i);
            }
            assert(events@[0] == pre[0]) by {
                assert(events@.subrange(0, pre.len() as int)[0] == events@[0]);
            }
            if completion.thinking is Some {
                assert(events@[1] == pre[1]) by {
                    assert(events@.subrange(0, pre.len() as int)[1] == events@[1]);
                }
            }
        }
        Step { events, action }
    }

    /// Takes the outcome of the handler that a `RunTool` action ran, with the
    /// time it took.
    pub fn on_tool_result(&mut self, run: &mut QueryRun, outcome: Result<ToolOutcome, ToolError>, duration_ms: u128) -> (step: Step)
        requires
            old(self).wf(),
            old(run).consistent(old(self).spec_config().max_iterations),
            old(run).spec_status() == RunStatus::AwaitingTool,
        ensures
            final(self).wf(),
            final(self).spec_tools() == old(self).spec_tools(),
            final(self).spec_config() == old(self).spec_config(),
            final(self).spec_dependencies() == old(self).spec_dependencies(),
            final(self).spec_overrides() == old(self).spec_overrides(),
            final(self).spec_model() == old(self).spec_model(),
            final(run).consistent(old(self).spec_config().max_iterations),
            final(run).spec_rounds() == old(run).spec_rounds(),
            final(run).spec_attempt() == old(run).spec_attempt(),
            final(run).spec_calls() == old(run).spec_calls(),
            final(run).spec_tool_choice() == old(run).spec_tool_choice(),
            final(run).spec_tool_definitions() == old(run).spec_tool_definitions(),
            extends(old(self).spec_history(), final(self).spec_history()),
            final(self).spec_history().len() > old(self).spec_history().len(),
            is_tool_result(
                final(self).spec_history()[old(self).spec_history().len() as int],
                old(run).spec_calls()[old(run).spec_next_call() as int],
                outcome_text(outcome),
                outcome is Err,
            ),
            step.events@.len() >= 2,
            step.events@[0] matches AgentEvent::ToolResult { tool, result_text, tool_call_id, is_error } && tool
                == old(run).spec_calls()[old(run).spec_next_call() as int].name && tool_call_id == old(
                run,
            ).spec_calls()[old(run).spec_next_call() as int].id && result_text@ == outcome_text(outcome)
                && is_error == (outcome is Err),
            step.events@[1] == (AgentEvent::StepComplete {
                step_id: old(run).spec_calls()[old(run).spec_next_call() as int].id,
                status: step_status(outcome is Err),
                duration_ms,
            }),
            !(step.action is Finish) ==> no_final_event(step.events@),
            no_hidden_event(step.events@),
            outcome matches Ok(ToolOutcome::Done(m)) ==> {
                &&& step.events@.len() == 3
                &&& step.action == RunAction::Finish(m)
                &&& ends_with_final(step.events@, m@)
                &&& final(run).spec_status() == RunStatus::Finished
                &&& final(self).spec_history().len() == old(self).spec_history().len() + 1
            },
            !(outcome matches Ok(ToolOutcome::Done(_))) ==> {
                &&& tool_step_events(step.events@, 0)
                &&& skipped_events(
                    old(self).spec_tools(),
                    old(run).spec_calls(),
                    old(run).spec_next_call() as int + 1,
                    final(run).spec_next_call() as int,
                    step.events@,
                    2,
                    old(run).spec_step_number(),
                )
                &&& !(step.action is RunTool) ==> step.events@.len() == 2 + 4 * (final(run).spec_next_call()
                    - old(run).spec_next_call() - 1)
                &&& step.action is RunTool ==> step.events@.len() == 2 + 4 * (final(run).spec_next_call()
                    - old(run).spec_next_call() - 1) + 2 && call_opening(
                    step.events@,
                    2 + 4 * (final(run).spec_next_call() - old(run).spec_next_call() - 1),
                    old(run).spec_calls()[final(run).spec_next_call() as int],
                    step_at(old(run).spec_step_number(), final(run).spec_next_call() - old(run).spec_next_call() - 1),
                )
                &&& final(run).spec_next_call() > old(run).spec_next_call()
                &&& final(self).spec_history().len() == old(self).spec_history().len() + (final(run).spec_next_call() - old(run).spec_next_call())
                &&& skipped_calls(old(self).spec_tools(), old(run).spec_calls(), old(run).spec_next_call() as int + 1,
                    final(run).spec_next_call() as int, final(self).spec_history(), old(self).spec_history().len() as int + 1)
                &&& run_tool_ok(step.action, *final(run), old(self).spec_tools())
                &&& !(step.action is RunTool) ==> round_action_ok(step.action, *final(run), old(self).spec_config().max_iterations)
            },
    {
        let ghost h0 = self.history@;
        let mut events: Vec<AgentEvent> = Vec::new();
        let idx = run.next_call;
        let n = run.calls.len();
        assert(idx < n);
        let (text, is_error, done) = match outcome {
            Ok(ToolOutcome::Text(t)) => (t, false, None),
            Ok(ToolOutcome::Done(m)) => (String::from_str("Task completed: ").concat(m.as_str()), false, Some(m)),
            Err(e) => (format_tool_error(e), true, None),
        };
        self.record_result(&run.calls[idx], text, is_error, duration_ms, &mut events);
        let ghost e1 = events@;
        let ghost h1 = self.history@;
        assert(h1.subrange(0, h0.len() as int) =~= h0);
        match done {
            Some(m) => {
                run.status = RunStatus::Finished;
                events.push(AgentEvent::FinalResponse { content: m.clone() });
                Step { events, action: RunAction::Finish(m) }
            },
            None => {
                run.next_call = idx + 1;
                let action = self.advance_calls(run, &mut events);
                proof {
                    assert(self.history@.subrange(0, h0.len() as int) =~= h0) by {
                        assert(self.history@.subrange(0, h1.len() as int) == h1);
                    }
                    lemma_extends_keeps(h1, self.history@, h0.len() as int);
                    assert(events@[0] == e1[0]) by {
                        assert(events@.subrange(0, e1.len() as int)[0] == events@[0]);
                    }
                    assert(events@[1] == e1[1]) by {
                        assert(events@.subrange(0, e1.len() as int)[1] == events@[1]);
                    }
                }
                Step { events, action }
            },
        }
    }
}

} // verus!
