//! A provider that answers from a script, and a synchronous run of a whole
//! query against it: the test double behind which the turn loop can be run
//! end to end without any I/O.
use vstd::prelude::*;
use vstd::string::*;
use crate::agent::{
    Agent, AgentEvent, RunAction, RunStatus, call_problem, describes, ends_with_final, extends,
    lemma_extends_keeps, no_final_event, no_hidden_event, resolved_choice, text_of,
};
use crate::deps::{DependencyMap, merged_slots};
use crate::error::{AgentError, ProviderError, ToolError};
use crate::model::{ModelCompletion, ModelMessage, ModelToolCall, ModelToolChoice, ModelToolDefinition, same_message};
use crate::retry::attempt_budget;
use crate::tools::ToolOutcome;

verus! {

/// A provider that returns its scripted responses in order, then fails with
/// a response-class error.
pub struct ScriptedProvider {
    responses: Vec<Result<ModelCompletion, ProviderError>>,
    invocations: usize,
    seen_tool_choices: Vec<ModelToolChoice>,
    seen_batches: Vec<Vec<ModelMessage>>,
    seen_definitions: Vec<Vec<ModelToolDefinition>>,
}

impl ScriptedProvider {
    /// The responses not yet returned.
    pub closed spec fn remaining(&self) -> Seq<Result<ModelCompletion, ProviderError>> {
        self.responses@
    }

    pub closed spec fn spec_invocations(&self) -> nat {
        self.invocations as nat
    }

    pub fn new(responses: Vec<Result<ModelCompletion, ProviderError>>) -> (r: Self)
        ensures
            r.remaining() == responses@,
            r.spec_invocations() == 0,
            r.spec_seen_tool_choices().len() == 0,
            r.spec_seen_batches().len() == 0,
            r.spec_seen_definitions().len() == 0,
    {
        ScriptedProvider { responses, invocations: 0, seen_tool_choices: Vec::new(), seen_batches: Vec::new(), seen_definitions: Vec::new() }
    }

    /// How many times the provider was invoked.
    pub fn invocations(&self) -> (r: usize)
        ensures
            r == self.spec_invocations(),
    {
        self.invocations
    }

    pub closed spec fn spec_seen_tool_choices(&self) -> Seq<ModelToolChoice> {
        self.seen_tool_choices@
    }

    pub closed spec fn spec_seen_batches(&self) -> Seq<Vec<ModelMessage>> {
        self.seen_batches@
    }

    pub closed spec fn spec_seen_definitions(&self) -> Seq<Vec<ModelToolDefinition>> {
        self.seen_definitions@
    }

    /// The tool definitions it was invoked with, in order.
    pub fn seen_definitions(&self) -> (r: &Vec<Vec<ModelToolDefinition>>)
        ensures
            r@ == self.spec_seen_definitions(),
    {
        &self.seen_definitions
    }

    /// The tool choices it was invoked with, in order.
    pub fn seen_tool_choices(&self) -> (r: &Vec<ModelToolChoice>)
        ensures
            r@ == self.spec_seen_tool_choices(),
    {
        &self.seen_tool_choices
    }

    /// The histories it was invoked with, in order.
    pub fn seen_batches(&self) -> (r: &Vec<Vec<ModelMessage>>)
        ensures
            r@ == self.spec_seen_batches(),
    {
        &self.seen_batches
    }

    /// Records what it was shown and returns the next scripted response.
    pub fn invoke(
        &mut self,
        messages: &Vec<ModelMessage>,
        tools: &Vec<ModelToolDefinition>,
        tool_choice: &ModelToolChoice,
    ) -> (r: Result<ModelCompletion, ProviderError>)
        ensures
            final(self).spec_invocations() == if old(self).spec_invocations() < usize::MAX {
                old(self).spec_invocations() + 1
            } else {
                old(self).spec_invocations()
            },
            old(self).remaining().len() > 0 ==> r == old(self).remaining()[0] && final(self).remaining()
                == old(self).remaining().drop_first(),
            old(self).remaining().len() == 0 ==> r is Err && r->Err_0 is Response && final(self).remaining().len() == 0,
            final(self).spec_seen_tool_choices() == old(self).spec_seen_tool_choices().push(*tool_choice),
            final(self).spec_seen_batches() == old(self).spec_seen_batches().push(final(self).spec_seen_batches().last()),
            final(self).spec_seen_batches().last()@.len() == messages@.len(),
            forall|i: int| 0 <= i < messages@.len() ==> same_message(
                #[trigger] final(self).spec_seen_batches().last()@[i],
                messages@[i],
            ),
            final(self).spec_seen_definitions() == old(self).spec_seen_definitions().push(final(self).spec_seen_definitions().last()),
            final(self).spec_seen_definitions().last()@ == tools@,
    {
        if self.invocations < usize::MAX {
            self.invocations = self.invocations + 1;
        }
        self.seen_tool_choices.push(tool_choice.copy());
        let mut batch: Vec<ModelMessage> = Vec::new();
        let mut i: usize = 0;
        while i < messages.len()
            invariant
                0 <= i <= messages@.len(),
                batch@.len() == i,
                forall|k: int| 0 <= k < i ==> same_message(#[trigger] batch@[k], messages@[k]),
            decreases messages.len() - i,
        {
            batch.push(messages[i].copy());
            i = i + 1;
        }
        self.seen_batches.push(batch);
        let mut defs: Vec<ModelToolDefinition> = Vec::new();
        let mut j: usize = 0;
        while j < tools.len()
            invariant
                0 <= j <= tools@.len(),
                defs@ == tools@.subrange(0, j as int),
            decreases tools.len() - j,
        {
            defs.push(tools[j].clone());
            j = j + 1;
            assert(defs@ =~= tools@.subrange(0, j as int));
        }
        assert(defs@ =~= tools@);
        self.seen_definitions.push(defs);
        if self.responses.len() > 0 {
            let r = self.responses.remove(0);
            assert(self.responses@ =~= old(self).responses@.drop_first());
            r
        } else {
            Err(ProviderError::Response(String::from_str("no more scripted responses")))
        }
    }
}

/// What a scripted query produced.
#[derive(Debug)]
pub struct ScriptedRun {
    pub result: Result<String, AgentError>,
    pub events: Vec<AgentEvent>,
    /// The waits that the retry policy asked for, in order.
    pub waits: Vec<u64>,
}

/// Every scripted response is a completion with at least one tool call.
pub open spec fn always_calls_tools(s: Seq<Result<ModelCompletion, ProviderError>>) -> bool {
    forall|k: int| 0 <= k < s.len() ==> (#[trigger] s[k] matches Ok(c) && c.tool_calls@.len() > 0)
}

/// Every scripted response is a completion without tool calls.
pub open spec fn never_calls_tools(s: Seq<Result<ModelCompletion, ProviderError>>) -> bool {
    forall|k: int| 0 <= k < s.len() ==> (#[trigger] s[k] matches Ok(c) && c.tool_calls@.len() == 0)
}

/// What a handler is run with: the index of a tool named as the call, a call
/// whose arguments that tool's schema accepts, and the dependencies merged
/// from the base and the overrides.
pub open spec fn handler_input<M, V: Clone>(agent: Agent<M, V>, i: usize, c: ModelToolCall, d: DependencyMap<V>) -> bool {
    &&& i < agent.spec_tools().len()
    &&& agent.spec_tools()[i as int].spec_name() == c.name@
    &&& call_problem(agent.spec_tools(), c) is None
    &&& merged_slots(agent.spec_dependencies().typed_view(), agent.spec_overrides().typed_view(), d.typed_view())
    &&& merged_slots(agent.spec_dependencies().named_view(), agent.spec_overrides().named_view(), d.named_view())
}

/// The handler never signals explicit completion.
pub open spec fn never_done<V, H: Fn(usize, ModelToolCall, DependencyMap<V>) -> Result<ToolOutcome, ToolError>>(
    handler: H,
) -> bool {
    forall|i: usize, c: ModelToolCall, d: DependencyMap<V>, o: Result<ToolOutcome, ToolError>|
        #[trigger] handler.ensures((i, c, d), o) ==> !(o matches Ok(ToolOutcome::Done(_)))
}

/// The handler signals explicit completion whenever it runs `call`.
pub open spec fn always_done_for<V, H: Fn(usize, ModelToolCall, DependencyMap<V>) -> Result<ToolOutcome, ToolError>>(
    handler: H,
    call: ModelToolCall,
) -> bool {
    forall|i: usize, d: DependencyMap<V>, o: Result<ToolOutcome, ToolError>|
        #[trigger] handler.ensures((i, call, d), o) ==> (o matches Ok(ToolOutcome::Done(_)))
}

/// The first tool call of the first scripted completion.
pub open spec fn first_call(script: Seq<Result<ModelCompletion, ProviderError>>) -> ModelToolCall {
    script[0]->Ok_0.tool_calls@[0]
}

/// The first scripted completion calls tools, its first call names a tool
/// and has valid arguments, and the handler signals completion for that call.
pub open spec fn first_call_done<V, H: Fn(usize, ModelToolCall, DependencyMap<V>) -> Result<ToolOutcome, ToolError>>(
    script: Seq<Result<ModelCompletion, ProviderError>>,
    tools: Seq<crate::tools::ToolSpec>,
    handler: H,
    max: u32,
) -> bool {
    &&& max > 0
    &&& script.len() > 0
    &&& script[0] is Ok
    &&& script[0]->Ok_0.tool_calls@.len() > 0
    &&& call_problem(tools, first_call(script)) is None
    &&& always_done_for::<V, H>(handler, first_call(script))
}

/// The handler, run on `call`, can return explicit completion with message `m`.
pub open spec fn done_by<V, H: Fn(usize, ModelToolCall, DependencyMap<V>) -> Result<ToolOutcome, ToolError>>(
    handler: H,
    call: ModelToolCall,
    m: Seq<char>,
) -> bool {
    exists|i: usize, d: DependencyMap<V>, s: String|
        s@ == m && #[trigger] handler.ensures((i, call, d), Ok::<ToolOutcome, ToolError>(ToolOutcome::Done(s)))
}

/// The handler returns text whenever it runs `call`.
pub open spec fn always_text_for<V, H: Fn(usize, ModelToolCall, DependencyMap<V>) -> Result<ToolOutcome, ToolError>>(
    handler: H,
    call: ModelToolCall,
) -> bool {
    forall|i: usize, d: DependencyMap<V>, o: Result<ToolOutcome, ToolError>|
        #[trigger] handler.ensures((i, call, d), o) ==> (o matches Ok(ToolOutcome::Text(_)))
}

/// The handler, run on `call`, can return the text `t`.
pub open spec fn text_by<V, H: Fn(usize, ModelToolCall, DependencyMap<V>) -> Result<ToolOutcome, ToolError>>(
    handler: H,
    call: ModelToolCall,
    t: Seq<char>,
) -> bool {
    exists|i: usize, d: DependencyMap<V>, s: String|
        s@ == t && #[trigger] handler.ensures((i, call, d), Ok::<ToolOutcome, ToolError>(ToolOutcome::Text(s)))
}

/// The first scripted completion makes exactly one call, of a tool that
/// accepts its arguments and whose handler answers it with text, and the run
/// may take more than one round.
pub open spec fn first_call_text<V, H: Fn(usize, ModelToolCall, DependencyMap<V>) -> Result<ToolOutcome, ToolError>>(
    script: Seq<Result<ModelCompletion, ProviderError>>,
    tools: Seq<crate::tools::ToolSpec>,
    handler: H,
    max: u32,
) -> bool {
    &&& max > 1
    &&& script.len() > 0
    &&& script[0] is Ok
    &&& script[0]->Ok_0.tool_calls@.len() == 1
    &&& call_problem(tools, first_call(script)) is None
    &&& always_text_for::<V, H>(handler, first_call(script))
}

/// The message records the result of `call` as text that the handler returned.
pub open spec fn text_result_of<V, H: Fn(usize, ModelToolCall, DependencyMap<V>) -> Result<ToolOutcome, ToolError>>(
    m: ModelMessage,
    handler: H,
    call: ModelToolCall,
) -> bool {
    m matches ModelMessage::ToolResult { tool_call_id, tool_name, content, is_error } && tool_call_id == call.id
        && tool_name == call.name && !is_error && text_by::<V, H>(handler, call, content@)
}

/// The script opens with `e` request-class failures (fewer than the attempt
/// budget), then `j` completions that call tools, then a completion without
/// tool calls, within `max` rounds.
pub open spec fn settles(
    script: Seq<Result<ModelCompletion, ProviderError>>,
    e: nat,
    j: nat,
    budget: nat,
    max: nat,
) -> bool {
    &&& e < budget
    &&& j < max
    &&& e + j < script.len()
    &&& forall|k: int| 0 <= k < e ==> (#[trigger] script[k] matches Err(ProviderError::Request(_)))
    &&& forall|k: int| e <= k < e + j ==> (#[trigger] script[k] matches Ok(c) && c.tool_calls@.len() > 0)
    &&& script[(e + j) as int] matches Ok(c) && c.tool_calls@.len() == 0
}

/// The history entry that ends a run with the final response `f`: an assistant
/// message without tool calls whose text is `f`, or the result of the
/// completion tool carrying `f`.
pub open spec fn finished_entry(m: ModelMessage, f: Seq<char>) -> bool {
    ||| (m matches ModelMessage::Assistant { content, tool_calls } && tool_calls@.len() == 0 && text_of(content) == f)
    ||| (m matches ModelMessage::ToolResult { content, is_error, .. } && !is_error && content@ == "Task completed: "@ + f)
}

/// The batch is, message by message, the start of `history`.
pub open spec fn batch_prefix(batch: Seq<ModelMessage>, history: Seq<ModelMessage>) -> bool {
    batch.len() <= history.len() && forall|i: int| 0 <= i < batch.len() ==> same_message(#[trigger] batch[i], history[i])
}

proof fn lemma_no_events_concat(a: Seq<AgentEvent>, b: Seq<AgentEvent>)
    ensures
        no_final_event(a) && no_final_event(b) ==> no_final_event(a + b),
        no_hidden_event(a) && no_hidden_event(b) ==> no_hidden_event(a + b),
{
    assert forall|k: int| 0 <= k < (a + b).len() implies (a + b)[k] == if k < a.len() {
        a[k]
    } else {
        b[k - a.len()]
    } by {}
}

proof fn lemma_settles_unique(
    script: Seq<Result<ModelCompletion, ProviderError>>,
    e: nat,
    j: nat,
    e2: nat,
    j2: nat,
    budget: nat,
    max: nat,
)
    requires
        settles(script, e, j, budget, max),
        settles(script, e2, j2, budget, max),
    ensures
        e == e2 && j == j2,
{
    if e < e2 {
        assert(script[e as int] matches Err(_));
    }
    if e2 < e {
        assert(script[e2 as int] matches Err(_));
    }
    if j < j2 {
        assert(script[(e + j) as int] matches Ok(c) && c.tool_calls@.len() > 0);
    }
    if j2 < j {
        assert(script[(e + j2) as int] matches Ok(c) && c.tool_calls@.len() > 0);
    }
}

impl<M, V: Clone> Agent<M, V> {
    /// Runs a whole query against a scripted provider. `handler` runs the tool
    /// at the given index, with the runtime dependencies merged for that run.
    /// Waits are recorded, not slept.
    pub fn query_scripted<H: Fn(usize, ModelToolCall, DependencyMap<V>) -> Result<ToolOutcome, ToolError>>(
        &mut self,
        user_message: String,
        provider: &mut ScriptedProvider,
        handler: &H,
    ) -> (r: ScriptedRun)
        requires
            old(self).wf(),
            forall|i: usize, c: ModelToolCall, d: DependencyMap<V>|
                handler_input(*old(self), i, c, d) ==> #[trigger] handler.requires((i, c, d)),
        ensures
            final(self).wf(),
            final(self).spec_tools() == old(self).spec_tools(),
            final(self).spec_config() == old(self).spec_config(),
            final(self).spec_dependencies() == old(self).spec_dependencies(),
            final(self).spec_overrides() == old(self).spec_overrides(),
            final(self).spec_model() == old(self).spec_model(),
            extends(old(self).spec_history(), final(self).spec_history()),
            // what the provider was shown, at each of its calls in this run
            old(provider).spec_seen_tool_choices().len() <= final(provider).spec_seen_tool_choices().len(),
            forall|k: int|
                old(provider).spec_seen_tool_choices().len() <= k < final(provider).spec_seen_tool_choices().len()
                    ==> #[trigger] final(provider).spec_seen_tool_choices()[k] == resolved_choice(
                    old(self).spec_config().tool_choice,
                    old(self).spec_tools().len() > 0,
                ),
            forall|k: int|
                old(provider).spec_seen_definitions().len() <= k < final(provider).spec_seen_definitions().len()
                    ==> describes(#[trigger] final(provider).spec_seen_definitions()[k]@, old(self).spec_tools()),
            forall|k: int|
                old(provider).spec_seen_batches().len() <= k < final(provider).spec_seen_batches().len()
                    ==> batch_prefix(#[trigger] final(provider).spec_seen_batches()[k]@, final(self).spec_history()),
            // how the history starts
            final(self).spec_history().len() > old(self).spec_history().len(),
            (old(self).spec_history().len() > 0 || old(self).spec_config().system_prompt is None) ==> final(self).spec_history()[old(
                self,
            ).spec_history().len() as int] == ModelMessage::User(user_message),
            final(provider).spec_seen_batches().len() > old(provider).spec_seen_batches().len() ==> final(provider).spec_seen_batches()[old(
                provider,
            ).spec_seen_batches().len() as int]@.len() == old(self).spec_history().len() + if old(self).spec_history().len() == 0
                && old(self).spec_config().system_prompt is Some {
                2int
            } else {
                1int
            },
            // the second provider call sees the result of a first, single tool call
            first_call_text::<V, H>(old(provider).remaining(), old(self).spec_tools(), *handler, old(self).spec_config().max_iterations)
                && final(provider).spec_seen_batches().len() > old(provider).spec_seen_batches().len() + 1 ==> {
                let b = final(provider).spec_seen_batches()[old(provider).spec_seen_batches().len() as int + 1]@;
                let p = old(self).spec_history().len() + if old(self).spec_history().len() == 0
                    && old(self).spec_config().system_prompt is Some {
                    3int
                } else {
                    2int
                };
                p < b.len() && text_result_of::<V, H>(b[p], *handler, first_call(old(provider).remaining()))
            },
            // how the run ended
            r.result is Err ==> no_final_event(r.events@),
            old(self).spec_config().require_done_tool ==> no_hidden_event(r.events@),
            r.result matches Ok(s) ==> ends_with_final(r.events@, s@) && final(self).spec_history().len() > 0
                && finished_entry(final(self).spec_history().last(), s@),
            r.result matches Err(e) ==> e == (AgentError::MaxIterationsReached {
                max_iterations: old(self).spec_config().max_iterations,
            }) || e is Provider,
            (always_calls_tools(old(provider).remaining()) && never_done::<V, H>(*handler) && old(provider).remaining().len()
                >= old(self).spec_config().max_iterations) ==> r.result == Err::<String, AgentError>(
                AgentError::MaxIterationsReached { max_iterations: old(self).spec_config().max_iterations },
            ) && final(provider).remaining() == old(provider).remaining().subrange(
                old(self).spec_config().max_iterations as int,
                old(provider).remaining().len() as int,
            ),
            (old(self).spec_config().require_done_tool && never_calls_tools(old(provider).remaining())
                && old(provider).remaining().len() >= old(self).spec_config().max_iterations) ==> r.result
                == Err::<String, AgentError>(
                AgentError::MaxIterationsReached { max_iterations: old(self).spec_config().max_iterations },
            ) && final(provider).remaining() == old(provider).remaining().subrange(
                old(self).spec_config().max_iterations as int,
                old(provider).remaining().len() as int,
            ),
            forall|e: nat, j: nat|
                #![trigger settles(old(provider).remaining(), e, j, attempt_budget(old(self).spec_config().llm_max_retries), old(self).spec_config().max_iterations as nat)]
                (settles(
                    old(provider).remaining(),
                    e,
                    j,
                    attempt_budget(old(self).spec_config().llm_max_retries),
                    old(self).spec_config().max_iterations as nat,
                ) && !old(self).spec_config().require_done_tool && old(self).spec_config().hidden_user_message_prompt is None
                    && never_done::<V, H>(*handler)) ==> (r.result matches Ok(s) && s@ == text_of(
                    old(provider).remaining()[(e + j) as int]->Ok_0.text,
                )) && final(provider).remaining() == old(provider).remaining().subrange(
                    (e + j + 1) as int,
                    old(provider).remaining().len() as int,
                ),
            (old(provider).remaining().len() == 0 && old(self).spec_config().max_iterations > 0) ==> (r.result matches Err(
                AgentError::Provider(ProviderError::Response(_)),
            )),
            first_call_done::<V, H>(old(provider).remaining(), old(self).spec_tools(), *handler, old(self).spec_config().max_iterations)
                ==> ((r.result matches Ok(s) && done_by::<V, H>(*handler, first_call(old(provider).remaining()), s@))
                && final(provider).remaining() == old(provider).remaining().drop_first()),
    {
        let ghost max = self.spec_config().max_iterations;
        let ghost budget = attempt_budget(self.spec_config().llm_max_retries);
        let ghost script = provider.remaining();
        let ghost tools = self.spec_tools();
        let ghost choice = resolved_choice(self.spec_config().tool_choice, self.spec_tools().len() > 0);
        let ghost h_start = self.spec_history();
        let ghost sc0 = provider.spec_seen_tool_choices().len();
        let ghost sd0 = provider.spec_seen_definitions().len();
        let ghost sb0 = provider.spec_seen_batches().len();
        let ghost looping = (always_calls_tools(script) && never_done::<V, H>(*handler) && script.len() >= max) || (
        self.spec_config().require_done_tool && never_calls_tools(script) && script.len() >= max);
        let ghost plain = !self.spec_config().require_done_tool && self.spec_config().hidden_user_message_prompt is None
            && never_done::<V, H>(*handler);
        let ghost settled = plain && exists|e: nat, j: nat| settles(script, e, j, budget, max as nat);
        let ghost ej = if settled {
            choose|p: (nat, nat)| settles(script, p.0, p.1, budget, max as nat)
        } else {
            (0nat, 0nat)
        };
        proof {
            if settled {
                let (e, j) = choose|e: nat, j: nat| settles(script, e, j, budget, max as nat);
                assert(settles(script, e, j, budget, max as nat));
                assert(settles(script, ej.0, ej.1, budget, max as nat));
            }
        }
        let ghost empty = script.len() == 0 && max > 0;
        let ghost call0 = first_call(script);
        let ghost fdone = first_call_done::<V, H>(script, tools, *handler, max);
        let ghost ftext = first_call_text::<V, H>(script, tools, *handler, max);
        let ghost mut wi: usize = 0;
        let ghost mut wd: DependencyMap<V> = arbitrary();
        let ghost um = user_message;
        let (mut run, first) = self.begin_query(user_message);
        let mut events = first.events;
        let mut action = first.action;
        let mut waits: Vec<u64> = Vec::new();
        let ghost h1 = self.spec_history();
        assert(h1.subrange(0, h1.len() as int) =~= h1);
        assert(h1.len() == h_start.len() + if h_start.len() == 0 && old(self).spec_config().system_prompt is Some {
            2int
        } else {
            1int
        });
        assert(self.spec_history().subrange(0, h_start.len() as int) =~= h_start) by {
            assert(self.spec_history().len() >= h_start.len());
        }
        loop
            invariant
                self.wf(),
                script == old(provider).remaining(),
                tools == old(self).spec_tools(),
                h_start == old(self).spec_history(),
                budget == attempt_budget(self.spec_config().llm_max_retries),
                choice == resolved_choice(old(self).spec_config().tool_choice, old(self).spec_tools().len() > 0),
                sc0 == old(provider).spec_seen_tool_choices().len(),
                sd0 == old(provider).spec_seen_definitions().len(),
                sb0 == old(provider).spec_seen_batches().len(),
                looping == ((always_calls_tools(script) && never_done::<V, H>(*handler) && script.len() >= max) || (
                    self.spec_config().require_done_tool && never_calls_tools(script) && script.len() >= max)),
                plain == (!self.spec_config().require_done_tool && self.spec_config().hidden_user_message_prompt is None
                    && never_done::<V, H>(*handler)),
                settled ==> plain && settles(script, ej.0, ej.1, budget, max as nat),
                fdone == first_call_done::<V, H>(script, tools, *handler, max),
                ftext == first_call_text::<V, H>(script, tools, *handler, max),
                ftext ==> {
                    ||| (run.spec_rounds() == 0 && run.spec_attempt() == 0 && action is Invoke && provider.remaining() == script
                        && provider.spec_seen_batches().len() == sb0)
                    ||| (action matches RunAction::RunTool { call, .. } && call == call0 && run.spec_rounds() == 1
                        && provider.spec_seen_batches().len() == sb0 + 1 && self.spec_history().len() == h1.len() + 1
                        && run.spec_next_call() == 0 && run.spec_calls().len() == 1 && run.spec_calls()[0] == call0)
                    ||| ({
                        &&& run.spec_rounds() >= 1
                        &&& self.spec_history().len() > h1.len() + 1
                        &&& text_result_of::<V, H>(self.spec_history()[h1.len() as int + 1], *handler, call0)
                        &&& provider.spec_seen_batches().len() > sb0 + 1 ==> (h1.len() + 1 < provider.spec_seen_batches()[sb0 as int + 1]@.len()
                            && text_result_of::<V, H>(provider.spec_seen_batches()[sb0 as int + 1]@[h1.len() as int + 1], *handler, call0))
                    })
                },
                call0 == first_call(script),
                settled == (plain && exists|e: nat, j: nat| #[trigger] settles(script, e, j, budget, max as nat)),
                max == old(self).spec_config().max_iterations,
                empty == (script.len() == 0 && max > 0),
                fdone ==> max > 0 && script.len() > 0 && script[0] is Ok && script[0]->Ok_0.tool_calls@.len() > 0
                    && call0 == script[0]->Ok_0.tool_calls@[0] && call_problem(tools, call0) is None
                    && always_done_for::<V, H>(*handler, call0),
                self.spec_config().max_iterations == max,
                self.spec_config() == old(self).spec_config(),
                self.spec_tools() == old(self).spec_tools(),
                self.spec_dependencies() == old(self).spec_dependencies(),
                self.spec_overrides() == old(self).spec_overrides(),
                self.spec_model() == old(self).spec_model(),
                extends(h_start, self.spec_history()),
                extends(h1, self.spec_history()),
                um == user_message,
                h1.len() == h_start.len() + if h_start.len() == 0 && old(self).spec_config().system_prompt is Some {
                    2int
                } else {
                    1int
                },
                (h_start.len() > 0 || old(self).spec_config().system_prompt is None) ==> h1[h_start.len() as int]
                    == ModelMessage::User(um),
                provider.spec_seen_batches().len() == sb0 ==> self.spec_history() == h1,
                action is RunTool ==> run.spec_rounds() > 0,
                action matches RunAction::RunTool { tool_index, call } ==> tool_index < tools.len()
                    && tools[tool_index as int].spec_name() == call.name@ && call_problem(tools, call) is None,
                run.spec_rounds() > 0 ==> provider.spec_seen_batches().len() > sb0,
                provider.spec_seen_batches().len() > sb0 ==> provider.spec_seen_batches()[sb0 as int]@.len() == h1.len(),
                forall|i: usize, c: ModelToolCall, d: DependencyMap<V>|
                    handler_input(*old(self), i, c, d) ==> #[trigger] handler.requires((i, c, d)),
                run.consistent(max),
                run.spec_tool_choice() == choice,
                describes(run.spec_tool_definitions(), tools),
                sc0 <= provider.spec_seen_tool_choices().len(),
                sd0 <= provider.spec_seen_definitions().len(),
                sb0 <= provider.spec_seen_batches().len(),
                forall|k: int| sc0 <= k < provider.spec_seen_tool_choices().len() ==> #[trigger] provider.spec_seen_tool_choices()[k] == choice,
                forall|k: int| sd0 <= k < provider.spec_seen_definitions().len() ==> describes(#[trigger] provider.spec_seen_definitions()[k]@, tools),
                forall|k: int| sb0 <= k < provider.spec_seen_batches().len() ==> batch_prefix(#[trigger] provider.spec_seen_batches()[k]@, self.spec_history()),
                (action is Invoke || action is Wait) ==> run.spec_status() == RunStatus::AwaitingCompletion,
                action is RunTool ==> run.spec_status() == RunStatus::AwaitingTool,
                run.spec_attempt() < budget,
                action matches RunAction::Finish(f) ==> ends_with_final(events@, f@) && self.spec_history().len() > 0
                    && finished_entry(self.spec_history().last(), f@),
                action matches RunAction::Fail(e) ==> e == (AgentError::MaxIterationsReached { max_iterations: max }) || e is Provider,
                !(action is Finish) ==> no_final_event(events@),
                self.spec_config().require_done_tool ==> no_hidden_event(events@),
                looping ==> run.spec_attempt() == 0,
                looping ==> !(action is Wait),
                looping ==> !(action is Finish),
                (self.spec_config().require_done_tool && never_calls_tools(script) && script.len() >= max) ==> !(action is RunTool),
                looping ==> (action matches RunAction::Fail(e) ==> e == (AgentError::MaxIterationsReached { max_iterations: max })
                    && run.spec_rounds() == max),
                looping ==> provider.remaining() == script.subrange(run.spec_rounds() as int, script.len() as int),
                settled && run.spec_rounds() == 0 ==> {
                    &&& run.spec_attempt() <= ej.0
                    &&& provider.remaining() == script.subrange(run.spec_attempt() as int, script.len() as int)
                    &&& (action is Invoke || action is Wait)
                },
                settled && run.spec_rounds() > 0 ==> {
                    &&& run.spec_rounds() <= ej.1 + 1
                    &&& provider.remaining() == script.subrange((ej.0 + run.spec_rounds()) as int, script.len() as int)
                    &&& !(action is Fail)
                    &&& run.spec_rounds() <= ej.1 ==> !(action is Finish)
                    &&& run.spec_rounds() == ej.1 + 1 ==> (action matches RunAction::Finish(f) && f@ == text_of(script[(ej.0 + ej.1) as int]->Ok_0.text))
                },
                empty ==> (run.spec_rounds() == 0 && provider.remaining().len() == 0 && (action is Invoke
                    || action matches RunAction::Fail(AgentError::Provider(ProviderError::Response(_))))),
                fdone ==> {
                    ||| (run.spec_rounds() == 0 && run.spec_attempt() == 0 && action is Invoke && provider.remaining() == script)
                    ||| (action matches RunAction::RunTool { call, .. } && call == call0 && provider.remaining() == script.drop_first())
                    ||| (action matches RunAction::Finish(f) && provider.remaining() == script.drop_first()
                        && handler.ensures((wi, call0, wd), Ok::<ToolOutcome, ToolError>(ToolOutcome::Done(f))))
                },
            decreases
                (if action is Finish || action is Fail {
                    0nat
                } else {
                    1nat
                }),
                max - run.spec_rounds(),
                budget - run.spec_attempt(),
                run.spec_calls().len() - run.spec_next_call(),
        {
            match action {
                RunAction::Finish(s) => {
                    proof {
                        lemma_extends_keeps(h1, self.spec_history(), h_start.len() as int);
                        assert(um == user_message);
                        if h_start.len() > 0 || old(self).spec_config().system_prompt is None {
                            assert(self.spec_history()[h_start.len() as int] == ModelMessage::User(um));
                        }
                    }
                    proof {
                        if fdone {
                            assert(handler.ensures((wi, call0, wd), Ok::<ToolOutcome, ToolError>(ToolOutcome::Done(s))));
                            assert(done_by::<V, H>(*handler, call0, s@));
                        }
                        assert forall|e: nat, j: nat| #[trigger] settles(script, e, j, budget, max as nat) && plain implies settled
                            && e == ej.0 && j == ej.1 by {
                            assert(exists|e2: nat, j2: nat| settles(script, e2, j2, budget, max as nat));
                            lemma_settles_unique(script, e, j, ej.0, ej.1, budget, max as nat);
                        }
                    }
                    return ScriptedRun { result: Ok(s), events, waits };
                },
                RunAction::Fail(e) => {
                    proof {
                        lemma_extends_keeps(h1, self.spec_history(), h_start.len() as int);
                        assert(um == user_message);
                        if h_start.len() > 0 || old(self).spec_config().system_prompt is None {
                            assert(self.spec_history()[h_start.len() as int] == ModelMessage::User(um));
                        }
                    }
                    proof {
                        assert forall|e: nat, j: nat| #[trigger] settles(script, e, j, budget, max as nat) && plain implies settled
                            && e == ej.0 && j == ej.1 by {
                            assert(exists|e2: nat, j2: nat| settles(script, e2, j2, budget, max as nat));
                            lemma_settles_unique(script, e, j, ej.0, ej.1, budget, max as nat);
                        }
                    }
                    return ScriptedRun { result: Err(e), events, waits };
                },
                RunAction::RunTool { tool_index, call } => {
                    let ghost h_before = self.spec_history();
                    let ghost call_in = call;
                    let deps = self.runtime_dependencies();
                    let ghost d_in = deps;
                    assert(handler_input(*old(self), tool_index, call_in, d_in));
                    let outcome = handler(tool_index, call, deps);
                    let ghost o_in = outcome;
                    let mut step = self.on_tool_result(&mut run, outcome, 0);
                    let ghost tail = step.events@;
                    let ghost ev_before = events@;
                    events.append(&mut step.events);
                    proof {
                        lemma_no_events_concat(ev_before, tail);
                        if tail.len() > 0 {
                            assert(events@.last() == tail.last());
                        }
                        assert forall|k: int| sb0 <= k < provider.spec_seen_batches().len() implies batch_prefix(
                            #[trigger] provider.spec_seen_batches()[k]@,
                            self.spec_history(),
                        ) by {
                            let b = provider.spec_seen_batches()[k]@;
                            assert forall|i: int| 0 <= i < b.len() implies same_message(#[trigger] b[i], self.spec_history()[i]) by {
                                lemma_extends_keeps(h_before, self.spec_history(), i);
                            }
                        }
                        assert(self.spec_history().subrange(0, h_start.len() as int) =~= h_start) by {
                            assert forall|i: int| 0 <= i < h_start.len() implies self.spec_history()[i] == h_start[i] by {
                                lemma_extends_keeps(h_before, self.spec_history(), i);
                                lemma_extends_keeps(h_start, h_before, i);
                            }
                        }
                        assert(self.spec_history().subrange(0, h1.len() as int) =~= h1) by {
                            assert forall|i: int| 0 <= i < h1.len() implies self.spec_history()[i] == h1[i] by {
                                lemma_extends_keeps(h_before, self.spec_history(), i);
                                lemma_extends_keeps(h1, h_before, i);
                            }
                        }
                        if ftext && call_in == call0 && provider.spec_seen_batches().len() == sb0 + 1 && h_before.len() == h1.len() + 1 {
                            assert(handler.ensures((tool_index, call0, d_in), o_in));
                            assert(o_in matches Ok(ToolOutcome::Text(_)));
                            let t = o_in->Ok_0->Text_0;
                            assert(handler.ensures((tool_index, call0, d_in), Ok::<ToolOutcome, ToolError>(ToolOutcome::Text(t))));
                            assert(text_by::<V, H>(*handler, call0, t@));
                            assert(self.spec_history()[h1.len() as int + 1] matches ModelMessage::ToolResult { content, .. } && content@ == t@);
                            assert(text_result_of::<V, H>(self.spec_history()[h1.len() as int + 1], *handler, call0));
                        }
                        if ftext && !(call_in == call0 && provider.spec_seen_batches().len() == sb0 + 1 && h_before.len() == h1.len() + 1) {
                            lemma_extends_keeps(h_before, self.spec_history(), h1.len() as int + 1);
                        }
                        if fdone && call_in == call0 {
                            assert(handler.ensures((tool_index, call0, d_in), o_in));
                            assert(o_in matches Ok(ToolOutcome::Done(_)));
                            let m = o_in->Ok_0->Done_0;
                            assert(step.action == RunAction::Finish(m));
                            assert(handler.ensures((tool_index, call0, d_in), Ok::<ToolOutcome, ToolError>(ToolOutcome::Done(m))));
                            assert(provider.remaining() == script.drop_first());
                            wi = tool_index;
                            wd = d_in;
                            assert(exists|i: usize, d: DependencyMap<V>| #[trigger] handler.ensures((i, call0, d), Ok::<ToolOutcome, ToolError>(ToolOutcome::Done(m))));
                        }
                    }
                    action = step.action;
                },
                other => {
                    match other {
                        RunAction::Wait { delay_ms } => {
                            waits.push(delay_ms);
                        },
                        _ => {},
                    }
                    let ghost h_before = self.spec_history();
                    let ghost before = provider.remaining();
                    let ghost rounds0 = run.spec_rounds();
                    let ghost attempt0 = run.spec_attempt();
                    let ghost old_batches = provider.spec_seen_batches();
                    let res = provider.invoke(self.messages(), run.tool_definitions(), run.tool_choice());
                    proof {
                        if looping {
                            assert(before[0] == script[run.spec_rounds() as int]);
                            assert(before.drop_first() =~= script.subrange(run.spec_rounds() as int + 1, script.len() as int));
                        }
                        if settled && rounds0 == 0 {
                            assert(before[0] == script[attempt0 as int]);
                            assert(before.drop_first() =~= script.subrange(attempt0 as int + 1, script.len() as int));
                        }
                        if settled && rounds0 > 0 {
                            assert(before[0] == script[(ej.0 + rounds0) as int]);
                            assert(before.drop_first() =~= script.subrange((ej.0 + rounds0) as int + 1, script.len() as int));
                        }
                    }
                    let ghost res_in = res;
                    let mut step = self.on_completion(&mut run, res);
                    let ghost tail = step.events@;
                    let ghost ev_before = events@;
                    events.append(&mut step.events);
                    proof {
                        lemma_no_events_concat(ev_before, tail);
                        if tail.len() > 0 {
                            assert(events@.last() == tail.last());
                        }
                        let hb = provider.spec_seen_batches();
                        assert forall|k: int| sb0 <= k < hb.len() implies batch_prefix(#[trigger] hb[k]@, self.spec_history()) by {
                            let b = hb[k]@;
                            if k < hb.len() - 1 {
                                assert(batch_prefix(b, h_before));
                            }
                            assert forall|i: int| 0 <= i < b.len() implies same_message(#[trigger] b[i], self.spec_history()[i]) by {
                                lemma_extends_keeps(h_before, self.spec_history(), i);
                            }
                        }
                        assert(self.spec_history().subrange(0, h_start.len() as int) =~= h_start) by {
                            assert forall|i: int| 0 <= i < h_start.len() implies self.spec_history()[i] == h_start[i] by {
                                lemma_extends_keeps(h_before, self.spec_history(), i);
                                lemma_extends_keeps(h_start, h_before, i);
                            }
                        }
                        assert(self.spec_history().subrange(0, h1.len() as int) =~= h1) by {
                            assert forall|i: int| 0 <= i < h1.len() implies self.spec_history()[i] == h1[i] by {
                                lemma_extends_keeps(h_before, self.spec_history(), i);
                                lemma_extends_keeps(h1, h_before, i);
                            }
                        }
                        if ftext && rounds0 == 0 {
                            assert(res_in == script[0]);
                            let c = script[0]->Ok_0;
                            assert(run.spec_calls() == c.tool_calls@);
                            assert(call0 == c.tool_calls@[0]);
                            if run.spec_next_call() > 0 {
                                assert(call_problem(old(self).spec_tools(), c.tool_calls@[0]) is Some);
                            }
                            assert(run.spec_next_call() == 0);
                            assert(step.action matches RunAction::RunTool { call, .. } && call == call0);
                            assert(run.spec_calls()[0] == call0);
                        }
                        if ftext && rounds0 > 0 && h_before.len() > h1.len() + 1 {
                            lemma_extends_keeps(h_before, self.spec_history(), h1.len() as int + 1);
                            if hb.len() == sb0 + 2 {
                                assert(same_message(hb[sb0 as int + 1]@[h1.len() as int + 1], h_before[h1.len() as int + 1]));
                            } else if hb.len() > sb0 + 2 {
                                assert(hb[sb0 as int + 1] == old_batches[sb0 as int + 1]);
                            }
                        }
                        if fdone && rounds0 == 0 {
                            assert(res_in == script[0]);
                            let c = script[0]->Ok_0;
                            assert(run.spec_calls() == c.tool_calls@);
                            assert(call0 == c.tool_calls@[0]);
                            if run.spec_next_call() > 0 {
                                assert(call_problem(old(self).spec_tools(), c.tool_calls@[0]) is Some);
                            }
                            assert(run.spec_next_call() == 0);
                            assert(step.action is RunTool);
                            assert(step.action matches RunAction::RunTool { call, .. } && call == call0);
                            assert(provider.remaining() == script.drop_first());
                        }
                    }
                    action = step.action;
                },
            }
        }
    }
}

} // verus!
