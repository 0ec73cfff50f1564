use std::any::TypeId;

use agent_sdk_rs::agent::{Agent, AgentConfig, AgentEvent, AgentRole, AgentToolChoice, RunAction, RunStatus, StepStatus};
use agent_sdk_rs::deps::DependencyMap;
use agent_sdk_rs::error::{AgentError, ProviderError, ToolError};
use agent_sdk_rs::json::{object_from, Json, JsonNumber};
use agent_sdk_rs::model::{ModelCompletion, ModelMessage, ModelToolCall, ModelToolChoice};
use agent_sdk_rs::scripted::ScriptedProvider;
use agent_sdk_rs::tools::{ToolOutcome, ToolSpec};

fn s(x: &str) -> String {
    x.to_string()
}

fn obj(entries: Vec<(&str, Json)>) -> Json {
    object_from(entries.into_iter().map(|(k, v)| (k.to_string(), v)).collect())
}

fn num(n: i64) -> Json {
    if n < 0 {
        Json::Number(JsonNumber::NegInt(n))
    } else {
        Json::Number(JsonNumber::PosInt(n as u64))
    }
}

fn str_json(x: &str) -> Json {
    Json::Str(s(x))
}

fn ty(t: &str) -> Json {
    obj(vec![("type", str_json(t))])
}

fn arr(items: Vec<Json>) -> Json {
    agent_sdk_rs::json::array_from(items)
}

fn completion(text: Option<&str>, tool_calls: Vec<ModelToolCall>) -> ModelCompletion {
    ModelCompletion { text: text.map(|t| t.to_string()), thinking: None, tool_calls, usage: None }
}

fn tool_call(id: &str, name: &str, arguments: Json) -> ModelToolCall {
    ModelToolCall { id: s(id), name: s(name), arguments }
}

fn closed_schema(props: Vec<(&str, Json)>, required: Vec<&str>) -> Json {
    obj(vec![
        ("type", str_json("object")),
        ("properties", obj(props)),
        ("required", arr(required.into_iter().map(str_json).collect())),
        ("additionalProperties", Json::Bool(false)),
    ])
}

fn add_tool() -> ToolSpec {
    ToolSpec::new(s("add"), s("add two numbers"))
        .with_schema(closed_schema(vec![("a", ty("integer")), ("b", ty("integer"))], vec!["a", "b"]))
        .expect("valid schema")
}

fn done_tool() -> ToolSpec {
    agent_sdk_rs::tools::done_tool()
}

fn fail_tool() -> ToolSpec {
    ToolSpec::new(s("fail"), s("always fail")).with_schema(closed_schema(vec![], vec![])).expect("valid schema")
}

fn arg<'a>(call: &'a ModelToolCall, key: &str) -> Option<&'a Json> {
    agent_sdk_rs::json::get_field(&call.arguments, key)
}

fn as_i64(v: Option<&Json>) -> Option<i64> {
    match v {
        Some(Json::Number(JsonNumber::PosInt(n))) => Some(*n as i64),
        Some(Json::Number(JsonNumber::NegInt(n))) => Some(*n),
        _ => None,
    }
}

/// Handlers of the tools used here, chosen by the called tool's name.
fn handler(_index: usize, call: ModelToolCall, _deps: DependencyMap<u32>) -> Result<ToolOutcome, ToolError> {
    match call.name.as_str() {
        "add" => {
            let a = as_i64(arg(&call, "a")).ok_or_else(|| ToolError::Execution(s("a missing")))?;
            let b = as_i64(arg(&call, "b")).ok_or_else(|| ToolError::Execution(s("b missing")))?;
            Ok(ToolOutcome::Text((a + b).to_string()))
        }
        "done" => Ok(agent_sdk_rs::tools::done_outcome(&call.arguments)),
        "fail" => Err(ToolError::Execution(s("boom"))),
        _ => Err(ToolError::Execution(s("no handler"))),
    }
}

fn last_is_final(events: &[AgentEvent], content: &str) -> bool {
    matches!(events.last(), Some(AgentEvent::FinalResponse { content: c }) if c == content)
}

#[test]
fn query_returns_no_tool_response() {
    let mut provider = ScriptedProvider::new(vec![Ok(completion(Some("hello"), vec![]))]);
    let mut agent = Agent::<(), u32>::builder().model(()).build().expect("agent builds");
    let response = agent.query_scripted(s("hi"), &mut provider, &handler).result.expect("query succeeds");
    assert_eq!(response, "hello");
}

#[test]
fn query_stream_emits_message_and_step_events() {
    let mut provider = ScriptedProvider::new(vec![
        Ok(completion(Some("working"), vec![tool_call("call_1", "add", obj(vec![("a", num(2)), ("b", num(3))]))])),
        Ok(completion(Some("all done"), vec![])),
    ]);
    let mut agent = Agent::<(), u32>::builder().model(()).tool(add_tool()).build().expect("agent builds");
    let run = agent.query_scripted(s("add"), &mut provider, &handler);
    assert!(run.result.is_ok(), "events ok");
    let events = run.events;
    assert!(events.iter().any(|e| matches!(e, AgentEvent::MessageStart { role: AgentRole::User, .. })));
    assert!(events.iter().any(|e| matches!(e, AgentEvent::StepStart { step_id, .. } if step_id == "call_1")));
    assert!(events.iter().any(|e| matches!(e, AgentEvent::StepComplete { status: StepStatus::Completed, .. })));
    assert!(last_is_final(&events, "all done"));
}

#[test]
fn done_tool_stops_immediately() {
    let mut provider = ScriptedProvider::new(vec![Ok(completion(
        None,
        vec![tool_call("call_2", "done", obj(vec![("message", str_json("finished"))]))],
    ))]);
    let mut agent = Agent::<(), u32>::builder().model(()).tool(done_tool()).build().expect("agent builds");
    let response = agent.query_scripted(s("wrap"), &mut provider, &handler).result.expect("query succeeds");
    assert_eq!(response, "finished");
}

#[test]
fn require_done_mode_keeps_looping_until_max_iterations() {
    let mut provider = ScriptedProvider::new(vec![
        Ok(completion(Some("not done"), vec![])),
        Ok(completion(Some("still not done"), vec![])),
    ]);
    let mut agent = Agent::<(), u32>::builder()
        .model(())
        .require_done_tool(true)
        .max_iterations(2)
        .build()
        .expect("agent builds");
    let err = agent.query_scripted(s("continue"), &mut provider, &handler).result.expect_err("must fail");
    assert!(matches!(err, AgentError::MaxIterationsReached { .. }));
}

#[test]
fn max_iterations_error_when_tool_loop_never_finishes() {
    let mut provider = ScriptedProvider::new(vec![Ok(completion(
        None,
        vec![tool_call("call_3", "add", obj(vec![("a", num(1)), ("b", num(1))]))],
    ))]);
    let mut agent =
        Agent::<(), u32>::builder().model(()).tool(add_tool()).max_iterations(1).build().expect("agent builds");
    let err = agent.query_scripted(s("loop"), &mut provider, &handler).result.expect_err("must fail");
    assert!(matches!(err, AgentError::MaxIterationsReached { .. }));
}

#[test]
fn tool_error_emits_error_result_and_step_error() {
    let mut provider = ScriptedProvider::new(vec![
        Ok(completion(None, vec![tool_call("call_4", "fail", obj(vec![]))])),
        Ok(completion(Some("fallback"), vec![])),
    ]);
    let mut agent = Agent::<(), u32>::builder().model(()).tool(fail_tool()).build().expect("agent builds");
    let run = agent.query_scripted(s("try"), &mut provider, &handler);
    assert!(run.result.is_ok(), "events ok");
    let events = run.events;
    assert!(events.iter().any(|e| matches!(e, AgentEvent::ToolResult { is_error: true, .. })));
    assert!(events.iter().any(|e| matches!(e, AgentEvent::StepComplete { status: StepStatus::Error, .. })));
    assert!(last_is_final(&events, "fallback"));
}

#[test]
fn dependency_override_is_used_for_tool_execution() {
    let mut provider = ScriptedProvider::new(vec![
        Ok(completion(None, vec![tool_call("call_5", "read_dep", obj(vec![]))])),
        Ok(completion(Some("done"), vec![])),
    ]);
    let dep_tool = ToolSpec::new(s("read_dep"), s("read number"))
        .with_schema(closed_schema(vec![], vec![]))
        .expect("valid schema");
    let mut agent = Agent::<(), u32>::builder()
        .model(())
        .tool(dep_tool)
        .dependency(TypeId::of::<u32>(), 1)
        .dependency_override(TypeId::of::<u32>(), 9)
        .build()
        .expect("agent builds");
    let read_dep = |_i: usize, _c: ModelToolCall, deps: DependencyMap<u32>| -> Result<ToolOutcome, ToolError> {
        let value = deps
            .get(&TypeId::of::<u32>())
            .copied()
            .ok_or(ToolError::MissingDependency(s("u32")))
            .unwrap_or(0);
        Ok(ToolOutcome::Text(value.to_string()))
    };
    let run = agent.query_scripted(s("dep"), &mut provider, &read_dep);
    assert!(run.result.is_ok(), "events ok");
    assert!(run.events.iter().any(|e| matches!(
        e,
        AgentEvent::ToolResult { result_text, is_error: false, .. } if result_text == "9"
    )));
}

#[test]
fn hidden_user_prompt_is_emitted_once() {
    let mut provider = ScriptedProvider::new(vec![
        Ok(completion(Some("not complete"), vec![])),
        Ok(completion(Some("final"), vec![])),
    ]);
    let mut agent = Agent::<(), u32>::builder()
        .model(())
        .hidden_user_message_prompt(s("You still have incomplete todos"))
        .build()
        .expect("agent builds");
    let run = agent.query_scripted(s("start"), &mut provider, &handler);
    assert!(run.result.is_ok(), "events ok");
    let hidden_count = run.events.iter().filter(|e| matches!(e, AgentEvent::HiddenUserMessage { .. })).count();
    assert_eq!(hidden_count, 1);
    assert!(last_is_final(&run.events, "final"));
}

#[test]
fn retries_request_errors_then_succeeds() {
    let mut provider = ScriptedProvider::new(vec![
        Err(ProviderError::Request(s("timeout"))),
        Ok(completion(Some("ok"), vec![])),
    ]);
    let mut agent = Agent::<(), u32>::builder().model(()).llm_retry_config(2, 0, 0).build().expect("agent builds");
    let response = agent.query_scripted(s("retry"), &mut provider, &handler).result.expect("query succeeds");
    assert_eq!(response, "ok");
    assert_eq!(provider.invocations(), 2);
}

#[test]
fn load_history_and_tool_choice_are_applied() {
    let mut provider = ScriptedProvider::new(vec![Ok(completion(Some("done"), vec![]))]);
    let mut agent = Agent::<(), u32>::builder()
        .model(())
        .tool(add_tool())
        .tool_choice(AgentToolChoice::Required)
        .build()
        .expect("agent builds");
    agent.load_history(vec![ModelMessage::System(s("sys")), ModelMessage::User(s("old"))]);
    let response = agent.query_scripted(s("new"), &mut provider, &handler).result.expect("query succeeds");
    assert_eq!(response, "done");
    assert!(matches!(provider.seen_tool_choices().first(), Some(ModelToolChoice::Required)));
    let first_batch = &provider.seen_batches()[0];
    assert!(matches!(first_batch[0], ModelMessage::System(_)));
    assert!(matches!(first_batch[1], ModelMessage::User(_)));
    assert!(matches!(first_batch[2], ModelMessage::User(_)));
}

#[test]
fn tool_loop_fails_after_exactly_max_invocations() {
    let calls = || completion(None, vec![tool_call("c", "add", obj(vec![("a", num(1)), ("b", num(2))]))]);
    let mut provider = ScriptedProvider::new(vec![Ok(calls()), Ok(calls()), Ok(calls()), Ok(calls()), Ok(calls())]);
    let mut agent =
        Agent::<(), u32>::builder().model(()).tool(add_tool()).max_iterations(3).build().expect("agent builds");
    let err = agent.query_scripted(s("go"), &mut provider, &handler).result.expect_err("must fail");
    assert!(matches!(err, AgentError::MaxIterationsReached { max_iterations: 3 }));
    assert_eq!(provider.invocations(), 3);
    assert_eq!(err.message(), "max iterations reached (3)");
}

#[test]
fn require_done_text_only_exhausts_iterations() {
    let text = || completion(Some("thinking"), vec![]);
    let mut provider = ScriptedProvider::new(vec![Ok(text()), Ok(text()), Ok(text()), Ok(text())]);
    let mut agent = Agent::<(), u32>::builder()
        .model(())
        .require_done_tool(true)
        .max_iterations(4)
        .build()
        .expect("agent builds");
    let err = agent.query_scripted(s("go"), &mut provider, &handler).result.expect_err("must fail");
    assert!(matches!(err, AgentError::MaxIterationsReached { max_iterations: 4 }));
    assert_eq!(provider.invocations(), 4);
}

#[test]
fn done_discards_later_calls_in_same_turn() {
    let mut provider = ScriptedProvider::new(vec![Ok(completion(
        None,
        vec![
            tool_call("c1", "add", obj(vec![("a", num(1)), ("b", num(1))])),
            tool_call("c2", "done", obj(vec![("message", str_json("x"))])),
            tool_call("c3", "add", obj(vec![("a", num(5)), ("b", num(5))])),
        ],
    ))]);
    let mut agent = Agent::<(), u32>::builder()
        .model(())
        .tool(add_tool())
        .tool(done_tool())
        .build()
        .expect("agent builds");
    let run = agent.query_scripted(s("q"), &mut provider, &handler);
    assert_eq!(run.result.expect("finishes"), "x");
    assert_eq!(provider.invocations(), 1);
    assert!(!run.events.iter().any(|e| matches!(e, AgentEvent::StepStart { step_id, .. } if step_id == "c3")));
    let results: Vec<&ModelMessage> =
        agent.messages().iter().filter(|m| matches!(m, ModelMessage::ToolResult { .. })).collect();
    assert_eq!(results.len(), 2);
    assert!(matches!(results[1], ModelMessage::ToolResult { content, .. } if content == "Task completed: x"));
}

#[test]
fn end_to_end_add_then_reply() {
    let mut provider = ScriptedProvider::new(vec![
        Ok(completion(None, vec![tool_call("call_1", "add", obj(vec![("a", num(2)), ("b", num(3))]))])),
        Ok(completion(Some("5"), vec![])),
    ]);
    let mut agent = Agent::<(), u32>::builder().model(()).tool(add_tool()).build().expect("agent builds");
    let response = agent.query_scripted(s("add"), &mut provider, &handler).result.expect("query succeeds");
    assert_eq!(response, "5");
    assert_eq!(provider.invocations(), 2);
    let second = &provider.seen_batches()[1];
    assert!(second.iter().any(|m| matches!(
        m,
        ModelMessage::ToolResult { content, is_error: false, tool_name, .. } if content == "5" && tool_name == "add"
    )));
}

#[test]
fn unknown_tool_gets_error_result_without_provider_call() {
    let mut agent = Agent::<(), u32>::builder().model(()).tool(add_tool()).build().expect("agent builds");
    let (mut run, first) = agent.begin_query(s("q"));
    assert!(matches!(first.action, RunAction::Invoke));
    let step = agent.on_completion(
        &mut run,
        Ok(completion(None, vec![tool_call("u1", "nope", obj(vec![])), tool_call("u2", "add", obj(vec![("a", str_json("1"))]))])),
    );
    assert!(matches!(step.action, RunAction::Invoke));
    let texts: Vec<String> = agent
        .messages()
        .iter()
        .filter_map(|m| match m {
            ModelMessage::ToolResult { content, is_error: true, .. } => Some(content.clone()),
            _ => None,
        })
        .collect();
    assert_eq!(texts[0], "Unknown tool 'nope'.");
    assert_eq!(texts[1], "invalid tool arguments for add: missing required field: b");
    assert_eq!(run.rounds(), 1);
}

#[test]
fn system_prompt_and_message_ids() {
    let mut agent = Agent::<(), u32>::builder().model(()).system_prompt(s("be brief")).build().expect("agent builds");
    let (run, first) = agent.begin_query(s("hello"));
    assert_eq!(run.status(), RunStatus::AwaitingCompletion);
    assert!(matches!(&agent.messages()[0], ModelMessage::System(t) if t == "be brief"));
    assert!(matches!(&agent.messages()[1], ModelMessage::User(t) if t == "hello"));
    assert!(matches!(&first.events[0], AgentEvent::MessageStart { message_id, role: AgentRole::User } if message_id == "msg_1_user"));
    assert!(matches!(run.tool_choice(), ModelToolChoice::Disabled));
    agent.clear_history();
    assert_eq!(agent.messages_len(), 0);
}

#[test]
fn zero_iterations_fails_without_invoking() {
    let mut provider = ScriptedProvider::new(vec![Ok(completion(Some("x"), vec![]))]);
    let mut agent = Agent::<(), u32>::builder().model(()).max_iterations(0).build().expect("agent builds");
    let err = agent.query_scripted(s("q"), &mut provider, &handler).result.expect_err("must fail");
    assert!(matches!(err, AgentError::MaxIterationsReached { max_iterations: 0 }));
    assert_eq!(provider.invocations(), 0);
}

#[test]
fn response_errors_are_not_retried() {
    let mut provider = ScriptedProvider::new(vec![
        Err(ProviderError::Response(s("bad json"))),
        Ok(completion(Some("never"), vec![])),
    ]);
    let mut agent = Agent::<(), u32>::builder().model(()).llm_retry_config(5, 10, 100).build().expect("agent builds");
    let run = agent.query_scripted(s("q"), &mut provider, &handler);
    let err = run.result.expect_err("must fail");
    assert!(matches!(err, AgentError::Provider(ProviderError::Response(_))));
    assert_eq!(err.message(), "provider response invalid: bad json");
    assert_eq!(provider.invocations(), 1);
    assert!(run.waits.is_empty());
}

#[test]
fn request_errors_wait_with_backoff_until_budget() {
    let mut provider = ScriptedProvider::new(vec![
        Err(ProviderError::Request(s("t1"))),
        Err(ProviderError::Request(s("t2"))),
        Err(ProviderError::Request(s("t3"))),
        Err(ProviderError::Request(s("t4"))),
    ]);
    let mut agent = Agent::<(), u32>::builder().model(()).llm_retry_config(3, 100, 250).build().expect("agent builds");
    let run = agent.query_scripted(s("q"), &mut provider, &handler);
    let err = run.result.expect_err("must fail");
    assert!(matches!(err, AgentError::Provider(ProviderError::Request(ref m)) if m == "t3"));
    assert_eq!(run.waits, vec![100, 200]);
    assert_eq!(provider.invocations(), 3);
}

#[test]
fn build_rejects_missing_model_and_duplicates() {
    let err = Agent::<(), u32>::builder().build().err().expect("no model");
    assert!(matches!(&err, AgentError::Config(m) if m == "agent model must be configured via AgentBuilder::model(...)"));
    let err = Agent::<(), u32>::builder().model(()).tool(add_tool()).tool(add_tool()).build().err().expect("duplicate");
    assert_eq!(err.message(), "agent configuration error: duplicate tool registered: add");
}

#[test]
fn default_config_values() {
    let c = AgentConfig::default();
    assert!(!c.require_done_tool);
    assert_eq!(c.max_iterations, 24);
    assert_eq!(c.llm_max_retries, 5);
    assert_eq!(c.llm_retry_base_delay_ms, 1000);
    assert_eq!(c.llm_retry_max_delay_ms, 60000);
    assert!(matches!(c.tool_choice, AgentToolChoice::Auto));
}

#[test]
fn done_tool_schema_and_default_message() {
    let t = done_tool();
    assert_eq!(t.name(), "done");
    assert!(t.check_arguments(&obj(vec![("message", str_json("x"))])).is_ok());
    assert!(t.check_arguments(&obj(vec![])).is_err());
    assert!(t.check_arguments(&obj(vec![("message", str_json("x")), ("extra", Json::Null)])).is_err());
    assert_eq!(agent_sdk_rs::tools::done_outcome(&obj(vec![("message", str_json("x"))])), ToolOutcome::Done(s("x")));
    assert_eq!(agent_sdk_rs::tools::done_outcome(&obj(vec![])), ToolOutcome::Done(s("task complete")));
}

#[test]
fn provider_sees_definitions_choice_and_growing_history() {
    let mut provider = ScriptedProvider::new(vec![
        Ok(completion(None, vec![tool_call("c1", "add", obj(vec![("a", num(2)), ("b", num(3))]))])),
        Ok(completion(Some("5"), vec![])),
    ]);
    let mut agent = Agent::<(), u32>::builder().model(()).tool(add_tool()).build().expect("agent builds");
    let run = agent.query_scripted(s("add"), &mut provider, &handler);
    assert_eq!(run.result.expect("ok"), "5");
    assert_eq!(provider.seen_definitions().len(), 2);
    assert!(provider.seen_definitions().iter().all(|d| d.len() == 1 && d[0].name == "add"));
    assert!(provider.seen_tool_choices().iter().all(|c| matches!(c, ModelToolChoice::Auto)));
    assert_eq!(provider.seen_batches()[0].len(), 1);
    assert_eq!(provider.seen_batches()[1].len(), 3);
    assert!(matches!(agent.messages().last(), Some(ModelMessage::Assistant { content: Some(t), .. }) if t == "5"));
}

#[test]
fn empty_script_fails_with_response_error() {
    let mut provider = ScriptedProvider::new(vec![]);
    let mut agent = Agent::<(), u32>::builder().model(()).build().expect("agent builds");
    let err = agent.query_scripted(s("q"), &mut provider, &handler).result.expect_err("must fail");
    assert!(matches!(err, AgentError::Provider(ProviderError::Response(_))));
}
