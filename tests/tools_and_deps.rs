use std::any::TypeId;

use agent_sdk_rs::deps::DependencyMap;
use agent_sdk_rs::error::{AgentError, SchemaError, ToolError};
use agent_sdk_rs::json::{array_from, object_from, Json, JsonNumber};
use agent_sdk_rs::retry::{is_retryable_provider_error, retry_decision, retry_delay_ms};
use agent_sdk_rs::error::ProviderError;
use agent_sdk_rs::schema::{validate_arguments, validate_schema, value_matches_type};
use agent_sdk_rs::text::{push_decimal, str_eq};
use agent_sdk_rs::tools::{ToolOutcome, ToolSpec};

fn s(x: &str) -> String {
    x.to_string()
}

fn obj(entries: Vec<(&str, Json)>) -> Json {
    object_from(entries.into_iter().map(|(k, v)| (k.to_string(), v)).collect())
}

fn str_json(x: &str) -> Json {
    Json::Str(s(x))
}

fn ty(t: &str) -> Json {
    obj(vec![("type", str_json(t))])
}

fn schema(props: Vec<(&str, Json)>, required: Vec<&str>, additional: bool) -> Json {
    obj(vec![
        ("type", str_json("object")),
        ("properties", obj(props)),
        ("required", array_from(required.into_iter().map(str_json).collect())),
        ("additionalProperties", Json::Bool(additional)),
    ])
}

fn invalid_message(r: Result<(), ToolError>) -> String {
    match r {
        Err(ToolError::InvalidArguments { message, .. }) => message,
        other => panic!("unexpected: {:?}", other),
    }
}

#[test]
fn schema_validation_rejects_non_object_root() {
    let result = ToolSpec::new(s("bad"), s("bad")).with_schema(obj(vec![("type", str_json("string"))]));
    assert!(result.is_err());
}

#[test]
fn dependency_overrides_win() {
    let mut base: DependencyMap<u32> = DependencyMap::new();
    base.insert(TypeId::of::<u32>(), 1);
    let mut overrides: DependencyMap<u32> = DependencyMap::new();
    overrides.insert(TypeId::of::<u32>(), 9);
    let merged = base.merged_with(&overrides);
    assert_eq!(merged.get(&TypeId::of::<u32>()), Some(&9));

    let tool = ToolSpec::new(s("read"), s("read dep")).with_schema(schema(vec![], vec![], false)).expect("schema should be valid");
    let args = obj(vec![]);
    tool.check_arguments(&args).expect("tool executes");
    let value = merged.get(&TypeId::of::<u32>()).copied().ok_or(ToolError::MissingDependency(s("u32"))).unwrap_or(0);
    let outcome = ToolOutcome::Text(value.to_string());
    assert_eq!(outcome, ToolOutcome::Text(s("9")));
}

#[test]
fn argument_validation_reports_missing_required() {
    let tool = ToolSpec::new(s("req"), s("required"))
        .with_schema(schema(vec![("value", ty("string"))], vec!["value"], false))
        .expect("schema valid");
    let err = tool.check_arguments(&obj(vec![])).expect_err("should fail");
    let message = err.message();
    assert!(message.contains("missing required field"));
}

#[test]
fn missing_required_names_the_field() {
    let sc = schema(vec![("a", ty("integer")), ("b", ty("integer"))], vec!["a", "b"], false);
    let args = obj(vec![("a", Json::Number(JsonNumber::PosInt(1)))]);
    assert_eq!(invalid_message(validate_arguments("add", &sc, &args)), "missing required field: b");
}

#[test]
fn unknown_key_rejected_when_closed() {
    let sc = schema(vec![("a", ty("integer"))], vec![], false);
    let args = obj(vec![("a", Json::Number(JsonNumber::PosInt(1))), ("zzz", Json::Null)]);
    assert_eq!(invalid_message(validate_arguments("t", &sc, &args)), "unknown field: zzz");
    let open = schema(vec![("a", ty("integer"))], vec![], true);
    assert!(validate_arguments("t", &open, &args).is_ok());
}

#[test]
fn string_for_integer_rejected() {
    let sc = schema(vec![("a", ty("integer"))], vec!["a"], false);
    let args = obj(vec![("a", str_json("2"))]);
    let err = validate_arguments("add", &sc, &args).expect_err("must reject");
    assert_eq!(err.message(), "invalid tool arguments for add: field 'a' must be of type integer");
}

#[test]
fn arguments_must_be_object() {
    let sc = schema(vec![], vec![], true);
    assert_eq!(invalid_message(validate_arguments("t", &sc, &Json::Null)), "arguments must be a JSON object");
    assert_eq!(invalid_message(validate_arguments("t", &Json::Null, &obj(vec![]))), "tool schema must be a JSON object");
}

#[test]
fn primitive_type_checks() {
    let float = |t: &str| Json::Number(JsonNumber::Float(s(t)));
    assert!(value_matches_type(&Json::Number(JsonNumber::NegInt(-3)), "integer"));
    assert!(value_matches_type(&float("4.0"), "integer"));
    assert!(!value_matches_type(&float("4.5"), "integer"));
    assert!(value_matches_type(&float("1e3"), "integer"));
    assert!(value_matches_type(&float("1e16"), "integer"));
    assert!(value_matches_type(&float("1.5e1"), "integer"));
    assert!(!value_matches_type(&float("1.25e1"), "integer"));
    assert!(!value_matches_type(&float("1e-3"), "integer"));
    assert!(value_matches_type(&float("0e-5"), "integer"));
    assert!(value_matches_type(&float("-2.0"), "integer"));
    assert!(value_matches_type(&float("2.5E+1"), "integer"));
    assert!(value_matches_type(&float("4.5"), "number"));
    assert!(value_matches_type(&Json::Bool(true), "boolean"));
    assert!(!value_matches_type(&Json::Null, "boolean"));
    assert!(value_matches_type(&obj(vec![]), "object"));
    assert!(value_matches_type(&array_from(vec![]), "array"));
    assert!(value_matches_type(&Json::Null, "null"));
    assert!(!value_matches_type(&Json::Null, "string"));
    assert!(value_matches_type(&Json::Null, "anything"));
}

#[test]
fn schema_errors_are_classified() {
    assert_eq!(validate_schema(&Json::Null), Err(SchemaError::SchemaNotObject));
    assert_eq!(validate_schema(&obj(vec![])), Err(SchemaError::RootTypeMustBeObject));
    let bad_required = obj(vec![("type", str_json("object")), ("required", str_json("a"))]);
    assert_eq!(validate_schema(&bad_required), Err(SchemaError::InvalidRequired));
    let bad_item = obj(vec![("type", str_json("object")), ("required", array_from(vec![Json::Null]))]);
    assert_eq!(validate_schema(&bad_item), Err(SchemaError::InvalidRequired));
    assert_eq!(validate_schema(&obj(vec![("type", str_json("object"))])), Ok(()));
    assert_eq!(SchemaError::InvalidRequired.message(), "required must be an array of strings");
}

#[test]
fn default_tool_accepts_any_object() {
    let t = ToolSpec::new(s("any"), s("desc"));
    assert_eq!(t.name(), "any");
    assert_eq!(t.description(), "desc");
    assert!(validate_schema(t.json_schema()).is_ok());
    assert!(t.check_arguments(&obj(vec![("x", Json::Null)])).is_ok());
}

#[test]
fn named_dependencies_and_merge() {
    let mut base: DependencyMap<u32> = DependencyMap::new();
    base.insert_named(s("db"), 1);
    base.insert_named(s("cache"), 2);
    base.insert_named(s("db"), 3);
    let mut over: DependencyMap<u32> = DependencyMap::new();
    over.insert_named(s("cache"), 20);
    over.insert_named(s("extra"), 30);
    let merged = base.merged_with(&over);
    assert_eq!(merged.get_named("db"), Some(&3));
    assert_eq!(merged.get_named("cache"), Some(&20));
    assert_eq!(merged.get_named("extra"), Some(&30));
    assert_eq!(merged.get_named("missing"), None);
    assert_eq!(base.get_named("cache"), Some(&2));
    assert_eq!(merged.get(&TypeId::of::<u32>()), None);
}

#[test]
fn retry_delays_double_and_cap() {
    assert_eq!(retry_delay_ms(0, 1000, 60000), 1000);
    assert_eq!(retry_delay_ms(3, 1000, 60000), 8000);
    assert_eq!(retry_delay_ms(6, 1000, 60000), 60000);
    assert_eq!(retry_delay_ms(70, 3, u64::MAX), u64::MAX);
    assert!(is_retryable_provider_error(&ProviderError::Request(s("x"))));
    assert!(!is_retryable_provider_error(&ProviderError::Response(s("x"))));
    assert_eq!(retry_decision(&ProviderError::Request(s("x")), 1, 5, 10, 100), Some(20));
    assert_eq!(retry_decision(&ProviderError::Request(s("x")), 4, 5, 10, 100), None);
    assert_eq!(retry_decision(&ProviderError::Response(s("x")), 0, 5, 10, 100), None);
    assert_eq!(retry_decision(&ProviderError::Request(s("x")), 0, 0, 10, 100), None);
}

#[test]
fn error_messages() {
    assert_eq!(ToolError::NotFound(s("x")).message(), "tool not found: x");
    assert_eq!(ToolError::MissingDependency(s("u32")).message(), "dependency missing: u32");
    assert_eq!(ToolError::Execution(s("boom")).message(), "tool execution failed: boom");
    assert_eq!(ToolError::Schema(SchemaError::SchemaNotObject).message(), "tool schema must be a JSON object");
    assert_eq!(ProviderError::Request(s("t")).message(), "provider request failed: t");
}

#[test]
fn decimal_and_string_helpers() {
    let mut out = s("n=");
    push_decimal(&mut out, 1207);
    assert_eq!(out, "n=1207");
    let mut zero = String::new();
    push_decimal(&mut zero, 0);
    assert_eq!(zero, "0");
    assert!(str_eq("abc", "abc"));
    assert!(!str_eq("abc", "abd"));
}

#[test]
fn agent_error_messages() {
    assert_eq!(AgentError::MissingFinalResponse.message(), "agent stream ended without final response");
    assert_eq!(AgentError::Config(s("bad")).message(), "agent configuration error: bad");
    assert_eq!(AgentError::MaxIterationsReached { max_iterations: 24 }.message(), "max iterations reached (24)");
    assert_eq!(AgentError::Tool(ToolError::NotFound(s("t"))).message(), "tool not found: t");
    assert_eq!(
        ToolError::InvalidArguments { tool: s("t"), message: s("m") }.message(),
        "invalid tool arguments for t: m"
    );
}
