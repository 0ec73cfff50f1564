//! Tool specifications: a name, a description and a parameter schema that
//! every call's arguments are checked against before its handler runs.
use vstd::prelude::*;
use vstd::string::*;
use crate::error::{SchemaError, ToolError};
use crate::json::{Json, JsonList, JsonMembers, field, members_seq};
use crate::schema::{argument_problem, schema_verdict, validate_arguments, validate_schema};

verus! {

/// What a tool handler returns: text fed back to the model, or the explicit
/// completion signal that ends the run.
#[derive(Clone, Debug, PartialEq, Eq)]
pub enum ToolOutcome {
    Text(String),
    Done(String),
}

/// A named capability with its parameter schema.
#[derive(Debug)]
pub struct ToolSpec {
    name: String,
    description: String,
    json_schema: Json,
}

/// Whether `s` is the schema of a tool that takes any object.
pub open spec fn is_open_object_schema(s: Json) -> bool {
    &&& s matches Json::Object(m) && members_seq(m).len() == 4
    &&& field(s, "type"@) matches Some(Json::Str(t)) && t@ == "object"@
    &&& field(s, "properties"@) == Some(Json::Object(JsonMembers::Nil))
    &&& field(s, "required"@) == Some(Json::Array(JsonList::Nil))
    &&& field(s, "additionalProperties"@) == Some(Json::Bool(true))
}

impl ToolSpec {
    pub closed spec fn spec_name(&self) -> Seq<char> {
        self.name@
    }

    pub closed spec fn spec_description(&self) -> Seq<char> {
        self.description@
    }

    pub closed spec fn spec_schema(&self) -> Json {
        self.json_schema
    }

    /// A tool that accepts any object of arguments.
    pub fn new(name: String, description: String) -> (r: ToolSpec)
        ensures
            r.spec_name() == name@,
            r.spec_description() == description@,
            is_open_object_schema(r.spec_schema()),
            schema_verdict(r.spec_schema()) is Ok,
    {
        proof {
            reveal_strlit("type");
            reveal_strlit("object");
            reveal_strlit("properties");
            reveal_strlit("required");
            reveal_strlit("additionalProperties");
        }
        let members = JsonMembers::Cons(
            String::from_str("type"),
            Box::new(Json::Str(String::from_str("object"))),
            Box::new(JsonMembers::Cons(
                String::from_str("properties"),
                Box::new(Json::Object(JsonMembers::Nil)),
                Box::new(JsonMembers::Cons(
                    String::from_str("required"),
                    Box::new(Json::Array(JsonList::Nil)),
                    Box::new(JsonMembers::Cons(
                        String::from_str("additionalProperties"),
                        Box::new(Json::Bool(true)),
                        Box::new(JsonMembers::Nil),
                    )),
                )),
            )),
        );
        let r = ToolSpec { name, description, json_schema: Json::Object(members) };
        proof {
            reveal_with_fuel(members_seq, 5);
            reveal_with_fuel(crate::json::member, 5);
            let ty = "type"@;
            let pr = "properties"@;
            let rq = "required"@;
            let ap = "additionalProperties"@;
            assert(ty.len() == 4 && pr.len() == 10 && rq.len() == 8 && ap.len() == 20);
            assert(pr != ty && rq != ty && rq != pr && ap != ty && ap != pr && ap != rq);
        }
        r
    }

    /// Replaces the parameter schema, which must be an object schema.
    pub fn with_schema(self, schema: Json) -> (r: Result<ToolSpec, SchemaError>)
        ensures
            r is Ok <==> schema_verdict(schema) is Ok,
            r matches Ok(t) ==> t.spec_name() == self.spec_name() && t.spec_description()
                == self.spec_description() && t.spec_schema() == schema,
            r matches Err(e) ==> schema_verdict(schema) == Err::<(), SchemaError>(e),
    {
        match validate_schema(&schema) {
            Ok(()) => Ok(ToolSpec { name: self.name, description: self.description, json_schema: schema }),
            Err(e) => Err(e),
        }
    }

    pub fn name(&self) -> (r: &str)
        ensures
            r@ == self.spec_name(),
    {
        self.name.as_str()
    }

    pub fn description(&self) -> (r: &str)
        ensures
            r@ == self.spec_description(),
    {
        self.description.as_str()
    }

    pub fn json_schema(&self) -> (r: &Json)
        ensures
            *r == self.spec_schema(),
    {
        &self.json_schema
    }

    /// Checks the arguments of a call against the schema; the handler runs
    /// only after this returns `Ok`.
    pub fn check_arguments(&self, args: &Json) -> (r: Result<(), ToolError>)
        ensures
            r is Ok <==> argument_problem(self.spec_schema(), *args) is None,
            r matches Err(e) ==> e matches ToolError::InvalidArguments { tool, message } && tool@
                == self.spec_name() && Some(message@) == argument_problem(self.spec_schema(), *args),
    {
        validate_arguments(self.name.as_str(), &self.json_schema, args)
    }
}

/// Whether `s` is the schema of the completion tool: an object with one
/// required string property `message` and no other properties.
pub open spec fn is_done_schema(s: Json) -> bool {
    &&& field(s, "type"@) matches Some(Json::Str(t)) && t@ == "object"@
    &&& field(s, "properties"@) matches Some(props) && field(props, "message"@) matches Some(m)
        && field(m, "type"@) matches Some(Json::Str(t)) && t@ == "string"@
    &&& field(s, "properties"@) matches Some(Json::Object(pm)) && members_seq(pm).len() == 1
    &&& field(s, "required"@) matches Some(Json::Array(JsonList::Cons(x, rest))) && *x matches Json::Str(f)
        && f@ == "message"@ && *rest == JsonList::Nil
    &&& field(s, "additionalProperties"@) == Some(Json::Bool(false))
}

/// The explicit completion tool.
pub fn done_tool() -> (r: ToolSpec)
    ensures
        r.spec_name() == "done"@,
        r.spec_description() == "Signal that the task is complete"@,
        is_done_schema(r.spec_schema()),
        schema_verdict(r.spec_schema()) is Ok,
{
    proof {
        reveal_strlit("type");
        reveal_strlit("object");
        reveal_strlit("string");
        reveal_strlit("message");
        reveal_strlit("properties");
        reveal_strlit("required");
        reveal_strlit("additionalProperties");
        reveal_strlit("done");
        reveal_strlit("Signal that the task is complete");
    }
    let message_schema = Json::Object(JsonMembers::Cons(
        String::from_str("type"),
        Box::new(Json::Str(String::from_str("string"))),
        Box::new(JsonMembers::Nil),
    ));
    let props = Json::Object(JsonMembers::Cons(
        String::from_str("message"),
        Box::new(message_schema),
        Box::new(JsonMembers::Nil),
    ));
    let required = Json::Array(JsonList::Cons(
        Box::new(Json::Str(String::from_str("message"))),
        Box::new(JsonList::Nil),
    ));
    let members = JsonMembers::Cons(
        String::from_str("type"),
        Box::new(Json::Str(String::from_str("object"))),
        Box::new(JsonMembers::Cons(
            String::from_str("properties"),
            Box::new(props),
            Box::new(JsonMembers::Cons(
                String::from_str("required"),
                Box::new(required),
                Box::new(JsonMembers::Cons(
                    String::from_str("additionalProperties"),
                    Box::new(Json::Bool(false)),
                    Box::new(JsonMembers::Nil),
                )),
            )),
        )),
    );
    proof {
        reveal_with_fuel(members_seq, 5);
        reveal_with_fuel(crate::json::member, 5);
        reveal_with_fuel(crate::schema::all_strings, 3);
        let ty = "type"@;
        let pr = "properties"@;
        let rq = "required"@;
        let ap = "additionalProperties"@;
        assert(ty.len() == 4 && pr.len() == 10 && rq.len() == 8 && ap.len() == 20);
        assert(pr != ty && rq != ty && rq != pr && ap != ty && ap != pr && ap != rq);
    }
    ToolSpec {
        name: String::from_str("done"),
        description: String::from_str("Signal that the task is complete"),
        json_schema: Json::Object(members),
    }
}

/// The message of a completion call: its `message` argument when that is a
/// string, else `task complete`.
pub open spec fn done_message(args: Json) -> Seq<char> {
    match field(args, "message"@) {
        Some(Json::Str(m)) => m@,
        _ => "task complete"@,
    }
}

/// What the completion tool returns for its arguments.
pub fn done_outcome(args: &Json) -> (r: ToolOutcome)
    ensures
        r matches ToolOutcome::Done(m) && m@ == done_message(*args),
{
    proof {
        reveal_strlit("message");
    }
    match crate::json::get_field(args, "message") {
        Some(Json::Str(m)) => ToolOutcome::Done(m.clone()),
        _ => ToolOutcome::Done(String::from_str("task complete")),
    }
}

impl Clone for ToolSpec {
    fn clone(&self) -> (r: Self)
        ensures
            r == *self,
    {
        ToolSpec {
            name: self.name.clone(),
            description: self.description.clone(),
            json_schema: crate::json::copy_json(&self.json_schema),
        }
    }
}

} // verus!
