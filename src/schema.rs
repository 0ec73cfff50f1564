//! Checks of a tool's parameter schema and of the arguments of a call.
use vstd::prelude::*;
use vstd::string::*;
use crate::error::{SchemaError, ToolError};
use crate::json::{Json, JsonList, JsonMembers, JsonNumber, field, get_field, get_member, member};
use crate::text::str_eq;

verus! {

/// Whether every element of an array is a string.
pub open spec fn all_strings(l: JsonList) -> bool
    decreases l,
{
    match l {
        JsonList::Nil => true,
        JsonList::Cons(x, rest) => (*x is Str) && all_strings(*rest),
    }
}

/// The verdict on a parameter schema: an object whose `type` is `"object"`,
/// whose `required`, when present, is an array of strings.
pub open spec fn schema_verdict(schema: Json) -> Result<(), SchemaError> {
    match schema {
        Json::Object(m) => {
            if !(member(m, "type"@) matches Some(Json::Str(t)) && t@ == "object"@) {
                Err(SchemaError::RootTypeMustBeObject)
            } else {
                match member(m, "required"@) {
                    None => Ok(()),
                    Some(Json::Array(l)) => if all_strings(l) {
                        Ok(())
                    } else {
                        Err(SchemaError::InvalidRequired)
                    },
                    Some(_) => Err(SchemaError::InvalidRequired),
                }
            }
        },
        _ => Err(SchemaError::SchemaNotObject),
    }
}

fn check_all_strings(l: &JsonList) -> (r: bool)
    ensures
        r == all_strings(*l),
    decreases l,
{
    match l {
        JsonList::Nil => true,
        JsonList::Cons(x, rest) => match &**x {
            Json::Str(_) => check_all_strings(rest),
            _ => false,
        },
    }
}

/// Checks a parameter schema once, when a tool is registered.
pub fn validate_schema(schema: &Json) -> (r: Result<(), SchemaError>)
    ensures
        r == schema_verdict(*schema),
{
    proof {
        reveal_strlit("object");
    }
    let m = match schema {
        Json::Object(m) => m,
        _ => {
            return Err(SchemaError::SchemaNotObject);
        },
    };
    match get_member(m, "type") {
        Some(Json::Str(t)) => {
            if !str_eq(t.as_str(), "object") {
                return Err(SchemaError::RootTypeMustBeObject);
            }
        },
        _ => {
            return Err(SchemaError::RootTypeMustBeObject);
        },
    }
    match get_member(m, "required") {
        None => Ok(()),
        Some(Json::Array(l)) => {
            if check_all_strings(l) {
                Ok(())
            } else {
                Err(SchemaError::InvalidRequired)
            }
        },
        Some(_) => Err(SchemaError::InvalidRequired),
    }
}

/// The index of the first exponent marker at or after `i`, or the length.
pub open spec fn exp_mark(t: Seq<char>, i: int) -> int
    decreases t.len() - i,
{
    if i >= t.len() {
        t.len() as int
    } else if t[i] == 'e' || t[i] == 'E' {
        i
    } else {
        exp_mark(t, i + 1)
    }
}

/// The index of the first decimal point in `[i, end)`, or `end`.
pub open spec fn point_mark(t: Seq<char>, i: int, end: int) -> int
    decreases end - i,
{
    if i >= end {
        end
    } else if t[i] == '.' {
        i
    } else {
        point_mark(t, i + 1, end)
    }
}

/// The value of a decimal digit; other characters count as zero.
pub open spec fn digit_val(c: char) -> nat {
    if c == '1' {
        1
    } else if c == '2' {
        2
    } else if c == '3' {
        3
    } else if c == '4' {
        4
    } else if c == '5' {
        5
    } else if c == '6' {
        6
    } else if c == '7' {
        7
    } else if c == '8' {
        8
    } else if c == '9' {
        9
    } else {
        0
    }
}

/// The value of the digits `t[a..b)`.
pub open spec fn digits_value(t: Seq<char>, a: int, b: int) -> nat
    decreases b - a,
{
    if b <= a {
        0
    } else {
        10 * digits_value(t, a, b - 1) + digit_val(t[b - 1])
    }
}

/// The exponent written after the marker, zero when there is none.
pub open spec fn exponent_of(t: Seq<char>) -> int {
    let m = exp_mark(t, 0);
    let s = m + 1;
    if m >= t.len() {
        0
    } else if s < t.len() && t[s] == '-' {
        -(digits_value(t, s + 1, t.len() as int) as int)
    } else if s < t.len() && t[s] == '+' {
        digits_value(t, s + 1, t.len() as int) as int
    } else {
        digits_value(t, s, t.len() as int) as int
    }
}

/// Where the digits of the mantissa start: after a sign, if any.
pub open spec fn mantissa_start(t: Seq<char>) -> int {
    if t.len() > 0 && (t[0] == '-' || t[0] == '+') {
        1
    } else {
        0
    }
}

/// The power of ten of the mantissa digit at index `i`, for a point at index `p`.
pub open spec fn place(p: int, i: int) -> int {
    if i < p {
        p - 1 - i
    } else {
        p - i
    }
}

/// Whether the number written as `t` (sign, digits, optional point and
/// fraction, optional exponent) has no fractional part: every mantissa digit
/// whose place value, exponent applied, lies below the units is zero.
pub open spec fn integral_text(t: Seq<char>) -> bool {
    let m = exp_mark(t, 0);
    let p = point_mark(t, mantissa_start(t), m);
    let e = exponent_of(t);
    forall|i: int| mantissa_start(t) <= i < m && i != p && place(p, i) + e < 0 ==> #[trigger] t[i] == '0'
}

fn digit_of(c: char) -> (r: u128)
    ensures
        r == digit_val(c),
{
    if c == '1' {
        1
    } else if c == '2' {
        2
    } else if c == '3' {
        3
    } else if c == '4' {
        4
    } else if c == '5' {
        5
    } else if c == '6' {
        6
    } else if c == '7' {
        7
    } else if c == '8' {
        8
    } else if c == '9' {
        9
    } else {
        0
    }
}

fn find_exp_mark(t: &str) -> (r: usize)
    ensures
        r == exp_mark(t@, 0),
{
    let n = t.unicode_len();
    let mut i: usize = 0;
    while i < n
        invariant
            n == t@.len(),
            0 <= i <= n,
            exp_mark(t@, 0) == exp_mark(t@, i as int),
        decreases n - i,
    {
        let c = t.get_char(i);
        if c == 'e' || c == 'E' {
            return i;
        }
        i = i + 1;
    }
    i
}

fn find_point_mark(t: &str, start: usize, end: usize) -> (r: usize)
    requires
        start <= end <= t@.len(),
    ensures
        r == point_mark(t@, start as int, end as int),
        start <= r <= end,
{
    let mut i: usize = start;
    while i < end
        invariant
            end <= t@.len(),
            start <= i <= end,
            point_mark(t@, start as int, end as int) == point_mark(t@, i as int, end as int),
        decreases end - i,
    {
        if t.get_char(i) == '.' {
            return i;
        }
        i = i + 1;
    }
    i
}

/// The value of the digits `t[a..n)`, capped at `cap`.
fn capped_digits(t: &str, a: usize, cap: u128) -> (r: u128)
    requires
        a <= t@.len(),
        cap < u128::MAX / 16,
    ensures
        r == if digits_value(t@, a as int, t@.len() as int) < cap {
            digits_value(t@, a as int, t@.len() as int)
        } else {
            cap as nat
        },
{
    let n = t.unicode_len();
    let mut e: u128 = 0;
    let mut j: usize = a;
    while j < n
        invariant
            n == t@.len(),
            a <= j <= n,
            cap < u128::MAX / 16,
            e == if digits_value(t@, a as int, j as int) < cap {
                digits_value(t@, a as int, j as int)
            } else {
                cap as nat
            },
        decreases n - j,
    {
        let d = digit_of(t.get_char(j));
        assert(digits_value(t@, a as int, j as int + 1) == 10 * digits_value(t@, a as int, j as int) + d);
        if e < cap {
            let v = e * 10 + d;
            e = if v < cap {
                v
            } else {
                cap
            };
        }
        j = j + 1;
    }
    e
}

fn is_integral_text(t: &str) -> (r: bool)
    ensures
        r == integral_text(t@),
{
    let n = t.unicode_len();
    let m = find_exp_mark(t);
    let start: usize = if n > 0 && (t.get_char(0) == '-' || t.get_char(0) == '+') {
        1
    } else {
        0
    };
    let ghost tm = exp_mark(t@, 0);
    proof {
        assert(0 <= tm <= t@.len()) by {
            lemma_exp_mark_range(t@, 0);
        }
    }
    let start = if start <= m {
        start
    } else {
        m
    };
    assert(start == mantissa_start(t@) || m == 0);
    let p = find_point_mark(t, start, m);
    let cap: u128 = (n as u128) + 1;
    let ev: i128 = if m >= n {
        0
    } else if m + 1 < n && t.get_char(m + 1) == '-' {
        -(capped_digits(t, m + 2, cap) as i128)
    } else if m + 1 < n && t.get_char(m + 1) == '+' {
        capped_digits(t, m + 2, cap) as i128
    } else {
        capped_digits(t, m + 1, cap) as i128
    };
    let ghost te = exponent_of(t@);
    assert(-(cap as int) <= ev <= cap);
    assert(ev == te || (ev == cap && te >= cap) || (ev == -(cap as int) && te <= -(cap as int)));
    let mut i: usize = start;
    while i < m
        invariant
            n == t@.len(),
            m == exp_mark(t@, 0),
            m <= n,
            start <= i <= m,
            p == point_mark(t@, mantissa_start(t@), m as int),
            start == mantissa_start(t@) || m == 0,
            p <= m,
            te == exponent_of(t@),
            cap == n + 1,
            -(cap as int) <= ev <= cap,
            ev == te || (ev == cap && te >= cap) || (ev == -(cap as int) && te <= -(cap as int)),
            forall|k: int| start <= k < i && k != p && place(p as int, k) + te < 0 ==> #[trigger] t@[k] == '0',
        decreases m - i,
    {
        if i != p {
            let q: i128 = if i < p {
                (p as i128) - 1 - (i as i128)
            } else {
                (p as i128) - (i as i128)
            };
            assert(q == place(p as int, i as int));
            assert((q + ev < 0) == (place(p as int, i as int) + te < 0));
            if q + ev < 0 && t.get_char(i) != '0' {
                return false;
            }
        }
        i = i + 1;
    }
    true
}

proof fn lemma_exp_mark_range(t: Seq<char>, i: int)
    requires
        0 <= i <= t.len(),
    ensures
        i <= exp_mark(t, i) <= t.len(),
    decreases t.len() - i,
{
    if i < t.len() {
        lemma_exp_mark_range(t, i + 1);
    }
}

/// Whether `v` has the primitive JSON type named `t`; other names accept anything.
pub open spec fn matches_type(v: Json, t: Seq<char>) -> bool {
    if t == "string"@ {
        v is Str
    } else if t == "integer"@ {
        match v {
            Json::Number(JsonNumber::Float(text)) => integral_text(text@),
            Json::Number(_) => true,
            _ => false,
        }
    } else if t == "number"@ {
        v is Number
    } else if t == "boolean"@ {
        v is Bool
    } else if t == "object"@ {
        v is Object
    } else if t == "array"@ {
        v is Array
    } else if t == "null"@ {
        v is Null
    } else {
        true
    }
}

/// Checks `v` against the primitive JSON type named `kind`.
pub fn value_matches_type(v: &Json, kind: &str) -> (r: bool)
    ensures
        r == matches_type(*v, kind@),
{
    proof {
        reveal_strlit("string");
        reveal_strlit("integer");
        reveal_strlit("number");
        reveal_strlit("boolean");
        reveal_strlit("object");
        reveal_strlit("array");
        reveal_strlit("null");
    }
    if str_eq(kind, "string") {
        matches!(v, Json::Str(_))
    } else if str_eq(kind, "integer") {
        match v {
            Json::Number(JsonNumber::Float(text)) => is_integral_text(text.as_str()),
            Json::Number(_) => true,
            _ => false,
        }
    } else if str_eq(kind, "number") {
        matches!(v, Json::Number(_))
    } else if str_eq(kind, "boolean") {
        matches!(v, Json::Bool(_))
    } else if str_eq(kind, "object") {
        matches!(v, Json::Object(_))
    } else if str_eq(kind, "array") {
        matches!(v, Json::Array(_))
    } else if str_eq(kind, "null") {
        matches!(v, Json::Null)
    } else {
        true
    }
}

/// The first field name of `required` (strings only) absent from the arguments.
pub open spec fn first_missing(required: JsonList, args: JsonMembers) -> Option<Seq<char>>
    decreases required,
{
    match required {
        JsonList::Nil => None,
        JsonList::Cons(x, rest) => match *x {
            Json::Str(f) => if member(args, f@) is None {
                Some(f@)
            } else {
                first_missing(*rest, args)
            },
            _ => first_missing(*rest, args),
        },
    }
}

/// The first argument name that the declared properties do not list.
pub open spec fn first_unknown(args: JsonMembers, props: JsonMembers) -> Option<Seq<char>>
    decreases args,
{
    match args {
        JsonMembers::Nil => None,
        JsonMembers::Cons(k, _, rest) => if member(props, k@) is None {
            Some(k@)
        } else {
            first_unknown(*rest, props)
        },
    }
}

/// The first argument, with the declared type name, whose value does not
/// have the primitive type its property declares.
pub open spec fn first_mistyped(args: JsonMembers, props: JsonMembers) -> Option<
    (Seq<char>, Seq<char>),
>
    decreases args,
{
    match args {
        JsonMembers::Nil => None,
        JsonMembers::Cons(k, x, rest) => match member(props, k@) {
            Some(fs) => match field(fs, "type"@) {
                Some(Json::Str(t)) => if !matches_type(*x, t@) {
                    Some((k@, t@))
                } else {
                    first_mistyped(*rest, props)
                },
                _ => first_mistyped(*rest, props),
            },
            None => first_mistyped(*rest, props),
        },
    }
}

/// The `required` array of a schema object, empty when absent or not an array.
pub open spec fn required_of(schema: JsonMembers) -> JsonList {
    match member(schema, "required"@) {
        Some(Json::Array(l)) => l,
        _ => JsonList::Nil,
    }
}

/// The `properties` object of a schema object, empty when absent or not an object.
pub open spec fn properties_of(schema: JsonMembers) -> JsonMembers {
    match member(schema, "properties"@) {
        Some(Json::Object(p)) => p,
        _ => JsonMembers::Nil,
    }
}

/// Whether a schema object forbids arguments that its properties do not list.
pub open spec fn is_closed(schema: JsonMembers) -> bool {
    member(schema, "additionalProperties"@) == Some(Json::Bool(false))
}

/// What is wrong with the arguments of a call, as the message reports it;
/// `None` when they satisfy the schema.
pub open spec fn argument_problem(schema: Json, args: Json) -> Option<Seq<char>> {
    match args {
        Json::Object(am) => match schema {
            Json::Object(sm) => {
                if first_missing(required_of(sm), am) is Some {
                    Some("missing required field: "@ + first_missing(required_of(sm), am)->0)
                } else if is_closed(sm) && first_unknown(am, properties_of(sm)) is Some {
                    Some("unknown field: "@ + first_unknown(am, properties_of(sm))->0)
                } else if first_mistyped(am, properties_of(sm)) is Some {
                    let (k, t) = first_mistyped(am, properties_of(sm))->0;
                    Some("field '"@ + k + "' must be of type "@ + t)
                } else {
                    None
                }
            },
            _ => Some("tool schema must be a JSON object"@),
        },
        _ => Some("arguments must be a JSON object"@),
    }
}

fn find_missing(required: &JsonList, args: &JsonMembers) -> (r: Option<String>)
    ensures
        r matches Some(s) ==> first_missing(*required, *args) == Some(s@),
        r is None ==> first_missing(*required, *args) is None,
    decreases required,
{
    match required {
        JsonList::Nil => None,
        JsonList::Cons(x, rest) => match &**x {
            Json::Str(f) => {
                if get_member(args, f.as_str()).is_none() {
                    Some(f.clone())
                } else {
                    find_missing(rest, args)
                }
            },
            _ => find_missing(rest, args),
        },
    }
}

fn find_unknown(args: &JsonMembers, props: &JsonMembers) -> (r: Option<String>)
    ensures
        r matches Some(s) ==> first_unknown(*args, *props) == Some(s@),
        r is None ==> first_unknown(*args, *props) is None,
    decreases args,
{
    match args {
        JsonMembers::Nil => None,
        JsonMembers::Cons(k, _, rest) => {
            if get_member(props, k.as_str()).is_none() {
                Some(k.clone())
            } else {
                find_unknown(rest, props)
            }
        },
    }
}

fn find_mistyped(args: &JsonMembers, props: &JsonMembers) -> (r: Option<(String, String)>)
    ensures
        r matches Some(p) ==> first_mistyped(*args, *props) == Some((p.0@, p.1@)),
        r is None ==> first_mistyped(*args, *props) is None,
    decreases args,
{
    proof {
        reveal_strlit("type");
    }
    match args {
        JsonMembers::Nil => None,
        JsonMembers::Cons(k, x, rest) => match get_member(props, k.as_str()) {
            Some(fs) => match get_field(fs, "type") {
                Some(Json::Str(t)) => {
                    if !value_matches_type(x, t.as_str()) {
                        Some((k.clone(), t.clone()))
                    } else {
                        find_mistyped(rest, props)
                    }
                },
                _ => find_mistyped(rest, props),
            },
            None => find_mistyped(rest, props),
        },
    }
}

fn invalid(tool_name: &str, message: String) -> (r: ToolError)
    ensures
        r matches ToolError::InvalidArguments { tool, message: m } && tool@ == tool_name@ && m
            == message,
{
    ToolError::InvalidArguments { tool: String::from_str(tool_name), message }
}

/// Checks the arguments of a call of the tool `tool_name` against its schema.
pub fn validate_arguments(tool_name: &str, schema: &Json, args: &Json) -> (r: Result<(), ToolError>)
    ensures
        r is Ok <==> argument_problem(*schema, *args) is None,
        r matches Err(e) ==> e matches ToolError::InvalidArguments { tool, message } && tool@
            == tool_name@ && Some(message@) == argument_problem(*schema, *args),
{
    let am = match args {
        Json::Object(am) => am,
        _ => {
            return Err(invalid(tool_name, String::from_str("arguments must be a JSON object")));
        },
    };
    let sm = match schema {
        Json::Object(sm) => sm,
        _ => {
            return Err(invalid(tool_name, String::from_str("tool schema must be a JSON object")));
        },
    };
    let no_required = JsonList::Nil;
    let required = match get_member(sm, "required") {
        Some(Json::Array(l)) => l,
        _ => &no_required,
    };
    proof {
        reveal_strlit("required");
        reveal_strlit("properties");
        reveal_strlit("additionalProperties");
    }
    if let Some(f) = find_missing(required, am) {
        return Err(invalid(tool_name, String::from_str("missing required field: ").concat(f.as_str())));
    }
    let no_props = JsonMembers::Nil;
    let props = match get_member(sm, "properties") {
        Some(Json::Object(p)) => p,
        _ => &no_props,
    };
    let closed = match get_member(sm, "additionalProperties") {
        Some(Json::Bool(b)) => !*b,
        _ => false,
    };
    if closed {
        if let Some(k) = find_unknown(am, props) {
            return Err(invalid(tool_name, String::from_str("unknown field: ").concat(k.as_str())));
        }
    }
    if let Some((k, t)) = find_mistyped(am, props) {
        let message = String::from_str("field '").concat(k.as_str()).concat(
            "' must be of type ",
        ).concat(t.as_str());
        return Err(invalid(tool_name, message));
    }
    Ok(())
}

} // verus!
