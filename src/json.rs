//! A JSON value held as plain data. Arrays and objects are cons lists, so
//! that equality of two values is equality of their parts.
use vstd::prelude::*;
use crate::text::str_eq;

verus! {

/// A JSON number as the parser produced it: a signed or unsigned integer,
/// or a floating-point number kept as its decimal text.
#[derive(Debug)]
pub enum JsonNumber {
    NegInt(i64),
    PosInt(u64),
    Float(String),
}

/// A JSON value.
#[derive(Debug)]
pub enum Json {
    Null,
    Bool(bool),
    Number(JsonNumber),
    Str(String),
    Array(JsonList),
    Object(JsonMembers),
}

/// The elements of an array, in order.
#[derive(Debug)]
pub enum JsonList {
    Nil,
    Cons(Box<Json>, Box<JsonList>),
}

/// The members of an object, in order of appearance.
#[derive(Debug)]
pub enum JsonMembers {
    Nil,
    Cons(String, Box<Json>, Box<JsonMembers>),
}

/// Copies a number.
pub fn copy_number(n: &JsonNumber) -> (r: JsonNumber)
    ensures
        r == *n,
{
    match n {
        JsonNumber::NegInt(x) => JsonNumber::NegInt(*x),
        JsonNumber::PosInt(x) => JsonNumber::PosInt(*x),
        JsonNumber::Float(t) => JsonNumber::Float(t.clone()),
    }
}

/// Copies a value part by part.
pub fn copy_json(v: &Json) -> (r: Json)
    ensures
        r == *v,
    decreases v,
{
    match v {
        Json::Null => Json::Null,
        Json::Bool(b) => Json::Bool(*b),
        Json::Number(n) => Json::Number(copy_number(n)),
        Json::Str(s) => Json::Str(s.clone()),
        Json::Array(items) => Json::Array(copy_list(items)),
        Json::Object(members) => Json::Object(copy_members(members)),
    }
}

/// Copies the elements of an array.
pub fn copy_list(l: &JsonList) -> (r: JsonList)
    ensures
        r == *l,
    decreases l,
{
    match l {
        JsonList::Nil => JsonList::Nil,
        JsonList::Cons(x, rest) => JsonList::Cons(Box::new(copy_json(x)), Box::new(copy_list(rest))),
    }
}

/// Copies the members of an object.
pub fn copy_members(m: &JsonMembers) -> (r: JsonMembers)
    ensures
        r == *m,
    decreases m,
{
    match m {
        JsonMembers::Nil => JsonMembers::Nil,
        JsonMembers::Cons(k, x, rest) => JsonMembers::Cons(
            k.clone(),
            Box::new(copy_json(x)),
            Box::new(copy_members(rest)),
        ),
    }
}

impl Clone for Json {
    fn clone(&self) -> (r: Self)
        ensures
            r == *self,
    {
        copy_json(self)
    }
}

/// The members of an object as a sequence of key and value.
pub open spec fn members_seq(m: JsonMembers) -> Seq<(Seq<char>, Json)>
    decreases m,
{
    match m {
        JsonMembers::Nil => Seq::empty(),
        JsonMembers::Cons(k, x, rest) => seq![(k@, *x)] + members_seq(*rest),
    }
}

/// The elements of an array as a sequence.
pub open spec fn list_seq(l: JsonList) -> Seq<Json>
    decreases l,
{
    match l {
        JsonList::Nil => Seq::empty(),
        JsonList::Cons(x, rest) => seq![*x] + list_seq(*rest),
    }
}

/// The value of the first member named `key`.
pub open spec fn member(m: JsonMembers, key: Seq<char>) -> Option<Json>
    decreases m,
{
    match m {
        JsonMembers::Nil => None,
        JsonMembers::Cons(k, x, rest) => if k@ == key {
            Some(*x)
        } else {
            member(*rest, key)
        },
    }
}

/// The member `key` of `v` when `v` is an object.
pub open spec fn field(v: Json, key: Seq<char>) -> Option<Json> {
    match v {
        Json::Object(m) => member(m, key),
        _ => None,
    }
}

/// Looks up the first member named `key`.
pub fn get_member<'a>(m: &'a JsonMembers, key: &str) -> (r: Option<&'a Json>)
    ensures
        r matches Some(x) ==> member(*m, key@) == Some(*x),
        r is None ==> member(*m, key@) is None,
    decreases m,
{
    match m {
        JsonMembers::Nil => None,
        JsonMembers::Cons(k, x, rest) => {
            if str_eq(k.as_str(), key) {
                Some(&**x)
            } else {
                get_member(rest, key)
            }
        },
    }
}

/// Looks up the member `key` of `v` when `v` is an object.
pub fn get_field<'a>(v: &'a Json, key: &str) -> (r: Option<&'a Json>)
    ensures
        r matches Some(x) ==> field(*v, key@) == Some(*x),
        r is None ==> field(*v, key@) is None,
{
    match v {
        Json::Object(m) => get_member(m, key),
        _ => None,
    }
}

/// Builds an object from its members, in the order given.
pub fn object_from(entries: Vec<(String, Json)>) -> (r: Json)
    ensures
        r matches Json::Object(m) && members_seq(m) == entries@.map_values(
            |e: (String, Json)| (e.0@, e.1),
        ),
{
    let ghost orig = entries@;
    let mut entries = entries;
    let mut acc = JsonMembers::Nil;
    while entries.len() > 0
        invariant
            entries@.len() <= orig.len(),
            entries@ == orig.subrange(0, entries@.len() as int),
            members_seq(acc) == orig.subrange(entries@.len() as int, orig.len() as int).map_values(
                |e: (String, Json)| (e.0@, e.1),
            ),
        decreases entries.len(),
    {
        let ghost n = entries@.len() as int;
        let (k, x) = entries.pop().unwrap();
        assert(orig[n - 1] == (k, x));
        assert(entries@ =~= orig.subrange(0, n - 1));
        acc = JsonMembers::Cons(k, Box::new(x), Box::new(acc));
        assert(members_seq(acc) =~= orig.subrange(n - 1, orig.len() as int).map_values(
            |e: (String, Json)| (e.0@, e.1),
        ));
    }
    assert(orig.subrange(0, orig.len() as int) =~= orig);
    Json::Object(acc)
}

/// Builds an array from its elements, in the order given.
pub fn array_from(items: Vec<Json>) -> (r: Json)
    ensures
        r matches Json::Array(l) && list_seq(l) == items@,
{
    let ghost orig = items@;
    let mut items = items;
    let mut acc = JsonList::Nil;
    while items.len() > 0
        invariant
            items@.len() <= orig.len(),
            items@ == orig.subrange(0, items@.len() as int),
            list_seq(acc) == orig.subrange(items@.len() as int, orig.len() as int),
        decreases items.len(),
    {
        let ghost n = items@.len() as int;
        let x = items.pop().unwrap();
        assert(orig[n - 1] == x);
        assert(items@ =~= orig.subrange(0, n - 1));
        acc = JsonList::Cons(Box::new(x), Box::new(acc));
        assert(list_seq(acc) =~= orig.subrange(n - 1, orig.len() as int));
    }
    assert(orig.subrange(0, orig.len() as int) =~= orig);
    Json::Array(acc)
}

} // verus!
