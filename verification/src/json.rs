//! JSON values as the rest of the library sees them.
//!
//! The values themselves are `serde_json::Value`, and `serde_json` reads,
//! writes and takes them apart. Verus cannot look inside such a value, so
//! this module gives every value a mathematical content, [`Json`], and states
//! what each operation of `serde_json` that the library uses does in terms of
//! that content. Those statements are trusted, not proved.

use vstd::prelude::*;
use serde_json::Value;

verus! {

/// A JSON number: an integer, or a finite binary floating-point value
/// identified by its IEEE 754 bit pattern.
pub enum JsonNumber {
    Int(int),
    Real(u64),
}

/// The content of a JSON value. An object is a map from names to values: the
/// order of its members is no part of it, as `serde_json` keeps the members
/// of an object sorted by name.
pub enum Json {
    Null,
    Bool(bool),
    Number(JsonNumber),
    String(Seq<char>),
    Array(Seq<Json>),
    Object(Map<Seq<char>, Json>),
}

/// `serde_json::Value`, a JSON value. Nothing of its inside is known to
/// Verus; what it holds is spoken of through [`json_view`].
#[verifier::external_type_specification]
#[verifier::external_body]
pub struct ExValue(Value);

/// `serde_json::Error`, the error of the JSON reader and writer. It is only
/// passed on; nothing of it is looked at.
#[verifier::external_type_specification]
#[verifier::external_body]
pub struct ExError(serde_json::Error);

/// What a `serde_json::Value` holds.
pub uninterp spec fn json_view(v: Value) -> Json;

/// The compact JSON text that `Value::to_string` writes for a value that
/// holds `j`.
pub uninterp spec fn json_text(j: Json) -> Seq<char>;

/// The indented JSON text that `serde_json::to_string_pretty` writes for a
/// value that holds `j`; `None` where it reports an error.
pub uninterp spec fn json_pretty_text(j: Json) -> Option<Seq<char>>;

/// What the value holds that `serde_json::from_str` reads from a text; `None`
/// where it reports an error.
pub uninterp spec fn json_parsed(text: Seq<char>) -> Option<Json>;

/// The members of an object; no members for any other value.
pub open spec fn json_members(j: Json) -> Map<Seq<char>, Json> {
    match j {
        Json::Object(m) => m,
        _ => Map::empty(),
    }
}

/// The member `key` of an object, if `j` is an object that has one.
pub open spec fn json_member(j: Json, key: Seq<char>) -> Option<Json> {
    if json_members(j).contains_key(key) {
        Some(json_members(j)[key])
    } else {
        None
    }
}

/// The integer that `j` holds, if it is an integer from `i64::MIN` to `i64::MAX`.
pub open spec fn json_i64(j: Json) -> Option<i64> {
    match j {
        Json::Number(JsonNumber::Int(n)) => if i64::MIN <= n <= i64::MAX {
            Some(n as i64)
        } else {
            None
        },
        _ => None,
    }
}

/// The text that `j` holds, if it is a string.
pub open spec fn json_str(j: Json) -> Option<Seq<char>> {
    match j {
        Json::String(s) => Some(s),
        _ => None,
    }
}

/// The elements that `j` holds, if it is an array.
pub open spec fn json_items(j: Json) -> Option<Seq<Json>> {
    match j {
        Json::Array(items) => Some(items),
        _ => None,
    }
}

/// The contents of a sequence of values, one by one.
pub open spec fn json_views(items: Seq<Value>) -> Seq<Json> {
    items.map_values(|v: Value| json_view(v))
}

/// `Value::get` with a string index: the member of that name where the value
/// is an object that has it, `None` otherwise.
#[verifier::external_body]
pub(crate) fn json_get<'a>(v: &'a Value, key: &str) -> (r: Option<&'a Value>)
    ensures
        match r {
            Some(x) => json_member(json_view(*v), key@) == Some(json_view(*x)),
            None => json_member(json_view(*v), key@) is None,
        },
{
    v.get(key)
}

/// `Value::as_i64`: the integer where the value is a number that is an integer
/// in the range of `i64`, `None` otherwise.
#[verifier::external_body]
pub(crate) fn json_as_i64(v: &Value) -> (r: Option<i64>)
    ensures
        r == json_i64(json_view(*v)),
{
    v.as_i64()
}

/// `Value::as_str`: the text where the value is a string, `None` otherwise.
#[verifier::external_body]
pub(crate) fn json_as_str<'a>(v: &'a Value) -> (r: Option<&'a str>)
    ensures
        match r {
            Some(s) => json_str(json_view(*v)) == Some(s@),
            None => json_str(json_view(*v)) is None,
        },
{
    v.as_str()
}

/// `Value::as_array`: the elements where the value is an array, `None`
/// otherwise.
#[verifier::external_body]
pub(crate) fn json_as_array<'a>(v: &'a Value) -> (r: Option<&'a Vec<Value>>)
    ensures
        match r {
            Some(items) => json_items(json_view(*v)) == Some(json_views(items@)),
            None => json_items(json_view(*v)) is None,
        },
{
    v.as_array()
}

/// `Value::is_null`: whether the value is JSON `null`.
#[verifier::external_body]
pub(crate) fn json_is_null(v: &Value) -> (b: bool)
    ensures
        b == (json_view(*v) is Null),
{
    v.is_null()
}

/// The value `Value::Null`.
#[verifier::external_body]
pub(crate) fn json_null() -> (v: Value)
    ensures
        json_view(v) == Json::Null,
{
    Value::Null
}

/// `Value::Object` of `Map::new()`: an object without members.
#[verifier::external_body]
pub(crate) fn json_empty_object() -> (v: Value)
    ensures
        json_view(v) == Json::Object(Map::empty()),
{
    Value::Object(serde_json::Map::new())
}

/// `Value::from` of an `i32`: the number with that integer value.
#[verifier::external_body]
pub(crate) fn json_from_i32(n: i32) -> (v: Value)
    ensures
        json_view(v) == Json::Number(JsonNumber::Int(n as int)),
{
    Value::from(n)
}

/// `Value::from` of a `usize`: the number with that integer value.
#[verifier::external_body]
pub(crate) fn json_from_usize(n: usize) -> (v: Value)
    ensures
        json_view(v) == Json::Number(JsonNumber::Int(n as int)),
{
    Value::from(n)
}

/// `Value::from` of a string slice: the string with that text.
#[verifier::external_body]
pub(crate) fn json_from_text(s: &str) -> (v: Value)
    ensures
        json_view(v) == Json::String(s@),
{
    Value::from(s)
}

/// Assignment through `Value`'s string index: on an object, the member `key`
/// is set to `value`, replacing any member of that name, and the others stay.
/// On a value that is neither an object nor `null` the index panics, so such
/// a value is not accepted.
#[verifier::external_body]
pub(crate) fn json_set(obj: &mut Value, key: &str, value: Value)
    requires
        json_view(*old(obj)) is Object,
    ensures
        json_view(*final(obj)) == Json::Object(
            json_members(json_view(*old(obj))).insert(key@, json_view(value)),
        ),
{
    obj[key] = value;
}

/// `Value::to_string`: the compact JSON text of the value.
#[verifier::external_body]
pub(crate) fn json_to_string(v: &Value) -> (s: String)
    ensures
        s@ == json_text(json_view(*v)),
{
    v.to_string()
}

/// `serde_json::to_string_pretty`: the indented JSON text of the value, or
/// the error that the serialiser reports.
#[verifier::external_body]
pub(crate) fn json_to_string_pretty(v: &Value) -> (r: Result<String, serde_json::Error>)
    ensures
        match r {
            Ok(s) => json_pretty_text(json_view(*v)) == Some(s@),
            Err(_) => json_pretty_text(json_view(*v)) is None,
        },
{
    serde_json::to_string_pretty(v)
}

/// `serde_json::from_str` at type `Value`: the value that the text denotes,
/// or the error that the parser reports.
#[verifier::external_body]
pub(crate) fn json_from_str(text: &str) -> (r: Result<Value, serde_json::Error>)
    ensures
        match r {
            Ok(v) => json_parsed(text@) == Some(json_view(v)),
            Err(_) => json_parsed(text@) is None,
        },
{
    serde_json::from_str::<Value>(text)
}

} // verus!
