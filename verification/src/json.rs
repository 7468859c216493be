//! The JSON values that travel in message payloads, and the calls into
//! `serde_json` that build them, take them apart, parse them and print them.
//!
//! Nothing in this file is proved: each function states what the `serde_json`
//! item in its body does, over the mathematical content of the values.

use serde_json::Value;
use vstd::prelude::*;

verus! {

/// The mathematical content of a JSON value.
pub enum Json {
    Null,
    Bool(bool),
    /// A number that `serde_json` holds as an integer.
    Int(int),
    /// A number that `serde_json` holds as a double, by the double's bits.
    Float(u64),
    Str(Seq<char>),
    Array(Seq<Json>),
    Object(Map<Seq<char>, Json>),
}

/// `serde_json::Value`, a JSON value. Verified code carries such values and
/// never looks inside one: what one holds is [`json_model`].
#[verifier::external_type_specification]
#[verifier::external_body]
pub struct ExValue(serde_json::Value);

/// `serde_json::Map`, the map from names to values that a JSON object is.
/// What one holds is [`map_model`].
#[verifier::external_type_specification]
#[verifier::external_body]
#[verifier::reject_recursive_types(K)]
#[verifier::reject_recursive_types(V)]
pub struct ExMap<K, V>(serde_json::Map<K, V>);

/// What a `serde_json::Value` holds.
pub uninterp spec fn json_model(v: Value) -> Json;

/// What a `serde_json::Map` holds: its keys, each with the content of its value.
pub uninterp spec fn map_model(m: serde_json::Map<String, Value>) -> Map<Seq<char>, Json>;

/// The value that `serde_json::from_str` reads from a text, `None` where it
/// reports an error.
pub uninterp spec fn json_parse(text: Seq<char>) -> Option<Json>;

/// The compact text that `serde_json::to_string` prints for a value. With
/// the features this crate builds `serde_json` with, an object's fields are
/// printed in the order of their names, so the text depends on nothing but
/// the value.
pub uninterp spec fn json_text(j: Json) -> Seq<char>;

/// The payload without fields.
pub open spec fn no_fields() -> Map<Seq<char>, Json> {
    Map::empty()
}

/// The contents of a vector of values, item by item.
pub open spec fn values_model(s: Seq<Value>) -> Seq<Json> {
    s.map_values(|v: Value| json_model(v))
}

/// `Value::as_u64`: the number, where the value is an integer from 0 to
/// `u64::MAX`, and nothing for any other value.
#[verifier::external_body]
pub(crate) fn value_as_u64(v: &Value) -> (r: Option<u64>)
    ensures
        r == (match json_model(*v) {
            Json::Int(n) if 0 <= n <= u64::MAX => Some(n as u64),
            _ => None,
        }),
{
    v.as_u64()
}

/// `Value::as_str`: the string, where the value is one.
#[verifier::external_body]
pub(crate) fn value_as_str(v: &Value) -> (r: Option<&str>)
    ensures
        (match json_model(*v) {
            Json::Str(s) => r is Some && r.unwrap()@ == s,
            _ => r is None,
        }),
{
    v.as_str()
}

/// `Value::as_array`: the items, where the value is an array.
#[verifier::external_body]
pub(crate) fn value_as_array(v: &Value) -> (r: Option<&Vec<Value>>)
    ensures
        (match json_model(*v) {
            Json::Array(a) => r is Some && values_model(r.unwrap()@) == a,
            _ => r is None,
        }),
{
    v.as_array()
}

/// `Value::as_object`: the map, where the value is an object.
#[verifier::external_body]
pub(crate) fn value_as_object(v: &Value) -> (r: Option<&serde_json::Map<String, Value>>)
    ensures
        (match json_model(*v) {
            Json::Object(o) => r is Some && map_model(*r.unwrap()) == o,
            _ => r is None,
        }),
{
    v.as_object()
}

/// `From<u64> for Value`: the number as a JSON integer.
#[verifier::external_body]
pub(crate) fn value_from_u64(n: u64) -> (r: Value)
    ensures
        json_model(r) == Json::Int(n as int),
{
    Value::from(n)
}

/// `From<bool> for Value`: the JSON boolean.
#[verifier::external_body]
pub(crate) fn value_from_bool(b: bool) -> (r: Value)
    ensures
        json_model(r) == Json::Bool(b),
{
    Value::from(b)
}

/// `From<String> for Value`: the JSON string with the same characters.
#[verifier::external_body]
pub(crate) fn value_from_string(s: String) -> (r: Value)
    ensures
        json_model(r) == Json::Str(s@),
{
    Value::from(s)
}

/// `From<Map<String, Value>> for Value`: the JSON object with the map's entries.
#[verifier::external_body]
pub(crate) fn value_from_object(m: serde_json::Map<String, Value>) -> (r: Value)
    ensures
        json_model(r) == Json::Object(map_model(m)),
{
    Value::from(m)
}

/// `Map::new`: a map without entries.
#[verifier::external_body]
pub(crate) fn map_new() -> (r: serde_json::Map<String, Value>)
    ensures
        map_model(r) == no_fields(),
{
    serde_json::Map::new()
}

/// `Map::insert`: the entry is added, in place of one with the same key.
#[verifier::external_body]
pub(crate) fn map_insert(m: &mut serde_json::Map<String, Value>, key: String, value: Value)
    ensures
        map_model(*final(m)) == map_model(*old(m)).insert(key@, json_model(value)),
{
    m.insert(key, value);
}

/// `Map::get`: the value under the key, where the map has the key.
#[verifier::external_body]
pub(crate) fn map_get<'a>(m: &'a serde_json::Map<String, Value>, key: &str) -> (r: Option<&'a Value>)
    ensures
        (match r {
            Some(v) => map_model(*m).contains_key(key@) && json_model(*v) == map_model(*m)[key@],
            None => !map_model(*m).contains_key(key@),
        }),
{
    m.get(key)
}

/// `Map::remove`: the entry under the key leaves the map, and its value is
/// returned where there was one.
#[verifier::external_body]
pub(crate) fn map_remove(m: &mut serde_json::Map<String, Value>, key: &str) -> (r: Option<Value>)
    ensures
        map_model(*final(m)) == map_model(*old(m)).remove(key@),
        (match r {
            Some(v) => map_model(*old(m)).contains_key(key@) && json_model(v) == map_model(
                *old(m),
            )[key@],
            None => !map_model(*old(m)).contains_key(key@),
        }),
{
    m.remove(key)
}

/// `Clone` for `Map`: the copy holds what the map holds.
pub assume_specification[ <serde_json::Map<String, Value> as Clone>::clone ](
    m: &serde_json::Map<String, Value>,
) -> (r: serde_json::Map<String, Value>)
    ensures
        map_model(r) == map_model(*m),
;

/// `Clone` for `Value`: the copy holds what the value holds.
pub assume_specification[ <Value as Clone>::clone ](v: &Value) -> (r: Value)
    ensures
        json_model(r) == json_model(*v),
;

/// `serde_json::from_str` at `Value`: the value that the text denotes, and
/// nothing where the parser reports an error.
#[verifier::external_body]
pub(crate) fn json_from_str(text: &str) -> (r: Option<Value>)
    ensures
        (match r {
            Some(v) => json_parse(text@) == Some(json_model(v)),
            None => json_parse(text@) is None,
        }),
{
    serde_json::from_str::<Value>(text).ok()
}

/// `serde_json::to_string` at `Value`: the compact text of the value. For a
/// `Value` the serializer has nothing to refuse and writes into memory, so
/// there is always a text; it escapes a line feed inside a string and adds
/// no white space of its own, so the text holds no line feed.
#[verifier::external_body]
pub(crate) fn json_to_string(v: &Value) -> (r: Option<String>)
    ensures
        r is Some,
        r.unwrap()@ == json_text(json_model(*v)),
        !r.unwrap()@.contains('\n'),
{
    serde_json::to_string(v).ok()
}

/// `Value::as_i64`: the number, where the value is an integer from
/// `i64::MIN` to `i64::MAX`, and nothing for any other value.
#[verifier::external_body]
pub(crate) fn value_as_i64(v: &Value) -> (r: Option<i64>)
    ensures
        r == (match json_model(*v) {
            Json::Int(n) if i64::MIN <= n <= i64::MAX => Some(n as i64),
            _ => None,
        }),
{
    v.as_i64()
}

/// `From<i64> for Value`: the number as a JSON integer.
#[verifier::external_body]
pub(crate) fn value_from_i64(n: i64) -> (r: Value)
    ensures
        json_model(r) == Json::Int(n as int),
{
    Value::from(n)
}

/// `From<Vec<Value>> for Value`: the JSON array of the items, in order.
#[verifier::external_body]
pub(crate) fn value_from_array(items: Vec<Value>) -> (r: Value)
    ensures
        json_model(r) == Json::Array(values_model(items@)),
{
    Value::from(items)
}

} // verus!
