//! JSON values, held and read by the `serde_json` crate.

use serde_json::Error as JsonFault;
use serde_json::Value;
use vstd::prelude::*;

verus! {

/// A JSON value of the `serde_json` crate.
#[verifier::external_type_specification]
#[verifier::external_body]
pub struct ExValue(serde_json::Value);

/// The failure that the `serde_json` crate reports for text that is not
/// JSON.
#[verifier::external_type_specification]
#[verifier::external_body]
pub struct ExJsonFault(JsonFault);

/// What indexing a JSON value by a member's name gives: the member's value
/// where `v` is an object that has the member, and null otherwise.
pub uninterp spec fn json_member(v: Value, name: Seq<char>) -> Value;

/// What `Value::as_str` gives: the string, where the value is one.
pub uninterp spec fn json_string(v: Value) -> Option<Seq<char>>;

/// What `Value::as_u64` gives: the number, where the value is a whole
/// number from 0 up to the largest `u64`.
pub uninterp spec fn json_u64(v: Value) -> Option<u64>;

/// The members of a JSON value that are strings: each such member's name
/// with the string it holds.
pub open spec fn json_strings(v: Value) -> Map<Seq<char>, Seq<char>> {
    Map::new(
        |name: Seq<char>| json_string(json_member(v, name)) is Some,
        |name: Seq<char>| json_string(json_member(v, name))->0,
    )
}

/// The members of a JSON value that are whole numbers from 0 up to the
/// largest `u64`: each such member's name with its number.
pub open spec fn json_numbers(v: Value) -> Map<Seq<char>, u64> {
    Map::new(
        |name: Seq<char>| json_u64(json_member(v, name)) is Some,
        |name: Seq<char>| json_u64(json_member(v, name))->0,
    )
}

/// Whether the value is JSON's null.
pub uninterp spec fn json_is_null(v: Value) -> bool;

/// What `serde_json::from_slice` makes of bytes: the value that they
/// spell, or the failure that says why they spell none.
pub uninterp spec fn json_parsed(bytes: Seq<u8>) -> Result<Value, JsonFault>;

/// The text that a failure of the `serde_json` crate displays.
pub uninterp spec fn json_fault_text(fault: JsonFault) -> Seq<char>;

/// The compact JSON text of a value, as `Display` of `Value` writes it.
pub uninterp spec fn json_text(v: Value) -> Seq<char>;

/// The compact JSON text of a string: the string between quotes, with
/// what has to be escaped in it escaped.
pub uninterp spec fn json_quoted(s: Seq<char>) -> Seq<char>;

/// `Clone` of `Value`: a copy that equals the value.
pub assume_specification[ <serde_json::Value as Clone>::clone ](v: &serde_json::Value) -> (copy:
    serde_json::Value)
    ensures
        copy == *v,
;

/// Indexing a `Value` by a string: the member `name`, or null where there
/// is none.
#[verifier::external_body]
pub(crate) fn member<'a>(v: &'a Value, name: &str) -> (found: &'a Value)
    ensures
        *found == json_member(*v, name@),
{
    &v[name]
}

/// `Value::as_str`: the string, where the value is one.
pub assume_specification<'a>[ serde_json::Value::as_str ](v: &'a serde_json::Value) -> (found:
    Option<&'a str>)
    ensures
        match found {
            Some(s) => json_string(*v) == Some(s@),
            None => json_string(*v) is None,
        },
;

/// `Value::as_u64`: the number, where the value is a whole number from 0
/// up to the largest `u64`.
pub assume_specification[ serde_json::Value::as_u64 ](v: &serde_json::Value) -> (found: Option<u64>)
    ensures
        found == json_u64(*v),
;

/// The string that the member `name` of an object holds; `None` where the
/// value is no object, has no such member, or the member is no string.
pub(crate) fn string_member<'a>(v: &'a Value, name: &str) -> (found: Option<&'a str>)
    ensures
        match found {
            Some(s) => json_strings(*v).contains_key(name@) && json_strings(*v)[name@] == s@,
            None => !json_strings(*v).contains_key(name@),
        },
{
    member(v, name).as_str()
}

/// The number that the member `name` of an object holds; `None` where the
/// value is no object, has no such member, or the member is no whole
/// number from 0 up to the largest `u64`.
pub(crate) fn number_member(v: &Value, name: &str) -> (found: Option<u64>)
    ensures
        match found {
            Some(n) => json_numbers(*v).contains_key(name@) && json_numbers(*v)[name@] == n,
            None => !json_numbers(*v).contains_key(name@),
        },
{
    member(v, name).as_u64()
}

/// `Value::is_null`: whether the value is JSON's null.
pub assume_specification[ serde_json::Value::is_null ](v: &serde_json::Value) -> (null: bool)
    ensures
        null == json_is_null(*v),
;

/// `serde_json::from_slice` for a `Value`: parses bytes as JSON. The
/// result depends on the bytes alone.
#[verifier::external_body]
pub(crate) fn parse(bytes: &[u8]) -> (parsed: Result<Value, JsonFault>)
    ensures
        parsed == json_parsed(bytes@),
{
    serde_json::from_slice(bytes)
}

/// `Display` of `serde_json::Error`, through `to_string`.
#[verifier::external_body]
pub(crate) fn fault_text(fault: &JsonFault) -> (text: String)
    ensures
        text@ == json_fault_text(*fault),
{
    fault.to_string()
}

/// `Display` of `Value`, through `to_string`: the compact JSON text of the
/// value.
#[verifier::external_body]
pub(crate) fn text_of(v: &Value) -> (text: String)
    ensures
        text@ == json_text(*v),
{
    v.to_string()
}

/// `Value::from` a string slice, then its `Display`: the compact JSON
/// text of the string.
#[verifier::external_body]
pub(crate) fn quoted(s: &str) -> (text: String)
    ensures
        text@ == json_quoted(s@),
{
    Value::from(s).to_string()
}

/// `Value::Object` of `Map::new`: the JSON object without members, whose
/// text is `{}`.
#[verifier::external_body]
pub(crate) fn empty_object() -> (v: Value)
    ensures
        json_text(v) == "{}"@,
{
    Value::Object(serde_json::Map::new())
}

} // verus!
