//! JSON values, which tools take and give, and which task results carry.
//! The library carries them through without looking inside.

use vstd::prelude::*;
use serde_json::Value;

verus! {

/// `serde_json::Value`, held as an opaque value.
#[verifier::external_type_specification]
#[verifier::external_body]
pub struct ExValue(serde_json::Value);

/// Calls `serde_json::Value::clone`, whose derived implementation copies the
/// whole JSON tree: the copy is the same value.
#[verifier::external_body]
pub(crate) fn clone_value(v: &serde_json::Value) -> (r: serde_json::Value)
    ensures
        r == *v,
{
    v.clone()
}

/// What `Value::get` with a text key returns: the member of a JSON object
/// under that key (none for a missing key or a value that is not an object).
pub uninterp spec fn member_of(v: Value, key: Seq<char>) -> Option<Value>;

/// What `Value::as_str` returns: the text of a JSON string, none for any
/// other value.
pub uninterp spec fn string_of_value(v: Value) -> Option<Seq<char>>;

/// The text that `serde_json::Number`'s `to_string` writes for a JSON number,
/// none for any other value.
pub uninterp spec fn number_text(v: Value) -> Option<Seq<char>>;

/// The compact JSON text that `Value::to_string` writes for a value.
pub uninterp spec fn json_text(v: Value) -> Seq<char>;

/// Calls `Value::get` with a text key; the member it finds is the named one.
#[verifier::external_body]
pub(crate) fn value_member<'a>(v: &'a Value, key: &str) -> (r: Option<&'a Value>)
    ensures
        match r {
            Some(m) => member_of(*v, key@) == Some(*m),
            None => member_of(*v, key@) is None,
        },
{
    v.get(key)
}

/// Calls `Value::as_str` and copies the text it finds.
#[verifier::external_body]
pub(crate) fn value_as_text(v: &Value) -> (r: Option<String>)
    ensures
        match r {
            Some(t) => string_of_value(*v) == Some(t@),
            None => string_of_value(*v) is None,
        },
{
    v.as_str().map(String::from)
}

/// Calls `Value::as_number` and writes the number it finds with
/// `Number::to_string`.
#[verifier::external_body]
pub(crate) fn value_number_text(v: &Value) -> (r: Option<String>)
    ensures
        match r {
            Some(t) => number_text(*v) == Some(t@),
            None => number_text(*v) is None,
        },
{
    v.as_number().map(ToString::to_string)
}

/// Calls `Value::to_string`, which writes the value as compact JSON text.
#[verifier::external_body]
pub(crate) fn value_json_text(v: &Value) -> (r: String)
    ensures
        r@ == json_text(*v),
{
    v.to_string()
}

} // verus!
