//! The YAML document of a page header, read through `serde_yaml`.
//!
//! A parsed document stays a `serde_yaml::Value`. What the accessors of that
//! type return is given a name here, so that contracts can say which entry of
//! which document a result was read from.

use vstd::prelude::*;
use serde_yaml::Value;

verus! {

#[verifier::external_type_specification]
#[verifier::external_body]
pub struct ExValue(serde_yaml::Value);

/// The value that `serde_yaml::from_str` reads from a text, `None` where it
/// reports an error.
pub uninterp spec fn yaml_document(text: Seq<char>) -> Option<Value>;

/// The entry that `Value::get` finds in a value under a string key.
pub uninterp spec fn yaml_entry(value: Value, key: Seq<char>) -> Option<Value>;

/// The text that `Value::as_str` finds in a value.
pub uninterp spec fn yaml_text(value: Value) -> Option<Seq<char>>;

/// The items that `Value::as_sequence` finds in a value.
pub uninterp spec fn yaml_items(value: Value) -> Option<Seq<Value>>;

/// Whether `Value::is_null` holds of a value.
pub uninterp spec fn yaml_is_null(value: Value) -> bool;

/// The truth value that `Value::as_bool` finds in a value.
pub uninterp spec fn yaml_flag(value: Value) -> Option<bool>;

/// The text that serde_yaml displays for a value that is a number.
pub uninterp spec fn yaml_number_text(value: Value) -> Option<Seq<char>>;

/// `serde_yaml::from_str` at the type `Value`: the one document of `text`,
/// or `None` where the text is not a single well-formed YAML document.
#[verifier::external_body]
pub(crate) fn parse_yaml(text: &str) -> (document: Option<Value>)
    ensures
        document == yaml_document(text@),
{
    serde_yaml::from_str::<Value>(text).ok()
}

/// `Value::get` with a string key: the value stored under `key` where
/// `value` is a mapping that has the key.
#[verifier::external_body]
pub(crate) fn entry<'a>(value: &'a Value, key: &str) -> (found: Option<&'a Value>)
    ensures
        found is Some <==> yaml_entry(*value, key@) is Some,
        found matches Some(v) ==> yaml_entry(*value, key@) == Some(*v),
{
    value.get(key)
}

/// `Value::as_str`: the text of `value` where it is a string.
#[verifier::external_body]
pub(crate) fn text<'a>(value: &'a Value) -> (found: Option<&'a str>)
    ensures
        found is Some <==> yaml_text(*value) is Some,
        found matches Some(s) ==> yaml_text(*value) == Some(s@),
{
    value.as_str()
}

/// `Value::as_sequence`: the items of `value` where it is a sequence.
#[verifier::external_body]
pub(crate) fn items<'a>(value: &'a Value) -> (found: Option<&'a Vec<Value>>)
    ensures
        found is Some <==> yaml_items(*value) is Some,
        found matches Some(v) ==> yaml_items(*value) == Some(v@),
{
    value.as_sequence()
}

/// `Value::is_null`: whether `value` is the YAML null.
#[verifier::external_body]
pub(crate) fn is_null(value: &Value) -> (null: bool)
    ensures
        null == yaml_is_null(*value),
{
    value.is_null()
}

/// `Value::as_bool`: the truth value of `value` where it is a boolean.
#[verifier::external_body]
pub(crate) fn flag(value: &Value) -> (found: Option<bool>)
    ensures
        found == yaml_flag(*value),
{
    value.as_bool()
}

/// The `Display` of `serde_yaml::Number`: for a value that is a number, the
/// number as serde_yaml writes it, which is the text that was read where
/// that was a plain decimal number; `None` for any other value.
#[verifier::external_body]
pub(crate) fn number_text(value: &Value) -> (found: Option<String>)
    ensures
        found is Some <==> yaml_number_text(*value) is Some,
        found matches Some(s) ==> yaml_number_text(*value) == Some(s@),
{
    match value {
        Value::Number(number) => Some(number.to_string()),
        _ => None,
    }
}

} // verus!
