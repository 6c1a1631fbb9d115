//! What the engine reads of a YAML value.
//!
//! Verified code does not see inside a `serde_yaml::Value`.  Each reading
//! of one is a call into `serde_yaml`, and what that call returns has a name
//! here; the contracts of the functions that interpret a configuration are
//! stated over these names.

use vstd::prelude::*;
use serde_yaml::Value;

verus! {

/// Declares `serde_yaml::Value`, any YAML value, as a type that verified
/// code carries around without seeing inside it.
#[verifier::external_type_specification]
#[verifier::external_body]
pub struct ExValue(serde_yaml::Value);

/// The text of `value` where it is a YAML string, as `Value::as_str` gives
/// it; `None` for every other value.
pub uninterp spec fn text_of(value: Value) -> Option<Seq<char>>;

/// Whether `value` is a YAML mapping, as `Value::is_mapping` tells.
pub uninterp spec fn holds_mapping(value: Value) -> bool;

/// The value that `value` holds under the string `key`, as `Value::get`
/// finds it; `None` where `value` is no mapping or has no such key.
pub uninterp spec fn entry_of(value: Value, key: Seq<char>) -> Option<Value>;

/// The text that `value` holds under the string `key`.
pub open spec fn entry_text(value: Value, key: Seq<char>) -> Option<Seq<char>> {
    match entry_of(value, key) {
        Some(found) => text_of(found),
        None => None,
    }
}

/// Calls `serde_yaml::Value::as_str`: claims only that the string slice
/// returned, or its absence, is the one named `text_of(value)`.
#[verifier::external_body]
pub(crate) fn as_str<'a>(value: &'a Value) -> (text: Option<&'a str>)
    ensures
        match text {
            Some(s) => text_of(*value) == Some(s@),
            None => text_of(*value) is None,
        },
{
    value.as_str()
}

/// Calls `serde_yaml::Value::is_mapping`: claims only that the answer is the
/// one named `holds_mapping(value)`.
#[verifier::external_body]
pub(crate) fn is_mapping(value: &Value) -> (mapping: bool)
    ensures
        mapping == holds_mapping(*value),
{
    value.is_mapping()
}

/// Calls `serde_yaml::Value::get` with a string index: claims only that the
/// value found, or its absence, is the one named `entry_of(value, key)`.
#[verifier::external_body]
pub(crate) fn get<'a>(value: &'a Value, key: &str) -> (found: Option<&'a Value>)
    ensures
        match found {
            Some(entry) => entry_of(*value, key@) == Some(*entry),
            None => entry_of(*value, key@) is None,
        },
{
    value.get(key)
}

/// The text that `value` holds under `key`, if it holds one.
pub fn text_at<'a>(value: &'a Value, key: &str) -> (text: Option<&'a str>)
    ensures
        match text {
            Some(s) => entry_text(*value, key@) == Some(s@),
            None => entry_text(*value, key@) is None,
        },
{
    match get(value, key) {
        Some(entry) => as_str(entry),
        None => None,
    }
}

} // verus!
