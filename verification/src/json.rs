//! JSON, as `serde_json` reads it.
use vstd::prelude::*;

verus! {

/// What a JSON value is.
#[verifier::ext_equal]
pub enum Json {
    /// An object: its members by name.
    Object(Map<Seq<char>, Json>),
    /// A string.
    Text(Seq<char>),
    /// A number that is kept as an integer, which is one that fits `i64` or `u64`.
    Integer(int),
    /// Any other number: the bits of the double-precision number that it is kept as.
    Float(u64),
    /// An array: its elements in order.
    Array(Seq<Json>),
    /// A truth value.
    Bool(bool),
    /// The value `null`.
    Null,
}

/// A JSON value of `serde_json`.
#[verifier::external_type_specification]
#[verifier::external_body]
pub struct ExValue(serde_json::Value);

/// What `value` holds, all of it: two values of which this is the same differ in nothing.
pub uninterp spec fn json(value: serde_json::Value) -> Json;

/// What `serde_json::from_str` makes of a text: the value, or what it says is wrong with the text.
pub uninterp spec fn json_of_text(text: Seq<char>) -> Result<Json, Seq<char>>;

/// What `serde_json::from_slice` makes of bytes; `None` where it reports an error.
pub uninterp spec fn json_of_bytes(bytes: Seq<u8>) -> Option<Json>;

/// The member `name` of a value; `None` where the value is no object or has no such member.
pub open spec fn json_member(value: Json, name: Seq<char>) -> Option<Json> {
    match value {
        Json::Object(members) => if members.contains_key(name) {
            Some(members[name])
        } else {
            None
        },
        _ => None,
    }
}

/// Calls `serde_json::from_str` for a `serde_json::Value`. The result depends on the text alone and
/// goes by the name `json_of_text`; the error comes as the words of its `Display`.
#[verifier::external_body]
pub(crate) fn parse_json(text: &str) -> (parsed: Result<serde_json::Value, String>)
    ensures
        match parsed {
            Ok(value) => json_of_text(text@) == Ok::<Json, Seq<char>>(json(value)),
            Err(message) => json_of_text(text@) == Err::<Json, Seq<char>>(message@),
        },
{
    serde_json::from_str(text).map_err(|error| error.to_string())
}

/// Calls `serde_json::from_slice` for a `serde_json::Value`. The result depends on the bytes alone
/// and goes by the name `json_of_bytes`.
#[verifier::external_body]
pub(crate) fn parse_json_bytes(bytes: &[u8]) -> (parsed: Option<serde_json::Value>)
    ensures
        match parsed {
            Some(value) => json_of_bytes(bytes@) == Some(json(value)),
            None => json_of_bytes(bytes@) is None,
        },
{
    serde_json::from_slice(bytes).ok()
}

/// Calls `serde_json::Value::get` with a name: the member of an object, and nothing for any other
/// value.
#[verifier::external_body]
pub(crate) fn get_member<'a>(value: &'a serde_json::Value, name: &str) -> (member: Option<
    &'a serde_json::Value,
>)
    ensures
        match member {
            Some(found) => json_member(json(*value), name@) == Some(json(*found)),
            None => json_member(json(*value), name@) is None,
        },
{
    value.get(name)
}

/// Calls `serde_json::Value::as_str`: the characters of a string, and nothing for any other value.
#[verifier::external_body]
pub(crate) fn as_text(value: &serde_json::Value) -> (text: Option<&str>)
    ensures
        match json(*value) {
            Json::Text(characters) => text matches Some(t) && t@ == characters,
            _ => text is None,
        },
{
    value.as_str()
}

/// Calls `serde_json::Value::as_i64`: an integer that fits `i64`, and nothing for any other value.
#[verifier::external_body]
pub(crate) fn as_integer(value: &serde_json::Value) -> (number: Option<i64>)
    ensures
        match json(*value) {
            Json::Integer(n) => number == if i64::MIN <= n <= i64::MAX {
                Some(n as i64)
            } else {
                None
            },
            _ => number is None,
        },
{
    value.as_i64()
}

/// Calls `serde_json::Value::clone`: the copy holds what the value holds, down to the last member and
/// element.
#[verifier::external_body]
pub(crate) fn copy_value(value: &serde_json::Value) -> (copy: serde_json::Value)
    ensures
        json(copy) == json(*value),
{
    value.clone()
}

/// The member `name`, copied out.
pub fn take_member(value: &serde_json::Value, name: &str) -> (member: Option<serde_json::Value>)
    ensures
        match member {
            Some(found) => json_member(json(*value), name@) == Some(json(found)),
            None => json_member(json(*value), name@) is None,
        },
{
    match get_member(value, name) {
        Some(found) => Some(copy_value(found)),
        None => None,
    }
}

} // verus!
