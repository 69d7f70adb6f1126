//! JSON documents, as serde_json reads them.

use vstd::prelude::*;

verus! {

#[verifier::external_type_specification]
#[verifier::external_body]
pub struct ExJsonValue(serde_json::Value);

/// The document that `serde_json::from_str` reads from `text`, or `None`
/// where it reports an error.
pub uninterp spec fn json_document(text: Seq<char>) -> Option<serde_json::Value>;

/// What `serde_json::Value::get` finds in `value` under the key `key`:
/// the member of that name where `value` is an object that has one.
pub uninterp spec fn json_member(value: serde_json::Value, key: Seq<char>) -> Option<
    serde_json::Value,
>;

/// What `serde_json::Value::as_str` gives for `value`: its text where it
/// is a JSON string.
pub uninterp spec fn json_string(value: serde_json::Value) -> Option<Seq<char>>;

/// Calls `serde_json::from_str` for a `serde_json::Value` and drops the
/// error: the result is the document that the text holds, a function of the
/// text alone, or `None` where the text is no JSON document.
#[verifier::external_body]
pub(crate) fn parse_json(text: &str) -> (value: Option<serde_json::Value>)
    ensures
        value == json_document(text@),
{
    serde_json::from_str::<serde_json::Value>(text).ok()
}

/// Calls `serde_json::Value::get` with a text key and copies what it
/// finds: the member under that key, or `None` where `value` is no object
/// or has no such member.
#[verifier::external_body]
pub(crate) fn get_member(value: &serde_json::Value, key: &str) -> (member: Option<
    serde_json::Value,
>)
    ensures
        member == json_member(*value, key@),
{
    value.get(key).cloned()
}

/// Calls `serde_json::Value::as_str`: the text of a JSON string, `None`
/// for every other kind of value.
#[verifier::external_body]
pub(crate) fn as_text(value: &serde_json::Value) -> (text: Option<String>)
    ensures
        crate::text::text_of(text) == json_string(*value),
{
    match value.as_str() {
        Some(s) => Some(s.to_string()),
        None => None,
    }
}

} // verus!
