//! Reading members out of JSON text.
use vstd::prelude::*;

verus! {

/// The string that the member `key` of the JSON value in `text` holds; `None`
/// where `text` is not JSON, has no such member, or the member is no string.
pub uninterp spec fn json_member_text(text: Seq<char>, key: Seq<char>) -> Option<Seq<char>>;

/// The number that the member `key` of the JSON value in `text` holds; `None`
/// where `text` is not JSON, has no such member, or the member is no number
/// that fits, without sign or fraction.
pub uninterp spec fn json_member_u64(text: Seq<char>, key: Seq<char>) -> Option<u64>;

/// Whether `text` is JSON and the value in it has a member `key`.
pub uninterp spec fn json_has_member(text: Seq<char>, key: Seq<char>) -> bool;

/// Reads `text` with `serde_json::from_str` as a `serde_json::Value`, looks
/// the member up with `Value::get` and reads it with `Value::as_str`. The
/// contract claims only that the outcome is determined by the two arguments.
#[verifier::external_body]
pub(crate) fn member_text(text: &str, key: &str) -> (out: Option<String>)
    ensures
        match out {
            Some(t) => json_member_text(text@, key@) == Some(t@),
            None => json_member_text(text@, key@).is_none(),
        },
{
    let value = serde_json::from_str::<serde_json::Value>(text).ok()?;
    value.get(key)?.as_str().map(|s| s.to_string())
}

/// Reads `text` with `serde_json::from_str` as a `serde_json::Value`, looks
/// the member up with `Value::get` and reads it with `Value::as_u64`. The
/// contract claims only that the outcome is determined by the two arguments.
#[verifier::external_body]
pub(crate) fn member_u64(text: &str, key: &str) -> (out: Option<u64>)
    ensures
        out == json_member_u64(text@, key@),
{
    let value = serde_json::from_str::<serde_json::Value>(text).ok()?;
    value.get(key)?.as_u64()
}

/// Reads `text` with `serde_json::from_str` as a `serde_json::Value` and
/// looks the member up with `Value::get`. The contract claims only that the
/// outcome is determined by the two arguments.
#[verifier::external_body]
pub(crate) fn has_member(text: &str, key: &str) -> (out: bool)
    ensures
        out == json_has_member(text@, key@),
{
    match serde_json::from_str::<serde_json::Value>(text) {
        Ok(value) => value.get(key).is_some(),
        Err(_) => false,
    }
}

} // verus!
