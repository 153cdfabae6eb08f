//! Embeds that an operator writes as JSON text.
use vstd::prelude::*;

verus! {

/// The text of the JSON object that `text` denotes, with the member `key` set
/// to the string `value`; `None` where `text` is not a JSON object.
pub uninterp spec fn json_object_with(text: Seq<char>, key: Seq<char>, value: Seq<char>) -> Option<
    Seq<char>,
>;

/// Reads `text` with `serde_json::from_str` as a `serde_json::Map`, sets one
/// member with `Map::insert` and writes the map back with
/// `serde_json::to_string`. The contract claims only that the outcome is
/// determined by the three arguments: it is the value of `json_object_with`.
#[verifier::external_body]
fn object_with_member(text: &str, key: &str, value: &str) -> (out: Option<String>)
    ensures
        match out {
            Some(t) => json_object_with(text@, key@, value@) == Some(t@),
            None => json_object_with(text@, key@, value@).is_none(),
        },
{
    let mut members =
        serde_json::from_str::<serde_json::Map<String, serde_json::Value>>(text).ok()?;
    members.insert(key.to_string(), serde_json::Value::String(value.to_string()));
    serde_json::to_string(&members).ok()
}

/// What an operator's embed text is stored as: the same JSON object, marked
/// as a rich embed.
pub open spec fn rich_embed(text: Seq<char>) -> Option<Seq<char>> {
    json_object_with(text, "type"@, "rich"@)
}

/// Marks the JSON object in `text` as a rich embed. `None` where `text` is
/// not a JSON object.
pub fn mark_rich(text: &str) -> (out: Option<String>)
    ensures
        match out {
            Some(t) => rich_embed(text@) == Some(t@),
            None => rich_embed(text@).is_none(),
        },
{
    object_with_member(text, "type", "rich")
}

} // verus!
