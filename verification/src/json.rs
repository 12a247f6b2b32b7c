//! JSON, by way of `serde_json`.

use vstd::prelude::*;

use crate::message::Text;

verus! {

/// Whether `serde_json` reads the text as a JSON value.
pub uninterp spec fn is_json(text: Text) -> bool;

/// Calls `serde_json::from_str` for a `serde_json::Value` and says whether it succeeded; that
/// depends on the text alone.
#[verifier::external_body]
pub(crate) fn valid_json(text: &str) -> (r: bool)
    ensures
        r == is_json(text@),
{
    serde_json::from_str::<serde_json::Value>(text).is_ok()
}

/// The text that `serde_json` prints, indented, of the JSON value that a text spells.
pub uninterp spec fn indented(text: Text) -> Text;

/// Calls `serde_json::to_string_pretty` on the value that `serde_json::from_str` reads.  Printing a
/// `Value` that was read does not fail, so there is a result exactly where the text is JSON; it
/// depends on the text alone.
#[verifier::external_body]
pub(crate) fn pretty_json(text: &str) -> (r: Option<String>)
    ensures
        r.deep_view() == (if is_json(text@) { Some(indented(text@)) } else { None }),
{
    let value = serde_json::from_str::<serde_json::Value>(text).ok()?;
    serde_json::to_string_pretty(&value).ok()
}

/// The string that `serde_json` finds under a key of the JSON object that a text spells.
pub uninterp spec fn json_string(text: Text, key: Text) -> Option<Text>;

/// Calls `serde_json::Value::get` and `as_str` on the value that `serde_json::from_str` reads.
/// `None` where the text is no JSON, where the value is no object, or where the key is missing or
/// holds no string; that depends on the two texts alone.
#[verifier::external_body]
pub(crate) fn string_field(text: &str, key: &str) -> (r: Option<String>)
    ensures
        r.deep_view() == json_string(text@, key@),
        !is_json(text@) ==> r is None,
{
    let value = serde_json::from_str::<serde_json::Value>(text).ok()?;
    value.get(key)?.as_str().map(str::to_string)
}

/// The integer that `serde_json` finds under a key of the JSON object that a text spells.
pub uninterp spec fn json_integer(text: Text, key: Text) -> Option<i64>;

/// Calls `serde_json::Value::get` and `as_i64` on the value that `serde_json::from_str` reads.
/// `None` where the text is no JSON, where the value is no object, or where the key is missing or
/// holds no integer of the `i64` range; that depends on the two texts alone.
#[verifier::external_body]
pub(crate) fn integer_field(text: &str, key: &str) -> (r: Option<i64>)
    ensures
        r == json_integer(text@, key@),
        !is_json(text@) ==> r is None,
{
    let value = serde_json::from_str::<serde_json::Value>(text).ok()?;
    value.get(key)?.as_i64()
}

} // verus!
