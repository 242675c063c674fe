//! Reading members of JSON documents with serde_json.

use vstd::prelude::*;

verus! {

/// The string held by member `key` of the JSON object that `text` holds;
/// `None` when `text` is not JSON, is not an object, lacks the member, or
/// the member is not a string.
pub uninterp spec fn json_string_member(text: Seq<char>, key: Seq<char>) -> Option<Seq<char>>;

/// The elements of the array held by member `key` of the JSON object that
/// `text` holds, each the string it is or `None` where it is no string;
/// `None` when `text` is not JSON, is not an object, lacks the member, or
/// the member is not an array.
pub uninterp spec fn json_array_member(text: Seq<char>, key: Seq<char>) -> Option<Seq<Option<Seq<char>>>>;

/// Relies on `serde_json::from_str` into a `serde_json::Value`, then on
/// `Value::get` and `Value::as_str`.
#[verifier::external_body]
pub(crate) fn string_member(text: &str, key: &str) -> (r: Option<String>)
    ensures
        r is None <==> json_string_member(text@, key@) is None,
        r matches Some(s) ==> json_string_member(text@, key@) == Some(s@),
{
    let value: serde_json::Value = serde_json::from_str(text).ok()?;
    value.get(key)?.as_str().map(|s| s.to_string())
}

/// Relies on `serde_json::from_str` into a `serde_json::Value`, then on
/// `Value::get`, `Value::as_array` and, for each element, `Value::as_str`.
#[verifier::external_body]
pub(crate) fn array_member(text: &str, key: &str) -> (r: Option<Vec<Option<String>>>)
    ensures
        r is None <==> json_array_member(text@, key@) is None,
        r matches Some(items) ==> json_array_member(text@, key@) matches Some(elems) && elems.len()
            == items.len() && forall|i: int|
            0 <= i < items.len() ==> #[trigger] elems[i] == match items@[i] {
                Some(s) => Some(s@),
                None => None::<Seq<char>>,
            },
{
    let value: serde_json::Value = serde_json::from_str(text).ok()?;
    let elems = value.get(key)?.as_array()?;
    Some(elems.iter().map(|e| e.as_str().map(|s| s.to_string())).collect())
}

} // verus!
