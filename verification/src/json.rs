//! Reading the members of a tool call's JSON arguments with `serde_json`.
//! The arguments stay text in the library; what `serde_json` finds in that
//! text is named here and used by the argument handling of the tools.
use vstd::prelude::*;

verus! {

/// Whether `serde_json::from_str::<Value>` accepts `text` as one JSON document.
pub uninterp spec fn json_accepts(text: Seq<char>) -> bool;

/// The string member `key` of the JSON document `text`, as
/// `serde_json::from_str::<Value>`, `Value::get` and `Value::as_str` find
/// it: `None` when the text does not parse, is not an object, has no such
/// member, or the member is not a string.
pub uninterp spec fn string_member_of(text: Seq<char>, key: Seq<char>) -> Option<Seq<char>>;

/// The unsigned integer member `key` of the JSON document `text`, as
/// `serde_json::from_str::<Value>`, `Value::get` and `Value::as_u64` find
/// it: `None` when the text does not parse, is not an object, has no such
/// member, or the member is not a number that fits a `u64`.
pub uninterp spec fn u64_member_of(text: Seq<char>, key: Seq<char>) -> Option<u64>;

/// `serde_json::from_str::<Value>(text)`, then `Value::get(key)` and
/// `Value::as_str` on what it gives: the member's text, named by
/// `string_member_of`. Text that does not parse has no members. The JSON
/// grammar and its depth limit are not restated.
#[verifier::external_body]
pub(crate) fn json_string_member(text: &str, key: &str) -> (r: Option<String>)
    ensures
        match r {
            Some(s) => string_member_of(text@, key@) == Some(s@),
            None => string_member_of(text@, key@) is None,
        },
        !json_accepts(text@) ==> r is None,
{
    serde_json::from_str::<serde_json::Value>(text).ok().and_then(
        |v| v.get(key).and_then(|m| m.as_str()).map(|s| s.to_owned()),
    )
}

/// `serde_json::from_str::<Value>(text)`, then `Value::get(key)` and
/// `Value::as_u64` on what it gives: the member's number, named by
/// `u64_member_of`. Text that does not parse has no members. The JSON
/// grammar and its depth limit are not restated.
#[verifier::external_body]
pub(crate) fn json_u64_member(text: &str, key: &str) -> (r: Option<u64>)
    ensures
        r == u64_member_of(text@, key@),
        !json_accepts(text@) ==> r is None,
{
    serde_json::from_str::<serde_json::Value>(text).ok().and_then(|v| v.get(key).and_then(|m| m.as_u64()))
}

} // verus!
