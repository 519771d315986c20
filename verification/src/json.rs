//! JSON text, read and written by `serde_json`.

use crate::text::no_c0_controls;
use vstd::prelude::*;

verus! {

/// `serde_json::Value`, any JSON value. Nothing is known of what is inside.
#[verifier::external_type_specification]
#[verifier::external_body]
pub struct ExJsonValue(serde_json::Value);

/// `serde_json::Map`, a JSON object. What it holds is known through
/// [`text_members`] only.
#[verifier::external_type_specification]
#[verifier::external_body]
#[verifier::reject_recursive_types(K)]
#[verifier::reject_recursive_types(V)]
pub struct ExJsonObject<K, V>(serde_json::Map<K, V>);

/// `serde_json::Error`, why a text is not the JSON that was asked for.
#[verifier::external_type_specification]
#[verifier::external_body]
pub struct ExJsonError(serde_json::Error);

/// The members of a JSON object whose values are strings, each member's name
/// with the string it holds. Members that hold anything else are left out.
pub uninterp spec fn text_members(object: serde_json::Map<String, serde_json::Value>) -> Map<
    Seq<char>,
    Seq<char>,
>;

/// The string members of the one JSON object that `text` is, or `None` where
/// `text` is not the text of exactly one JSON object.
pub uninterp spec fn parsed_text_members(text: Seq<char>) -> Option<Map<Seq<char>, Seq<char>>>;

/// A string as JSON writes it: between double quotes, with the characters
/// escaped that JSON does not take as they are.
pub uninterp spec fn json_quoted(text: Seq<char>) -> Seq<char>;

/// `serde_json::from_str`, asked for a `serde_json::Map<String, Value>`: it
/// gives the object that the whole text spells and an error for any other
/// text. The result depends on the text alone.
#[verifier::external_body]
pub(crate) fn parse_object(text: &str) -> (r: Result<
    serde_json::Map<String, serde_json::Value>,
    serde_json::Error,
>)
    ensures
        match r {
            Ok(object) => parsed_text_members(text@) == Some(text_members(object)),
            Err(_) => parsed_text_members(text@) is None,
        },
{
    serde_json::from_str::<serde_json::Map<String, serde_json::Value>>(text)
}

/// `serde_json::Map::get`, with the member handed out as the string it holds:
/// `None` where the object has no member of that name or the member is not a
/// string.
#[verifier::external_body]
pub(crate) fn text_member(
    object: &serde_json::Map<String, serde_json::Value>,
    key: &str,
) -> (r: Option<String>)
    ensures
        match r {
            Some(s) => text_members(*object).contains_key(key@) && text_members(*object)[key@]
                == s@,
            None => !text_members(*object).contains_key(key@),
        },
{
    match object.get(key) {
        Some(serde_json::Value::String(s)) => Some(s.clone()),
        _ => None,
    }
}

/// `serde_json::to_string` on a string slice. It writes into a byte vector in
/// memory and a string slice raises no error of its own, so a result always
/// comes; it depends on the characters alone. Every character below U+0020 is
/// written as an escape, so the result holds none.
#[verifier::external_body]
pub(crate) fn quote(text: &str) -> (r: String)
    ensures
        r@ == json_quoted(text@),
        no_c0_controls(r@),
{
    serde_json::to_string(text).unwrap_or_default()
}

} // verus!
