//! The JSON documents that `serde_json` parses, as far as the supervisor reads them.
//!
//! A parsed document stays an opaque `serde_json::Value`; what it holds is named
//! by [`json_model`], a tree of plain values. Everything in this file that is
//! marked `external_body`, `assume_specification` or `uninterp` is taken on
//! trust from `serde_json`; nothing else in the crate is.

use vstd::prelude::*;

verus! {

/// What a JSON document holds. Numbers keep no value here: nothing reads them.
pub enum Json {
    Null,
    Bool(bool),
    Number,
    Text(Seq<char>),
    Array(Seq<Json>),
    Object(Map<Seq<char>, Json>),
}

/// `serde_json::Value`, carried through verified code without looking inside.
#[verifier::external_type_specification]
#[verifier::external_body]
pub struct ExValue(serde_json::Value);

/// `serde_json::Error`, the reason a text failed to parse.
#[verifier::external_type_specification]
#[verifier::external_body]
pub struct ExJsonError(serde_json::Error);

/// The tree of plain values that a `serde_json::Value` holds.
pub uninterp spec fn json_model(value: serde_json::Value) -> Json;

/// What `serde_json::from_str` makes of a text: the document it parses to, or
/// `None` where it reports an error.
pub uninterp spec fn json_text(text: Seq<char>) -> Option<Json>;

/// Calls `serde_json::from_str` for a `serde_json::Value`. The outcome depends
/// on the text alone: it is `Ok` exactly where [`json_text`] is `Some`, and the
/// value then holds that document.
#[verifier::external_body]
pub(crate) fn parse_document(text: &str) -> (parsed: Result<serde_json::Value, serde_json::Error>)
    ensures
        parsed matches Ok(value) ==> json_text(text@) == Some(json_model(value)),
        parsed is Err ==> json_text(text@) is None,
{
    serde_json::from_str::<serde_json::Value>(text)
}

/// The member of a document under a key: present exactly for an object that
/// has the key.
pub open spec fn json_member(document: Json, key: Seq<char>) -> Option<Json> {
    match document {
        Json::Object(members) => if members.dom().contains(key) {
            Some(members[key])
        } else {
            None
        },
        _ => None,
    }
}

/// The text of a document: present exactly for a JSON string.
pub open spec fn json_string(document: Json) -> Option<Seq<char>> {
    match document {
        Json::Text(text) => Some(text),
        _ => None,
    }
}

/// Calls `serde_json::Value::get` with a string key. As its documentation says,
/// the result is the member under that key where the value is an object that
/// has the key, and `None` for every other value.
#[verifier::external_body]
pub(crate) fn member<'a>(value: &'a serde_json::Value, key: &str) -> (found: Option<
    &'a serde_json::Value,
>)
    ensures
        found matches Some(inner) ==> json_member(json_model(*value), key@) == Some(
            json_model(*inner),
        ),
        found is None ==> json_member(json_model(*value), key@) is None,
{
    value.get(key)
}

/// `serde_json::Value::as_str` returns the text of a JSON string and `None`
/// for every other value.
pub assume_specification<'a>[ serde_json::Value::as_str ](value: &'a serde_json::Value) -> (text:
    Option<&'a str>)
    ensures
        text matches Some(inner) ==> json_string(json_model(*value)) == Some(inner@),
        text is None ==> json_string(json_model(*value)) is None,
;

} // verus!
