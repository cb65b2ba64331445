//! JSON documents, as far as the library reads them.
use vstd::prelude::*;

verus! {

/// A JSON value. Numbers stand without their digits: nothing here reads them.
pub enum Json {
    Null,
    Bool(bool),
    Number,
    Text(Seq<char>),
    Array(Seq<Json>),
    Object(Map<Seq<char>, Json>),
}

impl Json {
    /// The value under `key` where `self` is an object that has the key,
    /// and `Null` in every other case.
    pub open spec fn member(self, key: Seq<char>) -> Json {
        match self {
            Json::Object(fields) => if fields.contains_key(key) {
                fields[key]
            } else {
                Json::Null
            },
            _ => Json::Null,
        }
    }

    /// The text of `self` where it is a string.
    pub open spec fn text(self) -> Option<Seq<char>> {
        match self {
            Json::Text(characters) => Some(characters),
            _ => None,
        }
    }
}

/// `serde_json::Value`, read through `json_contents` only.
#[verifier::external_type_specification]
#[verifier::external_body]
pub struct ExValue(serde_json::Value);

/// `serde_json::Error`, carried as it comes.
#[verifier::external_type_specification]
#[verifier::external_body]
pub struct ExJsonError(serde_json::Error);

/// The JSON value that a `serde_json::Value` holds.
pub uninterp spec fn json_contents(value: serde_json::Value) -> Json;

/// Indexes a `serde_json::Value` by a string key. The crate documents that
/// this gives `Null` where the value is no object or lacks the key, and the
/// key's value otherwise; it never panics.
#[verifier::external_body]
pub(crate) fn json_member<'a>(value: &'a serde_json::Value, key: &str) -> (found:
    &'a serde_json::Value)
    ensures
        json_contents(*found) == json_contents(*value).member(key@),
{
    &value[key]
}

/// Calls `serde_json::Value::as_str`, which gives the text of a string value
/// and `None` for every other value, and copies that text.
#[verifier::external_body]
pub(crate) fn json_text(value: &serde_json::Value) -> (text: Option<String>)
    ensures
        text.deep_view() == json_contents(*value).text(),
{
    value.as_str().map(|s| s.to_owned())
}

} // verus!
