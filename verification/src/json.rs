//! JSON documents: what they hold, and the calls into `serde_json` that
//! read, take apart, rebuild and write them.
//!
//! `serde_json` is built with `preserve_order`: an object keeps its members
//! in the order in which they were inserted.

use vstd::prelude::*;

verus! {

/// A JSON value as data.
pub enum Json {
    Null,
    Bool(bool),
    /// A number, by the text that stands for it in a document.
    Number(Seq<char>),
    Text(Seq<char>),
    List(Seq<Json>),
    /// The members of an object, in document order.
    Object(Seq<(Seq<char>, Json)>),
}

/// The members of an object: key and value of each, in document order.
pub type Fields = Seq<(Seq<char>, Json)>;

/// `key` is the key of the member at position `at`.
pub open spec fn key_at(fields: Fields, key: Seq<char>, at: int) -> bool {
    0 <= at < fields.len() && fields[at].0 == key
}

/// Some member has the key `key`.
pub open spec fn has_key(fields: Fields, key: Seq<char>) -> bool {
    exists|at: int| key_at(fields, key, at)
}

/// No two members share a key.
pub open spec fn distinct_keys(fields: Fields) -> bool {
    forall|i: int, j: int| 0 <= i < j < fields.len() ==> fields[i].0 != fields[j].0
}

/// The position of the member with the key `key`; meaningful only where
/// `has_key(fields, key)`, and the only such position where the keys are
/// distinct.
pub open spec fn key_index(fields: Fields, key: Seq<char>) -> int {
    choose|at: int| key_at(fields, key, at)
}

/// The value of the member with the key `key`.
pub open spec fn member(fields: Fields, key: Seq<char>) -> Option<Json> {
    if has_key(fields, key) {
        Some(fields[key_index(fields, key)].1)
    } else {
        None
    }
}

/// `fields` with `key` set to `value`: in place where the key is present, as
/// a new last member where it is not.
pub open spec fn put(fields: Fields, key: Seq<char>, value: Json) -> Fields {
    if has_key(fields, key) {
        fields.update(key_index(fields, key), (key, value))
    } else {
        fields.push((key, value))
    }
}

/// `fields` without the member `key`; the other members keep their order.
pub open spec fn without(fields: Fields, key: Seq<char>) -> Fields {
    if has_key(fields, key) {
        fields.remove(key_index(fields, key))
    } else {
        fields
    }
}

/// No object anywhere in `doc` has a key twice.
pub open spec fn well_formed(doc: Json) -> bool
    decreases doc,
{
    match doc {
        Json::Object(fields) => {
            &&& distinct_keys(fields)
            &&& forall|i: int| 0 <= i < fields.len() ==> well_formed(#[trigger] fields[i].1)
        },
        Json::List(items) => forall|i: int|
            0 <= i < items.len() ==> well_formed(#[trigger] items[i]),
        _ => true,
    }
}

/// `serde_json::Value`, held without a look inside: `json_of` says what a
/// value holds.
#[verifier::external_type_specification]
#[verifier::external_body]
pub struct ExValue(serde_json::Value);

/// `serde_json::Error`, which is only ever tested for being there.
#[verifier::external_type_specification]
#[verifier::external_body]
pub struct ExError(serde_json::Error);

/// What a `serde_json::Value` holds.
pub uninterp spec fn json_of(value: serde_json::Value) -> Json;

/// What `serde_json::from_str` reads from a text: `None` where it refuses
/// the text.
pub uninterp spec fn parsed(text: Seq<char>) -> Option<Json>;

/// What `serde_json::to_string_pretty` writes for a value: `None` where it
/// fails.
pub uninterp spec fn pretty(doc: Json) -> Option<Seq<char>>;

/// Key and content of each entry of a member list.
pub open spec fn members(entries: Seq<(String, serde_json::Value)>) -> Fields {
    entries.map_values(|entry: (String, serde_json::Value)| (entry.0@, json_of(entry.1)))
}

/// `serde_json::from_str` at `Value`: the result is a function of the text.
/// A value that was read holds no key twice in any of its objects, each
/// object being a map.
#[verifier::external_body]
pub(crate) fn parse_value(text: &str) -> (read: Result<serde_json::Value, serde_json::Error>)
    ensures
        match read {
            Ok(value) => parsed(text@) == Some(json_of(value)) && well_formed(json_of(value)),
            Err(_) => parsed(text@) is None,
        },
{
    serde_json::from_str(text)
}

/// `serde_json::to_string_pretty` on a `Value`: the result is a function of
/// what the value holds.
#[verifier::external_body]
pub(crate) fn render_value(value: &serde_json::Value) -> (written: Result<String, serde_json::Error>)
    ensures
        match written {
            Ok(text) => pretty(json_of(*value)) == Some(text@),
            Err(_) => pretty(json_of(*value)) is None,
        },
{
    serde_json::to_string_pretty(value)
}

/// `Value::from` on a string slice: a JSON string with that text.
#[verifier::external_body]
pub(crate) fn text_value(text: &str) -> (value: serde_json::Value)
    ensures
        json_of(value) == Json::Text(text@),
{
    serde_json::Value::from(text)
}

/// Takes an object apart: the members of `Value::Object`, in the order in
/// which the `into_iter` of `serde_json::Map` hands them out, which is the
/// order of the document. A map holds no key twice. Any other value is
/// handed back as it came.
#[verifier::external_body]
pub(crate) fn into_members(
    value: serde_json::Value,
) -> (parts: Result<Vec<(String, serde_json::Value)>, serde_json::Value>)
    ensures
        match parts {
            Ok(entries) => {
                &&& json_of(value) == Json::Object(members(entries@))
                &&& distinct_keys(members(entries@))
            },
            Err(other) => other == value && !(json_of(value) is Object),
        },
{
    match value {
        serde_json::Value::Object(map) => Ok(map.into_iter().collect()),
        other => Err(other),
    }
}

/// Builds an object: `Value::Object` of the `serde_json::Map` that
/// `from_iter` collects. The map takes the entries in by inserting them one
/// after the other, a new key last, so with distinct keys the members stand
/// in the order given.
#[verifier::external_body]
pub(crate) fn from_members(entries: Vec<(String, serde_json::Value)>) -> (value: serde_json::Value)
    ensures
        distinct_keys(members(entries@)) ==> json_of(value) == Json::Object(members(entries@)),
{
    serde_json::Value::Object(entries.into_iter().collect())
}

} // verus!
