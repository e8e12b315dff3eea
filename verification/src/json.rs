//! JSON documents as values of the crate's own.

use serde_json::Value;
use vstd::prelude::*;

verus! {

/// A JSON value as `serde_json` holds it.
#[verifier::external_type_specification]
#[verifier::external_body]
pub struct ExValue(Value);

/// The error with which `serde_json` refuses a text.
#[verifier::external_type_specification]
#[verifier::external_body]
pub struct ExJsonError(serde_json::Error);

/// A JSON value. A number is held by its text; the entries of an object stand
/// in the order in which they are walked.
#[derive(Debug, PartialEq, Eq)]
pub enum JsonValue {
    Null,
    Bool(bool),
    Number(String),
    Text(String),
    List(Vec<JsonValue>),
    Object(Vec<(String, JsonValue)>),
}

/// The value that `serde_json` reads from `text` taken as one document, or
/// `None` where it refuses the text.
pub uninterp spec fn json_document(text: Seq<char>) -> Option<JsonValue>;

/// What a value of `serde_json` holds, variant for variant: a number by the
/// text that it prints as, an object by its entries in the order of its map.
pub uninterp spec fn json_content(value: Value) -> JsonValue;

/// Calls `serde_json::from_str` for a `Value`. It reads nothing but the text,
/// and returns an error where the text is not one JSON document.
#[verifier::external_body]
fn read_document(text: &str) -> (r: Result<Value, serde_json::Error>)
    ensures
        match r {
            Ok(value) => json_document(text@) == Some(json_content(value)),
            Err(_) => json_document(text@) is None,
        },
{
    serde_json::from_str(text)
}

/// Moves a value of `serde_json` into a `JsonValue`, one arm for each variant
/// of `Value`. The contract names the result, of which no more is claimed.
#[verifier::external_body]
fn unpack(value: Value) -> (r: JsonValue)
    ensures
        r == json_content(value),
{
    match value {
        Value::Null => JsonValue::Null,
        Value::Bool(b) => JsonValue::Bool(b),
        Value::Number(n) => JsonValue::Number(n.to_string()),
        Value::String(s) => JsonValue::Text(s),
        Value::Array(items) => JsonValue::List(items.into_iter().map(unpack).collect()),
        Value::Object(map) => JsonValue::Object(
            map.into_iter().map(|(key, item)| (key, unpack(item))).collect(),
        ),
    }
}

/// The value of the first entry of `entries` whose key is `key`.
pub open spec fn lookup(entries: Seq<(String, JsonValue)>, key: Seq<char>) -> Option<JsonValue>
    decreases entries.len(),
{
    if entries.len() == 0 {
        None
    } else if entries[0].0@ == key {
        Some(entries[0].1)
    } else {
        lookup(entries.drop_first(), key)
    }
}

/// The field `key` of an object; `None` for an object without it and for a
/// value that is no object.
pub open spec fn field_of(value: JsonValue, key: Seq<char>) -> Option<JsonValue> {
    match value {
        JsonValue::Object(entries) => lookup(entries@, key),
        _ => None,
    }
}

impl JsonValue {
    /// Reads `text` as one JSON document.
    pub fn parse(text: &str) -> (r: Option<JsonValue>)
        ensures
            r == json_document(text@),
    {
        match read_document(text) {
            Ok(value) => Some(unpack(value)),
            Err(_) => None,
        }
    }

    /// Takes the field `key` out of an object.
    pub fn take_field(self, key: &str) -> (r: Option<JsonValue>)
        ensures
            r == field_of(self, key@),
    {
        match self {
            JsonValue::Object(entries) => {
                let ghost all = entries@;
                let mut entries = entries;
                let wanted = String::from_str(key);
                let mut i: usize = 0;
                assert(all.skip(0) =~= all);
                while i < entries.len()
                    invariant
                        i <= entries.len(),
                        entries@ == all,
                        wanted@ == key@,
                        field_of(self, key@) == lookup(all, key@),
                        lookup(all, key@) == lookup(all.skip(i as int), key@),
                    decreases entries.len() - i,
                {
                    if entries[i].0 == wanted {
                        let entry = entries.swap_remove(i);
                        return Some(entry.1);
                    }
                    assert(all.skip(i as int).drop_first() =~= all.skip(i + 1));
                    i += 1;
                }
                None
            },
            _ => None,
        }
    }
}

} // verus!
