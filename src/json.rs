//! A JSON document held as plain values, and its decoding from text.

use vstd::prelude::*;

verus! {

/// A JSON value whose numbers are kept only when they are unsigned integers.
pub enum Json {
    Null,
    Bool(bool),
    /// A number that is a non-negative integer fitting in `u64`.
    Int(u64),
    /// Any other number (negative, fractional or too large).
    OtherNumber,
    Str(String),
    Array(Vec<Json>),
    Object(Vec<(String, Json)>),
}

/// Why a document could not be turned into the data it should describe.
#[derive(PartialEq, Eq, Structural, Clone, Copy, Debug)]
pub enum ParseError {
    /// The text is not JSON, or nests deeper than the parser follows.
    Syntax,
    /// The document is JSON but lacks a field, or a field has the wrong shape.
    Schema,
}

/// The value under `key` in `fields`, searching from position `i` on.
pub open spec fn lookup_from(fields: Seq<(String, Json)>, key: Seq<char>, i: int) -> Option<Json>
    decreases fields.len() - i,
{
    if i < 0 || i >= fields.len() {
        None
    } else if fields[i].0@ == key {
        Some(fields[i].1)
    } else {
        lookup_from(fields, key, i + 1)
    }
}

impl Json {
    /// The first value under `key` when this is an object.
    pub open spec fn field(self, key: Seq<char>) -> Option<Json> {
        match self {
            Json::Object(fields) => lookup_from(fields@, key, 0),
            _ => None,
        }
    }

    /// The string under `key`, when there is one.
    pub open spec fn str_field(self, key: Seq<char>) -> Option<String> {
        match self.field(key) {
            Some(Json::Str(s)) => Some(s),
            _ => None,
        }
    }

    /// Looks up `key` in an object; `None` for a missing key or a non-object.
    pub fn get(&self, key: &str) -> (r: Option<&Json>)
        ensures
            match r {
                Some(v) => self.field(key@) == Some(*v),
                None => self.field(key@) is None,
            },
    {
        match self {
            Json::Object(fields) => {
                let k = key.to_string();
                let mut i: usize = 0;
                while i < fields.len()
                    invariant
                        i <= fields.len(),
                        k@ == key@,
                        self.field(key@) == lookup_from(fields@, key@, 0),
                        lookup_from(fields@, key@, 0) == lookup_from(fields@, key@, i as int),
                    decreases fields.len() - i,
                {
                    if fields[i].0 == k {
                        assert(lookup_from(fields@, key@, i as int) == Some(fields@[i as int].1));
                        return Some(&fields[i].1);
                    }
                    i += 1;
                }
                None
            },
            _ => None,
        }
    }

    /// The string under `key`, when there is one.
    pub fn get_str(&self, key: &str) -> (r: Option<&String>)
        ensures
            match r {
                Some(v) => self.str_field(key@) == Some(*v),
                None => self.str_field(key@) is None,
            },
    {
        match self.get(key) {
            Some(Json::Str(s)) => Some(s),
            _ => None,
        }
    }
}

/// `serde_json::Value`, converted one for one into `Json`.
#[verifier::external_type_specification]
#[verifier::external_body]
pub struct ExJsonValue(serde_json::Value);

/// What `serde_json::from_slice` parses a text into, as a `Json`; `None`
/// where it refuses the text (malformed, or nested deeper than its limit).
pub uninterp spec fn json_of(text: Seq<u8>) -> Option<Json>;

/// Relies on `serde_json::from_slice`: parses a JSON text; the value it
/// builds depends on the bytes alone.
#[verifier::external_body]
fn parse_value(text: &[u8]) -> (r: Option<Json>)
    ensures
        r == json_of(text@),
{
    serde_json::from_slice::<serde_json::Value>(text).ok().map(json_from_value)
}

/// Relies on the variants of `serde_json::Value` and on `Number::as_u64`:
/// converts a parsed value one for one, keeping the order in which an
/// object's map yields its entries.
#[verifier::external_body]
fn json_from_value(v: serde_json::Value) -> Json {
    match v {
        serde_json::Value::Null => Json::Null,
        serde_json::Value::Bool(b) => Json::Bool(b),
        serde_json::Value::Number(n) => match n.as_u64() {
            Some(u) => Json::Int(u),
            None => Json::OtherNumber,
        },
        serde_json::Value::String(s) => Json::Str(s),
        serde_json::Value::Array(a) => Json::Array(a.into_iter().map(json_from_value).collect()),
        serde_json::Value::Object(m) => Json::Object(m.into_iter().map(|(k, x)| (k, json_from_value(x))).collect()),
    }
}

/// Parses a JSON text: the value `json_of` names, or `Syntax` where there is none.
pub fn parse_json(text: &[u8]) -> (r: Result<Json, ParseError>)
    ensures
        match json_of(text@) {
            Some(j) => r == Ok::<Json, ParseError>(j),
            None => r == Err::<Json, ParseError>(ParseError::Syntax),
        },
{
    match parse_value(text) {
        Some(j) => Ok(j),
        None => Err(ParseError::Syntax),
    }
}

} // verus!
