//! The top-level shape of a JSON value, as the library reads it.
use vstd::prelude::*;

verus! {

#[verifier::external_type_specification]
#[verifier::external_body]
pub struct ExJsonValue(serde_json::Value);

/// The kind of a JSON value, with the payload the library reads: a number
/// as an `i64` when it is one, a string's text.
#[derive(Debug, Clone, PartialEq, Eq)]
pub enum JsonKind {
    /// `null`.
    Null,
    /// A boolean.
    Bool(bool),
    /// A number, with its value when it is an `i64`.
    Number(Option<i64>),
    /// A string.
    String(String),
    /// An array.
    Array,
    /// An object.
    Object,
}

/// The kind of a JSON value, as [`json_kind`] reads it.
pub uninterp spec fn json_kind_of(v: serde_json::Value) -> JsonKind;

/// The kind of `v` (`serde_json::Value`'s variants told apart, with
/// `serde_json::Number::as_i64` for numbers and a copy of a string).
///
/// Trusted: the kind is a function of `v` alone, named `json_kind_of`.
#[verifier::external_body]
pub(crate) fn json_kind(v: &serde_json::Value) -> (r: JsonKind)
    ensures
        r == json_kind_of(*v),
{
    match v {
        serde_json::Value::Null => JsonKind::Null,
        serde_json::Value::Bool(b) => JsonKind::Bool(*b),
        serde_json::Value::Number(n) => JsonKind::Number(n.as_i64()),
        serde_json::Value::String(s) => JsonKind::String(s.clone()),
        serde_json::Value::Array(_) => JsonKind::Array,
        serde_json::Value::Object(_) => JsonKind::Object,
    }
}

/// Whether `k` is the kind of a JSON string whose text is `text`.
pub open spec fn is_string_kind(k: JsonKind, text: Seq<char>) -> bool {
    k matches JsonKind::String(t) && t@ == text
}

/// The JSON string `s` (`serde_json::Value::String`).
///
/// Trusted: the value is a string, and its text is `s`.
#[verifier::external_body]
pub(crate) fn json_string(s: String) -> (r: serde_json::Value)
    ensures
        is_string_kind(json_kind_of(r), s@),
{
    serde_json::Value::String(s)
}

/// Human-readable JSON type name, for error messages.
pub open spec fn kind_name(k: JsonKind) -> Seq<char> {
    match k {
        JsonKind::Null => "null"@,
        JsonKind::Bool(_) => "bool"@,
        JsonKind::Number(_) => "number"@,
        JsonKind::String(_) => "string"@,
        JsonKind::Array => "array"@,
        JsonKind::Object => "object"@,
    }
}

/// Human-readable JSON type name, for error messages.
pub fn other_type_name(k: &JsonKind) -> (r: &'static str)
    ensures
        r@ == kind_name(*k),
{
    match k {
        JsonKind::Null => "null",
        JsonKind::Bool(_) => "bool",
        JsonKind::Number(_) => "number",
        JsonKind::String(_) => "string",
        JsonKind::Array => "array",
        JsonKind::Object => "object",
    }
}

/// A JSON value as metadata reads it: an object's fields in the object's
/// order, or the kind of any other value.
#[derive(Debug, Clone, PartialEq)]
pub enum JsonFields {
    /// An object, by its fields.
    Object(Vec<(String, serde_json::Value)>),
    /// Any value that is not an object, by its kind.
    Other(JsonKind),
}

/// The fields of a JSON object in the object's order, or the kind of any
/// other value, as [`JsonFields::from_json`] reads them.
pub uninterp spec fn json_fields_of(v: serde_json::Value) -> JsonFields;

/// The fields of `v` when it is an object (`serde_json::Map`'s iteration),
/// else its kind (`serde_json::Value`'s variants told apart, with
/// `serde_json::Number::as_i64` for numbers).
///
/// Trusted: the result is a function of `v` alone, named `json_fields_of`.
/// It tells the variants apart as `json_kind` does: the fields of an object,
/// else the value's kind.
#[verifier::external_body]
fn json_fields(v: serde_json::Value) -> (r: JsonFields)
    ensures
        r == json_fields_of(v),
        r is Object <==> json_kind_of(v) is Object,
        r matches JsonFields::Other(k) ==> k == json_kind_of(v),
{
    match v {
        serde_json::Value::Object(map) => JsonFields::Object(map.into_iter().collect()),
        serde_json::Value::Null => JsonFields::Other(JsonKind::Null),
        serde_json::Value::Bool(b) => JsonFields::Other(JsonKind::Bool(b)),
        serde_json::Value::Number(n) => JsonFields::Other(JsonKind::Number(n.as_i64())),
        serde_json::Value::String(s) => JsonFields::Other(JsonKind::String(s)),
        serde_json::Value::Array(_) => JsonFields::Other(JsonKind::Array),
    }
}

impl JsonFields {
    /// The fields of an already serialized value, or its kind when it is not
    /// an object.
    pub fn from_json(value: serde_json::Value) -> (r: Self)
        ensures
            r == json_fields_of(value),
            r is Object <==> json_kind_of(value) is Object,
            r matches JsonFields::Other(k) ==> k == json_kind_of(value),
    {
        json_fields(value)
    }
}

} // verus!
