//! Decoding of the byte- and text-level formats the engine consumes: JSON
//! documents, base64 payloads, and UTF-8. The decoders themselves live in
//! outside crates; each result is named so that contracts can speak of it
//! exactly.

use vstd::prelude::*;

use base64::Engine;

use crate::json::Json;
use crate::json::JsonV;

verus! {

/// serde_json's own value type, declared so that the conversion below may
/// take it; the engine never looks inside one.
#[verifier::external_type_specification]
#[verifier::external_body]
pub struct ExSerdeValue(serde_json::Value);

/// What serde_json parses a document to, in the engine's JSON shape:
/// `None` for an unparseable document. Object keys keep serde_json's
/// (deterministic) ordering; non-integer numbers fall outside the model and
/// are read as null.
pub uninterp spec fn json_of(s: Seq<char>) -> Option<JsonV>;

/// What base64 (standard alphabet, padded) decodes a string to.
pub uninterp spec fn b64_standard_of(s: Seq<char>) -> Option<Seq<u8>>;

/// What base64 (URL-safe alphabet, unpadded) decodes a string to.
pub uninterp spec fn b64_url_of(s: Seq<char>) -> Option<Seq<u8>>;

/// What the bytes decode to as UTF-8.
pub uninterp spec fn utf8_of(b: Seq<u8>) -> Option<Seq<char>>;

/// Relies on serde_json::Value and its serde::Deserialize impl: reads an
/// outside JSON value into the engine's own shape, moving each variant's
/// content across. Floats have no place in the engine's model and become
/// null.
#[verifier::external_body]
fn json_from_value(v: serde_json::Value) -> Json {
    match v {
        serde_json::Value::Null => Json::Null,
        serde_json::Value::Bool(b) => Json::Bool(b),
        serde_json::Value::Number(n) => match n.as_i128() {
            Some(i) => Json::Int(i),
            None => Json::Null,
        },
        serde_json::Value::String(s) => Json::Str(s),
        serde_json::Value::Array(a) => Json::Arr(a.into_iter().map(json_from_value).collect()),
        serde_json::Value::Object(m) => Json::Obj(
            m.into_iter().map(|(k, v)| (k, json_from_value(v))).collect(),
        ),
    }
}

/// Relies on serde_json::Value's constructors: writes an engine JSON value
/// back as an outside value, moving each variant's content across. An
/// integer too wide for a JSON number becomes null.
#[verifier::external_body]
pub fn value_from_json(v: &Json) -> serde_json::Value {
    match v {
        Json::Null => serde_json::Value::Null,
        Json::Bool(b) => serde_json::Value::Bool(*b),
        Json::Int(i) => match serde_json::Number::from_i128(*i) {
            Some(n) => serde_json::Value::Number(n),
            None => serde_json::Value::Null,
        },
        Json::Str(s) => serde_json::Value::String(s.clone()),
        Json::Arr(a) => serde_json::Value::Array(a.iter().map(value_from_json).collect()),
        Json::Obj(m) => serde_json::Value::Object(
            m.iter().map(|(k, v)| (k.clone(), value_from_json(v))).collect(),
        ),
    }
}

/// Relies on serde_json::from_str: parses a JSON document, or fails exactly
/// when the document is not valid JSON.
#[verifier::external_body]
pub fn parse_json(s: &str) -> (r: Option<Json>)
    ensures
        r matches Some(j) ==> json_of(s@) == Some(j@),
        r is None ==> json_of(s@) is None,
{
    match serde_json::from_str::<serde_json::Value>(s) {
        Ok(v) => Some(json_from_value(v)),
        Err(_) => None,
    }
}

/// Relies on base64's STANDARD engine: decodes padded standard-alphabet
/// base64, or fails exactly when the input is not valid base64.
#[verifier::external_body]
pub fn b64_standard_decode(s: &str) -> (r: Option<Vec<u8>>)
    ensures
        r matches Some(b) ==> b64_standard_of(s@) == Some(b@),
        r is None ==> b64_standard_of(s@) is None,
{
    base64::engine::general_purpose::STANDARD.decode(s).ok()
}

/// Relies on base64's URL_SAFE_NO_PAD engine: decodes unpadded URL-safe
/// base64, as compact JWT segments use it.
#[verifier::external_body]
pub fn b64_url_decode(s: &str) -> (r: Option<Vec<u8>>)
    ensures
        r matches Some(b) ==> b64_url_of(s@) == Some(b@),
        r is None ==> b64_url_of(s@) is None,
{
    base64::engine::general_purpose::URL_SAFE_NO_PAD.decode(s).ok()
}

/// Relies on String::from_utf8: turns bytes into the string they spell in
/// UTF-8, or fails exactly when they are not UTF-8.
#[verifier::external_body]
pub fn utf8_to_string(b: Vec<u8>) -> (r: Option<String>)
    ensures
        r matches Some(s) ==> utf8_of(b@) == Some(s@),
        r is None ==> utf8_of(b@) is None,
{
    String::from_utf8(b).ok()
}

} // verus!
