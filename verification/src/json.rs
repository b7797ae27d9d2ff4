//! Trusted declarations for the JSON documents the status decoder walks. The
//! parser and the accessors come from serde_json. A parsed value's content is
//! named by [`value_model`]: a mathematical JSON tree over plain values. Each
//! accessor's contract says, over that name, exactly when it answers and what
//! it hands back, as serde_json's source shows; [`doc_of`] names the content
//! that parsing a given text yields, so contracts downstream can speak of
//! "the document carried by this frame".

use vstd::prelude::*;

verus! {

#[verifier::external_type_specification]
#[verifier::external_body]
pub struct ExValue(serde_json::Value);

#[verifier::external_type_specification]
#[verifier::external_body]
pub struct ExJsonError(serde_json::Error);

/// The content of a parsed JSON value, over plain mathematical values. A
/// number is an integer when serde_json stores it as one (any value in
/// `[-2^63, 2^64)`); other numbers are floating point, whose value this
/// model does not track.
pub enum JsonDoc {
    Null,
    Bool(bool),
    Int(int),
    Float,
    Text(Seq<char>),
    Array(Seq<JsonDoc>),
    Object(Map<Seq<char>, JsonDoc>),
}

/// The content of a parsed JSON value.
pub uninterp spec fn value_model(v: serde_json::Value) -> JsonDoc;

/// The content that parsing the given text yields.
pub uninterp spec fn doc_of(s: Seq<char>) -> JsonDoc;

/// Whether serde_json accepts the text as one well-formed JSON document.
pub uninterp spec fn json_wf(s: Seq<char>) -> bool;

/// Relies on `serde_json::from_str::<Value>`: parsing is deterministic,
/// succeeds exactly when the text is one well-formed JSON document, and then
/// returns that document's content.
#[verifier::external_body]
pub fn json_parse(s: &str) -> (r: Result<serde_json::Value, serde_json::Error>)
    ensures
        r is Ok <==> json_wf(s@),
        match r {
            Ok(v) => value_model(v) == doc_of(s@),
            Err(_) => true,
        },
{
    serde_json::from_str(s)
}

/// Relies on `serde_json::Value::get` with a string index: the member under
/// the key, exactly when the value is an object that carries the key.
#[verifier::external_body]
pub fn json_get<'a>(v: &'a serde_json::Value, key: &str) -> (r: Option<&'a serde_json::Value>)
    ensures
        match r {
            Some(m) => value_model(*v) is Object && value_model(*v)->Object_0.contains_key(key@)
                && value_model(*m) == value_model(*v)->Object_0[key@],
            None => !(value_model(*v) is Object && value_model(*v)->Object_0.contains_key(key@)),
        },
{
    v.get(key)
}

/// Relies on `serde_json::Value::as_str`: the content of a JSON string
/// value, exactly when the value is a string.
#[verifier::external_body]
pub fn json_as_str<'a>(v: &'a serde_json::Value) -> (r: Option<&'a str>)
    ensures
        match r {
            Some(s) => value_model(*v) == JsonDoc::Text(s@),
            None => !(value_model(*v) is Text),
        },
{
    v.as_str()
}

/// Relies on `serde_json::Value::as_i64`: the value of a JSON integer,
/// exactly when the value is an integer that fits 64 signed bits (serde_json
/// holds no integer below `i64::MIN`).
#[verifier::external_body]
pub fn json_as_i64(v: &serde_json::Value) -> (r: Option<i64>)
    ensures
        match r {
            Some(n) => value_model(*v) == JsonDoc::Int(n as int),
            None => !(value_model(*v) is Int) || value_model(*v)->Int_0
                > 0x7fff_ffff_ffff_ffffi64 as int,
        },
{
    v.as_i64()
}

/// Relies on `serde_json::Value::as_bool`: the value of a JSON boolean,
/// exactly when the value is one.
#[verifier::external_body]
pub fn json_as_bool(v: &serde_json::Value) -> (r: Option<bool>)
    ensures
        match r {
            Some(b) => value_model(*v) == JsonDoc::Bool(b),
            None => !(value_model(*v) is Bool),
        },
{
    v.as_bool()
}

/// Relies on `serde_json::Value::as_array`: the elements of a JSON array,
/// exactly when the value is one.
#[verifier::external_body]
pub fn json_as_array<'a>(v: &'a serde_json::Value) -> (r: Option<&'a Vec<serde_json::Value>>)
    ensures
        match r {
            Some(arr) => value_model(*v) == JsonDoc::Array(
                arr@.map_values(|x: serde_json::Value| value_model(x)),
            ),
            None => !(value_model(*v) is Array),
        },
{
    v.as_array()
}

/// Relies on `serde_json::Value::is_object`.
#[verifier::external_body]
pub fn json_is_object(v: &serde_json::Value) -> (r: bool)
    ensures
        r == (value_model(*v) is Object),
{
    v.is_object()
}

/// Relies on `serde_json::Value::is_null`.
#[verifier::external_body]
pub fn json_is_null(v: &serde_json::Value) -> (r: bool)
    ensures
        r == (value_model(*v) is Null),
{
    v.is_null()
}

} // verus!
