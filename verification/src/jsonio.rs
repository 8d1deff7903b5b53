//! The trusted boundary to serde_json and serde_yaml. Every function here is
//! `external_body`: its body only makes the outside call and converts values
//! one for one, and its contract states no more than the crates' sources
//! show. Parsing is deterministic in the input bytes, so it is named by the
//! uninterpreted `is_json_doc`; the serializations of an entry object are
//! deterministic in the key/value pairs, so they are named by
//! `json_object_text` and `yaml_object_text`.

use vstd::prelude::*;

use crate::model::{entries_model, Entry};

verus! {

/// Whether the bytes form a valid JSON document, as serde_json's parser
/// accepts it.
pub uninterp spec fn is_json_doc(bytes: Seq<u8>) -> bool;

/// The pretty-printed JSON text of the object that maps each pair's key to
/// its value as a JSON string, members in the pairs' order.
pub uninterp spec fn json_object_text(pairs: Seq<(Seq<u8>, Seq<u8>)>) -> Seq<u8>;

/// The YAML text of the same object.
pub uninterp spec fn yaml_object_text(pairs: Seq<(Seq<u8>, Seq<u8>)>) -> Seq<u8>;

#[verifier::external_type_specification]
#[verifier::external_body]
pub struct ExValue(serde_json::Value);

#[verifier::external_type_specification]
#[verifier::external_body]
pub struct ExJsonError(serde_json::Error);

#[verifier::external_type_specification]
#[verifier::external_body]
pub struct ExYamlError(serde_yaml::Error);

/// Relies on serde_json::from_slice::<Value>: it returns Ok exactly when the
/// bytes are a valid JSON document, and the result depends on the bytes
/// alone. A failed parse is a classification signal, not an error.
#[verifier::external_body]
pub(crate) fn parse_json_doc(bytes: &Vec<u8>) -> (r: Option<serde_json::Value>)
    ensures
        r is Some <==> is_json_doc(bytes@),
{
    serde_json::from_slice::<serde_json::Value>(bytes.as_slice()).ok()
}

/// Relies on serde_json::Value and Map::into_iter: an Object hands out its
/// members in document order (the `preserve_order` feature keeps insertion
/// order); any other document is handed back whole.
#[verifier::external_body]
pub(crate) fn doc_object_members(v: serde_json::Value) -> Result<
    Vec<(String, serde_json::Value)>,
    serde_json::Value,
> {
    match v {
        serde_json::Value::Object(m) => Ok(m.into_iter().collect()),
        other => Err(other),
    }
}

/// Relies on serde_json::Value: a String value is unwrapped to its raw text;
/// any other value is handed back.
#[verifier::external_body]
pub(crate) fn value_take_string(v: serde_json::Value) -> Result<String, serde_json::Value> {
    match v {
        serde_json::Value::String(s) => Ok(s),
        other => Err(other),
    }
}

/// Relies on serde_json::to_vec: the compact JSON text of a value.
#[verifier::external_body]
pub(crate) fn value_compact(v: &serde_json::Value) -> Result<Vec<u8>, serde_json::Error> {
    serde_json::to_vec(v)
}

/// Relies on serde_json::to_vec_pretty: the pretty-printed JSON text of a
/// value.
#[verifier::external_body]
pub(crate) fn value_pretty(v: &serde_json::Value) -> Result<Vec<u8>, serde_json::Error> {
    serde_json::to_vec_pretty(v)
}

/// Relies on serde_yaml::to_string: the YAML text of a value.
#[verifier::external_body]
pub(crate) fn value_yaml(v: &serde_json::Value) -> Result<Vec<u8>, serde_yaml::Error> {
    serde_yaml::to_string(v).map(String::into_bytes)
}

/// Relies on serde_json::to_vec_pretty over a Map built from the entries in
/// order: the pretty JSON object mapping each key to its value as a string.
/// With `preserve_order`, member order is insertion order, so the result is a
/// function of the key/value pairs alone.
#[verifier::external_body]
pub(crate) fn entries_json_pretty(entries: &Vec<Entry>) -> (r: Result<Vec<u8>, serde_json::Error>)
    ensures
        r matches Ok(v) ==> v@ == json_object_text(entries_model(entries@)),
{
    let mut map = serde_json::Map::new();
    for e in entries.iter() {
        let k = String::from_utf8_lossy(&e.key).into_owned();
        let v = String::from_utf8_lossy(&e.value).into_owned();
        map.insert(k, serde_json::Value::String(v));
    }
    serde_json::to_vec_pretty(&serde_json::Value::Object(map))
}

/// Relies on serde_yaml::to_string over the same Map built from the entries
/// in order: the YAML mapping of the keys to their string values, again a
/// function of the key/value pairs alone.
#[verifier::external_body]
pub(crate) fn entries_yaml(entries: &Vec<Entry>) -> (r: Result<Vec<u8>, serde_yaml::Error>)
    ensures
        r matches Ok(v) ==> v@ == yaml_object_text(entries_model(entries@)),
{
    let mut map = serde_json::Map::new();
    for e in entries.iter() {
        let k = String::from_utf8_lossy(&e.key).into_owned();
        let v = String::from_utf8_lossy(&e.value).into_owned();
        map.insert(k, serde_json::Value::String(v));
    }
    serde_yaml::to_string(&serde_json::Value::Object(map)).map(String::into_bytes)
}

} // verus!
