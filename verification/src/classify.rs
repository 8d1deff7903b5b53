//! The payload classifier: a string payload that parses as JSON becomes a
//! structured payload (its members captured in document order), any other
//! string stays plain text, and a binary payload stays opaque bytes. A failed
//! JSON parse is never an error; only a failed serialization of a captured
//! document is.

use vstd::prelude::*;

use vstd::string::StrSliceExecFns;

use crate::jsonio::{
    doc_object_members, is_json_doc, parse_json_doc, value_compact, value_pretty,
    value_take_string, value_yaml,
};
use crate::model::{EngineError, Member, MemberValue, RawPayload, StructuredDoc};

verus! {

/// Captures a parsed document in the engine's own model: an object's members
/// in document order (string values unwrapped to their raw text, any other
/// value stringified to its compact JSON text), or any other document with
/// its compact, pretty and YAML texts.
fn build_structured(v: serde_json::Value) -> Result<StructuredDoc, EngineError> {
    match doc_object_members(v) {
        Ok(pairs) => {
            let mut pairs = pairs;
            let mut members: Vec<Member> = Vec::new();
            while pairs.len() > 0
                decreases pairs@.len(),
            {
                let (k, mv) = pairs.remove(0);
                let key = k.as_str().as_bytes_vec();
                let value = match value_take_string(mv) {
                    Ok(s) => MemberValue::Str(s.as_str().as_bytes_vec()),
                    Err(other) => match value_compact(&other) {
                        Ok(text) => MemberValue::Other(text),
                        Err(_) => {
                            return Err(EngineError::Serialization);
                        },
                    },
                };
                members.push(Member { key, value });
            }
            Ok(StructuredDoc::Object(members))
        },
        Err(doc) => {
            let compact = match value_compact(&doc) {
                Ok(b) => b,
                Err(_) => {
                    return Err(EngineError::Serialization);
                },
            };
            let pretty = match value_pretty(&doc) {
                Ok(b) => b,
                Err(_) => {
                    return Err(EngineError::Serialization);
                },
            };
            let yaml = match value_yaml(&doc) {
                Ok(b) => b,
                Err(_) => {
                    return Err(EngineError::Serialization);
                },
            };
            Ok(StructuredDoc::Other { compact, pretty, yaml })
        },
    }
}

/// Classifies a string payload: structured exactly when it parses as JSON,
/// plain text otherwise. Only serialization of a captured document can fail.
pub fn classify(text: Vec<u8>) -> (r: Result<RawPayload, EngineError>)
    ensures
        !is_json_doc(text@) ==> r == Ok::<RawPayload, EngineError>(RawPayload::PlainText(text)),
        r matches Ok(p) ==> (p is StructuredJson <==> is_json_doc(text@)),
        r is Err ==> is_json_doc(text@),
{
    match parse_json_doc(&text) {
        None => Ok(RawPayload::PlainText(text)),
        Some(v) => match build_structured(v) {
            Ok(doc) => Ok(RawPayload::StructuredJson(doc)),
            Err(e) => Err(e),
        },
    }
}

/// Classifies a fetched secret: the string payload wins when present, the
/// binary payload is tagged opaque, and no payload at all yields None.
pub fn classify_response(secret_string: Option<Vec<u8>>, secret_binary: Option<Vec<u8>>) -> (r:
    Result<Option<RawPayload>, EngineError>)
    ensures
        secret_string matches Some(t) ==> (!is_json_doc(t@) ==> r == Ok::<
            Option<RawPayload>,
            EngineError,
        >(Some(RawPayload::PlainText(t)))),
        secret_string matches Some(t) ==> (r matches Ok(p) ==> p matches Some(pp) && (
        pp is StructuredJson <==> is_json_doc(t@))),
        r is Err ==> (secret_string matches Some(t) && is_json_doc(t@)),
        secret_binary matches Some(b) ==> (secret_string is None ==> r == Ok::<
            Option<RawPayload>,
            EngineError,
        >(Some(RawPayload::Binary(b)))),
        secret_string is None && secret_binary is None ==> r == Ok::<
            Option<RawPayload>,
            EngineError,
        >(None),
{
    match secret_string {
        Some(t) => match classify(t) {
            Ok(p) => Ok(Some(p)),
            Err(e) => Err(e),
        },
        None => match secret_binary {
            Some(b) => Ok(Some(RawPayload::Binary(b))),
            None => Ok(None),
        },
    }
}

} // verus!
