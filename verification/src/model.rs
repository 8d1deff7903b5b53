//! The engine's data model: the classified payload, the members of a
//! structured (JSON object) payload, the normalized key/value entries that
//! every renderer consumes, the render targets and the render outcome.

use vstd::prelude::*;

verus! {

/// One normalized key/value pair handed to the renderers.
pub struct Entry {
    pub key: Vec<u8>,
    pub value: Vec<u8>,
}

impl View for Entry {
    type V = (Seq<u8>, Seq<u8>);

    open spec fn view(&self) -> (Seq<u8>, Seq<u8>) {
        (self.key@, self.value@)
    }
}

/// The model of a sequence of entries: its key/value pairs.
pub open spec fn entries_model(es: Seq<Entry>) -> Seq<(Seq<u8>, Seq<u8>)> {
    es.map_values(|e: Entry| e@)
}

/// The value of one member of a structured payload: either the raw text of a
/// JSON string, or the canonical (compact) JSON text of any other value.
pub enum MemberValue {
    Str(Vec<u8>),
    Other(Vec<u8>),
}

pub enum MemberValueModel {
    Str(Seq<u8>),
    Other(Seq<u8>),
}

impl View for MemberValue {
    type V = MemberValueModel;

    open spec fn view(&self) -> MemberValueModel {
        match self {
            MemberValue::Str(v) => MemberValueModel::Str(v@),
            MemberValue::Other(v) => MemberValueModel::Other(v@),
        }
    }
}

/// One member of a structured (JSON object) payload, in document order.
pub struct Member {
    pub key: Vec<u8>,
    pub value: MemberValue,
}

pub struct MemberModel {
    pub key: Seq<u8>,
    pub value: MemberValueModel,
}

impl View for Member {
    type V = MemberModel;

    open spec fn view(&self) -> MemberModel {
        MemberModel { key: self.key@, value: self.value@ }
    }
}

/// A parsed JSON document: either an object with its members in document
/// order, or any other document together with its compact, pretty and YAML
/// serializations.
pub enum StructuredDoc {
    Object(Vec<Member>),
    Other { compact: Vec<u8>, pretty: Vec<u8>, yaml: Vec<u8> },
}

pub enum DocModel {
    Object(Seq<MemberModel>),
    Other { compact: Seq<u8>, pretty: Seq<u8>, yaml: Seq<u8> },
}

impl View for StructuredDoc {
    type V = DocModel;

    open spec fn view(&self) -> DocModel {
        match self {
            StructuredDoc::Object(ms) => DocModel::Object(ms@.map_values(|m: Member| m@)),
            StructuredDoc::Other { compact, pretty, yaml } => DocModel::Other {
                compact: compact@,
                pretty: pretty@,
                yaml: yaml@,
            },
        }
    }
}

/// A classified secret payload.
pub enum RawPayload {
    StructuredJson(StructuredDoc),
    PlainText(Vec<u8>),
    Binary(Vec<u8>),
}

pub enum PayloadModel {
    StructuredJson(DocModel),
    PlainText(Seq<u8>),
    Binary(Seq<u8>),
}

impl View for RawPayload {
    type V = PayloadModel;

    open spec fn view(&self) -> PayloadModel {
        match self {
            RawPayload::StructuredJson(d) => PayloadModel::StructuredJson(d@),
            RawPayload::PlainText(t) => PayloadModel::PlainText(t@),
            RawPayload::Binary(b) => PayloadModel::Binary(b@),
        }
    }
}

/// The output format requested by the caller.
#[derive(Clone, Copy, Debug, PartialEq, Eq, Structural)]
pub enum RenderTarget {
    Preview,
    EnvFile,
    Json,
    Yaml,
    Csv,
}

/// What the engine decided to do with the rendered bytes: write them to a
/// file, print them to standard output, or report that the payload is not a
/// valid object for the requested format.
pub enum RenderOutcome {
    WriteFile { path: String, content: Vec<u8> },
    PrintText { content: Vec<u8> },
    NotAnObject,
}

pub enum OutcomeModel {
    WriteFile { path: Seq<char>, content: Seq<u8> },
    PrintText { content: Seq<u8> },
    NotAnObject,
}

impl View for RenderOutcome {
    type V = OutcomeModel;

    open spec fn view(&self) -> OutcomeModel {
        match self {
            RenderOutcome::WriteFile { path, content } => OutcomeModel::WriteFile {
                path: path@,
                content: content@,
            },
            RenderOutcome::PrintText { content } => OutcomeModel::PrintText { content: content@ },
            RenderOutcome::NotAnObject => OutcomeModel::NotAnObject,
        }
    }
}

/// A fatal engine error: a format encoder failed.
#[derive(Debug, PartialEq, Eq, Structural)]
pub enum EngineError {
    Serialization,
}

} // verus!
