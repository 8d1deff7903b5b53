//! A verified secret materialization engine: classifies a raw secret payload
//! as structured (key/value), freeform text, or binary, normalizes it into
//! key/value entries, and renders it into one of five output formats
//! (preview, `.env`, JSON, YAML, CSV) with consistent quoting and escaping.

pub mod b64;
pub mod bytes;
pub mod classify;
pub mod extract;
pub mod jsonio;
pub mod laws;
pub mod listing;
pub mod model;
pub mod render;
