//! The trusted boundary to the base64 crate's standard (padded) engine.

use vstd::prelude::*;

use base64::Engine;

verus! {

/// The standard base64 encoding of the bytes.
pub uninterp spec fn b64_of(bytes: Seq<u8>) -> Seq<u8>;

/// What the standard engine's decode returns for the text.
pub uninterp spec fn b64_decode_of(text: Seq<u8>) -> Option<Seq<u8>>;

/// Relies on base64's `STANDARD.encode`: the encoding is a function of the
/// input bytes alone, four output bytes for every started group of three
/// input bytes (padded), and `STANDARD.decode` inverts it. The length bound
/// keeps the engine's output-size computation from overflowing.
#[verifier::external_body]
pub(crate) fn b64_encode(bytes: &Vec<u8>) -> (r: Vec<u8>)
    requires
        4 * ((bytes@.len() + 2) / 3) <= usize::MAX as int,
    ensures
        r@ == b64_of(bytes@),
        r@.len() == 4 * ((bytes@.len() + 2) / 3),
        b64_decode_of(r@) == Some(bytes@),
{
    base64::engine::general_purpose::STANDARD.encode(bytes.as_slice()).into_bytes()
}

} // verus!
