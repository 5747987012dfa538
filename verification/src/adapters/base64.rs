//! Base64 texts, as `base64` reads them.

use vstd::prelude::*;
use base64::Engine;

verus! {

/// What the standard engine of `base64` decodes a text to: its bytes, or
/// nothing where the text is no padded base64 of the standard alphabet.
pub uninterp spec fn base64_decoded(text: Seq<char>) -> Option<Seq<u8>>;

/// Calls `base64::Engine::decode` of `base64::engine::general_purpose::STANDARD`
/// on a text: the bytes, or `None` where the call reports an error.
#[verifier::external_body]
pub(crate) fn decode(text: &str) -> (r: Option<Vec<u8>>)
    ensures
        match base64_decoded(text@) {
            Some(bytes) => r matches Some(out) && out@ == bytes,
            None => r is None,
        },
{
    base64::engine::general_purpose::STANDARD.decode(text).ok()
}

} // verus!
