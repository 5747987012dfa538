//! Bytes as UTF-8 text, as std reads them.

use vstd::prelude::*;
use vstd::utf8::{decode_utf8, valid_utf8};

verus! {

/// Calls `String::from_utf8` on a copy of the bytes: the text that they
/// encode, or `None` where they are no UTF-8.
#[verifier::external_body]
pub(crate) fn utf8_text(bytes: &[u8]) -> (r: Option<String>)
    ensures
        r matches Some(text) ==> valid_utf8(bytes@) && text@ == decode_utf8(bytes@),
        r is None ==> !valid_utf8(bytes@),
{
    String::from_utf8(bytes.to_vec()).ok()
}

} // verus!
