//! Identifiers, as `uuid` makes and writes them.

use vstd::prelude::*;

verus! {

/// What `uuid::Uuid::to_string` writes for the identifier of a 128-bit
/// number: its 32 hexadecimal digits in lower case, in groups of 8, 4, 4, 4
/// and 12 that hyphens part.
pub uninterp spec fn uuid_text(id: u128) -> Seq<char>;

/// Calls `uuid::Uuid::new_v4` and `as_u128`: a random identifier, as the
/// number that its 16 bytes make, most significant first.
#[verifier::external_body]
pub(crate) fn fresh() -> u128 {
    uuid::Uuid::new_v4().as_u128()
}

/// Calls `uuid::Uuid::from_u128` and `to_string`: the identifier of a
/// number, written out.
#[verifier::external_body]
pub(crate) fn hyphenated(id: u128) -> (r: String)
    ensures
        r@ == uuid_text(id),
{
    uuid::Uuid::from_u128(id).to_string()
}

} // verus!
