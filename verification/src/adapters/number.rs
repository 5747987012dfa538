//! Fractional numbers as text.

use vstd::prelude::*;
use bytes::Buf;
use bytes::BufMut;

verus! {

/// What std writes for the fractional number of a bit pattern, as
/// `to_string` gives it.
pub uninterp spec fn fraction_text(bits: u64) -> Seq<char>;

/// Calls `bytes::Buf::get_f64` on the eight bytes of a bit pattern, most
/// significant first, and `to_string` on the fractional number that it
/// yields.
#[verifier::external_body]
pub(crate) fn fraction_to_text(bits: u64) -> (r: String)
    ensures
        r@ == fraction_text(bits),
{
    (&bits.to_be_bytes()[..]).get_f64().to_string()
}

/// The bit pattern of the fractional number that std reads in a text, as
/// `str::parse` gives it; `None` where it reads none.
pub uninterp spec fn fraction_of_text(text: Seq<char>) -> Option<u64>;

/// Calls `str::parse` for a fractional number, and `bytes::BufMut::put_f64`
/// on the number that it yields, for its bit pattern, most significant
/// byte first. `None` where `parse` reports an error.
#[verifier::external_body]
pub(crate) fn parse_fraction(text: &str) -> (r: Option<u64>)
    ensures
        r == fraction_of_text(text@),
{
    let mut bytes: Vec<u8> = Vec::new();
    bytes.put_f64(text.parse().ok()?);
    Some(u64::from_be_bytes(bytes.try_into().ok()?))
}

} // verus!
