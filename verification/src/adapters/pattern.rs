//! Regular expressions, as `regex` reads and applies them.

use vstd::prelude::*;

verus! {

/// What `regex::Regex::new` makes of a source: whether it is a regular
/// expression that the crate accepts.
pub uninterp spec fn pattern_valid(source: Seq<char>) -> bool;

/// What `regex::Regex::is_match` says of the expression made of a source and
/// a text: whether the expression matches somewhere in the text.
pub uninterp spec fn pattern_matches(source: Seq<char>, text: Seq<char>) -> bool;

/// Calls `regex::Regex::new`: whether the source is a regular expression.
#[verifier::external_body]
pub(crate) fn is_pattern(source: &str) -> (r: bool)
    ensures
        r == pattern_valid(source@),
{
    regex::Regex::new(source).is_ok()
}

/// Calls `regex::Regex::new` on the source and `is_match` on the expression
/// and the text; `None` where `new` reports an error.
#[verifier::external_body]
pub(crate) fn is_match(source: &str, text: &str) -> (r: Option<bool>)
    ensures
        r is Some == pattern_valid(source@),
        r matches Some(found) ==> found == pattern_matches(source@, text@),
{
    match regex::Regex::new(source) {
        Ok(expression) => Some(expression.is_match(text)),
        Err(_) => None,
    }
}

} // verus!
