//! Files attached to a record.

use vstd::prelude::*;

verus! {

/// A file attached to a record: its name, its media type as text, and where
/// it lies.
#[derive(Debug, Clone, PartialEq, Eq)]
pub struct Attachment {
    pub name: String,
    pub media_type: String,
    pub source: String,
}

} // verus!
