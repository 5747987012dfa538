//! Parameters of a test.

use vstd::prelude::*;

verus! {

/// A parameter of a test: its name and value, and whether it is hidden from
/// the report or left out of the test's history.
#[derive(Debug, Clone, PartialEq, Eq)]
pub struct Parameter {
    pub name: String,
    pub value: String,
    pub hidden: bool,
    pub excluded: bool,
}

} // verus!
