//! Limits of a run.

use vstd::prelude::*;

verus! {

/// The most requests that are in flight at one time.
pub const MAX_PARALLEL_REQUESTS: usize = 64;

} // verus!
