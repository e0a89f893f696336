//! Time as the kernel counts it.

use vstd::prelude::*;

verus! {

/// A point in time, in seconds since the clock began to count.
pub type Timestamp = u64;

} // verus!
