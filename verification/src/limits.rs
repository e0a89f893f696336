//! Limits of the system.

use vstd::prelude::*;

verus! {

/// The largest number of chunks that one scattered read or write can name.
pub const IOV_MAX: usize = 1024;

} // verus!
