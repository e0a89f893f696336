//! Chunks of a process's memory, as scattered reads and writes name them.

use vstd::prelude::*;

verus! {

/// A chunk of a process's memory.
#[derive(Clone, Copy, Debug, PartialEq, Eq, Structural)]
pub struct IOVec {
    /// The address at which the chunk begins.
    pub iov_base: usize,
    /// The length of the chunk in bytes.
    pub iov_len: usize,
}

} // verus!
