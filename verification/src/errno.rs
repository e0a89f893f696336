//! Error values returned by kernel operations.

use vstd::prelude::*;

verus! {

/// The failure of a memory allocation.
#[derive(Clone, Copy, Debug, PartialEq, Eq, Structural)]
pub struct AllocError;

/// The result of an operation that fails only when memory runs out.
pub type AllocResult<T> = Result<T, AllocError>;

/// An error number, as handed back to user space.
#[derive(Clone, Copy, Debug, PartialEq, Eq, Structural)]
pub enum Errno {
    /// Resource temporarily unavailable.
    EAGAIN,
    /// Bad file descriptor.
    EBADF,
    /// Bad address.
    EFAULT,
    /// Invalid argument.
    EINVAL,
    /// Is a directory.
    EISDIR,
    /// Not enough memory.
    ENOMEM,
    /// Inappropriate I/O control operation.
    ENOTTY,
}

/// The result of an operation that can fail with an error number.
pub type EResult<T> = Result<T, Errno>;

impl Errno {
    /// The error number that an allocation failure is reported as.
    pub fn from_alloc(e: AllocError) -> (r: Errno)
        ensures
            r == Errno::ENOMEM,
    {
        Errno::ENOMEM
    }
}

} // verus!
