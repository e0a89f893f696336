//! Small helpers shared by the rest of the kernel.

pub mod assoc;
pub mod io;
pub mod math;

use vstd::prelude::*;

verus! {

/// The registers of a process, as saved when it enters the kernel.
#[derive(Clone, Copy, Debug, PartialEq, Eq, Structural)]
pub struct Regs {
    /// The accumulator. It holds the number of the system call, and the
    /// status with which a process exits.
    pub eax: u32,
    /// The first argument of a system call.
    pub ebx: u32,
    /// The second argument of a system call.
    pub ecx: u32,
    /// The third argument of a system call.
    pub edx: u32,
    /// The fourth argument of a system call.
    pub esi: u32,
    /// The fifth argument of a system call.
    pub edi: u32,
    /// The sixth argument of a system call.
    pub ebp: u32,
}

} // verus!
