//! The `_exit` system call ends the calling process.

use crate::process::Process;
use crate::process::State;
use crate::util::Regs;
use vstd::prelude::*;

verus! {

/// Ends `proc`, the calling process, with the status that it passed in
/// `regs.eax`. The process never runs again; the caller goes on with
/// another one.
pub fn _exit(regs: &Regs, proc: &mut Process)
    ensures
        *final(proc) == (Process { state: State::Zombie, exit_status: regs.eax, ..*old(proc) }),
{
    proc.exit(regs.eax);
}

} // verus!
