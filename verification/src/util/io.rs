//! What files and devices have in common when they are read, written and
//! waited for.

use crate::errno::Errno;
use crate::process::Pid;
use crate::process::Process;
use crate::process::State;
use vstd::prelude::*;

verus! {

/// Poll event: there is data to read.
pub const POLLIN: u32 = 0x1;

/// Poll event: there is urgent data to read.
pub const POLLPRI: u32 = 0x2;

/// Poll event: writing is possible.
pub const POLLOUT: u32 = 0x4;

/// Poll event: an error occurred.
pub const POLLERR: u32 = 0x8;

/// The processes that wait for an event on one file or device, each with
/// the events it waits for.
pub struct BlockHandler {
    waiting: Vec<(Pid, u32)>,
}

impl View for BlockHandler {
    type V = Seq<(Pid, u32)>;

    /// The waiting processes and their event masks, in the order in which
    /// they began to wait.
    closed spec fn view(&self) -> Seq<(Pid, u32)> {
        self.waiting@
    }
}

impl BlockHandler {
    /// Creates a handler with no process waiting.
    pub fn new() -> (r: BlockHandler)
        ensures
            r@ == Seq::<(Pid, u32)>::empty(),
    {
        BlockHandler { waiting: Vec::new() }
    }

    /// Returns the number of waiting processes.
    pub fn waiting_count(&self) -> (r: usize)
        ensures
            r == self@.len(),
    {
        self.waiting.len()
    }

    /// Returns the process that waits at the position `index`, and the
    /// events it waits for.
    pub fn get_waiting(&self, index: usize) -> (r: (Pid, u32))
        requires
            index < self@.len(),
        ensures
            r == self@[index as int],
    {
        self.waiting[index]
    }

    /// Makes `proc` wait for the events of `mask`: the process is put to
    /// sleep and added to the waiting processes.
    pub fn add_waiting_process(&mut self, proc: &mut Process, mask: u32) -> (r: Result<(), Errno>)
        ensures
            r is Ok,
            final(self)@ == old(self)@.push((old(proc).pid, mask)),
            *final(proc) == (Process { state: State::Sleeping, ..*old(proc) }),
    {
        self.waiting.push((proc.pid, mask));
        proc.set_state(State::Sleeping);
        Ok(())
    }
}

} // verus!
