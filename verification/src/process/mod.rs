//! Processes, as far as files and devices deal with them.

pub mod iovec;

use vstd::prelude::*;

verus! {

/// The identifier of a process.
pub type Pid = u16;

/// What a process is doing.
#[derive(Clone, Copy, Debug, PartialEq, Eq, Structural)]
pub enum State {
    /// The process runs, or waits for its turn to run.
    Running,
    /// The process waits for an event, and gets no turn until it comes.
    Sleeping,
    /// The process was stopped by a signal.
    Stopped,
    /// The process has ended, and its status waits to be collected.
    Zombie,
}

/// A process.
#[derive(Clone, Copy, Debug, PartialEq, Eq, Structural)]
pub struct Process {
    /// The identifier of the process.
    pub pid: Pid,
    /// What the process is doing.
    pub state: State,
    /// The status with which the process ended. It means something only
    /// once the process has ended.
    pub exit_status: u32,
}

impl Process {
    /// Creates a running process with the identifier `pid`.
    pub fn new(pid: Pid) -> (r: Process)
        ensures
            r == (Process { pid, state: State::Running, exit_status: 0 }),
    {
        Process { pid, state: State::Running, exit_status: 0 }
    }

    /// Returns the identifier of the process.
    pub fn get_pid(&self) -> (r: Pid)
        ensures
            r == self.pid,
    {
        self.pid
    }

    /// Returns what the process is doing.
    pub fn get_state(&self) -> (r: State)
        ensures
            r == self.state,
    {
        self.state
    }

    /// Sets what the process is doing.
    pub fn set_state(&mut self, state: State)
        ensures
            *final(self) == (Process { state, ..*old(self) }),
    {
        self.state = state;
    }

    /// Ends the process with the status `status`. The process stays as a
    /// zombie until its status is collected.
    pub fn exit(&mut self, status: u32)
        ensures
            *final(self) == (Process { state: State::Zombie, exit_status: status, ..*old(self) }),
    {
        self.exit_status = status;
        self.state = State::Zombie;
    }
}

} // verus!
