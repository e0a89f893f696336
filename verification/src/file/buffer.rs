//! Buffers: what stands behind pipes and sockets.
//!
//! A buffer counts the ends that are open on it, and holds the processes
//! that wait for it. The buffers of the system are kept in a table, each
//! under the location of its file.

use crate::errno::Errno;
use crate::file::FileLocation;
use crate::process::Pid;
use crate::process::Process;
use crate::process::State;
use crate::util::assoc::assoc_map;
use crate::util::assoc::distinct_keys;
use crate::util::assoc::has_key;
use crate::util::assoc::lemma_assoc_keys;
use crate::util::assoc::lemma_assoc_push;
use crate::util::assoc::lemma_assoc_update;
use crate::util::assoc::lemma_assoc_value;
use crate::util::io::BlockHandler;
use vstd::prelude::*;

verus! {

/// A buffer.
pub struct Buffer {
    read_ends: u32,
    write_ends: u32,
    block_handler: BlockHandler,
}

/// What a buffer amounts to.
pub struct BufferState {
    /// The number of ends open for reading.
    pub read_ends: u32,
    /// The number of ends open for writing.
    pub write_ends: u32,
    /// The processes that wait for the buffer, each with the events it
    /// waits for.
    pub waiting: Seq<(Pid, u32)>,
}

impl BufferState {
    /// This state with one more end open for reading if `read` holds, and
    /// one more for writing if `write` holds.
    pub open spec fn opened(self, read: bool, write: bool) -> BufferState {
        BufferState {
            read_ends: if read {
                (self.read_ends + 1) as u32
            } else {
                self.read_ends
            },
            write_ends: if write {
                (self.write_ends + 1) as u32
            } else {
                self.write_ends
            },
            ..self
        }
    }

    /// Whether one more end can be counted for reading if `read` holds,
    /// and for writing if `write` holds.
    pub open spec fn can_open(self, read: bool, write: bool) -> bool {
        &&& read ==> self.read_ends < u32::MAX
        &&& write ==> self.write_ends < u32::MAX
    }

    /// This state with one end less open for reading if `read` holds, and
    /// one less for writing if `write` holds.
    pub open spec fn closed(self, read: bool, write: bool) -> BufferState {
        BufferState {
            read_ends: if read {
                (self.read_ends - 1) as u32
            } else {
                self.read_ends
            },
            write_ends: if write {
                (self.write_ends - 1) as u32
            } else {
                self.write_ends
            },
            ..self
        }
    }

    /// Whether an end is open for reading if `read` holds, and for writing
    /// if `write` holds.
    pub open spec fn can_close(self, read: bool, write: bool) -> bool {
        &&& read ==> self.read_ends > 0
        &&& write ==> self.write_ends > 0
    }

    /// This state with the process `pid` waiting for the events of `mask`.
    pub open spec fn awaited(self, pid: Pid, mask: u32) -> BufferState {
        BufferState { waiting: self.waiting.push((pid, mask)), ..self }
    }
}

impl View for Buffer {
    type V = BufferState;

    closed spec fn view(&self) -> BufferState {
        BufferState {
            read_ends: self.read_ends,
            write_ends: self.write_ends,
            waiting: self.block_handler@,
        }
    }
}

impl Buffer {
    /// Creates a buffer with no end open and no process waiting.
    pub fn new() -> (r: Buffer)
        ensures
            r@ == (BufferState { read_ends: 0, write_ends: 0, waiting: Seq::empty() }),
    {
        Buffer { read_ends: 0, write_ends: 0, block_handler: BlockHandler::new() }
    }

    /// Returns the number of ends open for reading.
    pub fn get_read_ends(&self) -> (r: u32)
        ensures
            r == self@.read_ends,
    {
        self.read_ends
    }

    /// Returns the number of ends open for writing.
    pub fn get_write_ends(&self) -> (r: u32)
        ensures
            r == self@.write_ends,
    {
        self.write_ends
    }

    /// Returns the number of processes that wait for the buffer.
    pub fn waiting_count(&self) -> (r: usize)
        ensures
            r == self@.waiting.len(),
    {
        self.block_handler.waiting_count()
    }

    /// Counts one more end open for reading if `read` holds, and one more
    /// for writing if `write` holds.
    pub fn increment_open(&mut self, read: bool, write: bool)
        requires
            old(self)@.can_open(read, write),
        ensures
            final(self)@ == old(self)@.opened(read, write),
    {
        if read {
            self.read_ends += 1;
        }
        if write {
            self.write_ends += 1;
        }
    }

    /// Counts one end less open for reading if `read` holds, and one less
    /// for writing if `write` holds.
    pub fn decrement_open(&mut self, read: bool, write: bool)
        requires
            old(self)@.can_close(read, write),
        ensures
            final(self)@ == old(self)@.closed(read, write),
    {
        if read {
            self.read_ends -= 1;
        }
        if write {
            self.write_ends -= 1;
        }
    }

    /// Makes `proc` wait for the events of `mask` on the buffer: the
    /// process is put to sleep and added to the waiting processes.
    pub fn add_waiting_process(&mut self, proc: &mut Process, mask: u32) -> (r: Result<(), Errno>)
        ensures
            r is Ok,
            final(self)@ == old(self)@.awaited(old(proc).pid, mask),
            *final(proc) == (Process { state: State::Sleeping, ..*old(proc) }),
    {
        self.block_handler.add_waiting_process(proc, mask)
    }
}

/// The buffers of the system, each under the location of its file.
pub struct BufferTable {
    buffers: Vec<(FileLocation, Buffer)>,
}

spec fn buffer_entries(buffers: Seq<(FileLocation, Buffer)>) -> Seq<(FileLocation, BufferState)> {
    buffers.map_values(|e: (FileLocation, Buffer)| (e.0, e.1@))
}

impl View for BufferTable {
    type V = Map<FileLocation, BufferState>;

    closed spec fn view(&self) -> Map<FileLocation, BufferState> {
        assoc_map(buffer_entries(self.buffers@))
    }
}

impl BufferTable {
    /// Whether the table is consistent: no location occurs twice in it.
    /// Every operation keeps this.
    pub closed spec fn inv(&self) -> bool {
        distinct_keys(buffer_entries(self.buffers@))
    }

    /// Creates a table without a buffer.
    pub fn new() -> (r: BufferTable)
        ensures
            r.inv(),
            r@ == Map::<FileLocation, BufferState>::empty(),
    {
        BufferTable { buffers: Vec::new() }
    }

    /// Returns the position of the buffer at `loc`.
    fn find(&self, loc: &FileLocation) -> (r: Option<usize>)
        ensures
            r matches Some(i) ==> i < self.buffers@.len() && self.buffers@[i as int].0 == *loc,
            r is None ==> !has_key(buffer_entries(self.buffers@), *loc),
            r is Some <==> self@.contains_key(*loc),
    {
        proof {
            lemma_assoc_keys(buffer_entries(self.buffers@), *loc);
        }
        let mut i: usize = 0;
        while i < self.buffers.len()
            invariant
                i <= self.buffers@.len(),
                forall|k: int| 0 <= k < i ==> self.buffers@[k].0 != *loc,
            decreases self.buffers@.len() - i,
        {
            if self.buffers[i].0 == *loc {
                proof {
                    assert(buffer_entries(self.buffers@)[i as int].0 == *loc);
                    lemma_assoc_keys(buffer_entries(self.buffers@), *loc);
                }
                return Some(i);
            }
            i += 1;
        }
        assert forall|k: int| 0 <= k < buffer_entries(self.buffers@).len() implies (
        #[trigger] buffer_entries(self.buffers@)[k]).0 != *loc by {
            assert(self.buffers@[k].0 != *loc);
        }
        None
    }

    /// Tells whether there is a buffer at `loc`.
    pub fn contains(&self, loc: &FileLocation) -> (r: bool)
        ensures
            r == self@.contains_key(*loc),
    {
        self.find(loc).is_some()
    }

    /// Returns the buffer at `loc`, if there is one.
    pub fn get(&self, loc: &FileLocation) -> (r: Option<&Buffer>)
        requires
            self.inv(),
        ensures
            r is Some <==> self@.contains_key(*loc),
            r matches Some(buffer) ==> buffer@ == self@[*loc],
    {
        match self.find(loc) {
            Some(i) => {
                proof {
                    lemma_assoc_value(buffer_entries(self.buffers@), i as int);
                }
                Some(&self.buffers[i].1)
            },
            None => None,
        }
    }

    /// Puts `buffer` into the table at `loc`. Returns `false`, and leaves
    /// the table as it is, if there is a buffer at `loc` already.
    pub fn insert(&mut self, loc: FileLocation, buffer: Buffer) -> (r: bool)
        requires
            old(self).inv(),
        ensures
            final(self).inv(),
            r == !old(self)@.contains_key(loc),
            final(self)@ == if r {
                old(self)@.insert(loc, buffer@)
            } else {
                old(self)@
            },
    {
        match self.find(&loc) {
            Some(_) => false,
            None => {
                proof {
                    lemma_assoc_push(buffer_entries(self.buffers@), loc, buffer@);
                    assert(buffer_entries(self.buffers@.push((loc, buffer))) =~= buffer_entries(
                        self.buffers@,
                    ).push((loc, buffer@)));
                }
                self.buffers.push((loc, buffer));
                true
            },
        }
    }

    /// Counts one more open end on the buffer at `loc`, if there is one:
    /// for reading if `read` holds, and for writing if `write` holds.
    pub fn increment_open(&mut self, loc: &FileLocation, read: bool, write: bool)
        requires
            old(self).inv(),
            old(self)@.contains_key(*loc) ==> old(self)@[*loc].can_open(read, write),
        ensures
            final(self).inv(),
            final(self)@ == if old(self)@.contains_key(*loc) {
                old(self)@.insert(*loc, old(self)@[*loc].opened(read, write))
            } else {
                old(self)@
            },
    {
        match self.find(loc) {
            Some(i) => {
                proof {
                    lemma_assoc_value(buffer_entries(self.buffers@), i as int);
                    lemma_assoc_update(
                        buffer_entries(self.buffers@),
                        i as int,
                        self.buffers@[i as int].1@.opened(read, write),
                    );
                }
                self.buffers[i].1.increment_open(read, write);
                assert(buffer_entries(self.buffers@) =~= buffer_entries(old(self).buffers@).update(
                    i as int,
                    (*loc, old(self).buffers@[i as int].1@.opened(read, write)),
                ));
            },
            None => {},
        }
    }

    /// Counts one open end less on the buffer at `loc`, if there is one:
    /// for reading if `read` holds, and for writing if `write` holds.
    pub fn decrement_open(&mut self, loc: &FileLocation, read: bool, write: bool)
        requires
            old(self).inv(),
            old(self)@.contains_key(*loc) ==> old(self)@[*loc].can_close(read, write),
        ensures
            final(self).inv(),
            final(self)@ == if old(self)@.contains_key(*loc) {
                old(self)@.insert(*loc, old(self)@[*loc].closed(read, write))
            } else {
                old(self)@
            },
    {
        match self.find(loc) {
            Some(i) => {
                proof {
                    lemma_assoc_value(buffer_entries(self.buffers@), i as int);
                    lemma_assoc_update(
                        buffer_entries(self.buffers@),
                        i as int,
                        self.buffers@[i as int].1@.closed(read, write),
                    );
                }
                self.buffers[i].1.decrement_open(read, write);
                assert(buffer_entries(self.buffers@) =~= buffer_entries(old(self).buffers@).update(
                    i as int,
                    (*loc, old(self).buffers@[i as int].1@.closed(read, write)),
                ));
            },
            None => {},
        }
    }

    /// Makes `proc` wait for the events of `mask` on the buffer at `loc`.
    /// Returns `None`, and changes nothing, if there is no buffer at `loc`.
    pub fn add_waiting_process(&mut self, loc: &FileLocation, proc: &mut Process, mask: u32) -> (r:
        Option<Result<(), Errno>>)
        requires
            old(self).inv(),
        ensures
            final(self).inv(),
            old(self)@.contains_key(*loc) ==> {
                &&& r matches Some(Ok(_))
                &&& final(self)@ == old(self)@.insert(
                    *loc,
                    old(self)@[*loc].awaited(old(proc).pid, mask),
                )
                &&& *final(proc) == (Process { state: State::Sleeping, ..*old(proc) })
            },
            !old(self)@.contains_key(*loc) ==> {
                &&& r is None
                &&& final(self)@ == old(self)@
                &&& *final(proc) == *old(proc)
            },
    {
        match self.find(loc) {
            Some(i) => {
                proof {
                    lemma_assoc_value(buffer_entries(self.buffers@), i as int);
                    lemma_assoc_update(
                        buffer_entries(self.buffers@),
                        i as int,
                        self.buffers@[i as int].1@.awaited(proc.pid, mask),
                    );
                }
                let r = self.buffers[i].1.add_waiting_process(proc, mask);
                assert(buffer_entries(self.buffers@) =~= buffer_entries(old(self).buffers@).update(
                    i as int,
                    (*loc, old(self).buffers@[i as int].1@.awaited(old(proc).pid, mask)),
                ));
                Some(r)
            },
            None => None,
        }
    }
}

} // verus!
