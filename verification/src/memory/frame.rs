//! The pool of free physical frames.

use crate::errno::AllocError;
use crate::errno::AllocResult;
use crate::memory::down_align;
use crate::memory::is_page_aligned;
use crate::memory::page_base;
use crate::memory::PAGE_SIZE;
use vstd::prelude::*;

verus! {

/// A pool of free physical frames, each one page large.
///
/// Frames leave the pool in the reverse of the order in which they entered
/// it. When the pool is empty an allocation fails at once: it never waits and
/// never hands out more frames than it holds.
pub struct FrameAllocator {
    free: Vec<u32>,
}

impl View for FrameAllocator {
    type V = Seq<u32>;

    /// The addresses of the free frames; the last one is the next to leave.
    closed spec fn view(&self) -> Seq<u32> {
        self.free@.map_values(|f: u32| page_base(f))
    }
}

impl FrameAllocator {
    /// Creates a pool of the `count` frames that begin at `base`.
    pub fn new(base: u32, count: usize) -> (r: Self)
        requires
            is_page_aligned(base),
            base + count * 4096 <= 0x1_0000_0000,
        ensures
            r@.len() == count,
            forall|i: int| 0 <= i < count ==> r@[i] == base + i * 4096,
    {
        let mut free: Vec<u32> = Vec::new();
        let mut i: usize = 0;
        while i < count
            invariant
                i <= count,
                is_page_aligned(base),
                base + count * 4096 <= 0x1_0000_0000,
                free@.len() == i,
                forall|k: int| 0 <= k < i ==> #[trigger] free@[k] == base + k * 4096,
            decreases count - i,
        {
            free.push(base + (i * PAGE_SIZE) as u32);
            i += 1;
        }
        FrameAllocator { free }
    }

    /// Returns the number of free frames.
    pub fn available(&self) -> (r: usize)
        ensures
            r == self@.len(),
    {
        self.free.len()
    }

    /// Takes a frame out of the pool: the one that entered it last. Fails if
    /// and only if the pool is empty, and then leaves it as it is.
    pub fn alloc_frame(&mut self) -> (r: AllocResult<u32>)
        ensures
            old(self)@.len() == 0 ==> r is Err && final(self)@ == old(self)@,
            old(self)@.len() > 0 ==> r == Ok::<u32, AllocError>(old(self)@.last())
                && final(self)@ == old(self)@.drop_last(),
            r matches Ok(frame) ==> is_page_aligned(frame),
    {
        match self.free.pop() {
            Some(frame) => {
                assert(self@ =~= old(self)@.drop_last());
                Ok(down_align(frame))
            },
            None => Err(AllocError),
        }
    }

    /// Gives the frame that holds the address `frame` back to the pool.
    pub fn free_frame(&mut self, frame: u32)
        ensures
            final(self)@ == old(self)@.push(page_base(frame)),
    {
        self.free.push(frame);
        assert(self@ =~= old(self)@.push(page_base(frame)));
    }
}

} // verus!
