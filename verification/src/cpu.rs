//! The state of one processor core: its control registers, its interrupt
//! flag and its translation cache.
//!
//! The kernel reaches the hardware only through the operations of [`Cpu`].
//! Each of them says in its contract how the core's state changes, so that
//! code built on them can be reasoned about without the hardware at hand.

use crate::memory::down_align;
use crate::memory::is_page_aligned;
use crate::memory::page_base;
use crate::memory::page_of;
use crate::memory::page_offset;
use crate::memory::vmem::model::is_bound_to;
use crate::memory::vmem::model::translate_in;
use crate::memory::vmem::Mapping;
use crate::memory::vmem::VMem;
use crate::memory::PAGE_SIZE;
use vstd::prelude::*;

verus! {

/// The bit of the control register `cr0` that makes the core honour
/// read-only pages while it runs kernel code.
pub const CR0_WRITE_PROTECT: u32 = 0x10000;

/// One cached translation: the frame that a virtual page was found to map to.
struct TlbEntry {
    page: u32,
    frame: u32,
}

/// One processor core.
pub struct Cpu {
    cr0: u32,
    cr3: Option<u32>,
    interrupts: bool,
    tlb: Vec<TlbEntry>,
}

/// What a core's state amounts to.
pub struct CpuState {
    /// The control register `cr0`.
    pub cr0: u32,
    /// The handle of the address-space context that the core consults, if
    /// paging is on.
    pub context: Option<u32>,
    /// Whether the core takes interrupts.
    pub interrupts: bool,
    /// The translation cache: for each cached virtual page, by number, the
    /// address of the frame that it was found to map to.
    pub tlb: Map<int, u32>,
}

impl CpuState {
    /// The state of a core that has just been reset.
    pub open spec fn reset() -> CpuState {
        CpuState { cr0: 0, context: None, interrupts: false, tlb: Map::empty() }
    }

    /// This state with `cr0` in its control register.
    pub open spec fn with_cr0(self, cr0: u32) -> CpuState {
        CpuState { cr0, ..self }
    }

    /// This state with the interrupt flag set to `interrupts`.
    pub open spec fn with_interrupts(self, interrupts: bool) -> CpuState {
        CpuState { interrupts, ..self }
    }

    /// This state after the core was pointed at `context`, which empties the
    /// translation cache.
    pub open spec fn loaded(self, context: Option<u32>) -> CpuState {
        CpuState { context, tlb: Map::empty(), ..self }
    }

    /// This state without a cached translation for the page of `addr`.
    pub open spec fn invalidated(self, addr: u32) -> CpuState {
        CpuState { tlb: self.tlb.remove(page_of(addr)), ..self }
    }

    /// This state with an empty translation cache.
    pub open spec fn flushed(self) -> CpuState {
        CpuState { tlb: Map::empty(), ..self }
    }

    /// This state with the frame at `frame` cached for the page of `addr`.
    pub open spec fn cached(self, addr: u32, frame: u32) -> CpuState {
        CpuState { tlb: self.tlb.insert(page_of(addr), frame), ..self }
    }

    /// The frame that the core finds for the page of `ptr` while a context
    /// with the given mappings is bound: the cached one if the page is
    /// cached, and else the one that the context maps the page to.
    pub open spec fn frame_for(self, mappings: Map<int, Mapping>, ptr: u32) -> Option<u32> {
        if self.tlb.contains_key(page_of(ptr)) {
            Some(self.tlb[page_of(ptr)])
        } else if mappings.contains_key(page_of(ptr)) {
            Some(mappings[page_of(ptr)].phys)
        } else {
            None
        }
    }

    /// Whether the write-protect bit is set.
    pub open spec fn write_protect(self) -> bool {
        self.cr0 & CR0_WRITE_PROTECT != 0
    }

    /// This state with the write-protect bit set if `lock` holds, and
    /// cleared if not.
    pub open spec fn with_write_protect(self, lock: bool) -> CpuState {
        if lock {
            self.with_cr0(self.cr0 | CR0_WRITE_PROTECT)
        } else {
            self.with_cr0(self.cr0 & !CR0_WRITE_PROTECT)
        }
    }
}

/// Setting the write-protect bit to a value makes it that value, and setting
/// it to the value it has changes nothing.
pub proof fn lemma_with_write_protect(state: CpuState, lock: bool)
    ensures
        state.with_write_protect(lock).write_protect() == lock,
        state.write_protect() == lock ==> state.with_write_protect(lock) == state,
{
    let cr0 = state.cr0;
    assert((cr0 | 0x10000u32) & 0x10000u32 != 0) by (bit_vector);
    assert((cr0 & !0x10000u32) & 0x10000u32 == 0) by (bit_vector);
    assert(cr0 & 0x10000u32 != 0 ==> cr0 | 0x10000u32 == cr0) by (bit_vector);
    assert(cr0 & 0x10000u32 == 0 ==> cr0 & !0x10000u32 == cr0) by (bit_vector);
}

/// Whether a translation cache holds nothing but what a context with the
/// given mappings says: every cached page is mapped, and to the cached frame.
pub open spec fn tlb_coherent(tlb: Map<int, u32>, mappings: Map<int, Mapping>) -> bool {
    forall|page: int| #[trigger]
        tlb.contains_key(page) ==> mappings.contains_key(page) && mappings[page].phys == tlb[page]
}

/// The translations that a list of cache entries holds. Where a page occurs
/// twice, the later entry counts.
spec fn tlb_view(entries: Seq<TlbEntry>) -> Map<int, u32>
    decreases entries.len(),
{
    if entries.len() == 0 {
        Map::empty()
    } else {
        tlb_view(entries.drop_last()).insert(
            entries.last().page as int,
            page_base(entries.last().frame),
        )
    }
}

proof fn lemma_tlb_view_push(entries: Seq<TlbEntry>, entry: TlbEntry)
    ensures
        tlb_view(entries.push(entry)) == tlb_view(entries).insert(
            entry.page as int,
            page_base(entry.frame),
        ),
{
    assert(entries.push(entry).drop_last() =~= entries);
}

impl View for Cpu {
    type V = CpuState;

    closed spec fn view(&self) -> CpuState {
        CpuState {
            cr0: self.cr0,
            context: self.cr3,
            interrupts: self.interrupts,
            tlb: tlb_view(self.tlb@),
        }
    }
}

impl Cpu {
    /// Creates a core in its reset state: paging off, interrupts off, the
    /// control register cleared, nothing cached.
    pub fn new() -> (r: Cpu)
        ensures
            r@ == CpuState::reset(),
    {
        Cpu { cr0: 0, cr3: None, interrupts: false, tlb: Vec::new() }
    }

    /// Reads the control register `cr0`.
    pub fn cr0_get(&self) -> (r: u32)
        ensures
            r == self@.cr0,
    {
        self.cr0
    }

    /// Sets the bits of `flags` in the control register `cr0`.
    pub fn cr0_set(&mut self, flags: u32)
        ensures
            final(self)@ == old(self)@.with_cr0(old(self)@.cr0 | flags),
    {
        self.cr0 = self.cr0 | flags;
    }

    /// Clears the bits of `flags` in the control register `cr0`.
    pub fn cr0_clear(&mut self, flags: u32)
        ensures
            final(self)@ == old(self)@.with_cr0(old(self)@.cr0 & !flags),
    {
        self.cr0 = self.cr0 & !flags;
    }

    /// Reads the handle of the context that the core consults: `None` while
    /// paging is off.
    pub fn cr3_get(&self) -> (r: Option<u32>)
        ensures
            r == self@.context,
    {
        self.cr3
    }

    /// Turns paging on with the context whose handle is `context`. Whatever
    /// the core had cached belongs to the context before and is dropped.
    pub fn paging_enable(&mut self, context: u32)
        ensures
            final(self)@ == old(self)@.loaded(Some(context)),
    {
        self.cr3 = Some(context);
        self.tlb.clear();
    }

    /// Turns paging off, and drops what the core had cached.
    pub fn paging_disable(&mut self)
        ensures
            final(self)@ == old(self)@.loaded(None),
    {
        self.cr3 = None;
        self.tlb.clear();
    }

    /// Tells whether the core takes interrupts.
    pub fn is_interrupt_enabled(&self) -> (r: bool)
        ensures
            r == self@.interrupts,
    {
        self.interrupts
    }

    /// Makes the core take interrupts, or not.
    pub fn set_interrupts(&mut self, enabled: bool)
        ensures
            final(self)@ == old(self)@.with_interrupts(enabled),
    {
        self.interrupts = enabled;
    }

    /// Looks the page of `addr` up in the translation cache, and returns the
    /// address of the frame cached for it.
    fn tlb_lookup(&self, addr: u32) -> (r: Option<u32>)
        ensures
            r is Some <==> self@.tlb.contains_key(page_of(addr)),
            r matches Some(frame) ==> frame == self@.tlb[page_of(addr)] && is_page_aligned(frame),
    {
        let page = addr / (PAGE_SIZE as u32);
        let mut i = self.tlb.len();
        proof {
            assert(self.tlb@.take(i as int) =~= self.tlb@);
        }
        while i > 0
            invariant
                i <= self.tlb@.len(),
                page as int == page_of(addr),
                tlb_view(self.tlb@).contains_key(page as int) <==> tlb_view(
                    self.tlb@.take(i as int),
                ).contains_key(page as int),
                tlb_view(self.tlb@).contains_key(page as int) ==> tlb_view(self.tlb@)[page as int]
                    == tlb_view(self.tlb@.take(i as int))[page as int],
            decreases i,
        {
            i -= 1;
            proof {
                assert(self.tlb@.take(i + 1).drop_last() =~= self.tlb@.take(i as int));
            }
            if self.tlb[i].page == page {
                return Some(down_align(self.tlb[i].frame));
            }
        }
        None
    }

    /// Caches the frame of `frame` for the page of `addr`, in place of what
    /// was cached for that page.
    fn tlb_fill(&mut self, addr: u32, frame: u32)
        ensures
            final(self)@ == old(self)@.cached(addr, page_base(frame)),
    {
        let entry = TlbEntry { page: addr / (PAGE_SIZE as u32), frame };
        proof {
            lemma_tlb_view_push(self.tlb@, entry);
        }
        self.tlb.push(entry);
    }

    /// Drops the cached translation of the page of `addr`, if there is one.
    pub fn invlpg(&mut self, addr: u32)
        ensures
            final(self)@ == old(self)@.invalidated(addr),
    {
        let page = addr / (PAGE_SIZE as u32);
        let mut kept: Vec<TlbEntry> = Vec::new();
        let mut i: usize = 0;
        while i < self.tlb.len()
            invariant
                i <= self.tlb@.len(),
                page as int == page_of(addr),
                tlb_view(kept@) == tlb_view(self.tlb@.take(i as int)).remove(page as int),
            decreases self.tlb@.len() - i,
        {
            let entry = TlbEntry { page: self.tlb[i].page, frame: self.tlb[i].frame };
            proof {
                assert(self.tlb@.take(i + 1).drop_last() =~= self.tlb@.take(i as int));
                lemma_tlb_view_push(kept@, entry);
                let before = tlb_view(self.tlb@.take(i as int));
                let frame = page_base(entry.frame);
                if entry.page == page {
                    assert(before.insert(page as int, frame).remove(page as int) =~= before.remove(
                        page as int,
                    ));
                } else {
                    assert(before.insert(entry.page as int, frame).remove(page as int)
                        =~= before.remove(page as int).insert(entry.page as int, frame));
                }
            }
            if entry.page != page {
                kept.push(entry);
            }
            i += 1;
        }
        proof {
            assert(self.tlb@.take(self.tlb@.len() as int) =~= self.tlb@);
        }
        self.tlb = kept;
    }

    /// Translates `ptr` as the core does while it runs under the bound
    /// context `vmem`: from the translation cache if the page of `ptr` is
    /// cached, and else from `vmem`, caching what it finds there. Returns
    /// `None` if the page is neither cached nor mapped.
    ///
    /// A cache that is coherent with `vmem` stays so, and the result is then
    /// what `vmem` itself translates `ptr` to.
    pub fn access<V: VMem>(&mut self, vmem: &V, ptr: u32) -> (r: Option<u32>)
        requires
            vmem.inv(),
            is_bound_to(vmem.handle(), old(self)@),
        ensures
            r == match old(self)@.frame_for(vmem@, ptr) {
                Some(frame) => Some((frame + page_offset(ptr)) as u32),
                None => None,
            },
            final(self)@ == match old(self)@.frame_for(vmem@, ptr) {
                Some(frame) => old(self)@.cached(ptr, frame),
                None => old(self)@,
            },
            tlb_coherent(old(self)@.tlb, vmem@) ==> r == translate_in(vmem@, ptr) && tlb_coherent(
                final(self)@.tlb,
                vmem@,
            ),
    {
        proof {
            vmem.lemma_inv_mappings();
        }
        let offset = ptr % (PAGE_SIZE as u32);
        match self.tlb_lookup(ptr) {
            Some(frame) => {
                assert(self@.tlb.insert(page_of(ptr), frame) =~= self@.tlb);
                Some(frame + offset)
            },
            None => match vmem.translate(ptr) {
                Some(phys) => {
                    self.tlb_fill(ptr, phys - offset);
                    Some(phys)
                },
                None => None,
            },
        }
    }

    /// Drops every cached translation.
    pub fn tlb_reload(&mut self)
        ensures
            final(self)@ == old(self)@.flushed(),
    {
        self.tlb.clear();
    }
}

} // verus!
