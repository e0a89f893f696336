//! Address-space contexts.
//!
//! A context is one isolated view of memory: a partial map from virtual
//! pages to physical frames, each with a set of flags. [`VMem`] is the
//! interface that the rest of the kernel programs against; one type per
//! architecture implements it on that architecture's page tables.
//!
//! Around the interface stand the two protocols that touch the state of the
//! core: [`switch`], which runs a closure under another context and comes
//! back, and [`write_lock_wrap`], which runs a closure with the write lock
//! off and puts the lock back.
//!
//! The contracts are stated over the functions of [`model`].

pub mod model;
pub mod x86;

use crate::cpu::lemma_with_write_protect;
use crate::cpu::Cpu;
use crate::cpu::CpuState;
use crate::cpu::CR0_WRITE_PROTECT;
use crate::errno::AllocResult;
use crate::memory::frame::FrameAllocator;
use crate::memory::is_kernel_addr;
use crate::memory::is_page_aligned;
use crate::memory::kern_to_phys;
use crate::memory::kern_to_virt;
use crate::memory::page_count;
use crate::memory::page_of;
use crate::memory::spec_kern_to_virt;
use crate::memory::vmem::model::frames_kept;
use crate::memory::vmem::model::is_bound_to;
use crate::memory::vmem::model::map_one;
use crate::memory::vmem::model::map_pages;
use crate::memory::vmem::model::mappings_wf;
use crate::memory::vmem::model::model;
use crate::memory::vmem::model::outcome;
use crate::memory::vmem::model::protect_sections;
use crate::memory::vmem::model::translate_in;
use crate::memory::vmem::model::unmap_one;
use crate::memory::vmem::model::unmap_pages;
use crate::memory::vmem::model::Costs;
use crate::memory::vmem::x86::X86VMem;
use crate::memory::PAGE_SIZE;
use crate::util::math::ceil_div;
use crate::util::math::lemma_ceil_div_covers;
use crate::util::math::spec_ceil_div;
use vstd::prelude::*;

verus! {

/// Flag of a mapping: the page can be written to.
pub const FLAG_WRITE: u32 = 0b010;

/// Flag of a mapping: the page can be reached from user mode.
pub const FLAG_USER: u32 = 0b100;

/// The flags that the protected sections of the kernel are mapped with:
/// neither writable nor reachable from user mode.
pub const FLAGS_PROTECTED: u32 = 0;

/// What a virtual page is mapped to.
#[derive(Clone, Copy, Debug, PartialEq, Eq, Structural)]
pub struct Mapping {
    /// The address of the physical frame.
    pub phys: u32,
    /// The flags of the mapping.
    pub flags: u32,
}

/// A section of the kernel image, as the boot loader reports it.
#[derive(Clone, Copy, Debug, PartialEq, Eq, Structural)]
pub struct KernelSection {
    /// The address at which the section begins.
    pub addr: u32,
    /// The size of the section in bytes.
    pub size: u32,
    /// Whether the kernel writes to the section.
    pub writable: bool,
}

impl KernelSection {
    /// Whether the section is one that gets protected: it is not writable
    /// and begins with a page.
    pub open spec fn is_protected(self) -> bool {
        !self.writable && is_page_aligned(self.addr)
    }

    /// The number of pages that the section covers.
    pub open spec fn pages(self) -> nat {
        spec_ceil_div(self.size as int, 4096) as nat
    }

    /// Whether the section lies in kernel memory and ends within the address
    /// space.
    pub open spec fn fits(self) -> bool {
        &&& is_kernel_addr(self.addr)
        &&& page_of(spec_kern_to_virt(self.addr)) + self.pages() <= page_count()
    }
}

/// An interface to an address-space context, for any architecture.
///
/// The operations take the core and the pool of frames that they work on. A
/// context does not lock itself: callers that share one serialise their
/// calls.
pub trait VMem: Sized {
    /// Whether the structures of the context are consistent. Every operation
    /// keeps this.
    spec fn inv(&self) -> bool;

    /// The mappings of the context, by the number of the virtual page.
    spec fn view(&self) -> Map<int, Mapping>;

    /// The handle by which the hardware knows the context.
    spec fn handle(&self) -> u32;

    /// The frames that the structures of the context live in.
    spec fn held_frames(&self) -> vstd::multiset::Multiset<u32>;

    /// The number of frames that mapping `page` takes from the pool, in a
    /// context with the given mappings.
    spec fn map_cost(mappings: Map<int, Mapping>, page: int) -> nat;

    /// The number of frames that must be free for unmapping `page` to go
    /// through, in a context with the given mappings.
    spec fn unmap_cost(mappings: Map<int, Mapping>, page: int) -> nat;

    /// The number of frames that unmapping `page` gives back to the pool, in
    /// a context with the given mappings.
    spec fn unmap_gain(mappings: Map<int, Mapping>, page: int) -> nat;

    /// The number of frames that a copy of a context with the given mappings
    /// takes from the pool.
    spec fn clone_cost(mappings: Map<int, Mapping>) -> nat;

    /// The three costs of mapping and unmapping, as one value.
    open spec fn costs() -> Costs {
        Costs {
            map: |m: Map<int, Mapping>, page: int| Self::map_cost(m, page),
            unmap: |m: Map<int, Mapping>, page: int| Self::unmap_cost(m, page),
            unmap_gain: |m: Map<int, Mapping>, page: int| Self::unmap_gain(m, page),
        }
    }

    /// The mappings of a consistent context are well formed.
    proof fn lemma_inv_mappings(&self)
        requires
            self.inv(),
        ensures
            mappings_wf(self@),
    ;

    /// Translates the virtual address `ptr` to the physical address behind
    /// it. Returns `None` if the page of `ptr` is not mapped.
    fn translate(&self, ptr: u32) -> (r: Option<u32>)
        requires
            self.inv(),
        ensures
            r == translate_in(self@, ptr),
    ;

    /// Tells whether the page of `ptr` is mapped.
    fn is_mapped(&self, ptr: u32) -> (r: bool)
        requires
            self.inv(),
        ensures
            r == self@.contains_key(page_of(ptr)),
    {
        self.translate(ptr).is_some()
    }

    /// Maps the page of `virtaddr` to the frame of `physaddr` with `flags`,
    /// in place of what the page was mapped to.
    ///
    /// Fails if and only if the pool holds fewer frames than the mapping
    /// takes; nothing has changed then. On success the core's cached
    /// translation of the page is dropped.
    fn map(
        &mut self,
        cpu: &mut Cpu,
        frames: &mut FrameAllocator,
        physaddr: u32,
        virtaddr: u32,
        flags: u32,
    ) -> (r: AllocResult<()>)
        requires
            old(self).inv(),
        ensures
            final(self).inv(),
            final(self).handle() == old(self).handle(),
            frames_kept(
                old(frames)@,
                old(self).held_frames(),
                final(frames)@,
                final(self).held_frames(),
            ),
            outcome(
                final(self)@,
                final(cpu)@,
                final(frames)@,
                r is Ok,
                old(cpu)@,
                map_one(
                    Self::costs(),
                    model(old(self)@, old(cpu)@, old(frames)@),
                    page_of(physaddr),
                    page_of(virtaddr),
                    flags,
                ),
            ),
            final(frames)@.len() <= old(frames)@.len(),
            final(frames)@ == old(frames)@.take(final(frames)@.len() as int),
    ;

    /// Maps `pages` pages, beginning with the page of `virtaddr`, to as many
    /// frames, beginning with the frame of `physaddr`: one page after the
    /// other, as [`VMem::map`] does.
    ///
    /// Stops at the first page that cannot be mapped, and fails. The pages
    /// before it stay mapped.
    fn map_range(
        &mut self,
        cpu: &mut Cpu,
        frames: &mut FrameAllocator,
        physaddr: u32,
        virtaddr: u32,
        pages: usize,
        flags: u32,
    ) -> (r: AllocResult<()>)
        requires
            old(self).inv(),
            page_of(physaddr) + pages <= page_count(),
            page_of(virtaddr) + pages <= page_count(),
        ensures
            final(self).inv(),
            final(self).handle() == old(self).handle(),
            frames_kept(
                old(frames)@,
                old(self).held_frames(),
                final(frames)@,
                final(self).held_frames(),
            ),
            outcome(
                final(self)@,
                final(cpu)@,
                final(frames)@,
                r is Ok,
                old(cpu)@,
                map_pages(
                    Self::costs(),
                    model(old(self)@, old(cpu)@, old(frames)@),
                    page_of(physaddr),
                    page_of(virtaddr),
                    pages as nat,
                    flags,
                ),
            ),
            final(frames)@.len() <= old(frames)@.len(),
            final(frames)@ == old(frames)@.take(final(frames)@.len() as int),
    ;

    /// Unmaps the page of `virtaddr`.
    ///
    /// Fails if and only if the pool holds fewer frames than unmapping the
    /// page needs; nothing has changed then. On success the core's cached
    /// translation of the page is dropped.
    fn unmap(&mut self, cpu: &mut Cpu, frames: &mut FrameAllocator, virtaddr: u32) -> (r:
        AllocResult<()>)
        requires
            old(self).inv(),
        ensures
            final(self).inv(),
            final(self).handle() == old(self).handle(),
            frames_kept(
                old(frames)@,
                old(self).held_frames(),
                final(frames)@,
                final(self).held_frames(),
            ),
            outcome(
                final(self)@,
                final(cpu)@,
                final(frames)@,
                r is Ok,
                old(cpu)@,
                unmap_one(
                    Self::costs(),
                    model(old(self)@, old(cpu)@, old(frames)@),
                    page_of(virtaddr),
                ),
            ),
    ;

    /// Unmaps `pages` pages, beginning with the page of `virtaddr`: one page
    /// after the other, as [`VMem::unmap`] does.
    ///
    /// Stops at the first page that cannot be unmapped, and fails. The pages
    /// before it stay unmapped.
    fn unmap_range(
        &mut self,
        cpu: &mut Cpu,
        frames: &mut FrameAllocator,
        virtaddr: u32,
        pages: usize,
    ) -> (r: AllocResult<()>)
        requires
            old(self).inv(),
            page_of(virtaddr) + pages <= page_count(),
        ensures
            final(self).inv(),
            final(self).handle() == old(self).handle(),
            frames_kept(
                old(frames)@,
                old(self).held_frames(),
                final(frames)@,
                final(self).held_frames(),
            ),
            outcome(
                final(self)@,
                final(cpu)@,
                final(frames)@,
                r is Ok,
                old(cpu)@,
                unmap_pages(
                    Self::costs(),
                    model(old(self)@, old(cpu)@, old(frames)@),
                    page_of(virtaddr),
                    pages as nat,
                ),
            ),
    ;

    /// Makes this context the one that the core consults. Does nothing if it
    /// is that already.
    fn bind(&self, cpu: &mut Cpu)
        requires
            self.inv(),
        ensures
            final(cpu)@ == if is_bound_to(self.handle(), old(cpu)@) {
                old(cpu)@
            } else {
                old(cpu)@.loaded(Some(self.handle()))
            },
    ;

    /// Tells whether this context is the one that the core consults.
    fn is_bound(&self, cpu: &Cpu) -> (r: bool)
        requires
            self.inv(),
        ensures
            r == is_bound_to(self.handle(), cpu@),
    ;

    /// Drops the core's cached translation of the page of `addr`.
    fn invalidate_page(&self, cpu: &mut Cpu, addr: u32)
        requires
            self.inv(),
        ensures
            final(cpu)@ == old(cpu)@.invalidated(addr),
    ;

    /// Drops all that the core has cached of this context. Does nothing if
    /// the context is not bound.
    fn flush(&self, cpu: &mut Cpu)
        requires
            self.inv(),
        ensures
            final(cpu)@ == if is_bound_to(self.handle(), old(cpu)@) {
                old(cpu)@.flushed()
            } else {
                old(cpu)@
            },
    ;

    /// Protects the read-only sections of the kernel from writing.
    ///
    /// Goes through `sections` in order. A section that is not writable and
    /// begins with a page is mapped again, page by page, with
    /// [`FLAGS_PROTECTED`], at its place in kernel space; the others are
    /// passed over. Stops at the first page that cannot be mapped, and fails:
    /// what was protected before stays protected.
    fn protect_kernel(
        &mut self,
        cpu: &mut Cpu,
        frames: &mut FrameAllocator,
        sections: &[KernelSection],
    ) -> (r: AllocResult<()>)
        requires
            old(self).inv(),
            forall|i: int|
                0 <= i < sections@.len() && (#[trigger] sections@[i]).is_protected()
                    ==> sections@[i].fits(),
        ensures
            final(self).inv(),
            final(self).handle() == old(self).handle(),
            frames_kept(
                old(frames)@,
                old(self).held_frames(),
                final(frames)@,
                final(self).held_frames(),
            ),
            outcome(
                final(self)@,
                final(cpu)@,
                final(frames)@,
                r is Ok,
                old(cpu)@,
                protect_sections(
                    Self::costs(),
                    model(old(self)@, old(cpu)@, old(frames)@),
                    sections@,
                ),
            ),
            final(frames)@.len() <= old(frames)@.len(),
            final(frames)@ == old(frames)@.take(final(frames)@.len() as int),
    {
        let ghost costs = Self::costs();
        let ghost expected = protect_sections(costs, model(self@, cpu@, frames@), sections@);
        let mut i: usize = 0;
        assert(sections@.skip(0) =~= sections@);
        while i < sections.len()
            invariant
                i <= sections@.len(),
                self.inv(),
                self.handle() == old(self).handle(),
                costs == Self::costs(),
                forall|k: int|
                    0 <= k < sections@.len() && (#[trigger] sections@[k]).is_protected()
                        ==> sections@[k].fits(),
                cpu@ == (CpuState { tlb: cpu@.tlb, ..old(cpu)@ }),
                frames@.len() <= old(frames)@.len(),
                frames@ == old(frames)@.take(frames@.len() as int),
                frames_kept(old(frames)@, old(self).held_frames(), frames@, self.held_frames()),
                expected == protect_sections(
                    costs,
                    model(old(self)@, old(cpu)@, old(frames)@),
                    sections@,
                ),
                protect_sections(costs, model(self@, cpu@, frames@), sections@.skip(i as int))
                    == expected,
            decreases sections@.len() - i,
        {
            let section = sections[i];
            proof {
                assert(sections@.skip(i as int).first() == section);
                assert(sections@.skip(i as int).drop_first() =~= sections@.skip(i + 1));
            }
            if !section.writable && section.addr % (PAGE_SIZE as u32) == 0 {
                let physaddr = kern_to_phys(section.addr);
                let virtaddr = kern_to_virt(section.addr);
                let pages = ceil_div(section.size, PAGE_SIZE as u32) as usize;
                proof {
                    assert(section.fits());
                    lemma_ceil_div_covers(section.size as int, 4096);
                }
                let ghost frames_before = frames@;
                let r = self.map_range(cpu, frames, physaddr, virtaddr, pages, FLAGS_PROTECTED);
                assert(frames@.len() <= frames_before.len());
                assert(frames@ =~= old(frames)@.take(frames@.len() as int));
                match r {
                    Ok(()) => {},
                    Err(e) => {
                        return Err(e);
                    },
                }
            }
            i += 1;
        }
        Ok(())
    }

    /// Makes an independent context with the same mappings.
    ///
    /// Fails if and only if the pool holds fewer frames than the copy takes,
    /// and then leaves the pool as it was.
    fn try_clone(&self, frames: &mut FrameAllocator) -> (r: AllocResult<Self>)
        requires
            self.inv(),
        ensures
            r is Ok <==> Self::clone_cost(self@) <= old(frames)@.len(),
            r is Err ==> final(frames)@ == old(frames)@,
            r matches Ok(copy) ==> {
                &&& copy.inv()
                &&& copy@ == self@
                &&& final(frames)@ == old(frames)@.take(
                    old(frames)@.len() - Self::clone_cost(self@),
                )
                &&& frames_kept(
                    old(frames)@,
                    vstd::multiset::Multiset::empty(),
                    final(frames)@,
                    copy.held_frames(),
                )
            },
    ;
}

/// Creates a context without a mapping, for the architecture that the kernel
/// runs on.
///
/// Fails if and only if the pool is empty.
pub fn new(frames: &mut FrameAllocator) -> (r: AllocResult<X86VMem>)
    ensures
        r is Ok <==> old(frames)@.len() > 0,
        r is Err ==> final(frames)@ == old(frames)@,
        r matches Ok(vmem) ==> {
            &&& vmem.inv()
            &&& vmem@ == Map::<int, Mapping>::empty()
            &&& vmem.handle() == old(frames)@.last()
            &&& frames_kept(
                old(frames)@,
                vstd::multiset::Multiset::empty(),
                final(frames)@,
                vmem.held_frames(),
            )
            &&& final(frames)@ == old(frames)@.drop_last()
            &&& forall|ptr: u32| translate_in(vmem@, ptr) is None
        },
{
    X86VMem::new(frames)
}

/// Makes an independent context with the mappings of `vmem`.
///
/// Fails if and only if the pool holds fewer frames than the copy takes,
/// and then leaves the pool as it was.
pub fn try_clone(vmem: &X86VMem, frames: &mut FrameAllocator) -> (r: AllocResult<X86VMem>)
    requires
        vmem.inv(),
    ensures
        r is Ok <==> X86VMem::clone_cost(vmem@) <= old(frames)@.len(),
        r is Err ==> final(frames)@ == old(frames)@,
        r matches Ok(copy) ==> {
            &&& copy.inv()
            &&& copy@ == vmem@
            &&& copy.handle() == old(frames)@.last()
            &&& final(frames)@ == old(frames)@.take(
                old(frames)@.len() - X86VMem::clone_cost(vmem@),
            )
            &&& frames_kept(
                old(frames)@,
                vstd::multiset::Multiset::empty(),
                final(frames)@,
                copy.held_frames(),
            )
        },
{
    vmem.try_clone(frames)
}

/// Tells whether the core honours read-only pages while it runs kernel code.
pub fn is_write_locked(cpu: &Cpu) -> (r: bool)
    ensures
        r == cpu@.write_protect(),
{
    cpu.cr0_get() & CR0_WRITE_PROTECT != 0
}

/// Sets whether the core honours read-only pages while it runs kernel code.
///
/// With the lock off the kernel can write to every mapped page, whatever the
/// page's flags say.
pub fn set_write_lock(cpu: &mut Cpu, lock: bool)
    ensures
        final(cpu)@ == old(cpu)@.with_write_protect(lock),
        final(cpu)@.write_protect() == lock,
{
    proof {
        lemma_with_write_protect(cpu@, lock);
    }
    if lock {
        cpu.cr0_set(CR0_WRITE_PROTECT);
    } else {
        cpu.cr0_clear(CR0_WRITE_PROTECT);
    }
}

/// Runs `f` with the write lock off, and puts the lock back as it was.
///
/// `f` gets the core and hands it back with its result. Whatever `f` did to
/// the lock, the lock is afterwards what it was before the call.
pub fn write_lock_wrap<T, F: FnOnce(Cpu) -> (Cpu, T)>(cpu: &mut Cpu, f: F) -> (r: T)
    requires
        forall|inner: Cpu| inner@ == old(cpu)@.with_write_protect(false) ==> f.requires((inner,)),
    ensures
        exists|inner: Cpu, after: Cpu|
            {
                &&& inner@ == old(cpu)@.with_write_protect(false)
                &&& #[trigger] f.ensures((inner,), (after, r))
                &&& final(cpu)@ == after@.with_write_protect(old(cpu)@.write_protect())
            },
        final(cpu)@.write_protect() == old(cpu)@.write_protect(),
{
    let lock = is_write_locked(cpu);
    set_write_lock(cpu, false);
    let mut inner = Cpu::new();
    core::mem::swap(cpu, &mut inner);
    let (mut after, result) = f(inner);
    core::mem::swap(cpu, &mut after);
    set_write_lock(cpu, lock);
    result
}

/// The state in which [`switch`] runs its closure: the core with interrupts
/// off, and with the context with the handle `handle` bound if it was not.
pub open spec fn switch_entry(before: CpuState, handle: u32) -> CpuState {
    if is_bound_to(handle, before) {
        before.with_interrupts(false)
    } else {
        before.with_interrupts(false).loaded(Some(handle))
    }
}

/// The state in which [`switch`] leaves the core, where `after` is the state
/// in which its closure left it: `after` with the interrupt flag that the
/// core had before and, if the context with the handle `handle` was not
/// bound, with the context that was.
pub open spec fn switch_exit(before: CpuState, handle: u32, after: CpuState) -> CpuState {
    if is_bound_to(handle, before) {
        after.with_interrupts(before.interrupts)
    } else {
        after.loaded(before.context).with_interrupts(before.interrupts)
    }
}

/// Runs `f` while the context `vmem` is bound, and then binds the context
/// that was bound before.
///
/// The core takes no interrupts from the beginning of the call to its end;
/// then it takes them again if it did before. If `vmem` is bound already, `f`
/// runs without a switch. If not, `vmem` is bound, `f` runs, and the context
/// before is bound again. `f` gets the core and hands it back with its
/// result.
///
/// `f` is to leave the binding alone, and the stack in use is to be mapped in
/// both contexts. A closure that binds another context is not caught: where
/// `vmem` had to be bound first, the context before is bound again whatever
/// `f` did, and where it was bound already, the binding stays as `f` left it.
/// A closure that does not return keeps the core from taking interrupts.
pub fn switch<V: VMem, T, F: FnOnce(Cpu) -> (Cpu, T)>(cpu: &mut Cpu, vmem: &V, f: F) -> (r: T)
    requires
        vmem.inv(),
        forall|inner: Cpu|
            inner@ == switch_entry(old(cpu)@, vmem.handle()) ==> f.requires((inner,)),
    ensures
        exists|inner: Cpu, after: Cpu|
            {
                &&& inner@ == switch_entry(old(cpu)@, vmem.handle())
                &&& #[trigger] f.ensures((inner,), (after, r))
                &&& final(cpu)@ == switch_exit(old(cpu)@, vmem.handle(), after@)
            },
        final(cpu)@.interrupts == old(cpu)@.interrupts,
        !is_bound_to(vmem.handle(), old(cpu)@) ==> final(cpu)@.context == old(cpu)@.context,
        (forall|inner: Cpu, out: (Cpu, T)| #[trigger]
            f.ensures((inner,), out) ==> out.0@.context == inner@.context) ==> final(cpu)@.context
            == old(cpu)@.context,
{
    let interrupts = cpu.is_interrupt_enabled();
    cpu.set_interrupts(false);
    let result = if vmem.is_bound(cpu) {
        let mut inner = Cpu::new();
        core::mem::swap(cpu, &mut inner);
        let (mut after, result) = f(inner);
        core::mem::swap(cpu, &mut after);
        result
    } else {
        // Getting the current context
        let previous = cpu.cr3_get();
        // Binding the temporary context
        vmem.bind(cpu);
        let mut inner = Cpu::new();
        core::mem::swap(cpu, &mut inner);
        let (mut after, result) = f(inner);
        core::mem::swap(cpu, &mut after);
        // Restoring the previous context
        match previous {
            Some(context) => cpu.paging_enable(context),
            None => cpu.paging_disable(),
        }
        result
    };
    cpu.set_interrupts(interrupts);
    result
}

/// Where the closure of [`switch`] leaves the binding as it found it, the
/// context that was bound before the call is bound after it: both where the
/// target had to be bound first and where it was bound already.
pub proof fn lemma_switch_restores_context(before: CpuState, handle: u32, after: CpuState)
    requires
        after.context == switch_entry(before, handle).context,
    ensures
        switch_exit(before, handle, after).context == before.context,
{
}

/// Whatever the closure of [`write_lock_wrap`] did to the lock, the lock is
/// afterwards what it was before. Where the closure left the control
/// register as it found it, the whole register is afterwards what it was
/// before.
pub proof fn lemma_write_lock_restored(before: CpuState, after: CpuState)
    ensures
        after.with_write_protect(before.write_protect()).write_protect() == before.write_protect(),
        after.cr0 == before.with_write_protect(false).cr0 ==> after.with_write_protect(
            before.write_protect(),
        ).cr0 == before.cr0,
{
    lemma_with_write_protect(after, before.write_protect());
    let cr0 = before.cr0;
    assert(cr0 & 0x10000u32 != 0 ==> (cr0 & !0x10000u32) | 0x10000u32 == cr0) by (bit_vector);
    assert(cr0 & 0x10000u32 == 0 ==> (cr0 & !0x10000u32) & !0x10000u32 == cr0) by (bit_vector);
}

} // verus!
