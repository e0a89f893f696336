//! The `munmap` system call lets a process give back memory that it mapped.

use crate::cpu::Cpu;
use crate::errno::Errno;
use crate::memory::down_align;
use crate::memory::frame::FrameAllocator;
use crate::memory::page_base;
use crate::memory::page_of;
use crate::memory::vmem::model::frames_kept;
use crate::memory::vmem::model::model;
use crate::memory::vmem::model::outcome;
use crate::memory::vmem::model::unmap_pages;
use crate::memory::vmem::VMem;
use crate::memory::PAGE_SIZE;
use crate::memory::PROCESS_END;
use crate::util::math::ceil_div;
use crate::util::math::lemma_ceil_div_covers;
use crate::util::math::spec_ceil_div;
use crate::util::Regs;
use vstd::prelude::*;

verus! {

/// The number of pages that a call with the registers `regs` unmaps: those
/// that hold `regs.ecx` bytes.
pub open spec fn munmap_pages(regs: Regs) -> nat {
    spec_ceil_div(regs.ecx as int, 4096) as nat
}

/// Whether the range that a call with the registers `regs` names lies in
/// user space: it begins with the page of `regs.ebx`, and ends below the
/// kernel.
pub open spec fn munmap_in_user_space(regs: Regs) -> bool {
    &&& page_base(regs.ebx) < PROCESS_END
    &&& page_base(regs.ebx) + munmap_pages(regs) * 4096 <= PROCESS_END
}

/// Unmaps from `vmem`, the context of the calling process, the pages that
/// hold the `regs.ecx` bytes from the page of `regs.ebx` on.
///
/// Fails with `EINVAL`, and changes nothing, if the range does not lie in
/// user space. Fails with `ENOMEM` if a page could not be unmapped; the pages
/// before it stay unmapped. Returns 0 on success.
pub fn munmap<V: VMem>(
    regs: &Regs,
    vmem: &mut V,
    cpu: &mut Cpu,
    frames: &mut FrameAllocator,
) -> (r: Result<i32, Errno>)
    requires
        old(vmem).inv(),
    ensures
        final(vmem).inv(),
        final(vmem).handle() == old(vmem).handle(),
        frames_kept(old(frames)@, old(vmem).held_frames(), final(frames)@, final(vmem).held_frames()),
        !munmap_in_user_space(*regs) ==> {
            &&& r == Err::<i32, Errno>(Errno::EINVAL)
            &&& final(vmem)@ == old(vmem)@
            &&& final(cpu)@ == old(cpu)@
            &&& final(frames)@ == old(frames)@
        },
        munmap_in_user_space(*regs) ==> {
            let expected = unmap_pages(
                V::costs(),
                model(old(vmem)@, old(cpu)@, old(frames)@),
                page_of(regs.ebx),
                munmap_pages(*regs),
            );
            &&& outcome(final(vmem)@, final(cpu)@, final(frames)@, r is Ok, old(cpu)@, expected)
            &&& r == if expected.1 {
                Ok::<i32, Errno>(0)
            } else {
                Err::<i32, Errno>(Errno::ENOMEM)
            }
        },
{
    let addr = down_align(regs.ebx);
    let pages = ceil_div(regs.ecx, PAGE_SIZE as u32);
    proof {
        lemma_ceil_div_covers(regs.ecx as int, 4096);
    }
    let length = pages as u64 * (PAGE_SIZE as u64);
    assert(length == pages * 4096);
    let end = addr as u64 + length;

    // Keep the process from unmapping kernel memory
    if addr >= PROCESS_END || end > PROCESS_END as u64 {
        return Err(Errno::EINVAL);
    }
    match vmem.unmap_range(cpu, frames, addr, pages as usize) {
        Ok(()) => Ok(0),
        Err(e) => Err(Errno::from_alloc(e)),
    }
}

} // verus!
