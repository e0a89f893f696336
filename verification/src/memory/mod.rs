//! The layout of memory: pages, and the split between user and kernel space.

pub mod frame;
pub mod vmem;

use vstd::prelude::*;

verus! {

/// The size of a page of memory, in bytes.
pub const PAGE_SIZE: usize = 4096;

/// The first address of kernel space. User space lies below it.
pub const PROCESS_END: u32 = 0xc0000000;

/// The size of kernel space, which ends with the address space.
pub const KERNEL_SIZE: u32 = 0x40000000;

/// The number of bytes in the address space.
pub open spec fn address_space_size() -> int {
    0x1_0000_0000
}

/// The number of pages in the address space.
pub open spec fn page_count() -> int {
    0x10_0000
}

/// The number of the page that holds `addr`.
pub open spec fn page_of(addr: u32) -> int {
    addr as int / 4096
}

/// The offset of `addr` in its page.
pub open spec fn page_offset(addr: u32) -> int {
    addr as int % 4096
}

/// The address at which the page with the number `page` begins.
pub open spec fn page_addr(page: int) -> u32 {
    (page * 4096) as u32
}

/// The address at which the page of `addr` begins.
pub open spec fn page_base(addr: u32) -> u32 {
    (addr - addr % 4096) as u32
}

/// Whether `addr` is the first address of a page.
pub open spec fn is_page_aligned(addr: u32) -> bool {
    addr % 4096 == 0
}

/// Whether `addr` names kernel memory: either by its address in kernel space,
/// or by the physical address that kernel space maps it from.
pub open spec fn is_kernel_addr(addr: u32) -> bool {
    addr >= PROCESS_END || addr < KERNEL_SIZE
}

/// The physical address behind a kernel address.
pub open spec fn spec_kern_to_phys(addr: u32) -> u32 {
    if addr < PROCESS_END {
        addr
    } else {
        (addr - PROCESS_END) as u32
    }
}

/// The kernel-space address of a kernel address.
pub open spec fn spec_kern_to_virt(addr: u32) -> u32 {
    if addr >= PROCESS_END {
        addr
    } else {
        (addr + PROCESS_END) as u32
    }
}

/// Rounds `addr` down to the beginning of its page.
pub fn down_align(addr: u32) -> (r: u32)
    ensures
        r == page_base(addr),
        is_page_aligned(r),
        r <= addr < r + 4096,
{
    addr - addr % (PAGE_SIZE as u32)
}

/// Converts a kernel address to the physical address behind it. A physical
/// address is returned as it is.
pub fn kern_to_phys(addr: u32) -> (r: u32)
    ensures
        r == spec_kern_to_phys(addr),
{
    if addr < PROCESS_END {
        addr
    } else {
        addr - PROCESS_END
    }
}

/// Converts a physical address of kernel memory to its address in kernel
/// space. An address in kernel space is returned as it is.
pub fn kern_to_virt(addr: u32) -> (r: u32)
    requires
        is_kernel_addr(addr),
    ensures
        r == spec_kern_to_virt(addr),
        r >= PROCESS_END,
{
    if addr >= PROCESS_END {
        addr
    } else {
        addr + PROCESS_END
    }
}

} // verus!
