use kernel::cpu::Cpu;
use kernel::errno::AllocError;
use kernel::memory::frame::FrameAllocator;
use kernel::memory::vmem::new;
use kernel::memory::vmem::try_clone;
use kernel::memory::vmem::x86::X86VMem;
use kernel::memory::vmem::KernelSection;
use kernel::memory::vmem::Mapping;
use kernel::memory::vmem::FLAGS_PROTECTED;
use kernel::memory::vmem::FLAG_USER;
use kernel::memory::vmem::FLAG_WRITE;
use kernel::memory::vmem::VMem;
use kernel::memory::PAGE_SIZE;

const FRAMES_BASE: u32 = 0x40_0000;

fn setup(count: usize) -> (Cpu, FrameAllocator) {
    (Cpu::new(), FrameAllocator::new(FRAMES_BASE, count))
}

#[test]
fn vmem_basic0() {
    let (_cpu, mut frames) = setup(4);
    let vmem = new(&mut frames).unwrap();
    for i in ((0 as usize)..(0xc0000000 as usize)).step_by(PAGE_SIZE) {
        assert_eq!(vmem.translate(i as _), None);
    }
}

#[test]
fn fresh_context_maps_nothing_in_kernel_space() {
    let (_cpu, mut frames) = setup(4);
    let vmem = new(&mut frames).unwrap();
    for i in ((0xc0000000 as usize)..(0x1_0000_0000 as usize)).step_by(PAGE_SIZE) {
        assert_eq!(vmem.translate(i as _), None);
        assert!(!vmem.is_mapped(i as _));
    }
    assert_eq!(vmem.translate(u32::MAX), None);
}

#[test]
fn vmem_map0() {
    let (mut cpu, mut frames) = setup(4);
    let mut vmem = new(&mut frames).unwrap();
    vmem.map(&mut cpu, &mut frames, 0x100000, 0x100000, 0).unwrap();

    for i in ((0 as usize)..(0xc0000000 as usize)).step_by(PAGE_SIZE) {
        if i >= 0x100000 && i < 0x101000 {
            let result = vmem.translate(i as _);
            assert!(result.is_some());
            assert_eq!(result.unwrap(), i as u32);
        } else {
            assert_eq!(vmem.translate(i as _), None);
        }
    }
}

#[test]
fn vmem_map1() {
    let (mut cpu, mut frames) = setup(4);
    let mut vmem = new(&mut frames).unwrap();
    vmem.map(&mut cpu, &mut frames, 0x100000, 0x100000, 0).unwrap();
    vmem.map(&mut cpu, &mut frames, 0x200000, 0x100000, 0).unwrap();

    for i in ((0 as usize)..(0xc0000000 as usize)).step_by(PAGE_SIZE) {
        if i >= 0x100000 && i < 0x101000 {
            let result = vmem.translate(i as _);
            assert!(result.is_some());
            assert_eq!(result.unwrap(), (0x100000 + i) as u32);
        } else {
            assert_eq!(vmem.translate(i as _), None);
        }
    }
}

#[test]
fn vmem_unmap0() {
    let (mut cpu, mut frames) = setup(4);
    let mut vmem = new(&mut frames).unwrap();
    vmem.map(&mut cpu, &mut frames, 0x100000, 0x100000, 0).unwrap();
    vmem.unmap(&mut cpu, &mut frames, 0x100000).unwrap();

    for i in ((0 as usize)..(0xc0000000 as usize)).step_by(PAGE_SIZE) {
        assert_eq!(vmem.translate(i as _), None);
    }
}

#[test]
fn map_remap_unmap_scenario() {
    let (mut cpu, mut frames) = setup(4);
    let mut a = new(&mut frames).unwrap();
    assert_eq!(a.map(&mut cpu, &mut frames, 0x100000, 0x100000, 0), Ok(()));
    assert_eq!(a.translate(0x100000), Some(0x100000));
    assert_eq!(a.translate(0x101000), None);
    assert_eq!(a.map(&mut cpu, &mut frames, 0x200000, 0x100000, 0), Ok(()));
    assert_eq!(a.translate(0x100000), Some(0x200000));
    assert_eq!(a.unmap(&mut cpu, &mut frames, 0x100000), Ok(()));
    assert_eq!(a.translate(0x100000), None);
}

#[test]
fn map_translates_every_address_of_the_page() {
    let (mut cpu, mut frames) = setup(4);
    let mut vmem = new(&mut frames).unwrap();
    vmem.map(&mut cpu, &mut frames, 0x7000, 0x3000, 0).unwrap();
    assert_eq!(vmem.translate(0x3000), Some(0x7000));
    assert_eq!(vmem.translate(0x3001), Some(0x7001));
    assert_eq!(vmem.translate(0x3fff), Some(0x7fff));
    assert_eq!(vmem.translate(0x2fff), None);
    assert_eq!(vmem.translate(0x4000), None);
    assert!(vmem.is_mapped(0x3abc));
    assert!(!vmem.is_mapped(0x4000));
}

#[test]
fn map_rounds_both_addresses_down_to_their_pages() {
    let (mut cpu, mut frames) = setup(4);
    let mut vmem = new(&mut frames).unwrap();
    vmem.map(&mut cpu, &mut frames, 0x1001, 0x2000, 0).unwrap();
    // The offsets differ: the page is mapped to the frame, not to the address
    assert_eq!(vmem.translate(0x2000), Some(0x1000));
    vmem.map(&mut cpu, &mut frames, 0x5123, 0x9123, 0).unwrap();
    assert_eq!(vmem.translate(0x9123), Some(0x5123));
    assert_eq!(vmem.translate(0x9000), Some(0x5000));
}

#[test]
fn map_leaves_other_pages_alone() {
    let (mut cpu, mut frames) = setup(4);
    let mut vmem = new(&mut frames).unwrap();
    vmem.map(&mut cpu, &mut frames, 0xa000, 0x1000, 0).unwrap();
    vmem.map(&mut cpu, &mut frames, 0xb000, 0x2000, 0).unwrap();
    assert_eq!(vmem.translate(0x1000), Some(0xa000));
    assert_eq!(vmem.translate(0x2000), Some(0xb000));
    vmem.unmap(&mut cpu, &mut frames, 0x2000).unwrap();
    assert_eq!(vmem.translate(0x1000), Some(0xa000));
    assert_eq!(vmem.translate(0x2000), None);
}

#[test]
fn map_at_the_ends_of_the_address_space() {
    let (mut cpu, mut frames) = setup(4);
    let mut vmem = new(&mut frames).unwrap();
    vmem.map(&mut cpu, &mut frames, 0xffff_f000, 0, 0).unwrap();
    vmem.map(&mut cpu, &mut frames, 0, 0xffff_f000, 0).unwrap();
    assert_eq!(vmem.translate(0), Some(0xffff_f000));
    assert_eq!(vmem.translate(0xfff), Some(0xffff_ffff));
    assert_eq!(vmem.translate(0xffff_ffff), Some(0xfff));
}

#[test]
fn remap_does_not_take_a_frame() {
    let (mut cpu, mut frames) = setup(3);
    let mut vmem = new(&mut frames).unwrap();
    assert_eq!(frames.available(), 2);
    vmem.map(&mut cpu, &mut frames, 0x100000, 0x100000, 0).unwrap();
    assert_eq!(frames.available(), 1);
    vmem.map(&mut cpu, &mut frames, 0x200000, 0x100000, 0).unwrap();
    assert_eq!(frames.available(), 1);
    // Another page of the same table
    vmem.map(&mut cpu, &mut frames, 0x300000, 0x101000, 0).unwrap();
    assert_eq!(frames.available(), 1);
    // A page of another table
    vmem.map(&mut cpu, &mut frames, 0x300000, 0x400000, 0).unwrap();
    assert_eq!(frames.available(), 0);
}

#[test]
fn map_fails_without_a_frame_and_changes_nothing() {
    let (mut cpu, mut frames) = setup(2);
    let mut vmem = new(&mut frames).unwrap();
    vmem.map(&mut cpu, &mut frames, 0x1000, 0x1000, 0).unwrap();
    assert_eq!(frames.available(), 0);
    assert_eq!(vmem.map(&mut cpu, &mut frames, 0x2000, 0x40_0000, 0), Err(AllocError));
    assert_eq!(vmem.translate(0x40_0000), None);
    assert_eq!(vmem.translate(0x1000), Some(0x1000));
    assert_eq!(frames.available(), 0);
    // A page of the table that exists can still be mapped
    assert_eq!(vmem.map(&mut cpu, &mut frames, 0x2000, 0x2000, 0), Ok(()));
    assert_eq!(vmem.translate(0x2000), Some(0x2000));
}

#[test]
fn new_fails_without_a_frame() {
    let (_cpu, mut frames) = setup(0);
    assert!(new(&mut frames).is_err());
    assert_eq!(frames.available(), 0);
}

#[test]
fn unmap_gives_the_frame_of_an_empty_table_back() {
    let (mut cpu, mut frames) = setup(3);
    let mut vmem = new(&mut frames).unwrap();
    vmem.map(&mut cpu, &mut frames, 0x1000, 0x1000, 0).unwrap();
    vmem.map(&mut cpu, &mut frames, 0x2000, 0x2000, 0).unwrap();
    assert_eq!(frames.available(), 1);
    vmem.unmap(&mut cpu, &mut frames, 0x1000).unwrap();
    assert_eq!(frames.available(), 1);
    vmem.unmap(&mut cpu, &mut frames, 0x2000).unwrap();
    assert_eq!(frames.available(), 2);
    // Unmapping what is not mapped does nothing
    vmem.unmap(&mut cpu, &mut frames, 0x2000).unwrap();
    vmem.unmap(&mut cpu, &mut frames, 0x8000_0000).unwrap();
    assert_eq!(frames.available(), 2);
}

#[test]
fn map_range_equals_sequential_maps() {
    let (mut cpu, mut frames) = setup(8);
    let mut ranged = new(&mut frames).unwrap();
    let mut single = new(&mut frames).unwrap();
    // The range crosses from one page table into the next
    let virt = 0x3f_e000;
    let phys = 0x80_0000;
    let pages = 5;
    ranged.map_range(&mut cpu, &mut frames, phys, virt, pages, 6).unwrap();
    let after_range = frames.available();
    for i in 0..pages {
        let off = (i * PAGE_SIZE) as u32;
        single.map(&mut cpu, &mut frames, phys + off, virt + off, 6).unwrap();
    }
    assert_eq!(after_range, 4);
    assert_eq!(frames.available(), 2);
    for addr in ((virt - 0x4000)..(virt + 0xa000)).step_by(0x800) {
        assert_eq!(ranged.translate(addr), single.translate(addr));
    }
    for i in 0..pages {
        let off = (i * PAGE_SIZE) as u32;
        assert_eq!(ranged.translate(virt + off + 5), Some(phys + off + 5));
    }
    assert_eq!(ranged.translate(virt - 1), None);
    assert_eq!(ranged.translate(virt + 5 * 0x1000), None);
}

#[test]
fn map_range_of_no_page_does_nothing() {
    let (mut cpu, mut frames) = setup(2);
    let mut vmem = new(&mut frames).unwrap();
    assert_eq!(vmem.map_range(&mut cpu, &mut frames, 0x1000, 0x1000, 0, 0), Ok(()));
    assert_eq!(vmem.translate(0x1000), None);
    assert_eq!(frames.available(), 1);
}

#[test]
fn map_range_failure_is_not_rolled_back() {
    let (mut cpu, mut frames) = setup(2);
    let mut vmem = new(&mut frames).unwrap();
    // Two pages in the first table, then one in the second, for which no frame is left
    let r = vmem.map_range(&mut cpu, &mut frames, 0x10_0000, 0x3f_e000, 3, 0);
    assert_eq!(r, Err(AllocError));
    assert_eq!(vmem.translate(0x3f_e000), Some(0x10_0000));
    assert_eq!(vmem.translate(0x3f_f000), Some(0x10_1000));
    assert_eq!(vmem.translate(0x40_0000), None);
    assert_eq!(frames.available(), 0);
}

#[test]
fn unmap_range_unmaps_each_page() {
    let (mut cpu, mut frames) = setup(4);
    let mut vmem = new(&mut frames).unwrap();
    vmem.map_range(&mut cpu, &mut frames, 0x10_0000, 0x3f_e000, 4, 0).unwrap();
    assert_eq!(frames.available(), 1);
    assert_eq!(vmem.unmap_range(&mut cpu, &mut frames, 0x3f_f000, 2), Ok(()));
    assert_eq!(vmem.translate(0x3f_e000), Some(0x10_0000));
    assert_eq!(vmem.translate(0x3f_f000), None);
    assert_eq!(vmem.translate(0x40_0000), None);
    assert_eq!(vmem.translate(0x40_1000), Some(0x10_3000));
    assert_eq!(frames.available(), 1);
    assert_eq!(vmem.unmap_range(&mut cpu, &mut frames, 0x3f_e000, 4), Ok(()));
    assert_eq!(vmem.translate(0x3f_e000), None);
    assert_eq!(vmem.translate(0x40_1000), None);
    assert_eq!(frames.available(), 3);
}

#[test]
fn bind_and_is_bound() {
    let (mut cpu, mut frames) = setup(4);
    let a = new(&mut frames).unwrap();
    let b = new(&mut frames).unwrap();
    assert!(!a.is_bound(&cpu));
    assert!(!b.is_bound(&cpu));
    assert_eq!(cpu.cr3_get(), None);
    a.bind(&mut cpu);
    assert!(a.is_bound(&cpu));
    assert!(!b.is_bound(&cpu));
    b.bind(&mut cpu);
    assert!(!a.is_bound(&cpu));
    assert!(b.is_bound(&cpu));
    // The handle of a context is the frame of its page directory
    assert_eq!(cpu.cr3_get(), Some(FRAMES_BASE + 2 * 0x1000));
}

#[test]
fn map_drops_the_stale_cache_entry_of_a_bound_context() {
    let (mut cpu, mut frames) = setup(4);
    let mut vmem = new(&mut frames).unwrap();
    vmem.bind(&mut cpu);
    vmem.map(&mut cpu, &mut frames, 0x5000, 0x1000, 0).unwrap();
    vmem.map(&mut cpu, &mut frames, 0x6000, 0x2000, 0).unwrap();
    assert_eq!(cpu.access(&vmem, 0x1004), Some(0x5004));
    assert_eq!(cpu.access(&vmem, 0x2004), Some(0x6004));
    vmem.map(&mut cpu, &mut frames, 0x9000, 0x1000, 0).unwrap();
    assert_eq!(cpu.access(&vmem, 0x1004), Some(0x9004));
    assert_eq!(cpu.access(&vmem, 0x2004), Some(0x6004));
    vmem.unmap(&mut cpu, &mut frames, 0x2000).unwrap();
    assert_eq!(cpu.access(&vmem, 0x2004), None);
    assert_eq!(cpu.access(&vmem, 0x1004), vmem.translate(0x1004));
}

#[test]
fn another_context_does_not_disturb_the_bound_one() {
    let (mut cpu, mut frames) = setup(6);
    let mut a = new(&mut frames).unwrap();
    let mut b = new(&mut frames).unwrap();
    a.map(&mut cpu, &mut frames, 0x5000, 0x1000, 0).unwrap();
    b.map(&mut cpu, &mut frames, 0x7000, 0x1000, 0).unwrap();
    a.bind(&mut cpu);
    assert_eq!(cpu.access(&a, 0x1000), Some(0x5000));
    // Whatever is done to `b`, the core goes on translating by `a`
    b.invalidate_page(&mut cpu, 0x1000);
    b.flush(&mut cpu);
    b.unmap(&mut cpu, &mut frames, 0x1000).unwrap();
    b.map(&mut cpu, &mut frames, 0x8000, 0x2000, 0).unwrap();
    assert_eq!(cpu.access(&a, 0x1000), Some(0x5000));
    assert_eq!(cpu.access(&a, 0x2000), None);
    assert!(a.is_bound(&cpu));
}

#[test]
fn invalidate_and_flush_keep_the_translations_right() {
    let mut cpu = Cpu::new();
    let mut frames = FrameAllocator::new(FRAMES_BASE, 6);
    let mut a = new(&mut frames).unwrap();
    a.map(&mut cpu, &mut frames, 0x5000, 0x1000, 0).unwrap();
    a.map(&mut cpu, &mut frames, 0x6000, 0x2000, 0).unwrap();
    a.bind(&mut cpu);
    assert_eq!(cpu.access(&a, 0x1000), Some(0x5000));
    assert_eq!(cpu.access(&a, 0x2000), Some(0x6000));
    a.invalidate_page(&mut cpu, 0x1000);
    assert_eq!(cpu.access(&a, 0x1000), Some(0x5000));
    a.flush(&mut cpu);
    assert_eq!(cpu.access(&a, 0x1000), Some(0x5000));
    assert_eq!(cpu.access(&a, 0x2fff), Some(0x6fff));
    assert_eq!(cpu.access(&a, 0x3000), None);
}

#[test]
fn try_clone_copies_the_mappings() {
    let (mut cpu, mut frames) = setup(8);
    let mut a = new(&mut frames).unwrap();
    a.map(&mut cpu, &mut frames, 0x5000, 0x1000, 2).unwrap();
    a.map(&mut cpu, &mut frames, 0x6000, 0x80_0000, 2).unwrap();
    assert_eq!(frames.available(), 5);
    let mut b = try_clone(&a, &mut frames).unwrap();
    // One frame for the directory, one for each of the two tables
    assert_eq!(frames.available(), 2);
    assert_eq!(b.translate(0x1000), Some(0x5000));
    assert_eq!(b.translate(0x80_0000), Some(0x6000));
    assert_eq!(b.translate(0x2000), None);
    // The copy is independent
    b.map(&mut cpu, &mut frames, 0x9000, 0x1000, 2).unwrap();
    b.unmap(&mut cpu, &mut frames, 0x80_0000).unwrap();
    assert_eq!(a.translate(0x1000), Some(0x5000));
    assert_eq!(a.translate(0x80_0000), Some(0x6000));
    assert_eq!(b.translate(0x1000), Some(0x9000));
    a.bind(&mut cpu);
    assert!(a.is_bound(&cpu));
    assert!(!b.is_bound(&cpu));
}

#[test]
fn try_clone_is_all_or_nothing() {
    let (mut cpu, mut frames) = setup(5);
    let mut a = new(&mut frames).unwrap();
    a.map(&mut cpu, &mut frames, 0x5000, 0x1000, 0).unwrap();
    a.map(&mut cpu, &mut frames, 0x6000, 0x80_0000, 0).unwrap();
    // Two frames are left, the copy needs three
    assert_eq!(frames.available(), 2);
    assert!(try_clone(&a, &mut frames).is_err());
    assert!(X86VMem::try_clone(&a, &mut frames).is_err());
    assert_eq!(frames.available(), 2);
    frames.free_frame(0x100_0000);
    assert!(try_clone(&a, &mut frames).is_ok());
    assert_eq!(frames.available(), 0);
}

#[test]
fn protect_kernel_protects_the_read_only_section() {
    let (mut cpu, mut frames) = setup(4);
    let mut vmem = new(&mut frames).unwrap();
    let writable = KernelSection { addr: 0xc010_0000, size: 0x1000, writable: true };
    let read_only = KernelSection { addr: 0xc020_0000, size: 0x1000, writable: false };
    let sections = [writable, read_only];
    assert_eq!(vmem.protect_kernel(&mut cpu, &mut frames, &sections), Ok(()));
    // Only the read-only section gains a mapping; the writable one is as it was
    assert_eq!(
        vmem.resolve(0xc020_0000),
        Some(Mapping { phys: 0x20_0000, flags: FLAGS_PROTECTED })
    );
    assert_eq!(FLAGS_PROTECTED & (FLAG_WRITE | FLAG_USER), 0);
    assert_eq!(vmem.resolve(0xc010_0000), None);
    assert_eq!(vmem.translate(0xc020_0000), Some(0x20_0000));
    assert_eq!(vmem.translate(0xc020_0fff), Some(0x20_0fff));
    assert_eq!(vmem.translate(0xc020_1000), None);
    assert_eq!(vmem.translate(0xc010_0000), None);
    assert_eq!(frames.available(), 2);
}

#[test]
fn protect_kernel_leaves_a_writable_mapping_alone() {
    let (mut cpu, mut frames) = setup(4);
    let mut vmem = new(&mut frames).unwrap();
    vmem.map(&mut cpu, &mut frames, 0x77_0000, 0xc010_0000, 2).unwrap();
    let sections = [
        KernelSection { addr: 0xc010_0000, size: 0x1000, writable: true },
        KernelSection { addr: 0x20_0000, size: 0x1800, writable: false },
        KernelSection { addr: 0xc030_0010, size: 0x1000, writable: false },
    ];
    assert_eq!(vmem.protect_kernel(&mut cpu, &mut frames, &sections), Ok(()));
    assert_eq!(vmem.translate(0xc010_0000), Some(0x77_0000));
    assert_eq!(vmem.resolve(0xc010_0000), Some(Mapping { phys: 0x77_0000, flags: 2 }));
    // A section given by its physical address is protected at its place in kernel space,
    // on all the pages that it touches
    assert_eq!(vmem.translate(0xc020_0000), Some(0x20_0000));
    assert_eq!(vmem.translate(0xc020_1000), Some(0x20_1000));
    assert_eq!(vmem.translate(0xc020_2000), None);
    assert_eq!(vmem.translate(0x20_0000), None);
    // A section that does not begin with a page is passed over
    assert_eq!(vmem.translate(0xc030_0000), None);
    assert_eq!(vmem.translate(0xc030_1000), None);
}

#[test]
fn protect_kernel_stops_at_the_first_failure() {
    let (mut cpu, mut frames) = setup(2);
    let mut vmem = new(&mut frames).unwrap();
    let sections = [
        KernelSection { addr: 0xc000_0000, size: 0x2000, writable: false },
        KernelSection { addr: 0xc040_0000, size: 0x1000, writable: false },
        KernelSection { addr: 0xc000_4000, size: 0x1000, writable: false },
    ];
    assert_eq!(vmem.protect_kernel(&mut cpu, &mut frames, &sections), Err(AllocError));
    // The sections before the failure stay protected, those after it are not reached
    assert_eq!(vmem.translate(0xc000_0000), Some(0));
    assert_eq!(vmem.translate(0xc000_1000), Some(0x1000));
    assert_eq!(vmem.translate(0xc040_0000), None);
    assert_eq!(vmem.translate(0xc000_4000), None);
}

#[test]
fn protect_kernel_of_no_section_does_nothing() {
    let (mut cpu, mut frames) = setup(2);
    let mut vmem = new(&mut frames).unwrap();
    assert_eq!(vmem.protect_kernel(&mut cpu, &mut frames, &[]), Ok(()));
    assert_eq!(frames.available(), 1);
}

fn drain(frames: &mut FrameAllocator) -> Vec<u32> {
    let mut all = Vec::new();
    while let Ok(frame) = frames.alloc_frame() {
        all.push(frame);
    }
    all.sort();
    all
}

#[test]
fn destroy_gives_every_frame_back() {
    let (mut cpu, mut frames) = setup(6);
    let mut vmem = new(&mut frames).unwrap();
    vmem.map(&mut cpu, &mut frames, 0x5000, 0x1000, 0).unwrap();
    vmem.map(&mut cpu, &mut frames, 0x6000, 0x80_0000, 0).unwrap();
    vmem.map(&mut cpu, &mut frames, 0x7000, 0x80_1000, 0).unwrap();
    assert_eq!(frames.available(), 3);
    vmem.destroy(&mut frames);
    assert_eq!(frames.available(), 6);
    let expected: Vec<u32> = (0..6).map(|i| FRAMES_BASE + i * 0x1000).collect();
    assert_eq!(drain(&mut frames), expected);
}

#[test]
fn no_frame_is_lost_or_made_up() {
    let (mut cpu, mut frames) = setup(8);
    let mut a = new(&mut frames).unwrap();
    a.map_range(&mut cpu, &mut frames, 0x10_0000, 0x3f_e000, 4, 0).unwrap();
    a.map(&mut cpu, &mut frames, 0x9000, 0x8000_0000, 0).unwrap();
    let b = try_clone(&a, &mut frames).unwrap();
    assert_eq!(frames.available(), 0);
    a.unmap_range(&mut cpu, &mut frames, 0x3f_e000, 2).unwrap();
    a.unmap(&mut cpu, &mut frames, 0x8000_0000).unwrap();
    assert_eq!(frames.available(), 2);
    a.destroy(&mut frames);
    assert_eq!(frames.available(), 4);
    b.destroy(&mut frames);
    let expected: Vec<u32> = (0..8).map(|i| FRAMES_BASE + i * 0x1000).collect();
    assert_eq!(drain(&mut frames), expected);
}

#[test]
fn resolve_gives_the_frame_and_the_flags() {
    let (mut cpu, mut frames) = setup(4);
    let mut vmem = new(&mut frames).unwrap();
    assert_eq!(vmem.resolve(0x3000), None);
    vmem.map(&mut cpu, &mut frames, 0x7abc, 0x3def, FLAG_WRITE | FLAG_USER).unwrap();
    assert_eq!(vmem.resolve(0x3000), Some(Mapping { phys: 0x7000, flags: 6 }));
    assert_eq!(vmem.resolve(0x3fff), Some(Mapping { phys: 0x7000, flags: 6 }));
    assert_eq!(vmem.resolve(0x4000), None);
    // Mapping the page again puts the new frame and the new flags in place of the old ones
    vmem.map(&mut cpu, &mut frames, 0x9000, 0x3000, FLAG_WRITE).unwrap();
    assert_eq!(vmem.resolve(0x3000), Some(Mapping { phys: 0x9000, flags: FLAG_WRITE }));
    vmem.map_range(&mut cpu, &mut frames, 0x10_0000, 0x2000, 3, 0xffff_ffff).unwrap();
    assert_eq!(vmem.resolve(0x2000), Some(Mapping { phys: 0x10_0000, flags: 0xffff_ffff }));
    assert_eq!(vmem.resolve(0x3000), Some(Mapping { phys: 0x10_1000, flags: 0xffff_ffff }));
    assert_eq!(vmem.resolve(0x4000), Some(Mapping { phys: 0x10_2000, flags: 0xffff_ffff }));
    assert_eq!(vmem.resolve(0x5000), None);
    let copy = try_clone(&vmem, &mut frames).unwrap();
    assert_eq!(copy.resolve(0x3000), vmem.resolve(0x3000));
}
