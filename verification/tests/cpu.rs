use kernel::cpu::Cpu;
use kernel::cpu::CR0_WRITE_PROTECT;
use kernel::memory::frame::FrameAllocator;
use kernel::memory::kern_to_phys;
use kernel::memory::kern_to_virt;
use kernel::memory::down_align;
use kernel::memory::vmem::is_write_locked;
use kernel::memory::vmem::new;
use kernel::memory::vmem::set_write_lock;
use kernel::memory::vmem::switch;
use kernel::memory::vmem::write_lock_wrap;
use kernel::memory::vmem::VMem;

#[test]
fn a_core_starts_in_its_reset_state() {
    let cpu = Cpu::new();
    assert_eq!(cpu.cr0_get(), 0);
    assert_eq!(cpu.cr3_get(), None);
    assert!(!cpu.is_interrupt_enabled());
    assert!(!is_write_locked(&cpu));
}

#[test]
fn cr0_bits_are_set_and_cleared() {
    let mut cpu = Cpu::new();
    cpu.cr0_set(0b1010);
    assert_eq!(cpu.cr0_get(), 0b1010);
    cpu.cr0_set(0b0110);
    assert_eq!(cpu.cr0_get(), 0b1110);
    cpu.cr0_clear(0b0011);
    assert_eq!(cpu.cr0_get(), 0b1100);
}

#[test]
fn paging_enable_and_disable() {
    let mut cpu = Cpu::new();
    cpu.paging_enable(0x1000);
    assert_eq!(cpu.cr3_get(), Some(0x1000));
    cpu.paging_enable(0);
    assert_eq!(cpu.cr3_get(), Some(0));
    cpu.paging_disable();
    assert_eq!(cpu.cr3_get(), None);
}

#[test]
fn interrupts_are_switched() {
    let mut cpu = Cpu::new();
    cpu.set_interrupts(true);
    assert!(cpu.is_interrupt_enabled());
    cpu.set_interrupts(false);
    assert!(!cpu.is_interrupt_enabled());
}

#[test]
fn write_lock_is_bit_16_of_cr0() {
    let mut cpu = Cpu::new();
    cpu.cr0_set(0x8000_0001);
    set_write_lock(&mut cpu, true);
    assert!(is_write_locked(&cpu));
    assert_eq!(cpu.cr0_get(), 0x8001_0001);
    assert_eq!(CR0_WRITE_PROTECT, 1 << 16);
    set_write_lock(&mut cpu, true);
    assert_eq!(cpu.cr0_get(), 0x8001_0001);
    set_write_lock(&mut cpu, false);
    assert!(!is_write_locked(&cpu));
    assert_eq!(cpu.cr0_get(), 0x8000_0001);
}

#[test]
fn write_lock_wrap_runs_unlocked_and_restores_the_lock() {
    let mut cpu = Cpu::new();
    set_write_lock(&mut cpu, true);
    let seen = write_lock_wrap(&mut cpu, |c: Cpu| {
        let locked = is_write_locked(&c);
        (c, locked)
    });
    assert!(!seen);
    assert!(is_write_locked(&cpu));

    set_write_lock(&mut cpu, false);
    let seen = write_lock_wrap(&mut cpu, |c: Cpu| {
        let locked = is_write_locked(&c);
        (c, locked)
    });
    assert!(!seen);
    assert!(!is_write_locked(&cpu));
}

#[test]
fn write_lock_wrap_restores_whatever_the_closure_did() {
    let mut cpu = Cpu::new();
    // Unlocked before; the closure locks
    let r = write_lock_wrap(&mut cpu, |mut c: Cpu| {
        set_write_lock(&mut c, true);
        c.cr0_set(0b100);
        (c, 42)
    });
    assert_eq!(r, 42);
    assert!(!is_write_locked(&cpu));
    // What else the closure did to the core stays
    assert_eq!(cpu.cr0_get(), 0b100);

    // Locked before; the closure locks, unlocks and returns an error
    set_write_lock(&mut cpu, true);
    let r: Result<(), &str> = write_lock_wrap(&mut cpu, |mut c: Cpu| {
        set_write_lock(&mut c, true);
        set_write_lock(&mut c, false);
        (c, Err("failed"))
    });
    assert_eq!(r, Err("failed"));
    assert!(is_write_locked(&cpu));
    assert_eq!(cpu.cr0_get(), 0b100 | CR0_WRITE_PROTECT);
}

#[test]
fn switch_binds_the_target_and_restores_the_context() {
    let mut cpu = Cpu::new();
    let mut frames = FrameAllocator::new(0x10_0000, 4);
    let mut a = new(&mut frames).unwrap();
    let mut b = new(&mut frames).unwrap();
    a.map(&mut cpu, &mut frames, 0x5000, 0x1000, 0).unwrap();
    b.map(&mut cpu, &mut frames, 0x7000, 0x1000, 0).unwrap();
    a.bind(&mut cpu);
    cpu.set_interrupts(true);
    let before = cpu.cr3_get();

    let (bound, interrupts, seen) = switch(&mut cpu, &b, |mut c: Cpu| {
        let bound = b.is_bound(&c);
        let interrupts = c.is_interrupt_enabled();
        let seen = c.access(&b, 0x1000);
        (c, (bound, interrupts, seen))
    });
    assert!(bound);
    assert!(!interrupts);
    assert_eq!(seen, Some(0x7000));
    assert_eq!(cpu.cr3_get(), before);
    assert!(a.is_bound(&cpu));
    assert!(cpu.is_interrupt_enabled());
    // Nothing of the other context is left in the cache
    assert_eq!(cpu.access(&a, 0x1000), Some(0x5000));
}

#[test]
fn switch_to_the_bound_context_runs_the_closure_without_a_switch() {
    let mut cpu = Cpu::new();
    let mut frames = FrameAllocator::new(0x10_0000, 4);
    let mut a = new(&mut frames).unwrap();
    a.bind(&mut cpu);
    cpu.set_interrupts(true);
    let before = cpu.cr3_get();
    a.map(&mut cpu, &mut frames, 0x5000, 0x1000, 0).unwrap();
    assert_eq!(cpu.access(&a, 0x1000), Some(0x5000));
    let (bound, interrupts) = switch(&mut cpu, &a, |c: Cpu| {
        let bound = a.is_bound(&c);
        let interrupts = c.is_interrupt_enabled();
        (c, (bound, interrupts))
    });
    assert!(bound);
    assert!(!interrupts);
    assert_eq!(cpu.cr3_get(), before);
    assert!(cpu.is_interrupt_enabled());
    assert_eq!(cpu.access(&a, 0x1000), Some(0x5000));
}

#[test]
fn switch_to_the_bound_context_leaves_the_binding_as_the_closure_left_it() {
    let mut cpu = Cpu::new();
    let mut frames = FrameAllocator::new(0x10_0000, 4);
    let a = new(&mut frames).unwrap();
    let b = new(&mut frames).unwrap();
    a.bind(&mut cpu);
    switch(&mut cpu, &a, |mut inner: Cpu| {
        b.bind(&mut inner);
        inner.set_interrupts(true);
        (inner, ())
    });
    assert!(b.is_bound(&cpu));
    assert!(!cpu.is_interrupt_enabled());
}

#[test]
fn switch_from_no_context_returns_to_no_context() {
    let mut cpu = Cpu::new();
    let mut frames = FrameAllocator::new(0x10_0000, 4);
    let a = new(&mut frames).unwrap();
    let bound = switch(&mut cpu, &a, |c: Cpu| {
        let bound = a.is_bound(&c);
        (c, bound)
    });
    assert!(bound);
    assert_eq!(cpu.cr3_get(), None);
    assert!(!cpu.is_interrupt_enabled());
}

#[test]
fn switch_restores_even_where_the_closure_rebinds() {
    let mut cpu = Cpu::new();
    let mut frames = FrameAllocator::new(0x10_0000, 4);
    let a = new(&mut frames).unwrap();
    let b = new(&mut frames).unwrap();
    let c = new(&mut frames).unwrap();
    a.bind(&mut cpu);
    switch(&mut cpu, &b, |mut inner: Cpu| {
        c.bind(&mut inner);
        inner.set_interrupts(true);
        (inner, ())
    });
    assert!(a.is_bound(&cpu));
    assert!(!cpu.is_interrupt_enabled());
}

#[test]
fn frames_leave_the_pool_last_in_first_out() {
    let mut frames = FrameAllocator::new(0x10_0000, 3);
    assert_eq!(frames.available(), 3);
    assert_eq!(frames.alloc_frame(), Ok(0x10_2000));
    assert_eq!(frames.alloc_frame(), Ok(0x10_1000));
    frames.free_frame(0x50_0123);
    assert_eq!(frames.available(), 2);
    assert_eq!(frames.alloc_frame(), Ok(0x50_0000));
    assert_eq!(frames.alloc_frame(), Ok(0x10_0000));
    assert_eq!(frames.available(), 0);
    assert!(frames.alloc_frame().is_err());
    assert_eq!(frames.available(), 0);
}

#[test]
fn kernel_addresses_convert_both_ways() {
    assert_eq!(kern_to_phys(0xc010_0000), 0x10_0000);
    assert_eq!(kern_to_phys(0x10_0000), 0x10_0000);
    assert_eq!(kern_to_phys(0xc000_0000), 0);
    assert_eq!(kern_to_phys(0xbfff_ffff), 0xbfff_ffff);
    assert_eq!(kern_to_virt(0x10_0000), 0xc010_0000);
    assert_eq!(kern_to_virt(0xc010_0000), 0xc010_0000);
    assert_eq!(kern_to_virt(0), 0xc000_0000);
    assert_eq!(kern_to_virt(0x3fff_ffff), 0xffff_ffff);
    assert_eq!(down_align(0x1fff), 0x1000);
    assert_eq!(down_align(0x1000), 0x1000);
    assert_eq!(down_align(0xfff), 0);
    assert_eq!(down_align(u32::MAX), 0xffff_f000);
}
