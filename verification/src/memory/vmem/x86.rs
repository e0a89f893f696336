//! Address-space contexts on x86: a page directory of 1024 page tables, each
//! of 1024 pages.
//!
//! A page table exists only while one of its pages is mapped. Mapping the
//! first page of a table takes a frame from the pool for it; unmapping its
//! last page gives the frame back. The page directory lives in a frame of
//! its own, whose address is the handle of the context.

use crate::cpu::Cpu;
use crate::cpu::CpuState;
use crate::errno::AllocError;
use crate::errno::AllocResult;
use crate::memory::down_align;
use crate::memory::frame::FrameAllocator;
use crate::memory::is_page_aligned;
use crate::memory::page_addr;
use crate::memory::page_count;
use crate::memory::page_of;
use crate::memory::vmem::model::frames_kept;
use crate::memory::vmem::model::lemma_frames_kept_giving;
use crate::memory::vmem::model::lemma_frames_kept_taking;
use crate::memory::vmem::model::map_one;
use crate::memory::vmem::model::map_pages;
use crate::memory::vmem::model::model;
use crate::memory::vmem::model::translate_in;
use crate::memory::vmem::model::unmap_pages;
use crate::memory::vmem::Mapping;
use crate::memory::vmem::VMem;
use crate::memory::PAGE_SIZE;
use vstd::prelude::*;

verus! {

/// The number of entries in a page directory, and in a page table.
pub const ENTRIES: usize = 1024;

/// Whether a page of the table with the number `slot` is mapped.
pub open spec fn slot_used(mappings: Map<int, Mapping>, slot: int) -> bool {
    exists|page: int| #[trigger] mappings.contains_key(page) && page / 1024 == slot
}

/// The number of page tables below `slots` of which a page is mapped.
pub open spec fn used_slots(mappings: Map<int, Mapping>, slots: nat) -> nat
    decreases slots,
{
    if slots == 0 {
        0
    } else {
        used_slots(mappings, (slots - 1) as nat) + if slot_used(mappings, slots - 1) {
            1nat
        } else {
            0nat
        }
    }
}

/// Mapping a page again takes no frame, and neither does mapping a page
/// whose page table holds another mapped page.
pub proof fn lemma_map_cost_of_used_table(mappings: Map<int, Mapping>, page: int, other: int)
    requires
        mappings.contains_key(other),
        other / 1024 == page / 1024,
    ensures
        X86VMem::map_cost(mappings, page) == 0,
{
}

proof fn lemma_used_slots_monotonic(mappings: Map<int, Mapping>, a: nat, b: nat)
    requires
        a <= b,
    ensures
        used_slots(mappings, a) <= used_slots(mappings, b),
    decreases b,
{
    if a < b {
        lemma_used_slots_monotonic(mappings, a, (b - 1) as nat);
    }
}

/// A page table: the frame it lives in, and what each of its pages is mapped
/// to.
struct PageTable {
    frame: u32,
    entries: Vec<Option<Mapping>>,
}

/// The frame that an entry of the page directory holds.
spec fn table_frame(table: Option<PageTable>) -> vstd::multiset::Multiset<u32> {
    match table {
        Some(table) => vstd::multiset::Multiset::singleton(table.frame),
        None => vstd::multiset::Multiset::empty(),
    }
}

/// The frames that the page tables of a page directory live in.
spec fn table_frames(tables: Seq<Option<PageTable>>) -> vstd::multiset::Multiset<u32>
    decreases tables.len(),
{
    if tables.len() == 0 {
        vstd::multiset::Multiset::empty()
    } else {
        table_frames(tables.drop_last()).add(table_frame(tables.last()))
    }
}

proof fn lemma_table_frames_push(tables: Seq<Option<PageTable>>, table: Option<PageTable>)
    ensures
        table_frames(tables.push(table)) == table_frames(tables).add(table_frame(table)),
{
    assert(tables.push(table).drop_last() =~= tables);
}

proof fn lemma_table_frames_update(
    tables: Seq<Option<PageTable>>,
    i: int,
    table: Option<PageTable>,
)
    requires
        0 <= i < tables.len(),
    ensures
        table_frames(tables.update(i, table)).add(table_frame(tables[i])) == table_frames(
            tables,
        ).add(table_frame(table)),
    decreases tables.len(),
{
    broadcast use vstd::multiset::group_multiset_axioms;

    let updated = tables.update(i, table);
    let front = tables.drop_last();
    if i == tables.len() - 1 {
        assert(updated.drop_last() =~= front);
        assert(updated.last() == table);
    } else {
        lemma_table_frames_update(front, i, table);
        assert(updated.drop_last() =~= front.update(i, table));
        assert(updated.last() == tables.last());
        assert(front[i] == tables[i]);
    }
    assert forall|v: u32|
        table_frames(updated).add(table_frame(tables[i])).count(v) == table_frames(tables).add(
            table_frame(table),
        ).count(v) by {
        if i != tables.len() - 1 {
            assert(table_frames(front.update(i, table)).add(table_frame(front[i])).count(v)
                == table_frames(front).add(table_frame(table)).count(v));
        }
    }
    assert(table_frames(updated).add(table_frame(tables[i])) =~= table_frames(tables).add(
        table_frame(table),
    ));
}

/// Putting a page table in place of one that lives in the same frame leaves
/// the frames of the page tables as they are.
proof fn lemma_table_frames_same(
    before: Seq<Option<PageTable>>,
    after: Seq<Option<PageTable>>,
    slot: int,
)
    requires
        0 <= slot < before.len(),
        after.len() == before.len(),
        forall|k: int| 0 <= k < before.len() && k != slot ==> after[k] == before[k],
        table_frame(after[slot]) == table_frame(before[slot]),
    ensures
        table_frames(after) == table_frames(before),
{
    broadcast use vstd::multiset::group_multiset_axioms;

    assert(after =~= before.update(slot, after[slot]));
    lemma_table_frames_update(before, slot, after[slot]);
    assert forall|v: u32| table_frames(after).count(v) == table_frames(before).count(v) by {
        assert(table_frames(after).add(table_frame(before[slot])).count(v) == table_frames(
            before,
        ).add(table_frame(after[slot])).count(v));
    }
    assert(table_frames(after) =~= table_frames(before));
}

/// A page directory without a page table holds no frame for one.
proof fn lemma_table_frames_vacant(tables: Seq<Option<PageTable>>)
    requires
        forall|k: int| 0 <= k < tables.len() ==> #[trigger] tables[k] is None,
    ensures
        table_frames(tables) == vstd::multiset::Multiset::<u32>::empty(),
    decreases tables.len(),
{
    broadcast use vstd::multiset::group_multiset_axioms;

    if tables.len() > 0 {
        lemma_table_frames_vacant(tables.drop_last());
        assert(table_frames(tables) =~= vstd::multiset::Multiset::<u32>::empty());
    }
}

/// Putting a page table where there was none adds its frame to the frames
/// that a context with the page directory at `dir` holds, and taking a page
/// table away takes its frame from them.
proof fn lemma_table_frames_change(
    without: Seq<Option<PageTable>>,
    with: Seq<Option<PageTable>>,
    slot: int,
    dir: u32,
)
    requires
        0 <= slot < without.len(),
        with.len() == without.len(),
        forall|k: int| 0 <= k < without.len() && k != slot ==> with[k] == without[k],
        without[slot] is None,
        with[slot] is Some,
    ensures
        table_frames(with).insert(dir) == table_frames(without).insert(dir).insert(
            with[slot]->0.frame,
        ),
{
    broadcast use vstd::multiset::group_multiset_axioms;

    assert(with =~= without.update(slot, with[slot]));
    lemma_table_frames_update(without, slot, with[slot]);
    let frame = with[slot]->0.frame;
    assert forall|v: u32|
        table_frames(with).insert(dir).count(v) == table_frames(without).insert(dir).insert(
            frame,
        ).count(v) by {
        assert(table_frames(with).add(table_frame(without[slot])).count(v) == table_frames(
            without,
        ).add(table_frame(with[slot])).count(v));
    }
    assert(table_frames(with).insert(dir) =~= table_frames(without).insert(dir).insert(frame));
}

impl PageTable {
    spec fn wf(&self) -> bool {
        &&& is_page_aligned(self.frame)
        &&& self.entries@.len() == 1024
        &&& forall|i: int|
            0 <= i < 1024 ==> (#[trigger] self.entries@[i] matches Some(e) ==> is_page_aligned(
                e.phys,
            ))
    }

    spec fn is_vacant(&self) -> bool {
        forall|i: int| 0 <= i < 1024 ==> #[trigger] self.entries@[i] is None
    }

    /// Creates a table without a mapping, in the frame at `frame`.
    fn new(frame: u32) -> (r: PageTable)
        requires
            is_page_aligned(frame),
        ensures
            r.wf(),
            r.is_vacant(),
            r.frame == frame,
    {
        let mut entries: Vec<Option<Mapping>> = Vec::new();
        let mut i: usize = 0;
        while i < ENTRIES
            invariant
                i <= 1024,
                entries@.len() == i,
                forall|k: int| 0 <= k < i ==> #[trigger] entries@[k] is None,
            decreases 1024 - i,
        {
            entries.push(None);
            i += 1;
        }
        PageTable { frame, entries }
    }

    /// Tells whether no page of the table is mapped.
    fn is_empty(&self) -> (r: bool)
        requires
            self.wf(),
        ensures
            r == self.is_vacant(),
    {
        let mut i: usize = 0;
        while i < ENTRIES
            invariant
                i <= 1024,
                self.entries@.len() == 1024,
                forall|k: int| 0 <= k < i ==> #[trigger] self.entries@[k] is None,
            decreases 1024 - i,
        {
            if self.entries[i].is_some() {
                return false;
            }
            i += 1;
        }
        true
    }

    /// Makes a copy of the table in the frame at `frame`.
    fn copy_to(&self, frame: u32) -> (r: PageTable)
        requires
            self.wf(),
            is_page_aligned(frame),
        ensures
            r.wf(),
            r.frame == frame,
            r.entries@ == self.entries@,
    {
        let mut entries: Vec<Option<Mapping>> = Vec::new();
        let mut i: usize = 0;
        while i < ENTRIES
            invariant
                i <= 1024,
                self.entries@.len() == 1024,
                entries@.len() == i,
                forall|k: int| 0 <= k < i ==> #[trigger] entries@[k] == self.entries@[k],
            decreases 1024 - i,
        {
            entries.push(self.entries[i]);
            i += 1;
        }
        assert(entries@ =~= self.entries@);
        PageTable { frame, entries }
    }
}

/// An address-space context on x86.
pub struct X86VMem {
    page_dir: u32,
    tables: Vec<Option<PageTable>>,
}

impl X86VMem {
    spec fn entry(&self, page: int) -> Option<Mapping> {
        match self.tables@[page / 1024] {
            Some(table) => table.entries@[page % 1024],
            None => None,
        }
    }

    spec fn tables_wf(&self) -> bool {
        &&& is_page_aligned(self.page_dir)
        &&& self.tables@.len() == 1024
        &&& forall|slot: int|
            0 <= slot < 1024 ==> (#[trigger] self.tables@[slot] matches Some(table) ==> table.wf())
    }

    /// Creates a context without a mapping. Its page directory takes one
    /// frame from the pool, and the address of that frame is its handle.
    ///
    /// Fails if and only if the pool is empty.
    pub fn new(frames: &mut FrameAllocator) -> (r: AllocResult<X86VMem>)
        ensures
            r is Ok <==> old(frames)@.len() > 0,
            r is Err ==> final(frames)@ == old(frames)@,
            r matches Ok(vmem) ==> {
                &&& vmem.inv()
                &&& vmem@ == Map::<int, Mapping>::empty()
                &&& vmem.handle() == old(frames)@.last()
                &&& frames_kept(
                    old(frames)@,
                    vstd::multiset::Multiset::empty(),
                    final(frames)@,
                    vmem.held_frames(),
                )
                &&& final(frames)@ == old(frames)@.drop_last()
                &&& forall|ptr: u32| translate_in(vmem@, ptr) is None
            },
    {
        let page_dir = match frames.alloc_frame() {
            Ok(frame) => frame,
            Err(e) => {
                return Err(e);
            },
        };
        let mut tables: Vec<Option<PageTable>> = Vec::new();
        let mut i: usize = 0;
        while i < ENTRIES
            invariant
                i <= 1024,
                tables@.len() == i,
                forall|k: int| 0 <= k < i ==> #[trigger] tables@[k] is None,
                table_frames(tables@) == vstd::multiset::Multiset::<u32>::empty(),
            decreases 1024 - i,
        {
            proof {
                broadcast use vstd::multiset::group_multiset_axioms;

                lemma_table_frames_push(tables@, None);
                assert(table_frames(tables@).add(table_frame(None)) =~= table_frames(tables@));
            }
            tables.push(None);
            i += 1;
        }
        let vmem = X86VMem { page_dir, tables };
        assert(vmem@ =~= Map::<int, Mapping>::empty());
        proof {
            lemma_frames_kept_taking(
                old(frames)@,
                vstd::multiset::Multiset::empty(),
                vmem.held_frames(),
            );
        }
        Ok(vmem)
    }

    /// Returns what the page of `ptr` is mapped to: the frame and the flags.
    /// Returns `None` if the page is not mapped.
    pub fn resolve(&self, ptr: u32) -> (r: Option<Mapping>)
        requires
            self.inv(),
        ensures
            r == if self@.contains_key(page_of(ptr)) {
                Some(self@[page_of(ptr)])
            } else {
                None
            },
    {
        let page = ptr / (PAGE_SIZE as u32);
        let slot = (page / (ENTRIES as u32)) as usize;
        let index = (page % (ENTRIES as u32)) as usize;
        match &self.tables[slot] {
            Some(table) => {
                assert(table.wf());
                table.entries[index]
            },
            None => None,
        }
    }

    /// Gives the context up: the frames of its page tables and of its page
    /// directory go back to the pool, as many as a copy of it takes.
    ///
    /// The context is not to be bound on a core: the core would go on
    /// consulting it.
    pub fn destroy(self, frames: &mut FrameAllocator)
        requires
            self.inv(),
        ensures
            frames_kept(
                old(frames)@,
                self.held_frames(),
                final(frames)@,
                vstd::multiset::Multiset::empty(),
            ),
            final(frames)@.len() == old(frames)@.len() + X86VMem::clone_cost(self@),
            final(frames)@.take(old(frames)@.len() as int) == old(frames)@,
    {
        let mut this = self;
        let mut i: usize = 0;
        while i < ENTRIES
            invariant
                i <= 1024,
                self.inv(),
                this.page_dir == self.page_dir,
                this.tables@.len() == 1024,
                forall|k: int| 0 <= k < i ==> #[trigger] this.tables@[k] is None,
                forall|k: int| i <= k < 1024 ==> #[trigger] this.tables@[k] == self.tables@[k],
                frames@.len() == old(frames)@.len() + used_slots(self@, i as nat),
                frames@.take(old(frames)@.len() as int) == old(frames)@,
                frames_kept(old(frames)@, self.held_frames(), frames@, this.held_frames()),
            decreases 1024 - i,
        {
            proof {
                self.lemma_slot_used(i as int);
            }
            let ghost pool_before = frames@;
            let ghost tables_before = this.tables@;
            match this.tables[i].take() {
                Some(table) => {
                    assert(table.wf());
                    frames.free_frame(table.frame);
                    proof {
                        lemma_table_frames_change(
                            this.tables@,
                            tables_before,
                            i as int,
                            this.page_dir,
                        );
                        lemma_frames_kept_giving(
                            pool_before,
                            table_frames(tables_before).insert(this.page_dir),
                            this.held_frames(),
                            table.frame,
                        );
                        assert(frames@.take(old(frames)@.len() as int) =~= pool_before.take(
                            old(frames)@.len() as int,
                        ));
                    }
                },
                None => {
                    assert(this.tables@ =~= tables_before);
                },
            }
            i += 1;
        }
        let ghost pool_before = frames@;
        frames.free_frame(this.page_dir);
        proof {
            broadcast use vstd::multiset::group_multiset_axioms;

            lemma_table_frames_vacant(this.tables@);
            assert(this.held_frames() =~= vstd::multiset::Multiset::empty().insert(this.page_dir));
            lemma_frames_kept_giving(
                pool_before,
                this.held_frames(),
                vstd::multiset::Multiset::empty(),
                this.page_dir,
            );
            assert(frames@.take(old(frames)@.len() as int) =~= pool_before.take(
                old(frames)@.len() as int,
            ));
        }
    }

    /// Returns the number of page tables of the context.
    fn count_tables(&self) -> (r: usize)
        requires
            self.inv(),
        ensures
            r == used_slots(self@, 1024),
            r <= 1024,
    {
        let mut count: usize = 0;
        let mut i: usize = 0;
        while i < ENTRIES
            invariant
                i <= 1024,
                self.inv(),
                count == used_slots(self@, i as nat),
                count <= i,
            decreases 1024 - i,
        {
            proof {
                self.lemma_slot_used(i as int);
            }
            if self.tables[i].is_some() {
                count += 1;
            }
            i += 1;
        }
        count
    }

    /// A page table exists if and only if one of its pages is mapped.
    proof fn lemma_slot_used(&self, slot: int)
        requires
            self.inv(),
            0 <= slot < 1024,
        ensures
            slot_used(self@, slot) <==> self.tables@[slot] is Some,
    {
        if self.tables@[slot] is Some {
            let table = self.tables@[slot]->0;
            let i = choose|i: int| 0 <= i < 1024 && #[trigger] table.entries@[i] is Some;
            let page = slot * 1024 + i;
            assert(page / 1024 == slot && page % 1024 == i);
            assert(self@.contains_key(page));
        }
    }
}

impl VMem for X86VMem {
    closed spec fn inv(&self) -> bool {
        &&& self.tables_wf()
        &&& forall|slot: int|
            0 <= slot < 1024 ==> (#[trigger] self.tables@[slot] matches Some(table)
                ==> !table.is_vacant())
    }

    closed spec fn view(&self) -> Map<int, Mapping> {
        Map::new(
            |page: int| 0 <= page < page_count() && self.entry(page) is Some,
            |page: int| self.entry(page)->0,
        )
    }

    closed spec fn handle(&self) -> u32 {
        self.page_dir
    }

    closed spec fn held_frames(&self) -> vstd::multiset::Multiset<u32> {
        table_frames(self.tables@).insert(self.page_dir)
    }

    /// Mapping a page takes a frame if its page table does not exist yet.
    open spec fn map_cost(mappings: Map<int, Mapping>, page: int) -> nat {
        if slot_used(mappings, page / 1024) {
            0
        } else {
            1
        }
    }

    /// Unmapping a page needs no frame.
    open spec fn unmap_cost(mappings: Map<int, Mapping>, page: int) -> nat {
        0
    }

    /// Unmapping the last page of a page table gives the table's frame back.
    open spec fn unmap_gain(mappings: Map<int, Mapping>, page: int) -> nat {
        if mappings.contains_key(page) && !slot_used(mappings.remove(page), page / 1024) {
            1
        } else {
            0
        }
    }

    /// A copy takes a frame for the page directory and one for each page
    /// table.
    open spec fn clone_cost(mappings: Map<int, Mapping>) -> nat {
        1 + used_slots(mappings, 1024)
    }

    proof fn lemma_inv_mappings(&self) {
        assert forall|page: int| #[trigger] self@.contains_key(page) implies 0 <= page
            < page_count() && is_page_aligned(self@[page].phys) by {
            let table = self.tables@[page / 1024]->0;
            assert(table.wf());
            assert(table.entries@[page % 1024] is Some);
        }
    }

    fn translate(&self, ptr: u32) -> (r: Option<u32>) {
        let page = ptr / (PAGE_SIZE as u32);
        let slot = (page / (ENTRIES as u32)) as usize;
        let index = (page % (ENTRIES as u32)) as usize;
        match &self.tables[slot] {
            Some(table) => {
                assert(table.wf());
                match table.entries[index] {
                    Some(mapping) => Some(mapping.phys + ptr % (PAGE_SIZE as u32)),
                    None => None,
                }
            },
            None => None,
        }
    }

    fn map(
        &mut self,
        cpu: &mut Cpu,
        frames: &mut FrameAllocator,
        physaddr: u32,
        virtaddr: u32,
        flags: u32,
    ) -> (r: AllocResult<()>) {
        let page = virtaddr / (PAGE_SIZE as u32);
        let slot = (page / (ENTRIES as u32)) as usize;
        let index = (page % (ENTRIES as u32)) as usize;
        proof {
            self.lemma_slot_used(slot as int);
        }
        if self.tables[slot].is_none() {
            let frame = match frames.alloc_frame() {
                Ok(frame) => frame,
                Err(e) => {
                    return Err(e);
                },
            };
            self.tables[slot] = Some(PageTable::new(frame));
            proof {
                lemma_table_frames_change(
                    old(self).tables@,
                    self.tables@,
                    slot as int,
                    self.page_dir,
                );
                lemma_frames_kept_taking(
                    old(frames)@,
                    old(self).held_frames(),
                    self.held_frames(),
                );
            }
        }
        let ghost tables_before = self.tables@;
        let mapping = Mapping { phys: down_align(physaddr), flags };
        match &mut self.tables[slot] {
            Some(table) => {
                table.entries[index] = Some(mapping);
            },
            None => {},
        }
        proof {
            lemma_table_frames_same(tables_before, self.tables@, slot as int);
            assert(page_addr(page_of(physaddr)) == mapping.phys);
            let table = self.tables@[slot as int]->0;
            assert(table.entries@[index as int] is Some);
            assert(self@ =~= old(self)@.insert(page as int, mapping)) by {
                assert forall|p: int|
                    self@.contains_key(p) <==> old(self)@.insert(page as int, mapping).contains_key(
                        p,
                    ) by {
                    if 0 <= p < page_count() && p != page {
                        assert(p / 1024 != slot || p % 1024 != index);
                    }
                }
                assert forall|p: int| self@.contains_key(p) implies self@[p] == old(self)@.insert(
                    page as int,
                    mapping,
                )[p] by {
                    if p != page {
                        assert(p / 1024 != slot || p % 1024 != index);
                    }
                }
            }
        }
        self.invalidate_page(cpu, virtaddr);
        Ok(())
    }

    fn map_range(
        &mut self,
        cpu: &mut Cpu,
        frames: &mut FrameAllocator,
        physaddr: u32,
        virtaddr: u32,
        pages: usize,
        flags: u32,
    ) -> (r: AllocResult<()>) {
        let ghost costs = Self::costs();
        let ghost frame0 = page_of(physaddr);
        let ghost page0 = page_of(virtaddr);
        let ghost expected = map_pages(
            costs,
            model(self@, cpu@, frames@),
            frame0,
            page0,
            pages as nat,
            flags,
        );
        let mut i: usize = 0;
        while i < pages
            invariant
                i <= pages,
                self.inv(),
                self.handle() == old(self).handle(),
                costs == Self::costs(),
                frame0 == page_of(physaddr),
                page0 == page_of(virtaddr),
                frame0 + pages <= page_count(),
                page0 + pages <= page_count(),
                cpu@ == (CpuState { tlb: cpu@.tlb, ..old(cpu)@ }),
                frames@.len() <= old(frames)@.len(),
                frames@ == old(frames)@.take(frames@.len() as int),
                frames_kept(old(frames)@, old(self).held_frames(), frames@, self.held_frames()),
                expected == map_pages(
                    costs,
                    model(old(self)@, old(cpu)@, old(frames)@),
                    frame0,
                    page0,
                    pages as nat,
                    flags,
                ),
                map_pages(
                    costs,
                    model(self@, cpu@, frames@),
                    frame0 + i,
                    page0 + i,
                    (pages - i) as nat,
                    flags,
                ) == expected,
            decreases pages - i,
        {
            let offset = (i * PAGE_SIZE) as u32;
            assert(page_of((physaddr + offset) as u32) == frame0 + i);
            assert(page_of((virtaddr + offset) as u32) == page0 + i);
            let ghost before = model(self@, cpu@, frames@);
            let ghost step = map_one(costs, before, frame0 + i, page0 + i, flags);
            assert(map_pages(costs, before, frame0 + i, page0 + i, (pages - i) as nat, flags)
                == if step.1 {
                map_pages(
                    costs,
                    step.0,
                    frame0 + i + 1,
                    page0 + i + 1,
                    (pages - i - 1) as nat,
                    flags,
                )
            } else {
                step
            });
            let ghost frames_before = frames@;
            let r = self.map(cpu, frames, physaddr + offset, virtaddr + offset, flags);
            assert(frames@.len() <= frames_before.len());
            assert(frames@ =~= old(frames)@.take(frames@.len() as int));
            match r {
                Ok(()) => {},
                Err(e) => {
                    return Err(e);
                },
            }
            i += 1;
        }
        Ok(())
    }

    fn unmap(&mut self, cpu: &mut Cpu, frames: &mut FrameAllocator, virtaddr: u32) -> (r:
        AllocResult<()>)
        ensures
            r is Ok,
            final(frames)@.take(old(frames)@.len() as int) == old(frames)@,
    {
        let page = virtaddr / (PAGE_SIZE as u32);
        let slot = (page / (ENTRIES as u32)) as usize;
        let index = (page % (ENTRIES as u32)) as usize;
        let mut vacant = false;
        match &mut self.tables[slot] {
            Some(table) => {
                table.entries[index] = None;
                vacant = table.is_empty();
            },
            None => {},
        }
        proof {
            lemma_table_frames_same(old(self).tables@, self.tables@, slot as int);
            if old(self).tables@[slot as int] is Some {
                let table = self.tables@[slot as int]->0;
                let old_table = old(self).tables@[slot as int]->0;
                if vacant {
                    assert(!slot_used(self@, slot as int));
                    assert(old_table.entries@[index as int] is Some) by {
                        let i = choose|i: int|
                            0 <= i < 1024 && #[trigger] old_table.entries@[i] is Some;
                        assert(table.entries@[i] is None);
                    }
                    assert(old(self)@.contains_key(page as int));
                } else {
                    let i = choose|i: int| 0 <= i < 1024 && #[trigger] table.entries@[i] is Some;
                    let p = slot * 1024 + i;
                    assert(p / 1024 == slot && p % 1024 == i);
                    assert(self@.contains_key(p));
                    assert(slot_used(self@, slot as int));
                }
            } else {
                assert(!old(self)@.contains_key(page as int));
            }
            assert(self@ =~= old(self)@.remove(page as int)) by {
                assert forall|p: int|
                    self@.contains_key(p) <==> old(self)@.remove(page as int).contains_key(p) by {
                    if 0 <= p < page_count() && p != page {
                        assert(p / 1024 != slot || p % 1024 != index);
                    }
                }
                assert forall|p: int| self@.contains_key(p) implies self@[p] == old(self)@.remove(
                    page as int,
                )[p] by {
                    if p != page {
                        assert(p / 1024 != slot || p % 1024 != index);
                    }
                }
            }
        }
        if vacant {
            let ghost emptied = self@;
            let ghost tables_before = self.tables@;
            let table = self.tables[slot].take();
            match table {
                Some(table) => {
                    frames.free_frame(table.frame);
                },
                None => {},
            }
            assert(self@ =~= emptied);
            proof {
                lemma_table_frames_change(
                    self.tables@,
                    tables_before,
                    slot as int,
                    self.page_dir,
                );
                lemma_frames_kept_giving(
                    old(frames)@,
                    old(self).held_frames(),
                    self.held_frames(),
                    tables_before[slot as int]->0.frame,
                );
            }
        }
        assert(frames@.take(old(frames)@.len() as int) =~= old(frames)@);
        self.invalidate_page(cpu, virtaddr);
        Ok(())
    }

    fn unmap_range(
        &mut self,
        cpu: &mut Cpu,
        frames: &mut FrameAllocator,
        virtaddr: u32,
        pages: usize,
    ) -> (r: AllocResult<()>)
        ensures
            r is Ok,
            final(frames)@.take(old(frames)@.len() as int) == old(frames)@,
    {
        let ghost costs = Self::costs();
        let ghost page0 = page_of(virtaddr);
        let ghost expected = unmap_pages(
            costs,
            model(self@, cpu@, frames@),
            page0,
            pages as nat,
        );
        let mut i: usize = 0;
        while i < pages
            invariant
                i <= pages,
                self.inv(),
                self.handle() == old(self).handle(),
                costs == Self::costs(),
                page0 == page_of(virtaddr),
                page0 + pages <= page_count(),
                cpu@ == (CpuState { tlb: cpu@.tlb, ..old(cpu)@ }),
                frames@.take(old(frames)@.len() as int) == old(frames)@,
                old(frames)@.len() <= frames@.len(),
                frames_kept(old(frames)@, old(self).held_frames(), frames@, self.held_frames()),
                expected == unmap_pages(
                    costs,
                    model(old(self)@, old(cpu)@, old(frames)@),
                    page0,
                    pages as nat,
                ),
                unmap_pages(
                    costs,
                    model(self@, cpu@, frames@),
                    page0 + i,
                    (pages - i) as nat,
                ) == expected,
            decreases pages - i,
        {
            let offset = (i * PAGE_SIZE) as u32;
            assert(page_of((virtaddr + offset) as u32) == page0 + i);
            let ghost before = frames@;
            match self.unmap(cpu, frames, virtaddr + offset) {
                Ok(()) => {},
                Err(e) => {
                    return Err(e);
                },
            }
            assert(frames@.take(old(frames)@.len() as int) =~= before.take(
                old(frames)@.len() as int,
            ));
            i += 1;
        }
        Ok(())
    }

    fn bind(&self, cpu: &mut Cpu) {
        if !self.is_bound(cpu) {
            cpu.paging_enable(self.page_dir);
        }
    }

    fn is_bound(&self, cpu: &Cpu) -> (r: bool) {
        match cpu.cr3_get() {
            Some(context) => context == self.page_dir,
            None => false,
        }
    }

    fn invalidate_page(&self, cpu: &mut Cpu, addr: u32) {
        cpu.invlpg(addr);
    }

    fn flush(&self, cpu: &mut Cpu) {
        if self.is_bound(cpu) {
            cpu.tlb_reload();
        }
    }

    fn try_clone(&self, frames: &mut FrameAllocator) -> (r: AllocResult<Self>)
        ensures
            r matches Ok(copy) ==> copy.handle() == old(frames)@.last(),
    {
        let count = self.count_tables();
        if frames.available() <= count {
            return Err(AllocError);
        }
        let page_dir = match frames.alloc_frame() {
            Ok(frame) => frame,
            Err(e) => {
                return Err(e);
            },
        };
        let mut tables: Vec<Option<PageTable>> = Vec::new();
        let mut i: usize = 0;
        proof {
            lemma_frames_kept_taking(
                old(frames)@,
                vstd::multiset::Multiset::empty(),
                table_frames(tables@).insert(page_dir),
            );
        }
        while i < ENTRIES
            invariant
                i <= 1024,
                self.inv(),
                tables@.len() == i,
                old(frames)@.len() > used_slots(self@, 1024),
                used_slots(self@, i as nat) <= used_slots(self@, 1024),
                frames@ == old(frames)@.take(old(frames)@.len() - 1 - used_slots(self@, i as nat)),
                is_page_aligned(page_dir),
                frames_kept(
                    old(frames)@,
                    vstd::multiset::Multiset::empty(),
                    frames@,
                    table_frames(tables@).insert(page_dir),
                ),
                forall|k: int|
                    0 <= k < i ==> (#[trigger] tables@[k] is Some <==> self.tables@[k] is Some),
                forall|k: int|
                    0 <= k < i ==> (#[trigger] tables@[k] matches Some(table) ==> table.wf()
                        && table.entries@ == self.tables@[k]->0.entries@),
            decreases 1024 - i,
        {
            proof {
                self.lemma_slot_used(i as int);
                lemma_used_slots_monotonic(self@, (i + 1) as nat, 1024);
            }
            match &self.tables[i] {
                Some(table) => {
                    let ghost before = frames@;
                    let frame = match frames.alloc_frame() {
                        Ok(frame) => frame,
                        Err(e) => {
                            return Err(e);
                        },
                    };
                    assert(frames@ =~= old(frames)@.take(
                        old(frames)@.len() - 1 - used_slots(self@, (i + 1) as nat),
                    ));
                    let copy = Some(table.copy_to(frame));
                    proof {
                        broadcast use vstd::multiset::group_multiset_axioms;

                        lemma_table_frames_push(tables@, copy);
                        assert(table_frames(tables@.push(copy)).insert(page_dir) =~= table_frames(
                            tables@,
                        ).insert(page_dir).insert(frame));
                        lemma_frames_kept_taking(
                            before,
                            table_frames(tables@).insert(page_dir),
                            table_frames(tables@.push(copy)).insert(page_dir),
                        );
                    }
                    tables.push(copy);
                },
                None => {
                    proof {
                        broadcast use vstd::multiset::group_multiset_axioms;

                        lemma_table_frames_push(tables@, None);
                        assert(table_frames(tables@.push(None)) =~= table_frames(tables@));
                    }
                    tables.push(None);
                },
            }
            i += 1;
        }
        let copy = X86VMem { page_dir, tables };
        proof {
            assert forall|slot: int| 0 <= slot < 1024 implies (
            #[trigger] copy.tables@[slot] matches Some(table) ==> !table.is_vacant()) by {
                if copy.tables@[slot] is Some {
                    let table = copy.tables@[slot]->0;
                    let source = self.tables@[slot]->0;
                    let k = choose|k: int| 0 <= k < 1024 && #[trigger] source.entries@[k] is Some;
                    assert(table.entries@[k] is Some);
                }
            }
            assert(copy@ =~= self@);
        }
        Ok(copy)
    }
}

} // verus!
