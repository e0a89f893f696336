//! What the operations on an address-space context do, in terms of what they
//! read and change.
//!
//! An operation reads and changes three things: the mappings of the context,
//! the number of free frames, and the translation cache of the core.
//! [`Model`] holds the three. [`map_one`] and [`unmap_one`] say what mapping
//! and unmapping one page make of them; [`map_pages`], [`unmap_pages`] and
//! [`protect_sections`] say the same of the operations that go page by page,
//! and stop at the first page that fails.
//!
//! [`frames_kept`] says that an operation neither loses a frame nor makes
//! one up.
//!
//! The proof functions state what follows for translation, for ranges, for
//! the frames and for the coherence of the translation cache.

use crate::cpu::tlb_coherent;
use crate::cpu::CpuState;
use crate::memory::is_page_aligned;
use crate::memory::page_addr;
use crate::memory::page_base;
use crate::memory::page_count;
use crate::memory::page_of;
use crate::memory::page_offset;
use crate::memory::spec_kern_to_phys;
use crate::memory::spec_kern_to_virt;
use crate::memory::vmem::KernelSection;
use crate::memory::vmem::Mapping;
use crate::memory::vmem::FLAGS_PROTECTED;
use vstd::prelude::*;

verus! {

/// The address that `mappings` translate `ptr` to.
pub open spec fn translate_in(mappings: Map<int, Mapping>, ptr: u32) -> Option<u32> {
    if mappings.contains_key(page_of(ptr)) {
        Some((mappings[page_of(ptr)].phys + page_offset(ptr)) as u32)
    } else {
        None
    }
}

/// Whether `mappings` are those of a context: every mapped page lies in the
/// address space, and is mapped to the beginning of a frame.
pub open spec fn mappings_wf(mappings: Map<int, Mapping>) -> bool {
    forall|page: int| #[trigger]
        mappings.contains_key(page) ==> 0 <= page < page_count() && is_page_aligned(
            mappings[page].phys,
        )
}

/// What the operations of an architecture cost in frames. Each entry takes
/// the mappings of a context and the number of a page.
pub struct Costs {
    /// The number of frames that mapping the page takes from the pool.
    pub map: spec_fn(Map<int, Mapping>, int) -> nat,
    /// The number of frames that must be free for unmapping the page to go
    /// through.
    pub unmap: spec_fn(Map<int, Mapping>, int) -> nat,
    /// The number of frames that unmapping the page gives back to the pool.
    pub unmap_gain: spec_fn(Map<int, Mapping>, int) -> nat,
}

/// What the operations on a context read and change.
pub struct Model {
    /// The mappings of the context, by the number of the virtual page.
    pub mappings: Map<int, Mapping>,
    /// The number of free frames.
    pub frames: nat,
    /// The translation cache of the core.
    pub tlb: Map<int, u32>,
}

/// Whether the context with the handle `handle` is the one that a core in
/// the state `cpu` consults.
pub open spec fn is_bound_to(handle: u32, cpu: CpuState) -> bool {
    cpu.context == Some(handle)
}

/// What an operation starts from, on a context with the given mappings.
pub open spec fn model(mappings: Map<int, Mapping>, cpu: CpuState, frames: Seq<u32>) -> Model {
    Model { mappings, frames: frames.len(), tlb: cpu.tlb }
}

/// Whether an operation ended as `expected` says: `mappings`, `cpu` and
/// `frames` are what it left, `ok` tells whether it succeeded, and
/// `cpu_before` is the core as the operation found it. Of the core only the
/// translation cache may have changed.
pub open spec fn outcome(
    mappings: Map<int, Mapping>,
    cpu: CpuState,
    frames: Seq<u32>,
    ok: bool,
    cpu_before: CpuState,
    expected: (Model, bool),
) -> bool {
    &&& ok == expected.1
    &&& mappings == expected.0.mappings
    &&& frames.len() == expected.0.frames
    &&& cpu == CpuState { tlb: expected.0.tlb, ..cpu_before }
}

/// Whether no frame was lost and none made up between two moments: the free
/// frames of the pool and the frames that a context holds are, taken
/// together, the same after as before.
pub open spec fn frames_kept(
    pool_before: Seq<u32>,
    held_before: vstd::multiset::Multiset<u32>,
    pool_after: Seq<u32>,
    held_after: vstd::multiset::Multiset<u32>,
) -> bool {
    pool_after.to_multiset().add(held_after) == pool_before.to_multiset().add(held_before)
}

/// Taking the last free frame out of a pool, or giving a frame back to it,
/// moves that one frame.
pub proof fn lemma_pool_moves(pool: Seq<u32>)
    ensures
        pool.len() > 0 ==> pool.to_multiset() == pool.drop_last().to_multiset().insert(pool.last()),
        forall|frame: u32| #[trigger]
            pool.push(frame).to_multiset() == pool.to_multiset().insert(frame),
{
    assert forall|frame: u32| #[trigger]
        pool.push(frame).to_multiset() == pool.to_multiset().insert(frame) by {
        vstd::seq_lib::to_multiset_build(pool, frame);
    }
    if pool.len() > 0 {
        vstd::seq_lib::to_multiset_build(pool.drop_last(), pool.last());
        assert(pool =~= pool.drop_last().push(pool.last()));
    }
}

/// No frame is lost or made up where a context takes the last free frame of
/// the pool.
pub proof fn lemma_frames_kept_taking(
    pool: Seq<u32>,
    held_before: vstd::multiset::Multiset<u32>,
    held_after: vstd::multiset::Multiset<u32>,
)
    requires
        pool.len() > 0,
        held_after == held_before.insert(pool.last()),
    ensures
        frames_kept(pool, held_before, pool.drop_last(), held_after),
{
    broadcast use vstd::multiset::group_multiset_axioms;

    lemma_pool_moves(pool);
    assert(pool.drop_last().to_multiset().add(held_after) =~= pool.to_multiset().add(held_before));
}

/// No frame is lost or made up where a context gives a frame that it holds
/// back to the pool.
pub proof fn lemma_frames_kept_giving(
    pool: Seq<u32>,
    held_before: vstd::multiset::Multiset<u32>,
    held_after: vstd::multiset::Multiset<u32>,
    frame: u32,
)
    requires
        held_before == held_after.insert(frame),
    ensures
        frames_kept(pool, held_before, pool.push(frame), held_after),
{
    broadcast use vstd::multiset::group_multiset_axioms;

    lemma_pool_moves(pool);
    assert(pool.push(frame).to_multiset().add(held_after) =~= pool.to_multiset().add(
        held_before,
    ));
}

/// Where no frame was lost or made up, and every frame was either free once
/// or held once before, so it is after: no frame is free twice, none is held
/// twice, and none is free and held at once.
pub proof fn lemma_frames_kept_apart(
    pool_before: Seq<u32>,
    held_before: vstd::multiset::Multiset<u32>,
    pool_after: Seq<u32>,
    held_after: vstd::multiset::Multiset<u32>,
)
    requires
        frames_kept(pool_before, held_before, pool_after, held_after),
        forall|frame: u32|
            pool_before.to_multiset().count(frame) + held_before.count(frame) <= 1,
    ensures
        forall|frame: u32| pool_after.to_multiset().count(frame) + held_after.count(frame) <= 1,
{
    broadcast use vstd::multiset::group_multiset_axioms;

    assert forall|frame: u32|
        pool_after.to_multiset().count(frame) + held_after.count(frame) <= 1 by {
        assert(pool_after.to_multiset().add(held_after).count(frame)
            == pool_before.to_multiset().add(held_before).count(frame));
    }
}

/// The result of mapping the page `page` to the frame with the number
/// `frame`, and whether it succeeds. The core's cached translation of the
/// page is dropped.
pub open spec fn map_one(costs: Costs, s: Model, frame: int, page: int, flags: u32) -> (
    Model,
    bool,
) {
    let cost = (costs.map)(s.mappings, page);
    if cost > s.frames {
        (s, false)
    } else {
        (
            Model {
                mappings: s.mappings.insert(page, Mapping { phys: page_addr(frame), flags }),
                frames: (s.frames - cost) as nat,
                tlb: s.tlb.remove(page),
            },
            true,
        )
    }
}

/// The result of mapping `pages` pages one after the other, beginning with
/// the page `page` and the frame `frame`, and whether all of them were
/// mapped. The first failure ends it.
pub open spec fn map_pages(
    costs: Costs,
    s: Model,
    frame: int,
    page: int,
    pages: nat,
    flags: u32,
) -> (Model, bool)
    decreases pages,
{
    if pages == 0 {
        (s, true)
    } else {
        let first = map_one(costs, s, frame, page, flags);
        if first.1 {
            map_pages(costs, first.0, frame + 1, page + 1, (pages - 1) as nat, flags)
        } else {
            first
        }
    }
}

/// The result of unmapping the page `page`, and whether it succeeds. The
/// core's cached translation of the page is dropped.
pub open spec fn unmap_one(costs: Costs, s: Model, page: int) -> (Model, bool) {
    let cost = (costs.unmap)(s.mappings, page);
    if cost > s.frames {
        (s, false)
    } else {
        (
            Model {
                mappings: s.mappings.remove(page),
                frames: (s.frames - cost + (costs.unmap_gain)(s.mappings, page)) as nat,
                tlb: s.tlb.remove(page),
            },
            true,
        )
    }
}

/// The result of unmapping `pages` pages one after the other, beginning
/// with the page `page`, and whether all of them were unmapped. The first
/// failure ends it.
pub open spec fn unmap_pages(costs: Costs, s: Model, page: int, pages: nat) -> (
    Model,
    bool,
)
    decreases pages,
{
    if pages == 0 {
        (s, true)
    } else {
        let first = unmap_one(costs, s, page);
        if first.1 {
            unmap_pages(costs, first.0, page + 1, (pages - 1) as nat)
        } else {
            first
        }
    }
}

/// The result of protecting `sections` one after the other, and whether all
/// of them were gone through. A section that is protected is mapped page by
/// page with [`FLAGS_PROTECTED`]; the first failure ends it.
pub open spec fn protect_sections(
    costs: Costs,
    s: Model,
    sections: Seq<KernelSection>,
) -> (Model, bool)
    decreases sections.len(),
{
    if sections.len() == 0 {
        (s, true)
    } else {
        let section = sections.first();
        let first = if section.is_protected() {
            map_pages(
                costs,
                s,
                page_of(spec_kern_to_phys(section.addr)),
                page_of(spec_kern_to_virt(section.addr)),
                section.pages(),
                FLAGS_PROTECTED,
            )
        } else {
            (s, true)
        };
        if first.1 {
            protect_sections(costs, first.0, sections.drop_first())
        } else {
            first
        }
    }
}

/// In a context without a mapping no address translates.
pub proof fn lemma_empty_translates_nothing(ptr: u32)
    ensures
        translate_in(Map::<int, Mapping>::empty(), ptr) is None,
{
}

/// After a page was mapped, its addresses translate into the frame it was
/// mapped to, and the addresses of every other page translate as before. An
/// address translates to the physical address given where the two have the
/// same offset in their pages.
pub proof fn lemma_map_translates(
    costs: Costs,
    s: Model,
    physaddr: u32,
    virtaddr: u32,
    flags: u32,
)
    requires
        map_one(costs, s, page_of(physaddr), page_of(virtaddr), flags).1,
    ensures
        ({
            let after = map_one(costs, s, page_of(physaddr), page_of(virtaddr), flags).0;
            &&& translate_in(after.mappings, virtaddr) == Some(
                (page_base(physaddr) + page_offset(virtaddr)) as u32,
            )
            &&& page_offset(physaddr) == page_offset(virtaddr) ==> translate_in(
                after.mappings,
                virtaddr,
            ) == Some(physaddr)
            &&& forall|ptr: u32|
                page_of(ptr) != page_of(virtaddr) ==> translate_in(after.mappings, ptr)
                    == translate_in(s.mappings, ptr)
        }),
{
}

/// After a page was unmapped, none of its addresses translates, and the
/// addresses of every other page translate as before.
pub proof fn lemma_unmap_translates(costs: Costs, s: Model, virtaddr: u32)
    requires
        unmap_one(costs, s, page_of(virtaddr)).1,
    ensures
        ({
            let after = unmap_one(costs, s, page_of(virtaddr)).0;
            &&& translate_in(after.mappings, virtaddr) is None
            &&& forall|ptr: u32|
                page_of(ptr) != page_of(virtaddr) ==> translate_in(after.mappings, ptr)
                    == translate_in(s.mappings, ptr)
        }),
{
}

/// Mapping a page that is mapped already puts the new frame in place of the
/// old one: the page translates into the new frame, and the set of mapped
/// pages is what it was.
pub proof fn lemma_remap_replaces(
    costs: Costs,
    s: Model,
    first: u32,
    second: u32,
    virtaddr: u32,
    flags: u32,
)
    requires
        map_one(costs, s, page_of(first), page_of(virtaddr), flags).1,
        map_one(
            costs,
            map_one(costs, s, page_of(first), page_of(virtaddr), flags).0,
            page_of(second),
            page_of(virtaddr),
            flags,
        ).1,
    ensures
        ({
            let once = map_one(costs, s, page_of(first), page_of(virtaddr), flags).0;
            let twice = map_one(costs, once, page_of(second), page_of(virtaddr), flags).0;
            &&& twice.mappings.dom() == once.mappings.dom()
            &&& twice.mappings == s.mappings.insert(
                page_of(virtaddr),
                Mapping { phys: page_base(second), flags },
            )
            &&& translate_in(twice.mappings, virtaddr) == Some(
                (page_base(second) + page_offset(virtaddr)) as u32,
            )
        }),
{
    let once = map_one(costs, s, page_of(first), page_of(virtaddr), flags).0;
    let twice = map_one(costs, once, page_of(second), page_of(virtaddr), flags).0;
    assert(twice.mappings.dom() =~= once.mappings.dom());
    assert(twice.mappings =~= s.mappings.insert(
        page_of(virtaddr),
        Mapping { phys: page_base(second), flags },
    ));
}

/// Mapping `a + b` pages in one go is mapping the first `a` of them and, if
/// that went through, the `b` that follow: a range is mapped as so many
/// single pages in a row.
pub proof fn lemma_map_pages_split(
    costs: Costs,
    s: Model,
    frame: int,
    page: int,
    a: nat,
    b: nat,
    flags: u32,
)
    ensures
        map_pages(costs, s, frame, page, a + b, flags) == ({
            let first = map_pages(costs, s, frame, page, a, flags);
            if first.1 {
                map_pages(costs, first.0, frame + a, page + a, b, flags)
            } else {
                first
            }
        }),
    decreases a,
{
    if a > 0 {
        let first = map_one(costs, s, frame, page, flags);
        if first.1 {
            lemma_map_pages_split(
                costs,
                first.0,
                frame + 1,
                page + 1,
                (a - 1) as nat,
                b,
                flags,
            );
        }
    }
}

/// A range of one page is mapped as that page is.
pub proof fn lemma_map_pages_one(
    costs: Costs,
    s: Model,
    frame: int,
    page: int,
    flags: u32,
)
    ensures
        map_pages(costs, s, frame, page, 1, flags) == map_one(
            costs,
            s,
            frame,
            page,
            flags,
        ),
{
    reveal_with_fuel(map_pages, 2);
}

/// Mapping a range of `pages + 1` pages is mapping its first `pages` pages
/// and then, if that went through, mapping the page that follows them as a
/// single page: by induction, a range is mapped as so many single pages one
/// after the other.
pub proof fn lemma_map_pages_last(
    costs: Costs,
    s: Model,
    frame: int,
    page: int,
    pages: nat,
    flags: u32,
)
    ensures
        map_pages(costs, s, frame, page, pages + 1, flags) == ({
            let before = map_pages(costs, s, frame, page, pages, flags);
            if before.1 {
                map_one(costs, before.0, frame + pages, page + pages, flags)
            } else {
                before
            }
        }),
{
    lemma_map_pages_split(costs, s, frame, page, pages, 1, flags);
    let before = map_pages(costs, s, frame, page, pages, flags);
    lemma_map_pages_one(costs, before.0, frame + pages, page + pages, flags);
}

/// Unmapping a range of `pages + 1` pages is unmapping its first `pages`
/// pages and then, if that went through, unmapping the page that follows
/// them as a single page.
pub proof fn lemma_unmap_pages_last(costs: Costs, s: Model, page: int, pages: nat)
    ensures
        unmap_pages(costs, s, page, pages + 1) == ({
            let before = unmap_pages(costs, s, page, pages);
            if before.1 {
                unmap_one(costs, before.0, page + pages)
            } else {
                before
            }
        }),
{
    lemma_unmap_pages_split(costs, s, page, pages, 1);
    reveal_with_fuel(unmap_pages, 2);
}

/// Where a range was mapped to the end, each of its pages is mapped to its
/// frame with the given flags, and every other page is mapped as before.
pub proof fn lemma_map_pages_mappings(
    costs: Costs,
    s: Model,
    frame: int,
    page: int,
    pages: nat,
    flags: u32,
)
    requires
        map_pages(costs, s, frame, page, pages, flags).1,
    ensures
        ({
            let after = map_pages(costs, s, frame, page, pages, flags).0;
            &&& forall|p: int|
                page <= p < page + pages ==> #[trigger] after.mappings.contains_key(p)
                    && after.mappings[p] == Mapping { phys: page_addr(frame + (p - page)), flags }
            &&& forall|p: int|
                !(page <= p < page + pages) ==> (#[trigger] after.mappings.contains_key(p)
                    <==> s.mappings.contains_key(p))
            &&& forall|p: int|
                !(page <= p < page + pages) && s.mappings.contains_key(p)
                    ==> #[trigger] after.mappings[p] == s.mappings[p]
            &&& after.frames <= s.frames
        }),
    decreases pages,
{
    if pages > 0 {
        let first = map_one(costs, s, frame, page, flags);
        let after = map_pages(costs, s, frame, page, pages, flags).0;
        assert(first.1);
        assert(after == map_pages(
            costs,
            first.0,
            frame + 1,
            page + 1,
            (pages - 1) as nat,
            flags,
        ).0);
        lemma_map_pages_mappings(
            costs,
            first.0,
            frame + 1,
            page + 1,
            (pages - 1) as nat,
            flags,
        );
        assert forall|p: int| page <= p < page + pages implies #[trigger] after.mappings.contains_key(
            p,
        ) && after.mappings[p] == (Mapping { phys: page_addr(frame + (p - page)), flags }) by {
            if p == page {
                assert(first.0.mappings.contains_key(p));
                assert(after.mappings.contains_key(p) <==> first.0.mappings.contains_key(p));
                assert(after.mappings[p] == first.0.mappings[p]);
            } else {
                assert(page + 1 <= p < page + 1 + (pages - 1));
                assert(frame + 1 + (p - (page + 1)) == frame + (p - page));
            }
        }
        assert forall|p: int| !(page <= p < page + pages) implies (
        #[trigger] after.mappings.contains_key(p) <==> s.mappings.contains_key(p)) by {
            assert(after.mappings.contains_key(p) <==> first.0.mappings.contains_key(p));
        }
        assert forall|p: int|
            !(page <= p < page + pages) && s.mappings.contains_key(
                p,
            ) implies #[trigger] after.mappings[p] == s.mappings[p] by {
            assert(first.0.mappings.contains_key(p));
            assert(after.mappings[p] == first.0.mappings[p]);
        }
    }
}

/// Where mapping a range failed, a number of its pages below its length were
/// mapped, as a range of their own; the page after them could not be mapped,
/// and nothing was taken back.
pub proof fn lemma_map_pages_failure(
    costs: Costs,
    s: Model,
    frame: int,
    page: int,
    pages: nat,
    flags: u32,
) -> (done: nat)
    requires
        !map_pages(costs, s, frame, page, pages, flags).1,
    ensures
        done < pages,
        map_pages(costs, s, frame, page, done, flags).1,
        map_pages(costs, s, frame, page, pages, flags).0 == map_pages(
            costs,
            s,
            frame,
            page,
            done,
            flags,
        ).0,
        !map_one(
            costs,
            map_pages(costs, s, frame, page, done, flags).0,
            frame + done,
            page + done,
            flags,
        ).1,
    decreases pages,
{
    let first = map_one(costs, s, frame, page, flags);
    if first.1 {
        let rest = lemma_map_pages_failure(
            costs,
            first.0,
            frame + 1,
            page + 1,
            (pages - 1) as nat,
            flags,
        );
        rest + 1
    } else {
        0
    }
}

/// Unmapping `a + b` pages in one go is unmapping the first `a` of them and,
/// if that went through, the `b` that follow.
pub proof fn lemma_unmap_pages_split(
    costs: Costs,
    s: Model,
    page: int,
    a: nat,
    b: nat,
)
    ensures
        unmap_pages(costs, s, page, a + b) == ({
            let first = unmap_pages(costs, s, page, a);
            if first.1 {
                unmap_pages(costs, first.0, page + a, b)
            } else {
                first
            }
        }),
    decreases a,
{
    if a > 0 {
        let first = unmap_one(costs, s, page);
        if first.1 {
            lemma_unmap_pages_split(costs, first.0, page + 1, (a - 1) as nat, b);
        }
    }
}

/// Where a range was unmapped to the end, none of its pages is mapped, and
/// every other page is mapped as before.
pub proof fn lemma_unmap_pages_mappings(
    costs: Costs,
    s: Model,
    page: int,
    pages: nat,
)
    requires
        unmap_pages(costs, s, page, pages).1,
    ensures
        ({
            let after = unmap_pages(costs, s, page, pages).0;
            &&& forall|p: int|
                page <= p < page + pages ==> !#[trigger] after.mappings.contains_key(p)
            &&& forall|p: int|
                !(page <= p < page + pages) ==> (#[trigger] after.mappings.contains_key(p)
                    <==> s.mappings.contains_key(p))
            &&& forall|p: int|
                !(page <= p < page + pages) && s.mappings.contains_key(p)
                    ==> #[trigger] after.mappings[p] == s.mappings[p]
        }),
    decreases pages,
{
    if pages > 0 {
        let first = unmap_one(costs, s, page);
        let after = unmap_pages(costs, s, page, pages).0;
        assert(first.1);
        assert(after == unmap_pages(costs, first.0, page + 1, (pages - 1) as nat).0);
        lemma_unmap_pages_mappings(costs, first.0, page + 1, (pages - 1) as nat);
        assert forall|p: int| page <= p < page + pages implies !#[trigger] after.mappings.contains_key(
            p,
        ) by {
            if p == page {
                assert(!first.0.mappings.contains_key(p));
                assert(after.mappings.contains_key(p) <==> first.0.mappings.contains_key(p));
            } else {
                assert(page + 1 <= p < page + 1 + (pages - 1));
            }
        }
        assert forall|p: int| !(page <= p < page + pages) implies (
        #[trigger] after.mappings.contains_key(p) <==> s.mappings.contains_key(p)) by {
            assert(after.mappings.contains_key(p) <==> first.0.mappings.contains_key(p));
        }
        assert forall|p: int|
            !(page <= p < page + pages) && s.mappings.contains_key(
                p,
            ) implies #[trigger] after.mappings[p] == s.mappings[p] by {
            assert(first.0.mappings.contains_key(p));
            assert(after.mappings[p] == first.0.mappings[p]);
        }
    }
}

/// A translation cache that is coherent with a context stays coherent with
/// it when a page of the context is mapped.
pub proof fn lemma_map_keeps_coherence(costs: Costs, s: Model, frame: int, page: int, flags: u32)
    requires
        tlb_coherent(s.tlb, s.mappings),
    ensures
        ({
            let after = map_one(costs, s, frame, page, flags).0;
            tlb_coherent(after.tlb, after.mappings)
        }),
{
}

/// A translation cache that is coherent with a context stays coherent with
/// it when a page of the context is unmapped.
pub proof fn lemma_unmap_keeps_coherence(costs: Costs, s: Model, page: int)
    requires
        tlb_coherent(s.tlb, s.mappings),
    ensures
        ({
            let after = unmap_one(costs, s, page).0;
            tlb_coherent(after.tlb, after.mappings)
        }),
{
}

/// A translation cache that is coherent with a context stays coherent with
/// it when a range of the context is mapped, to the end or not.
pub proof fn lemma_map_pages_keeps_coherence(
    costs: Costs,
    s: Model,
    frame: int,
    page: int,
    pages: nat,
    flags: u32,
)
    requires
        tlb_coherent(s.tlb, s.mappings),
    ensures
        ({
            let after = map_pages(costs, s, frame, page, pages, flags).0;
            tlb_coherent(after.tlb, after.mappings)
        }),
    decreases pages,
{
    if pages > 0 {
        let first = map_one(costs, s, frame, page, flags);
        lemma_map_keeps_coherence(costs, s, frame, page, flags);
        if first.1 {
            lemma_map_pages_keeps_coherence(
                costs,
                first.0,
                frame + 1,
                page + 1,
                (pages - 1) as nat,
                flags,
            );
        }
    }
}

/// A translation cache that is coherent with a context stays coherent with
/// it when a range of the context is unmapped, to the end or not.
pub proof fn lemma_unmap_pages_keeps_coherence(costs: Costs, s: Model, page: int, pages: nat)
    requires
        tlb_coherent(s.tlb, s.mappings),
    ensures
        ({
            let after = unmap_pages(costs, s, page, pages).0;
            tlb_coherent(after.tlb, after.mappings)
        }),
    decreases pages,
{
    if pages > 0 {
        let first = unmap_one(costs, s, page);
        lemma_unmap_keeps_coherence(costs, s, page);
        if first.1 {
            lemma_unmap_pages_keeps_coherence(costs, first.0, page + 1, (pages - 1) as nat);
        }
    }
}

/// A translation cache that is coherent with a context stays coherent with
/// it when cached translations are dropped: so it does when pages of another
/// context are mapped or unmapped.
pub proof fn lemma_dropping_keeps_coherence(
    tlb: Map<int, u32>,
    mappings: Map<int, Mapping>,
    page: int,
)
    requires
        tlb_coherent(tlb, mappings),
    ensures
        tlb_coherent(tlb.remove(page), mappings),
        tlb_coherent(Map::<int, u32>::empty(), mappings),
{
}

} // verus!
