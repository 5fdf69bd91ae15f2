//! Building the identity view of the physical aperture.

use vstd::prelude::*;

use super::address;
use super::address::{AddressErrorDetail, EptPermissions, GuestPhysicalAddress, HostPhysicalAddress};
use super::entry;
use super::entry::{
    leaf_entry, DecodedEptEntry, EptEntryError, EptLeafSize, EptLevel, EptMemoryType, EptPdEntry,
    EptPdptEntry, EptPml4Entry,
};
use super::inventory::PhysicalInventory;
use super::mtrr;
use super::mtrr::{MemoryTypeInterval, NormalizedMemoryMap};
use super::page;
use super::page::{EptPageAllocator, EptPageOwner, EptPageStore, TablePage};
use super::passing;
use super::scan;
use super::scan::verify_view;
use super::tree;
use super::tree::{Miss, PageTarget, TableMap};
use super::view::ViewId;
use super::walker;
use super::walker::{walk_view, EptValidationError, Hierarchy, WalkResult};
use crate::bits;
use crate::error::{ErrorCode, ErrorPhase, MonadError, MonadResult};

verus! {

broadcast use super::address::group_host_addresses;

/// What a base view is made of.
#[derive(Debug, Clone, Copy, PartialEq, Eq, Structural)]
pub struct BaseViewMetadata {
    pub table_pages: u32,
    pub leaf_1g: u32,
    pub leaf_2m: u32,
    pub leaf_4k: u32,
    pub mapped_pages_4k: u64,
}

/// A base view that has been built but not yet proved.
pub struct BaseViewCandidate<A: EptPageAllocator> {
    pub root: HostPhysicalAddress,
    pub pages: EptPageStore<A>,
    pub inventory: PhysicalInventory,
    pub memory_types: NormalizedMemoryMap,
    pub max_physical_bits: u8,
    pub execute_only_supported: bool,
}

/// What a base view is built from, as contracts see it.
pub struct BuildPlan {
    pub aperture_end: u64,
    pub types: Seq<MemoryTypeInterval>,
    pub bits: u8,
    pub page_1g_supported: bool,
    pub page_2m_supported: bool,
}

/// The leaf that stands at an entry of a level: the page at the lowest level;
/// above it, a large page where the processor has it, the aperture holds all
/// of it, and it has one memory type.
pub open spec fn chosen_leaf(plan: BuildPlan, level: EptLevel, start: int) -> Option<EptLeafSize> {
    let end = start + level.spec_span();
    let whole = end <= plan.aperture_end && mtrr::uniform_over(plan.types, start, end) is Some;
    match level {
        EptLevel::Pml4 => None,
        EptLevel::Pdpt => if plan.page_1g_supported && whole {
            Some(EptLeafSize::Size1G)
        } else {
            None
        },
        EptLevel::Pd => if plan.page_2m_supported && whole {
            Some(EptLeafSize::Size2M)
        } else {
            None
        },
        EptLevel::Pt => Some(EptLeafSize::Size4K),
    }
}

/// The size of the leaf that maps an address.
pub open spec fn chosen_size(plan: BuildPlan, address: int) -> EptLeafSize {
    if chosen_leaf(plan, EptLevel::Pdpt, address - address % 0x4000_0000) is Some {
        EptLeafSize::Size1G
    } else if chosen_leaf(plan, EptLevel::Pd, address - address % 0x20_0000) is Some {
        EptLeafSize::Size2M
    } else {
        EptLeafSize::Size4K
    }
}

/// The word of the identity leaf at an address.
pub open spec fn identity_leaf(plan: BuildPlan, start: int, size: EptLeafSize) -> u64 {
    entry::leaf_entry_word(
        HostPhysicalAddress::at(start as u64),
        size,
        EptPermissions::full(),
        mtrr::uniform_over(plan.types, start, start + size.bytes()).unwrap(),
    )
}

/// Whether an entry stands as planned.
pub open spec fn slot_built(
    pages: Seq<TablePage>,
    tables: TableMap,
    plan: BuildPlan,
    level: EptLevel,
    base: int,
    index: int,
) -> bool {
    let start = base + index * level.spec_span();
    let word = page::page_of(pages, tables[(level, base)]).entries[index];
    let below = tree::child_place(level, base, index);
    if start >= plan.aperture_end {
        &&& word == 0
        &&& level.spec_next() is Some ==> !tables.contains_key(below)
    } else {
        match chosen_leaf(plan, level, start) {
            Some(size) => {
                &&& word == identity_leaf(plan, start, size)
                &&& start + size.bytes() <= plan.aperture_end
                &&& mtrr::uniform_over(plan.types, start, start + size.bytes()) is Some
                &&& entry::leaf_fault(
                    HostPhysicalAddress::at(start as u64),
                    size,
                    EptPermissions::full(),
                    plan.bits,
                ) is None
                &&& level.spec_next() is Some ==> !tables.contains_key(below)
            },
            None => {
                &&& tables.contains_key(below)
                &&& word == entry::table_word(HostPhysicalAddress::at(tables[below]))
                &&& entry::table_fault(HostPhysicalAddress::at(tables[below]), plan.bits) is None
            },
        }
    }
}

/// Whether a place below the top one belongs to the first `done` entries of
/// the table at the top.
pub open spec fn place_inside(
    tables: TableMap,
    top: EptLevel,
    top_base: int,
    done: int,
    level: EptLevel,
    base: int,
) -> bool {
    ||| level == top && base == top_base
    ||| {
        &&& level.spec_code() < top.spec_code()
        &&& top_base <= base
        &&& base + tree::region(level) <= top_base + done * top.spec_span()
        &&& above_filled(tables, level, base)
    }
}

/// Whether the place above a place is filled.
pub open spec fn above_filled(tables: TableMap, level: EptLevel, base: int) -> bool {
    tree::above(level) matches Some(parent) && tables.contains_key(
        (parent, tree::region_start(parent, base)),
    )
}

/// Whether the table at the top has its first `done` entries as planned, with
/// all that hangs below them, and nothing in the others.
pub open spec fn built(
    pages: Seq<TablePage>,
    tables: TableMap,
    plan: BuildPlan,
    top: EptLevel,
    top_base: int,
    done: int,
) -> bool {
    &&& tables.contains_key((top, top_base))
    &&& forall|level: EptLevel, base: int| #[trigger]
        tables.contains_key((level, base)) ==> {
            let table = tables[(level, base)];
            &&& tree::is_place(level, base)
            &&& page::has_page(pages, table)
            &&& page::page_of(pages, table).kind == level.spec_kind()
            &&& page::page_of(pages, table).owner == EptPageOwner::BaseBuild
            &&& place_inside(tables, top, top_base, done, level, base)
        }
    &&& forall|level: EptLevel, base: int, index: int|
        tables.contains_key((level, base)) && 0 <= index < 512 && (level != top || base != top_base
            || index < done) ==> #[trigger] slot_built(pages, tables, plan, level, base, index)
    &&& forall|index: int|
        done <= index < 512 ==> {
            &&& #[trigger] page::page_of(pages, tables[(top, top_base)]).entries[index] == 0
            &&& top.spec_next() is Some ==> !tables.contains_key(
                tree::child_place(top, top_base, index),
            )
        }
    &&& forall|left: (EptLevel, int), right: (EptLevel, int)|
        #![trigger tables.contains_key(left), tables.contains_key(right)]
        tables.contains_key(left) && tables.contains_key(right) && tables[left] == tables[right]
            ==> left == right
}

/// The pages that were there are still there, unchanged.
pub open spec fn grows(before: Seq<TablePage>, after: Seq<TablePage>) -> bool {
    forall|hpa: u64| #[trigger]
        page::has_page(before, hpa) ==> page::has_page(after, hpa) && page::page_of(after, hpa)
            == page::page_of(before, hpa)
}

/// No table of a map stood in these pages.
pub open spec fn all_new(pages: Seq<TablePage>, tables: TableMap) -> bool {
    forall|place: (EptLevel, int)| #[trigger]
        tables.contains_key(place) ==> !page::has_page(pages, tables[place])
}

/// Every page that was not there before is a table of the map.
pub open spec fn all_placed(
    before: Seq<TablePage>,
    after: Seq<TablePage>,
    tables: TableMap,
) -> bool {
    forall|hpa: u64| #[trigger]
        page::has_page(after, hpa) ==> page::has_page(before, hpa) || tree::placed(tables, hpa)
}

/// One entry more that leads to no table.
proof fn lemma_entry_built(
    before: Seq<TablePage>,
    after: Seq<TablePage>,
    tables: TableMap,
    plan: BuildPlan,
    top: EptLevel,
    top_base: int,
    index: int,
    raw: u64,
)
    requires
        page::distinct_pages(before, plan.bits),
        0 <= index < 512,
        built(before, tables, plan, top, top_base, index),
        after == page::with_entry(
            before,
            page::page_index(before, tables[(top, top_base)]),
            index,
            raw,
        ),
        slot_built(after, tables, plan, top, top_base, index),
    ensures
        built(after, tables, plan, top, top_base, index + 1),
{
    let table = tables[(top, top_base)];
    let position = page::page_index(before, table);
    assert(tables.contains_key((top, top_base)));
    page::lemma_with_entry(before, plan.bits, position, index, raw);
    page::lemma_page_index(before, plan.bits, position);
    assert(index * top.spec_span() <= (index + 1) * top.spec_span()) by (nonlinear_arith);
    assert forall|level: EptLevel, base: int| #[trigger]
        tables.contains_key((level, base)) implies {
        let t = tables[(level, base)];
        &&& tree::is_place(level, base)
        &&& page::has_page(after, t)
        &&& page::page_of(after, t).kind == level.spec_kind()
        &&& page::page_of(after, t).owner == EptPageOwner::BaseBuild
        &&& place_inside(tables, top, top_base, index + 1, level, base)
    } by {
        let t = tables[(level, base)];
        assert(page::has_page(before, t));
        assert(place_inside(tables, top, top_base, index, level, base));
    }
    assert forall|level: EptLevel, base: int, i: int|
        tables.contains_key((level, base)) && 0 <= i < 512 && (level != top || base != top_base || i
            < index + 1) implies #[trigger] slot_built(after, tables, plan, level, base, i) by {
        if level == top && base == top_base && i == index {
        } else {
            assert(slot_built(before, tables, plan, level, base, i));
            let t = tables[(level, base)];
            assert(page::has_page(before, t));
            if t == table {
                assert((level, base) == (top, top_base));
            }
        }
    }
    assert forall|i: int| index + 1 <= i < 512 implies {
        &&& #[trigger] page::page_of(after, table).entries[i] == 0
        &&& top.spec_next() is Some ==> !tables.contains_key(tree::child_place(top, top_base, i))
    } by {
        assert(page::page_of(before, table).entries[i] == 0);
    }
}

/// Places of tables below entry `index` are none of those below earlier ones.
proof fn lemma_place_apart(
    tables: TableMap,
    sub: TableMap,
    top: EptLevel,
    top_base: int,
    index: int,
    level: EptLevel,
    base: int,
)
    requires
        0 <= index < 512,
        top.spec_next() is Some,
        tree::is_place(top, top_base),
        tree::is_place(level, base),
        place_inside(tables, top, top_base, index, level, base),
    ensures
        ({
            let start = top_base + index * top.spec_span();
            let child = top.spec_next().unwrap();
            &&& !place_inside(sub, child, start, 512, level, base)
            &&& forall|i: int|
                level.spec_next() is Some && 0 <= i < 512 && (level != top || i != index)
                    ==> !place_inside(
                    sub,
                    child,
                    start,
                    512,
                    (#[trigger] tree::child_place(level, base, i)).0,
                    tree::child_place(level, base, i).1,
                )
        }),
{
    let span = top.spec_span() as int;
    let start = top_base + index * span;
    let child = top.spec_next().unwrap();
    assert forall|i: int|
        level.spec_next() is Some && 0 <= i < 512 && (level != top || i
            != index) implies !place_inside(
        sub,
        child,
        start,
        512,
        (#[trigger] tree::child_place(level, base, i)).0,
        tree::child_place(level, base, i).1,
    ) by {
        let lower = level.spec_next().unwrap();
        let low = base + i * level.spec_span();
        if level == top {
            if i < index {
                assert(low < start) by (nonlinear_arith)
                    requires
                        low == top_base + i * span,
                        start == top_base + index * span,
                        i < index,
                        span > 0,
                ;
            } else {
                assert(low >= start + span) by (nonlinear_arith)
                    requires
                        low == top_base + i * span,
                        start == top_base + index * span,
                        i >= index + 1,
                        span > 0,
                ;
            }
        } else {
            let width = level.spec_span() as int;
            assert(low + width <= base + 512 * width) by (nonlinear_arith)
                requires
                    low == base + i * width,
                    i < 512,
                    width > 0,
            ;
        }
    }
}

/// A table was filled up to an entry, the table that the entry is to lead to
/// was finished, and the entry was written.
spec fn joined(
    before: Seq<TablePage>,
    middle: Seq<TablePage>,
    after: Seq<TablePage>,
    tables: TableMap,
    sub: TableMap,
    plan: BuildPlan,
    top: EptLevel,
    top_base: int,
    index: int,
) -> bool {
    &&& page::distinct_pages(before, plan.bits)
    &&& page::distinct_pages(middle, plan.bits)
    &&& 0 <= index < 512
    &&& tree::is_place(top, top_base)
    &&& top.spec_next() is Some
    &&& top_base + index * top.spec_span() < plan.aperture_end
    &&& chosen_leaf(plan, top, top_base + index * top.spec_span()) is None
    &&& built(before, tables, plan, top, top_base, index)
    &&& grows(before, middle)
    &&& built(
        middle,
        sub,
        plan,
        top.spec_next().unwrap(),
        top_base + index * top.spec_span(),
        512,
    )
    &&& all_new(before, sub)
    &&& entry::table_fault(
        HostPhysicalAddress::at(sub[tree::child_place(top, top_base, index)]),
        plan.bits,
    ) is None
    &&& after == page::with_entry(
        middle,
        page::page_index(middle, tables[(top, top_base)]),
        index,
        entry::table_word(HostPhysicalAddress::at(sub[tree::child_place(top, top_base, index)])),
    )
}

/// The two maps have no place in common.
#[verifier::rlimit(40)]
#[verifier::spinoff_prover]
proof fn lemma_joined_apart(
    before: Seq<TablePage>,
    middle: Seq<TablePage>,
    after: Seq<TablePage>,
    tables: TableMap,
    sub: TableMap,
    plan: BuildPlan,
    top: EptLevel,
    top_base: int,
    index: int,
)
    requires
        joined(before, middle, after, tables, sub, plan, top, top_base, index),
    ensures
        ({
            let all = tables.union_prefer_right(sub);
            let table = tables[(top, top_base)];
            forall|place: (EptLevel, int)| #[trigger]
                tables.contains_key(place) ==> !sub.contains_key(place)
        }),
{
    let span = top.spec_span() as int;
    let child = top.spec_next().unwrap();
    let start = top_base + index * span;
    let link = tree::child_place(top, top_base, index);
    let table = tables[(top, top_base)];
    let all = tables.union_prefer_right(sub);
    let word = entry::table_word(HostPhysicalAddress::at(sub[link]));
    assert(link == (child, start));
    assert(tables.contains_key((top, top_base)));
    assert(page::has_page(before, table));
    assert(page::has_page(middle, table));
    let position = page::page_index(middle, table);
    page::lemma_with_entry(middle, plan.bits, position, index, word);
    page::lemma_page_index(middle, plan.bits, position);
    assert(middle[position].hpa == table);
    assert((index + 1) * span == index * span + span) by (nonlinear_arith);
    assert(tree::region(child) == span);
    assert forall|place: (EptLevel, int)| #[trigger]
        tables.contains_key(place) implies !sub.contains_key(place) by {
        let (level, base) = place;
        assert(tables.contains_key((level, base)));
        assert(place_inside(tables, top, top_base, index, level, base));
        lemma_place_apart(tables, sub, top, top_base, index, level, base);
        if sub.contains_key((level, base)) {
            assert(place_inside(sub, child, start, 512, level, base));
        }
    }
}

/// Every place is filled as it must be.
#[verifier::rlimit(40)]
#[verifier::spinoff_prover]
proof fn lemma_joined_places(
    before: Seq<TablePage>,
    middle: Seq<TablePage>,
    after: Seq<TablePage>,
    tables: TableMap,
    sub: TableMap,
    plan: BuildPlan,
    top: EptLevel,
    top_base: int,
    index: int,
)
    requires
        joined(before, middle, after, tables, sub, plan, top, top_base, index),
        forall|place: (EptLevel, int)| #[trigger]
            tables.contains_key(place) ==> !sub.contains_key(place),
    ensures
        ({
            let all = tables.union_prefer_right(sub);
            let table = tables[(top, top_base)];
            forall|level: EptLevel, base: int| #[trigger]
                all.contains_key((level, base)) ==> {
                let t = all[(level, base)];
                &&& tree::is_place(level, base)
                &&& page::has_page(after, t)
                &&& page::page_of(after, t).kind == level.spec_kind()
                &&& page::page_of(after, t).owner == EptPageOwner::BaseBuild
                &&& place_inside(all, top, top_base, index + 1, level, base)
            }
        }),
{
    let span = top.spec_span() as int;
    let child = top.spec_next().unwrap();
    let start = top_base + index * span;
    let link = tree::child_place(top, top_base, index);
    let table = tables[(top, top_base)];
    let all = tables.union_prefer_right(sub);
    let word = entry::table_word(HostPhysicalAddress::at(sub[link]));
    assert(link == (child, start));
    assert(tables.contains_key((top, top_base)));
    assert(page::has_page(before, table));
    assert(page::has_page(middle, table));
    let position = page::page_index(middle, table);
    page::lemma_with_entry(middle, plan.bits, position, index, word);
    page::lemma_page_index(middle, plan.bits, position);
    assert(middle[position].hpa == table);
    assert((index + 1) * span == index * span + span) by (nonlinear_arith);
    assert(tree::region(child) == span);
    assert forall|level: EptLevel, base: int| #[trigger]
        all.contains_key((level, base)) implies {
        let t = all[(level, base)];
        &&& tree::is_place(level, base)
        &&& page::has_page(after, t)
        &&& page::page_of(after, t).kind == level.spec_kind()
        &&& page::page_of(after, t).owner == EptPageOwner::BaseBuild
        &&& place_inside(all, top, top_base, index + 1, level, base)
    } by {
        if sub.contains_key((level, base)) {
            assert(place_inside(sub, child, start, 512, level, base));
            assert(page::has_page(middle, sub[(level, base)]));
            if (level, base) == link {
                assert(tree::above(child) == Some(top));
                tree::lemma_parent(child, top, start, start as u64);
                lemma_start_of(top, top_base, index);
                assert(all.contains_key((top, top_base)));
            } else {
                assert(above_filled(sub, level, base));
                let parent = tree::above(level).unwrap();
                assert(all.contains_key((parent, tree::region_start(parent, base))));
            }
        } else {
            assert(tables.contains_key((level, base)));
            assert(page::has_page(before, tables[(level, base)]));
            assert(place_inside(tables, top, top_base, index, level, base));
            if level != top || base != top_base {
                let parent = tree::above(level).unwrap();
                assert(all.contains_key((parent, tree::region_start(parent, base))));
            }
        }
    }
}

/// Every entry up to the new one is as it must be.
#[verifier::rlimit(40)]
#[verifier::spinoff_prover]
proof fn lemma_joined_slots(
    before: Seq<TablePage>,
    middle: Seq<TablePage>,
    after: Seq<TablePage>,
    tables: TableMap,
    sub: TableMap,
    plan: BuildPlan,
    top: EptLevel,
    top_base: int,
    index: int,
)
    requires
        joined(before, middle, after, tables, sub, plan, top, top_base, index),
        forall|place: (EptLevel, int)| #[trigger]
            tables.contains_key(place) ==> !sub.contains_key(place),
    ensures
        ({
            let all = tables.union_prefer_right(sub);
            let table = tables[(top, top_base)];
            forall|level: EptLevel, base: int, i: int|
                all.contains_key((level, base)) && 0 <= i < 512 && (level != top || base != top_base || i
                    < index + 1) ==> #[trigger] slot_built(after, all, plan, level, base, i)
        }),
{
    let span = top.spec_span() as int;
    let child = top.spec_next().unwrap();
    let start = top_base + index * span;
    let link = tree::child_place(top, top_base, index);
    let table = tables[(top, top_base)];
    let all = tables.union_prefer_right(sub);
    let word = entry::table_word(HostPhysicalAddress::at(sub[link]));
    assert(link == (child, start));
    assert(tables.contains_key((top, top_base)));
    assert(page::has_page(before, table));
    assert(page::has_page(middle, table));
    let position = page::page_index(middle, table);
    page::lemma_with_entry(middle, plan.bits, position, index, word);
    page::lemma_page_index(middle, plan.bits, position);
    assert(middle[position].hpa == table);
    assert((index + 1) * span == index * span + span) by (nonlinear_arith);
    assert(tree::region(child) == span);
    assert forall|level: EptLevel, base: int, i: int|
        all.contains_key((level, base)) && 0 <= i < 512 && (level != top || base != top_base || i
            < index + 1) implies #[trigger] slot_built(after, all, plan, level, base, i) by {
        if sub.contains_key((level, base)) {
            assert(slot_built(middle, sub, plan, level, base, i));
            let t = sub[(level, base)];
            assert(page::has_page(middle, t));
            assert(t != table) by {
                assert(!page::has_page(before, t));
            }
            assert(page::page_of(after, t) == page::page_of(middle, t));
            if level.spec_next() is Some {
                let below = tree::child_place(level, base, i);
                assert(place_inside(sub, child, start, 512, level, base));
                if tables.contains_key(below) {
                    assert(place_inside(tables, top, top_base, index, below.0, below.1));
                    assert(0 <= i * level.spec_span()) by (nonlinear_arith)
                        requires
                            i >= 0,
                            level.spec_span() > 0,
                    ;
                    assert(below.1 >= start);
                }
                assert(all.contains_key(below) == sub.contains_key(below));
            }
        } else {
            assert(tables.contains_key((level, base)));
            let t = tables[(level, base)];
            assert(page::has_page(before, t));
            assert(page::page_of(middle, t) == page::page_of(before, t));
            assert(place_inside(tables, top, top_base, index, level, base));
            lemma_place_apart(tables, sub, top, top_base, index, level, base);
            if level == top && base == top_base && i == index {
                assert(all.contains_key(link));
                assert(all[link] == sub[link]);
                assert(page::page_of(after, table).entries[index] == word);
            } else {
                assert(slot_built(before, tables, plan, level, base, i));
                if t == table {
                    assert((level, base) == (top, top_base));
                }
                if level.spec_next() is Some {
                    let below = tree::child_place(level, base, i);
                    assert(level != top || i != index) by {
                        if level == top {
                            assert(base == top_base);
                        }
                    }
                    if sub.contains_key(below) {
                        assert(place_inside(sub, child, start, 512, below.0, below.1));
                    }
                    assert(all.contains_key(below) == tables.contains_key(below));
                }
            }
        }
    }
}

/// Every entry behind the new one is empty.
#[verifier::rlimit(40)]
#[verifier::spinoff_prover]
proof fn lemma_joined_rest(
    before: Seq<TablePage>,
    middle: Seq<TablePage>,
    after: Seq<TablePage>,
    tables: TableMap,
    sub: TableMap,
    plan: BuildPlan,
    top: EptLevel,
    top_base: int,
    index: int,
)
    requires
        joined(before, middle, after, tables, sub, plan, top, top_base, index),
        forall|place: (EptLevel, int)| #[trigger]
            tables.contains_key(place) ==> !sub.contains_key(place),
    ensures
        ({
            let all = tables.union_prefer_right(sub);
            let table = tables[(top, top_base)];
            forall|i: int| index + 1 <= i < 512 ==> {
                &&& #[trigger] page::page_of(after, all[(top, top_base)]).entries[i] == 0
                &&& top.spec_next() is Some ==> !all.contains_key(tree::child_place(top, top_base, i))
            }
        }),
{
    let span = top.spec_span() as int;
    let child = top.spec_next().unwrap();
    let start = top_base + index * span;
    let link = tree::child_place(top, top_base, index);
    let table = tables[(top, top_base)];
    let all = tables.union_prefer_right(sub);
    let word = entry::table_word(HostPhysicalAddress::at(sub[link]));
    assert(link == (child, start));
    assert(tables.contains_key((top, top_base)));
    assert(page::has_page(before, table));
    assert(page::has_page(middle, table));
    let position = page::page_index(middle, table);
    page::lemma_with_entry(middle, plan.bits, position, index, word);
    page::lemma_page_index(middle, plan.bits, position);
    assert(middle[position].hpa == table);
    assert((index + 1) * span == index * span + span) by (nonlinear_arith);
    assert(tree::region(child) == span);
    assert forall|i: int| index + 1 <= i < 512 implies {
        &&& #[trigger] page::page_of(after, all[(top, top_base)]).entries[i] == 0
        &&& top.spec_next() is Some ==> !all.contains_key(tree::child_place(top, top_base, i))
    } by {
        assert(all[(top, top_base)] == table);
        assert(page::page_of(before, table).entries[i] == 0);
        let below = tree::child_place(top, top_base, i);
        lemma_place_apart(tables, sub, top, top_base, index, top, top_base);
        if sub.contains_key(below) {
            assert(place_inside(sub, child, start, 512, below.0, below.1));
        }
    }
}

/// No table stands in two places.
#[verifier::rlimit(40)]
#[verifier::spinoff_prover]
proof fn lemma_joined_once(
    before: Seq<TablePage>,
    middle: Seq<TablePage>,
    after: Seq<TablePage>,
    tables: TableMap,
    sub: TableMap,
    plan: BuildPlan,
    top: EptLevel,
    top_base: int,
    index: int,
)
    requires
        joined(before, middle, after, tables, sub, plan, top, top_base, index),
        forall|place: (EptLevel, int)| #[trigger]
            tables.contains_key(place) ==> !sub.contains_key(place),
    ensures
        ({
            let all = tables.union_prefer_right(sub);
            let table = tables[(top, top_base)];
            forall|left: (EptLevel, int), right: (EptLevel, int)|
                #![trigger all.contains_key(left), all.contains_key(right)]
                all.contains_key(left) && all.contains_key(right) && all[left] == all[right] ==> left
                == right
        }),
{
    let span = top.spec_span() as int;
    let child = top.spec_next().unwrap();
    let start = top_base + index * span;
    let link = tree::child_place(top, top_base, index);
    let table = tables[(top, top_base)];
    let all = tables.union_prefer_right(sub);
    let word = entry::table_word(HostPhysicalAddress::at(sub[link]));
    assert(link == (child, start));
    assert(tables.contains_key((top, top_base)));
    assert(page::has_page(before, table));
    assert(page::has_page(middle, table));
    let position = page::page_index(middle, table);
    page::lemma_with_entry(middle, plan.bits, position, index, word);
    page::lemma_page_index(middle, plan.bits, position);
    assert(middle[position].hpa == table);
    assert((index + 1) * span == index * span + span) by (nonlinear_arith);
    assert(tree::region(child) == span);
    assert forall|left: (EptLevel, int), right: (EptLevel, int)|
        #![trigger all.contains_key(left), all.contains_key(right)]
        all.contains_key(left) && all.contains_key(right) && all[left] == all[right] implies left
        == right by {
        if sub.contains_key(left) && sub.contains_key(right) {
        } else if sub.contains_key(left) {
            assert(!page::has_page(before, sub[left]));
            assert(tables.contains_key((right.0, right.1)));
        } else if sub.contains_key(right) {
            assert(!page::has_page(before, sub[right]));
            assert(tables.contains_key((left.0, left.1)));
        } else {
            assert(tables.contains_key(left) && tables.contains_key(right));
        }
    }
}

/// One entry more that leads to a finished table.
proof fn lemma_table_built(
    before: Seq<TablePage>,
    middle: Seq<TablePage>,
    after: Seq<TablePage>,
    tables: TableMap,
    sub: TableMap,
    plan: BuildPlan,
    top: EptLevel,
    top_base: int,
    index: int,
)
    requires
        page::distinct_pages(before, plan.bits),
        page::distinct_pages(middle, plan.bits),
        0 <= index < 512,
        tree::is_place(top, top_base),
        top.spec_next() is Some,
        top_base + index * top.spec_span() < plan.aperture_end,
        chosen_leaf(plan, top, top_base + index * top.spec_span()) is None,
        built(before, tables, plan, top, top_base, index),
        grows(before, middle),
        built(
            middle,
            sub,
            plan,
            top.spec_next().unwrap(),
            top_base + index * top.spec_span(),
            512,
        ),
        all_new(before, sub),
        entry::table_fault(
            HostPhysicalAddress::at(sub[tree::child_place(top, top_base, index)]),
            plan.bits,
        ) is None,
        after == page::with_entry(
            middle,
            page::page_index(middle, tables[(top, top_base)]),
            index,
            entry::table_word(HostPhysicalAddress::at(sub[tree::child_place(top, top_base, index)])),
        ),
    ensures
        built(after, tables.union_prefer_right(sub), plan, top, top_base, index + 1),
        forall|place: (EptLevel, int)| #[trigger]
            tables.contains_key(place) ==> !sub.contains_key(place),
{
    lemma_joined_apart(before, middle, after, tables, sub, plan, top, top_base, index);
    lemma_joined_places(before, middle, after, tables, sub, plan, top, top_base, index);
    lemma_joined_slots(before, middle, after, tables, sub, plan, top, top_base, index);
    lemma_joined_rest(before, middle, after, tables, sub, plan, top, top_base, index);
    lemma_joined_once(before, middle, after, tables, sub, plan, top, top_base, index);
    let all = tables.union_prefer_right(sub);
    assert(tables.contains_key((top, top_base)));
    assert(all.contains_key((top, top_base)));
}

/// The region of a table starts where its place says.
proof fn lemma_start_of(top: EptLevel, top_base: int, index: int)
    requires
        tree::is_place(top, top_base),
        0 <= index < 512,
    ensures
        tree::region_start(top, top_base + index * top.spec_span()) == top_base,
{
    let span = top.spec_span() as int;
    let start = top_base + index * span;
    assert(top_base <= start < top_base + 512 * span) by (nonlinear_arith)
        requires
            start == top_base + index * span,
            0 <= index < 512,
            span > 0,
    ;
    tree::lemma_regions(top, top_base, start as u64);
}

/// A fresh table, in which nothing is built yet.
proof fn lemma_fresh_table(
    before: Seq<TablePage>,
    plan: BuildPlan,
    level: EptLevel,
    base: int,
    hpa: u64,
)
    requires
        page::distinct_pages(before, plan.bits),
        tree::is_place(level, base),
        !page::has_page(before, hpa),
        entry::table_fault(HostPhysicalAddress::at(hpa), plan.bits) is None,
    ensures
        ({
            let after = before.push(
                TablePage {
                    hpa,
                    kind: level.spec_kind(),
                    owner: EptPageOwner::BaseBuild,
                    entries: page::zero_entries(),
                },
            );
            let tables = Map::<(EptLevel, int), u64>::empty().insert((level, base), hpa);
            &&& built(after, tables, plan, level, base, 0)
            &&& grows(before, after)
            &&& all_new(before, tables)
            &&& all_placed(before, after, tables)
            &&& page::distinct_pages(after, plan.bits)
        }),
{
    page::lemma_push_page(
        before,
        plan.bits,
        TablePage {
            hpa,
            kind: level.spec_kind(),
            owner: EptPageOwner::BaseBuild,
            entries: page::zero_entries(),
        },
    );
    let tables = Map::<(EptLevel, int), u64>::empty().insert((level, base), hpa);
    assert(tables.contains_key((level, base)) && tables[(level, base)] == hpa);
}

struct BuildRules<'a> {
    aperture_end: u64,
    memory_types: &'a NormalizedMemoryMap,
    max_physical_bits: u8,
    page_1g_supported: bool,
    page_2m_supported: bool,
    permissions: EptPermissions,
}

impl<'a> BuildRules<'a> {
    spec fn plan(&self) -> BuildPlan {
        BuildPlan {
            aperture_end: self.aperture_end,
            types: self.memory_types.view(),
            bits: self.max_physical_bits,
            page_1g_supported: self.page_1g_supported,
            page_2m_supported: self.page_2m_supported,
        }
    }

    spec fn wf(&self) -> bool {
        &&& entry::supported_width(self.max_physical_bits)
        &&& self.permissions == EptPermissions::full()
        &&& self.aperture_end == self.memory_types.spec_aperture_end()
        &&& self.aperture_end <= 0x1_0000_0000_0000
    }
}

fn build_error(detail: u64) -> (error: MonadError)
    ensures
        error == MonadError::new(ErrorPhase::EptBuild, ErrorCode::EptVerificationFailure, detail),
{
    MonadError::new(ErrorPhase::EptBuild, ErrorCode::EptVerificationFailure, detail)
}

/// The leaf that stands at an entry, if one does: its size and its type.
fn choose_leaf(rules: &BuildRules<'_>, level: EptLevel, start: u64) -> (leaf: Option<
    (EptLeafSize, EptMemoryType),
>)
    requires
        rules.wf(),
        start < rules.aperture_end,
        start % 0x1000 == 0,
    ensures
        match leaf {
            Some((size, memory_type)) => {
                &&& chosen_leaf(rules.plan(), level, start as int) == Some(size)
                &&& size.bytes() == level.spec_span()
                &&& start + size.bytes() <= rules.aperture_end
                &&& mtrr::uniform_over(
                    rules.plan().types,
                    start as int,
                    start + size.bytes(),
                ) == Some(memory_type)
            },
            None => chosen_leaf(rules.plan(), level, start as int) is None,
        },
{
    let _ = rules.memory_types.intervals();
    proof {
        mtrr::lemma_page_is_uniform(rules.plan().types, rules.aperture_end, start as int);
    }
    let end: u64 = start + level.span();
    let (size, supported) = match level {
        EptLevel::Pml4 => {
            return None;
        },
        EptLevel::Pdpt => (EptLeafSize::Size1G, rules.page_1g_supported),
        EptLevel::Pd => (EptLeafSize::Size2M, rules.page_2m_supported),
        EptLevel::Pt => (EptLeafSize::Size4K, true),
    };
    if !supported || end > rules.aperture_end {
        return None;
    }
    match rules.memory_types.uniform_type(start, end) {
        Some(memory_type) => Some((size, memory_type)),
        None => None,
    }
}

/// The word of a leaf that maps its own address.
fn encode_identity(
    rules: &BuildRules<'_>,
    start: u64,
    size: EptLeafSize,
    memory_type: EptMemoryType,
) -> (result: MonadResult<u64>)
    requires
        rules.wf(),
    ensures
        result matches Ok(raw) ==> {
            &&& raw == entry::leaf_entry_word(
                HostPhysicalAddress::at(start),
                size,
                EptPermissions::full(),
                memory_type,
            )
            &&& entry::leaf_fault(
                HostPhysicalAddress::at(start),
                size,
                EptPermissions::full(),
                rules.max_physical_bits,
            ) is None
        },
        result is Ok <==> entry::leaf_fault(
            HostPhysicalAddress::at(start),
            size,
            EptPermissions::full(),
            rules.max_physical_bits,
        ) is None,
        start % size.bytes() == 0 && start + size.bytes() <= u64::MAX ==> (result matches Err(error)
            ==> error == beyond_width()),
{
    proof {
        bits::lemma_low_masks(start);
        entry::lemma_leaf_fits(start, size, rules.max_physical_bits);
    }
    let hpa = HostPhysicalAddress::for_mapping(
        start,
        size.bytes(),
        size.bytes(),
        rules.max_physical_bits,
    )?;
    leaf_entry(size, hpa, rules.permissions, memory_type, rules.max_physical_bits)
}

/// The word of an entry that leads to a table.
pub(crate) fn encode_link(level: EptLevel, hpa: HostPhysicalAddress, max_physical_bits: u8) -> (result:
    MonadResult<u64>)
    requires
        level !is Pt,
    ensures
        match entry::table_fault(hpa, max_physical_bits) {
            Some(fault) => result == Err::<u64, MonadError>(fault.spec_error()),
            None => result == Ok::<u64, MonadError>(entry::table_word(hpa)),
        },
{
    match level {
        EptLevel::Pml4 => Ok(EptPml4Entry::new_table(hpa, max_physical_bits)?.raw()),
        EptLevel::Pdpt => Ok(EptPdptEntry::new_table(hpa, max_physical_bits)?.raw()),
        _ => Ok(EptPdEntry::new_table(hpa, max_physical_bits)?.raw()),
    }
}

/// What a leaf beyond the physical width is refused with.
pub open spec fn beyond_width() -> MonadError {
    address::address_fault(
        ErrorCode::PhysicalAddressTooWide,
        AddressErrorDetail::HostIntervalTooWide,
    )
}

/// Builds one table and all that hangs below it.
#[verifier::rlimit(40)]
#[verifier::spinoff_prover]
fn build_table<A: EptPageAllocator>(
    pages: &mut EptPageStore<A>,
    level: EptLevel,
    table_base: u64,
    rules: &BuildRules<'_>,
) -> (result: MonadResult<(HostPhysicalAddress, Ghost<TableMap>)>)
    requires
        old(pages).wf(),
        old(pages).width() == rules.max_physical_bits,
        rules.wf(),
        tree::is_place(level, table_base as int),
    ensures
        final(pages).wf(),
        final(pages).width() == old(pages).width(),
        final(pages).missing() == old(pages).missing(),
        result matches Ok((table, tables)) ==> {
            &&& grows(old(pages).view(), final(pages).view())
            &&& all_new(old(pages).view(), tables@)
            &&& all_placed(old(pages).view(), final(pages).view(), tables@)
            &&& built(final(pages).view(), tables@, rules.plan(), level, table_base as int, 512)
            &&& tables@[(level, table_base as int)] == table.get()
            &&& entry::table_fault(table, rules.max_physical_bits) is None
        },
        result matches Err(error) ==> page::shortage::<A>(error) || rules.aperture_end
            > bits::width_limit(rules.max_physical_bits) && error == beyond_width(),
    decreases level.spec_code(),
{
    let ghost plan = rules.plan();
    let ghost base = table_base as int;
    let ghost first = pages.view();
    let table = pages.allocate(level.kind(), EptPageOwner::BaseBuild)?;
    let ghost mut tables: TableMap = Map::<(EptLevel, int), u64>::empty().insert(
        (level, base),
        table.get(),
    );
    proof {
        lemma_fresh_table(first, plan, level, base, table.get());
    }
    let span: u64 = level.span();
    let mut index: usize = 0;
    while index < 512
        invariant
            index <= 512,
            pages.wf(),
            pages.width() == rules.max_physical_bits,
            old(pages).width() == rules.max_physical_bits,
            pages.missing() == old(pages).missing(),
            rules.wf(),
            plan == rules.plan(),
            base == table_base,
            span == level.spec_span(),
            tree::is_place(level, base),
            grows(first, pages.view()),
            all_new(first, tables),
            all_placed(first, pages.view(), tables),
            built(pages.view(), tables, plan, level, base, index as int),
            tables[(level, base)] == table.get(),
            entry::table_fault(table, rules.max_physical_bits) is None,
        decreases 512 - index,
    {
        proof {
            assert(index * span <= 511 * span) by (nonlinear_arith)
                requires
                    index <= 511,
            ;
            assert((base + index * span) % 0x1000 == 0) by {
                lemma_slot_aligned(level, base, index as int);
            }
            assert(tables.contains_key((level, base)));
        }
        let entry_base: u64 = table_base + index as u64 * span;
        let ghost before = pages.view();
        let ghost position = page::page_index(before, table.get());
        if entry_base >= rules.aperture_end {
            proof {
                assert(page::page_of(before, table.get()).entries[index as int] == 0);
                page::lemma_page_index(before, plan.bits, position);
                assert(page::with_entry(before, position, index as int, 0) =~= before) by {
                    assert(before[position].entries.update(index as int, 0)
                        =~= before[position].entries);
                }
                lemma_entry_built(before, before, tables, plan, level, base, index as int, 0);
            }
            index += 1;
            continue;
        }
        match choose_leaf(rules, level, entry_base) {
            Some((size, memory_type)) => {
                proof {
                    lemma_slot_aligned(level, base, index as int);
                }
                let raw: u64 = encode_identity(rules, entry_base, size, memory_type)?;
                pages.write_entry(table, index, raw)?;
                proof {
                    page::lemma_with_entry(before, plan.bits, position, index as int, raw);
                    page::lemma_page_index(before, plan.bits, position);
                    lemma_entry_built(
                        before,
                        pages.view(),
                        tables,
                        plan,
                        level,
                        base,
                        index as int,
                        raw,
                    );
                }
            },
            None => {
                let child_level = match level.next() {
                    Some(child_level) => child_level,
                    None => {
                        return Err(build_error(entry_base));
                    },
                };
                proof {
                    lemma_child_is_place(level, base, index as int);
                }
                let (child, below) = build_table(pages, child_level, entry_base, rules)?;
                let ghost middle = pages.view();
                let raw: u64 = encode_link(level, child, rules.max_physical_bits)?;
                pages.write_entry(table, index, raw)?;
                proof {
                    let sub = below@;
                    lemma_table_built(
                        before,
                        middle,
                        pages.view(),
                        tables,
                        sub,
                        plan,
                        level,
                        base,
                        index as int,
                    );
                    let all = tables.union_prefer_right(sub);
                    assert(all_new(first, all)) by {
                        assert forall|place: (EptLevel, int)| #[trigger]
                            all.contains_key(place) implies !page::has_page(first, all[place]) by {
                            if sub.contains_key(place) {
                                assert(!page::has_page(before, sub[place]));
                            } else {
                                assert(tables.contains_key(place));
                            }
                        }
                    }
                    assert(all_placed(first, pages.view(), all)) by {
                        lemma_all_placed(first, before, middle, pages.view(), tables, sub);
                    }
                    assert(all[(level, base)] == table.get()) by {
                        assert(page::has_page(before, table.get()));
                        if sub.contains_key((level, base)) {
                            assert(place_inside(
                                sub,
                                child_level,
                                entry_base as int,
                                512,
                                level,
                                base,
                            ));
                        }
                    }
                    page::lemma_with_entry(
                        middle,
                        plan.bits,
                        page::page_index(middle, table.get()),
                        index as int,
                        raw,
                    );
                    assert(page::has_page(middle, table.get()));
                    page::lemma_page_index(
                        middle,
                        plan.bits,
                        page::page_index(middle, table.get()),
                    );
                    tables = all;
                }
            },
        }
        proof {
            assert(!page::has_page(first, table.get())) by {
                assert(tables.contains_key((level, base)));
            }
        }
        index += 1;
    }
    Ok((table, Ghost(tables)))
}

/// The pages of two runs of building are all placed by the two maps together.
proof fn lemma_all_placed(
    first: Seq<TablePage>,
    before: Seq<TablePage>,
    middle: Seq<TablePage>,
    after: Seq<TablePage>,
    tables: TableMap,
    sub: TableMap,
)
    requires
        all_placed(first, before, tables),
        all_placed(before, middle, sub),
        forall|hpa: u64| #[trigger]
            page::has_page(after, hpa) ==> page::has_page(middle, hpa),
        forall|place: (EptLevel, int)| #[trigger]
            tables.contains_key(place) ==> !sub.contains_key(place),
    ensures
        all_placed(first, after, tables.union_prefer_right(sub)),
{
    let all = tables.union_prefer_right(sub);
    assert forall|hpa: u64| #[trigger] page::has_page(after, hpa) implies page::has_page(first, hpa)
        || tree::placed(all, hpa) by {
        assert(page::has_page(middle, hpa));
        if !page::has_page(before, hpa) {
            let place = choose|place: (EptLevel, int)| #[trigger]
                sub.contains_key(place) && sub[place] == hpa;
            assert(all.contains_key(place) && all[place] == hpa);
        } else if !page::has_page(first, hpa) {
            let place = choose|place: (EptLevel, int)| #[trigger]
                tables.contains_key(place) && tables[place] == hpa;
            assert(all.contains_key(place) && all[place] == hpa);
        }
    }
}

proof fn lemma_slot_aligned(level: EptLevel, base: int, index: int)
    requires
        tree::is_place(level, base),
        0 <= index < 512,
    ensures
        (base + index * level.spec_span()) % 0x1000 == 0,
        (base + index * level.spec_span()) % (level.spec_span() as int) == 0,
{
    let start = base + index * level.spec_span();
    assert((index + 1) * level.spec_span() == index * level.spec_span() + level.spec_span())
        by (nonlinear_arith);
    assert(0 <= start <= 0x1_0000_0000_0000) by (nonlinear_arith)
        requires
            start == base + index * level.spec_span(),
            0 <= base,
            base + 512 * level.spec_span() <= 0x1_0000_0000_0000,
            0 <= index < 512,
            level.spec_span() > 0,
    ;
    scan::lemma_index_in_region(level, base, index, start as u64);
    match level {
        EptLevel::Pml4 => {},
        EptLevel::Pdpt => {},
        EptLevel::Pd => {},
        EptLevel::Pt => {},
    }
}

proof fn lemma_child_is_place(level: EptLevel, base: int, index: int)
    requires
        tree::is_place(level, base),
        0 <= index < 512,
        level.spec_next() is Some,
    ensures
        tree::is_place(level.spec_next().unwrap(), base + index * level.spec_span()),
{
    let span = level.spec_span() as int;
    let start = base + index * span;
    assert(base <= start < base + 512 * span) by (nonlinear_arith)
        requires
            start == base + index * span,
            0 <= index < 512,
            span > 0,
    ;
    assert((index + 1) * span == index * span + span) by (nonlinear_arith);
    scan::lemma_index_in_region(level, base, index, start as u64);
    tree::lemma_regions(level, base, start as u64);
}

/// What an address of a built view resolves to from a level on: itself, with
/// the leaf that the plan chooses.
pub open spec fn found_size(plan: BuildPlan, level: EptLevel, address: int) -> EptLeafSize
    decreases level.spec_code(),
{
    match chosen_leaf(plan, level, address - address % (level.spec_span() as int)) {
        Some(size) => size,
        None => match level.spec_next() {
            Some(child) => found_size(plan, child, address),
            None => EptLeafSize::Size4K,
        },
    }
}

/// An identity target.
pub open spec fn identity_target(plan: BuildPlan, address: u64, size: EptLeafSize) -> PageTarget {
    PageTarget {
        hpa: address,
        size,
        permissions: EptPermissions::full(),
        memory_type: mtrr::type_at(plan.types, address as int).unwrap(),
    }
}

/// The hierarchy that a finished root stands for.
pub open spec fn built_hierarchy(
    pages: Seq<TablePage>,
    tables: TableMap,
    plan: BuildPlan,
    execute_only: bool,
) -> Hierarchy {
    Hierarchy {
        pages,
        root: tables[(EptLevel::Pml4, 0)],
        bits: plan.bits,
        execute_only,
        owner: EptPageOwner::BaseBuild,
    }
}

/// A planned entry decodes as planned.
pub proof fn lemma_slot_decodes(
    pages: Seq<TablePage>,
    tables: TableMap,
    plan: BuildPlan,
    execute_only: bool,
    level: EptLevel,
    base: int,
    index: int,
)
    requires
        entry::supported_width(plan.bits),
        slot_built(pages, tables, plan, level, base, index),
    ensures
        ({
            let h = built_hierarchy(pages, tables, plan, execute_only);
            let start = base + index * level.spec_span();
            let below = tree::child_place(level, base, index);
            h.decoded(level, tables[(level, base)], index) == if start >= plan.aperture_end {
                Ok::<DecodedEptEntry, EptEntryError>(DecodedEptEntry::NotPresent)
            } else {
                match chosen_leaf(plan, level, start) {
                    Some(size) => Ok(
                        DecodedEptEntry::Leaf {
                            hpa: HostPhysicalAddress::at(start as u64),
                            size,
                            permissions: EptPermissions::full(),
                            memory_type: mtrr::uniform_over(
                                plan.types,
                                start,
                                start + size.bytes(),
                            ).unwrap(),
                        },
                    ),
                    None => Ok(
                        DecodedEptEntry::Table {
                            hpa: HostPhysicalAddress::at(tables[below]),
                            permissions: EptPermissions::full(),
                        },
                    ),
                }
            }
        }),
{
    let start = base + index * level.spec_span();
    if start < plan.aperture_end {
        match chosen_leaf(plan, level, start) {
            Some(size) => {
                entry::law_leaf_round_trip(
                    HostPhysicalAddress::at(start as u64),
                    size,
                    EptPermissions::full(),
                    mtrr::uniform_over(plan.types, start, start + size.bytes()).unwrap(),
                    plan.bits,
                    execute_only,
                );
            },
            None => {
                entry::law_table_round_trip(
                    level,
                    HostPhysicalAddress::at(tables[tree::child_place(level, base, index)]),
                    plan.bits,
                    execute_only,
                );
            },
        }
    }
}

/// A finished root is arranged.
proof fn lemma_built_is_arranged(
    pages: Seq<TablePage>,
    tables: TableMap,
    plan: BuildPlan,
    execute_only: bool,
)
    requires
        entry::supported_width(plan.bits),
        built(pages, tables, plan, EptLevel::Pml4, 0, 512),
    ensures
        tree::arranged(built_hierarchy(pages, tables, plan, execute_only), tables),
{
    let h = built_hierarchy(pages, tables, plan, execute_only);
    assert forall|level: EptLevel, base: int| #[trigger]
        tables.contains_key((level, base)) implies tree::place_fits(h, tables, level, base) by {
        assert(place_inside(tables, EptLevel::Pml4, 0, 512, level, base));
    }
    assert forall|level: EptLevel, base: int, index: int|
        tables.contains_key((level, base)) && 0 <= index < 512 implies #[trigger] tree::slot_fits(
        h,
        tables,
        level,
        base,
        index,
    ) by {
        assert(slot_built(pages, tables, plan, level, base, index));
        lemma_slot_decodes(pages, tables, plan, execute_only, level, base, index);
    }
}

/// An address below the aperture's end resolves to itself; one beyond is
/// absent.
#[verifier::rlimit(40)]
#[verifier::spinoff_prover]
proof fn lemma_built_resolves(
    pages: Seq<TablePage>,
    tables: TableMap,
    plan: BuildPlan,
    execute_only: bool,
    level: EptLevel,
    base: int,
    address: u64,
)
    requires
        entry::supported_width(plan.bits),
        mtrr::exact_cover(plan.types, plan.aperture_end),
        built(pages, tables, plan, EptLevel::Pml4, 0, 512),
        tables.contains_key((level, base)),
        base <= address < base + tree::region(level),
    ensures
        ({
            let h = built_hierarchy(pages, tables, plan, execute_only);
            let target = tree::resolved_from(h, level, tables[(level, base)], address);
            if address < plan.aperture_end {
                target == Ok::<PageTarget, Miss>(
                    identity_target(plan, address, found_size(plan, level, address as int)),
                )
            } else {
                target matches Err(Miss::Absent(_))
            }
        }),
    decreases level.spec_code(),
{
    let h = built_hierarchy(pages, tables, plan, execute_only);
    let index = level.spec_index(address);
    let span = level.spec_span() as int;
    let start = base + index * span;
    assert(tree::is_place(level, base));
    tree::lemma_regions(level, base, address);
    assert((index + 1) * span == index * span + span) by (nonlinear_arith);
    scan::lemma_index_in_region(level, base, index, address);
    assert(start == address - address % level.spec_span());
    assert(slot_built(pages, tables, plan, level, base, index));
    lemma_slot_decodes(pages, tables, plan, execute_only, level, base, index);
    if start < plan.aperture_end {
        match chosen_leaf(plan, level, start) {
            Some(size) => {
                assert(size.bytes() == span);
                mtrr::lemma_uniform_type_at(
                    plan.types,
                    plan.aperture_end,
                    start,
                    start + size.bytes(),
                    address as int,
                );
            },
            None => {
                let child = level.spec_next().unwrap();
                assert(tree::child_place(level, base, index) == (child, start));
                lemma_built_resolves(pages, tables, plan, execute_only, child, start, address);
            },
        }
    }
}

/// The plan under which a candidate is built.
pub open spec fn plan_of<A: EptPageAllocator>(
    candidate: &BaseViewCandidate<A>,
    page_1g_supported: bool,
    page_2m_supported: bool,
) -> BuildPlan {
    BuildPlan {
        aperture_end: candidate.inventory.spec_aperture_end(),
        types: candidate.memory_types.view(),
        bits: candidate.max_physical_bits,
        page_1g_supported,
        page_2m_supported,
    }
}

/// Every page below the aperture's end resolves to itself, through the leaf
/// that the plan chooses; every other page is absent.
pub open spec fn follows_plan(h: Hierarchy, plan: BuildPlan) -> bool {
    forall|address: u64|
        address < 0x1_0000_0000_0000 ==> if address < plan.aperture_end {
            #[trigger] tree::resolved(h, address) == Ok::<PageTarget, Miss>(
                identity_target(plan, address, chosen_size(plan, address as int)),
            )
        } else {
            tree::resolved(h, address) matches Err(Miss::Absent(_))
        }
}

/// Why there is no base view to be built, if there is none: the memory types are
/// not those of the aperture, there are no tables of the physical width, or the
/// aperture does not lie below it.
pub open spec fn cannot_build(
    inventory: PhysicalInventory,
    memory_types: NormalizedMemoryMap,
    max_physical_bits: u8,
    error: MonadError,
) -> bool {
    let aperture_end = inventory.spec_aperture_end();
    if aperture_end != memory_types.spec_aperture_end() {
        error == MonadError::new(
            ErrorPhase::EptBuild,
            ErrorCode::EptVerificationFailure,
            aperture_end,
        )
    } else if !entry::supported_width(max_physical_bits) {
        error == MonadError::new(
            ErrorPhase::EptBuild,
            ErrorCode::PhysicalAddressTooWide,
            max_physical_bits as u64,
        )
    } else {
        aperture_end > bits::width_limit(max_physical_bits) && error == beyond_width()
    }
}

/// Builds the tables of a base view in an empty store. Where that fails, every
/// page goes back to its source, which is handed over with the error.
pub fn build_in<A: EptPageAllocator>(
    pages: EptPageStore<A>,
    inventory: PhysicalInventory,
    memory_types: NormalizedMemoryMap,
    page_1g_supported: bool,
    page_2m_supported: bool,
    execute_only_supported: bool,
    max_physical_bits: u8,
) -> (result: Result<(BaseViewCandidate<A>, Ghost<TableMap>), (A, MonadError)>)
    requires
        pages.wf(),
        pages.view().len() == 0,
        pages.width() == max_physical_bits,
        inventory.spec_aperture_end() == memory_types.spec_aperture_end(),
        inventory.spec_aperture_end() <= inventory.spec_architectural_limit(),
    ensures
        match result {
            Ok((candidate, tables)) => {
                let plan = plan_of(&candidate, page_1g_supported, page_2m_supported);
                &&& candidate.wf()
                &&& candidate.inventory == inventory
                &&& candidate.memory_types == memory_types
                &&& candidate.max_physical_bits == max_physical_bits
                &&& candidate.execute_only_supported == execute_only_supported
                &&& tree::arranged(candidate.hierarchy(), tables@)
                &&& tree::all_in(candidate.pages.view(), tables@)
                &&& built(candidate.pages.view(), tables@, plan, EptLevel::Pml4, 0, 512)
                &&& follows_plan(candidate.hierarchy(), plan)
                &&& candidate.pages.missing() == pages.missing()
            },
            Err((source, error)) => {
                &&& page::at_large(source) == pages.missing()
                &&& page::shortage::<A>(error) || cannot_build(
                    inventory,
                    memory_types,
                    max_physical_bits,
                    error,
                )
            },
        },
{
    let mut pages = pages;
    let aperture_end: u64 = inventory.aperture_end();
    let permissions = match EptPermissions::new(true, true, true, execute_only_supported) {
        Ok(permissions) => permissions,
        Err(error) => {
            return Err((pages.release(), error));
        },
    };
    let _ = memory_types.intervals();
    let rules = BuildRules {
        aperture_end,
        memory_types: &memory_types,
        max_physical_bits,
        page_1g_supported,
        page_2m_supported,
        permissions,
    };
    let ghost plan = rules.plan();
    let (root, tables) = match build_table(&mut pages, EptLevel::Pml4, 0, &rules) {
        Ok(built) => built,
        Err(error) => {
            return Err((pages.release(), error));
        },
    };
    proof {
        let map = tables@;
        lemma_built_is_arranged(pages.view(), map, plan, execute_only_supported);
        let h = built_hierarchy(pages.view(), map, plan, execute_only_supported);
        assert forall|address: u64| address < 0x1_0000_0000_0000 implies if address
            < plan.aperture_end {
            #[trigger] tree::resolved(h, address) == Ok::<PageTarget, Miss>(
                identity_target(plan, address, chosen_size(plan, address as int)),
            )
        } else {
            tree::resolved(h, address) matches Err(Miss::Absent(_))
        } by {
            lemma_built_resolves(
                pages.view(),
                map,
                plan,
                execute_only_supported,
                EptLevel::Pml4,
                0,
                address,
            );
            reveal_with_fuel(found_size, 4);
        }
    }
    let candidate = BaseViewCandidate {
        root,
        pages,
        inventory,
        memory_types,
        max_physical_bits,
        execute_only_supported,
    };
    Ok((candidate, tables))
}

/// Builds the tables of a base view. Memory types that do not describe the
/// inventory's aperture, an aperture beyond the architectural limit and an
/// unsupported width are refused; what else can go wrong is up to the source
/// of pages, which then has all of them back.
pub fn build_candidate<A: EptPageAllocator>(
    allocator: A,
    inventory: PhysicalInventory,
    memory_types: NormalizedMemoryMap,
    max_physical_bits: u8,
    page_1g_supported: bool,
    page_2m_supported: bool,
    execute_only_supported: bool,
) -> (result: MonadResult<(BaseViewCandidate<A>, Ghost<TableMap>)>)
    ensures
        result matches Ok((candidate, tables)) ==> {
            let plan = plan_of(&candidate, page_1g_supported, page_2m_supported);
            &&& candidate.wf()
            &&& candidate.inventory == inventory
            &&& candidate.memory_types == memory_types
            &&& candidate.max_physical_bits == max_physical_bits
            &&& candidate.execute_only_supported == execute_only_supported
            &&& tree::arranged(candidate.hierarchy(), tables@)
            &&& tree::all_in(candidate.pages.view(), tables@)
            &&& built(candidate.pages.view(), tables@, plan, EptLevel::Pml4, 0, 512)
            &&& follows_plan(candidate.hierarchy(), plan)
            &&& candidate.pages.missing() == page::at_large(allocator)
        },
        inventory.spec_aperture_end() != memory_types.spec_aperture_end() ==> result == Err::<
            (BaseViewCandidate<A>, Ghost<TableMap>),
            MonadError,
        >(
            MonadError::new(
                ErrorPhase::EptBuild,
                ErrorCode::EptVerificationFailure,
                inventory.spec_aperture_end(),
            ),
        ),
        inventory.spec_aperture_end() == memory_types.spec_aperture_end()
            && !entry::supported_width(max_physical_bits) ==> result == Err::<
            (BaseViewCandidate<A>, Ghost<TableMap>),
            MonadError,
        >(
            MonadError::new(
                ErrorPhase::EptBuild,
                ErrorCode::PhysicalAddressTooWide,
                max_physical_bits as u64,
            ),
        ),
        result matches Err(error) ==> page::shortage::<A>(error) || cannot_build(
            inventory,
            memory_types,
            max_physical_bits,
            error,
        ),
{
    let aperture_end: u64 = inventory.aperture_end();
    if aperture_end != memory_types.aperture_end() || aperture_end
        > inventory.architectural_limit() {
        return Err(build_error(aperture_end));
    }
    let pages = EptPageStore::new(allocator, max_physical_bits)?;
    match build_in(
        pages,
        inventory,
        memory_types,
        page_1g_supported,
        page_2m_supported,
        execute_only_supported,
        max_physical_bits,
    ) {
        Ok(parts) => Ok(parts),
        Err((_, error)) => Err(error),
    }
}

/// A base view that has been built and proved.
pub struct VerifiedBaseView<A: EptPageAllocator> {
    candidate: BaseViewCandidate<A>,
    metadata: BaseViewMetadata,
    tables: Ghost<TableMap>,
}

impl<A: EptPageAllocator> VerifiedBaseView<A> {
    /// The proved tables.
    pub closed spec fn spec_candidate(&self) -> BaseViewCandidate<A> {
        self.candidate
    }

    /// Where each table stands.
    pub closed spec fn spec_tables(&self) -> TableMap {
        self.tables@
    }

    pub closed spec fn spec_metadata(&self) -> BaseViewMetadata {
        self.metadata
    }

    /// What a built and proved view guarantees.
    pub open spec fn wf(&self) -> bool {
        let candidate = self.spec_candidate();
        &&& candidate.wf()
        &&& tree::arranged(candidate.hierarchy(), self.spec_tables())
        &&& tree::all_in(candidate.pages.view(), self.spec_tables())
        &&& maps_identity(&candidate)
        &&& scan::view_passes(candidate.hierarchy(), candidate.shape())
        &&& scan::figures(candidate.hierarchy(), candidate.shape(), self.spec_metadata())
    }

    /// The name of the base view.
    pub fn id(&self) -> (id: ViewId)
        ensures
            id == (ViewId { slot: 0, reserved: 0, generation: 1 }),
    {
        ViewId { slot: 0, reserved: 0, generation: 1 }
    }

    pub fn aperture_end(&self) -> (aperture_end: u64)
        ensures
            aperture_end == self.spec_candidate().inventory.spec_aperture_end(),
    {
        self.candidate.inventory.aperture_end()
    }

    pub fn metadata(&self) -> (metadata: BaseViewMetadata)
        ensures
            metadata == self.spec_metadata(),
    {
        self.metadata
    }

    /// Walks a guest page.
    pub fn walk(&self, gpa: GuestPhysicalAddress) -> (result: WalkResult)
        requires
            self.wf(),
        ensures
            result == walker::walked(self.spec_candidate().hierarchy(), gpa),
    {
        walk_view(
            &self.candidate.pages,
            self.candidate.root,
            self.candidate.max_physical_bits,
            self.candidate.execute_only_supported,
            EptPageOwner::BaseBuild,
            gpa,
        )
    }

    /// Gives all pages of the view back to their source, and hands it over.
    pub fn release(self) -> (source: A)
        ensures
            page::at_large(source) == self.spec_candidate().pages.missing(),
    {
        self.candidate.pages.release()
    }

    /// Takes the view apart.
    pub fn into_candidate(self) -> (parts: (BaseViewCandidate<A>, Ghost<TableMap>))
        ensures
            parts.0 == self.spec_candidate(),
            parts.1@ == self.spec_tables(),
    {
        (self.candidate, self.tables)
    }
}

/// Every page below the aperture's end resolves to itself with every
/// permission and its own memory type; every other page is absent.
pub open spec fn maps_identity<A: EptPageAllocator>(candidate: &BaseViewCandidate<A>) -> bool {
    let h = candidate.hierarchy();
    let aperture_end = candidate.inventory.spec_aperture_end();
    forall|address: u64|
        address < 0x1_0000_0000_0000 ==> match #[trigger] tree::resolved(h, address) {
            Ok(target) => {
                &&& address < aperture_end
                &&& target.hpa == address
                &&& target.permissions == EptPermissions::full()
                &&& mtrr::type_at(candidate.memory_types.view(), address as int) == Some(
                    target.memory_type,
                )
            },
            Err(Miss::Absent(_)) => address >= aperture_end,
            Err(Miss::Broken(_, _)) => false,
        }
}

/// Builds a base view and proves it. A view that is handed out maps every page
/// of the aperture to itself through the largest leaf that the plan allows. None
/// is handed out only where there is none to be built, where pages or memory are
/// short, or where there is more than can be counted.
pub fn build_base_view<A: EptPageAllocator>(
    allocator: A,
    inventory: PhysicalInventory,
    memory_types: NormalizedMemoryMap,
    max_physical_bits: u8,
    page_1g_supported: bool,
    page_2m_supported: bool,
    execute_only_supported: bool,
) -> (result: MonadResult<VerifiedBaseView<A>>)
    ensures
        result matches Ok(view) ==> {
            let candidate = view.spec_candidate();
            &&& view.wf()
            &&& candidate.inventory == inventory
            &&& candidate.memory_types == memory_types
            &&& candidate.max_physical_bits == max_physical_bits
            &&& candidate.execute_only_supported == execute_only_supported
            &&& follows_plan(
                candidate.hierarchy(),
                plan_of(&candidate, page_1g_supported, page_2m_supported),
            )
            &&& candidate.pages.missing() == page::at_large(allocator)
        },
        inventory.spec_aperture_end() != memory_types.spec_aperture_end() ==> result == Err::<
            VerifiedBaseView<A>,
            MonadError,
        >(
            MonadError::new(
                ErrorPhase::EptBuild,
                ErrorCode::EptVerificationFailure,
                inventory.spec_aperture_end(),
            ),
        ),
        inventory.spec_aperture_end() == memory_types.spec_aperture_end()
            && !entry::supported_width(max_physical_bits) ==> result == Err::<
            VerifiedBaseView<A>,
            MonadError,
        >(
            MonadError::new(
                ErrorPhase::EptBuild,
                ErrorCode::PhysicalAddressTooWide,
                max_physical_bits as u64,
            ),
        ),
        result matches Err(error) ==> {
            ||| page::shortage::<A>(error)
            ||| cannot_build(inventory, memory_types, max_physical_bits, error)
            ||| exists|candidate: BaseViewCandidate<A>|
                {
                    &&& #[trigger] scan::no_room(candidate.hierarchy(), candidate.shape(), error)
                    &&& candidate.wf()
                    &&& candidate.inventory == inventory
                    &&& candidate.memory_types == memory_types
                    &&& candidate.max_physical_bits == max_physical_bits
                    &&& follows_plan(
                        candidate.hierarchy(),
                        plan_of(&candidate, page_1g_supported, page_2m_supported),
                    )
                }
            ||| exists|found: EptValidationError|
                scan::scan_shortage(EptLevel::Pml4, 0, found) && error
                    == #[trigger] scan::view_fault(found)
        },
{
    let _ = memory_types.intervals();
    let _ = inventory.aperture_end();
    let (candidate, tables) = match build_candidate(
        allocator,
        inventory,
        memory_types,
        max_physical_bits,
        page_1g_supported,
        page_2m_supported,
        execute_only_supported,
    ) {
        Ok(parts) => parts,
        Err(error) => {
            return Err(error);
        },
    };
    proof {
        let plan = plan_of(&candidate, page_1g_supported, page_2m_supported);
        passing::law_built_view_passes(
            candidate.pages.view(),
            tables@,
            plan,
            execute_only_supported,
        );
        assert(built_hierarchy(candidate.pages.view(), tables@, plan, execute_only_supported)
            == candidate.hierarchy());
    }
    let verification = match verify_view(&candidate) {
        Ok(verification) => verification,
        Err(error) => {
            let _ = candidate.pages.release();
            return Err(error);
        },
    };
    proof {
        let plan = plan_of(&candidate, page_1g_supported, page_2m_supported);
        assert forall|address: u64| address < 0x1_0000_0000_0000 implies match #[trigger] tree::resolved(
            candidate.hierarchy(),
            address,
        ) {
            Ok(target) => {
                &&& address < plan.aperture_end
                &&& target.hpa == address
                &&& target.permissions == EptPermissions::full()
                &&& mtrr::type_at(plan.types, address as int) == Some(target.memory_type)
            },
            Err(Miss::Absent(_)) => address >= plan.aperture_end,
            Err(Miss::Broken(_, _)) => false,
        } by {
            if address < plan.aperture_end {
                let i = mtrr::lemma_cover_find(
                    plan.types,
                    plan.aperture_end,
                    address as int,
                    plan.types.len() - 1,
                );
                mtrr::lemma_cover_type_at(plan.types, plan.aperture_end, i, address as int);
            }
        }
    }
    Ok(VerifiedBaseView { candidate, metadata: verification.metadata, tables })
}

/// The walk of a page of a base view: to itself, through the leaf that the
/// plan chooses; nothing is mapped beyond the aperture.
pub proof fn law_base_view_walk<A: EptPageAllocator>(
    candidate: &BaseViewCandidate<A>,
    tables: TableMap,
    plan: BuildPlan,
    gpa: GuestPhysicalAddress,
)
    requires
        tree::arranged(candidate.hierarchy(), tables),
        follows_plan(candidate.hierarchy(), plan),
        gpa.get() % 0x1000 == 0,
        gpa.get() < bits::width_limit(candidate.max_physical_bits),
    ensures
        gpa.get() < plan.aperture_end ==> walker::walked(candidate.hierarchy(), gpa)
            == scan::identity_mapping(
            gpa,
            chosen_size(plan, gpa.get() as int),
            mtrr::type_at(plan.types, gpa.get() as int).unwrap(),
        ),
        gpa.get() >= plan.aperture_end ==> walker::walked(candidate.hierarchy(), gpa)
            is NotPresent,
{
    let h = candidate.hierarchy();
    bits::lemma_width_limit(h.bits);
    tree::lemma_walked(h, tables, gpa);
    let _ = tree::resolved(h, gpa.get());
}

} // verus!
