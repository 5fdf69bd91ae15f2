//! Hierarchies in which every table has one place, and what a page resolves to
//! in them.

use vstd::prelude::*;

use super::address::{EptPermissions, GuestPhysicalAddress, HostPhysicalAddress};
use super::entry;
use super::entry::{DecodedEptEntry, EptEntryError, EptLeafSize, EptLevel, EptMemoryType};
use super::page;
use super::page::TablePage;
use super::walker;
use super::walker::{
    EptValidationErrorKind, Hierarchy, MappingSource, ResolvedMapping, WalkResult,
};
use crate::bits;

verus! {

broadcast use super::address::group_host_addresses;

/// The tables of a hierarchy by place: the level, and the first address of the
/// region that the table governs.
pub type TableMap = Map<(EptLevel, int), u64>;

/// The bytes that a table of a level governs.
pub open spec fn region(level: EptLevel) -> int {
    512 * level.spec_span()
}

/// The level above, if there is one.
pub open spec fn above(level: EptLevel) -> Option<EptLevel> {
    match level {
        EptLevel::Pml4 => None,
        EptLevel::Pdpt => Some(EptLevel::Pml4),
        EptLevel::Pd => Some(EptLevel::Pdpt),
        EptLevel::Pt => Some(EptLevel::Pd),
    }
}

/// The first address of the region of a level that holds an address.
pub open spec fn region_start(level: EptLevel, address: int) -> int {
    address - address % region(level)
}

/// A place at which a table can stand.
pub open spec fn is_place(level: EptLevel, base: int) -> bool {
    &&& 0 <= base
    &&& base % region(level) == 0
    &&& base + region(level) <= 0x1_0000_0000_0000
}

/// The place of what the entry at `index` governs, one level down.
pub open spec fn child_place(level: EptLevel, base: int, index: int) -> (EptLevel, int) {
    (level.spec_next().unwrap(), base + index * level.spec_span())
}

/// Whether an entry fits the places: a table entry restricts nothing and leads
/// to the table at the place below, any other entry leaves that place empty.
/// Only an entry of the lowest level may be one that the processor refuses.
pub open spec fn slot_fits(
    h: Hierarchy,
    tables: TableMap,
    level: EptLevel,
    base: int,
    index: int,
) -> bool {
    let below = child_place(level, base, index);
    match h.decoded(level, tables[(level, base)], index) {
        Ok(DecodedEptEntry::Table { hpa, permissions }) => {
            &&& permissions == EptPermissions::full()
            &&& level.spec_next() is Some
            &&& tables.contains_key(below)
            &&& tables[below] == hpa.get()
        },
        Ok(_) => level.spec_next() is Some ==> !tables.contains_key(below),
        Err(_) => level is Pt,
    }
}

/// Whether a place holds a table of the right kind and owner whose parent's
/// place is filled too.
pub open spec fn place_fits(h: Hierarchy, tables: TableMap, level: EptLevel, base: int) -> bool {
    let table = tables[(level, base)];
    &&& is_place(level, base)
    &&& page::has_page(h.pages, table)
    &&& page::page_of(h.pages, table).kind == level.spec_kind()
    &&& page::page_of(h.pages, table).owner == h.owner
    &&& above(level) matches Some(parent) ==> tables.contains_key(
        (parent, region_start(parent, base)),
    )
}

/// Every table has one place, the root has the topmost, and every entry of
/// every table fits.
pub open spec fn arranged(h: Hierarchy, tables: TableMap) -> bool {
    &&& entry::supported_width(h.bits)
    &&& tables.contains_key((EptLevel::Pml4, 0))
    &&& tables[(EptLevel::Pml4, 0)] == h.root
    &&& forall|level: EptLevel, base: int| #[trigger]
        tables.contains_key((level, base)) ==> place_fits(h, tables, level, base)
    &&& forall|level: EptLevel, base: int, index: int|
        tables.contains_key((level, base)) && 0 <= index < 512 ==> #[trigger] slot_fits(
            h,
            tables,
            level,
            base,
            index,
        )
    &&& forall|left: (EptLevel, int), right: (EptLevel, int)|
        #![trigger tables.contains_key(left), tables.contains_key(right)]
        tables.contains_key(left) && tables.contains_key(right) && tables[left] == tables[right]
            ==> left == right
}

/// Whether a table stands at some place.
pub open spec fn placed(tables: TableMap, hpa: u64) -> bool {
    exists|place: (EptLevel, int)| #[trigger] tables.contains_key(place) && tables[place] == hpa
}

/// Every page is a table at some place.
pub open spec fn all_in(pages: Seq<TablePage>, tables: TableMap) -> bool {
    forall|hpa: u64| #[trigger] page::has_page(pages, hpa) ==> placed(tables, hpa)
}

/// What a page is mapped to.
pub struct PageTarget {
    pub hpa: u64,
    pub size: EptLeafSize,
    pub permissions: EptPermissions,
    pub memory_type: EptMemoryType,
}

/// Why a page has no target: an entry on the way is absent, or refused.
pub enum Miss {
    Absent(EptLevel),
    Broken(EptLevel, EptEntryError),
}

/// What an address resolves to from a table on.
pub open spec fn resolved_from(h: Hierarchy, level: EptLevel, table: u64, address: u64) -> Result<
    PageTarget,
    Miss,
>
    decreases level.spec_code(),
{
    match h.decoded(level, table, level.spec_index(address)) {
        Ok(DecodedEptEntry::Table { hpa, permissions }) => match level.spec_next() {
            Some(child) => resolved_from(h, child, hpa.get(), address),
            None => Err(Miss::Absent(level)),
        },
        Ok(DecodedEptEntry::Leaf { hpa, size, permissions, memory_type }) => Ok(
            PageTarget {
                hpa: (hpa.get() + address % size.bytes()) as u64,
                size,
                permissions,
                memory_type,
            },
        ),
        Ok(DecodedEptEntry::NotPresent) => Err(Miss::Absent(level)),
        Err(error) => Err(Miss::Broken(level, error)),
    }
}

/// What an address resolves to.
pub open spec fn resolved(h: Hierarchy, address: u64) -> Result<PageTarget, Miss> {
    resolved_from(h, EptLevel::Pml4, h.root, address)
}

/// The walk that ends in a target, or misses it.
pub open spec fn as_walk(
    gpa: GuestPhysicalAddress,
    target: Result<PageTarget, Miss>,
) -> WalkResult {
    match target {
        Ok(target) => WalkResult::Mapping(
            ResolvedMapping {
                gpa_page: gpa,
                hpa_page: HostPhysicalAddress::at(target.hpa),
                leaf_size: target.size,
                permissions: target.permissions,
                memory_type: target.memory_type,
                source: MappingSource::Identity,
            },
        ),
        Err(Miss::Absent(level)) => WalkResult::NotPresent { level, raw_entry: 0 },
        Err(Miss::Broken(level, error)) => WalkResult::Invalid(
            walker::finding(
                EptValidationErrorKind::InvalidEntry,
                level,
                gpa.get(),
                error.spec_code(),
            ),
        ),
    }
}

/// The region of a level that holds an address is a place, and the entry that
/// governs the address leads to the region one level down.
pub proof fn lemma_regions(level: EptLevel, base: int, address: u64)
    requires
        is_place(level, base),
        base <= address < base + region(level),
    ensures
        region_start(level, address as int) == base,
        0 <= level.spec_index(address) < 512,
        base + level.spec_index(address) * level.spec_span() <= address < base + (
        level.spec_index(address) + 1) * level.spec_span(),
        level.spec_next() matches Some(child) ==> {
            let below = base + level.spec_index(address) * level.spec_span();
            &&& is_place(child, below)
            &&& below <= address < below + region(child)
            &&& region(child) == level.spec_span()
            &&& region_start(level, below) == base
        },
{
    let span = level.spec_span() as int;
    let q = base / region(level);
    vstd::arithmetic::div_mod::lemma_fundamental_div_mod(base, region(level));
    let offset = address - base;
    let index = offset / span;
    vstd::arithmetic::div_mod::lemma_fundamental_div_mod(offset, span);
    assert(0 <= index < 512) by (nonlinear_arith)
        requires
            offset == span * index + offset % span,
            0 <= offset < 512 * span,
            0 <= offset % span < span,
            span > 0,
    ;
    assert(base + index * span <= address < base + (index + 1) * span) by (nonlinear_arith)
        requires
            offset == address - base,
            offset == span * index + offset % span,
            0 <= offset % span < span,
    ;
    super::scan::lemma_index_in_region(level, base, index, address);
    vstd::arithmetic::div_mod::lemma_fundamental_div_mod_converse(
        address as int,
        region(level),
        q,
        offset,
    );
    if let Some(child) = level.spec_next() {
        let below = base + index * span;
        assert(region(child) == span);
        assert(below + span <= base + 512 * span) by (nonlinear_arith)
            requires
                below == base + index * span,
                index < 512,
                span > 0,
        ;
        assert(below >= base) by (nonlinear_arith)
            requires
                below == base + index * span,
                index >= 0,
                span > 0,
        ;
        assert((index + 1) * span == index * span + span) by (nonlinear_arith);
        vstd::arithmetic::div_mod::lemma_fundamental_div_mod_converse(
            below,
            region(level),
            q,
            below - base,
        );
    }
}

/// A page inside an aligned leaf is aligned and ends inside the leaf.
proof fn lemma_page_in_leaf(start: u64, size: EptLeafSize, address: u64)
    requires
        start % size.bytes() == 0,
        address % 0x1000 == 0,
    ensures
        (start + address % size.bytes()) % 0x1000 == 0,
        address % size.bytes() + 0x1000 <= size.bytes(),
{
    let bytes = size.bytes() as int;
    let pages = bytes / 0x1000;
    assert(bytes == 0x1000 * pages);
    let k = start as int / bytes;
    let q = address as int / bytes;
    let r = address as int % bytes;
    let p = address as int / 0x1000;
    vstd::arithmetic::div_mod::lemma_fundamental_div_mod(start as int, bytes);
    vstd::arithmetic::div_mod::lemma_fundamental_div_mod(address as int, bytes);
    vstd::arithmetic::div_mod::lemma_fundamental_div_mod(address as int, 0x1000);
    let m = p - pages * q;
    assert(r == 0x1000 * m) by (nonlinear_arith)
        requires
            address == bytes * q + r,
            address == 0x1000 * p,
            bytes == 0x1000 * pages,
            m == p - pages * q,
    ;
    assert(start + r == 0x1000 * (pages * k + m)) by (nonlinear_arith)
        requires
            start == bytes * k,
            bytes == 0x1000 * pages,
            r == 0x1000 * m,
    ;
    vstd::arithmetic::div_mod::lemma_fundamental_div_mod_converse(
        start + r,
        0x1000,
        pages * k + m,
        0,
    );
}

/// In an arranged hierarchy a walk from a table on finds what the page
/// resolves to from there.
pub proof fn lemma_walk_from(
    h: Hierarchy,
    tables: TableMap,
    level: EptLevel,
    base: int,
    path: Seq<u64>,
    gpa: GuestPhysicalAddress,
)
    requires
        arranged(h, tables),
        tables.contains_key((level, base)),
        base <= gpa.get() < base + region(level),
        gpa.get() % 0x1000 == 0,
        gpa.get() < bits::width_limit(h.bits),
        forall|i: int|
            0 <= i < path.len() ==> exists|upper: EptLevel, start: int| #[trigger]
                tables.contains_key((upper, start)) && tables[(upper, start)] == #[trigger] path[i]
                    && upper.spec_code() > level.spec_code(),
    ensures
        walker::walk_from(
            h,
            level,
            tables[(level, base)],
            path,
            EptPermissions::full(),
            gpa,
        ) == as_walk(gpa, resolved_from(h, level, tables[(level, base)], gpa.get())),
    decreases level.spec_code(),
{
    let table = tables[(level, base)];
    let address = gpa.get();
    let index = level.spec_index(address);
    let full = EptPermissions::full();
    assert(place_fits(h, tables, level, base));
    lemma_regions(level, base, address);
    assert(slot_fits(h, tables, level, base, index));
    assert(!path.contains(table)) by {
        if path.contains(table) {
            let i = choose|i: int| 0 <= i < path.len() && path[i] == table;
            let (upper, start) = choose|upper: EptLevel, start: int| #[trigger]
                tables.contains_key((upper, start)) && tables[(upper, start)] == path[i]
                    && upper.spec_code() > level.spec_code();
            assert(tables.contains_key((level, base)));
            assert((upper, start) == (level, base));
        }
    }
    match h.decoded(level, table, index) {
        Ok(DecodedEptEntry::Table { hpa, permissions }) => {
            let child = level.spec_next().unwrap();
            let below = base + index * level.spec_span();
            assert(child_place(level, base, index) == (child, below));
            let inner = path.push(table);
            assert forall|i: int| 0 <= i < inner.len() implies exists|upper: EptLevel, start: int|
             #[trigger]
                tables.contains_key((upper, start)) && tables[(upper, start)] == #[trigger] inner[i]
                    && upper.spec_code() > child.spec_code() by {
                if i < path.len() {
                    assert(inner[i] == path[i]);
                    let (upper, start) = choose|upper: EptLevel, start: int| #[trigger]
                        tables.contains_key((upper, start)) && tables[(upper, start)] == path[i]
                            && upper.spec_code() > level.spec_code();
                    assert(tables.contains_key((upper, start)));
                } else {
                    assert(tables.contains_key((level, base)));
                }
            }
            lemma_walk_from(h, tables, child, below, inner, gpa);
            assert(walker::both(full, permissions) == full);
        },
        Ok(DecodedEptEntry::Leaf { hpa, size, permissions, memory_type }) => {
            bits::lemma_width_limit(h.bits);
            assert(walker::both(full, permissions) == permissions);
            let target = hpa.get() + address % size.bytes();
            assert(size.bytes() % 0x1000 == 0);
            assert(hpa.get() % size.bytes() == 0);
            lemma_page_in_leaf(hpa.get(), size, address);
            entry::lemma_leaf_fits(target as u64, EptLeafSize::Size4K, h.bits);
        },
        _ => {},
    }
}

/// In an arranged hierarchy a walk finds what the page resolves to.
pub proof fn lemma_walked(h: Hierarchy, tables: TableMap, gpa: GuestPhysicalAddress)
    requires
        arranged(h, tables),
        gpa.get() % 0x1000 == 0,
        gpa.get() < bits::width_limit(h.bits),
    ensures
        walker::walked(h, gpa) == as_walk(gpa, resolved(h, gpa.get())),
{
    bits::lemma_width_limit(h.bits);
    lemma_walk_from(h, tables, EptLevel::Pml4, 0, Seq::empty(), gpa);
}

/// An address resolves from the root as it does from any table whose region
/// holds it.
pub proof fn lemma_reach(
    h: Hierarchy,
    tables: TableMap,
    level: EptLevel,
    base: int,
    address: u64,
)
    requires
        arranged(h, tables),
        tables.contains_key((level, base)),
        base <= address < base + region(level),
    ensures
        resolved(h, address) == resolved_from(h, level, tables[(level, base)], address),
    decreases 4 - level.spec_code(),
{
    assert(place_fits(h, tables, level, base));
    match above(level) {
        None => {
            assert(base == 0);
        },
        Some(parent) => {
            let top = region_start(parent, base);
            assert(tables.contains_key((parent, top)));
            assert(place_fits(h, tables, parent, top));
            lemma_parent(level, parent, base, address);
            lemma_regions(parent, top, address);
            let index = parent.spec_index(address);
            assert(slot_fits(h, tables, parent, top, index));
            assert(child_place(parent, top, index) == (level, base));
            assert(parent.spec_next() == Some(level));
            lemma_reach(h, tables, parent, top, address);
        },
    }
}

/// The place of a table is the one that its parent's entry governs.
pub proof fn lemma_parent(level: EptLevel, parent: EptLevel, base: int, address: u64)
    requires
        is_place(level, base),
        above(level) == Some(parent),
        base <= address < base + region(level),
    ensures
        is_place(parent, region_start(parent, base)),
        region_start(parent, base) <= address < region_start(parent, base) + region(parent),
        base == region_start(parent, base) + parent.spec_index(address) * parent.spec_span(),
{
    let size = region(parent);
    let q = base / size;
    vstd::arithmetic::div_mod::lemma_fundamental_div_mod(base, size);
    let top = region_start(parent, base);
    assert(top == size * q);
    vstd::arithmetic::div_mod::lemma_fundamental_div_mod_converse(top, size, q, 0);
    assert(region(level) == parent.spec_span());
    let span = parent.spec_span() as int;
    let k = base / span;
    vstd::arithmetic::div_mod::lemma_fundamental_div_mod(base, span);
    assert(base == span * k);
    let index = k - 512 * q;
    assert(base == top + index * span) by (nonlinear_arith)
        requires
            base == span * k,
            top == (512 * span) * q,
            index == k - 512 * q,
    ;
    assert(0 <= index < 512) by (nonlinear_arith)
        requires
            base == top + index * span,
            0 <= base - top < 512 * span,
            span > 0,
    ;
    assert(top + size <= 0x1_0000_0000_0000) by {
        assert(base < 0x1_0000_0000_0000);
        match parent {
            EptLevel::Pml4 => {},
            EptLevel::Pdpt => {},
            EptLevel::Pd => {},
            EptLevel::Pt => {},
        }
    }
    assert((index + 1) * span == index * span + span) by (nonlinear_arith);
    assert(base + span <= top + 512 * span) by (nonlinear_arith)
        requires
            base == top + index * span,
            index < 512,
            span > 0,
    ;
    super::scan::lemma_index_in_region(parent, top, index, address);
}

/// After a write, at most one entry of the placed tables has changed.
pub open spec fn differs_at(
    h: Hierarchy,
    after: Hierarchy,
    tables: TableMap,
    level: EptLevel,
    base: int,
    index: int,
) -> bool {
    &&& after.root == h.root
    &&& after.bits == h.bits
    &&& after.execute_only == h.execute_only
    &&& after.owner == h.owner
    &&& forall|other: EptLevel, start: int| #[trigger]
        tables.contains_key((other, start)) ==> {
            let table = tables[(other, start)];
            &&& page::has_page(after.pages, table)
            &&& page::page_of(after.pages, table).kind == page::page_of(h.pages, table).kind
            &&& page::page_of(after.pages, table).owner == page::page_of(h.pages, table).owner
            &&& forall|i: int|
                0 <= i < 512 && (other != level || start != base || i != index)
                    ==> #[trigger] after.entry(table, i) == h.entry(table, i)
        }
}

/// Whether the entry at a position governs an address.
pub open spec fn governs(level: EptLevel, base: int, index: int, address: int) -> bool {
    base + index * level.spec_span() <= address < base + (index + 1) * level.spec_span()
}

/// An address that the changed entry does not govern resolves as before.
pub proof fn lemma_frame(
    h: Hierarchy,
    after: Hierarchy,
    tables: TableMap,
    changed: EptLevel,
    changed_base: int,
    changed_index: int,
    level: EptLevel,
    base: int,
    address: u64,
)
    requires
        arranged(h, tables),
        differs_at(h, after, tables, changed, changed_base, changed_index),
        tables.contains_key((level, base)),
        base <= address < base + region(level),
        !governs(changed, changed_base, changed_index, address as int),
    ensures
        resolved_from(after, level, tables[(level, base)], address) == resolved_from(
            h,
            level,
            tables[(level, base)],
            address,
        ),
    decreases level.spec_code(),
{
    let table = tables[(level, base)];
    let index = level.spec_index(address);
    assert(place_fits(h, tables, level, base));
    lemma_regions(level, base, address);
    assert(slot_fits(h, tables, level, base, index));
    assert(after.entry(table, index) == h.entry(table, index));
    if let Ok(DecodedEptEntry::Table { hpa, permissions }) = h.decoded(level, table, index) {
        let child = level.spec_next().unwrap();
        let below = child_place(level, base, index);
        assert(below == (child, base + index * level.spec_span()));
        lemma_frame(
            h,
            after,
            tables,
            changed,
            changed_base,
            changed_index,
            child,
            below.1,
            address,
        );
    }
}

/// What the entry of a page says of an address of that page.
pub open spec fn page_result(
    decoded: Result<DecodedEptEntry, EptEntryError>,
    address: u64,
) -> Result<PageTarget, Miss> {
    match decoded {
        Ok(DecodedEptEntry::Leaf { hpa, size, permissions, memory_type }) => Ok(
            PageTarget {
                hpa: (hpa.get() + address % size.bytes()) as u64,
                size,
                permissions,
                memory_type,
            },
        ),
        Ok(_) => Err(Miss::Absent(EptLevel::Pt)),
        Err(error) => Err(Miss::Broken(EptLevel::Pt, error)),
    }
}

/// Writing an entry of the lowest level changes what that page resolves to,
/// and nothing else.
pub proof fn lemma_set_page(
    h: Hierarchy,
    after: Hierarchy,
    tables: TableMap,
    base: int,
    index: int,
    raw: u64,
)
    requires
        arranged(h, tables),
        page::distinct_pages(h.pages, h.bits),
        tables.contains_key((EptLevel::Pt, base)),
        0 <= index < 512,
        after == (Hierarchy {
            pages: page::with_entry(
                h.pages,
                page::page_index(h.pages, tables[(EptLevel::Pt, base)]),
                index,
                raw,
            ),
            ..h
        }),
    ensures
        arranged(after, tables),
        all_in(h.pages, tables) ==> all_in(after.pages, tables),
        forall|address: u64|
            address < 0x1_0000_0000_0000 ==> #[trigger] resolved(after, address) == if governs(
                EptLevel::Pt,
                base,
                index,
                address as int,
            ) {
                page_result(
                    entry::decoded(EptLevel::Pt, raw, h.bits, h.execute_only),
                    address,
                )
            } else {
                resolved(h, address)
            },
{
    let table = tables[(EptLevel::Pt, base)];
    assert(place_fits(h, tables, EptLevel::Pt, base));
    let position = page::page_index(h.pages, table);
    page::lemma_page_index(h.pages, h.bits, position);
    page::lemma_with_entry(h.pages, h.bits, position, index, raw);
    assert(differs_at(h, after, tables, EptLevel::Pt, base, index)) by {
        assert forall|other: EptLevel, start: int| #[trigger]
            tables.contains_key((other, start)) implies {
            let t = tables[(other, start)];
            &&& page::has_page(after.pages, t)
            &&& page::page_of(after.pages, t).kind == page::page_of(h.pages, t).kind
            &&& page::page_of(after.pages, t).owner == page::page_of(h.pages, t).owner
            &&& forall|i: int|
                0 <= i < 512 && (other != EptLevel::Pt || start != base || i != index)
                    ==> #[trigger] after.entry(t, i) == h.entry(t, i)
        } by {
            assert(place_fits(h, tables, other, start));
            let t = tables[(other, start)];
            if t == table {
                assert(tables.contains_key((EptLevel::Pt, base)));
                assert((other, start) == (EptLevel::Pt, base));
            }
        }
    }
    assert forall|level: EptLevel, start: int| #[trigger]
        tables.contains_key((level, start)) implies place_fits(after, tables, level, start) by {
        assert(place_fits(h, tables, level, start));
    }
    assert forall|level: EptLevel, start: int, i: int|
        tables.contains_key((level, start)) && 0 <= i < 512 implies #[trigger] slot_fits(
        after,
        tables,
        level,
        start,
        i,
    ) by {
        assert(slot_fits(h, tables, level, start, i));
        if level != EptLevel::Pt || start != base || i != index {
            assert(after.entry(tables[(level, start)], i) == h.entry(tables[(level, start)], i));
        }
    }
    assert forall|address: u64| address < 0x1_0000_0000_0000 implies #[trigger] resolved(
        after,
        address,
    ) == if governs(EptLevel::Pt, base, index, address as int) {
        page_result(entry::decoded(EptLevel::Pt, raw, h.bits, h.execute_only), address)
    } else {
        resolved(h, address)
    } by {
        if governs(EptLevel::Pt, base, index, address as int) {
            super::scan::lemma_index_in_region(EptLevel::Pt, base, index, address);
            lemma_governed(EptLevel::Pt, base, index, address);
            lemma_reach(after, tables, EptLevel::Pt, base, address);
            assert(after.entry(table, index) == raw);
        } else {
            lemma_frame(
                h,
                after,
                tables,
                EptLevel::Pt,
                base,
                index,
                EptLevel::Pml4,
                0,
                address,
            );
        }
    }
}

/// What an entry governs lies in its table's region.
pub proof fn lemma_governed(level: EptLevel, base: int, index: int, address: u64)
    requires
        0 <= index < 512,
        governs(level, base, index, address as int),
    ensures
        base <= address < base + region(level),
{
    let span = level.spec_span() as int;
    assert(base <= address < base + 512 * span) by (nonlinear_arith)
        requires
            base + index * span <= address < base + (index + 1) * span,
            0 <= index < 512,
            span > 0,
    ;
}

/// Two results that differ at most in the size of the leaf.
pub open spec fn same_target(
    left: Result<PageTarget, Miss>,
    right: Result<PageTarget, Miss>,
) -> bool {
    match (left, right) {
        (Ok(x), Ok(y)) => {
            &&& x.hpa == y.hpa
            &&& x.permissions == y.permissions
            &&& x.memory_type == y.memory_type
        },
        (Err(x), Err(y)) => x == y,
        _ => false,
    }
}

/// The leaf size one level below a large leaf.
pub open spec fn smaller(level: EptLevel) -> EptLeafSize {
    if level is Pdpt {
        EptLeafSize::Size2M
    } else {
        EptLeafSize::Size4K
    }
}

/// The entries of the table that takes the place of a large leaf.
pub open spec fn split_entries(
    level: EptLevel,
    hpa: u64,
    permissions: EptPermissions,
    memory_type: EptMemoryType,
) -> Seq<u64> {
    Seq::new(
        512,
        |i: int|
            entry::leaf_entry_word(
                HostPhysicalAddress::at((hpa + i * smaller(level).bytes()) as u64),
                smaller(level),
                permissions,
                memory_type,
            ),
    )
}

/// Each entry of a split leaf decodes to its part of the leaf.
pub proof fn lemma_split_entry(
    level: EptLevel,
    hpa: u64,
    permissions: EptPermissions,
    memory_type: EptMemoryType,
    max_physical_bits: u8,
    execute_only: bool,
    i: int,
)
    requires
        level is Pdpt || level is Pd,
        entry::supported_width(max_physical_bits),
        hpa % level.spec_span() == 0,
        hpa + level.spec_span() <= bits::width_limit(max_physical_bits),
        permissions.is_present(),
        super::address::permission_fault(
            permissions.read,
            permissions.write,
            permissions.execute,
            execute_only,
        ) is None,
        0 <= i < 512,
    ensures
        hpa + i * smaller(level).bytes() <= u64::MAX,
        entry::leaf_fault(
            HostPhysicalAddress::at((hpa + i * smaller(level).bytes()) as u64),
            smaller(level),
            permissions,
            max_physical_bits,
        ) is None,
        entry::decoded(
            level.spec_next().unwrap(),
            split_entries(level, hpa, permissions, memory_type)[i],
            max_physical_bits,
            execute_only,
        ) == Ok::<DecodedEptEntry, EptEntryError>(
            DecodedEptEntry::Leaf {
                hpa: HostPhysicalAddress::at((hpa + i * smaller(level).bytes()) as u64),
                size: smaller(level),
                permissions,
                memory_type,
            },
        ),
{
    bits::lemma_width_limit(max_physical_bits);
    let part = smaller(level).bytes() as int;
    assert(512 * part == level.spec_span());
    assert(i * part + part <= 512 * part) by (nonlinear_arith)
        requires
            i < 512,
            part > 0,
    ;
    assert((hpa + i * part) % part == 0) by {
        let q = hpa as int / part;
        vstd::arithmetic::div_mod::lemma_fundamental_div_mod(hpa as int, part);
        assert(hpa as int % part == 0) by {
            match level {
                EptLevel::Pdpt => {
                    assert(hpa % 0x20_0000 == 0);
                },
                _ => {
                    assert(hpa % 0x1000 == 0);
                },
            }
        }
        assert(hpa + i * part == (q + i) * part) by (nonlinear_arith)
            requires
                hpa == part * q,
        ;
        vstd::arithmetic::div_mod::lemma_fundamental_div_mod_converse(
            hpa + i * part,
            part,
            q + i,
            0,
        );
    }
    entry::law_leaf_round_trip(
        HostPhysicalAddress::at((hpa + i * part) as u64),
        smaller(level),
        permissions,
        memory_type,
        max_physical_bits,
        execute_only,
    );
}

/// A large leaf, and the page that takes its place.
pub struct Split {
    pub level: EptLevel,
    pub base: int,
    pub index: int,
    pub fresh: u64,
    pub hpa: u64,
    pub permissions: EptPermissions,
    pub memory_type: EptMemoryType,
}

/// The hierarchy after a split: one page more, filled with the parts of the
/// leaf, and a link to it where the leaf stood.
pub open spec fn is_split(
    h: Hierarchy,
    middle: Seq<TablePage>,
    after: Hierarchy,
    tables: TableMap,
    split: Split,
) -> bool {
    let table = tables[(split.level, split.base)];
    let size = if split.level is Pdpt {
        EptLeafSize::Size1G
    } else {
        EptLeafSize::Size2M
    };
    &&& tables.contains_key((split.level, split.base))
    &&& 0 <= split.index < 512
    &&& split.level is Pdpt || split.level is Pd
    &&& h.decoded(split.level, table, split.index) == Ok::<DecodedEptEntry, EptEntryError>(
        DecodedEptEntry::Leaf {
            hpa: HostPhysicalAddress::at(split.hpa),
            size,
            permissions: split.permissions,
            memory_type: split.memory_type,
        },
    )
    &&& !page::has_page(h.pages, split.fresh)
    &&& entry::table_fault(HostPhysicalAddress::at(split.fresh), h.bits) is None
    &&& page::distinct_pages(middle, h.bits)
    &&& forall|hpa: u64| #[trigger]
        page::has_page(middle, hpa) == (page::has_page(h.pages, hpa) || hpa == split.fresh)
    &&& forall|hpa: u64|
        page::has_page(h.pages, hpa) ==> #[trigger] page::page_of(middle, hpa) == page::page_of(
            h.pages,
            hpa,
        )
    &&& page::page_of(middle, split.fresh).kind == split.level.spec_next().unwrap().spec_kind()
    &&& page::page_of(middle, split.fresh).owner == h.owner
    &&& page::page_of(middle, split.fresh).entries == split_entries(
        split.level,
        split.hpa,
        split.permissions,
        split.memory_type,
    )
    &&& after == (Hierarchy {
        pages: page::with_entry(
            middle,
            page::page_index(middle, table),
            split.index,
            entry::table_word(HostPhysicalAddress::at(split.fresh)),
        ),
        ..h
    })
}

/// A split changes one entry of the tables that were there.
proof fn lemma_split_frame(
    h: Hierarchy,
    middle: Seq<TablePage>,
    after: Hierarchy,
    tables: TableMap,
    split: Split,
)
    requires
        arranged(h, tables),
        is_split(h, middle, after, tables, split),
    ensures
        differs_at(h, after, tables, split.level, split.base, split.index),
        after.entry(tables[(split.level, split.base)], split.index) == entry::table_word(
            HostPhysicalAddress::at(split.fresh),
        ),
        page::page_of(after.pages, split.fresh) == page::page_of(middle, split.fresh),
        forall|hpa: u64| #[trigger]
            page::has_page(after.pages, hpa) == (page::has_page(h.pages, hpa) || hpa
                == split.fresh),
        !tables.contains_key(child_place(split.level, split.base, split.index)),
        split.permissions.is_present(),
{
    let table = tables[(split.level, split.base)];
    assert(place_fits(h, tables, split.level, split.base));
    assert(slot_fits(h, tables, split.level, split.base, split.index));
    assert(page::has_page(middle, table));
    let position = page::page_index(middle, table);
    let word = entry::table_word(HostPhysicalAddress::at(split.fresh));
    page::lemma_page_index(middle, h.bits, position);
    page::lemma_with_entry(middle, h.bits, position, split.index, word);
    lemma_present(h.entry(table, split.index));
    assert forall|other: EptLevel, from: int| #[trigger]
        tables.contains_key((other, from)) implies {
        let t = tables[(other, from)];
        &&& page::has_page(after.pages, t)
        &&& page::page_of(after.pages, t).kind == page::page_of(h.pages, t).kind
        &&& page::page_of(after.pages, t).owner == page::page_of(h.pages, t).owner
        &&& forall|i: int|
            0 <= i < 512 && (other != split.level || from != split.base || i != split.index)
                ==> #[trigger] after.entry(t, i) == h.entry(t, i)
    } by {
        assert(place_fits(h, tables, other, from));
        let t = tables[(other, from)];
        assert(page::has_page(middle, t));
        if t == table {
            assert(tables.contains_key((split.level, split.base)));
            assert((other, from) == (split.level, split.base));
        }
    }
}

/// Every entry of the page that takes a leaf's place fits.
proof fn lemma_split_slots(
    h: Hierarchy,
    middle: Seq<TablePage>,
    after: Hierarchy,
    tables: TableMap,
    split: Split,
    i: int,
)
    requires
        arranged(h, tables),
        is_split(h, middle, after, tables, split),
        0 <= i < 512,
    ensures
        ({
            let child = split.level.spec_next().unwrap();
            let link = child_place(split.level, split.base, split.index);
            slot_fits(after, tables.insert(link, split.fresh), child, link.1, i)
        }),
{
    let child = split.level.spec_next().unwrap();
    let link = child_place(split.level, split.base, split.index);
    lemma_split_frame(h, middle, after, tables, split);
    assert(place_fits(h, tables, split.level, split.base));
    assert(slot_fits(h, tables, split.level, split.base, split.index));
    assert(HostPhysicalAddress::at(split.hpa).get() == split.hpa);
    lemma_split_entry(
        split.level,
        split.hpa,
        split.permissions,
        split.memory_type,
        h.bits,
        h.execute_only,
        i,
    );
    assert(after.entry(split.fresh, i) == split_entries(
        split.level,
        split.hpa,
        split.permissions,
        split.memory_type,
    )[i]);
    if child.spec_next() is Some {
        let below = child_place(child, link.1, i);
        if tables.contains_key(below) {
            assert(tables.contains_key((below.0, below.1)));
            assert(place_fits(h, tables, below.0, below.1));
            lemma_split_gap(split.level, split.base, split.index, i);
            assert(above(below.0) == Some(child));
            assert(tables.contains_key((child, region_start(child, below.1))));
        }
    }
}

/// A split leaves the hierarchy arranged.
#[verifier::rlimit(40)]
#[verifier::spinoff_prover]
proof fn lemma_split_arranged(
    h: Hierarchy,
    middle: Seq<TablePage>,
    after: Hierarchy,
    tables: TableMap,
    split: Split,
)
    requires
        arranged(h, tables),
        is_split(h, middle, after, tables, split),
    ensures
        arranged(
            after,
            tables.insert(child_place(split.level, split.base, split.index), split.fresh),
        ),
{
    let level = split.level;
    let base = split.base;
    let index = split.index;
    let fresh = split.fresh;
    let child = level.spec_next().unwrap();
    let link = child_place(level, base, index);
    let start = link.1;
    let more = tables.insert(link, fresh);
    lemma_split_frame(h, middle, after, tables, split);
    assert(place_fits(h, tables, level, base));
    entry::law_table_round_trip(level, HostPhysicalAddress::at(fresh), h.bits, h.execute_only);
    lemma_slot_start(level, base, index);
    assert(place_fits(after, more, child, start)) by {
        assert(region_start(level, start) == base) by {
            lemma_regions(level, base, start as u64);
        }
        assert(more.contains_key((level, base)));
    }
    assert forall|other: EptLevel, from: int| #[trigger]
        more.contains_key((other, from)) implies place_fits(after, more, other, from) by {
        if (other, from) != link {
            assert(tables.contains_key((other, from)));
            assert(place_fits(h, tables, other, from));
            if let Some(parent) = above(other) {
                assert(more.contains_key((parent, region_start(parent, from))));
            }
        }
    }
    assert forall|other: EptLevel, from: int, i: int|
        more.contains_key((other, from)) && 0 <= i < 512 implies #[trigger] slot_fits(
        after,
        more,
        other,
        from,
        i,
    ) by {
        if (other, from) == link {
            lemma_split_slots(h, middle, after, tables, split, i);
        } else {
            assert(tables.contains_key((other, from)));
            let t = tables[(other, from)];
            assert(slot_fits(h, tables, other, from, i));
            assert(place_fits(h, tables, other, from));
            if other == level && from == base && i == index {
                assert(more.contains_key(link) && more[link] == fresh);
            } else {
                assert(after.entry(t, i) == h.entry(t, i));
                if other.spec_next() is Some {
                    let below = child_place(other, from, i);
                    if below == link {
                        assert(other == level);
                        lemma_same_slot(level, base, index, from, i);
                    }
                }
            }
        }
    }
    assert forall|left: (EptLevel, int), right: (EptLevel, int)|
        #![trigger more.contains_key(left), more.contains_key(right)]
        more.contains_key(left) && more.contains_key(right) && more[left] == more[right] implies left
        == right by {
        if left != link {
            assert(tables.contains_key((left.0, left.1)));
            assert(place_fits(h, tables, left.0, left.1));
        }
        if right != link {
            assert(tables.contains_key((right.0, right.1)));
            assert(place_fits(h, tables, right.0, right.1));
        }
        if left != link && right != link {
            assert(tables.contains_key(left) && tables.contains_key(right));
        }
    }
    assert(tables.contains_key((EptLevel::Pml4, 0)));
    assert(more.contains_key((EptLevel::Pml4, 0)));
}

/// Replacing a large leaf by a table of its parts changes no page's target,
/// and leaves what lies outside the leaf as it was, leaf sizes included.
pub proof fn lemma_split(
    h: Hierarchy,
    middle: Seq<TablePage>,
    after: Hierarchy,
    tables: TableMap,
    split: Split,
)
    requires
        arranged(h, tables),
        is_split(h, middle, after, tables, split),
    ensures
        arranged(
            after,
            tables.insert(child_place(split.level, split.base, split.index), split.fresh),
        ),
        all_in(h.pages, tables) ==> all_in(
            after.pages,
            tables.insert(child_place(split.level, split.base, split.index), split.fresh),
        ),
        forall|address: u64|
            address < 0x1_0000_0000_0000 ==> same_target(
                resolved(h, address),
                #[trigger] resolved(after, address),
            ),
        forall|address: u64|
            address < 0x1_0000_0000_0000 && !governs(
                split.level,
                split.base,
                split.index,
                address as int,
            ) ==> #[trigger] resolved(after, address) == resolved(h, address),
{
    let link = child_place(split.level, split.base, split.index);
    let more = tables.insert(link, split.fresh);
    lemma_split_arranged(h, middle, after, tables, split);
    lemma_split_frame(h, middle, after, tables, split);
    if all_in(h.pages, tables) {
        assert forall|x: u64| #[trigger] page::has_page(after.pages, x) implies placed(more, x) by {
            if x == split.fresh {
                assert(more.contains_key(link) && more[link] == split.fresh);
            } else {
                assert(page::has_page(h.pages, x));
                let place = choose|place: (EptLevel, int)| #[trigger]
                    tables.contains_key(place) && tables[place] == x;
                assert(more.contains_key(place) && more[place] == x);
            }
        }
    }
    assert forall|address: u64|
        address < 0x1_0000_0000_0000 && !governs(
            split.level,
            split.base,
            split.index,
            address as int,
        ) implies #[trigger] resolved(after, address) == resolved(h, address) by {
        lemma_frame(
            h,
            after,
            tables,
            split.level,
            split.base,
            split.index,
            EptLevel::Pml4,
            0,
            address,
        );
    }
    assert forall|address: u64| address < 0x1_0000_0000_0000 implies same_target(
        resolved(h, address),
        #[trigger] resolved(after, address),
    ) by {
        if governs(split.level, split.base, split.index, address as int) {
            lemma_split_inside(h, middle, after, tables, split, address);
        }
    }
}

/// An address of a split leaf keeps its target.
proof fn lemma_split_inside(
    h: Hierarchy,
    middle: Seq<TablePage>,
    after: Hierarchy,
    tables: TableMap,
    split: Split,
    address: u64,
)
    requires
        arranged(h, tables),
        is_split(h, middle, after, tables, split),
        governs(split.level, split.base, split.index, address as int),
    ensures
        same_target(resolved(h, address), resolved(after, address)),
        resolved(after, address) matches Ok(target) && target.size == smaller(split.level),
{
    let level = split.level;
    let base = split.base;
    let index = split.index;
    let child = level.spec_next().unwrap();
    let link = child_place(level, base, index);
    let start = link.1;
    let more = tables.insert(link, split.fresh);
    lemma_split_arranged(h, middle, after, tables, split);
    lemma_split_frame(h, middle, after, tables, split);
    assert(place_fits(h, tables, level, base));
    super::scan::lemma_index_in_region(level, base, index, address);
    lemma_governed(level, base, index, address);
    lemma_reach(h, tables, level, base, address);
    assert(more.contains_key(link));
    lemma_regions(level, base, address);
    lemma_slot_start(level, base, index);
    lemma_reach(after, more, child, start, address);
    lemma_regions(child, start, address);
    let i = child.spec_index(address);
    lemma_split_entry(
        level,
        split.hpa,
        split.permissions,
        split.memory_type,
        h.bits,
        h.execute_only,
        i,
    );
    assert(after.entry(split.fresh, i) == split_entries(
        level,
        split.hpa,
        split.permissions,
        split.memory_type,
    )[i]);
    let part = smaller(level).bytes() as int;
    assert(child.spec_span() == part);
    super::scan::lemma_index_in_region(child, start, i, address);
    assert(split.hpa + i * part + address % smaller(level).bytes() == split.hpa + address
        % level.spec_span());
}

/// Splitting a large leaf changes a walk in the size of the leaf that it finds,
/// and in nothing else: a page of the leaf finds one of its parts, with the page
/// that it had, its permissions and its type; any other page, mapped or not, is
/// walked as before.
pub proof fn law_splitting_changes_leaf_sizes_only(
    h: Hierarchy,
    middle: Seq<TablePage>,
    after: Hierarchy,
    tables: TableMap,
    split: Split,
    gpa: GuestPhysicalAddress,
)
    requires
        arranged(h, tables),
        is_split(h, middle, after, tables, split),
        gpa.get() % 0x1000 == 0,
    ensures
        !governs(split.level, split.base, split.index, gpa.get() as int) ==> walker::walked(
            after,
            gpa,
        ) == walker::walked(h, gpa),
        governs(split.level, split.base, split.index, gpa.get() as int) && gpa.get()
            < bits::width_limit(h.bits) ==> match (walker::walked(h, gpa), walker::walked(after, gpa)) {
            (WalkResult::Mapping(old_mapping), WalkResult::Mapping(new_mapping)) => new_mapping == (
            ResolvedMapping { leaf_size: smaller(split.level), ..old_mapping }),
            _ => false,
        },
{
    let more = tables.insert(child_place(split.level, split.base, split.index), split.fresh);
    lemma_split(h, middle, after, tables, split);
    bits::lemma_width_limit(h.bits);
    if gpa.get() < bits::width_limit(h.bits) {
        lemma_walked(h, tables, gpa);
        lemma_walked(after, more, gpa);
        if governs(split.level, split.base, split.index, gpa.get() as int) {
            lemma_split_inside(h, middle, after, tables, split, gpa.get());
        }
    }
}

/// A word with a permission bit grants something.
proof fn lemma_present(raw: u64)
    ensures
        raw & 0x7 != 0 ==> raw & 1 != 0 || raw & 2 != 0 || raw & 4 != 0,
{
    crate::bits::lemma_word(raw);
}

/// The start of what an entry governs is a place one level down.
pub proof fn lemma_slot_start(level: EptLevel, base: int, index: int)
    requires
        is_place(level, base),
        0 <= index < 512,
        level.spec_next() is Some,
    ensures
        is_place(level.spec_next().unwrap(), base + index * level.spec_span()),
        base <= base + index * level.spec_span() < base + region(level),
        base + index * level.spec_span() <= u64::MAX,
        region(level.spec_next().unwrap()) == level.spec_span(),
{
    let span = level.spec_span() as int;
    let start = base + index * span;
    assert(base <= start < base + 512 * span) by (nonlinear_arith)
        requires
            start == base + index * span,
            0 <= index < 512,
            span > 0,
    ;
    assert((index + 1) * span == index * span + span) by (nonlinear_arith);
    super::scan::lemma_index_in_region(level, base, index, start as u64);
    lemma_regions(level, base, start as u64);
}

/// The region of the place two levels down starts at the place one level down.
proof fn lemma_split_gap(level: EptLevel, base: int, index: int, i: int)
    requires
        is_place(level, base),
        0 <= index < 512,
        0 <= i < 512,
        level is Pdpt,
    ensures
        region_start(EptLevel::Pd, base + index * level.spec_span() + i * 0x20_0000) == base + index
            * level.spec_span(),
{
    lemma_slot_start(level, base, index);
    let start = base + index * level.spec_span();
    lemma_slot_start(EptLevel::Pd, start, i);
    let low = start + i * 0x20_0000;
    lemma_regions(EptLevel::Pd, start, low as u64);
}

/// A place one level down belongs to one entry of one table.
proof fn lemma_same_slot(level: EptLevel, base: int, index: int, other: int, i: int)
    requires
        is_place(level, base),
        is_place(level, other),
        0 <= index < 512,
        0 <= i < 512,
        level.spec_next() is Some,
        base + index * level.spec_span() == other + i * level.spec_span(),
    ensures
        base == other,
        index == i,
{
    lemma_slot_start(level, base, index);
    lemma_slot_start(level, other, i);
    let start = base + index * level.spec_span();
    lemma_regions(level, base, start as u64);
    lemma_regions(level, other, start as u64);
    let span = level.spec_span() as int;
    assert(index == i) by (nonlinear_arith)
        requires
            index * span == i * span,
            span > 0,
    ;
}

/// A hierarchy whose pages all got a new owner resolves as before.
pub proof fn lemma_new_owner(h: Hierarchy, after: Hierarchy, tables: TableMap)
    requires
        arranged(h, tables),
        page::distinct_pages(h.pages, h.bits),
        after == (Hierarchy {
            pages: page::with_owner(h.pages, after.owner),
            owner: after.owner,
            ..h
        }),
    ensures
        arranged(after, tables),
        all_in(h.pages, tables) ==> all_in(after.pages, tables),
        page::distinct_pages(after.pages, after.bits),
        forall|address: u64|
            address < 0x1_0000_0000_0000 ==> #[trigger] resolved(after, address) == resolved(
                h,
                address,
            ),
{
    page::lemma_with_owner(h.pages, h.bits, after.owner);
    assert forall|level: EptLevel, base: int| #[trigger]
        tables.contains_key((level, base)) implies place_fits(after, tables, level, base) by {
        assert(place_fits(h, tables, level, base));
    }
    assert forall|level: EptLevel, base: int, index: int|
        tables.contains_key((level, base)) && 0 <= index < 512 implies #[trigger] slot_fits(
        after,
        tables,
        level,
        base,
        index,
    ) by {
        assert(slot_fits(h, tables, level, base, index));
        assert(place_fits(h, tables, level, base));
        assert(after.entry(tables[(level, base)], index) == h.entry(tables[(level, base)], index));
    }
    assert forall|address: u64| address < 0x1_0000_0000_0000 implies #[trigger] resolved(
        after,
        address,
    ) == resolved(h, address) by {
        lemma_same_entries(h, after, tables, EptLevel::Pml4, 0, address);
    }
}

/// Where every entry of every placed table is the same, an address resolves
/// the same.
proof fn lemma_same_entries(
    h: Hierarchy,
    after: Hierarchy,
    tables: TableMap,
    level: EptLevel,
    base: int,
    address: u64,
)
    requires
        arranged(h, tables),
        after.bits == h.bits,
        after.execute_only == h.execute_only,
        forall|other: EptLevel, start: int, i: int|
            tables.contains_key((other, start)) && 0 <= i < 512 ==> #[trigger] after.entry(
                tables[(other, start)],
                i,
            ) == h.entry(tables[(other, start)], i),
        tables.contains_key((level, base)),
        base <= address < base + region(level),
    ensures
        resolved_from(after, level, tables[(level, base)], address) == resolved_from(
            h,
            level,
            tables[(level, base)],
            address,
        ),
    decreases level.spec_code(),
{
    let table = tables[(level, base)];
    let index = level.spec_index(address);
    assert(place_fits(h, tables, level, base));
    lemma_regions(level, base, address);
    assert(slot_fits(h, tables, level, base, index));
    assert(after.entry(table, index) == h.entry(table, index));
    if let Ok(DecodedEptEntry::Table { hpa, permissions }) = h.decoded(level, table, index) {
        let below = child_place(level, base, index);
        assert(below == (level.spec_next().unwrap(), base + index * level.spec_span()));
        lemma_same_entries(h, after, tables, below.0, below.1, address);
    }
}

/// A large leaf grants something that the processor has, on an aligned run
/// below the physical width.
pub proof fn lemma_large_leaf_present(h: Hierarchy, level: EptLevel, table: u64, index: int)
    requires
        level is Pdpt || level is Pd,
        h.decoded(level, table, index) matches Ok(decoded) && decoded is Leaf,
    ensures
        h.decoded(level, table, index) matches Ok(
            DecodedEptEntry::Leaf { hpa, size, permissions, memory_type },
        ) ==> {
            &&& permissions.is_present()
            &&& super::address::permission_fault(
                permissions.read,
                permissions.write,
                permissions.execute,
                h.execute_only,
            ) is None
            &&& hpa.get() % level.spec_span() == 0
            &&& hpa.get() + level.spec_span() <= bits::width_limit(h.bits)
        },
{
    lemma_present(h.entry(table, index));
}

/// The page of a copy that stands for a page.
pub open spec fn counterpart(h: Hierarchy, copy: Hierarchy, hpa: u64) -> u64 {
    copy.pages[page::page_index(h.pages, hpa)].hpa
}

/// The entry of a copy that stands for an entry: a table entry leads to the
/// table's counterpart, any other entry is the same.
pub open spec fn relinked(h: Hierarchy, copy: Hierarchy, level: EptLevel, raw: u64) -> u64 {
    match entry::decoded(level, raw, h.bits, h.execute_only) {
        Ok(DecodedEptEntry::Table { hpa, permissions }) => entry::table_word(
            HostPhysicalAddress::at(counterpart(h, copy, hpa.get())),
        ),
        _ => raw,
    }
}

/// A hierarchy that has a page for every page of another, with the same
/// entries but for where its tables stand.
pub open spec fn is_copy(h: Hierarchy, copy: Hierarchy) -> bool {
    &&& copy.bits == h.bits
    &&& copy.execute_only == h.execute_only
    &&& copy.root == counterpart(h, copy, h.root)
    &&& copy.pages.len() == h.pages.len()
    &&& forall|i: int|
        0 <= i < h.pages.len() ==> (#[trigger] copy.pages[i]).kind == h.pages[i].kind
            && copy.pages[i].owner == copy.owner
    &&& forall|i: int, j: int|
        0 <= i < h.pages.len() && 0 <= j < 512 ==> #[trigger] copy.pages[i].entries[j] == relinked(
            h,
            copy,
            walker::level_of_kind(h.pages[i].kind),
            h.pages[i].entries[j],
        )
}

/// Where the tables of a copy stand.
pub open spec fn copied_tables(h: Hierarchy, copy: Hierarchy, tables: TableMap) -> TableMap {
    tables.map_values(|table: u64| counterpart(h, copy, table))
}

/// A placed table and its counterpart in a copy.
proof fn lemma_counterpart(
    h: Hierarchy,
    copy: Hierarchy,
    tables: TableMap,
    level: EptLevel,
    base: int,
)
    requires
        arranged(h, tables),
        page::distinct_pages(h.pages, h.bits),
        page::distinct_pages(copy.pages, h.bits),
        is_copy(h, copy),
        tables.contains_key((level, base)),
    ensures
        ({
            let table = tables[(level, base)];
            let position = page::page_index(h.pages, table);
            let twin = counterpart(h, copy, table);
            &&& 0 <= position < h.pages.len()
            &&& h.pages[position].hpa == table
            &&& page::has_page(copy.pages, twin)
            &&& page::page_of(copy.pages, twin) == copy.pages[position]
            &&& page::page_of(copy.pages, twin).kind == level.spec_kind()
            &&& page::page_of(copy.pages, twin).owner == copy.owner
            &&& page::page_index(copy.pages, twin) == position
            &&& copied_tables(h, copy, tables).contains_key((level, base))
            &&& copied_tables(h, copy, tables)[(level, base)] == twin
            &&& forall|j: int|
                0 <= j < 512 ==> #[trigger] copy.entry(twin, j) == relinked(
                    h,
                    copy,
                    level,
                    h.entry(table, j),
                )
        }),
{
    let table = tables[(level, base)];
    assert(place_fits(h, tables, level, base));
    let position = page::page_index(h.pages, table);
    page::lemma_page_index(h.pages, h.bits, position);
    page::lemma_page_index(copy.pages, h.bits, position);
    assert(walker::level_of_kind(level.spec_kind()) == level);
    assert(copy.pages[position].kind == h.pages[position].kind);
    let twin = counterpart(h, copy, table);
    assert forall|j: int| 0 <= j < 512 implies #[trigger] copy.entry(twin, j) == relinked(
        h,
        copy,
        level,
        h.entry(table, j),
    ) by {
        assert(copy.pages[position].entries[j] == relinked(
            h,
            copy,
            walker::level_of_kind(h.pages[position].kind),
            h.pages[position].entries[j],
        ));
    }
}

/// Every entry of a copy fits.
proof fn lemma_copied_slot(
    h: Hierarchy,
    copy: Hierarchy,
    tables: TableMap,
    level: EptLevel,
    base: int,
    index: int,
)
    requires
        arranged(h, tables),
        page::distinct_pages(h.pages, h.bits),
        page::distinct_pages(copy.pages, h.bits),
        is_copy(h, copy),
        tables.contains_key((level, base)),
        0 <= index < 512,
    ensures
        slot_fits(copy, copied_tables(h, copy, tables), level, base, index),
        match h.decoded(level, tables[(level, base)], index) {
            Ok(DecodedEptEntry::Table { hpa, permissions }) => copy.decoded(
                level,
                counterpart(h, copy, tables[(level, base)]),
                index,
            ) == Ok::<DecodedEptEntry, EptEntryError>(
                DecodedEptEntry::Table {
                    hpa: HostPhysicalAddress::at(counterpart(h, copy, hpa.get())),
                    permissions: EptPermissions::full(),
                },
            ),
            other => copy.decoded(level, counterpart(h, copy, tables[(level, base)]), index)
                == other,
        },
{
    let table = tables[(level, base)];
    lemma_counterpart(h, copy, tables, level, base);
    assert(slot_fits(h, tables, level, base, index));
    let twin = counterpart(h, copy, table);
    assert(copy.entry(twin, index) == relinked(h, copy, level, h.entry(table, index)));
    match h.decoded(level, table, index) {
        Ok(DecodedEptEntry::Table { hpa, permissions }) => {
            let below = child_place(level, base, index);
            lemma_counterpart(h, copy, tables, below.0, below.1);
            let child = counterpart(h, copy, hpa.get());
            assert(copy.pages[page::page_index(h.pages, hpa.get())].hpa == child);
            entry::law_table_round_trip(
                level,
                HostPhysicalAddress::at(child),
                h.bits,
                h.execute_only,
            );
        },
        _ => {},
    }
}

/// An address resolves in a copy as it does in what was copied.
proof fn lemma_copied_target(
    h: Hierarchy,
    copy: Hierarchy,
    tables: TableMap,
    level: EptLevel,
    base: int,
    address: u64,
)
    requires
        arranged(h, tables),
        page::distinct_pages(h.pages, h.bits),
        page::distinct_pages(copy.pages, h.bits),
        is_copy(h, copy),
        tables.contains_key((level, base)),
        base <= address < base + region(level),
    ensures
        resolved_from(copy, level, counterpart(h, copy, tables[(level, base)]), address)
            == resolved_from(h, level, tables[(level, base)], address),
    decreases level.spec_code(),
{
    let table = tables[(level, base)];
    let index = level.spec_index(address);
    assert(place_fits(h, tables, level, base));
    lemma_regions(level, base, address);
    assert(slot_fits(h, tables, level, base, index));
    lemma_copied_slot(h, copy, tables, level, base, index);
    if let Ok(DecodedEptEntry::Table { hpa, permissions }) = h.decoded(level, table, index) {
        let below = child_place(level, base, index);
        assert(below == (level.spec_next().unwrap(), base + index * level.spec_span()));
        lemma_copied_target(h, copy, tables, below.0, below.1, address);
    }
}

/// A copy is arranged as what was copied, and every address resolves the same.
pub proof fn lemma_copy(h: Hierarchy, copy: Hierarchy, tables: TableMap)
    requires
        arranged(h, tables),
        all_in(h.pages, tables),
        page::distinct_pages(h.pages, h.bits),
        page::distinct_pages(copy.pages, h.bits),
        is_copy(h, copy),
    ensures
        arranged(copy, copied_tables(h, copy, tables)),
        all_in(copy.pages, copied_tables(h, copy, tables)),
        forall|address: u64|
            address < 0x1_0000_0000_0000 ==> #[trigger] resolved(copy, address) == resolved(
                h,
                address,
            ),
{
    let twins = copied_tables(h, copy, tables);
    assert(tables.contains_key((EptLevel::Pml4, 0)));
    assert forall|place: (EptLevel, int)| #[trigger]
        twins.contains_key(place) == tables.contains_key(place) by {}
    assert forall|level: EptLevel, base: int| #[trigger]
        twins.contains_key((level, base)) implies place_fits(copy, twins, level, base) by {
        assert(tables.contains_key((level, base)));
        assert(place_fits(h, tables, level, base));
        lemma_counterpart(h, copy, tables, level, base);
        if let Some(parent) = above(level) {
            assert(tables.contains_key((parent, region_start(parent, base))));
        }
    }
    assert forall|level: EptLevel, base: int, index: int|
        twins.contains_key((level, base)) && 0 <= index < 512 implies #[trigger] slot_fits(
        copy,
        twins,
        level,
        base,
        index,
    ) by {
        assert(tables.contains_key((level, base)));
        lemma_copied_slot(h, copy, tables, level, base, index);
    }
    assert forall|left: (EptLevel, int), right: (EptLevel, int)|
        #![trigger twins.contains_key(left), twins.contains_key(right)]
        twins.contains_key(left) && twins.contains_key(right) && twins[left]
            == twins[right] implies left == right by {
        assert(tables.contains_key((left.0, left.1)));
        assert(tables.contains_key((right.0, right.1)));
        lemma_counterpart(h, copy, tables, left.0, left.1);
        lemma_counterpart(h, copy, tables, right.0, right.1);
        assert(tables[left] == tables[right]);
        assert(tables.contains_key(left) && tables.contains_key(right));
    }
    assert(arranged(copy, twins)) by {
        assert(twins.contains_key((EptLevel::Pml4, 0)));
    }
    assert forall|hpa: u64| #[trigger] page::has_page(copy.pages, hpa) implies placed(
        twins,
        hpa,
    ) by {
        let i = page::page_index(copy.pages, hpa);
        assert(0 <= i < copy.pages.len() && copy.pages[i].hpa == hpa);
        page::lemma_page_index(h.pages, h.bits, i);
        let original = h.pages[i].hpa;
        assert(page::has_page(h.pages, original));
        assert(placed(tables, original));
        let place = choose|place: (EptLevel, int)| #[trigger]
            tables.contains_key(place) && tables[place] == original;
        assert(tables.contains_key(place));
        assert(twins.contains_key(place));
        assert(twins[place] == hpa);
    }
    assert forall|address: u64| address < 0x1_0000_0000_0000 implies #[trigger] resolved(
        copy,
        address,
    ) == resolved(h, address) by {
        assert(place_fits(h, tables, EptLevel::Pml4, 0));
        lemma_copied_target(h, copy, tables, EptLevel::Pml4, 0, address);
    }
}

/// What an address misses on is an entry of a placed table that governs it.
pub proof fn lemma_broken_entry(
    h: Hierarchy,
    tables: TableMap,
    level: EptLevel,
    base: int,
    address: u64,
) -> (place: (EptLevel, int))
    requires
        arranged(h, tables),
        tables.contains_key((level, base)),
        base <= address < base + region(level),
        resolved_from(h, level, tables[(level, base)], address) matches Err(Miss::Broken(_, _)),
    ensures
        tables.contains_key(place),
        0 <= place.0.spec_index(address) < 512,
        h.decoded(place.0, tables[place], place.0.spec_index(address)) is Err,
    decreases level.spec_code(),
{
    let table = tables[(level, base)];
    let index = level.spec_index(address);
    assert(place_fits(h, tables, level, base));
    lemma_regions(level, base, address);
    assert(slot_fits(h, tables, level, base, index));
    if let Ok(DecodedEptEntry::Table { hpa, permissions }) = h.decoded(level, table, index) {
        let below = child_place(level, base, index);
        assert(below == (level.spec_next().unwrap(), base + index * level.spec_span()));
        lemma_broken_entry(h, tables, below.0, below.1, address)
    } else {
        (level, base)
    }
}

} // verus!
