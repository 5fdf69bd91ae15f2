//! Proving a freshly built view before use: every table is visited once and
//! every leaf maps its own address with the right type.

use vstd::prelude::*;

use super::address::{EptPermissions, GuestPhysicalAddress, HostPhysicalAddress, PAGE_SIZE_4K};
use super::builder::{BaseViewCandidate, BaseViewMetadata};
use super::entry;
use super::entry::{decode_entry, DecodedEptEntry, EptLeafSize, EptLevel, EptMemoryType};
use super::mtrr;
use super::mtrr::MemoryTypeInterval;
use super::page;
use super::page::{EptPageAllocator, EptPageOwner};
use super::walker;
use super::walker::{
    walk_view, EptValidationError, EptValidationErrorKind, Hierarchy, MappingSource,
    ResolvedMapping, WalkResult,
};
use crate::bits;
use crate::error::{ErrorCode, ErrorPhase, MonadError, MonadResult};
use crate::sorted;

verus! {

broadcast use super::address::group_host_addresses;

/// One leaf that a scan found.
#[derive(Debug, Clone, Copy, PartialEq, Eq, Structural)]
pub struct LeafRecord {
    pub start: u64,
    pub end_exclusive: u64,
    pub hpa: HostPhysicalAddress,
    pub size: EptLeafSize,
    pub permissions: EptPermissions,
    pub memory_type: EptMemoryType,
}

/// What a scan has seen so far: the tables and the leaves, in scan order.
pub struct ScanState {
    pub visited: Seq<u64>,
    pub leaves: Seq<LeafRecord>,
}

/// What a base view must show.
pub struct BaseShape {
    pub aperture_end: u64,
    pub types: Seq<MemoryTypeInterval>,
}

/// What is wrong with a leaf of a base view.
pub open spec fn leaf_finding(
    shape: BaseShape,
    level: EptLevel,
    start: int,
    raw: u64,
    hpa: HostPhysicalAddress,
    size: EptLeafSize,
    permissions: EptPermissions,
    memory_type: EptMemoryType,
) -> Option<EptValidationError> {
    let end = start + size.bytes();
    if start >= shape.aperture_end || end > shape.aperture_end {
        Some(
            walker::finding(
                EptValidationErrorKind::MappingOutsideAperture,
                level,
                start as u64,
                end as u64,
            ),
        )
    } else if hpa.get() != start {
        Some(
            walker::finding(
                EptValidationErrorKind::NonIdentityMapping,
                level,
                start as u64,
                hpa.get(),
            ),
        )
    } else if permissions != EptPermissions::full() {
        Some(
            walker::finding(EptValidationErrorKind::PermissionMismatch, level, start as u64, raw),
        )
    } else if mtrr::uniform_over(shape.types, start, end) != Some(memory_type) {
        Some(
            walker::finding(
                EptValidationErrorKind::MemoryTypeMismatch,
                level,
                start as u64,
                memory_type.spec_code() as u64,
            ),
        )
    } else {
        None
    }
}

/// The record of a leaf.
pub open spec fn leaf_record(
    start: int,
    hpa: HostPhysicalAddress,
    size: EptLeafSize,
    permissions: EptPermissions,
    memory_type: EptMemoryType,
) -> LeafRecord {
    LeafRecord {
        start: start as u64,
        end_exclusive: (start + size.bytes()) as u64,
        hpa,
        size,
        permissions,
        memory_type,
    }
}

/// A scan of the table at `table`, which governs memory from `base` on, and of
/// all that hangs below it.
pub open spec fn scanned(
    h: Hierarchy,
    shape: BaseShape,
    level: EptLevel,
    table: u64,
    base: int,
    state: ScanState,
) -> Result<ScanState, EptValidationError>
    decreases level.spec_code(), 513int,
{
    let held = page::page_of(h.pages, table);
    if state.visited.contains(table) {
        Err(
            walker::finding(
                EptValidationErrorKind::CycleOrSharedTable,
                level,
                base as u64,
                table,
            ),
        )
    } else if !page::has_page(h.pages, table) {
        Err(
            walker::finding(
                EptValidationErrorKind::MissingOwnedTable,
                level,
                base as u64,
                table,
            ),
        )
    } else if held.kind != level.spec_kind() {
        Err(
            walker::finding(
                EptValidationErrorKind::WrongTableKind,
                level,
                base as u64,
                held.kind.spec_code() as u64,
            ),
        )
    } else if held.owner != h.owner {
        Err(
            walker::finding(
                EptValidationErrorKind::WrongTableOwner,
                level,
                base as u64,
                held.owner.spec_code() as u64,
            ),
        )
    } else {
        scanned_entries(
            h,
            shape,
            level,
            table,
            base,
            0,
            ScanState { visited: state.visited.push(table), ..state },
        )
    }
}

/// A scan of the entries of a table from position `index` on.
pub open spec fn scanned_entries(
    h: Hierarchy,
    shape: BaseShape,
    level: EptLevel,
    table: u64,
    base: int,
    index: int,
    state: ScanState,
) -> Result<ScanState, EptValidationError>
    decreases level.spec_code(), 512 - index,
{
    let start = base + index * level.spec_span();
    let raw = h.entry(table, index);
    if index < 0 || index >= 512 {
        Ok(state)
    } else {
        match h.decoded(level, table, index) {
            Ok(DecodedEptEntry::NotPresent) => scanned_entries(
                h,
                shape,
                level,
                table,
                base,
                index + 1,
                state,
            ),
            Ok(DecodedEptEntry::Table { hpa, permissions }) => match level.spec_next() {
                None => Err(
                    walker::finding(
                        EptValidationErrorKind::InvalidEntry,
                        level,
                        start as u64,
                        raw,
                    ),
                ),
                Some(child) => if permissions != EptPermissions::full() {
                    Err(
                        walker::finding(
                            EptValidationErrorKind::PermissionMismatch,
                            level,
                            start as u64,
                            raw,
                        ),
                    )
                } else {
                    match scanned(h, shape, child, hpa.get(), start, state) {
                        Err(error) => Err(error),
                        Ok(below) => scanned_entries(
                            h,
                            shape,
                            level,
                            table,
                            base,
                            index + 1,
                            below,
                        ),
                    }
                },
            },
            Ok(DecodedEptEntry::Leaf { hpa, size, permissions, memory_type }) => match leaf_finding(
                shape,
                level,
                start,
                raw,
                hpa,
                size,
                permissions,
                memory_type,
            ) {
                Some(error) => Err(error),
                None => scanned_entries(
                    h,
                    shape,
                    level,
                    table,
                    base,
                    index + 1,
                    ScanState {
                        leaves: state.leaves.push(
                            leaf_record(start, hpa, size, permissions, memory_type),
                        ),
                        ..state
                    },
                ),
            },
            Err(error) => Err(
                walker::finding(
                    EptValidationErrorKind::InvalidEntry,
                    level,
                    start as u64,
                    error.spec_code(),
                ),
            ),
        }
    }
}

fn fault(kind: EptValidationErrorKind, level: EptLevel, gpa: u64, detail: u64) -> (error:
    EptValidationError)
    ensures
        error == walker::finding(kind, level, gpa, detail),
{
    EptValidationError { kind, level, gpa, detail }
}

impl<A: EptPageAllocator> BaseViewCandidate<A> {
    /// The candidate's tables.
    pub open spec fn hierarchy(&self) -> Hierarchy {
        walker::hierarchy_of(
            &self.pages,
            self.root,
            self.max_physical_bits,
            self.execute_only_supported,
            EptPageOwner::BaseBuild,
        )
    }

    /// What the candidate has to show.
    pub open spec fn shape(&self) -> BaseShape {
        BaseShape {
            aperture_end: self.inventory.spec_aperture_end(),
            types: self.memory_types.view(),
        }
    }

    /// The candidate's parts fit together.
    pub open spec fn wf(&self) -> bool {
        &&& self.pages.wf()
        &&& self.pages.width() == self.max_physical_bits
        &&& self.memory_types.spec_aperture_end() == self.inventory.spec_aperture_end()
    }
}

/// A scan that ran short of memory below a table: it tells the level and the
/// base of the table or entry at which it did.
pub open spec fn scan_shortage(level: EptLevel, table_base: int, error: EptValidationError) -> bool {
    &&& error.kind is ArithmeticOverflow
    &&& error.detail == 0
    &&& error.level.spec_code() <= level.spec_code()
    &&& table_base <= error.gpa < table_base + 512 * level.spec_span()
    &&& (error.gpa - table_base) % (error.level.spec_span() as int) == 0
}

/// A shortage below an entry is one below its table.
proof fn lemma_shortage_above(
    level: EptLevel,
    child: EptLevel,
    table_base: int,
    index: int,
    error: EptValidationError,
)
    requires
        0 <= index < 512,
        child.spec_code() < level.spec_code(),
        512 * child.spec_span() == level.spec_span(),
        scan_shortage(child, table_base + index * level.spec_span(), error),
    ensures
        scan_shortage(level, table_base, error),
{
    let span = level.spec_span() as int;
    let inner = error.level.spec_span() as int;
    assert(span % inner == 0 && inner > 0) by {
        assert(0x80_0000_0000int % 0x4000_0000 == 0);
        assert(0x80_0000_0000int % 0x20_0000 == 0);
        assert(0x80_0000_0000int % 0x1000 == 0);
        assert(0x4000_0000int % 0x20_0000 == 0);
        assert(0x4000_0000int % 0x1000 == 0);
        assert(0x20_0000int % 0x1000 == 0);
    }
    let inside = error.gpa - table_base - index * span;
    let times = span / inner;
    assert(index * span == inner * (index * times)) by (nonlinear_arith)
        requires
            span == inner * times,
    ;
    vstd::arithmetic::div_mod::lemma_mod_multiples_vanish(index * times, inside, inner);
    assert(0 <= index * span && index * span + span <= 512 * span) by (nonlinear_arith)
        requires
            0 <= index < 512,
            span > 0,
    ;
}

/// A shortage at an entry is one below its table.
proof fn lemma_shortage_here(level: EptLevel, table_base: int, index: int, entry_base: u64)
    requires
        0 <= index < 512,
        entry_base == table_base + index * level.spec_span(),
    ensures
        scan_shortage(
            level,
            table_base,
            walker::finding(EptValidationErrorKind::ArithmeticOverflow, level, entry_base, 0),
        ),
{
    let span = level.spec_span() as int;
    vstd::arithmetic::div_mod::lemma_mod_multiples_vanish(index, 0, span);
    assert(0 <= index * span < 512 * span && span * index == index * span) by (nonlinear_arith)
        requires
            0 <= index < 512,
            span > 0,
    ;
}

/// Scans one table and all below it; only a want of memory ends it early with
/// a finding that the tables do not show. A table that was met before is found
/// without any.
#[verifier::rlimit(60)]
#[verifier::spinoff_prover]
fn scan_table<A: EptPageAllocator>(
    view: &BaseViewCandidate<A>,
    hpa: HostPhysicalAddress,
    level: EptLevel,
    table_base: u64,
    visited: &mut Vec<u64>,
    leaves: &mut Vec<LeafRecord>,
) -> (result: Result<(), EptValidationError>)
    requires
        view.wf(),
        table_base + 512 * level.spec_span() <= 0x1_0000_0000_0000,
    ensures
        match result {
            Ok(_) => scanned(
                view.hierarchy(),
                view.shape(),
                level,
                hpa.get(),
                table_base as int,
                ScanState { visited: old(visited)@, leaves: old(leaves)@ },
            ) == Ok::<ScanState, EptValidationError>(
                ScanState { visited: final(visited)@, leaves: final(leaves)@ },
            ),
            Err(error) => {
                ||| scan_shortage(level, table_base as int, error)
                ||| scanned(
                    view.hierarchy(),
                    view.shape(),
                    level,
                    hpa.get(),
                    table_base as int,
                    ScanState { visited: old(visited)@, leaves: old(leaves)@ },
                ) == Err::<ScanState, EptValidationError>(error)
            },
        },
        old(visited)@.contains(hpa.get()) ==> result == Err::<(), EptValidationError>(
            walker::finding(
                EptValidationErrorKind::CycleOrSharedTable,
                level,
                table_base,
                hpa.get(),
            ),
        ),
    decreases level.spec_code(),
{
    let ghost h = view.hierarchy();
    let ghost shape = view.shape();
    let ghost outcome = scanned(
        h,
        shape,
        level,
        hpa.get(),
        table_base as int,
        ScanState { visited: visited@, leaves: leaves@ },
    );
    let mut k: usize = 0;
    while k < visited.len()
        invariant
            k <= visited@.len(),
            visited@ == old(visited)@,
            leaves@ == old(leaves)@,
            forall|j: int| 0 <= j < k ==> visited@[j] != hpa.get(),
            outcome == scanned(
                h,
                shape,
                level,
                hpa.get(),
                table_base as int,
                ScanState { visited: visited@, leaves: leaves@ },
            ),
            h == view.hierarchy(),
            shape == view.shape(),
        decreases visited@.len() - k,
    {
        if visited[k] == hpa.get() {
            assert(visited@.contains(hpa.get()));
            return Err(
                fault(
                    EptValidationErrorKind::CycleOrSharedTable,
                    level,
                    table_base,
                    hpa.get(),
                ),
            );
        }
        k += 1;
    }
    assert(!visited@.contains(hpa.get()));
    let reserved = visited.try_reserve(1);
    if reserved.is_err() {
        return Err(fault(EptValidationErrorKind::ArithmeticOverflow, level, table_base, 0));
    }
    visited.push(hpa.get());
    let (kind, owner, entries) = match view.pages.page(hpa) {
        Some(page) => page,
        None => {
            return Err(
                fault(EptValidationErrorKind::MissingOwnedTable, level, table_base, hpa.get()),
            );
        },
    };
    if kind != level.kind() {
        return Err(
            fault(EptValidationErrorKind::WrongTableKind, level, table_base, kind.code() as u64),
        );
    }
    if owner != EptPageOwner::BaseBuild {
        return Err(
            fault(EptValidationErrorKind::WrongTableOwner, level, table_base, owner.code() as u64),
        );
    }
    let span: u64 = level.span();
    let mut index: usize = 0;
    while index < 512
        invariant
            index <= 512,
            !old(visited)@.contains(hpa.get()),
            view.wf(),
            h == view.hierarchy(),
            shape == view.shape(),
            span == level.spec_span(),
            table_base + 512 * level.spec_span() <= 0x1_0000_0000_0000,
            entries@ == page::page_of(h.pages, hpa.get()).entries,
            outcome == scanned(
                h,
                shape,
                level,
                hpa.get(),
                table_base as int,
                ScanState { visited: old(visited)@, leaves: old(leaves)@ },
            ),
            outcome == scanned_entries(
                h,
                shape,
                level,
                hpa.get(),
                table_base as int,
                index as int,
                ScanState { visited: visited@, leaves: leaves@ },
            ),
        decreases 512 - index,
    {
        assert(index * span <= 511 * span) by (nonlinear_arith)
            requires
                index <= 511,
        ;
        let entry_base: u64 = table_base + index as u64 * span;
        let raw: u64 = entries[index];
        match decode_entry(level, raw, view.max_physical_bits, view.execute_only_supported) {
            Ok(DecodedEptEntry::NotPresent) => {},
            Ok(DecodedEptEntry::Table { hpa: child, permissions }) => {
                let child_level = match level.next() {
                    Some(child_level) => child_level,
                    None => {
                        return Err(
                            fault(EptValidationErrorKind::InvalidEntry, level, entry_base, raw),
                        );
                    },
                };
                if !permissions.read() || !permissions.write() || !permissions.execute() {
                    return Err(
                        fault(EptValidationErrorKind::PermissionMismatch, level, entry_base, raw),
                    );
                }
                match scan_table(view, child, child_level, entry_base, visited, leaves) {
                    Ok(_) => {},
                    Err(error) => {
                        proof {
                            if scan_shortage(child_level, entry_base as int, error) {
                                lemma_shortage_above(
                                    level,
                                    child_level,
                                    table_base as int,
                                    index as int,
                                    error,
                                );
                            }
                        }
                        return Err(error);
                    },
                }
            },
            Ok(DecodedEptEntry::Leaf { hpa: target, size, permissions, memory_type }) => {
                let end_exclusive: u64 = entry_base + size.bytes();
                let aperture_end: u64 = view.inventory.aperture_end();
                if entry_base >= aperture_end || end_exclusive > aperture_end {
                    return Err(
                        fault(
                            EptValidationErrorKind::MappingOutsideAperture,
                            level,
                            entry_base,
                            end_exclusive,
                        ),
                    );
                }
                if target.get() != entry_base {
                    return Err(
                        fault(
                            EptValidationErrorKind::NonIdentityMapping,
                            level,
                            entry_base,
                            target.get(),
                        ),
                    );
                }
                if !permissions.read() || !permissions.write() || !permissions.execute() {
                    return Err(
                        fault(EptValidationErrorKind::PermissionMismatch, level, entry_base, raw),
                    );
                }
                let uniform = view.memory_types.uniform_type(entry_base, end_exclusive);
                let agrees: bool = match uniform {
                    Some(found) => found == memory_type,
                    None => false,
                };
                if !agrees {
                    return Err(
                        fault(
                            EptValidationErrorKind::MemoryTypeMismatch,
                            level,
                            entry_base,
                            memory_type.code() as u64,
                        ),
                    );
                }
                let reserved = leaves.try_reserve(1);
                if reserved.is_err() {
                    proof {
                        lemma_shortage_here(level, table_base as int, index as int, entry_base);
                    }
                    return Err(
                        fault(EptValidationErrorKind::ArithmeticOverflow, level, entry_base, 0),
                    );
                }
                leaves.push(
                    LeafRecord {
                        start: entry_base,
                        end_exclusive,
                        hpa: target,
                        size,
                        permissions,
                        memory_type,
                    },
                );
            },
            Err(error) => {
                return Err(
                    fault(EptValidationErrorKind::InvalidEntry, level, entry_base, error.code()),
                );
            },
        }
        index += 1;
    }
    Ok(())
}

/// A record of a leaf that a base view may hold.
pub open spec fn record_ok(h: Hierarchy, shape: BaseShape, leaf: LeafRecord) -> bool {
    &&& leaf.start + leaf.size.bytes() == leaf.end_exclusive
    &&& leaf.start % leaf.size.bytes() == 0
    &&& leaf.end_exclusive <= shape.aperture_end
    &&& leaf.end_exclusive <= bits::width_limit(h.bits)
    &&& leaf.hpa.get() == leaf.start
    &&& leaf.permissions == EptPermissions::full()
    &&& mtrr::uniform_over(shape.types, leaf.start as int, leaf.end_exclusive as int) == Some(
        leaf.memory_type,
    )
}

/// Whether a leaf maps an address.
pub open spec fn in_record(leaf: LeafRecord, address: int) -> bool {
    leaf.start <= address < leaf.end_exclusive
}

/// A walk that finds a guest page mapped to itself with every permission.
pub open spec fn identity_mapping(
    gpa: GuestPhysicalAddress,
    size: EptLeafSize,
    memory_type: EptMemoryType,
) -> WalkResult {
    WalkResult::Mapping(
        ResolvedMapping {
            gpa_page: gpa,
            hpa_page: HostPhysicalAddress::at(gpa.get()),
            leaf_size: size,
            permissions: EptPermissions::full(),
            memory_type,
            source: MappingSource::Identity,
        },
    )
}

/// A walk agrees with the leaves from position `from` on: it finds the leaf
/// that maps the page, or no mapping where no leaf does.
pub open spec fn located(
    leaves: Seq<LeafRecord>,
    from: int,
    gpa: GuestPhysicalAddress,
    result: WalkResult,
) -> bool {
    &&& forall|k: int|
        from <= k < leaves.len() && in_record(#[trigger] leaves[k], gpa.get() as int) ==> result
            == identity_mapping(gpa, leaves[k].size, leaves[k].memory_type)
    &&& (forall|k: int|
        from <= k < leaves.len() ==> !in_record(#[trigger] leaves[k], gpa.get() as int)) ==> result
        is NotPresent
}

/// A scan only adds: tables, and good leaves between two bounds.
pub open spec fn extends(
    h: Hierarchy,
    shape: BaseShape,
    before: ScanState,
    after: ScanState,
    low: int,
    high: int,
) -> bool {
    &&& before.visited.len() <= after.visited.len()
    &&& before.leaves.len() <= after.leaves.len()
    &&& forall|i: int|
        0 <= i < before.visited.len() ==> #[trigger] after.visited[i] == before.visited[i]
    &&& forall|i: int|
        0 <= i < before.leaves.len() ==> #[trigger] after.leaves[i] == before.leaves[i]
    &&& forall|k: int|
        before.leaves.len() <= k < after.leaves.len() ==> {
            &&& record_ok(h, shape, #[trigger] after.leaves[k])
            &&& low <= after.leaves[k].start
            &&& after.leaves[k].end_exclusive <= high
        }
}

/// Every table on the way has been visited.
pub open spec fn seen(visited: Seq<u64>, path: Seq<u64>) -> bool {
    forall|i: int| 0 <= i < path.len() ==> visited.contains(#[trigger] path[i])
}

proof fn lemma_scan_table(
    h: Hierarchy,
    shape: BaseShape,
    level: EptLevel,
    table: u64,
    base: int,
    before: ScanState,
    after: ScanState,
    path: Seq<u64>,
    gpa: GuestPhysicalAddress,
)
    requires
        scanned(h, shape, level, table, base, before) == Ok::<ScanState, EptValidationError>(after),
        0 <= base,
        base % (512 * level.spec_span()) == 0,
        base + 512 * level.spec_span() <= 0x1_0000_0000_0000,
        seen(before.visited, path),
        gpa.get() % 0x1000 == 0,
    ensures
        extends(h, shape, before, after, base, base + 512 * level.spec_span()),
        base <= gpa.get() < base + 512 * level.spec_span() ==> located(
            after.leaves,
            before.leaves.len() as int,
            gpa,
            walker::walk_from(h, level, table, path, EptPermissions::full(), gpa),
        ),
    decreases level.spec_code(), 513int,
{
    let start = ScanState { visited: before.visited.push(table), ..before };
    assert(start.visited[before.visited.len() as int] == table);
    assert(seen(start.visited, path)) by {
        assert forall|i: int| 0 <= i < path.len() implies start.visited.contains(
            #[trigger] path[i],
        ) by {
            let k = choose|k: int| 0 <= k < before.visited.len() && before.visited[k] == path[i];
            assert(start.visited[k] == path[i]);
        }
    }
    assert(!path.contains(table)) by {
        if path.contains(table) {
            let i = choose|i: int| 0 <= i < path.len() && path[i] == table;
            assert(before.visited.contains(path[i]));
        }
    }
    lemma_scan_entries(h, shape, level, table, base, 0, start, after, path, gpa);
    assert forall|i: int| 0 <= i < before.visited.len() implies #[trigger] after.visited[i]
        == before.visited[i] by {
        assert(start.visited[i] == before.visited[i]);
    }
}

/// The entry of a table that governs an address of its region.
pub proof fn lemma_index_in_region(level: EptLevel, base: int, index: int, address: u64)
    requires
        0 <= base,
        base % (512 * level.spec_span()) == 0,
        0 <= index < 512,
        base + index * level.spec_span() <= address < base + (index + 1) * level.spec_span(),
    ensures
        level.spec_index(address) == index,
        (base + index * level.spec_span()) % (level.spec_span() as int) == 0,
        address % level.spec_span() == address - (base + index * level.spec_span()),
        level.spec_next() matches Some(child) ==> 512 * child.spec_span() == level.spec_span(),
{
    let span = level.spec_span() as int;
    let q = base / (512 * span);
    let start = base + index * span;
    let r = address - start;
    vstd::arithmetic::div_mod::lemma_fundamental_div_mod(base, 512 * span);
    assert(base + index * span == (512 * q + index) * span) by (nonlinear_arith)
        requires
            base == (512 * span) * q,
    ;
    assert(address == (512 * q + index) * span + r && r < span) by (nonlinear_arith)
        requires
            base + index * span == (512 * q + index) * span,
            r == address - (base + index * span),
            address < base + (index + 1) * span,
    ;
    vstd::arithmetic::div_mod::lemma_fundamental_div_mod_converse(
        address as int,
        span,
        512 * q + index,
        r,
    );
    vstd::arithmetic::div_mod::lemma_fundamental_div_mod_converse(
        512 * q + index,
        512,
        q,
        index,
    );
    vstd::arithmetic::div_mod::lemma_fundamental_div_mod_converse(
        start,
        span,
        512 * q + index,
        0,
    );
}

#[verifier::rlimit(50)]
#[verifier::spinoff_prover]
proof fn lemma_scan_entries(
    h: Hierarchy,
    shape: BaseShape,
    level: EptLevel,
    table: u64,
    base: int,
    index: int,
    before: ScanState,
    after: ScanState,
    path: Seq<u64>,
    gpa: GuestPhysicalAddress,
)
    requires
        scanned_entries(h, shape, level, table, base, index, before) == Ok::<
            ScanState,
            EptValidationError,
        >(after),
        0 <= index <= 512,
        0 <= base,
        base % (512 * level.spec_span()) == 0,
        base + 512 * level.spec_span() <= 0x1_0000_0000_0000,
        page::has_page(h.pages, table),
        page::page_of(h.pages, table).kind == level.spec_kind(),
        page::page_of(h.pages, table).owner == h.owner,
        before.visited.contains(table),
        seen(before.visited, path),
        !path.contains(table),
        gpa.get() % 0x1000 == 0,
    ensures
        extends(
            h,
            shape,
            before,
            after,
            base + index * level.spec_span(),
            base + 512 * level.spec_span(),
        ),
        base + index * level.spec_span() <= gpa.get() < base + 512 * level.spec_span() ==> located(
            after.leaves,
            before.leaves.len() as int,
            gpa,
            walker::walk_from(h, level, table, path, EptPermissions::full(), gpa),
        ),
    decreases level.spec_code(), 512 - index,
{
    let span = level.spec_span() as int;
    let full = EptPermissions::full();
    if index < 512 {
        let start = base + index * span;
        assert(base + (index + 1) * span == start + span) by (nonlinear_arith)
            requires
                start == base + index * span,
        ;
        assert(start + span <= base + 512 * span) by (nonlinear_arith)
            requires
                start == base + index * span,
                index < 512,
                span > 0,
        ;
        assert(0 <= index * span) by (nonlinear_arith)
            requires
                index >= 0,
                span > 0,
        ;
        let address = gpa.get();
        let here = start <= address < start + span;
        lemma_index_in_region(level, base, index, start as u64);
        if here {
            lemma_index_in_region(level, base, index, address);
        }
        match h.decoded(level, table, index) {
            Ok(DecodedEptEntry::NotPresent) => {
                lemma_scan_entries(
                    h,
                    shape,
                    level,
                    table,
                    base,
                    index + 1,
                    before,
                    after,
                    path,
                    gpa,
                );
            },
            Ok(DecodedEptEntry::Table { hpa, permissions }) => {
                let child = level.spec_next().unwrap();
                let below = scanned(h, shape, child, hpa.get(), start, before).unwrap();
                let inner = path.push(table);
                assert(seen(before.visited, inner)) by {
                    assert forall|i: int| 0 <= i < inner.len() implies before.visited.contains(
                        #[trigger] inner[i],
                    ) by {
                        if i < path.len() {
                            assert(inner[i] == path[i]);
                        }
                    }
                }
                lemma_scan_table(h, shape, child, hpa.get(), start, before, below, inner, gpa);
                assert(walker::both(full, permissions) == full);
                assert(below.visited.contains(table)) by {
                    let k = choose|k: int|
                        0 <= k < before.visited.len() && before.visited[k] == table;
                    assert(below.visited[k] == table);
                }
                assert(seen(below.visited, path)) by {
                    assert forall|i: int| 0 <= i < path.len() implies below.visited.contains(
                        #[trigger] path[i],
                    ) by {
                        assert(before.visited.contains(path[i]));
                        let k = choose|k: int|
                            0 <= k < before.visited.len() && before.visited[k] == path[i];
                        assert(below.visited[k] == path[i]);
                    }
                }
                lemma_scan_entries(
                    h,
                    shape,
                    level,
                    table,
                    base,
                    index + 1,
                    below,
                    after,
                    path,
                    gpa,
                );
                assert forall|i: int| 0 <= i < before.visited.len() implies #[trigger] after.visited[i]
                    == before.visited[i] by {
                    assert(below.visited[i] == before.visited[i]);
                }
                assert forall|i: int| 0 <= i < before.leaves.len() implies #[trigger] after.leaves[i]
                    == before.leaves[i] by {
                    assert(below.leaves[i] == before.leaves[i]);
                }
                assert forall|k: int| before.leaves.len() <= k < after.leaves.len() implies {
                    &&& record_ok(h, shape, #[trigger] after.leaves[k])
                    &&& start <= after.leaves[k].start
                    &&& after.leaves[k].end_exclusive <= base + 512 * span
                } by {
                    if k < below.leaves.len() {
                        assert(after.leaves[k] == below.leaves[k]);
                    }
                }
                if start <= address < base + 512 * span {
                    let result = walker::walk_from(h, level, table, path, full, gpa);
                    let from = before.leaves.len() as int;
                    if here {
                        assert(result == walker::walk_from(h, child, hpa.get(), inner, full, gpa));
                        assert(located(below.leaves, from, gpa, result));
                        assert forall|k: int|
                            from <= k < after.leaves.len() && in_record(
                                #[trigger] after.leaves[k],
                                address as int,
                            ) implies result == identity_mapping(
                            gpa,
                            after.leaves[k].size,
                            after.leaves[k].memory_type,
                        ) by {
                            if k < below.leaves.len() {
                                assert(after.leaves[k] == below.leaves[k]);
                            }
                        }
                        if forall|k: int|
                            from <= k < after.leaves.len() ==> !in_record(
                                #[trigger] after.leaves[k],
                                address as int,
                            ) {
                            assert forall|k: int|
                                from <= k < below.leaves.len() implies !in_record(
                                #[trigger] below.leaves[k],
                                address as int,
                            ) by {
                                assert(after.leaves[k] == below.leaves[k]);
                            }
                        }
                    } else {
                        assert(located(after.leaves, below.leaves.len() as int, gpa, result));
                        assert forall|k: int|
                            from <= k < after.leaves.len() && in_record(
                                #[trigger] after.leaves[k],
                                address as int,
                            ) implies k >= below.leaves.len() by {
                            if k < below.leaves.len() {
                                assert(after.leaves[k] == below.leaves[k]);
                            }
                        }
                    }
                }
            },
            Ok(DecodedEptEntry::Leaf { hpa, size, permissions, memory_type }) => {
                let leaf = leaf_record(start, hpa, size, permissions, memory_type);
                let next = ScanState { leaves: before.leaves.push(leaf), ..before };
                assert(size.bytes() == span);
                assert(record_ok(h, shape, leaf));
                lemma_scan_entries(
                    h,
                    shape,
                    level,
                    table,
                    base,
                    index + 1,
                    next,
                    after,
                    path,
                    gpa,
                );
                let from = before.leaves.len() as int;
                assert(next.leaves[from] == leaf);
                assert(after.leaves[from] == leaf);
                assert forall|i: int| 0 <= i < before.leaves.len() implies #[trigger] after.leaves[i]
                    == before.leaves[i] by {
                    assert(next.leaves[i] == before.leaves[i]);
                }
                if start <= address < base + 512 * span {
                    let result = walker::walk_from(h, level, table, path, full, gpa);
                    if here {
                        assert(walker::both(full, permissions) == full);
                        assert(hpa.get() + address % size.bytes() == address);
                        bits::lemma_width_limit(h.bits);
                        assert(bits::width_limit(h.bits) % 0x1000 == 0);
                        assert(address + 0x1000 <= bits::width_limit(h.bits));
                        entry::lemma_leaf_fits(address, EptLeafSize::Size4K, h.bits);
                        assert(result == identity_mapping(gpa, size, memory_type));
                        assert(in_record(after.leaves[from], address as int));
                    }
                }
            },
            Err(_) => {},
        }
    }
}

/// Where the leaves before position `i` end.
pub open spec fn cursor(leaves: Seq<LeafRecord>, i: int) -> u64 {
    if i <= 0 {
        0
    } else {
        leaves[i - 1].end_exclusive
    }
}

/// The leaf at `i` is the first that does not start where the one before ends.
pub open spec fn first_gap(leaves: Seq<LeafRecord>, i: int) -> bool {
    &&& 0 <= i < leaves.len()
    &&& leaves[i].start != cursor(leaves, i)
    &&& forall|j: int| 0 <= j < i ==> (#[trigger] leaves[j]).start == cursor(leaves, j)
}

/// The leaves follow each other from zero.
pub open spec fn contiguous(leaves: Seq<LeafRecord>) -> bool {
    forall|j: int| 0 <= j < leaves.len() ==> (#[trigger] leaves[j]).start == cursor(leaves, j)
}

/// The leaf among the first `count` that maps an address below their end.
proof fn lemma_find_leaf(
    h: Hierarchy,
    shape: BaseShape,
    leaves: Seq<LeafRecord>,
    count: int,
    address: int,
) -> (k: int)
    requires
        contiguous(leaves),
        forall|k: int| 0 <= k < leaves.len() ==> record_ok(h, shape, #[trigger] leaves[k]),
        0 <= count <= leaves.len(),
        0 <= address < cursor(leaves, count),
    ensures
        0 <= k < count,
        in_record(leaves[k], address),
    decreases count,
{
    if leaves[count - 1].start <= address {
        count - 1
    } else {
        assert(leaves[count - 1].start == cursor(leaves, count - 1));
        lemma_find_leaf(h, shape, leaves, count - 1, address)
    }
}

/// The scan of a whole view from its root.
pub open spec fn scanned_view(h: Hierarchy, shape: BaseShape) -> Result<
    ScanState,
    EptValidationError,
> {
    scanned(
        h,
        shape,
        EptLevel::Pml4,
        h.root,
        0,
        ScanState { visited: Seq::empty(), leaves: Seq::empty() },
    )
}

/// A scan without findings whose leaves cover the aperture.
pub open spec fn covered_view(h: Hierarchy, shape: BaseShape) -> bool {
    scanned_view(h, shape) matches Ok(state) && contiguous(state.leaves) && cursor(
        state.leaves,
        state.leaves.len() as int,
    ) == shape.aperture_end
}

/// Every guest page below the aperture's end is mapped to itself, with every
/// permission and the type that the memory map gives it; no page beyond is
/// mapped.
pub proof fn law_verified_view_is_identity(h: Hierarchy, shape: BaseShape, gpa: GuestPhysicalAddress)
    requires
        covered_view(h, shape),
        mtrr::exact_cover(shape.types, shape.aperture_end),
        gpa.get() % 0x1000 == 0,
        entry::supported_width(h.bits),
    ensures
        gpa.get() < shape.aperture_end ==> exists|size: EptLeafSize|
            walker::walked(h, gpa) == #[trigger] identity_mapping(
                gpa,
                size,
                mtrr::type_at(shape.types, gpa.get() as int).unwrap(),
            ),
        shape.aperture_end <= gpa.get() < bits::width_limit(h.bits) ==> walker::walked(h, gpa)
            is NotPresent,
{
    let state = scanned_view(h, shape).unwrap();
    lemma_view_located(h, shape, state, gpa);
    bits::lemma_width_limit(h.bits);
    let address = gpa.get() as int;
    if address < shape.aperture_end {
        let k = lemma_find_leaf(h, shape, state.leaves, state.leaves.len() as int, address);
        let leaf = state.leaves[k];
        lemma_record_type(h, shape, leaf, address);
        assert(walker::walked(h, gpa) == identity_mapping(
            gpa,
            leaf.size,
            mtrr::type_at(shape.types, gpa.get() as int).unwrap(),
        ));
    } else if gpa.get() < bits::width_limit(h.bits) {
        assert forall|k: int| 0 <= k < state.leaves.len() implies !in_record(
            #[trigger] state.leaves[k],
            address,
        ) by {
            assert(record_ok(h, shape, state.leaves[k]));
        }
    }
}

/// A leaf's type is that of every address that it maps.
proof fn lemma_record_type(h: Hierarchy, shape: BaseShape, leaf: LeafRecord, address: int)
    requires
        record_ok(h, shape, leaf),
        mtrr::exact_cover(shape.types, shape.aperture_end),
        in_record(leaf, address),
    ensures
        mtrr::type_at(shape.types, address) == Some(leaf.memory_type),
{
    let i = choose|i: int|
        0 <= i < shape.types.len() && mtrr::spans(
            #[trigger] shape.types[i],
            leaf.start as int,
            leaf.end_exclusive as int,
        );
    mtrr::lemma_uniform_over(
        shape.types,
        shape.aperture_end,
        i,
        leaf.start as int,
        leaf.end_exclusive as int,
    );
}

/// A walk from the root agrees with the leaves of a scan without findings.
proof fn lemma_view_located(
    h: Hierarchy,
    shape: BaseShape,
    state: ScanState,
    gpa: GuestPhysicalAddress,
)
    requires
        scanned_view(h, shape) == Ok::<ScanState, EptValidationError>(state),
        gpa.get() % 0x1000 == 0,
    ensures
        forall|k: int|
            0 <= k < state.leaves.len() ==> record_ok(h, shape, #[trigger] state.leaves[k]),
        gpa.get() < 0x1_0000_0000_0000 && gpa.get() < bits::width_limit(h.bits) ==> located(
            state.leaves,
            0,
            gpa,
            walker::walked(h, gpa),
        ),
{
    let before = ScanState { visited: Seq::<u64>::empty(), leaves: Seq::<LeafRecord>::empty() };
    let path = Seq::<u64>::empty();
    lemma_scan_table(h, shape, EptLevel::Pml4, h.root, 0, before, state, path, gpa);
}

/// A covered aperture fits the physical width.
pub proof fn lemma_aperture_fits(h: Hierarchy, shape: BaseShape)
    requires
        covered_view(h, shape),
    ensures
        shape.aperture_end <= bits::width_limit(h.bits) || shape.aperture_end == 0,
{
    let state = scanned_view(h, shape).unwrap();
    lemma_scan_records(h, shape, state);
    if state.leaves.len() > 0 {
        assert(record_ok(h, shape, state.leaves[state.leaves.len() - 1]));
    }
}

/// The number of leaves of one size.
pub open spec fn leaf_count(leaves: Seq<LeafRecord>, size: EptLeafSize) -> nat
    decreases leaves.len(),
{
    if leaves.len() == 0 {
        0
    } else {
        leaf_count(leaves.drop_last(), size) + if leaves.last().size == size {
            1nat
        } else {
            0
        }
    }
}

/// The error that reports a finding about a whole view.
pub open spec fn view_fault(error: EptValidationError) -> MonadError {
    MonadError::new(
        ErrorPhase::EptBuild,
        ErrorCode::EptVerificationFailure,
        error.spec_packed_detail(),
    )
}

fn view_error(error: EptValidationError) -> (reported: MonadError)
    ensures
        reported == view_fault(error),
{
    MonadError::new(
        ErrorPhase::EptBuild,
        ErrorCode::EptVerificationFailure,
        error.packed_detail(),
    )
}

/// Whether a view is refused, and with which error; memory and counters aside.
pub open spec fn view_refusal(h: Hierarchy, shape: BaseShape, error: MonadError) -> bool {
    match scanned_view(h, shape) {
        Err(found) => error == view_fault(found),
        Ok(state) => {
            let end = cursor(state.leaves, state.leaves.len() as int);
            let count = h.pages.len() as u64;
            if exists|i: int| #[trigger] first_gap(state.leaves, i) {
                exists|i: int| #[trigger]
                    first_gap(state.leaves, i) && error == view_fault(
                        walker::finding(
                            EptValidationErrorKind::MappingGapOrOverlap,
                            EptLevel::Pt,
                            cursor(state.leaves, i),
                            state.leaves[i].start,
                        ),
                    )
            } else if end != shape.aperture_end {
                error == view_fault(
                    walker::finding(
                        EptValidationErrorKind::MappingGapOrOverlap,
                        EptLevel::Pml4,
                        end,
                        count,
                    ),
                )
            } else if state.visited.len() != h.pages.len() {
                error == view_fault(
                    walker::finding(
                        EptValidationErrorKind::UnreachableOwnedTable,
                        EptLevel::Pml4,
                        end,
                        count,
                    ),
                )
            } else {
                false
            }
        },
    }
}

/// Whether a view passes: covered, and without a table that no walk reaches.
pub open spec fn view_passes(h: Hierarchy, shape: BaseShape) -> bool {
    covered_view(h, shape) && scanned_view(h, shape).unwrap().visited.len() == h.pages.len()
}

/// The figures of a view that passes.
pub open spec fn figures(h: Hierarchy, shape: BaseShape, metadata: BaseViewMetadata) -> bool {
    let leaves = scanned_view(h, shape).unwrap().leaves;
    &&& metadata.table_pages == h.pages.len()
    &&& metadata.leaf_1g == leaf_count(leaves, EptLeafSize::Size1G)
    &&& metadata.leaf_2m == leaf_count(leaves, EptLeafSize::Size2M)
    &&& metadata.leaf_4k == leaf_count(leaves, EptLeafSize::Size4K)
    &&& metadata.mapped_pages_4k == shape.aperture_end / 0x1000
}

/// The pages under the first leaves of a scan are those before the next leaf.
proof fn lemma_leaf_pages(h: Hierarchy, shape: BaseShape, leaves: Seq<LeafRecord>, n: int)
    requires
        contiguous(leaves),
        forall|k: int| 0 <= k < leaves.len() ==> record_ok(h, shape, #[trigger] leaves[k]),
        0 <= n <= leaves.len(),
    ensures
        cursor(leaves, n) == 0x1000 * (262144 * leaf_count(leaves.take(n), EptLeafSize::Size1G)
            + 512 * leaf_count(leaves.take(n), EptLeafSize::Size2M) + leaf_count(
            leaves.take(n),
            EptLeafSize::Size4K,
        )),
    decreases n,
{
    if n > 0 {
        lemma_leaf_pages(h, shape, leaves, n - 1);
        assert(leaves.take(n).drop_last() =~= leaves.take(n - 1));
        let leaf = leaves[n - 1];
        assert(leaves.take(n).last() == leaf);
        assert(record_ok(h, shape, leaf));
        assert(leaf.start == cursor(leaves, n - 1));
    }
}

/// The leaves of a view that passes, each taken with its size, add up to the
/// pages that the view maps, and those are all pages below the aperture's end.
pub proof fn law_leaf_sizes_add_up(h: Hierarchy, shape: BaseShape, metadata: BaseViewMetadata)
    requires
        view_passes(h, shape),
        figures(h, shape, metadata),
    ensures
        262144 * metadata.leaf_1g + 512 * metadata.leaf_2m + metadata.leaf_4k
            == metadata.mapped_pages_4k,
        metadata.mapped_pages_4k * 0x1000 == shape.aperture_end,
{
    let state = scanned_view(h, shape).unwrap();
    let n = state.leaves.len() as int;
    lemma_scan_records(h, shape, state);
    lemma_leaf_pages(h, shape, state.leaves, n);
    assert(state.leaves.take(n) =~= state.leaves);
}

/// How many pages are walked at most to prove a view.
pub open spec fn probe_count(h: Hierarchy, shape: BaseShape) -> nat {
    4 * scanned_view(h, shape).unwrap().leaves.len() + 4 * shape.types.len()
}

/// Whether a leaf is one more of its size than can be counted.
pub open spec fn is_overfull(leaves: Seq<LeafRecord>, i: int) -> bool {
    &&& 0 <= i < leaves.len()
    &&& leaf_count(leaves.take(i), leaves[i].size) == u32::MAX
}

/// What can keep a view that passes from being proved: want of memory for the
/// pages to walk, or of room in a counter. The error tells how many pages, which
/// count, or where the leaf starts that does not fit.
pub open spec fn no_room(h: Hierarchy, shape: BaseShape, error: MonadError) -> bool {
    let leaves = scanned_view(h, shape).unwrap().leaves;
    ||| error == MonadError::new(
        ErrorPhase::EptBuild,
        ErrorCode::AllocationFailure,
        probe_count(h, shape) as u64,
    )
    ||| probe_count(h, shape) > usize::MAX && error == MonadError::new(
        ErrorPhase::EptBuild,
        ErrorCode::AddressOverflow,
        if 4 * leaves.len() <= usize::MAX && 4 * shape.types.len() > usize::MAX {
            shape.types.len() as u64
        } else {
            leaves.len() as u64
        },
    )
    ||| h.pages.len() > u32::MAX && error == MonadError::new(
        ErrorPhase::EptBuild,
        ErrorCode::AddressOverflow,
        h.pages.len() as u64,
    )
    ||| exists|i: int| #[trigger]
        is_overfull(leaves, i) && error == MonadError::new(
            ErrorPhase::EptBuild,
            ErrorCode::AddressOverflow,
            leaves[i].start,
        )
}

/// What walking one page comes to: it must be found mapped to itself with every
/// permission and the type that the memory map gives it.
pub open spec fn probe_result(h: Hierarchy, shape: BaseShape, address: u64) -> Result<
    (),
    EptValidationError,
> {
    let mismatch = |detail: u64|
        walker::finding(EptValidationErrorKind::WalkerMismatch, EptLevel::Pt, address, detail);
    if address % 0x1000 != 0 {
        Err(mismatch(super::address::AddressErrorDetail::StartMisaligned.spec_code()))
    } else {
        let gpa = GuestPhysicalAddress::at(address);
        match walker::walked(h, gpa) {
            WalkResult::Mapping(mapping) => if mapping.hpa_page.get() == address && mapping.gpa_page
                == gpa && mapping.permissions == EptPermissions::full() && mtrr::type_at(
                shape.types,
                address as int,
            ) == Some(mapping.memory_type) {
                Ok(())
            } else {
                Err(mismatch(0))
            },
            WalkResult::Invalid(error) => Err(error),
            WalkResult::NotPresent { .. } => Err(mismatch(0)),
        }
    }
}

/// Walks one page of a view.
fn verify_probe<A: EptPageAllocator>(view: &BaseViewCandidate<A>, address: u64) -> (result: Result<
    (),
    EptValidationError,
>)
    requires
        view.wf(),
    ensures
        result == probe_result(view.hierarchy(), view.shape(), address),
{
    let gpa = match GuestPhysicalAddress::from_page_aligned(address) {
        Ok(gpa) => gpa,
        Err(error) => {
            return Err(
                fault(
                    EptValidationErrorKind::WalkerMismatch,
                    EptLevel::Pt,
                    address,
                    error.detail,
                ),
            );
        },
    };
    proof {
        super::address::lemma_gpa_at(address);
        super::address::lemma_gpa_is_its_number(gpa, GuestPhysicalAddress::at(address));
    }
    match walk_view(
        &view.pages,
        view.root,
        view.max_physical_bits,
        view.execute_only_supported,
        EptPageOwner::BaseBuild,
        gpa,
    ) {
        WalkResult::Mapping(mapping) => {
            let typed: bool = match view.memory_types.memory_type_at(address) {
                Some(memory_type) => memory_type == mapping.memory_type,
                None => false,
            };
            if mapping.hpa_page.get() == address && mapping.gpa_page == gpa
                && mapping.permissions.read() && mapping.permissions.write()
                && mapping.permissions.execute() && typed {
                Ok(())
            } else {
                Err(fault(EptValidationErrorKind::WalkerMismatch, EptLevel::Pt, address, 0))
            }
        },
        WalkResult::Invalid(error) => Err(error),
        WalkResult::NotPresent { .. } => Err(
            fault(EptValidationErrorKind::WalkerMismatch, EptLevel::Pt, address, 0),
        ),
    }
}

/// Whether a page is to be walked for a run of pages: it is the first or last of
/// the run, or lies next to it in the aperture.
pub open spec fn bounds(start: u64, end_exclusive: u64, aperture_end: u64, page: u64) -> bool {
    ||| page == start
    ||| page == end_exclusive - 0x1000
    ||| page == start - 0x1000
    ||| page == end_exclusive && end_exclusive < aperture_end
}

/// Adds the pages to walk for a run of pages.
fn push_probes(probes: &mut Vec<u64>, start: u64, end_exclusive: u64, aperture_end: u64)
    requires
        sorted::ascending(old(probes)@),
        end_exclusive >= 0x1000,
    ensures
        sorted::ascending(final(probes)@),
        forall|x: u64| #[trigger]
            final(probes)@.contains(x) <==> old(probes)@.contains(x) || bounds(
                start,
                end_exclusive,
                aperture_end,
                x,
            ),
        final(probes)@.len() <= old(probes)@.len() + 4,
{
    sorted::insert_ascending(probes, start);
    sorted::insert_ascending(probes, end_exclusive - PAGE_SIZE_4K);
    if start >= PAGE_SIZE_4K {
        sorted::insert_ascending(probes, start - PAGE_SIZE_4K);
    }
    if end_exclusive < aperture_end {
        sorted::insert_ascending(probes, end_exclusive);
    }
}

/// Counts one leaf more, unless the counter is full.
fn count_leaf(count: u32, start: u64) -> (result: MonadResult<u32>)
    ensures
        match result {
            Ok(next) => next == count + 1,
            Err(error) => count == u32::MAX && error == MonadError::new(
                ErrorPhase::EptBuild,
                ErrorCode::AddressOverflow,
                start,
            ),
        },
{
    match count.checked_add(1) {
        Some(next) => Ok(next),
        None => Err(MonadError::new(ErrorPhase::EptBuild, ErrorCode::AddressOverflow, start)),
    }
}

/// The leaves of a scan lie on page bounds.
proof fn lemma_records_are_pages(h: Hierarchy, shape: BaseShape, leaf: LeafRecord)
    requires
        record_ok(h, shape, leaf),
    ensures
        leaf.start % 0x1000 == 0,
        leaf.end_exclusive % 0x1000 == 0,
        leaf.start < leaf.end_exclusive,
        leaf.size.bytes() / 0x1000 == leaf.end_exclusive / 0x1000 - leaf.start / 0x1000,
{
}

/// Checks that leaves follow each other from zero; gives their end.
fn check_contiguous(leaves: &[LeafRecord]) -> (result: Result<u64, EptValidationError>)
    ensures
        match result {
            Ok(end) => {
                &&& contiguous(leaves@)
                &&& forall|i: int| !(#[trigger] first_gap(leaves@, i))
                &&& end == cursor(leaves@, leaves@.len() as int)
            },
            Err(error) => exists|i: int| #[trigger]
                first_gap(leaves@, i) && error == walker::finding(
                    EptValidationErrorKind::MappingGapOrOverlap,
                    EptLevel::Pt,
                    cursor(leaves@, i),
                    leaves@[i].start,
                ),
        },
{
    let mut reached: u64 = 0;
    let mut i: usize = 0;
    while i < leaves.len()
        invariant
            i <= leaves@.len(),
            reached == cursor(leaves@, i as int),
            forall|j: int| 0 <= j < i ==> (#[trigger] leaves@[j]).start == cursor(leaves@, j),
        decreases leaves@.len() - i,
    {
        let leaf = leaves[i];
        if leaf.start != reached {
            assert(first_gap(leaves@, i as int));
            return Err(
                fault(
                    EptValidationErrorKind::MappingGapOrOverlap,
                    EptLevel::Pt,
                    reached,
                    leaf.start,
                ),
            );
        }
        reached = leaf.end_exclusive;
        i += 1;
    }
    Ok(reached)
}

fn too_many(count: usize) -> (error: MonadError)
    ensures
        error == MonadError::new(
            ErrorPhase::EptBuild,
            ErrorCode::AddressOverflow,
            count as u64,
        ),
{
    MonadError::new(ErrorPhase::EptBuild, ErrorCode::AddressOverflow, count as u64)
}

/// Whether a page bounds one of the first leaves of a scan.
pub open spec fn bounds_leaf(
    leaves: Seq<LeafRecord>,
    count: int,
    aperture_end: u64,
    page: u64,
) -> bool {
    exists|k: int|
        0 <= k < count && bounds(
            (#[trigger] leaves[k]).start,
            leaves[k].end_exclusive,
            aperture_end,
            page,
        )
}

/// Whether a page bounds one of the first intervals of a memory type.
pub open spec fn bounds_interval(
    types: Seq<MemoryTypeInterval>,
    count: int,
    aperture_end: u64,
    page: u64,
) -> bool {
    exists|k: int|
        0 <= k < count && bounds(
            (#[trigger] types[k]).start,
            types[k].end_exclusive,
            aperture_end,
            page,
        )
}

/// Whether a page is walked to prove a view.
pub open spec fn is_probe(leaves: Seq<LeafRecord>, shape: BaseShape, page: u64) -> bool {
    ||| bounds_leaf(leaves, leaves.len() as int, shape.aperture_end, page)
    ||| bounds_interval(shape.types, shape.types.len() as int, shape.aperture_end, page)
}

/// Whether a page is the lowest of those to walk that is not found as it must be.
pub open spec fn first_mismatch(
    h: Hierarchy,
    shape: BaseShape,
    leaves: Seq<LeafRecord>,
    page: u64,
) -> bool {
    &&& is_probe(leaves, shape, page)
    &&& probe_result(h, shape, page) is Err
    &&& forall|x: u64| #[trigger]
        is_probe(leaves, shape, x) && x < page ==> probe_result(h, shape, x) is Ok
}

/// Walks the pages around every leaf and every interval of a memory type, from
/// the lowest up, until one is not found as it must be.
fn verify_probes<A: EptPageAllocator>(view: &BaseViewCandidate<A>, leaves: &[LeafRecord]) -> (result:
    MonadResult<()>)
    requires
        view.wf(),
        forall|k: int| 0 <= k < leaves@.len() ==> (#[trigger] leaves@[k]).end_exclusive >= 0x1000,
    ensures
        ({
            let types = view.shape().types;
            let count = 4 * leaves@.len() + 4 * types.len();
            if count > usize::MAX {
                result == Err::<(), MonadError>(
                    MonadError::new(
                        ErrorPhase::EptBuild,
                        ErrorCode::AddressOverflow,
                        if 4 * leaves@.len() <= usize::MAX && 4 * types.len() > usize::MAX {
                            types.len() as u64
                        } else {
                            leaves@.len() as u64
                        },
                    ),
                )
            } else {
                match result {
                    Ok(_) => forall|x: u64| #[trigger]
                        is_probe(leaves@, view.shape(), x) ==> probe_result(
                            view.hierarchy(),
                            view.shape(),
                            x,
                        ) is Ok,
                    Err(error) => {
                        ||| error == MonadError::new(
                            ErrorPhase::EptBuild,
                            ErrorCode::AllocationFailure,
                            count as u64,
                        )
                        ||| exists|x: u64| #[trigger]
                            first_mismatch(view.hierarchy(), view.shape(), leaves@, x) && error
                                == view_fault(
                                probe_result(view.hierarchy(), view.shape(), x).unwrap_err(),
                            )
                    },
                }
            }
        }),
{
    let ghost h = view.hierarchy();
    let ghost shape = view.shape();
    let aperture_end: u64 = view.inventory.aperture_end();
    let intervals = view.memory_types.intervals();
    let ghost types = view.memory_types.view();
    let leaf_capacity: usize = match leaves.len().checked_mul(4) {
        Some(capacity) => capacity,
        None => {
            return Err(too_many(leaves.len()));
        },
    };
    let interval_capacity: usize = match intervals.len().checked_mul(4) {
        Some(capacity) => capacity,
        None => {
            return Err(too_many(intervals.len()));
        },
    };
    let probe_capacity: usize = match leaf_capacity.checked_add(interval_capacity) {
        Some(capacity) => capacity,
        None => {
            return Err(too_many(leaves.len()));
        },
    };
    let mut probes: Vec<u64> = Vec::new();
    let reserved = probes.try_reserve(probe_capacity);
    if reserved.is_err() {
        return Err(
            MonadError::new(
                ErrorPhase::EptBuild,
                ErrorCode::AllocationFailure,
                probe_capacity as u64,
            ),
        );
    }
    let mut i: usize = 0;
    while i < leaves.len()
        invariant
            i <= leaves@.len(),
            forall|k: int|
                0 <= k < leaves@.len() ==> (#[trigger] leaves@[k]).end_exclusive >= 0x1000,
            sorted::ascending(probes@),
            forall|x: u64| #[trigger]
                probes@.contains(x) <==> bounds_leaf(leaves@, i as int, aperture_end, x),
        decreases leaves@.len() - i,
    {
        let leaf = leaves[i];
        let ghost before = probes@;
        push_probes(&mut probes, leaf.start, leaf.end_exclusive, aperture_end);
        assert forall|x: u64| #[trigger] probes@.contains(x) <==> bounds_leaf(
            leaves@,
            i + 1,
            aperture_end,
            x,
        ) by {
            assert(probes@.contains(x) <==> before.contains(x) || bounds(
                leaves@[i as int].start,
                leaves@[i as int].end_exclusive,
                aperture_end,
                x,
            ));
        }
        i += 1;
    }
    let mut i: usize = 0;
    while i < intervals.len()
        invariant
            i <= intervals@.len(),
            intervals@ == types,
            mtrr::exact_cover(types, aperture_end),
            sorted::ascending(probes@),
            forall|x: u64| #[trigger]
                probes@.contains(x) <==> bounds_leaf(
                    leaves@,
                    leaves@.len() as int,
                    aperture_end,
                    x,
                ) || bounds_interval(types, i as int, aperture_end, x),
        decreases intervals@.len() - i,
    {
        let interval = intervals[i];
        let ghost before = probes@;
        proof {
            assert(types[i as int] == interval);
        }
        push_probes(&mut probes, interval.start, interval.end_exclusive, aperture_end);
        assert forall|x: u64| #[trigger] probes@.contains(x) <==> bounds_leaf(
            leaves@,
            leaves@.len() as int,
            aperture_end,
            x,
        ) || bounds_interval(types, i + 1, aperture_end, x) by {
            assert(probes@.contains(x) <==> before.contains(x) || bounds(
                types[i as int].start,
                types[i as int].end_exclusive,
                aperture_end,
                x,
            ));
        }
        i += 1;
    }
    let mut i: usize = 0;
    while i < probes.len()
        invariant
            i <= probes@.len(),
            view.wf(),
            h == view.hierarchy(),
            shape == view.shape(),
            4 * leaves@.len() + 4 * shape.types.len() <= usize::MAX,
            sorted::ascending(probes@),
            forall|x: u64| #[trigger] probes@.contains(x) <==> is_probe(leaves@, shape, x),
            forall|k: int|
                0 <= k < i ==> probe_result(h, shape, #[trigger] probes@[k]) is Ok,
        decreases probes@.len() - i,
    {
        assert(probes@.contains(probes@[i as int]));
        match verify_probe(view, probes[i]) {
            Ok(_) => {},
            Err(error) => {
                proof {
                    let page = probes@[i as int];
                    assert forall|x: u64| #[trigger]
                        is_probe(leaves@, shape, x) && x < page implies probe_result(h, shape, x)
                        is Ok by {
                        assert(probes@.contains(x));
                        let k = choose|k: int| 0 <= k < probes@.len() && probes@[k] == x;
                        assert(k < i);
                    }
                    assert(first_mismatch(h, shape, leaves@, page));
                }
                return Err(view_error(error));
            },
        }
        i += 1;
    }
    proof {
        assert forall|x: u64| #[trigger] is_probe(leaves@, shape, x) implies probe_result(
            h,
            shape,
            x,
        ) is Ok by {
            assert(probes@.contains(x));
            let k = choose|k: int| 0 <= k < probes@.len() && probes@[k] == x;
            assert(probe_result(h, shape, probes@[k]) is Ok);
        }
    }
    Ok(())
}

/// The pages around a run of pages in the aperture lie in the aperture.
proof fn lemma_bounds_inside(start: u64, end_exclusive: u64, aperture_end: u64, page: u64)
    requires
        start % 0x1000 == 0,
        end_exclusive % 0x1000 == 0,
        start < end_exclusive <= aperture_end,
        bounds(start, end_exclusive, aperture_end, page),
    ensures
        page % 0x1000 == 0,
        page < aperture_end,
{
}

/// The pages that are walked to prove a view lie in its aperture.
proof fn lemma_probe_inside(h: Hierarchy, shape: BaseShape, leaves: Seq<LeafRecord>, page: u64)
    requires
        mtrr::exact_cover(shape.types, shape.aperture_end),
        forall|k: int| 0 <= k < leaves.len() ==> record_ok(h, shape, #[trigger] leaves[k]),
        is_probe(leaves, shape, page),
    ensures
        page % 0x1000 == 0,
        page < shape.aperture_end,
{
    let types = shape.types;
    let end = shape.aperture_end;
    if bounds_leaf(leaves, leaves.len() as int, end, page) {
        let k = choose|k: int|
            0 <= k < leaves.len() && bounds(
                (#[trigger] leaves[k]).start,
                leaves[k].end_exclusive,
                end,
                page,
            );
        assert(record_ok(h, shape, leaves[k]));
        lemma_records_are_pages(h, shape, leaves[k]);
        lemma_bounds_inside(leaves[k].start, leaves[k].end_exclusive, end, page);
    } else {
        let k = choose|k: int|
            0 <= k < types.len() && bounds(
                (#[trigger] types[k]).start,
                types[k].end_exclusive,
                end,
                page,
            );
        if k < types.len() - 1 {
            mtrr::lemma_cover_ordered(types, end, k, types.len() - 1);
            assert(types[types.len() - 1].start < types[types.len() - 1].end_exclusive);
        }
        lemma_bounds_inside(types[k].start, types[k].end_exclusive, end, page);
    }
}

/// The pages that are walked to prove a covered view are found as they must be.
proof fn lemma_probes_agree(h: Hierarchy, shape: BaseShape, leaves: Seq<LeafRecord>, page: u64)
    requires
        covered_view(h, shape),
        mtrr::exact_cover(shape.types, shape.aperture_end),
        entry::supported_width(h.bits),
        forall|k: int| 0 <= k < leaves.len() ==> record_ok(h, shape, #[trigger] leaves[k]),
        is_probe(leaves, shape, page),
    ensures
        probe_result(h, shape, page) is Ok,
{
    lemma_probe_inside(h, shape, leaves, page);
    lemma_inside_agrees(h, shape, page);
}

/// Every page of a covered view is found as it must be.
#[verifier::spinoff_prover]
proof fn lemma_inside_agrees(h: Hierarchy, shape: BaseShape, page: u64)
    requires
        covered_view(h, shape),
        mtrr::exact_cover(shape.types, shape.aperture_end),
        entry::supported_width(h.bits),
        page % 0x1000 == 0,
        page < shape.aperture_end,
    ensures
        probe_result(h, shape, page) is Ok,
{
    let types = shape.types;
    let gpa = GuestPhysicalAddress::at(page);
    super::address::lemma_gpa_at(page);
    law_verified_view_is_identity(h, shape, gpa);
    let k = mtrr::lemma_cover_find(types, shape.aperture_end, page as int, types.len() - 1);
    mtrr::lemma_cover_type_at(types, shape.aperture_end, k, page as int);
    let size = choose|size: EptLeafSize|
        walker::walked(h, gpa) == #[trigger] identity_mapping(
            gpa,
            size,
            mtrr::type_at(types, page as int).unwrap(),
        );
    assert(walker::walked(h, gpa) == identity_mapping(
        gpa,
        size,
        mtrr::type_at(types, page as int).unwrap(),
    ));
}

/// Counts the leaves of a covered view by size.
fn count_leaves(
    leaves: &[LeafRecord],
    table_pages: u32,
    Ghost(h): Ghost<Hierarchy>,
    Ghost(shape): Ghost<BaseShape>,
) -> (result: MonadResult<BaseViewMetadata>)
    requires
        contiguous(leaves@),
        forall|k: int| 0 <= k < leaves@.len() ==> record_ok(h, shape, #[trigger] leaves@[k]),
    ensures
        match result {
            Ok(metadata) => {
                &&& metadata.table_pages == table_pages
                &&& metadata.leaf_1g == leaf_count(leaves@, EptLeafSize::Size1G)
                &&& metadata.leaf_2m == leaf_count(leaves@, EptLeafSize::Size2M)
                &&& metadata.leaf_4k == leaf_count(leaves@, EptLeafSize::Size4K)
                &&& metadata.mapped_pages_4k == cursor(leaves@, leaves@.len() as int) / 0x1000
            },
            Err(error) => exists|i: int| #[trigger]
                is_overfull(leaves@, i) && error == MonadError::new(
                    ErrorPhase::EptBuild,
                    ErrorCode::AddressOverflow,
                    leaves@[i].start,
                ),
        },
{
    let mut metadata = BaseViewMetadata {
        table_pages,
        leaf_1g: 0,
        leaf_2m: 0,
        leaf_4k: 0,
        mapped_pages_4k: 0,
    };
    let mut i: usize = 0;
    assert(leaves@.take(0) =~= Seq::<LeafRecord>::empty());
    while i < leaves.len()
        invariant
            i <= leaves@.len(),
            contiguous(leaves@),
            forall|k: int| 0 <= k < leaves@.len() ==> record_ok(h, shape, #[trigger] leaves@[k]),
            metadata.table_pages == table_pages,
            metadata.leaf_1g == leaf_count(leaves@.take(i as int), EptLeafSize::Size1G),
            metadata.leaf_2m == leaf_count(leaves@.take(i as int), EptLeafSize::Size2M),
            metadata.leaf_4k == leaf_count(leaves@.take(i as int), EptLeafSize::Size4K),
            metadata.mapped_pages_4k == cursor(leaves@, i as int) / 0x1000,
        decreases leaves@.len() - i,
    {
        let leaf = leaves[i];
        proof {
            assert(record_ok(h, shape, leaves@[i as int]));
            lemma_records_are_pages(h, shape, leaf);
            assert(leaves@.take(i + 1).drop_last() =~= leaves@.take(i as int));
            assert(leaves@.take(i + 1).last() == leaf);
            assert(leaf.start == cursor(leaves@, i as int));
            assert(leaf_count(leaves@.take(i as int), leaf.size) == u32::MAX ==> is_overfull(
                leaves@,
                i as int,
            ));
        }
        match leaf.size {
            EptLeafSize::Size1G => {
                metadata.leaf_1g = count_leaf(metadata.leaf_1g, leaf.start)?;
            },
            EptLeafSize::Size2M => {
                metadata.leaf_2m = count_leaf(metadata.leaf_2m, leaf.start)?;
            },
            EptLeafSize::Size4K => {
                metadata.leaf_4k = count_leaf(metadata.leaf_4k, leaf.start)?;
            },
        }
        metadata.mapped_pages_4k = metadata.mapped_pages_4k + leaf.size.bytes() / PAGE_SIZE_4K;
        i += 1;
    }
    assert(leaves@.take(i as int) =~= leaves@);
    Ok(metadata)
}

/// The outcome of `verify_view`.
pub struct ViewVerification {
    pub metadata: BaseViewMetadata,
}

/// Proves a candidate: scans every table, checks that the leaves cover the
/// aperture without gap or overlap and that every table was reached, and walks
/// the pages around every bound.
///
/// Fails with a finding exactly when the tables show it; otherwise only for
/// want of memory or of room in a counter.
pub fn verify_view<A: EptPageAllocator>(view: &BaseViewCandidate<A>) -> (result: MonadResult<
    ViewVerification,
>)
    requires
        view.wf(),
    ensures
        match result {
            Ok(verification) => {
                &&& view_passes(view.hierarchy(), view.shape())
                &&& figures(view.hierarchy(), view.shape(), verification.metadata)
            },
            Err(error) => {
                ||| view_refusal(view.hierarchy(), view.shape(), error)
                ||| view_passes(view.hierarchy(), view.shape()) && no_room(
                    view.hierarchy(),
                    view.shape(),
                    error,
                )
                ||| exists|found: EptValidationError|
                    scan_shortage(EptLevel::Pml4, 0, found) && error == #[trigger] view_fault(found)
            },
        },
        !view_passes(view.hierarchy(), view.shape()) ==> result is Err,
{
    let ghost h = view.hierarchy();
    let ghost shape = view.shape();
    let mut visited: Vec<u64> = Vec::new();
    let mut leaves: Vec<LeafRecord> = Vec::new();
    assert(visited@ =~= Seq::<u64>::empty());
    assert(leaves@ =~= Seq::<LeafRecord>::empty());
    match scan_table(view, view.root, EptLevel::Pml4, 0, &mut visited, &mut leaves) {
        Ok(_) => {},
        Err(error) => {
            return Err(view_error(error));
        },
    }
    let ghost state = ScanState { visited: visited@, leaves: leaves@ };
    assert(scanned_view(h, shape) == Ok::<ScanState, EptValidationError>(state));
    proof {
        lemma_scan_records(h, shape, state);
    }
    let aperture_end: u64 = view.inventory.aperture_end();
    let reached: u64 = match check_contiguous(leaves.as_slice()) {
        Ok(reached) => reached,
        Err(error) => {
            return Err(view_error(error));
        },
    };
    if reached != aperture_end || visited.len() != view.pages.len() {
        let kind = if reached != aperture_end {
            EptValidationErrorKind::MappingGapOrOverlap
        } else {
            EptValidationErrorKind::UnreachableOwnedTable
        };
        return Err(view_error(fault(kind, EptLevel::Pml4, reached, view.pages.len() as u64)));
    }
    assert(covered_view(h, shape));
    let _ = view.memory_types.intervals();
    proof {
        assert forall|k: int| 0 <= k < leaves@.len() implies (
        #[trigger] leaves@[k]).end_exclusive >= 0x1000 by {
            assert(record_ok(h, shape, leaves@[k]));
        }
        assert forall|x: u64| #[trigger] is_probe(leaves@, shape, x) implies probe_result(
            h,
            shape,
            x,
        ) is Ok by {
            lemma_probes_agree(h, shape, leaves@, x);
        }
    }
    verify_probes(view, leaves.as_slice())?;
    let table_count: usize = visited.len();
    if table_count > 0xffff_ffff {
        return Err(too_many(table_count));
    }
    let metadata = count_leaves(leaves.as_slice(), table_count as u32, Ghost(h), Ghost(shape))?;
    Ok(ViewVerification { metadata })
}

/// Every leaf of a scan without findings is a good one.
proof fn lemma_scan_records(h: Hierarchy, shape: BaseShape, state: ScanState)
    requires
        scanned_view(h, shape) == Ok::<ScanState, EptValidationError>(state),
    ensures
        forall|k: int|
            0 <= k < state.leaves.len() ==> record_ok(h, shape, #[trigger] state.leaves[k]),
{
    let gpa = GuestPhysicalAddress::at(0);
    super::address::lemma_gpa_at(0);
    lemma_view_located(h, shape, state, gpa);
}

} // verus!
