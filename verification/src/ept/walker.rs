//! Walking a hierarchy of tables as the processor does.

use vstd::prelude::*;

use super::address::{EptPermissions, GuestPhysicalAddress, HostPhysicalAddress, PAGE_SIZE_4K};
use super::backing::BackingPageReference;
use super::entry;
use super::entry::{decode_entry, DecodedEptEntry, EptLeafSize, EptLevel, EptMemoryType};
use super::page;
use super::page::{EptPageAllocator, EptPageKind, EptPageOwner, EptPageStore, TablePage};
use crate::bits;

verus! {

broadcast use super::address::group_host_addresses;

/// What a validation found wrong.
#[derive(Debug, Clone, Copy, PartialEq, Eq, Structural)]
pub enum EptValidationErrorKind {
    AddressOutsideWidth,
    MissingOwnedTable,
    WrongTableKind,
    WrongTableOwner,
    CycleOrSharedTable,
    InvalidEntry,
    ArithmeticOverflow,
    MappingOutsideAperture,
    MappingGapOrOverlap,
    NonIdentityMapping,
    MemoryTypeMismatch,
    PermissionMismatch,
    UnreachableOwnedTable,
    WalkerMismatch,
}

impl EptValidationErrorKind {
    pub open spec fn spec_code(self) -> u64 {
        match self {
            EptValidationErrorKind::AddressOutsideWidth => 1,
            EptValidationErrorKind::MissingOwnedTable => 2,
            EptValidationErrorKind::WrongTableKind => 3,
            EptValidationErrorKind::WrongTableOwner => 4,
            EptValidationErrorKind::CycleOrSharedTable => 5,
            EptValidationErrorKind::InvalidEntry => 6,
            EptValidationErrorKind::ArithmeticOverflow => 7,
            EptValidationErrorKind::MappingOutsideAperture => 8,
            EptValidationErrorKind::MappingGapOrOverlap => 9,
            EptValidationErrorKind::NonIdentityMapping => 10,
            EptValidationErrorKind::MemoryTypeMismatch => 11,
            EptValidationErrorKind::PermissionMismatch => 12,
            EptValidationErrorKind::UnreachableOwnedTable => 13,
            EptValidationErrorKind::WalkerMismatch => 14,
        }
    }

    #[verifier::when_used_as_spec(spec_code)]
    pub fn code(self) -> (code: u64)
        ensures
            code == self.spec_code(),
    {
        match self {
            EptValidationErrorKind::AddressOutsideWidth => 1,
            EptValidationErrorKind::MissingOwnedTable => 2,
            EptValidationErrorKind::WrongTableKind => 3,
            EptValidationErrorKind::WrongTableOwner => 4,
            EptValidationErrorKind::CycleOrSharedTable => 5,
            EptValidationErrorKind::InvalidEntry => 6,
            EptValidationErrorKind::ArithmeticOverflow => 7,
            EptValidationErrorKind::MappingOutsideAperture => 8,
            EptValidationErrorKind::MappingGapOrOverlap => 9,
            EptValidationErrorKind::NonIdentityMapping => 10,
            EptValidationErrorKind::MemoryTypeMismatch => 11,
            EptValidationErrorKind::PermissionMismatch => 12,
            EptValidationErrorKind::UnreachableOwnedTable => 13,
            EptValidationErrorKind::WalkerMismatch => 14,
        }
    }
}

/// One finding of a validation, and where it was made.
#[derive(Debug, Clone, Copy, PartialEq, Eq, Structural)]
pub struct EptValidationError {
    pub kind: EptValidationErrorKind,
    pub level: EptLevel,
    pub gpa: u64,
    pub detail: u64,
}

impl EptValidationError {
    /// The finding as an error detail: the kind in bits 0..7, the level in
    /// bits 8..15 and the page number above.
    pub open spec fn spec_packed_detail(self) -> u64 {
        self.kind.spec_code() | ((self.level.spec_code() as u64) << 8) | ((self.gpa >> 12) << 16)
    }

    #[verifier::when_used_as_spec(spec_packed_detail)]
    pub fn packed_detail(self) -> (detail: u64)
        ensures
            detail == self.spec_packed_detail(),
    {
        self.kind.code() | ((self.level.code() as u64) << 8) | ((self.gpa >> 12) << 16)
    }
}

/// Where the memory behind a mapping comes from.
#[derive(Debug, Clone, Copy, PartialEq, Eq, Structural)]
pub enum MappingSource {
    Identity,
    Backing(BackingPageReference),
}

/// What a guest page is mapped to.
#[derive(Debug, Clone, Copy, PartialEq, Eq, Structural)]
pub struct ResolvedMapping {
    pub gpa_page: GuestPhysicalAddress,
    pub hpa_page: HostPhysicalAddress,
    pub leaf_size: EptLeafSize,
    pub permissions: EptPermissions,
    pub memory_type: EptMemoryType,
    pub source: MappingSource,
}

/// How a walk ends.
#[derive(Debug, Clone, Copy, PartialEq, Eq, Structural)]
pub enum WalkResult {
    Mapping(ResolvedMapping),
    NotPresent { level: EptLevel, raw_entry: u64 },
    Invalid(EptValidationError),
}

impl EptLevel {
    /// The kind of page that holds tables of this level.
    pub open spec fn spec_kind(self) -> EptPageKind {
        match self {
            EptLevel::Pml4 => EptPageKind::Pml4,
            EptLevel::Pdpt => EptPageKind::Pdpt,
            EptLevel::Pd => EptPageKind::Pd,
            EptLevel::Pt => EptPageKind::Pt,
        }
    }

    #[verifier::when_used_as_spec(spec_kind)]
    pub fn kind(self) -> (kind: EptPageKind)
        ensures
            kind == self.spec_kind(),
    {
        match self {
            EptLevel::Pml4 => EptPageKind::Pml4,
            EptLevel::Pdpt => EptPageKind::Pdpt,
            EptLevel::Pd => EptPageKind::Pd,
            EptLevel::Pt => EptPageKind::Pt,
        }
    }

    /// The level below, if there is one.
    pub open spec fn spec_next(self) -> Option<EptLevel> {
        match self {
            EptLevel::Pml4 => Some(EptLevel::Pdpt),
            EptLevel::Pdpt => Some(EptLevel::Pd),
            EptLevel::Pd => Some(EptLevel::Pt),
            EptLevel::Pt => None,
        }
    }

    #[verifier::when_used_as_spec(spec_next)]
    pub fn next(self) -> (next: Option<EptLevel>)
        ensures
            next == self.spec_next(),
    {
        match self {
            EptLevel::Pml4 => Some(EptLevel::Pdpt),
            EptLevel::Pdpt => Some(EptLevel::Pd),
            EptLevel::Pd => Some(EptLevel::Pt),
            EptLevel::Pt => None,
        }
    }

    /// The bytes of guest memory that one entry of this level governs.
    pub open spec fn spec_span(self) -> u64 {
        match self {
            EptLevel::Pml4 => 0x80_0000_0000,
            EptLevel::Pdpt => 0x4000_0000,
            EptLevel::Pd => 0x20_0000,
            EptLevel::Pt => 0x1000,
        }
    }

    #[verifier::when_used_as_spec(spec_span)]
    pub fn span(self) -> (span: u64)
        ensures
            span == self.spec_span(),
    {
        match self {
            EptLevel::Pml4 => 0x80_0000_0000,
            EptLevel::Pdpt => 0x4000_0000,
            EptLevel::Pd => 0x20_0000,
            EptLevel::Pt => 0x1000,
        }
    }

    /// The entry of a table of this level that governs an address.
    pub open spec fn spec_index(self, address: u64) -> int {
        ((address / self.spec_span()) % 512) as int
    }

    pub fn index(self, address: u64) -> (index: usize)
        ensures
            index == self.spec_index(address),
            index < 512,
    {
        proof {
            bits::lemma_table_index(address);
        }
        let shifted: u64 = match self {
            EptLevel::Pml4 => address >> 39,
            EptLevel::Pdpt => address >> 30,
            EptLevel::Pd => address >> 21,
            EptLevel::Pt => address >> 12,
        };
        (shifted & 0x1ff) as usize
    }
}

/// The level that a kind of page serves.
pub open spec fn level_of_kind(kind: EptPageKind) -> EptLevel {
    match kind {
        EptPageKind::Pml4 => EptLevel::Pml4,
        EptPageKind::Pdpt => EptLevel::Pdpt,
        EptPageKind::Pd => EptLevel::Pd,
        EptPageKind::Pt => EptLevel::Pt,
    }
}

pub fn level_for_kind(kind: EptPageKind) -> (level: EptLevel)
    ensures
        level == level_of_kind(kind),
{
    match kind {
        EptPageKind::Pml4 => EptLevel::Pml4,
        EptPageKind::Pdpt => EptLevel::Pdpt,
        EptPageKind::Pd => EptLevel::Pd,
        EptPageKind::Pt => EptLevel::Pt,
    }
}

/// A hierarchy of tables as contracts see it.
pub struct Hierarchy {
    pub pages: Seq<TablePage>,
    pub root: u64,
    pub bits: u8,
    pub execute_only: bool,
    pub owner: EptPageOwner,
}

impl Hierarchy {
    /// The entry at a position of the table at `table`.
    pub open spec fn entry(self, table: u64, index: int) -> u64 {
        page::page_of(self.pages, table).entries[index]
    }

    /// What the entry at a position of a table says.
    pub open spec fn decoded(self, level: EptLevel, table: u64, index: int) -> Result<
        DecodedEptEntry,
        entry::EptEntryError,
    > {
        entry::decoded(level, self.entry(table, index), self.bits, self.execute_only)
    }
}

pub open spec fn finding(
    kind: EptValidationErrorKind,
    level: EptLevel,
    gpa: u64,
    detail: u64,
) -> EptValidationError {
    EptValidationError { kind, level, gpa, detail }
}

/// Permissions that both grant.
pub open spec fn both(left: EptPermissions, right: EptPermissions) -> EptPermissions {
    EptPermissions {
        read: left.read && right.read,
        write: left.write && right.write,
        execute: left.execute && right.execute,
    }
}

/// The end of a walk at a leaf.
pub open spec fn leaf_result(
    h: Hierarchy,
    level: EptLevel,
    gpa: GuestPhysicalAddress,
    hpa: HostPhysicalAddress,
    size: EptLeafSize,
    permissions: EptPermissions,
    memory_type: EptMemoryType,
) -> WalkResult {
    let address = gpa.get();
    let target = hpa.get() + address % size.bytes();
    if super::address::permission_fault(
        permissions.read,
        permissions.write,
        permissions.execute,
        h.execute_only,
    ) is Some {
        WalkResult::Invalid(
            finding(EptValidationErrorKind::PermissionMismatch, level, address, 0),
        )
    } else if target > u64::MAX {
        WalkResult::Invalid(
            finding(EptValidationErrorKind::ArithmeticOverflow, level, address, hpa.get()),
        )
    } else if super::address::host_mapping_fault(target as u64, 0x1000, 0x1000, h.bits) is Some {
        WalkResult::Invalid(
            finding(EptValidationErrorKind::AddressOutsideWidth, level, address, target as u64),
        )
    } else {
        WalkResult::Mapping(
            ResolvedMapping {
                gpa_page: gpa,
                hpa_page: HostPhysicalAddress::at(target as u64),
                leaf_size: size,
                permissions,
                memory_type,
                source: MappingSource::Identity,
            },
        )
    }
}

/// A walk that goes on at a table of some level, having passed `visited` and
/// kept the permissions that every entry on the way grants.
pub open spec fn walk_from(
    h: Hierarchy,
    level: EptLevel,
    table: u64,
    visited: Seq<u64>,
    granted: EptPermissions,
    gpa: GuestPhysicalAddress,
) -> WalkResult
    decreases level.spec_code(),
{
    let address = gpa.get();
    let index = level.spec_index(address);
    let held = page::page_of(h.pages, table);
    if visited.contains(table) {
        WalkResult::Invalid(
            finding(EptValidationErrorKind::CycleOrSharedTable, level, address, table),
        )
    } else if !page::has_page(h.pages, table) {
        WalkResult::Invalid(
            finding(EptValidationErrorKind::MissingOwnedTable, level, address, table),
        )
    } else if held.kind != level.spec_kind() {
        WalkResult::Invalid(
            finding(
                EptValidationErrorKind::WrongTableKind,
                level,
                address,
                held.kind.spec_code() as u64,
            ),
        )
    } else if held.owner != h.owner {
        WalkResult::Invalid(
            finding(
                EptValidationErrorKind::WrongTableOwner,
                level,
                address,
                held.owner.spec_code() as u64,
            ),
        )
    } else {
        match h.decoded(level, table, index) {
            Ok(DecodedEptEntry::NotPresent) => WalkResult::NotPresent {
                level,
                raw_entry: h.entry(table, index),
            },
            Ok(DecodedEptEntry::Table { hpa, permissions }) => match level.spec_next() {
                Some(child) => walk_from(
                    h,
                    child,
                    hpa.get(),
                    visited.push(table),
                    both(granted, permissions),
                    gpa,
                ),
                None => WalkResult::Invalid(
                    finding(
                        EptValidationErrorKind::InvalidEntry,
                        level,
                        address,
                        h.entry(table, index),
                    ),
                ),
            },
            Ok(DecodedEptEntry::Leaf { hpa, size, permissions, memory_type }) => leaf_result(
                h,
                level,
                gpa,
                hpa,
                size,
                both(granted, permissions),
                memory_type,
            ),
            Err(error) => WalkResult::Invalid(
                finding(EptValidationErrorKind::InvalidEntry, level, address, error.spec_code()),
            ),
        }
    }
}

/// The walk of a guest page from the root of a hierarchy.
pub open spec fn walked(h: Hierarchy, gpa: GuestPhysicalAddress) -> WalkResult {
    if gpa.get() >= bits::width_limit(h.bits) {
        WalkResult::Invalid(
            finding(
                EptValidationErrorKind::AddressOutsideWidth,
                EptLevel::Pml4,
                gpa.get(),
                h.bits as u64,
            ),
        )
    } else {
        walk_from(h, EptLevel::Pml4, h.root, Seq::empty(), EptPermissions::full(), gpa)
    }
}

fn invalid(kind: EptValidationErrorKind, level: EptLevel, gpa: u64, detail: u64) -> (result:
    WalkResult)
    ensures
        result == WalkResult::Invalid(finding(kind, level, gpa, detail)),
{
    WalkResult::Invalid(EptValidationError { kind, level, gpa, detail })
}

/// The hierarchy that a store holds under a root.
pub open spec fn hierarchy_of<A: EptPageAllocator>(
    pages: &EptPageStore<A>,
    root: HostPhysicalAddress,
    max_physical_bits: u8,
    execute_only_supported: bool,
    owner: EptPageOwner,
) -> Hierarchy {
    Hierarchy {
        pages: pages.view(),
        root: root.get(),
        bits: max_physical_bits,
        execute_only: execute_only_supported,
        owner,
    }
}

/// Walks a guest page from the root: through tables of the right kind and
/// owner, never twice through one table, down to a leaf, an absent entry or
/// the first thing that is wrong.
pub fn walk_view<A: EptPageAllocator>(
    pages: &EptPageStore<A>,
    root: HostPhysicalAddress,
    max_physical_bits: u8,
    execute_only_supported: bool,
    owner: EptPageOwner,
    gpa: GuestPhysicalAddress,
) -> (result: WalkResult)
    requires
        pages.wf(),
        max_physical_bits < 64,
    ensures
        result == walked(
            hierarchy_of(pages, root, max_physical_bits, execute_only_supported, owner),
            gpa,
        ),
{
    let ghost h = hierarchy_of(pages, root, max_physical_bits, execute_only_supported, owner);
    let address: u64 = gpa.get();
    if address >= 1u64 << (max_physical_bits as u64) {
        return invalid(
            EptValidationErrorKind::AddressOutsideWidth,
            EptLevel::Pml4,
            address,
            max_physical_bits as u64,
        );
    }
    let mut table = root;
    let mut visited: [u64; 4] = [u64::MAX;4];
    let mut level = EptLevel::Pml4;
    let mut read: bool = true;
    let mut write: bool = true;
    let mut execute: bool = true;
    let mut depth: usize = 0;
    proof {
        assert(visited@.take(0) =~= Seq::<u64>::empty());
    }
    while depth < 4
        invariant
            depth <= 4,
            depth == 4 - level.spec_code(),
            pages.wf(),
            max_physical_bits < 64,
            address == gpa.get(),
            address % 0x1000 == 0,
            address < bits::width_limit(max_physical_bits),
            h == hierarchy_of(pages, root, max_physical_bits, execute_only_supported, owner),
            walked(h, gpa) == walk_from(
                h,
                level,
                table.get(),
                visited@.take(depth as int),
                EptPermissions { read, write, execute },
                gpa,
            ),
        decreases 4 - depth,
    {
        let ghost passed = visited@.take(depth as int);
        let mut k: usize = 0;
        while k < depth
            invariant
                k <= depth <= 4,
                passed == visited@.take(depth as int),
                forall|j: int| 0 <= j < k ==> visited@[j] != table.get(),
                h == hierarchy_of(pages, root, max_physical_bits, execute_only_supported, owner),
                walked(h, gpa) == walk_from(
                    h,
                    level,
                    table.get(),
                    passed,
                    EptPermissions { read, write, execute },
                    gpa,
                ),
                address == gpa.get(),
            decreases depth - k,
        {
            if visited[k] == table.get() {
                assert(passed[k as int] == table.get());
                return invalid(
                    EptValidationErrorKind::CycleOrSharedTable,
                    level,
                    address,
                    table.get(),
                );
            }
            k += 1;
        }
        assert(!passed.contains(table.get()));
        let index: usize = level.index(address);
        let (kind, held_by, entries) = match pages.page(table) {
            Some(page) => page,
            None => {
                return invalid(
                    EptValidationErrorKind::MissingOwnedTable,
                    level,
                    address,
                    table.get(),
                );
            },
        };
        if kind != level.kind() {
            return invalid(
                EptValidationErrorKind::WrongTableKind,
                level,
                address,
                kind.code() as u64,
            );
        }
        if held_by != owner {
            return invalid(
                EptValidationErrorKind::WrongTableOwner,
                level,
                address,
                held_by.code() as u64,
            );
        }
        let raw: u64 = entries[index];
        match decode_entry(level, raw, max_physical_bits, execute_only_supported) {
            Ok(DecodedEptEntry::NotPresent) => {
                return WalkResult::NotPresent { level, raw_entry: raw };
            },
            Ok(DecodedEptEntry::Table { hpa, permissions }) => {
                let child = match level.next() {
                    Some(child) => child,
                    None => {
                        return invalid(
                            EptValidationErrorKind::InvalidEntry,
                            level,
                            address,
                            raw,
                        );
                    },
                };
                read = read && permissions.read();
                write = write && permissions.write();
                execute = execute && permissions.execute();
                visited[depth] = table.get();
                assert(visited@.take(depth + 1) =~= passed.push(table.get()));
                table = hpa;
                level = child;
                depth += 1;
            },
            Ok(DecodedEptEntry::Leaf { hpa, size, permissions, memory_type }) => {
                let effective = match EptPermissions::new(
                    read && permissions.read(),
                    write && permissions.write(),
                    execute && permissions.execute(),
                    execute_only_supported,
                ) {
                    Ok(effective) => effective,
                    Err(_) => {
                        return invalid(
                            EptValidationErrorKind::PermissionMismatch,
                            level,
                            address,
                            0,
                        );
                    },
                };
                proof {
                    bits::lemma_low_masks(address);
                }
                let offset: u64 = address & (size.bytes() - 1);
                let target: u64 = match hpa.get().checked_add(offset) {
                    Some(target) => target,
                    None => {
                        return invalid(
                            EptValidationErrorKind::ArithmeticOverflow,
                            level,
                            address,
                            hpa.get(),
                        );
                    },
                };
                let hpa_page = match HostPhysicalAddress::for_mapping(
                    target,
                    PAGE_SIZE_4K,
                    PAGE_SIZE_4K,
                    max_physical_bits,
                ) {
                    Ok(page) => page,
                    Err(_) => {
                        return invalid(
                            EptValidationErrorKind::AddressOutsideWidth,
                            level,
                            address,
                            target,
                        );
                    },
                };
                return WalkResult::Mapping(
                    ResolvedMapping {
                        gpa_page: gpa,
                        hpa_page,
                        leaf_size: size,
                        permissions: effective,
                        memory_type,
                        source: MappingSource::Identity,
                    },
                );
            },
            Err(error) => {
                return invalid(EptValidationErrorKind::InvalidEntry, level, address, error.code());
            },
        }
    }
    invalid(EptValidationErrorKind::InvalidEntry, level, address, 0)
}

} // verus!
