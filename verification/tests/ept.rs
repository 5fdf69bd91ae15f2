//! Page tables: addresses, entries, memory types, views and their manager.

use std::cell::Cell;
use std::rc::Rc;

use monad::ept::backing::BackingRegistry;
use monad::ept::builder::{build_candidate, build_in};
use monad::ept::entry::decode_entry;
use monad::ept::inventory::ApertureErrorDetail;
use monad::ept::mtrr::{
    MtrrErrorDetail, FIXED_ENABLE, FIXED_REGISTER_COUNT, FIXED_SUPPORTED, IA32_MTRRCAP,
    IA32_MTRR_DEF_TYPE, MAX_VARIABLE_MTRRS, MTRR_ENABLE, VARIABLE_VALID,
};
use monad::ept::page::PageLog;
use monad::ept::scan::verify_view;
use monad::ept::view::next_generation;
use monad::ept::walker::EptValidationErrorKind;
use monad::ept::{
    build_base_view, collect_raw_mtrr_state, normalize_mtrrs, walk_view, BackingId,
    BackingMemoryType, BackingPageReference, BackingState, BaseViewCandidate, DecodedEptEntry,
    DraftEdit, DraftId, EptEntryError, EptLeafSize, EptLevel, EptMemoryType, EptPageAllocator,
    EptPageKind, EptPageOwner, EptPageStore, EptPdEntry, EptPdptEntry, EptPermissions, EptPml4Entry, EptPtEntry,
    EptViewManager, GpaRange, GuestPhysicalAddress, HostPhysicalAddress, MappingSource,
    MemoryTypeInterval, NormalizedMemoryMap, PageCount, PageOffset, PhysicalInventory,
    PhysicalRange, PhysicalRangeKind, RawMtrrState, RawVariableMtrr, RequiredPhysicalRange,
    ViewId, ViewImage, WalkResult, PAGE_SIZE_4K,
};
use monad::error::{ErrorCode, ErrorPhase, MonadError, MonadResult};
use monad::exit::msr::is_mtrr_write;

const SIZE_1G: u64 = 0x4000_0000;
const SIZE_2M: u64 = 0x20_0000;
const PHYSICAL_MASK: u64 = 0xffff_ffff_f000;

#[derive(Default)]
struct FakePageStats {
    allocated: Cell<usize>,
    freed: Cell<usize>,
}

struct FakeAllocation {
    entries: Box<[u64; 512]>,
    bytes: Box<[u8; 4096]>,
}

struct FakePageState {
    next_hpa: Cell<u64>,
    allocation_ordinal: Cell<usize>,
    fail_at: Cell<Option<usize>>,
}

#[derive(Clone)]
struct FakePageAllocator {
    state: Rc<FakePageState>,
    stats: Rc<FakePageStats>,
}

impl FakePageAllocator {
    fn new(start_hpa: u64, fail_at: Option<usize>) -> Self {
        Self {
            state: Rc::new(FakePageState {
                next_hpa: Cell::new(start_hpa),
                allocation_ordinal: Cell::new(0),
                fail_at: Cell::new(fail_at),
            }),
            stats: Rc::new(FakePageStats::default()),
        }
    }

    fn fail_at(&self, ordinal: Option<usize>) {
        self.state.fail_at.set(ordinal);
    }

    fn allocation_ordinal(&self) -> usize {
        self.state.allocation_ordinal.get()
    }
}

impl EptPageAllocator for FakePageAllocator {
    type Allocation = FakeAllocation;

    fn table(allocation: Self::Allocation) -> [u64; 512] {
        *allocation.entries
    }

    fn octets(allocation: Self::Allocation) -> [u8; 4096] {
        *allocation.bytes
    }

    fn lies_at(_allocation: Self::Allocation) -> u64 {
        unreachable!("an address for proofs")
    }

    fn asked(&self) -> PageLog<MonadResult<u64>> {
        unreachable!("a log for proofs")
    }

    fn returned(&self) -> PageLog<Self::Allocation> {
        unreachable!("a log for proofs")
    }

    fn refuses(error: MonadError) -> bool {
        error.phase == ErrorPhase::EptBuild
    }

    fn allocate_page(
        &mut self,
        max_physical_bits: u8,
    ) -> MonadResult<(Self::Allocation, HostPhysicalAddress)> {
        let ordinal = self.state.allocation_ordinal.get();
        self.state.allocation_ordinal.set(ordinal + 1);
        if self.state.fail_at.get() == Some(ordinal) {
            return Err(MonadError::new(
                ErrorPhase::EptBuild,
                ErrorCode::EptAllocationFailure,
                ordinal as u64,
            ));
        }
        let hpa = HostPhysicalAddress::for_mapping(
            self.state.next_hpa.get(),
            PAGE_SIZE_4K,
            PAGE_SIZE_4K,
            max_physical_bits,
        )?;
        self.state.next_hpa.set(self.state.next_hpa.get() + PAGE_SIZE_4K);
        self.stats.allocated.set(self.stats.allocated.get() + 1);
        let allocation = FakeAllocation {
            entries: Box::new([0; 512]),
            bytes: Box::new([0; 4096]),
        };
        Ok((allocation, hpa))
    }

    fn entries(allocation: &Self::Allocation) -> &[u64; 512] {
        &allocation.entries
    }

    fn entries_mut(allocation: &mut Self::Allocation) -> &mut [u64; 512] {
        &mut allocation.entries
    }

    fn bytes(allocation: &Self::Allocation) -> &[u8; 4096] {
        &allocation.bytes
    }

    fn bytes_mut(allocation: &mut Self::Allocation) -> &mut [u8; 4096] {
        &mut allocation.bytes
    }

    fn free_page(&mut self, _allocation: Self::Allocation) {
        self.stats.freed.set(self.stats.freed.get() + 1);
    }
}

fn table_hpas(image: &ViewImage<FakePageAllocator>) -> Vec<u64> {
    let pages = image.pages();
    (0..pages.len())
        .filter_map(|index| pages.page_at(index).map(|page| page.0.get()))
        .collect()
}

fn fingerprint(image: &ViewImage<FakePageAllocator>) -> Vec<u64> {
    let mut values = vec![
        image.root().get(),
        u64::from(image.owner().code()),
        u64::from(image.edit_count()),
    ];
    let pages = image.pages();
    for index in 0..pages.len() {
        if let Some((hpa, kind, owner, entries)) = pages.page_at(index) {
            values.push(hpa.get());
            values.push(u64::from(kind.code()));
            values.push(u64::from(owner.code()));
            values.extend_from_slice(entries);
        }
    }
    for entry in image.overrides() {
        values.push(entry.gpa.get());
        values.push(entry.hpa.get());
        values.push(u64::from(entry.permissions.read()));
        values.push(u64::from(entry.permissions.write()));
        values.push(u64::from(entry.permissions.execute()));
        values.push(u64::from(entry.memory_type.code()));
        values.push(entry.backing.map_or(u64::MAX, |value| {
            (u64::from(value.backing_id.slot) << 32) | u64::from(value.page_index)
        }));
    }
    values
}

fn code<T>(result: MonadResult<T>) -> ErrorCode {
    match result {
        Ok(_) => panic!("fixture unexpectedly succeeded"),
        Err(error) => error.code,
    }
}

#[test]
fn address_range_boundaries() {
    let aperture = 0x20_000;
    assert_eq!(code(GpaRange::new(0, 0, aperture)), ErrorCode::InvalidRange);
    assert_eq!(
        code(GpaRange::new(1, PAGE_SIZE_4K, aperture)),
        ErrorCode::MisalignedAddress
    );
    assert_eq!(
        code(GpaRange::new(0, PAGE_SIZE_4K - 1, aperture)),
        ErrorCode::MisalignedAddress
    );
    assert_eq!(
        code(GpaRange::new(!(PAGE_SIZE_4K - 1), PAGE_SIZE_4K, u64::MAX)),
        ErrorCode::AddressOverflow
    );
    assert!(GpaRange::new(aperture - PAGE_SIZE_4K, PAGE_SIZE_4K, aperture).is_ok());
    assert_eq!(
        code(GpaRange::new(aperture, PAGE_SIZE_4K, aperture)),
        ErrorCode::InvalidRange
    );

    let last_48_bit_page = (1u64 << 48) - PAGE_SIZE_4K;
    assert!(
        HostPhysicalAddress::for_mapping(last_48_bit_page, PAGE_SIZE_4K, PAGE_SIZE_4K, 48)
            .is_ok()
    );
    assert_eq!(
        code(HostPhysicalAddress::for_mapping(
            1u64 << 48,
            PAGE_SIZE_4K,
            PAGE_SIZE_4K,
            48
        )),
        ErrorCode::PhysicalAddressTooWide
    );
    assert_eq!(
        code(HostPhysicalAddress::for_mapping(
            0,
            PAGE_SIZE_4K - 1,
            PAGE_SIZE_4K,
            48
        )),
        ErrorCode::MisalignedAddress
    );
    assert_eq!(
        code(HostPhysicalAddress::for_mapping(
            0,
            PAGE_SIZE_4K,
            PAGE_SIZE_4K,
            0
        )),
        ErrorCode::PhysicalAddressTooWide
    );
    assert_eq!(
        code(EptPermissions::new(false, true, false, false)),
        ErrorCode::UnsupportedPermissionCombination
    );
    assert!(!EptPermissions::new(false, false, false, false)
        .expect("no-access is a valid not-present mapping")
        .is_present());
}

fn memory_inventory(highest_end: u64, configured_limit: u64) -> PhysicalInventory {
    PhysicalInventory::ingest(
        &[PhysicalRange {
            start: 0,
            length: highest_end,
            kind: PhysicalRangeKind::Memory,
        }],
        &[RequiredPhysicalRange {
            start: 0,
            length: highest_end,
        }],
        48,
        Some(configured_limit),
    )
    .expect("inventory")
}

fn memory_map(intervals: &[MemoryTypeInterval], aperture: u64) -> NormalizedMemoryMap {
    NormalizedMemoryMap::from_intervals(intervals, aperture).expect("memory map")
}

#[test]
fn aperture_inventory() {
    let mixed = PhysicalInventory::ingest(
        &[
            PhysicalRange {
                start: 0,
                length: 0x8000_0000,
                kind: PhysicalRangeKind::Memory,
            },
            PhysicalRange {
                start: 0xf000_0000,
                length: 0x1000_0000,
                kind: PhysicalRangeKind::Device,
            },
        ],
        &[RequiredPhysicalRange {
            start: 0xf000_0000,
            length: 0x1000_0000,
        }],
        48,
        None,
    )
    .expect("ram and device inventory");
    assert_eq!(mixed.aperture_end(), 0x1_0000_0000);

    let rounded = memory_inventory(SIZE_1G + PAGE_SIZE_4K, SIZE_1G * 2);
    assert_eq!(rounded.aperture_end(), SIZE_1G * 2);
    let capped = memory_inventory(SIZE_1G + PAGE_SIZE_4K, SIZE_1G + SIZE_2M);
    assert_eq!(capped.aperture_end(), SIZE_1G + SIZE_2M);

    let overflow = PhysicalInventory::ingest(
        &[PhysicalRange {
            start: u64::MAX - PAGE_SIZE_4K + 1,
            length: PAGE_SIZE_4K,
            kind: PhysicalRangeKind::Device,
        }],
        &[],
        48,
        None,
    );
    assert_eq!(
        overflow.map_err(|error| error.code),
        Err(ErrorCode::AddressOverflow)
    );

    let missing = PhysicalInventory::ingest(
        &[PhysicalRange {
            start: 0,
            length: SIZE_2M,
            kind: PhysicalRangeKind::Memory,
        }],
        &[RequiredPhysicalRange {
            start: SIZE_2M,
            length: PAGE_SIZE_4K,
        }],
        48,
        None,
    );
    assert_eq!(
        missing.map_err(|error| error.detail),
        Err(ApertureErrorDetail::MissingRequiredRange.code())
    );

    let beyond = PhysicalInventory::ingest(
        &[PhysicalRange {
            start: 0,
            length: SIZE_1G + PAGE_SIZE_4K,
            kind: PhysicalRangeKind::Memory,
        }],
        &[],
        48,
        Some(SIZE_1G),
    );
    assert_eq!(
        beyond.map_err(|error| error.detail),
        Err(ApertureErrorDetail::RequiredRangeBeyondLimit.code())
    );
}

#[test]
fn builder_leaf_choice() {
    let aperture = SIZE_1G * 2;
    let intervals = [
        MemoryTypeInterval {
            start: 0,
            end_exclusive: SIZE_1G,
            memory_type: EptMemoryType::WriteBack,
        },
        MemoryTypeInterval {
            start: SIZE_1G,
            end_exclusive: SIZE_1G + SIZE_2M,
            memory_type: EptMemoryType::Uncacheable,
        },
        MemoryTypeInterval {
            start: SIZE_1G + SIZE_2M,
            end_exclusive: SIZE_1G + SIZE_2M + PAGE_SIZE_4K,
            memory_type: EptMemoryType::WriteThrough,
        },
        MemoryTypeInterval {
            start: SIZE_1G + SIZE_2M + PAGE_SIZE_4K,
            end_exclusive: aperture,
            memory_type: EptMemoryType::WriteBack,
        },
    ];
    let view = build_base_view(
        FakePageAllocator::new(0x1000_0000_0000, None),
        memory_inventory(SIZE_1G + SIZE_2M + PAGE_SIZE_4K, aperture),
        memory_map(&intervals, aperture),
        48,
        true,
        true,
        false,
    )
    .expect("verified base view");

    let probes = [
        (0, EptLeafSize::Size1G),
        (SIZE_1G, EptLeafSize::Size2M),
        (SIZE_1G + SIZE_2M, EptLeafSize::Size4K),
    ];
    for (gpa, expected) in probes {
        match view.walk(GuestPhysicalAddress::from_page_aligned(gpa).expect("gpa")) {
            WalkResult::Mapping(mapping) => assert_eq!(mapping.leaf_size, expected),
            other => panic!("unexpected walk result: {other:?}"),
        }
    }
    match view.walk(
        GuestPhysicalAddress::from_page_aligned(SIZE_1G + SIZE_2M + PAGE_SIZE_4K).expect("gpa"),
    ) {
        WalkResult::Mapping(mapping) => {
            assert_eq!(mapping.leaf_size, EptLeafSize::Size4K)
        }
        other => panic!("memory boundary was not split: {other:?}"),
    }
    assert!(matches!(
        view.walk(GuestPhysicalAddress::from_page_aligned(aperture).expect("aperture")),
        WalkResult::NotPresent { .. }
    ));

    let two_megabyte = build_base_view(
        FakePageAllocator::new(0x1000_0000_0000, None),
        memory_inventory(SIZE_2M, SIZE_2M),
        memory_map(
            &[MemoryTypeInterval {
                start: 0,
                end_exclusive: SIZE_2M,
                memory_type: EptMemoryType::WriteBack,
            }],
            SIZE_2M,
        ),
        48,
        false,
        true,
        false,
    )
    .expect("2m fallback");
    match two_megabyte.walk(GuestPhysicalAddress::from_page_aligned(0).expect("gpa")) {
        WalkResult::Mapping(mapping) => {
            assert_eq!(mapping.leaf_size, EptLeafSize::Size2M)
        }
        other => panic!("2m fallback was not selected: {other:?}"),
    }

    let four_kib = build_base_view(
        FakePageAllocator::new(0x1000_0000_0000, None),
        memory_inventory(PAGE_SIZE_4K, PAGE_SIZE_4K),
        memory_map(
            &[MemoryTypeInterval {
                start: 0,
                end_exclusive: PAGE_SIZE_4K,
                memory_type: EptMemoryType::WriteBack,
            }],
            PAGE_SIZE_4K,
        ),
        48,
        false,
        false,
        false,
    )
    .expect("4k fallback");
    match four_kib.walk(GuestPhysicalAddress::from_page_aligned(0).expect("gpa")) {
        WalkResult::Mapping(mapping) => {
            assert_eq!(mapping.leaf_size, EptLeafSize::Size4K)
        }
        other => panic!("4k fallback was not selected: {other:?}"),
    }
}

#[test]
fn builder_allocation_failure_each_depth() {
    for fail_at in 0..4usize {
        let allocator = FakePageAllocator::new(0x1000_0000_0000, Some(fail_at));
        let stats: Rc<FakePageStats> = Rc::clone(&allocator.stats);
        let result = build_base_view(
            allocator,
            memory_inventory(PAGE_SIZE_4K, PAGE_SIZE_4K),
            memory_map(
                &[MemoryTypeInterval {
                    start: 0,
                    end_exclusive: PAGE_SIZE_4K,
                    memory_type: EptMemoryType::WriteBack,
                }],
                PAGE_SIZE_4K,
            ),
            48,
            false,
            false,
            false,
        );
        assert!(result.is_err(), "allocation {fail_at} must fail");
        assert_eq!(
            stats.allocated.get(),
            stats.freed.get(),
            "allocation {fail_at} leaked a page"
        );
    }
}

fn hpa(value: u64, size: EptLeafSize) -> HostPhysicalAddress {
    HostPhysicalAddress::for_mapping(value, size.bytes(), size.bytes(), 48)
        .expect("valid fixture hpa")
}

#[test]
fn entry_encoding_table() {
    let all = EptPermissions::new(true, true, true, false).expect("rwx");
    let read = EptPermissions::new(true, false, false, false).expect("read");
    let execute = EptPermissions::new(false, false, true, true).expect("execute-only");
    let none = EptPermissions::new(false, false, false, false).expect("not present");

    let table =
        EptPml4Entry::new_table(hpa(0x2000, EptLeafSize::Size4K), 48).expect("table entry");
    assert_eq!(table.raw(), 0x2007);
    assert!(!EptPml4Entry::not_present().is_present());
    for level in [EptLevel::Pml4, EptLevel::Pdpt, EptLevel::Pd] {
        assert!(matches!(
            decode_entry(level, table.raw(), 48, false),
            Ok(DecodedEptEntry::Table { .. })
        ));
    }

    let cases = [
        (
            EptLevel::Pdpt,
            EptPdptEntry::new_1g_leaf(
                hpa(0x4000_0000, EptLeafSize::Size1G),
                all,
                EptMemoryType::WriteBack,
                48,
            )
            .expect("1g leaf")
            .raw(),
            EptLeafSize::Size1G,
        ),
        (
            EptLevel::Pd,
            EptPdEntry::new_2m_leaf(
                hpa(0x20_0000, EptLeafSize::Size2M),
                read,
                EptMemoryType::Uncacheable,
                48,
            )
            .expect("2m leaf")
            .raw(),
            EptLeafSize::Size2M,
        ),
        (
            EptLevel::Pt,
            EptPtEntry::new_4k_leaf(
                hpa(0x3000, EptLeafSize::Size4K),
                execute,
                EptMemoryType::WriteThrough,
                48,
            )
            .expect("4k leaf")
            .raw(),
            EptLeafSize::Size4K,
        ),
    ];
    for (level, raw, expected_size) in cases {
        match decode_entry(level, raw, 48, true).expect("valid leaf") {
            DecodedEptEntry::Leaf { size, .. } => assert_eq!(size, expected_size),
            other => panic!("expected leaf, got {other:?}"),
        }
    }

    assert_eq!(
        EptPtEntry::new_4k_leaf(
            hpa(0x3000, EptLeafSize::Size4K),
            none,
            EptMemoryType::WriteBack,
            48,
        )
        .expect("not present")
        .raw(),
        0
    );
    for bits in 0u8..8 {
        let read = bits & 1 != 0;
        let write = bits & 2 != 0;
        let execute = bits & 4 != 0;
        let expected_without_execute_only = (!write || read) && (!execute || read);
        assert_eq!(
            EptPermissions::new(read, write, execute, false).is_ok(),
            expected_without_execute_only,
            "permissions {bits:#x}"
        );
        assert_eq!(
            EptPermissions::new(read, write, execute, true).is_ok(),
            !write || read,
            "execute-only permissions {bits:#x}"
        );
        let Ok(permissions) = EptPermissions::new(read, write, execute, true) else {
            continue;
        };
        let leaves = [
            (
                EptLevel::Pdpt,
                EptPdptEntry::new_1g_leaf(
                    hpa(0, EptLeafSize::Size1G),
                    permissions,
                    EptMemoryType::WriteBack,
                    48,
                )
                .expect("1g permission case")
                .raw(),
            ),
            (
                EptLevel::Pd,
                EptPdEntry::new_2m_leaf(
                    hpa(0, EptLeafSize::Size2M),
                    permissions,
                    EptMemoryType::WriteBack,
                    48,
                )
                .expect("2m permission case")
                .raw(),
            ),
            (
                EptLevel::Pt,
                EptPtEntry::new_4k_leaf(
                    hpa(0, EptLeafSize::Size4K),
                    permissions,
                    EptMemoryType::WriteBack,
                    48,
                )
                .expect("4k permission case")
                .raw(),
            ),
        ];
        for (level, raw) in leaves {
            match decode_entry(level, raw, 48, true).expect("permission case") {
                DecodedEptEntry::NotPresent if bits == 0 => {}
                DecodedEptEntry::Leaf {
                    permissions: decoded,
                    ..
                } => assert_eq!(decoded, permissions, "leaf permissions {bits:#x}"),
                other => panic!("bad leaf permissions {bits:#x}: {other:?}"),
            }
        }
    }
    assert!(decode_entry(EptLevel::Pt, 0x3004, 48, false).is_err());
    assert!(decode_entry(EptLevel::Pml4, 0x2087, 48, false).is_err());
    assert!(decode_entry(EptLevel::Pt, 0x3087, 48, false).is_err());
    assert!(decode_entry(EptLevel::Pt, 0x301f, 48, false).is_err());
    assert!(decode_entry(EptLevel::Pt, 0x3007 | (1 << 8), 48, false).is_err());
    assert!(decode_entry(EptLevel::Pt, 0x3007 | (1 << 52), 48, false).is_err());
    assert!(EptPdEntry::new_2m_leaf(
        HostPhysicalAddress::from_validated(0x1000),
        all,
        EptMemoryType::WriteBack,
        48,
    )
    .is_err());
    assert!(EptPdptEntry::new_1g_leaf(
        HostPhysicalAddress::from_validated(PAGE_SIZE_4K),
        all,
        EptMemoryType::WriteBack,
        48,
    )
    .is_err());
    assert!(EptPtEntry::new_4k_leaf(
        HostPhysicalAddress::from_validated(1),
        all,
        EptMemoryType::WriteBack,
        48,
    )
    .is_err());
    assert!(EptPtEntry::new_4k_leaf(
        HostPhysicalAddress::from_validated(1 << 48),
        all,
        EptMemoryType::WriteBack,
        48,
    )
    .is_err());
    assert!(EptPtEntry::new_4k_leaf(
        HostPhysicalAddress::from_validated(1),
        none,
        EptMemoryType::WriteBack,
        48,
    )
    .is_err());
    assert!(EptPtEntry::new_4k_leaf(
        HostPhysicalAddress::from_validated((1 << 48) - PAGE_SIZE_4K),
        all,
        EptMemoryType::WriteBack,
        48,
    )
    .is_ok());
    assert_eq!(
        decode_entry(
            EptLevel::Pd,
            (1 << 21) | 0x80 | 0x7 | (u64::from(EptMemoryType::WriteBack.code()) << 3),
            21,
            false,
        ),
        Err(EptEntryError::PhysicalAddressTooWide)
    );
}

const ONE_GIB: u64 = 0x4000_0000;

fn manager_with(
    session_nonce: u64,
    unrestricted_edits: bool,
) -> (
    EptViewManager<FakePageAllocator>,
    FakePageAllocator,
    Rc<FakePageStats>,
) {
    let allocator = FakePageAllocator::new(0x1000_0000, None);
    let stats = Rc::clone(&allocator.stats);
    let inventory = PhysicalInventory::ingest(
        &[PhysicalRange {
            start: 0,
            length: ONE_GIB,
            kind: PhysicalRangeKind::Memory,
        }],
        &[],
        48,
        Some(ONE_GIB),
    )
    .expect("inventory");
    let memory = NormalizedMemoryMap::from_intervals(
        &[MemoryTypeInterval {
            start: 0,
            end_exclusive: ONE_GIB,
            memory_type: EptMemoryType::WriteBack,
        }],
        ONE_GIB,
    )
    .expect("memory map");
    let base = build_base_view(allocator.clone(), inventory, memory, 48, true, true, false)
        .expect("base");
    (
        EptViewManager::new(base, allocator.clone(), session_nonce, 48, unrestricted_edits).expect("manager"),
        allocator,
        stats,
    )
}

fn manager() -> (EptViewManager<FakePageAllocator>, FakePageAllocator, Rc<FakePageStats>) {
    manager_with(0x55aa, true)
}

fn base_id() -> ViewId {
    ViewId {
        slot: 0,
        reserved: 0,
        generation: 0x55aa,
    }
}

fn all() -> EptPermissions {
    EptPermissions::new(true, true, true, false).expect("rwx")
}

fn read() -> EptPermissions {
    EptPermissions::new(true, false, false, false).expect("read")
}

#[test]
fn deep_clone_has_no_table_aliases() {
    let (mut manager, _, _) = manager();
    let draft = manager.create_draft(base_id()).expect("draft");
    let base = table_hpas(manager.published_view(base_id()).expect("base").image());
    let cloned = table_hpas(&manager.draft(draft).expect("draft").image);
    assert!(base.iter().all(|hpa| !cloned.contains(hpa)));
    assert_eq!(base.len(), cloned.len());
}

#[test]
fn clone_mapping_equivalence() {
    let (mut manager, _, _) = manager();
    let draft = manager.create_draft(base_id()).expect("draft");
    for address in [0, 0x1000, 0x20_0000, ONE_GIB - 0x1000] {
        let gpa = GuestPhysicalAddress::from_page_aligned(address).expect("gpa");
        assert_eq!(
            manager.published_view(base_id()).expect("base").walk(gpa),
            manager.draft(draft).expect("draft").image.walk(gpa)
        );
    }
}

#[test]
fn split_1g_to_2m_equivalence() {
    let (mut manager, _, _) = manager();
    let draft = manager.create_draft(base_id()).expect("draft");
    manager
        .apply_batch(
            draft,
            &[DraftEdit::SetPermissions {
                range: GpaRange::new(0, 0x1000, ONE_GIB).expect("range"),
                permissions: all(),
            }],
        )
        .expect("split");
    for index in 0..512u64 {
        let gpa = GuestPhysicalAddress::from_page_aligned(index * 0x20_0000).expect("gpa");
        let WalkResult::Mapping(mapping) = manager.draft(draft).expect("draft").image.walk(gpa)
        else {
            panic!("mapping")
        };
        assert_eq!(mapping.hpa_page.get(), gpa.get());
        assert_eq!(mapping.memory_type, EptMemoryType::WriteBack);
    }
}

#[test]
fn split_2m_to_4k_equivalence() {
    let (mut manager, _, _) = manager();
    let draft = manager.create_draft(base_id()).expect("draft");
    manager
        .apply_batch(
            draft,
            &[DraftEdit::SetPermissions {
                range: GpaRange::new(0, 0x1000, ONE_GIB).expect("range"),
                permissions: all(),
            }],
        )
        .expect("split");
    for index in 0..512u64 {
        let gpa = GuestPhysicalAddress::from_page_aligned(index * 0x1000).expect("gpa");
        let WalkResult::Mapping(mapping) = manager.draft(draft).expect("draft").image.walk(gpa)
        else {
            panic!("mapping")
        };
        assert_eq!(mapping.hpa_page.get(), gpa.get());
        assert_eq!(mapping.permissions, all());
    }
}

#[test]
fn edit_range_crosses_leaf_boundaries() {
    let (mut manager, _, _) = manager();
    let draft = manager.create_draft(base_id()).expect("draft");
    let backing = manager.allocate_backing(1, false).expect("backing");
    let start = 0x20_0000 - 0x1000;
    manager
        .apply_batch(
            draft,
            &[
                DraftEdit::SetPermissions {
                    range: GpaRange::new(start, 0x3000, ONE_GIB).expect("range"),
                    permissions: read(),
                },
                DraftEdit::MapBacking4K {
                    gpa: GuestPhysicalAddress::from_page_aligned(0x20_0000).expect("gpa"),
                    backing: BackingPageReference {
                        backing_id: backing,
                        page_index: 0,
                    },
                    permissions: read(),
                    memory_type: BackingMemoryType::WriteBack,
                },
                DraftEdit::RestoreFromBase {
                    range: GpaRange::new(start, 0x1000, ONE_GIB).expect("range"),
                },
            ],
        )
        .expect("batch");
    let restored = GuestPhysicalAddress::from_page_aligned(start).expect("gpa");
    let WalkResult::Mapping(mapping) =
        manager.draft(draft).expect("draft").image.walk(restored)
    else {
        panic!("mapping")
    };
    assert_eq!(mapping.permissions, all());
    assert_eq!(manager.backing_counts(backing).expect("counts").0, 1);
}

#[test]
fn batch_failure_is_atomic() {
    let (mut manager, allocator, _) = manager();
    let draft = manager.create_draft(base_id()).expect("draft");
    let before = fingerprint(&manager.draft(draft).expect("draft").image);
    let operation = DraftEdit::MapBacking4K {
        gpa: GuestPhysicalAddress::from_page_aligned(0).expect("gpa"),
        backing: BackingPageReference {
            backing_id: BackingId {
                slot: 0,
                generation: 99,
                session_nonce: 0x55aa,
            },
            page_index: 0,
        },
        permissions: read(),
        memory_type: BackingMemoryType::WriteBack,
    };
    assert_eq!(
        manager
            .apply_batch(draft, &[operation])
            .expect_err("stale")
            .operation_index,
        0
    );
    assert_eq!(
        fingerprint(&manager.draft(draft).expect("draft").image),
        before
    );
    allocator.fail_at(Some(allocator.allocation_ordinal()));
    assert!(manager
        .apply_batch(
            draft,
            &[DraftEdit::SetPermissions {
                range: GpaRange::new(0, 0x1000, ONE_GIB).expect("range"),
                permissions: read(),
            }],
        )
        .is_err());
    assert_eq!(
        fingerprint(&manager.draft(draft).expect("draft").image),
        before
    );
}

#[test]
fn stale_wrong_session_and_capacity() {
    let (mut manager, _, _) = manager();
    let first = manager.create_draft(base_id()).expect("first");
    let second = manager.create_draft(base_id()).expect("second");
    assert_eq!(
        manager.create_draft(base_id()).expect_err("capacity").code,
        ErrorCode::DraftCapacity
    );
    let mut wrong = first;
    wrong.session_nonce = 7;
    assert_eq!(
        manager.discard_draft(wrong).expect_err("session").code,
        ErrorCode::WrongSession
    );
    manager.discard_draft(first).expect("discard");
    assert_eq!(
        manager.discard_draft(first).expect_err("stale").code,
        ErrorCode::StaleHandle
    );
    manager.discard_draft(second).expect("discard");
}

#[test]
fn backing_lifetime() {
    let (mut manager, _, _) = manager();
    let immutable = manager.allocate_backing(1, true).expect("immutable");
    assert_eq!(
        manager.backing_state(immutable).expect("state"),
        BackingState::Immutable
    );
    assert_eq!(
        manager
            .write_backing(immutable, 0, &[1])
            .expect_err("immutable write")
            .code,
        ErrorCode::WrongObjectState
    );
    manager.free_backing(immutable).expect("free immutable");
    let backing = manager.allocate_backing(1, false).expect("backing");
    assert!(manager
        .backing_page(backing, 0)
        .expect("page")
        .iter()
        .all(|byte| *byte == 0));
    assert!(manager.write_backing(backing, 4095, &[1, 2]).is_err());
    manager.write_backing(backing, 0, &[1, 2]).expect("write");
    let draft = manager.create_draft(base_id()).expect("draft");
    manager
        .apply_batch(
            draft,
            &[DraftEdit::MapBacking4K {
                gpa: GuestPhysicalAddress::from_page_aligned(0).expect("gpa"),
                backing: BackingPageReference {
                    backing_id: backing,
                    page_index: 0,
                },
                permissions: read(),
                memory_type: BackingMemoryType::WriteBack,
            }],
        )
        .expect("map");
    assert_eq!(
        manager.free_backing(backing).expect_err("referenced").code,
        ErrorCode::BackingStillReferenced
    );
    let published = manager.publish_draft(draft).expect("publish");
    assert_eq!(
        manager.backing_state(backing).expect("state"),
        BackingState::PublishedPinned
    );
    assert_eq!(
        manager
            .write_backing(backing, 0, &[3])
            .expect_err("immutable")
            .code,
        ErrorCode::WrongObjectState
    );
    assert!(matches!(
        manager
            .walk(
                published,
                GuestPhysicalAddress::from_page_aligned(0).expect("gpa")
            )
            .expect("walk"),
        WalkResult::Mapping(_)
    ));
}

#[test]
fn published_mutation_impossible() {
    let (mut manager, _, _) = manager();
    let draft = manager.create_draft(base_id()).expect("draft");
    let published = manager.publish_draft(draft).expect("publish");
    assert_eq!(
        manager.metadata(published).expect("metadata").source,
        base_id()
    );
}
#[test]
fn registered_target_ownership_precedes_any_batch_mutation() {
    let (mut manager, _, _) = manager_with(0x55aa, false);
    let target = manager
        .allocate_backing(1, false)
        .expect("target allocation");
    let gpa = manager
        .register_target(target, 0)
        .expect("register owned page");
    assert_eq!(
        manager
            .register_target(target, 0)
            .expect("idempotent registration"),
        gpa
    );
    assert_eq!(
        manager
            .free_backing(target)
            .expect_err("target remains owned")
            .code,
        ErrorCode::BackingStillReferenced
    );
    let base = manager.base_id();
    let draft = manager.create_draft(base).expect("draft");
    let overflowing = DraftEdit::MapBacking4K {
        gpa: GuestPhysicalAddress::from_page_aligned(!0xfffu64).expect("aligned"),
        backing: BackingPageReference {
            backing_id: target,
            page_index: 0,
        },
        permissions: all(),
        memory_type: BackingMemoryType::WriteBack,
    };
    assert_eq!(
        manager
            .apply_batch(draft, &[overflowing])
            .expect_err("overflow")
            .code,
        ErrorCode::AddressOverflow
    );
    let before = manager.walk_draft(draft, gpa).expect("before");
    let edit = DraftEdit::SetPermissions {
        range: GpaRange::new(gpa.get(), 4096, ONE_GIB).expect("range"),
        permissions: EptPermissions::new(true, false, false, false)
            .expect("permissions"),
    };
    let unowned = DraftEdit::SetPermissions {
        range: GpaRange::new(0, 4096, ONE_GIB).expect("range"),
        permissions: all(),
    };
    assert_eq!(
        manager
            .apply_batch(draft, &[edit, unowned])
            .expect_err("unowned footprint")
            .operation_index,
        1
    );
    assert_eq!(
        manager.walk_draft(draft, gpa).expect("atomic failure"),
        before
    );
    manager
        .apply_batch(draft, &[edit])
        .expect("owned intervention");
    assert_ne!(manager.walk_draft(draft, gpa).expect("after"), before);
    manager
        .write_backing(target, 0, &[1])
        .expect("target remains mutable before publication");
}

#[test]
fn handles_from_another_instance_cannot_select_replacement_objects() {
    let (mut old, _, _) = manager();
    let old_base = old.base_id();
    let old_draft = old.create_draft(old_base).expect("old draft");
    let old_backing = old.allocate_backing(1, false).expect("old backing");
    let old_view = old.publish_draft(old_draft).expect("old view");
    // same slots and generations, new instance.
    let (mut next, _, _) = manager_with(0x55ab, true);
    let next_base = next.base_id();
    let draft = next
        .create_draft(next_base)
        .expect("replacement draft");
    let backing = next
        .allocate_backing(1, false)
        .expect("replacement backing");
    let view = next.publish_draft(draft).expect("replacement view");
    assert_eq!(old_backing.slot, backing.slot);
    assert_eq!(old_view.slot, view.slot);
    assert!(next.published_view(old_base).is_err());
    assert!(next.published_view(old_view).is_err());
    assert!(next.discard_draft(old_draft).is_err());
    assert!(next.free_backing(old_backing).is_err());
}

#[test]
fn cached_backing_rejects_uncacheable_or_uncovered_physical_aliases() {
    let (mut manager, _, _) = manager();
    let backing = manager.allocate_backing(1, false).expect("backing");
    let base = manager.base_id();
    let draft = manager.create_draft(base).expect("draft");
    let gpa = GuestPhysicalAddress::from_page_aligned(0x2000).expect("gpa");
    let reference = BackingPageReference {
        backing_id: backing,
        page_index: 0,
    };
    let edit = DraftEdit::MapBacking4K {
        gpa,
        backing: reference,
        permissions: all(),
        memory_type: BackingMemoryType::Uncacheable,
    };
    assert!(manager.apply_batch(draft, &[edit]).is_err());
    // Exercise the actual candidate's physical-type lookup with an HPA outside
    // its map; syntactically valid WB must not substitute for physical evidence.
    let mut image = manager
        .draft(draft)
        .expect("draft")
        .image
        .try_clone_as(EptPageOwner::Draft)
        .expect("candidate");
    let wb = DraftEdit::MapBacking4K {
        gpa,
        backing: reference,
        permissions: all(),
        memory_type: BackingMemoryType::WriteBack,
    };
    assert!(image
        .apply_edit(wb, |_reference: BackingPageReference| HostPhysicalAddress::for_mapping(
            ONE_GIB, 4096, 4096, 48
        ))
        .is_err());
}

fn repeated_type(memory_type: EptMemoryType) -> u64 {
    u64::from_le_bytes([memory_type.code(); 8])
}

fn raw(variable: &[RawVariableMtrr]) -> RawMtrrState {
    RawMtrrState {
        capability: variable.len() as u64,
        default_type: MTRR_ENABLE | u64::from(EptMemoryType::WriteBack.code()),
        fixed: [repeated_type(EptMemoryType::WriteBack); FIXED_REGISTER_COUNT],
        variable: variable.to_vec(),
        max_physical_bits: 48,
    }
}

fn variable(start: u64, size: u64, memory_type: EptMemoryType) -> RawVariableMtrr {
    let address_mask = PHYSICAL_MASK;
    RawVariableMtrr {
        base: start | u64::from(memory_type.code()),
        mask: (address_mask & !(size - 1)) | VARIABLE_VALID,
    }
}

#[test]
fn mtrr_fixed_precedence() {
    let mut state = raw(&[variable(0, 0x20_0000, EptMemoryType::WriteCombining)]);
    state.capability |= FIXED_SUPPORTED;
    state.default_type |= FIXED_ENABLE;
    state.fixed[2] = repeated_type(EptMemoryType::Uncacheable);
    let map = normalize_mtrrs(&state, 0x20_0000).expect("normalized map");
    assert_eq!(
        map.memory_type_at(0xa_0000),
        Some(EptMemoryType::Uncacheable)
    );
    assert_eq!(
        map.memory_type_at(0x10_0000),
        Some(EptMemoryType::WriteCombining)
    );
}

#[test]
fn mtrr_uc_dominance() {
    let state = raw(&[
        variable(0, 0x40_0000, EptMemoryType::WriteBack),
        variable(0x20_0000, 0x20_0000, EptMemoryType::Uncacheable),
    ]);
    let map = normalize_mtrrs(&state, 0x40_0000).expect("uc overlap");
    assert_eq!(
        map.memory_type_at(0x30_0000),
        Some(EptMemoryType::Uncacheable)
    );
}

#[test]
fn mtrr_wb_wt() {
    let state = raw(&[
        variable(0, 0x40_0000, EptMemoryType::WriteBack),
        variable(0x20_0000, 0x20_0000, EptMemoryType::WriteThrough),
    ]);
    let map = normalize_mtrrs(&state, 0x40_0000).expect("wb and wt overlap");
    assert_eq!(
        map.memory_type_at(0x30_0000),
        Some(EptMemoryType::WriteThrough)
    );
}

#[test]
fn mtrr_unsupported_mix() {
    let state = raw(&[
        variable(0, 0x40_0000, EptMemoryType::WriteBack),
        variable(0x20_0000, 0x20_0000, EptMemoryType::WriteCombining),
    ]);
    let error = normalize_mtrrs(&state, 0x40_0000).expect_err("unsupported overlap");
    assert_eq!(error.code, ErrorCode::UnsupportedMtrrCombination);
    assert_eq!(error.detail, MtrrErrorDetail::UnsupportedOverlap.code());
}

#[test]
fn mtrr_exact_cover() {
    let map = normalize_mtrrs(&raw(&[]), 0x80_0000).expect("default cover");
    assert_eq!(
        map.intervals(),
        &[MemoryTypeInterval {
            start: 0,
            end_exclusive: 0x80_0000,
            memory_type: EptMemoryType::WriteBack,
        }]
    );

    let mut disabled = raw(&[]);
    disabled.default_type &= !MTRR_ENABLE;
    assert!(normalize_mtrrs(&disabled, 0x80_0000).is_err());

    let malformed = raw(&[RawVariableMtrr {
        base: 0x10_0000 | u64::from(EptMemoryType::WriteBack.code()),
        mask: (PHYSICAL_MASK & !(0x20_0000 - 1)) | VARIABLE_VALID,
    }]);
    assert!(normalize_mtrrs(&malformed, 0x80_0000).is_err());

    let mut reserved_default = raw(&[]);
    reserved_default.default_type |= 1 << 63;
    let error =
        normalize_mtrrs(&reserved_default, 0x80_0000).expect_err("reserved default-type bits");
    assert_eq!(error.detail, MtrrErrorDetail::InvalidDefaultType.code());

    let first = MemoryTypeInterval {
        start: 0,
        end_exclusive: PAGE_SIZE_4K,
        memory_type: EptMemoryType::WriteBack,
    };
    let gap = MemoryTypeInterval {
        start: PAGE_SIZE_4K * 2,
        end_exclusive: PAGE_SIZE_4K * 3,
        memory_type: EptMemoryType::Uncacheable,
    };
    assert!(NormalizedMemoryMap::from_intervals(&[first, gap], PAGE_SIZE_4K * 3).is_err());
    let overlap = MemoryTypeInterval {
        start: 0,
        end_exclusive: PAGE_SIZE_4K * 2,
        memory_type: EptMemoryType::Uncacheable,
    };
    assert!(NormalizedMemoryMap::from_intervals(&[overlap, first], PAGE_SIZE_4K * 2).is_err());
    let same = MemoryTypeInterval {
        start: PAGE_SIZE_4K,
        end_exclusive: PAGE_SIZE_4K * 2,
        memory_type: EptMemoryType::WriteBack,
    };
    assert!(NormalizedMemoryMap::from_intervals(&[first, same], PAGE_SIZE_4K * 2).is_err());
}
#[test]
fn launch_snapshot_and_interception_cover_every_admitted_register() {
    for count in [0u8, 4, 8, 10, MAX_VARIABLE_MTRRS] {
        let state = RawMtrrState {
            capability: FIXED_SUPPORTED | u64::from(count),
            default_type: 0xc06,
            fixed: [0; FIXED_REGISTER_COUNT],
            variable: vec![RawVariableMtrr { base: 0, mask: 0 }; usize::from(count)],
            max_physical_bits: 48,
        };
        let read = |msr: u32| match msr {
            IA32_MTRRCAP => state.capability,
            IA32_MTRR_DEF_TYPE => state.default_type,
            _ => 0,
        };
        assert!(state.matches_registers(read));
        for msr in (0x200..0x200 + u32::from(count) * 2).chain([
            0x250, 0x258, 0x259, 0x268, 0x269, 0x26a, 0x26b, 0x26c, 0x26d, 0x26e, 0x26f, 0x2ff,
        ]) {
            assert!(is_mtrr_write(msr, count));
            assert!(!state.matches_registers(|field: u32| read(field) ^ u64::from(field == msr)));
        }
        assert!(
            !is_mtrr_write(0x200 + u32::from(count) * 2, count)
                || count == MAX_VARIABLE_MTRRS
        );
    }
}

#[test]
fn generation_and_reserved_validation() {
    assert_eq!(
        ViewId {
            slot: 0,
            reserved: 1,
            generation: 1,
        }
        .validate()
        .expect_err("reserved view field")
        .code,
        ErrorCode::UnsupportedFlags
    );
    assert_eq!(
        ViewId {
            slot: 0,
            reserved: 0,
            generation: 0,
        }
        .validate()
        .expect_err("zero view generation")
        .code,
        ErrorCode::StaleHandle
    );
    assert_eq!(
        DraftId {
            slot: 0,
            reserved: 0,
            generation: 1,
            session_nonce: 7,
        }
        .validate(8)
        .expect_err("wrong session")
        .code,
        ErrorCode::WrongSession
    );
    assert_eq!(
        next_generation(u64::MAX, ErrorPhase::DraftEdit)
            .expect_err("generation overflow")
            .code,
        ErrorCode::GenerationOverflow
    );
}

fn candidate() -> (BaseViewCandidate<FakePageAllocator>, Rc<FakePageStats>) {
    let allocator = FakePageAllocator::new(0x1000_0000_0000, None);
    let stats = Rc::clone(&allocator.stats);
    let inventory = PhysicalInventory::ingest(
        &[PhysicalRange {
            start: 0,
            length: PAGE_SIZE_4K,
            kind: PhysicalRangeKind::Memory,
        }],
        &[RequiredPhysicalRange {
            start: 0,
            length: PAGE_SIZE_4K,
        }],
        48,
        Some(PAGE_SIZE_4K),
    )
    .expect("inventory");
    let map = NormalizedMemoryMap::from_intervals(
        &[MemoryTypeInterval {
            start: 0,
            end_exclusive: PAGE_SIZE_4K,
            memory_type: EptMemoryType::WriteBack,
        }],
        PAGE_SIZE_4K,
    )
    .expect("memory map");
    (
        build_candidate(
            allocator, inventory, map, 48, false, false, false,
        )
        .expect("candidate")
        .0,
        stats,
    )
}

fn walk_candidate(
    view: &BaseViewCandidate<FakePageAllocator>,
    gpa: GuestPhysicalAddress,
) -> WalkResult {
    walk_view(
        &view.pages,
        view.root,
        view.max_physical_bits,
        view.execute_only_supported,
        EptPageOwner::BaseBuild,
        gpa,
    )
}

fn child(raw: u64) -> HostPhysicalAddress {
    HostPhysicalAddress::from_validated(raw & 0x000f_ffff_ffff_f000)
}

fn corrupt_root(raw: u64) -> EptValidationErrorKind {
    let (mut view, _) = candidate();
    let root = view.root;
    view.pages.write_entry(root, 0, raw)
        .expect("write corruption");
    match walk_candidate(
        &view,
        GuestPhysicalAddress::from_page_aligned(0).expect("gpa"),
    ) {
        WalkResult::Invalid(error) => error.kind,
        result => panic!("corruption was accepted: {result:?}"),
    }
}

fn verification_kind(view: &BaseViewCandidate<FakePageAllocator>) -> EptValidationErrorKind {
    let error = match verify_view(view) {
        Ok(_) => panic!("corrupt view must fail"),
        Err(error) => error,
    };
    let found = error.detail & 0xff;
    for kind in [
        EptValidationErrorKind::MappingGapOrOverlap,
        EptValidationErrorKind::NonIdentityMapping,
        EptValidationErrorKind::MemoryTypeMismatch,
        EptValidationErrorKind::PermissionMismatch,
        EptValidationErrorKind::UnreachableOwnedTable,
    ] {
        if found == kind.code() {
            return kind;
        }
    }
    panic!("unexpected verification error {found}")
}

#[test]
fn walker_rejects_corruption() {
    let (view, _) = candidate();
    let root_raw = view.pages.read_entry(view.root, 0).expect("root entry");
    assert_eq!(
        corrupt_root(root_raw | (1 << 8)),
        EptValidationErrorKind::InvalidEntry
    );
    assert_eq!(
        corrupt_root(root_raw | (1 << 7)),
        EptValidationErrorKind::InvalidEntry
    );
    assert_eq!(
        corrupt_root((root_raw & !1) | 2),
        EptValidationErrorKind::InvalidEntry
    );
    assert_eq!(
        corrupt_root((0x2000_0000_0000u64) | 0x7),
        EptValidationErrorKind::MissingOwnedTable
    );
    assert_eq!(
        corrupt_root(view.root.get() | 0x7),
        EptValidationErrorKind::CycleOrSharedTable
    );

    let (mut view, _) = candidate();
    let root_raw = view.pages.read_entry(view.root, 0).expect("root entry");
    let root = view.root;
    view.pages.write_entry(root, 0, (root_raw & !0x7) | 1)
        .expect("restrict table permissions");
    match walk_candidate(
        &view,
        GuestPhysicalAddress::from_page_aligned(0).expect("gpa"),
    ) {
        WalkResult::Mapping(mapping) => {
            assert!(mapping.permissions.read());
            assert!(!mapping.permissions.write());
            assert!(!mapping.permissions.execute());
        }
        result => panic!("restricted table was not walked: {result:?}"),
    }
    assert_eq!(
        verification_kind(&view),
        EptValidationErrorKind::PermissionMismatch
    );

    for (raw, expected) in [
        (0, EptValidationErrorKind::MappingGapOrOverlap),
        (
            0x1000 | 0x7 | (u64::from(EptMemoryType::WriteBack.code()) << 3),
            EptValidationErrorKind::NonIdentityMapping,
        ),
        (
            0x7 | (u64::from(EptMemoryType::WriteThrough.code()) << 3),
            EptValidationErrorKind::MemoryTypeMismatch,
        ),
    ] {
        let (mut view, stats) = candidate();
        let pdpt = child(view.pages.read_entry(view.root, 0).expect("pml4e"));
        let pd = child(view.pages.read_entry(pdpt, 0).expect("pdpte"));
        let pt = child(view.pages.read_entry(pd, 0).expect("pde"));
        view.pages.write_entry(pt, 0, raw).expect("corrupt leaf");
        assert_eq!(verification_kind(&view), expected);
        view.pages.release();
        assert_eq!(stats.allocated.get(), stats.freed.get());
    }

    let (mut view, _) = candidate();
    let pdpt = child(view.pages.read_entry(view.root, 0).expect("pml4e"));
    let pd = child(view.pages.read_entry(pdpt, 0).expect("pdpte"));
    let pt = child(view.pages.read_entry(pd, 0).expect("pde"));
    view.pages
        .write_entry(pt, 0, 0x7 | (2 << 3))
        .expect("invalid memory type");
    match walk_candidate(
        &view,
        GuestPhysicalAddress::from_page_aligned(0).expect("gpa"),
    ) {
        WalkResult::Invalid(error) => {
            assert_eq!(error.kind, EptValidationErrorKind::InvalidEntry);
            assert_eq!(error.detail, EptEntryError::InvalidMemoryType.code());
        }
        result => panic!("invalid memory type was accepted: {result:?}"),
    }

    let (mut view, stats) = candidate();
    let pdpt = child(view.pages.read_entry(view.root, 0).expect("pml4e"));
    let pd = child(view.pages.read_entry(pdpt, 0).expect("pdpte"));
    view.pages
        .write_entry(pd, 0, 0x1000 | 0x80 | 0x7 | (6 << 3))
        .expect("misaligned 2m leaf");
    match walk_candidate(
        &view,
        GuestPhysicalAddress::from_page_aligned(0).expect("gpa"),
    ) {
        WalkResult::Invalid(error) => {
            assert_eq!(error.kind, EptValidationErrorKind::InvalidEntry);
            assert_eq!(error.detail, EptEntryError::MisalignedAddress.code());
        }
        result => panic!("misaligned leaf was accepted: {result:?}"),
    }
    view.pages.release();
    assert_eq!(stats.allocated.get(), stats.freed.get());

    let (mut view, stats) = candidate();
    view.pages
        .allocate(EptPageKind::Pt, EptPageOwner::BaseBuild)
        .expect("unreachable page");
    assert_eq!(
        verification_kind(&view),
        EptValidationErrorKind::UnreachableOwnedTable
    );
    view.pages.release();
    assert_eq!(stats.allocated.get(), stats.freed.get());
}

fn next_random(state: &mut u64) -> u64 {
    *state = state
        .wrapping_mul(6_364_136_223_846_793_005)
        .wrapping_add(1_442_695_040_888_963_407);
    *state
}

#[test]
fn builder_matches_4k_oracle() {
    for seed in 0x4d33_0000u64..0x4d33_0020 {
        let mut random = seed;
        let pages = next_random(&mut random) % 2048 + 1;
        let aperture = pages * PAGE_SIZE_4K;
        let mut intervals = Vec::new();
        let mut page = 0u64;
        let mut previous = EptMemoryType::WriteBack;
        while page < pages {
            let run = (next_random(&mut random) % 64 + 1).min(pages - page);
            let mut memory_type = match next_random(&mut random) % 4 {
                0 => EptMemoryType::WriteBack,
                1 => EptMemoryType::WriteThrough,
                2 => EptMemoryType::Uncacheable,
                _ => EptMemoryType::WriteCombining,
            };
            if memory_type == previous {
                memory_type = EptMemoryType::WriteProtected;
            }
            intervals.push(MemoryTypeInterval {
                start: page * PAGE_SIZE_4K,
                end_exclusive: (page + run) * PAGE_SIZE_4K,
                memory_type,
            });
            previous = memory_type;
            page += run;
        }
        let allocator = FakePageAllocator::new(0x1000_0000_0000, None);
        let stats = Rc::clone(&allocator.stats);
        let inventory = PhysicalInventory::ingest(
            &[PhysicalRange {
                start: 0,
                length: aperture,
                kind: PhysicalRangeKind::Memory,
            }],
            &[],
            48,
            Some(aperture),
        )
        .expect("inventory");
        let map = NormalizedMemoryMap::from_intervals(&intervals, aperture)
            .expect("normalized oracle");
        let view = build_base_view(
            allocator, inventory, map, 48, true, true, false,
        )
        .expect("verified view");
        for page in 0..pages {
            let address = page * PAGE_SIZE_4K;
            let expected = intervals
                .iter()
                .find(|interval| interval.start <= address && address < interval.end_exclusive)
                .map(|interval| interval.memory_type)
                .expect("oracle interval");
            match view
                .walk(GuestPhysicalAddress::from_page_aligned(address).expect("page address"))
            {
                WalkResult::Mapping(mapping) => {
                    assert_eq!(mapping.hpa_page.get(), address, "seed {seed:#x}");
                    assert_eq!(mapping.memory_type, expected, "seed {seed:#x}");
                }
                result => panic!("seed {seed:#x}, page {page}: {result:?}"),
            }
        }
        view.release();
        assert_eq!(
            stats.allocated.get(),
            stats.freed.get(),
            "seed {seed:#x} leaked pages"
        );
    }
}

#[test]
fn page_counts_and_offsets_are_bounded() {
    assert_eq!(PageCount::new(3).expect("count").get(), 3);
    assert_eq!(code(PageCount::new(0)), ErrorCode::InvalidRange);
    assert_eq!(PageOffset::new(4095).expect("offset").get(), 4095);
    assert_eq!(code(PageOffset::new(4096)), ErrorCode::InvalidRange);
    assert_eq!(
        code(GuestPhysicalAddress::from_page_aligned(0x1001)),
        ErrorCode::MisalignedAddress
    );
}

#[test]
fn registers_are_collected_in_pairs() {
    let read = |register: u32| match register {
        IA32_MTRRCAP => FIXED_SUPPORTED | 2,
        IA32_MTRR_DEF_TYPE => MTRR_ENABLE | 6,
        other => u64::from(other),
    };
    let state = match collect_raw_mtrr_state(48, read) {
        Ok(state) => state,
        Err(_) => panic!("collected"),
    };
    assert_eq!(state.variable.len(), 2);
    assert_eq!((state.variable[1].base, state.variable[1].mask), (0x202, 0x203));
    assert_eq!(state.fixed[0], 0x250);
    assert_eq!(state.fixed[10], 0x26f);
    let crowded = |register: u32| match register {
        IA32_MTRRCAP => u64::from(MAX_VARIABLE_MTRRS) + 1,
        _ => 0,
    };
    assert!(collect_raw_mtrr_state(48, crowded).is_err());
}

#[test]
fn a_mapped_backing_is_told_by_a_walk() {
    let (mut manager, _, _) = manager();
    let draft = manager.create_draft(base_id()).expect("draft");
    let backing = manager.allocate_backing(2, false).expect("backing");
    let gpa = GuestPhysicalAddress::from_page_aligned(0x5000).expect("gpa");
    let reference = BackingPageReference { backing_id: backing, page_index: 1 };
    let mapped = DraftEdit::MapBacking4K {
        gpa,
        backing: reference,
        permissions: read(),
        memory_type: BackingMemoryType::WriteBack,
    };
    manager.apply_batch(draft, &[mapped]).expect("mapped");
    let WalkResult::Mapping(mapping) = manager.walk_draft(draft, gpa).expect("walk") else {
        panic!("mapping")
    };
    assert_eq!(mapping.source, MappingSource::Backing(reference));
    assert_eq!(mapping.permissions, read());
    let published = manager.publish_draft(draft).expect("publish");
    let WalkResult::Mapping(kept) = manager.walk(published, gpa).expect("walk") else {
        panic!("mapping")
    };
    assert_eq!(kept, mapping);
    let WalkResult::Mapping(untouched) = manager.walk(base_id(), gpa).expect("walk") else {
        panic!("mapping")
    };
    assert_eq!(untouched.hpa_page.get(), 0x5000);
    assert_eq!(manager.published_count(), 2);
    assert_eq!(manager.published_eptp(published).expect("pointer") & 0xfff, 0x1e);
    assert_ne!(manager.published_eptp(published), manager.published_eptp(base_id()));
    assert_eq!(manager.backing_counts(backing), Some((0, 1, BackingState::PublishedPinned)));
    assert_eq!(
        code(manager.free_backing(backing)),
        ErrorCode::BackingStillReferenced
    );
    assert_eq!(code(manager.walk_draft(draft, gpa)), ErrorCode::StaleHandle);
}

#[test]
fn pages_come_back_when_a_manager_goes() {
    let (mut manager, _, stats) = manager();
    let draft = manager.create_draft(base_id()).expect("draft");
    let _ = manager.allocate_backing(3, true).expect("backing");
    manager.publish_draft(draft).expect("publish");
    assert!(stats.allocated.get() > stats.freed.get());
    manager.release();
    assert_eq!(stats.allocated.get(), stats.freed.get());
}

#[test]
fn backings_are_bounded() {
    let (mut manager, _, _) = manager();
    assert_eq!(code(manager.allocate_backing(0, false)), ErrorCode::BackingCapacity);
    let written = manager.allocate_backing(1, false).expect("backing");
    manager.write_backing(written, 4094, &[7, 9]).expect("write");
    let page = manager.backing_page(written, 0).expect("page");
    assert_eq!((page[4093], page[4094], page[4095]), (0, 7, 9));
    assert_eq!(code(manager.backing_page(written, 1)), ErrorCode::InvalidRange);
    manager.free_backing(written).expect("free");
    assert_eq!(code(manager.backing_state(written)), ErrorCode::StaleHandle);
}

#[test]
fn references_are_counted_up_to_the_one_that_does_not_fit() {
    let mut registry = match BackingRegistry::new(FakePageAllocator::new(0x1000_0000, None)) {
        Ok(registry) => registry,
        Err(error) => panic!("registry: {error:?}"),
    };
    let id = registry.allocate(2, 7, 48, false).expect("backing");
    let first = BackingPageReference { backing_id: id, page_index: 0 };
    let second = BackingPageReference { backing_id: id, page_index: 1 };
    registry.adjust_draft_refs(&[first], 7, true).expect("counted");
    assert_eq!(registry.counts(id), Some((1, 0, BackingState::Mutable)));

    let error = registry.adjust_draft_refs(&[first, second], 7, false).expect_err("one too many");
    assert_eq!((error.code, error.detail), (ErrorCode::EptVerificationFailure, 0));
    assert_eq!(registry.counts(id), Some((0, 0, BackingState::Mutable)));

    let error = registry.adjust_draft_refs(&[first], 7, false).expect_err("none left");
    assert_eq!((error.code, error.detail), (ErrorCode::EptVerificationFailure, 0));
    registry.adjust_published_refs(&[first, second], 7, true).expect("pinned");
    assert_eq!(registry.counts(id), Some((0, 2, BackingState::PublishedPinned)));
    let outside = BackingPageReference { page_index: 2, ..first };
    let error = registry.adjust_published_refs(&[first, outside], 7, true).expect_err("outside");
    assert_eq!((error.code, error.detail), (ErrorCode::InvalidRange, 2));
    assert_eq!(registry.counts(id), Some((0, 2, BackingState::PublishedPinned)));
}

#[test]
fn freed_objects_give_their_pages_back() {
    let allocator = FakePageAllocator::new(0x1000_0000, None);
    let source = allocator.clone();
    let mut registry = match BackingRegistry::new(allocator) {
        Ok(registry) => registry,
        Err(error) => panic!("registry: {error:?}"),
    };
    let first = registry.allocate(3, 7, 48, false).expect("first");
    registry.allocate(2, 7, 48, false).expect("second");
    assert_eq!((source.stats.allocated.get(), source.stats.freed.get()), (5, 0));
    registry.free(first, 7).expect("freed");
    assert_eq!(source.stats.freed.get(), 3);
    assert!(registry.free(first, 7).is_err());
    assert_eq!(source.stats.freed.get(), 3);

    source.fail_at(Some(6));
    assert!(registry.allocate(4, 7, 48, false).is_err());
    assert_eq!((source.stats.allocated.get(), source.stats.freed.get()), (6, 4));

    registry.release_all();
    assert_eq!(source.stats.freed.get(), 6);
}

#[test]
fn the_sizes_of_leaves_add_up_to_the_mapped_pages() {
    let aperture = SIZE_1G * 2;
    let intervals = [
        MemoryTypeInterval {
            start: 0,
            end_exclusive: SIZE_1G + SIZE_2M,
            memory_type: EptMemoryType::WriteBack,
        },
        MemoryTypeInterval {
            start: SIZE_1G + SIZE_2M,
            end_exclusive: SIZE_1G + SIZE_2M + PAGE_SIZE_4K,
            memory_type: EptMemoryType::WriteThrough,
        },
        MemoryTypeInterval {
            start: SIZE_1G + SIZE_2M + PAGE_SIZE_4K,
            end_exclusive: aperture,
            memory_type: EptMemoryType::WriteBack,
        },
    ];
    let view = build_base_view(
        FakePageAllocator::new(0x1000_0000_0000, None),
        memory_inventory(aperture, aperture),
        memory_map(&intervals, aperture),
        48,
        true,
        true,
        false,
    )
    .expect("base");
    let figures = view.metadata();
    assert_eq!((figures.leaf_1g, figures.leaf_2m, figures.leaf_4k), (1, 511, 512));
    assert_eq!(
        262_144 * u64::from(figures.leaf_1g)
            + 512 * u64::from(figures.leaf_2m)
            + u64::from(figures.leaf_4k),
        figures.mapped_pages_4k
    );
    assert_eq!(figures.mapped_pages_4k, aperture / PAGE_SIZE_4K);
}

fn granting(
    manager: &EptViewManager<FakePageAllocator>,
    id: ViewId,
    grants: fn(EptPermissions) -> bool,
) -> u64 {
    (0..ONE_GIB / PAGE_SIZE_4K)
        .filter(|page| {
            let gpa = GuestPhysicalAddress::from_page_aligned(page * PAGE_SIZE_4K).expect("gpa");
            match manager.walk(id, gpa).expect("walk") {
                WalkResult::Mapping(mapping) => grants(mapping.permissions),
                _ => false,
            }
        })
        .count() as u64
}

#[test]
fn figures_count_the_pages_whose_walk_grants() {
    let (mut manager, _, _) = manager();
    let draft = manager.create_draft(base_id()).expect("draft");
    let edits = [
        DraftEdit::SetPermissions {
            range: GpaRange::new(0, 3 * PAGE_SIZE_4K, ONE_GIB).expect("range"),
            permissions: read(),
        },
        DraftEdit::SetPermissions {
            range: GpaRange::new(2 * PAGE_SIZE_4K, 2 * PAGE_SIZE_4K, ONE_GIB).expect("range"),
            permissions: EptPermissions::new(false, false, false, false).expect("none"),
        },
    ];
    manager.apply_batch(draft, &edits).expect("edited");
    let view = manager.publish_draft(draft).expect("published");
    let figures = manager.metadata(view).expect("figures");
    let total = ONE_GIB / PAGE_SIZE_4K;
    assert_eq!(figures.readable_pages, total - 2);
    assert_eq!(figures.writable_pages, total - 4);
    assert_eq!(figures.executable_pages, total - 4);
    assert_eq!(granting(&manager, view, |p| p.read()), figures.readable_pages);
    assert_eq!(granting(&manager, view, |p| p.write()), figures.writable_pages);
    assert_eq!(granting(&manager, view, |p| p.execute()), figures.executable_pages);
}

#[test]
fn a_split_leaves_other_leaves_alone() {
    let aperture = 2 * SIZE_1G;
    let allocator = FakePageAllocator::new(0x1000_0000_0000, None);
    let base = build_base_view(
        allocator.clone(),
        memory_inventory(aperture, aperture),
        memory_map(
            &[MemoryTypeInterval {
                start: 0,
                end_exclusive: aperture,
                memory_type: EptMemoryType::WriteBack,
            }],
            aperture,
        ),
        48,
        true,
        true,
        false,
    )
    .expect("base");
    let mut manager = EptViewManager::new(base, allocator, 0x55aa, 48, true).expect("manager");
    let draft = manager.create_draft(base_id()).expect("draft");
    let edit = DraftEdit::SetPermissions {
        range: GpaRange::new(SIZE_2M, PAGE_SIZE_4K, aperture).expect("range"),
        permissions: all(),
    };
    manager.apply_batch(draft, &[edit]).expect("split");
    let expected = [
        (0, EptLeafSize::Size2M),
        (SIZE_2M, EptLeafSize::Size4K),
        (2 * SIZE_2M - PAGE_SIZE_4K, EptLeafSize::Size4K),
        (2 * SIZE_2M, EptLeafSize::Size2M),
        (SIZE_1G - PAGE_SIZE_4K, EptLeafSize::Size2M),
        (SIZE_1G, EptLeafSize::Size1G),
    ];
    for (address, size) in expected {
        let gpa = GuestPhysicalAddress::from_page_aligned(address).expect("gpa");
        let WalkResult::Mapping(mapping) = manager.walk_draft(draft, gpa).expect("walk") else {
            panic!("mapping")
        };
        assert_eq!((mapping.leaf_size, mapping.hpa_page.get()), (size, address));
        assert_eq!(mapping.permissions, all());
    }
}

#[test]
fn a_publication_walks_as_its_draft_did() {
    let (mut manager, _, _) = manager();
    let backing = manager.allocate_backing(2, false).expect("backing");
    let unused = manager.allocate_backing(1, false).expect("unused");
    let draft = manager.create_draft(base_id()).expect("draft");
    let edits = [
        DraftEdit::MapBacking4K {
            gpa: GuestPhysicalAddress::from_page_aligned(SIZE_2M).expect("gpa"),
            backing: BackingPageReference { backing_id: backing, page_index: 1 },
            permissions: read(),
            memory_type: BackingMemoryType::WriteBack,
        },
        DraftEdit::SetPermissions {
            range: GpaRange::new(0, PAGE_SIZE_4K, ONE_GIB).expect("range"),
            permissions: EptPermissions::new(false, false, false, false).expect("none"),
        },
    ];
    manager.apply_batch(draft, &edits).expect("edited");
    let pages: Vec<GuestPhysicalAddress> = [0, PAGE_SIZE_4K, SIZE_2M, ONE_GIB, 1 << 48]
        .iter()
        .map(|address| GuestPhysicalAddress::from_page_aligned(*address).expect("gpa"))
        .collect();
    let drafted: Vec<WalkResult> =
        pages.iter().map(|gpa| manager.walk_draft(draft, *gpa).expect("walk")).collect();
    let view = manager.publish_draft(draft).expect("published");
    assert_eq!(view, ViewId { slot: 1, reserved: 0, generation: 0x55aa });
    for (gpa, walk) in pages.iter().zip(&drafted) {
        assert_eq!(manager.walk(view, *gpa).expect("walk"), *walk);
    }
    assert_eq!(manager.metadata(view).expect("figures").source, base_id());
    let gone = manager.walk_draft(draft, pages[0]).expect_err("gone");
    assert_eq!((gone.code, gone.detail), (ErrorCode::StaleHandle, draft.generation));
    assert_eq!(manager.backing_state(backing), Ok(BackingState::PublishedPinned));
    assert_eq!(manager.backing_state(unused), Ok(BackingState::Mutable));
    assert_eq!(code(manager.write_backing(backing, 0, &[1])), ErrorCode::WrongObjectState);
    assert_eq!(code(manager.free_backing(backing)), ErrorCode::BackingStillReferenced);
    manager.free_backing(unused).expect("free");

    let again = manager.create_draft(view).expect("draft of the publication");
    assert_ne!(again, draft);
    for gpa in &pages {
        assert_eq!(manager.walk_draft(again, *gpa), manager.walk(view, *gpa));
    }
    let tables: Vec<Vec<u64>> = vec![
        table_hpas(manager.published_view(base_id()).expect("base").image()),
        table_hpas(manager.published_view(view).expect("view").image()),
        table_hpas(&manager.draft(again).expect("draft").image),
    ];
    for left in 0..3 {
        for right in 0..left {
            assert!(tables[left].iter().all(|hpa| !tables[right].contains(hpa)));
        }
    }
}

#[test]
fn a_name_is_dead_once_what_it_named_is_gone() {
    let (mut manager, _, _) = manager();
    let first = manager.allocate_backing(1, false).expect("first");
    manager.free_backing(first).expect("free");
    let second = manager.allocate_backing(1, false).expect("second");
    assert_eq!((second.slot, second.generation), (first.slot, first.generation + 1));
    for error in [
        manager.backing_state(first).expect_err("state"),
        manager.write_backing(first, 0, &[1]).expect_err("write"),
        manager.free_backing(first).expect_err("free"),
        manager.register_target(first, 0).expect_err("target"),
    ] {
        assert_eq!((error.code, error.detail), (ErrorCode::StaleHandle, first.generation));
    }
    let draft = manager.create_draft(base_id()).expect("draft");
    let mapped = DraftEdit::MapBacking4K {
        gpa: GuestPhysicalAddress::from_page_aligned(0).expect("gpa"),
        backing: BackingPageReference { backing_id: first, page_index: 0 },
        permissions: read(),
        memory_type: BackingMemoryType::WriteBack,
    };
    assert_eq!(code(manager.apply_batch(draft, &[mapped])), ErrorCode::StaleHandle);
    manager.discard_draft(draft).expect("discard");
    let next = manager.create_draft(base_id()).expect("next");
    assert_eq!((next.slot, next.generation), (draft.slot, draft.generation + 1));
    assert_eq!(code(manager.discard_draft(draft)), ErrorCode::StaleHandle);
    assert_eq!(code(manager.publish_draft(draft)), ErrorCode::StaleHandle);
}

#[test]
fn only_a_registered_page_pins_a_backing() {
    let (mut manager, _, _) = manager_with(0x55aa, false);
    let owned = manager.allocate_backing(2, false).expect("owned");
    let other = manager.allocate_backing(1, false).expect("other");
    assert_eq!(code(manager.register_target(owned, 2)), ErrorCode::InvalidRange);
    let first = manager.register_target(owned, 1).expect("target");
    assert_eq!(manager.register_target(owned, 1), Ok(first));
    assert_eq!(manager.backing_state(owned), Ok(BackingState::Mutable));
    manager.write_backing(owned, 0, &[1]).expect("write");
    assert_eq!(code(manager.free_backing(owned)), ErrorCode::BackingStillReferenced);
    manager.free_backing(other).expect("free");
}

#[test]
fn a_refused_backing_gives_back_what_it_took() {
    let allocator = FakePageAllocator::new(0x1000_0000, Some(2));
    let source = allocator.clone();
    let mut registry = match BackingRegistry::new(allocator) {
        Ok(registry) => registry,
        Err(error) => panic!("registry: {error:?}"),
    };
    let refused = registry.allocate(4, 7, 48, false).expect_err("refused");
    assert_eq!(
        refused,
        MonadError::new(ErrorPhase::EptBuild, ErrorCode::EptAllocationFailure, 2)
    );
    assert_eq!((source.stats.allocated.get(), source.stats.freed.get()), (2, 2));
    let id = registry.allocate(1, 7, 48, true).expect("allocated");
    assert_eq!((id.slot, id.generation), (0, 1));
    assert_eq!(registry.counts(id), Some((0, 0, BackingState::Immutable)));
}

#[test]
fn a_page_is_made_reachable_without_another_target() {
    let aperture = 2 * SIZE_1G;
    let base = build_base_view(
        FakePageAllocator::new(0x1000_0000_0000, None),
        memory_inventory(aperture, aperture),
        memory_map(
            &[MemoryTypeInterval {
                start: 0,
                end_exclusive: aperture,
                memory_type: EptMemoryType::WriteBack,
            }],
            aperture,
        ),
        48,
        true,
        true,
        false,
    )
    .expect("base");
    let mut image = ViewImage::from_base(base, 0x55aa);
    let at = |address: u64| GuestPhysicalAddress::from_page_aligned(address).expect("gpa");
    let address = 3 * SIZE_2M + 5 * PAGE_SIZE_4K;
    let others = [0, address, 3 * SIZE_2M, 4 * SIZE_2M, SIZE_1G, aperture];
    let before: Vec<WalkResult> = others.iter().map(|page| image.walk(at(*page))).collect();
    let tables = image.pages().len();
    let (table, index) = match image.ensure_4k(address) {
        Ok(found) => found,
        Err(error) => panic!("split: {error:?}"),
    };
    assert_eq!(index, 5);
    assert_eq!(image.pages().len(), tables + 2);
    let entry = image.pages().read_entry(table, index).expect("entry");
    assert_eq!(entry & PHYSICAL_MASK, address);
    let sizes = [
        Some(EptLeafSize::Size2M),
        Some(EptLeafSize::Size4K),
        Some(EptLeafSize::Size4K),
        Some(EptLeafSize::Size2M),
        Some(EptLeafSize::Size1G),
        None,
    ];
    for (k, page) in others.iter().enumerate() {
        match (before[k], image.walk(at(*page))) {
            (WalkResult::Mapping(old), WalkResult::Mapping(new)) => {
                assert_eq!(Some(new.leaf_size), sizes[k]);
                assert_eq!((new.gpa_page, new.hpa_page), (old.gpa_page, old.hpa_page));
                assert_eq!((new.permissions, new.memory_type), (old.permissions, old.memory_type));
            }
            (old, new) => {
                assert_eq!(old, new);
                assert_eq!(sizes[k], None);
            }
        }
    }
    assert_eq!(image.ensure_4k(address), Ok((table, index)));
    assert_eq!(image.pages().len(), tables + 2);
}

#[test]
fn edits_are_refused_for_their_first_page_without_a_table() {
    let (mut manager, allocator, stats) = manager();
    let draft = manager.create_draft(base_id()).expect("draft");
    let mut image = manager
        .draft(draft)
        .expect("draft")
        .image
        .try_clone_as(EptPageOwner::Draft)
        .expect("image");
    let taken = stats.allocated.get();
    allocator.fail_at(Some(allocator.allocation_ordinal()));
    let beyond = GpaRange::new(ONE_GIB, PAGE_SIZE_4K, 2 * ONE_GIB).expect("range");
    let reference = BackingPageReference {
        backing_id: BackingId { slot: 0, generation: 1, session_nonce: 0x55aa },
        page_index: 0,
    };
    let map = |gpa: u64| DraftEdit::MapBacking4K {
        gpa: GuestPhysicalAddress::from_page_aligned(gpa).expect("gpa"),
        backing: reference,
        permissions: read(),
        memory_type: BackingMemoryType::WriteBack,
    };
    let none = |_: BackingPageReference| {
        Err(MonadError::new(ErrorPhase::DraftEdit, ErrorCode::StaleHandle, 9))
    };
    let outside = |_: BackingPageReference| {
        HostPhysicalAddress::for_mapping(4 * ONE_GIB, PAGE_SIZE_4K, PAGE_SIZE_4K, 48)
    };
    assert_eq!(
        code(image.apply_edit(
            DraftEdit::SetPermissions { range: beyond, permissions: read() },
            none
        )),
        ErrorCode::EptVerificationFailure
    );
    assert_eq!(
        code(image.apply_edit(DraftEdit::RestoreFromBase { range: beyond }, none)),
        ErrorCode::InvalidRange
    );
    assert_eq!(code(image.apply_edit(map(ONE_GIB), none)), ErrorCode::InvalidRange);
    let stale = image.apply_edit(map(0), none).expect_err("no page");
    assert_eq!((stale.code, stale.detail), (ErrorCode::StaleHandle, 9));
    let wrong = image.apply_edit(map(0), outside).expect_err("no type");
    assert_eq!(
        (wrong.code, wrong.detail),
        (ErrorCode::UnsupportedMtrrCombination, 4 * ONE_GIB)
    );
    assert_eq!(stats.allocated.get(), taken);
    let inside = |_: BackingPageReference| {
        HostPhysicalAddress::for_mapping(PAGE_SIZE_4K, PAGE_SIZE_4K, PAGE_SIZE_4K, 48)
    };
    assert_eq!(code(image.apply_edit(map(0), inside)), ErrorCode::EptAllocationFailure);
    image.release();
    manager.release();
    assert_eq!(stats.allocated.get(), stats.freed.get());
}

#[test]
fn a_failed_build_hands_the_source_back() {
    let allocator = FakePageAllocator::new(0x1000_0000, Some(2));
    let stats = Rc::clone(&allocator.stats);
    let store = match EptPageStore::new(allocator, 48) {
        Ok(store) => store,
        Err(error) => panic!("store: {error:?}"),
    };
    let interval = MemoryTypeInterval {
        start: 0,
        end_exclusive: PAGE_SIZE_4K,
        memory_type: EptMemoryType::WriteBack,
    };
    match build_in(
        store,
        memory_inventory(PAGE_SIZE_4K, PAGE_SIZE_4K),
        memory_map(&[interval], PAGE_SIZE_4K),
        true,
        true,
        false,
        48,
    ) {
        Ok(_) => panic!("built without pages"),
        Err((source, error)) => {
            assert_eq!((error.code, error.detail), (ErrorCode::EptAllocationFailure, 2));
            assert_eq!((source.stats.allocated.get(), source.stats.freed.get()), (2, 2));
        }
    }
    assert_eq!(stats.freed.get(), 2);
}

#[test]
fn an_edit_of_a_page_with_an_entry_needs_no_page() {
    let (mut manager, allocator, stats) = manager();
    let draft = manager.create_draft(base_id()).expect("draft");
    let mut image = manager
        .draft(draft)
        .expect("draft")
        .image
        .try_clone_as(EptPageOwner::Draft)
        .expect("image");
    let none = |_: BackingPageReference| {
        Err(MonadError::new(ErrorPhase::DraftEdit, ErrorCode::StaleHandle, 9))
    };
    let range = GpaRange::new(0, 2 * PAGE_SIZE_4K, ONE_GIB).expect("range");
    let edit = DraftEdit::SetPermissions { range, permissions: read() };
    image.apply_edit(edit, none).expect("split");
    allocator.fail_at(Some(allocator.allocation_ordinal()));
    let taken = stats.allocated.get();
    image.apply_edit(edit, none).expect("again");
    image.apply_edit(DraftEdit::RestoreFromBase { range }, none).expect("restored");
    assert_eq!(stats.allocated.get(), taken);
    assert_eq!(image.edit_count(), 3);
    let far = GpaRange::new(SIZE_2M, PAGE_SIZE_4K, ONE_GIB).expect("range");
    let split = DraftEdit::SetPermissions { range: far, permissions: read() };
    assert_eq!(code(image.apply_edit(split, none)), ErrorCode::EptAllocationFailure);
    image.release();
    manager.release();
    assert_eq!(stats.allocated.get(), stats.freed.get());
}

#[test]
fn registers_are_judged_before_memory_is_asked_for() {
    let plain = raw(&[]);
    let aperture = SIZE_1G;
    let fault = |state: &RawMtrrState, end: u64| {
        normalize_mtrrs(state, end).expect_err("refused").detail
    };
    assert_eq!(fault(&plain, 0), MtrrErrorDetail::InvalidAperture.code());
    assert_eq!(fault(&plain, 0x1001), MtrrErrorDetail::InvalidAperture.code());
    let disabled = RawMtrrState { default_type: 6, ..raw(&[]) };
    assert_eq!(fault(&disabled, aperture), MtrrErrorDetail::Disabled.code());
    let unknown = RawMtrrState { default_type: MTRR_ENABLE | 2, ..raw(&[]) };
    assert_eq!(fault(&unknown, aperture), MtrrErrorDetail::InvalidDefaultType.code());
    let counted = RawMtrrState { capability: plain.capability + 1, ..raw(&[]) };
    assert_eq!(fault(&counted, aperture), MtrrErrorDetail::InvalidVariableCount.code());
    let fixed = RawMtrrState {
        capability: 0,
        default_type: MTRR_ENABLE | FIXED_ENABLE | 6,
        ..raw(&[])
    };
    assert_eq!(fault(&fixed, aperture), MtrrErrorDetail::FixedUnsupported.code());
}
