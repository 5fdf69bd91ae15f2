//! The control device: what each request asks for, and how it is answered.

use vstd::prelude::*;

use super::ioctl;
use super::ioctl::{
    read_pod, EDIT_MAP_BACKING_4K, EDIT_RESTORE_FROM_BASE, EDIT_SET_PERMISSIONS, MAX_CPU_SET_WORDS,
};
use super::wire;
use super::wire::{
    BackingIdWire, CpuSetWordWire, DevicePhysicalRangeWire, DraftIdWire, EditWire, Pod, ViewIdWire,
};
use crate::bits;
use crate::ept::address;
use crate::ept::address::{
    AddressErrorDetail, EptPermissions, GpaRange, GuestPhysicalAddress, PAGE_SIZE_4K,
};
use crate::ept::backing::{BackingId, BackingPageReference};
use crate::ept::entry::EptLeafSize;
use crate::ept::inventory::{PhysicalRange, PhysicalRangeKind};
use crate::ept::view::{BackingMemoryType, DraftEdit, DraftId, ViewId, MAX_BATCH_EDITS};
use crate::error::{ErrorCode, ErrorPhase, MonadError, MonadResult};
use crate::topology::CpuSetWord;

verus! {

/// Who may open the device: the system and the administrators.
pub const DEVICE_SDDL: &'static str = "D:P(A;;GA;;;SY)(A;;GA;;;BA)";

/// Whether a principal may open the device.
pub fn acl_allows(principal: &str) -> (allowed: bool)
    ensures
        allowed == (principal@ == "SY"@ || principal@ == "BA"@),
{
    proof {
        reveal_strlit("SY");
        reveal_strlit("BA");
    }
    if principal.unicode_len() != 2 {
        assert(principal@ != "SY"@);
        assert(principal@ != "BA"@);
        return false;
    }
    let first = principal.get_char(0);
    let second = principal.get_char(1);
    let system: bool = first == 'S' && second == 'Y';
    let administrators: bool = first == 'B' && second == 'A';
    proof {
        assert(system ==> principal@ =~= "SY"@);
        assert(administrators ==> principal@ =~= "BA"@);
    }
    system || administrators
}

/// The name of a backing, as a request writes it.
pub open spec fn spec_backing_from_wire(value: BackingIdWire) -> BackingId {
    BackingId {
        slot: value.slot,
        generation: value.generation,
        session_nonce: value.session_nonce,
    }
}

#[verifier::when_used_as_spec(spec_backing_from_wire)]
pub fn backing_from_wire(value: BackingIdWire) -> (id: BackingId)
    ensures
        id == spec_backing_from_wire(value),
{
    BackingId {
        slot: value.slot,
        generation: value.generation,
        session_nonce: value.session_nonce,
    }
}

/// The name of a backing, as a response writes it.
pub open spec fn spec_backing_to_wire(value: BackingId) -> BackingIdWire {
    BackingIdWire {
        slot: value.slot,
        reserved: 0,
        generation: value.generation,
        session_nonce: value.session_nonce,
    }
}

#[verifier::when_used_as_spec(spec_backing_to_wire)]
pub fn backing_to_wire(value: BackingId) -> (wire: BackingIdWire)
    ensures
        wire == spec_backing_to_wire(value),
{
    BackingIdWire {
        slot: value.slot,
        reserved: 0,
        generation: value.generation,
        session_nonce: value.session_nonce,
    }
}

/// The name of a view, as a request writes it.
pub open spec fn spec_view_from_wire(value: ViewIdWire) -> ViewId {
    ViewId { slot: value.slot, reserved: value.reserved, generation: value.generation }
}

#[verifier::when_used_as_spec(spec_view_from_wire)]
pub fn view_from_wire(value: ViewIdWire) -> (id: ViewId)
    ensures
        id == spec_view_from_wire(value),
{
    ViewId { slot: value.slot, reserved: value.reserved, generation: value.generation }
}

/// The name of a view, as a response writes it.
pub open spec fn spec_view_to_wire(value: ViewId) -> ViewIdWire {
    ViewIdWire { slot: value.slot, reserved: 0, reserved1: 0, generation: value.generation }
}

#[verifier::when_used_as_spec(spec_view_to_wire)]
pub fn view_to_wire(value: ViewId) -> (wire: ViewIdWire)
    ensures
        wire == spec_view_to_wire(value),
{
    ViewIdWire { slot: value.slot, reserved: 0, reserved1: 0, generation: value.generation }
}

/// The name of a draft, as a request writes it.
pub open spec fn spec_draft_from_wire(value: DraftIdWire) -> DraftId {
    DraftId {
        slot: value.slot,
        reserved: value.reserved,
        generation: value.generation,
        session_nonce: value.session_nonce,
    }
}

#[verifier::when_used_as_spec(spec_draft_from_wire)]
pub fn draft_from_wire(value: DraftIdWire) -> (id: DraftId)
    ensures
        id == spec_draft_from_wire(value),
{
    DraftId {
        slot: value.slot,
        reserved: value.reserved,
        generation: value.generation,
        session_nonce: value.session_nonce,
    }
}

/// The name of a draft, as a response writes it.
pub open spec fn spec_draft_to_wire(value: DraftId) -> DraftIdWire {
    DraftIdWire {
        slot: value.slot,
        reserved: 0,
        reserved1: 0,
        generation: value.generation,
        session_nonce: value.session_nonce,
    }
}

#[verifier::when_used_as_spec(spec_draft_to_wire)]
pub fn draft_to_wire(value: DraftId) -> (wire: DraftIdWire)
    ensures
        wire == spec_draft_to_wire(value),
{
    DraftIdWire {
        slot: value.slot,
        reserved: 0,
        reserved1: 0,
        generation: value.generation,
        session_nonce: value.session_nonce,
    }
}

/// A name that is written and read again is the same name.
pub proof fn law_names_survive(view: ViewId, draft: DraftId, backing: BackingId)
    requires
        view.reserved == 0,
        draft.reserved == 0,
    ensures
        view_from_wire(view_to_wire(view)) == view,
        draft_from_wire(draft_to_wire(draft)) == draft,
        backing_from_wire(backing_to_wire(backing)) == backing,
{
}

/// What is wrong with permissions, if anything: one bit each for reading,
/// writing and executing.
pub open spec fn permissions_fault(value: u8) -> Option<MonadError> {
    if value & !7u8 != 0 {
        Some(
            MonadError::new(
                ErrorPhase::DraftEdit,
                ErrorCode::UnsupportedPermissionCombination,
                value as u64,
            ),
        )
    } else {
        match address::permission_fault(value & 1 != 0, value & 2 != 0, value & 4 != 0, true) {
            Some(detail) => Some(
                address::address_fault(ErrorCode::UnsupportedPermissionCombination, detail),
            ),
            None => None,
        }
    }
}

/// The permissions that a byte stands for.
pub open spec fn permissions_of(value: u8) -> EptPermissions {
    EptPermissions {
        read: value & 1 != 0,
        write: value & 2 != 0,
        execute: value & 4 != 0,
    }
}

pub fn permissions_from_wire(value: u8) -> (result: MonadResult<EptPermissions>)
    ensures
        result == match permissions_fault(value) {
            Some(error) => Err::<EptPermissions, MonadError>(error),
            None => Ok(permissions_of(value)),
        },
{
    if value & !7u8 != 0 {
        return Err(
            MonadError::new(
                ErrorPhase::DraftEdit,
                ErrorCode::UnsupportedPermissionCombination,
                value as u64,
            ),
        );
    }
    EptPermissions::new(value & 1 != 0, value & 2 != 0, value & 4 != 0, true)
}

pub open spec fn one_bit(set: bool) -> u8 {
    if set {
        1
    } else {
        0
    }
}

pub(crate) fn as_one_bit(set: bool) -> (bit: u8)
    ensures
        bit == one_bit(set),
{
    if set {
        1
    } else {
        0
    }
}

/// The byte that stands for permissions.
pub open spec fn spec_permissions_to_wire(value: EptPermissions) -> u8 {
    one_bit(value.read) | (one_bit(value.write) << 1) | (one_bit(value.execute) << 2)
}

#[verifier::when_used_as_spec(spec_permissions_to_wire)]
pub fn permissions_to_wire(value: EptPermissions) -> (wire: u8)
    ensures
        wire == spec_permissions_to_wire(value),
{
    as_one_bit(value.read()) | (as_one_bit(value.write()) << 1) | (as_one_bit(value.execute()) << 2)
}

/// Permissions that are written and read again are the same permissions.
pub proof fn law_permissions_survive(value: EptPermissions)
    ensures
        permissions_of(permissions_to_wire(value)) == value,
        permissions_to_wire(value) & !7u8 == 0,
{
    let r = one_bit(value.read);
    let w = one_bit(value.write);
    let x = one_bit(value.execute);
    assert(((r | (w << 1) | (x << 2)) & 1 != 0) == (r == 1) && ((r | (w << 1) | (x << 2)) & 2 != 0)
        == (w == 1) && ((r | (w << 1) | (x << 2)) & 4 != 0) == (x == 1) && (r | (w << 1) | (x << 2))
        & !7u8 == 0) by (bit_vector)
        requires
            r <= 1,
            w <= 1,
            x <= 1,
    ;
}

pub open spec fn spec_leaf_size_log2(value: EptLeafSize) -> u8 {
    match value {
        EptLeafSize::Size4K => 12,
        EptLeafSize::Size2M => 21,
        EptLeafSize::Size1G => 30,
    }
}

/// How many low bits of an address a leaf covers.
#[verifier::when_used_as_spec(spec_leaf_size_log2)]
pub fn leaf_size_log2(value: EptLeafSize) -> (bits: u8)
    ensures
        bits == spec_leaf_size_log2(value),
{
    match value {
        EptLeafSize::Size4K => 12,
        EptLeafSize::Size2M => 21,
        EptLeafSize::Size1G => 30,
    }
}

/// An edit names no backing.
pub open spec fn names_no_backing(value: EditWire) -> bool {
    &&& value.backing.slot == 0
    &&& value.backing.reserved == 0
    &&& value.backing.generation == 0
    &&& value.backing.session_nonce == 0
    &&& value.backing_page == 0
    &&& value.memory_type == 0
}

fn check_no_backing(value: &EditWire) -> (none: bool)
    ensures
        none == names_no_backing(*value),
{
    value.backing.slot == 0 && value.backing.reserved == 0 && value.backing.generation == 0
        && value.backing.session_nonce == 0 && value.backing_page == 0 && value.memory_type == 0
}

pub open spec fn edit_error(code: ErrorCode, detail: u64) -> MonadError {
    MonadError::new(ErrorPhase::DraftEdit, code, detail)
}

/// The first of two faults.
pub open spec fn first_fault(first: Option<MonadError>, second: Option<MonadError>) -> Option<
    MonadError,
> {
    if first is Some {
        first
    } else {
        second
    }
}

/// What is wrong with an edit, if anything.
pub open spec fn edit_fault(value: EditWire, aperture_end: u64) -> Option<MonadError> {
    if value.kind == EDIT_SET_PERMISSIONS {
        if !names_no_backing(value) {
            Some(edit_error(ErrorCode::UnsupportedFlags, value.kind as u64))
        } else {
            first_fault(
                address::range_fault(value.gpa, value.length, aperture_end),
                permissions_fault(value.permissions),
            )
        }
    } else if value.kind == EDIT_MAP_BACKING_4K {
        if value.length != 0x1000 {
            Some(edit_error(ErrorCode::InvalidRange, value.length))
        } else if value.memory_type != 6 {
            Some(edit_error(ErrorCode::UnsupportedMtrrCombination, value.memory_type as u64))
        } else if value.gpa % 0x1000 != 0 {
            Some(
                address::address_fault(
                    ErrorCode::MisalignedAddress,
                    AddressErrorDetail::StartMisaligned,
                ),
            )
        } else {
            permissions_fault(value.permissions)
        }
    } else if value.kind == EDIT_RESTORE_FROM_BASE {
        if !names_no_backing(value) || value.permissions != 0 {
            Some(edit_error(ErrorCode::UnsupportedFlags, value.kind as u64))
        } else {
            address::range_fault(value.gpa, value.length, aperture_end)
        }
    } else {
        Some(edit_error(ErrorCode::WrongObjectState, value.kind as u64))
    }
}

/// Whether an edit is the one that a request writes.
pub open spec fn edit_says(value: EditWire, edit: DraftEdit) -> bool {
    if value.kind == EDIT_SET_PERMISSIONS {
        edit matches DraftEdit::SetPermissions { range, permissions } && {
            &&& range.spec_start().get() == value.gpa
            &&& range.spec_length() == value.length
            &&& permissions == permissions_of(value.permissions)
        }
    } else if value.kind == EDIT_MAP_BACKING_4K {
        edit matches DraftEdit::MapBacking4K { gpa, backing, permissions, memory_type } && {
            &&& gpa.get() == value.gpa
            &&& backing == (BackingPageReference {
                backing_id: backing_from_wire(value.backing),
                page_index: value.backing_page,
            })
            &&& permissions == permissions_of(value.permissions)
            &&& memory_type == BackingMemoryType::WriteBack
        }
    } else {
        edit matches DraftEdit::RestoreFromBase { range } && {
            &&& range.spec_start().get() == value.gpa
            &&& range.spec_length() == value.length
        }
    }
}

/// The edit that a request writes.
pub fn edit_from_wire(value: EditWire, aperture_end: u64) -> (result: MonadResult<DraftEdit>)
    ensures
        match edit_fault(value, aperture_end) {
            Some(error) => result == Err::<DraftEdit, MonadError>(error),
            None => result matches Ok(edit) && edit_says(value, edit),
        },
{
    if value.kind == EDIT_SET_PERMISSIONS {
        if !check_no_backing(&value) {
            return Err(
                MonadError::new(
                    ErrorPhase::DraftEdit,
                    ErrorCode::UnsupportedFlags,
                    value.kind as u64,
                ),
            );
        }
        let range = GpaRange::new(value.gpa, value.length, aperture_end)?;
        let permissions = permissions_from_wire(value.permissions)?;
        return Ok(DraftEdit::SetPermissions { range, permissions });
    }
    if value.kind == EDIT_MAP_BACKING_4K {
        if value.length != PAGE_SIZE_4K {
            return Err(
                MonadError::new(ErrorPhase::DraftEdit, ErrorCode::InvalidRange, value.length),
            );
        }
        if value.memory_type != 6 {
            return Err(
                MonadError::new(
                    ErrorPhase::DraftEdit,
                    ErrorCode::UnsupportedMtrrCombination,
                    value.memory_type as u64,
                ),
            );
        }
        let gpa = GuestPhysicalAddress::from_page_aligned(value.gpa)?;
        let permissions = permissions_from_wire(value.permissions)?;
        return Ok(
            DraftEdit::MapBacking4K {
                gpa,
                backing: BackingPageReference {
                    backing_id: backing_from_wire(value.backing),
                    page_index: value.backing_page,
                },
                permissions,
                memory_type: BackingMemoryType::WriteBack,
            },
        );
    }
    if value.kind == EDIT_RESTORE_FROM_BASE {
        if !check_no_backing(&value) || value.permissions != 0 {
            return Err(
                MonadError::new(
                    ErrorPhase::DraftEdit,
                    ErrorCode::UnsupportedFlags,
                    value.kind as u64,
                ),
            );
        }
        let range = GpaRange::new(value.gpa, value.length, aperture_end)?;
        return Ok(DraftEdit::RestoreFromBase { range });
    }
    Err(MonadError::new(ErrorPhase::DraftEdit, ErrorCode::WrongObjectState, value.kind as u64))
}

/// Where the record with an index begins, behind the fixed part of a request.
pub open spec fn record_offset<T: Pod>(base: int, index: int) -> int {
    base + index * T::spec_size()
}

/// Why a record behind the fixed part of a request cannot be read, if it
/// cannot.
pub open spec fn record_fault<T: Pod>(
    input: Seq<u8>,
    base: int,
    index: int,
    phase: ErrorPhase,
    detail: u64,
) -> Option<MonadError> {
    let offset = record_offset::<T>(base, index);
    if index * T::spec_size() > usize::MAX {
        Some(MonadError::new(phase, ErrorCode::AddressOverflow, index as u64))
    } else if offset > usize::MAX {
        Some(MonadError::new(phase, ErrorCode::AddressOverflow, detail))
    } else if offset + T::spec_size() > usize::MAX {
        Some(ioctl::spec_device_error(ErrorCode::AddressOverflow, offset as u64))
    } else if offset + T::spec_size() > input.len() {
        Some(ioctl::spec_device_error(ErrorCode::InvalidStructureSize, input.len() as u64))
    } else {
        None
    }
}

/// Finds a record behind the fixed part of a request.
fn locate_record<T: Pod>(base: usize, index: usize, phase: ErrorPhase, detail: u64) -> (result:
    MonadResult<usize>)
    ensures
        match result {
            Ok(offset) => {
                &&& index * T::spec_size() <= usize::MAX
                &&& offset == record_offset::<T>(base as int, index as int)
            },
            Err(error) => {
                &&& record_offset::<T>(base as int, index as int) > usize::MAX
                &&& forall|input: Seq<u8>|
                    #[trigger] record_fault::<T>(input, base as int, index as int, phase, detail)
                        == Some(error)
            },
        },
{
    let size: usize = T::size();
    match index.checked_mul(size) {
        None => Err(MonadError::new(phase, ErrorCode::AddressOverflow, index as u64)),
        Some(before) => match base.checked_add(before) {
            None => Err(MonadError::new(phase, ErrorCode::AddressOverflow, detail)),
            Some(offset) => Ok(offset),
        },
    }
}

/// Reads a record behind the fixed part of a request.
fn read_record<T: Pod>(
    input: &[u8],
    base: usize,
    index: usize,
    phase: ErrorPhase,
    detail: u64,
) -> (result: MonadResult<T>)
    ensures
        match record_fault::<T>(input@, base as int, index as int, phase, detail) {
            Some(error) => result == Err::<T, MonadError>(error),
            None => result matches Ok(value) && value.laid_out(
                input@,
                record_offset::<T>(base as int, index as int),
            ),
        },
{
    let offset: usize = locate_record::<T>(base, index, phase, detail)?;
    let length: usize = input.len();
    match read_pod::<T>(input, offset) {
        Ok(value) => Ok(value),
        Err(error) => Err(error),
    }
}

/// What is wrong with a range of device memory, if anything.
pub open spec fn device_range_fault(input: Seq<u8>, index: int) -> Option<MonadError> {
    let offset = record_offset::<DevicePhysicalRangeWire>(56, index);
    match record_fault::<DevicePhysicalRangeWire>(input, 56, index, ErrorPhase::Device, 56) {
        Some(error) => Some(error),
        None => if wire::u64_at(input, offset + 8) == 0 || wire::u64_at(input, offset)
            + wire::u64_at(input, offset + 8) > u64::MAX {
            Some(
                MonadError::new(ErrorPhase::Device, ErrorCode::InvalidRange, index as u64),
            )
        } else {
            None
        },
    }
}

/// The range of device memory with an index.
pub open spec fn device_range_at(input: Seq<u8>, index: int) -> PhysicalRange {
    let offset = record_offset::<DevicePhysicalRangeWire>(56, index);
    PhysicalRange {
        start: wire::u64_at(input, offset),
        length: wire::u64_at(input, offset + 8),
        kind: PhysicalRangeKind::Device,
    }
}

/// Reads the ranges of device memory behind a request to start.
pub fn device_ranges_from_wire(input: &[u8], count: u32) -> (result: MonadResult<
    Vec<PhysicalRange>,
>)
    ensures
        match result {
            Ok(ranges) => {
                &&& ranges@.len() == count
                &&& forall|k: int| #![trigger ranges@[k]]
                    0 <= k < count ==> {
                        &&& device_range_fault(input@, k) is None
                        &&& ranges@[k] == device_range_at(input@, k)
                    }
            },
            Err(error) => {
                ||| error == MonadError::new(
                    ErrorPhase::Device,
                    ErrorCode::AllocationFailure,
                    count as u64,
                )
                ||| exists|k: int|
                    {
                        &&& 0 <= k < count
                        &&& #[trigger] device_range_fault(input@, k) == Some(error)
                        &&& forall|j: int|
                            0 <= j < k ==> (#[trigger] device_range_fault(input@, j)) is None
                    }
            },
        },
{
    let mut ranges: Vec<PhysicalRange> = Vec::new();
    if ranges.try_reserve(count as usize).is_err() {
        return Err(
            MonadError::new(ErrorPhase::Device, ErrorCode::AllocationFailure, count as u64),
        );
    }
    let mut index: usize = 0;
    while index < count as usize
        invariant
            index <= count,
            ranges@.len() == index,
            forall|j: int| 0 <= j < index ==> (#[trigger] device_range_fault(input@, j)) is None,
            forall|j: int| 0 <= j < index ==> #[trigger] ranges@[j] == device_range_at(input@, j),
        decreases count - index,
    {
        match read_record::<DevicePhysicalRangeWire>(input, 56, index, ErrorPhase::Device, 56) {
            Err(error) => {
                assert(device_range_fault(input@, index as int) == Some(error));
                return Err(error);
            },
            Ok(range) => {
                if range.length == 0 || range.start.checked_add(range.length).is_none() {
                    let error = MonadError::new(
                        ErrorPhase::Device,
                        ErrorCode::InvalidRange,
                        index as u64,
                    );
                    assert(device_range_fault(input@, index as int) == Some(error));
                    return Err(error);
                }
                assert(device_range_fault(input@, index as int) is None);
                ranges.push(
                    PhysicalRange {
                        start: range.start,
                        length: range.length,
                        kind: PhysicalRangeKind::Device,
                    },
                );
            },
        }
        index = index + 1;
    }
    Ok(ranges)
}

/// What is wrong with an edit behind a batch request, if anything.
pub open spec fn batch_edit_fault(input: Seq<u8>, aperture_end: u64, index: int) -> Option<
    MonadError,
> {
    let offset = record_offset::<EditWire>(56, index);
    match record_fault::<EditWire>(input, 56, index, ErrorPhase::DraftEdit, index as u64) {
        Some(error) => Some(
            if offset > usize::MAX {
                error
            } else {
                MonadError { operation_index: index as u32, ..error }
            },
        ),
        None => {
            let value = wire::loaded::<EditWire>(input, offset);
            match edit_fault(value, aperture_end) {
                Some(error) => Some(MonadError { operation_index: index as u32, ..error }),
                None => None,
            }
        },
    }
}

/// The edits are the ones that a batch request writes.
pub open spec fn batch_says(input: Seq<u8>, edits: Seq<DraftEdit>) -> bool {
    forall|k: int|
        0 <= k < edits.len() ==> edit_says(
            wire::loaded::<EditWire>(input, record_offset::<EditWire>(56, k)),
            #[trigger] edits[k],
        )
}

/// Reads the edits behind a batch request.
pub fn edits_from_wire(input: &[u8], count: usize, aperture_end: u64) -> (result: MonadResult<
    Vec<DraftEdit>,
>)
    requires
        count <= MAX_BATCH_EDITS,
    ensures
        match result {
            Ok(edits) => {
                &&& edits@.len() == count
                &&& forall|k: int|
                    0 <= k < count ==> (#[trigger] batch_edit_fault(input@, aperture_end, k))
                        is None
                &&& batch_says(input@, edits@)
            },
            Err(error) => {
                ||| error == MonadError::new(
                    ErrorPhase::DraftEdit,
                    ErrorCode::AllocationFailure,
                    count as u64,
                )
                ||| exists|k: int|
                    {
                        &&& 0 <= k < count
                        &&& #[trigger] batch_edit_fault(input@, aperture_end, k) == Some(error)
                        &&& forall|j: int|
                            0 <= j < k ==> (#[trigger] batch_edit_fault(input@, aperture_end, j))
                                is None
                    }
            },
        },
{
    let mut edits: Vec<DraftEdit> = Vec::new();
    if edits.try_reserve(count).is_err() {
        return Err(
            MonadError::new(ErrorPhase::DraftEdit, ErrorCode::AllocationFailure, count as u64),
        );
    }
    let mut index: usize = 0;
    while index < count
        invariant
            index <= count <= MAX_BATCH_EDITS,
            edits@.len() == index,
            forall|j: int|
                0 <= j < index ==> (#[trigger] batch_edit_fault(input@, aperture_end, j)) is None,
            batch_says(input@, edits@),
        decreases count - index,
    {
        let offset: usize = match locate_record::<EditWire>(
            56,
            index,
            ErrorPhase::DraftEdit,
            index as u64,
        ) {
            Ok(offset) => offset,
            Err(error) => {
                proof {
                    assert(record_fault::<EditWire>(
                        input@,
                        56,
                        index as int,
                        ErrorPhase::DraftEdit,
                        index as u64,
                    ) == Some(error));
                    assert(batch_edit_fault(input@, aperture_end, index as int) == Some(error));
                }
                return Err(error);
            },
        };
        let length: usize = input.len();
        let edit = match read_pod::<EditWire>(input, offset) {
            Ok(value) => {
                proof {
                    wire::lemma_loaded(value, input@, offset as int);
                }
                edit_from_wire(value, aperture_end)
            },
            Err(error) => Err(error),
        };
        match edit {
            Ok(edit) => {
                let ghost before = edits@;
                edits.push(edit);
                proof {
                    assert(batch_edit_fault(input@, aperture_end, index as int) is None);
                    assert forall|k: int| 0 <= k < edits@.len() implies edit_says(
                        wire::loaded::<EditWire>(input@, record_offset::<EditWire>(56, k)),
                        #[trigger] edits@[k],
                    ) by {
                        if k < before.len() {
                            assert(before[k] == edits@[k]);
                        }
                    }
                }
            },
            Err(error) => {
                let error = error.at_operation(index as u32);
                assert(batch_edit_fault(input@, aperture_end, index as int) == Some(error));
                return Err(error);
            },
        }
        index = index + 1;
    }
    Ok(edits)
}

/// The word of a set of processors with an index.
pub open spec fn cpu_word_at(input: Seq<u8>, index: int) -> CpuSetWord {
    let value = wire::loaded::<CpuSetWordWire>(input, record_offset::<CpuSetWordWire>(48, index));
    CpuSetWord { group: value.group, reserved: value.reserved, mask: value.mask }
}

/// What is wrong with the words behind a request to activate, if anything.
pub open spec fn cpu_words_fault(input: Seq<u8>, count: u32, error: MonadError) -> bool {
    if count == 0 || count > MAX_CPU_SET_WORDS {
        error == MonadError::new(ErrorPhase::Topology, ErrorCode::InvalidCpuSet, count as u64)
    } else {
        ||| error == MonadError::new(
            ErrorPhase::Topology,
            ErrorCode::AllocationFailure,
            count as u64,
        )
        ||| exists|k: int|
            {
                &&& 0 <= k < count
                &&& #[trigger] record_fault::<CpuSetWordWire>(
                    input,
                    48,
                    k,
                    ErrorPhase::Topology,
                    k as u64,
                ) == Some(error)
                &&& forall|j: int|
                    0 <= j < k ==> #[trigger] record_fault::<CpuSetWordWire>(
                        input,
                        48,
                        j,
                        ErrorPhase::Topology,
                        j as u64,
                    ) is None
            }
    }
}

/// Reads the set of processors behind a request to activate.
pub fn cpu_words_from_wire(input: &[u8], count: u32) -> (result: MonadResult<Vec<CpuSetWord>>)
    ensures
        match result {
            Ok(words) => {
                &&& 0 < count <= MAX_CPU_SET_WORDS
                &&& words@.len() == count
                &&& record_offset::<CpuSetWordWire>(48, count as int) <= input@.len()
                &&& forall|k: int| 0 <= k < count ==> #[trigger] words@[k] == cpu_word_at(input@, k)
            },
            Err(error) => cpu_words_fault(input@, count, error),
        },
{
    if count == 0 || count > MAX_CPU_SET_WORDS {
        return Err(
            MonadError::new(ErrorPhase::Topology, ErrorCode::InvalidCpuSet, count as u64),
        );
    }
    let mut words: Vec<CpuSetWord> = Vec::new();
    if words.try_reserve(count as usize).is_err() {
        return Err(
            MonadError::new(ErrorPhase::Topology, ErrorCode::AllocationFailure, count as u64),
        );
    }
    let mut index: usize = 0;
    while index < count as usize
        invariant
            0 < count <= MAX_CPU_SET_WORDS,
            index <= count,
            words@.len() == index,
            index > 0 ==> record_offset::<CpuSetWordWire>(48, index as int) <= input@.len(),
            forall|j: int|
                0 <= j < index ==> #[trigger] record_fault::<CpuSetWordWire>(
                    input@,
                    48,
                    j,
                    ErrorPhase::Topology,
                    j as u64,
                ) is None,
            forall|k: int| 0 <= k < index ==> #[trigger] words@[k] == cpu_word_at(input@, k),
        decreases count - index,
    {
        match read_record::<CpuSetWordWire>(
            input,
            48,
            index,
            ErrorPhase::Topology,
            index as u64,
        ) {
            Ok(value) => {
                proof {
                    wire::lemma_loaded(
                        value,
                        input@,
                        record_offset::<CpuSetWordWire>(48, index as int),
                    );
                }
                words.push(
                    CpuSetWord { group: value.group, reserved: value.reserved, mask: value.mask },
                );
            },
            Err(error) => {
                assert(record_fault::<CpuSetWordWire>(
                    input@,
                    48,
                    index as int,
                    ErrorPhase::Topology,
                    index as u64,
                ) == Some(error));
                return Err(error);
            },
        }
        index = index + 1;
    }
    Ok(words)
}

/// How many characters a name of the device may have, with its end.
pub const WIDE_CAPACITY: usize = 64;

pub const STATUS_INVALID_DEVICE_REQUEST: i32 = -1073741808;

/// A name as the operating system wants it: sixteen bits for each character,
/// and zeros behind them.
pub struct WideString {
    pub buffer: [u16; 64],
    pub length: u16,
}

impl WideString {
    /// A name, if it is plain and short enough to leave room for its end.
    pub fn from_ascii(value: &str) -> (result: Result<Self, i32>)
        ensures
            match result {
                Ok(wide) => {
                    &&& vstd::string::is_ascii(value)
                    &&& value@.len() < WIDE_CAPACITY
                    &&& wide.length == value@.len()
                    &&& forall|i: int|
                        0 <= i < WIDE_CAPACITY ==> #[trigger] wide.buffer@[i] == if i < wide.length {
                            value@[i] as u16
                        } else {
                            0
                        }
                },
                Err(status) => {
                    &&& status == STATUS_INVALID_DEVICE_REQUEST
                    &&& !vstd::string::is_ascii(value) || value@.len() >= WIDE_CAPACITY
                },
            },
    {
        if !value.is_ascii() {
            return Err(STATUS_INVALID_DEVICE_REQUEST);
        }
        proof {
            vstd::string::is_ascii_spec_bytes(value);
        }
        let bytes = value.as_bytes();
        if bytes.len() >= WIDE_CAPACITY {
            return Err(STATUS_INVALID_DEVICE_REQUEST);
        }
        let mut buffer: [u16; 64] = [0;64];
        let mut index: usize = 0;
        while index < bytes.len()
            invariant
                index <= bytes@.len() < WIDE_CAPACITY,
                forall|i: int|
                    0 <= i < WIDE_CAPACITY ==> #[trigger] buffer@[i] == if i < index {
                        bytes@[i] as u16
                    } else {
                        0
                    },
            decreases bytes@.len() - index,
        {
            buffer[index] = bytes[index] as u16;
            index = index + 1;
        }
        Ok(WideString { buffer, length: bytes.len() as u16 })
    }
}

} // verus!
