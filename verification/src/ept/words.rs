//! The words that the processor walks, bit by bit: entries of tables, and the
//! pointer to a view.

use vstd::prelude::*;

use super::address::{EptPermissions, GpaRange, GuestPhysicalAddress, HostPhysicalAddress};
use super::entry;
use super::entry::{
    decode_entry, leaf_entry, DecodedEptEntry, EptEntryError, EptLeafSize, EptLevel, EptMemoryType,
    EptPdEntry, EptPdptEntry, EptPml4Entry,
};
use super::page::EptPageAllocator;
use super::registers;
use super::view::ViewImage;
use super::walker::{EptValidationError, EptValidationErrorKind};
use crate::bits;
use crate::error::MonadResult;

verus! {

broadcast use super::address::group_host_addresses;

/// A flag, as it counts in a word.
pub open spec fn counts(set: bool, weight: int) -> int {
    if set {
        weight
    } else {
        0
    }
}

/// How many bytes a leaf maps.
pub open spec fn mapped_bytes(size: EptLeafSize) -> int {
    match size {
        EptLeafSize::Size4K => 0x1000,
        EptLeafSize::Size2M => 0x20_0000,
        EptLeafSize::Size1G => 0x4000_0000,
    }
}

/// The word of a leaf: bit 0 grants reading, bit 1 writing, bit 2 executing, bits
/// 3 to 5 are the memory type, bit 7 marks a large page, and the address stands
/// where it is.
pub open spec fn leaf_bits(
    address: int,
    size: EptLeafSize,
    permissions: EptPermissions,
    memory_type: EptMemoryType,
) -> int {
    counts(permissions.read, 1) + counts(permissions.write, 2) + counts(permissions.execute, 4) + 8
        * registers::type_number(memory_type) + counts(size !is Size4K, 0x80) + address
}

/// A leaf can be written exactly when its permissions can be had, its address is
/// one of its size and it ends within the width; its word holds each part in its
/// place, and one that grants nothing is all zero.
#[verifier::rlimit(30)]
#[verifier::spinoff_prover]
pub proof fn law_leaf_word(
    size: EptLeafSize,
    hpa: HostPhysicalAddress,
    permissions: EptPermissions,
    memory_type: EptMemoryType,
    width: u8,
    result: MonadResult<u64>,
)
    requires
        call_ensures(leaf_entry, (size, hpa, permissions, memory_type, width), result),
    ensures
        result is Ok <==> (permissions.write ==> permissions.read) && hpa.get() as int
            % mapped_bytes(size) == 0 && 12 <= width <= 48 && hpa.get() + mapped_bytes(size)
            <= 1u64 << (width as u64),
        result matches Ok(word) ==> word == if permissions.read || permissions.write
            || permissions.execute {
            leaf_bits(hpa.get() as int, size, permissions, memory_type)
        } else {
            0
        },
{
    if result is Ok {
        bits::lemma_width_limit(width);
        entry::lemma_leaf_alignment(hpa.get(), size);
        entry::lemma_leaf_word_fields(
            entry::flag(permissions.read),
            entry::flag(permissions.write),
            entry::flag(permissions.execute),
            memory_type.spec_code() as u64,
            entry::flag(size != EptLeafSize::Size4K),
            hpa.get(),
        );
    }
}

/// An entry that points to a table grants everything and holds the address of the
/// table; only a page below the width can be one.
pub proof fn law_table_word(
    hpa: HostPhysicalAddress,
    width: u8,
    root: MonadResult<EptPml4Entry>,
    upper: MonadResult<EptPdptEntry>,
    lower: MonadResult<EptPdEntry>,
)
    requires
        call_ensures(EptPml4Entry::new_table, (hpa, width), root),
        call_ensures(EptPdptEntry::new_table, (hpa, width), upper),
        call_ensures(EptPdEntry::new_table, (hpa, width), lower),
    ensures
        root is Ok <==> hpa.get() % 0x1000 == 0 && 12 <= width <= 48 && hpa.get() < 1u64 << (
        width as u64),
        upper is Ok == root is Ok,
        lower is Ok == root is Ok,
        root matches Ok(word) ==> word.0 == hpa.get() + 7,
        upper matches Ok(word) ==> word.0 == hpa.get() + 7,
        lower matches Ok(word) ==> word.0 == hpa.get() + 7,
{
    if root is Ok {
        bits::lemma_width_limit(width);
        entry::lemma_table_word_fields(hpa.get());
    }
}

proof fn lemma_entry_parts(raw: u64)
    by (bit_vector)
    ensures
        ({
            let address = raw & 0x000f_ffff_ffff_f000;
            &&& raw & !(0x3f | address) == 0 ==> raw == address + raw % 0x40
            &&& raw & !(0xbf | address) == 0 ==> raw == address + 0x80 * ((raw / 0x80) % 2) + raw
                % 0x40
            &&& raw & !(0x7 | address) == 0 ==> raw == address + raw % 8
        }),
        raw % 0x40 == 8 * ((raw / 8) % 8) + raw % 8,
        raw % 8 == raw % 2 + 2 * ((raw / 2) % 2) + 4 * ((raw / 4) % 2),
        (raw >> 3) & 7 == (raw / 8) % 8,
        (raw & 1 != 0) == (raw % 2 == 1),
        (raw & 2 != 0) == ((raw / 2) % 2 == 1),
        (raw & 4 != 0) == ((raw / 4) % 2 == 1),
        (raw & 0x80 != 0) == ((raw / 0x80) % 2 == 1),
        (raw & 7 == 0) == (raw % 8 == 0),
{
}

/// What is decoded is what the word says: a leaf is decoded from its own word and
/// from no other, a pointer to a table from the table's address and its
/// permissions, and absence from zero alone. Large pages stand in the two middle
/// levels, of a gibibyte in the upper one, and small ones in the lowest.
#[verifier::rlimit(30)]
#[verifier::spinoff_prover]
pub proof fn law_entry_is_what_it_says(
    level: EptLevel,
    raw: u64,
    width: u8,
    execute_only: bool,
    result: Result<DecodedEptEntry, EptEntryError>,
)
    requires
        call_ensures(decode_entry, (level, raw, width, execute_only), result),
    ensures
        result matches Ok(found) ==> 12 <= width <= 48 && match found {
            DecodedEptEntry::NotPresent => raw == 0,
            DecodedEptEntry::Table { hpa, permissions } => {
                &&& !(level is Pt)
                &&& raw == hpa.get() + counts(permissions.read, 1) + counts(permissions.write, 2)
                    + counts(permissions.execute, 4)
                &&& raw % 8 != 0
                &&& hpa.get() % 0x1000 == 0
                &&& hpa.get() < 1u64 << (width as u64)
                &&& permissions.write ==> permissions.read
                &&& permissions.execute && !execute_only ==> permissions.read
            },
            DecodedEptEntry::Leaf { hpa, size, permissions, memory_type } => {
                &&& size == match level {
                    EptLevel::Pdpt => EptLeafSize::Size1G,
                    EptLevel::Pd => EptLeafSize::Size2M,
                    _ => EptLeafSize::Size4K,
                }
                &&& !(level is Pml4)
                &&& raw == leaf_bits(hpa.get() as int, size, permissions, memory_type)
                &&& raw % 8 != 0
                &&& hpa.get() as int % mapped_bytes(size) == 0
                &&& hpa.get() + mapped_bytes(size) <= 1u64 << (width as u64)
                &&& permissions.write ==> permissions.read
                &&& permissions.execute && !execute_only ==> permissions.read
            },
        },
        raw == 0 && 12 <= width <= 48 ==> result == Ok::<DecodedEptEntry, EptEntryError>(
            DecodedEptEntry::NotPresent,
        ),
{
    lemma_entry_parts(raw);
    bits::lemma_word(raw);
}

/// An address finds its entry by the nine bits that its level takes out of it.
pub proof fn law_address_finds_its_entry(level: EptLevel, address: u64, index: usize)
    requires
        call_ensures(EptLevel::index, (level, address), index),
    ensures
        index == match level {
            EptLevel::Pml4 => (address as int / 0x80_0000_0000) % 512,
            EptLevel::Pdpt => (address as int / 0x4000_0000) % 512,
            EptLevel::Pd => (address as int / 0x20_0000) % 512,
            EptLevel::Pt => (address as int / 0x1000) % 512,
        },
{
}

/// The pointer to a view holds the address of its root table, the depth of the
/// walk (four levels, one less), and ordinary memory for the walk itself.
pub proof fn law_pointer_to_a_view<A: EptPageAllocator + Clone>(
    image: ViewImage<A>,
    pointer: u64,
    root: HostPhysicalAddress,
)
    requires
        call_ensures(ViewImage::<A>::eptp, (&image,), pointer),
        call_ensures(ViewImage::<A>::root, (&image,), root),
    ensures
        pointer % 8 == 6,
        (pointer / 8) % 8 == 3,
        (pointer / 0x40) % 0x40 == 0,
        pointer / 0x1000 == root.get() / 0x1000,
{
    bits::lemma_pointer(root.get());
}

/// The numbers of memory types and the sizes of leaves are the architecture's.
pub proof fn law_types_and_sizes(
    memory_type: EptMemoryType,
    code: u8,
    number: u8,
    named: Option<EptMemoryType>,
    size: EptLeafSize,
    bytes: u64,
)
    requires
        call_ensures(EptMemoryType::code, (memory_type,), code),
        call_ensures(EptMemoryType::from_code, (number,), named),
        call_ensures(EptLeafSize::bytes, (size,), bytes),
    ensures
        code == registers::type_number(memory_type),
        named is Some <==> registers::names_type(number as int),
        named matches Some(found) ==> registers::type_number(found) == number,
        bytes == mapped_bytes(size),
{
}

/// Permissions are refused exactly when they would write without reading, or
/// execute without reading where the processor cannot; what is granted is what was
/// asked.
pub proof fn law_permissions_are_as_asked(
    read: bool,
    write: bool,
    execute: bool,
    execute_only: bool,
    result: MonadResult<EptPermissions>,
)
    requires
        call_ensures(EptPermissions::new, (read, write, execute, execute_only), result),
    ensures
        result is Err <==> (write && !read) || (execute && !read && !execute_only),
        result matches Ok(granted) ==> granted.read == read && granted.write == write
            && granted.execute == execute,
{
}

/// A range is taken exactly when it is whole pages inside the aperture, and is
/// what was asked for.
pub proof fn law_range_is_as_asked(
    start: u64,
    length: u64,
    aperture_end: u64,
    result: MonadResult<GpaRange>,
    address: MonadResult<GuestPhysicalAddress>,
)
    requires
        call_ensures(GpaRange::new, (start, length, aperture_end), result),
        call_ensures(GuestPhysicalAddress::from_page_aligned, (start,), address),
    ensures
        result is Ok <==> start % 0x1000 == 0 && length > 0 && length % 0x1000 == 0 && start
            + length <= aperture_end,
        result matches Ok(range) ==> range.spec_start().get() == start && range.spec_end() == start
            + length,
        address is Ok <==> start % 0x1000 == 0,
        address matches Ok(found) ==> found.get() == start,
{
}

/// The number under which a finding of the scan is told.
pub open spec fn finding_number(kind: EptValidationErrorKind) -> int {
    match kind {
        EptValidationErrorKind::AddressOutsideWidth => 1,
        EptValidationErrorKind::MissingOwnedTable => 2,
        EptValidationErrorKind::WrongTableKind => 3,
        EptValidationErrorKind::WrongTableOwner => 4,
        EptValidationErrorKind::CycleOrSharedTable => 5,
        EptValidationErrorKind::InvalidEntry => 6,
        EptValidationErrorKind::ArithmeticOverflow => 7,
        EptValidationErrorKind::MappingOutsideAperture => 8,
        EptValidationErrorKind::MappingGapOrOverlap => 9,
        EptValidationErrorKind::NonIdentityMapping => 10,
        EptValidationErrorKind::MemoryTypeMismatch => 11,
        EptValidationErrorKind::PermissionMismatch => 12,
        EptValidationErrorKind::UnreachableOwnedTable => 13,
        EptValidationErrorKind::WalkerMismatch => 14,
    }
}

/// The detail of a finding tells what it is, at which level, and on which page.
pub proof fn law_finding_is_told(error: EptValidationError, detail: u64)
    requires
        call_ensures(EptValidationError::packed_detail, (error,), detail),
        error.gpa < 0x1000_0000_0000_0000,
    ensures
        detail % 0x100 == finding_number(error.kind),
        (detail / 0x100) % 0x100 == match error.level {
            EptLevel::Pml4 => 4int,
            EptLevel::Pdpt => 3,
            EptLevel::Pd => 2,
            EptLevel::Pt => 1,
        },
        detail / 0x1_0000 == error.gpa / 0x1000,
{
    bits::lemma_packed(error.kind.spec_code(), error.level.spec_code() as u64, error.gpa);
}

} // verus!
