//! The four levels of table entries: their encoding and their checked decoding.

use vstd::prelude::*;

use super::address::{EptPermissions, HostPhysicalAddress};
use crate::bits;
use crate::error::{ErrorCode, ErrorPhase, MonadError, MonadResult};

verus! {

broadcast use super::address::group_host_addresses;

/// The memory types that an entry can carry.
#[derive(Debug, Clone, Copy, PartialEq, Eq, Structural)]
pub enum EptMemoryType {
    Uncacheable,
    WriteCombining,
    WriteThrough,
    WriteProtected,
    WriteBack,
}

impl EptMemoryType {
    /// The architectural number of the type.
    pub open spec fn spec_code(self) -> u8 {
        match self {
            EptMemoryType::Uncacheable => 0,
            EptMemoryType::WriteCombining => 1,
            EptMemoryType::WriteThrough => 4,
            EptMemoryType::WriteProtected => 5,
            EptMemoryType::WriteBack => 6,
        }
    }

    /// The architectural number of the type.
    #[verifier::when_used_as_spec(spec_code)]
    pub fn code(self) -> (code: u8)
        ensures
            code == self.spec_code(),
    {
        match self {
            EptMemoryType::Uncacheable => 0,
            EptMemoryType::WriteCombining => 1,
            EptMemoryType::WriteThrough => 4,
            EptMemoryType::WriteProtected => 5,
            EptMemoryType::WriteBack => 6,
        }
    }

    /// The type with an architectural number, if the number names one.
    pub open spec fn spec_from_code(code: u8) -> Option<Self> {
        if code == 0 {
            Some(EptMemoryType::Uncacheable)
        } else if code == 1 {
            Some(EptMemoryType::WriteCombining)
        } else if code == 4 {
            Some(EptMemoryType::WriteThrough)
        } else if code == 5 {
            Some(EptMemoryType::WriteProtected)
        } else if code == 6 {
            Some(EptMemoryType::WriteBack)
        } else {
            None
        }
    }

    /// The type with an architectural number, if the number names one.
    #[verifier::when_used_as_spec(spec_from_code)]
    pub fn from_code(code: u8) -> (memory_type: Option<Self>)
        ensures
            memory_type == Self::spec_from_code(code),
    {
        match code {
            0 => Some(EptMemoryType::Uncacheable),
            1 => Some(EptMemoryType::WriteCombining),
            4 => Some(EptMemoryType::WriteThrough),
            5 => Some(EptMemoryType::WriteProtected),
            6 => Some(EptMemoryType::WriteBack),
            _ => None,
        }
    }
}

/// The levels of the hierarchy, from the root down.
#[derive(Debug, Clone, Copy, PartialEq, Eq, Structural)]
pub enum EptLevel {
    Pml4,
    Pdpt,
    Pd,
    Pt,
}

impl EptLevel {
    /// The number of levels from this one to the leaves, this one included.
    pub open spec fn spec_code(self) -> u8 {
        match self {
            EptLevel::Pml4 => 4,
            EptLevel::Pdpt => 3,
            EptLevel::Pd => 2,
            EptLevel::Pt => 1,
        }
    }

    #[verifier::when_used_as_spec(spec_code)]
    pub fn code(self) -> (code: u8)
        ensures
            code == self.spec_code(),
    {
        match self {
            EptLevel::Pml4 => 4,
            EptLevel::Pdpt => 3,
            EptLevel::Pd => 2,
            EptLevel::Pt => 1,
        }
    }
}

/// The sizes of memory that one leaf can map.
#[derive(Debug, Clone, Copy, PartialEq, Eq, Structural)]
pub enum EptLeafSize {
    Size4K,
    Size2M,
    Size1G,
}

impl EptLeafSize {
    pub open spec fn spec_bytes(self) -> u64 {
        match self {
            EptLeafSize::Size4K => 0x1000,
            EptLeafSize::Size2M => 0x20_0000,
            EptLeafSize::Size1G => 0x4000_0000,
        }
    }

    /// How many bytes the leaf maps.
    #[verifier::when_used_as_spec(spec_bytes)]
    pub fn bytes(self) -> (bytes: u64)
        ensures
            bytes == self.spec_bytes(),
    {
        match self {
            EptLeafSize::Size4K => 0x1000,
            EptLeafSize::Size2M => 0x20_0000,
            EptLeafSize::Size1G => 0x4000_0000,
        }
    }
}

/// Why an entry cannot be encoded or decoded.
#[derive(Debug, Clone, Copy, PartialEq, Eq, Structural)]
pub enum EptEntryError {
    InvalidPhysicalWidth,
    PhysicalAddressTooWide,
    MisalignedAddress,
    UnsupportedPermissions,
    ReservedBits,
    IllegalLargeLeaf,
    InvalidMemoryType,
    NonzeroNotPresent,
}

impl EptEntryError {
    pub open spec fn spec_code(self) -> u64 {
        match self {
            EptEntryError::InvalidPhysicalWidth => 1,
            EptEntryError::PhysicalAddressTooWide => 2,
            EptEntryError::MisalignedAddress => 3,
            EptEntryError::UnsupportedPermissions => 4,
            EptEntryError::ReservedBits => 5,
            EptEntryError::IllegalLargeLeaf => 6,
            EptEntryError::InvalidMemoryType => 7,
            EptEntryError::NonzeroNotPresent => 8,
        }
    }

    #[verifier::when_used_as_spec(spec_code)]
    pub fn code(self) -> (code: u64)
        ensures
            code == self.spec_code(),
    {
        match self {
            EptEntryError::InvalidPhysicalWidth => 1,
            EptEntryError::PhysicalAddressTooWide => 2,
            EptEntryError::MisalignedAddress => 3,
            EptEntryError::UnsupportedPermissions => 4,
            EptEntryError::ReservedBits => 5,
            EptEntryError::IllegalLargeLeaf => 6,
            EptEntryError::InvalidMemoryType => 7,
            EptEntryError::NonzeroNotPresent => 8,
        }
    }

    /// The error that an encoder reports for this reason.
    pub open spec fn spec_error(self) -> MonadError {
        MonadError::new(
            ErrorPhase::EptBuild,
            match self {
                EptEntryError::PhysicalAddressTooWide => ErrorCode::PhysicalAddressTooWide,
                EptEntryError::MisalignedAddress => ErrorCode::MisalignedAddress,
                EptEntryError::UnsupportedPermissions =>
                    ErrorCode::UnsupportedPermissionCombination,
                _ => ErrorCode::EptVerificationFailure,
            },
            self.spec_code(),
        )
    }
}

fn entry_error(detail: EptEntryError) -> (error: MonadError)
    ensures
        error == detail.spec_error(),
{
    let code = match detail {
        EptEntryError::PhysicalAddressTooWide => ErrorCode::PhysicalAddressTooWide,
        EptEntryError::MisalignedAddress => ErrorCode::MisalignedAddress,
        EptEntryError::UnsupportedPermissions => ErrorCode::UnsupportedPermissionCombination,
        _ => ErrorCode::EptVerificationFailure,
    };
    MonadError::new(ErrorPhase::EptBuild, code, detail.code())
}

/// What an entry says once it is decoded.
#[derive(Debug, Clone, Copy, PartialEq, Eq, Structural)]
pub enum DecodedEptEntry {
    NotPresent,
    Table { hpa: HostPhysicalAddress, permissions: EptPermissions },
    Leaf {
        hpa: HostPhysicalAddress,
        size: EptLeafSize,
        permissions: EptPermissions,
        memory_type: EptMemoryType,
    },
}

/// The widths of physical addresses that entries support.
pub open spec fn supported_width(max_physical_bits: u8) -> bool {
    12 <= max_physical_bits <= 48
}

/// The address bits of an entry that a width leaves usable.
fn physical_mask(max_physical_bits: u8) -> (result: MonadResult<u64>)
    ensures
        match result {
            Ok(mask) => supported_width(max_physical_bits) && mask == ((bits::width_limit(
                max_physical_bits,
            ) - 1) as u64) & !0xfffu64,
            Err(error) => !supported_width(max_physical_bits) && error
                == EptEntryError::InvalidPhysicalWidth.spec_error(),
        },
{
    if max_physical_bits < 12 || max_physical_bits > 48 {
        return Err(entry_error(EptEntryError::InvalidPhysicalWidth));
    }
    proof {
        bits::lemma_width_limit(max_physical_bits);
    }
    let limit: u64 = 1u64 << (max_physical_bits as u64);
    Ok((limit - 1) & !0xfff)
}

/// The word of an entry that points to a table and restricts nothing.
pub open spec fn table_word(hpa: HostPhysicalAddress) -> u64 {
    hpa.get() | 0x7
}

/// Why no table entry can point to `hpa`.
pub open spec fn table_fault(hpa: HostPhysicalAddress, max_physical_bits: u8) -> Option<
    EptEntryError,
> {
    if !supported_width(max_physical_bits) {
        Some(EptEntryError::InvalidPhysicalWidth)
    } else if hpa.get() % 0x1000 != 0 {
        Some(EptEntryError::MisalignedAddress)
    } else if hpa.get() >= bits::width_limit(max_physical_bits) {
        Some(EptEntryError::PhysicalAddressTooWide)
    } else {
        None
    }
}

fn encode_table(hpa: HostPhysicalAddress, max_physical_bits: u8) -> (result: MonadResult<u64>)
    ensures
        match table_fault(hpa, max_physical_bits) {
            Some(fault) => result == Err::<u64, MonadError>(fault.spec_error()),
            None => result == Ok::<u64, MonadError>(table_word(hpa)),
        },
{
    let mask: u64 = physical_mask(max_physical_bits)?;
    let address: u64 = hpa.get();
    proof {
        bits::lemma_low_masks(address);
    }
    if address & 0xfff != 0 {
        return Err(entry_error(EptEntryError::MisalignedAddress));
    }
    proof {
        bits::lemma_physical_mask(address, max_physical_bits);
    }
    if address & !mask != 0 {
        return Err(entry_error(EptEntryError::PhysicalAddressTooWide));
    }
    Ok(address | 0x7)
}

/// A flag as an entry bit.
pub open spec fn flag(set: bool) -> u64 {
    if set {
        1
    } else {
        0
    }
}

fn flag_bit(set: bool) -> (bit: u64)
    ensures
        bit == flag(set),
{
    if set {
        1
    } else {
        0
    }
}

/// The word of a present leaf.
pub open spec fn leaf_word(
    hpa: HostPhysicalAddress,
    size: EptLeafSize,
    permissions: EptPermissions,
    memory_type: EptMemoryType,
) -> u64 {
    flag(permissions.read) | (flag(permissions.write) << 1) | (flag(permissions.execute) << 2) | ((
    memory_type.spec_code() as u64) << 3) | hpa.get() | (flag(size != EptLeafSize::Size4K) << 7)
}

/// The word of a leaf; a leaf that grants nothing is an absent entry.
pub open spec fn leaf_entry_word(
    hpa: HostPhysicalAddress,
    size: EptLeafSize,
    permissions: EptPermissions,
    memory_type: EptMemoryType,
) -> u64 {
    if permissions.is_present() {
        leaf_word(hpa, size, permissions, memory_type)
    } else {
        0
    }
}

/// Why no leaf of this size can map `hpa` with these permissions.
pub open spec fn leaf_fault(
    hpa: HostPhysicalAddress,
    size: EptLeafSize,
    permissions: EptPermissions,
    max_physical_bits: u8,
) -> Option<EptEntryError> {
    if permissions.write && !permissions.read {
        Some(EptEntryError::UnsupportedPermissions)
    } else if hpa.get() % size.bytes() != 0 {
        Some(EptEntryError::MisalignedAddress)
    } else if !supported_width(max_physical_bits) {
        Some(EptEntryError::InvalidPhysicalWidth)
    } else if hpa.get() + size.bytes() > bits::width_limit(max_physical_bits) {
        Some(EptEntryError::PhysicalAddressTooWide)
    } else {
        None
    }
}

fn encode_leaf(
    hpa: HostPhysicalAddress,
    size: EptLeafSize,
    permissions: EptPermissions,
    memory_type: EptMemoryType,
    max_physical_bits: u8,
) -> (result: MonadResult<u64>)
    ensures
        match leaf_fault(hpa, size, permissions, max_physical_bits) {
            Some(fault) => result == Err::<u64, MonadError>(fault.spec_error()),
            None => result == Ok::<u64, MonadError>(
                leaf_entry_word(hpa, size, permissions, memory_type),
            ),
        },
{
    if permissions.write() && !permissions.read() {
        return Err(entry_error(EptEntryError::UnsupportedPermissions));
    }
    let address: u64 = hpa.get();
    proof {
        bits::lemma_low_masks(address);
    }
    if address & (size.bytes() - 1) != 0 {
        return Err(entry_error(EptEntryError::MisalignedAddress));
    }
    let mask: u64 = physical_mask(max_physical_bits)?;
    proof {
        bits::lemma_width_limit(max_physical_bits);
        bits::lemma_physical_mask(address, max_physical_bits);
    }
    let end: u64 = match address.checked_add(size.bytes()) {
        Some(end) => end,
        None => {
            return Err(entry_error(EptEntryError::PhysicalAddressTooWide));
        },
    };
    let limit: u64 = 1u64 << (max_physical_bits as u64);
    if address & !mask != 0 || end > limit {
        return Err(entry_error(EptEntryError::PhysicalAddressTooWide));
    }
    if !permissions.is_present() {
        return Ok(0);
    }
    Ok(
        flag_bit(permissions.read()) | (flag_bit(permissions.write()) << 1) | (flag_bit(
            permissions.execute(),
        ) << 2) | ((memory_type.code() as u64) << 3) | address | (flag_bit(
            size != EptLeafSize::Size4K,
        ) << 7),
    )
}

/// An entry of the root table.
#[derive(Debug, Clone, Copy, PartialEq, Eq, Structural)]
pub struct EptPml4Entry(pub u64);

/// An entry of a page-directory-pointer table.
#[derive(Debug, Clone, Copy, PartialEq, Eq, Structural)]
pub struct EptPdptEntry(pub u64);

/// An entry of a page directory.
#[derive(Debug, Clone, Copy, PartialEq, Eq, Structural)]
pub struct EptPdEntry(pub u64);

/// An entry of a page table.
#[derive(Debug, Clone, Copy, PartialEq, Eq, Structural)]
pub struct EptPtEntry(pub u64);

impl EptPml4Entry {
    pub fn new_table(hpa: HostPhysicalAddress, max_physical_bits: u8) -> (result: MonadResult<Self>)
        ensures
            match table_fault(hpa, max_physical_bits) {
                Some(fault) => result == Err::<Self, MonadError>(fault.spec_error()),
                None => result == Ok::<Self, MonadError>(EptPml4Entry(table_word(hpa))),
            },
    {
        Ok(Self(encode_table(hpa, max_physical_bits)?))
    }

    pub fn not_present() -> (entry: Self)
        ensures
            entry == EptPml4Entry(0),
    {
        Self(0)
    }

    pub fn is_present(self) -> (present: bool)
        ensures
            present == (self.0 & 0x7 != 0),
    {
        self.0 & 0x7 != 0
    }

    pub fn raw(self) -> (raw: u64)
        ensures
            raw == self.0,
    {
        self.0
    }
}

impl EptPdptEntry {
    pub fn new_table(hpa: HostPhysicalAddress, max_physical_bits: u8) -> (result: MonadResult<Self>)
        ensures
            match table_fault(hpa, max_physical_bits) {
                Some(fault) => result == Err::<Self, MonadError>(fault.spec_error()),
                None => result == Ok::<Self, MonadError>(EptPdptEntry(table_word(hpa))),
            },
    {
        Ok(Self(encode_table(hpa, max_physical_bits)?))
    }

    pub fn not_present() -> (entry: Self)
        ensures
            entry == EptPdptEntry(0),
    {
        Self(0)
    }

    pub fn is_present(self) -> (present: bool)
        ensures
            present == (self.0 & 0x7 != 0),
    {
        self.0 & 0x7 != 0
    }

    pub fn raw(self) -> (raw: u64)
        ensures
            raw == self.0,
    {
        self.0
    }

    pub fn new_1g_leaf(
        hpa: HostPhysicalAddress,
        permissions: EptPermissions,
        memory_type: EptMemoryType,
        max_physical_bits: u8,
    ) -> (result: MonadResult<Self>)
        ensures
            match leaf_fault(hpa, EptLeafSize::Size1G, permissions, max_physical_bits) {
                Some(fault) => result == Err::<Self, MonadError>(fault.spec_error()),
                None => result == Ok::<Self, MonadError>(
                    EptPdptEntry(
                        leaf_entry_word(hpa, EptLeafSize::Size1G, permissions, memory_type),
                    ),
                ),
            },
    {
        Ok(
            Self(
                encode_leaf(hpa, EptLeafSize::Size1G, permissions, memory_type, max_physical_bits)?,
            ),
        )
    }
}

impl EptPdEntry {
    pub fn new_table(hpa: HostPhysicalAddress, max_physical_bits: u8) -> (result: MonadResult<Self>)
        ensures
            match table_fault(hpa, max_physical_bits) {
                Some(fault) => result == Err::<Self, MonadError>(fault.spec_error()),
                None => result == Ok::<Self, MonadError>(EptPdEntry(table_word(hpa))),
            },
    {
        Ok(Self(encode_table(hpa, max_physical_bits)?))
    }

    pub fn not_present() -> (entry: Self)
        ensures
            entry == EptPdEntry(0),
    {
        Self(0)
    }

    pub fn is_present(self) -> (present: bool)
        ensures
            present == (self.0 & 0x7 != 0),
    {
        self.0 & 0x7 != 0
    }

    pub fn raw(self) -> (raw: u64)
        ensures
            raw == self.0,
    {
        self.0
    }

    pub fn new_2m_leaf(
        hpa: HostPhysicalAddress,
        permissions: EptPermissions,
        memory_type: EptMemoryType,
        max_physical_bits: u8,
    ) -> (result: MonadResult<Self>)
        ensures
            match leaf_fault(hpa, EptLeafSize::Size2M, permissions, max_physical_bits) {
                Some(fault) => result == Err::<Self, MonadError>(fault.spec_error()),
                None => result == Ok::<Self, MonadError>(
                    EptPdEntry(leaf_entry_word(hpa, EptLeafSize::Size2M, permissions, memory_type)),
                ),
            },
    {
        Ok(
            Self(
                encode_leaf(hpa, EptLeafSize::Size2M, permissions, memory_type, max_physical_bits)?,
            ),
        )
    }
}

impl EptPtEntry {
    pub fn new_4k_leaf(
        hpa: HostPhysicalAddress,
        permissions: EptPermissions,
        memory_type: EptMemoryType,
        max_physical_bits: u8,
    ) -> (result: MonadResult<Self>)
        ensures
            match leaf_fault(hpa, EptLeafSize::Size4K, permissions, max_physical_bits) {
                Some(fault) => result == Err::<Self, MonadError>(fault.spec_error()),
                None => result == Ok::<Self, MonadError>(
                    EptPtEntry(leaf_entry_word(hpa, EptLeafSize::Size4K, permissions, memory_type)),
                ),
            },
    {
        Ok(
            Self(
                encode_leaf(hpa, EptLeafSize::Size4K, permissions, memory_type, max_physical_bits)?,
            ),
        )
    }

    pub fn not_present() -> (entry: Self)
        ensures
            entry == EptPtEntry(0),
    {
        Self(0)
    }

    pub fn is_present(self) -> (present: bool)
        ensures
            present == (self.0 & 0x7 != 0),
    {
        self.0 & 0x7 != 0
    }

    pub fn raw(self) -> (raw: u64)
        ensures
            raw == self.0,
    {
        self.0
    }
}

/// The address field of an entry.
pub open spec fn entry_address(raw: u64) -> u64 {
    raw & 0x000f_ffff_ffff_f000
}

/// The permission bits of an entry.
pub open spec fn entry_permissions(raw: u64) -> EptPermissions {
    EptPermissions { read: raw & 1 != 0, write: raw & 2 != 0, execute: raw & 4 != 0 }
}

/// The size that a present entry maps; `None` for one that points to a table.
pub open spec fn entry_leaf_size(level: EptLevel, raw: u64) -> Option<EptLeafSize> {
    match level {
        EptLevel::Pml4 => None,
        EptLevel::Pdpt => if raw & 0x80 != 0 {
            Some(EptLeafSize::Size1G)
        } else {
            None
        },
        EptLevel::Pd => if raw & 0x80 != 0 {
            Some(EptLeafSize::Size2M)
        } else {
            None
        },
        EptLevel::Pt => Some(EptLeafSize::Size4K),
    }
}

/// The bits that a present entry may set.
pub open spec fn entry_allowed_bits(leaf: Option<EptLeafSize>, raw: u64) -> u64 {
    match leaf {
        Some(EptLeafSize::Size4K) => 0x3f | entry_address(raw),
        Some(_) => 0xbf | entry_address(raw),
        None => 0x7 | entry_address(raw),
    }
}

/// What the processor makes of an entry, or the first rule that it breaks.
pub open spec fn decoded(
    level: EptLevel,
    raw: u64,
    max_physical_bits: u8,
    execute_only_supported: bool,
) -> Result<DecodedEptEntry, EptEntryError> {
    let permissions = entry_permissions(raw);
    let leaf = entry_leaf_size(level, raw);
    if !supported_width(max_physical_bits) {
        Err(EptEntryError::InvalidPhysicalWidth)
    } else if raw == 0 {
        Ok(DecodedEptEntry::NotPresent)
    } else if raw & 0x7 == 0 {
        Err(EptEntryError::NonzeroNotPresent)
    } else if super::address::permission_fault(
        permissions.read,
        permissions.write,
        permissions.execute,
        execute_only_supported,
    ) is Some {
        Err(EptEntryError::UnsupportedPermissions)
    } else if raw & 0x80 != 0 && (level is Pml4 || level is Pt) {
        Err(EptEntryError::IllegalLargeLeaf)
    } else if entry_address(raw) >= bits::width_limit(max_physical_bits) {
        Err(EptEntryError::PhysicalAddressTooWide)
    } else if raw & !entry_allowed_bits(leaf, raw) != 0 {
        Err(EptEntryError::ReservedBits)
    } else {
        match leaf {
            Some(size) => if entry_address(raw) % size.bytes() != 0 {
                Err(EptEntryError::MisalignedAddress)
            } else if entry_address(raw) + size.bytes() > bits::width_limit(max_physical_bits) {
                Err(EptEntryError::PhysicalAddressTooWide)
            } else {
                match EptMemoryType::from_code(((raw >> 3) & 0x7) as u8) {
                    Some(memory_type) => Ok(
                        DecodedEptEntry::Leaf {
                            hpa: HostPhysicalAddress::at(entry_address(raw)),
                            size,
                            permissions,
                            memory_type,
                        },
                    ),
                    None => Err(EptEntryError::InvalidMemoryType),
                }
            },
            None => Ok(
                DecodedEptEntry::Table {
                    hpa: HostPhysicalAddress::at(entry_address(raw)),
                    permissions,
                },
            ),
        }
    }
}

proof fn lemma_entry_fields(raw: u64)
    ensures
        raw == 0 ==> raw & 0x7 == 0,
        (raw & 0x7) & 1 == raw & 1,
        (raw & 0x7) & 2 == raw & 2,
        (raw & 0x7) & 4 == raw & 4,
        (raw & 0x000f_ffff_ffff_f000) % 0x1000 == 0,
        (raw & 0x000f_ffff_ffff_f000) & 0xfff == 0,
        (raw & 0x000f_ffff_ffff_f000) < 0x10_0000_0000_0000,
        (raw >> 3) & 0x7 < 8,
{
    crate::bits::lemma_word(raw);
}

/// Decodes one entry as the processor with this width and these features does.
pub fn decode_entry(
    level: EptLevel,
    raw: u64,
    max_physical_bits: u8,
    execute_only_supported: bool,
) -> (result: Result<DecodedEptEntry, EptEntryError>)
    ensures
        result == decoded(level, raw, max_physical_bits, execute_only_supported),
{
    let mask: u64 = match physical_mask(max_physical_bits) {
        Ok(mask) => mask,
        Err(_) => {
            return Err(EptEntryError::InvalidPhysicalWidth);
        },
    };
    proof {
        lemma_entry_fields(raw);
    }
    let permission_bits: u64 = raw & 0x7;
    if permission_bits == 0 {
        return if raw == 0 {
            Ok(DecodedEptEntry::NotPresent)
        } else {
            Err(EptEntryError::NonzeroNotPresent)
        };
    }
    let permissions = match EptPermissions::new(
        permission_bits & 1 != 0,
        permission_bits & 2 != 0,
        permission_bits & 4 != 0,
        execute_only_supported,
    ) {
        Ok(permissions) => permissions,
        Err(_) => {
            return Err(EptEntryError::UnsupportedPermissions);
        },
    };
    let large: bool = raw & 0x80 != 0;
    let leaf_size: Option<EptLeafSize> = match (level, large) {
        (EptLevel::Pml4, true) | (EptLevel::Pt, true) => {
            return Err(EptEntryError::IllegalLargeLeaf);
        },
        (EptLevel::Pdpt, true) => Some(EptLeafSize::Size1G),
        (EptLevel::Pd, true) => Some(EptLeafSize::Size2M),
        (EptLevel::Pt, false) => Some(EptLeafSize::Size4K),
        _ => None,
    };
    let address: u64 = raw & 0x000f_ffff_ffff_f000;
    proof {
        bits::lemma_physical_mask(address, max_physical_bits);
        bits::lemma_low_masks(address);
        bits::lemma_width_limit(max_physical_bits);
    }
    if address & !mask != 0 {
        return Err(EptEntryError::PhysicalAddressTooWide);
    }
    match leaf_size {
        Some(size) => {
            let allowed: u64 = match size {
                EptLeafSize::Size4K => 0x3f | address,
                _ => 0xbf | address,
            };
            if raw & !allowed != 0 {
                return Err(EptEntryError::ReservedBits);
            }
            if address & (size.bytes() - 1) != 0 {
                return Err(EptEntryError::MisalignedAddress);
            }
            let limit: u64 = 1u64 << (max_physical_bits as u64);
            match address.checked_add(size.bytes()) {
                Some(end) => {
                    if end > limit {
                        return Err(EptEntryError::PhysicalAddressTooWide);
                    }
                },
                None => {
                    return Err(EptEntryError::PhysicalAddressTooWide);
                },
            }
            match EptMemoryType::from_code(((raw >> 3) & 0x7) as u8) {
                Some(memory_type) => Ok(
                    DecodedEptEntry::Leaf {
                        hpa: HostPhysicalAddress::from_validated(address),
                        size,
                        permissions,
                        memory_type,
                    },
                ),
                None => Err(EptEntryError::InvalidMemoryType),
            }
        },
        None => {
            let allowed: u64 = 0x7 | address;
            if raw & !allowed != 0 {
                return Err(EptEntryError::ReservedBits);
            }
            if address & 0xfff != 0 {
                return Err(EptEntryError::MisalignedAddress);
            }
            Ok(
                DecodedEptEntry::Table {
                    hpa: HostPhysicalAddress::from_validated(address),
                    permissions,
                },
            )
        },
    }
}

pub proof fn lemma_table_word_fields(address: u64)
    by (bit_vector)
    requires
        address % 0x1000 == 0,
        address < 0x1_0000_0000_0000,
    ensures
        (address | 0x7) & 1 != 0,
        (address | 0x7) & 2 != 0,
        (address | 0x7) & 4 != 0,
        (address | 0x7) & 0x7 != 0,
        (address | 0x7) & 0x80 == 0,
        (address | 0x7) & 0x000f_ffff_ffff_f000 == address,
        (address | 0x7) & !(0x7 | address) == 0,
        address | 0x7 != 0,
        address | 0x7 == address + 7,
{
}

/// What was encoded as a table entry decodes to that table, at every level
/// that has tables below it.
pub proof fn law_table_round_trip(
    level: EptLevel,
    hpa: HostPhysicalAddress,
    max_physical_bits: u8,
    execute_only_supported: bool,
)
    requires
        table_fault(hpa, max_physical_bits) is None,
        level !is Pt,
    ensures
        decoded(level, table_word(hpa), max_physical_bits, execute_only_supported) == Ok::<
            DecodedEptEntry,
            EptEntryError,
        >(DecodedEptEntry::Table { hpa, permissions: EptPermissions::full() }),
{
    bits::lemma_width_limit(max_physical_bits);
    lemma_table_word_fields(hpa.get());
}

/// The level at which a leaf of a size stands.
pub open spec fn leaf_level(size: EptLeafSize) -> EptLevel {
    match size {
        EptLeafSize::Size1G => EptLevel::Pdpt,
        EptLeafSize::Size2M => EptLevel::Pd,
        EptLeafSize::Size4K => EptLevel::Pt,
    }
}

/// A leaf's worth of memory can be mapped wherever it is aligned and fits.
pub proof fn lemma_leaf_fits(value: u64, size: EptLeafSize, max_physical_bits: u8)
    requires
        0 < max_physical_bits < 64,
    ensures
        super::address::host_mapping_fault(value, size.bytes(), size.bytes(), max_physical_bits)
            is None <==> (value % size.bytes() == 0 && value + size.bytes() <= bits::width_limit(
            max_physical_bits,
        )),
{
    bits::lemma_low_masks(value);
}

pub proof fn lemma_leaf_word_fields(r: u64, w: u64, x: u64, m: u64, l: u64, address: u64)
    by (bit_vector)
    requires
        r <= 1,
        w <= 1,
        x <= 1,
        m <= 7,
        l <= 1,
        address % 0x1000 == 0,
        address < 0x1_0000_0000_0000,
    ensures
        ((r | (w << 1) | (x << 2) | (m << 3) | address | (l << 7)) & 1 != 0) == (r == 1),
        ((r | (w << 1) | (x << 2) | (m << 3) | address | (l << 7)) & 2 != 0) == (w == 1),
        ((r | (w << 1) | (x << 2) | (m << 3) | address | (l << 7)) & 4 != 0) == (x == 1),
        ((r | (w << 1) | (x << 2) | (m << 3) | address | (l << 7)) & 7 == 0) == (r == 0 && w == 0
            && x == 0),
        ((r | (w << 1) | (x << 2) | (m << 3) | address | (l << 7)) & 0x80 != 0) == (l == 1),
        (r | (w << 1) | (x << 2) | (m << 3) | address | (l << 7)) & 0x000f_ffff_ffff_f000
            == address,
        ((r | (w << 1) | (x << 2) | (m << 3) | address | (l << 7)) >> 3) & 7 == m,
        l == 0 ==> (r | (w << 1) | (x << 2) | (m << 3) | address | (l << 7)) & !(0x3f | address)
            == 0,
        (r | (w << 1) | (x << 2) | (m << 3) | address | (l << 7)) & !(0xbf | address) == 0,
        r | (w << 1) | (x << 2) | (m << 3) | address | (l << 7) == r + 2 * w + 4 * x + 8 * m + 0x80 * l
            + address,
        r + w + x > 0 ==> (r | (w << 1) | (x << 2) | (m << 3) | address | (l << 7)) != 0,
{
}

/// What is aligned for a leaf is aligned for a page.
pub proof fn lemma_leaf_alignment(address: u64, size: EptLeafSize)
    requires
        address % size.bytes() == 0,
    ensures
        address % 0x1000 == 0,
{
    match size {
        EptLeafSize::Size4K => {},
        EptLeafSize::Size2M => {
            assert(address % 0x20_0000 == 0);
        },
        EptLeafSize::Size1G => {
            assert(address % 0x4000_0000 == 0);
        },
    }
}

/// What was encoded as a leaf decodes to that leaf; one that grants nothing
/// decodes as not present.
#[verifier::rlimit(30)]
#[verifier::spinoff_prover]
pub proof fn law_leaf_round_trip(
    hpa: HostPhysicalAddress,
    size: EptLeafSize,
    permissions: EptPermissions,
    memory_type: EptMemoryType,
    max_physical_bits: u8,
    execute_only_supported: bool,
)
    requires
        leaf_fault(hpa, size, permissions, max_physical_bits) is None,
        super::address::permission_fault(
            permissions.read,
            permissions.write,
            permissions.execute,
            execute_only_supported,
        ) is None,
    ensures
        decoded(
            leaf_level(size),
            leaf_entry_word(hpa, size, permissions, memory_type),
            max_physical_bits,
            execute_only_supported,
        ) == if permissions.is_present() {
            Ok::<DecodedEptEntry, EptEntryError>(
                DecodedEptEntry::Leaf { hpa, size, permissions, memory_type },
            )
        } else {
            Ok(DecodedEptEntry::NotPresent)
        },
{
    bits::lemma_width_limit(max_physical_bits);
    lemma_leaf_alignment(hpa.get(), size);
    lemma_leaf_word_fields(
        flag(permissions.read),
        flag(permissions.write),
        flag(permissions.execute),
        memory_type.spec_code() as u64,
        flag(size != EptLeafSize::Size4K),
        hpa.get(),
    );
}

/// A leaf whose permissions the processor lacks is refused when it is decoded.
#[verifier::rlimit(30)]
#[verifier::spinoff_prover]
pub proof fn lemma_unsupported_leaf(
    hpa: HostPhysicalAddress,
    size: EptLeafSize,
    permissions: EptPermissions,
    memory_type: EptMemoryType,
    max_physical_bits: u8,
    execute_only_supported: bool,
)
    requires
        leaf_fault(hpa, size, permissions, max_physical_bits) is None,
        super::address::permission_fault(
            permissions.read,
            permissions.write,
            permissions.execute,
            execute_only_supported,
        ) is Some,
    ensures
        decoded(
            leaf_level(size),
            leaf_entry_word(hpa, size, permissions, memory_type),
            max_physical_bits,
            execute_only_supported,
        ) == Err::<DecodedEptEntry, EptEntryError>(EptEntryError::UnsupportedPermissions),
{
    bits::lemma_width_limit(max_physical_bits);
    lemma_leaf_alignment(hpa.get(), size);
    lemma_leaf_word_fields(
        flag(permissions.read),
        flag(permissions.write),
        flag(permissions.execute),
        memory_type.spec_code() as u64,
        flag(size != EptLeafSize::Size4K),
        hpa.get(),
    );
}

/// Encodes a leaf of any size.
pub fn leaf_entry(
    size: EptLeafSize,
    hpa: HostPhysicalAddress,
    permissions: EptPermissions,
    memory_type: EptMemoryType,
    max_physical_bits: u8,
) -> (result: MonadResult<u64>)
    ensures
        match leaf_fault(hpa, size, permissions, max_physical_bits) {
            Some(fault) => result == Err::<u64, MonadError>(fault.spec_error()),
            None => result == Ok::<u64, MonadError>(
                leaf_entry_word(hpa, size, permissions, memory_type),
            ),
        },
{
    match size {
        EptLeafSize::Size1G => Ok(
            EptPdptEntry::new_1g_leaf(hpa, permissions, memory_type, max_physical_bits)?.raw(),
        ),
        EptLeafSize::Size2M => Ok(
            EptPdEntry::new_2m_leaf(hpa, permissions, memory_type, max_physical_bits)?.raw(),
        ),
        EptLeafSize::Size4K => Ok(
            EptPtEntry::new_4k_leaf(hpa, permissions, memory_type, max_physical_bits)?.raw(),
        ),
    }
}

} // verus!
