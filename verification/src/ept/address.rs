//! Physical addresses, ranges and permissions, checked when they are made.

use vstd::prelude::*;

use crate::bits;
use crate::error::{ErrorCode, ErrorPhase, MonadError, MonadResult};

verus! {

/// Bytes in the smallest page.
pub const PAGE_SIZE_4K: u64 = 0x1000;

/// Why an address, range or permission set was refused.
#[derive(Debug, Clone, Copy, PartialEq, Eq, Structural)]
pub enum AddressErrorDetail {
    ZeroLength,
    StartMisaligned,
    LengthMisaligned,
    EndOverflow,
    BeyondAperture,
    HostMisaligned,
    HostIntervalTooWide,
    WriteWithoutRead,
    ExecuteOnlyUnsupported,
    InvalidPhysicalWidth,
    InvalidPageOffset,
}

impl AddressErrorDetail {
    /// The number that an error carries for this detail.
    pub open spec fn spec_code(self) -> u64 {
        match self {
            AddressErrorDetail::ZeroLength => 1,
            AddressErrorDetail::StartMisaligned => 2,
            AddressErrorDetail::LengthMisaligned => 3,
            AddressErrorDetail::EndOverflow => 4,
            AddressErrorDetail::BeyondAperture => 5,
            AddressErrorDetail::HostMisaligned => 6,
            AddressErrorDetail::HostIntervalTooWide => 7,
            AddressErrorDetail::WriteWithoutRead => 8,
            AddressErrorDetail::ExecuteOnlyUnsupported => 9,
            AddressErrorDetail::InvalidPhysicalWidth => 10,
            AddressErrorDetail::InvalidPageOffset => 11,
        }
    }

    /// The number that an error carries for this detail.
    pub fn code(self) -> (code: u64)
        ensures
            code == self.spec_code(),
    {
        match self {
            AddressErrorDetail::ZeroLength => 1,
            AddressErrorDetail::StartMisaligned => 2,
            AddressErrorDetail::LengthMisaligned => 3,
            AddressErrorDetail::EndOverflow => 4,
            AddressErrorDetail::BeyondAperture => 5,
            AddressErrorDetail::HostMisaligned => 6,
            AddressErrorDetail::HostIntervalTooWide => 7,
            AddressErrorDetail::WriteWithoutRead => 8,
            AddressErrorDetail::ExecuteOnlyUnsupported => 9,
            AddressErrorDetail::InvalidPhysicalWidth => 10,
            AddressErrorDetail::InvalidPageOffset => 11,
        }
    }
}

/// The error that an address check reports.
pub open spec fn address_fault(code: ErrorCode, detail: AddressErrorDetail) -> MonadError {
    MonadError::new(ErrorPhase::EptBuild, code, detail.spec_code())
}

fn address_error(code: ErrorCode, detail: AddressErrorDetail) -> (error: MonadError)
    ensures
        error == address_fault(code, detail),
{
    MonadError::new(ErrorPhase::EptBuild, code, detail.code())
}

/// A page-aligned guest physical address.
#[derive(Debug, Clone, Copy, PartialEq, Eq, PartialOrd, Ord, Structural)]
pub struct GuestPhysicalAddress(u64);

impl GuestPhysicalAddress {
    #[verifier::type_invariant]
    pub closed spec fn aligned(self) -> bool {
        self.0 % 0x1000 == 0
    }

    /// The address as a number.
    pub closed spec fn spec_get(self) -> u64 {
        self.0
    }

    /// The address as a number; it is page aligned.
    #[verifier::when_used_as_spec(spec_get)]
    pub fn get(self) -> (address: u64)
        ensures
            address == self.spec_get(),
            address % 0x1000 == 0,
    {
        proof {
            use_type_invariant(&self);
        }
        self.0
    }

    /// Accepts exactly the page-aligned numbers.
    pub fn from_page_aligned(value: u64) -> (result: MonadResult<Self>)
        ensures
            match result {
                Ok(address) => value % 0x1000 == 0 && address.spec_get() == value,
                Err(error) => value % 0x1000 != 0 && error == address_fault(
                    ErrorCode::MisalignedAddress,
                    AddressErrorDetail::StartMisaligned,
                ),
            },
    {
        proof {
            bits::lemma_low_masks(value);
        }
        if value & (PAGE_SIZE_4K - 1) != 0 {
            return Err(
                address_error(ErrorCode::MisalignedAddress, AddressErrorDetail::StartMisaligned),
            );
        }
        Ok(Self(value))
    }
}

impl GuestPhysicalAddress {
    /// The guest address with a number.
    pub closed spec fn at(value: u64) -> Self {
        GuestPhysicalAddress(value)
    }
}

/// The guest address with a number has that number.
pub proof fn lemma_gpa_at(value: u64)
    ensures
        GuestPhysicalAddress::at(value).get() == value,
{
}

/// Two guest addresses with one number are one address.
pub proof fn lemma_gpa_is_its_number(left: GuestPhysicalAddress, right: GuestPhysicalAddress)
    requires
        left.get() == right.get(),
    ensures
        left == right,
{
}

/// A host physical address.
#[derive(Debug, Clone, Copy, PartialEq, Eq, PartialOrd, Ord, Structural)]
pub struct HostPhysicalAddress(u64);

/// The host address with a number has that number.
pub broadcast proof fn lemma_hpa_at(value: u64)
    ensures
        #[trigger] HostPhysicalAddress::at(value).spec_get() == value,
{
}

/// A host address is the one with its number.
pub broadcast proof fn lemma_hpa_is_its_number(address: HostPhysicalAddress)
    ensures
        HostPhysicalAddress::at(#[trigger] address.spec_get()) == address,
{
}

pub broadcast group group_host_addresses {
    lemma_hpa_at,
    lemma_hpa_is_its_number,
}

/// What a host mapping of `length` bytes at `value` must meet, and the error
/// for the first thing that it does not.
pub open spec fn host_mapping_fault(
    value: u64,
    length: u64,
    leaf_size: u64,
    max_physical_bits: u8,
) -> Option<MonadError> {
    if max_physical_bits == 0 || max_physical_bits >= 64 {
        Some(
            address_fault(
                ErrorCode::PhysicalAddressTooWide,
                AddressErrorDetail::InvalidPhysicalWidth,
            ),
        )
    } else if length == 0 {
        Some(address_fault(ErrorCode::InvalidRange, AddressErrorDetail::ZeroLength))
    } else if length % 0x1000 != 0 {
        Some(address_fault(ErrorCode::MisalignedAddress, AddressErrorDetail::LengthMisaligned))
    } else if leaf_size < 0x1000 || !bits::one_bit(leaf_size) || value & ((leaf_size
        - 1) as u64) != 0 {
        Some(address_fault(ErrorCode::MisalignedAddress, AddressErrorDetail::HostMisaligned))
    } else if value + length > u64::MAX {
        Some(address_fault(ErrorCode::AddressOverflow, AddressErrorDetail::EndOverflow))
    } else if value + length > bits::width_limit(max_physical_bits) {
        Some(
            address_fault(
                ErrorCode::PhysicalAddressTooWide,
                AddressErrorDetail::HostIntervalTooWide,
            ),
        )
    } else {
        None
    }
}

impl HostPhysicalAddress {
    /// The address as a number.
    pub closed spec fn spec_get(self) -> u64 {
        self.0
    }

    /// The host address with a number.
    pub closed spec fn at(value: u64) -> Self {
        HostPhysicalAddress(value)
    }

    /// The address as a number.
    #[verifier::when_used_as_spec(spec_get)]
    pub fn get(self) -> (address: u64)
        ensures
            address == self.spec_get(),
    {
        self.0
    }

    /// Accepts an address at which a leaf of `leaf_size` bytes can map
    /// `length` bytes below the physical width.
    pub fn for_mapping(
        value: u64,
        length: u64,
        leaf_size: u64,
        max_physical_bits: u8,
    ) -> (result: MonadResult<Self>)
        ensures
            match host_mapping_fault(value, length, leaf_size, max_physical_bits) {
                Some(error) => result == Err::<Self, MonadError>(error),
                None => result == Ok::<Self, MonadError>(HostPhysicalAddress::at(value)),
            },
    {
        proof {
            bits::lemma_low_masks(length);
        }
        if max_physical_bits == 0 || max_physical_bits >= 64 {
            return Err(
                address_error(
                    ErrorCode::PhysicalAddressTooWide,
                    AddressErrorDetail::InvalidPhysicalWidth,
                ),
            );
        }
        if length == 0 {
            return Err(address_error(ErrorCode::InvalidRange, AddressErrorDetail::ZeroLength));
        }
        if length & (PAGE_SIZE_4K - 1) != 0 {
            return Err(
                address_error(ErrorCode::MisalignedAddress, AddressErrorDetail::LengthMisaligned),
            );
        }
        if leaf_size < PAGE_SIZE_4K || leaf_size & (leaf_size - 1) != 0 || value & (leaf_size - 1)
            != 0 {
            return Err(
                address_error(ErrorCode::MisalignedAddress, AddressErrorDetail::HostMisaligned),
            );
        }
        let end: u64 = match value.checked_add(length) {
            Some(end) => end,
            None => {
                return Err(
                    address_error(ErrorCode::AddressOverflow, AddressErrorDetail::EndOverflow),
                );
            },
        };
        let width_end: u64 = 1u64 << (max_physical_bits as u64);
        if end > width_end {
            return Err(
                address_error(
                    ErrorCode::PhysicalAddressTooWide,
                    AddressErrorDetail::HostIntervalTooWide,
                ),
            );
        }
        Ok(Self(value))
    }

    /// Takes an address that was checked elsewhere.
    pub fn from_validated(value: u64) -> (address: Self)
        ensures
            address == HostPhysicalAddress::at(value),
    {
        Self(value)
    }
}

/// A nonzero number of pages.
#[derive(Debug, Clone, Copy, PartialEq, Eq, PartialOrd, Ord, Structural)]
pub struct PageCount(u64);

impl PageCount {
    #[verifier::type_invariant]
    pub closed spec fn nonzero(self) -> bool {
        self.0 != 0
    }

    pub closed spec fn spec_get(self) -> u64 {
        self.0
    }

    /// Accepts exactly the nonzero counts.
    pub fn new(value: u64) -> (result: MonadResult<Self>)
        ensures
            match result {
                Ok(count) => value != 0 && count.spec_get() == value,
                Err(error) => value == 0 && error == address_fault(
                    ErrorCode::InvalidRange,
                    AddressErrorDetail::ZeroLength,
                ),
            },
    {
        if value == 0 {
            return Err(address_error(ErrorCode::InvalidRange, AddressErrorDetail::ZeroLength));
        }
        Ok(Self(value))
    }

    #[verifier::when_used_as_spec(spec_get)]
    pub fn get(self) -> (count: u64)
        ensures
            count == self.spec_get(),
            count != 0,
    {
        proof {
            use_type_invariant(&self);
        }
        self.0
    }
}

/// A byte offset inside one page.
#[derive(Debug, Clone, Copy, PartialEq, Eq, PartialOrd, Ord, Structural)]
pub struct PageOffset(u32);

impl PageOffset {
    #[verifier::type_invariant]
    pub closed spec fn inside_page(self) -> bool {
        self.0 < 0x1000
    }

    pub closed spec fn spec_get(self) -> u32 {
        self.0
    }

    /// Accepts exactly the offsets below the page size.
    pub fn new(value: u32) -> (result: MonadResult<Self>)
        ensures
            match result {
                Ok(offset) => value < 0x1000 && offset.spec_get() == value,
                Err(error) => value >= 0x1000 && error == address_fault(
                    ErrorCode::InvalidRange,
                    AddressErrorDetail::InvalidPageOffset,
                ),
            },
    {
        if value >= 0x1000 {
            return Err(
                address_error(ErrorCode::InvalidRange, AddressErrorDetail::InvalidPageOffset),
            );
        }
        Ok(Self(value))
    }

    #[verifier::when_used_as_spec(spec_get)]
    pub fn get(self) -> (offset: u32)
        ensures
            offset == self.spec_get(),
            offset < 0x1000,
    {
        proof {
            use_type_invariant(&self);
        }
        self.0
    }
}

/// A nonempty run of guest pages that ends inside an aperture.
#[derive(Debug, Clone, Copy, PartialEq, Eq, Structural)]
pub struct GpaRange {
    start: GuestPhysicalAddress,
    length: u64,
}

/// Which rule a range breaks first, if it breaks one.
pub open spec fn range_fault(start: u64, length: u64, aperture_end: u64) -> Option<MonadError> {
    if start % 0x1000 != 0 {
        Some(address_fault(ErrorCode::MisalignedAddress, AddressErrorDetail::StartMisaligned))
    } else if length == 0 {
        Some(address_fault(ErrorCode::InvalidRange, AddressErrorDetail::ZeroLength))
    } else if length % 0x1000 != 0 {
        Some(address_fault(ErrorCode::MisalignedAddress, AddressErrorDetail::LengthMisaligned))
    } else if start + length > u64::MAX {
        Some(address_fault(ErrorCode::AddressOverflow, AddressErrorDetail::EndOverflow))
    } else if start + length > aperture_end {
        Some(address_fault(ErrorCode::InvalidRange, AddressErrorDetail::BeyondAperture))
    } else {
        None
    }
}

impl GpaRange {
    #[verifier::type_invariant]
    pub closed spec fn whole_pages(self) -> bool {
        &&& self.length != 0
        &&& self.length % 0x1000 == 0
        &&& self.start.get() % 0x1000 == 0
        &&& self.start.get() + self.length <= u64::MAX
    }

    pub closed spec fn spec_start(self) -> GuestPhysicalAddress {
        self.start
    }

    pub closed spec fn spec_length(self) -> u64 {
        self.length
    }

    /// The address just behind the range.
    pub open spec fn spec_end(self) -> int {
        self.spec_start().get() + self.spec_length()
    }

    /// Accepts a page-aligned, nonempty range that ends at or below
    /// `aperture_end`; otherwise names the first rule that it breaks.
    pub fn new(start: u64, length: u64, aperture_end: u64) -> (result: MonadResult<Self>)
        ensures
            match result {
                Ok(range) => {
                    &&& start % 0x1000 == 0
                    &&& length != 0
                    &&& length % 0x1000 == 0
                    &&& start + length <= aperture_end
                    &&& range.spec_start().get() == start
                    &&& range.spec_length() == length
                },
                Err(error) => range_fault(start, length, aperture_end) == Some(error),
            },
            result is Err <==> range_fault(start, length, aperture_end) is Some,
    {
        let start = match GuestPhysicalAddress::from_page_aligned(start) {
            Ok(start) => start,
            Err(error) => {
                return Err(error);
            },
        };
        proof {
            bits::lemma_low_masks(length);
        }
        if length == 0 {
            return Err(address_error(ErrorCode::InvalidRange, AddressErrorDetail::ZeroLength));
        }
        if length & (PAGE_SIZE_4K - 1) != 0 {
            return Err(
                address_error(ErrorCode::MisalignedAddress, AddressErrorDetail::LengthMisaligned),
            );
        }
        let end: u64 = match start.get().checked_add(length) {
            Some(end) => end,
            None => {
                return Err(
                    address_error(ErrorCode::AddressOverflow, AddressErrorDetail::EndOverflow),
                );
            },
        };
        if end > aperture_end {
            return Err(address_error(ErrorCode::InvalidRange, AddressErrorDetail::BeyondAperture));
        }
        Ok(Self { start, length })
    }

    /// The address just behind the range; a checked range has one.
    pub fn end(self) -> (result: MonadResult<u64>)
        ensures
            result matches Ok(end) && end == self.spec_end(),
    {
        proof {
            use_type_invariant(&self);
        }
        match self.start.get().checked_add(self.length) {
            Some(end) => Ok(end),
            None => Err(address_error(ErrorCode::AddressOverflow, AddressErrorDetail::EndOverflow)),
        }
    }

    #[verifier::when_used_as_spec(spec_start)]
    pub fn start(self) -> (start: GuestPhysicalAddress)
        ensures
            start == self.spec_start(),
    {
        self.start
    }

    /// The length in bytes, a nonzero number of whole pages.
    #[verifier::when_used_as_spec(spec_length)]
    pub fn length(self) -> (length: u64)
        ensures
            length == self.spec_length(),
            length != 0,
            length % 0x1000 == 0,
            self.spec_start().get() + length <= u64::MAX,
    {
        proof {
            use_type_invariant(&self);
        }
        self.length
    }
}

/// Which kinds of access a mapping grants.
#[derive(Debug, Clone, Copy, PartialEq, Eq, Structural)]
pub struct EptPermissions {
    pub read: bool,
    pub write: bool,
    pub execute: bool,
}

/// The combinations that the processor refuses.
pub open spec fn permission_fault(
    read: bool,
    write: bool,
    execute: bool,
    execute_only_supported: bool,
) -> Option<AddressErrorDetail> {
    if write && !read {
        Some(AddressErrorDetail::WriteWithoutRead)
    } else if execute && !read && !execute_only_supported {
        Some(AddressErrorDetail::ExecuteOnlyUnsupported)
    } else {
        None
    }
}

impl EptPermissions {
    /// The permission that grants everything.
    pub open spec fn full() -> Self {
        EptPermissions { read: true, write: true, execute: true }
    }

    pub fn new(read: bool, write: bool, execute: bool, execute_only_supported: bool) -> (result:
        MonadResult<Self>)
        ensures
            match permission_fault(read, write, execute, execute_only_supported) {
                Some(detail) => result == Err::<Self, MonadError>(
                    address_fault(ErrorCode::UnsupportedPermissionCombination, detail),
                ),
                None => result == Ok::<Self, MonadError>(EptPermissions { read, write, execute }),
            },
    {
        if write && !read {
            return Err(
                address_error(
                    ErrorCode::UnsupportedPermissionCombination,
                    AddressErrorDetail::WriteWithoutRead,
                ),
            );
        }
        if execute && !read && !execute_only_supported {
            return Err(
                address_error(
                    ErrorCode::UnsupportedPermissionCombination,
                    AddressErrorDetail::ExecuteOnlyUnsupported,
                ),
            );
        }
        Ok(Self { read, write, execute })
    }

    pub open spec fn spec_is_present(self) -> bool {
        self.read || self.write || self.execute
    }

    #[verifier::when_used_as_spec(spec_is_present)]
    pub fn is_present(self) -> (present: bool)
        ensures
            present == self.spec_is_present(),
    {
        self.read || self.write || self.execute
    }

    pub fn read(self) -> (granted: bool)
        ensures
            granted == self.read,
    {
        self.read
    }

    pub fn write(self) -> (granted: bool)
        ensures
            granted == self.write,
    {
        self.write
    }

    pub fn execute(self) -> (granted: bool)
        ensures
            granted == self.execute,
    {
        self.execute
    }
}

} // verus!
