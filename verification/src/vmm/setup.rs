//! What the monitor needs before it starts: memory, limits, and the bitmap of
//! registers that it watches.

use vstd::prelude::*;

use crate::arch::intel::caps::{IntelCapabilities, ValidatedPlatform};
use crate::arch::intel::vmx::VMX_REGION_SIZE;
use crate::bits;
use crate::ept::address::PAGE_SIZE_4K;
use crate::ept::inventory::PhysicalRange;
use crate::error::{ErrorCode, ErrorPhase, MonadError, MonadResult};
use crate::exit::msr;
use crate::exit::msr::is_mtrr_write;

verus! {

pub const HOST_STACK_SIZE: usize = 0x6000;

/// How long a rendezvous may take, unless the controller says otherwise.
pub const RENDEZVOUS_TSC_BUDGET: u64 = 0x4_0000_0000;

/// Where the views end, unless the controller says otherwise.
pub const DEFAULT_APERTURE_END: u64 = 0x80_0000_0000;

/// How many bytes the bitmap of registers takes.
pub const MSR_BITMAP_BYTES: usize = 0x1000;

/// How the monitor is to be started.
pub struct VmmStartConfig {
    pub session_nonce: u64,
    pub aperture_limit: u64,
    pub rendezvous_timeout_tsc: u64,
    pub device_ranges: Vec<PhysicalRange>,
}

impl VmmStartConfig {
    pub fn new(session_nonce: u64) -> (config: Self)
        ensures
            config.session_nonce == session_nonce,
            config.aperture_limit == 0,
            config.rendezvous_timeout_tsc == RENDEZVOUS_TSC_BUDGET,
            config.device_ranges@ == Seq::<PhysicalRange>::empty(),
    {
        VmmStartConfig {
            session_nonce,
            aperture_limit: 0,
            rendezvous_timeout_tsc: RENDEZVOUS_TSC_BUDGET,
            device_ranges: Vec::new(),
        }
    }

    /// A start needs a session and a time limit.
    pub fn check(&self) -> (result: MonadResult<()>)
        ensures
            result == if self.session_nonce == 0 || self.rendezvous_timeout_tsc == 0 {
                Err::<(), MonadError>(
                    MonadError::new(ErrorPhase::Session, ErrorCode::WrongSession, 0),
                )
            } else {
                Ok(())
            },
    {
        if self.session_nonce == 0 || self.rendezvous_timeout_tsc == 0 {
            return Err(MonadError::new(ErrorPhase::Session, ErrorCode::WrongSession, 0));
        }
        Ok(())
    }
}

/// Where the views end: where the controller says, or at the default, but never
/// beyond what the processor can address.
pub open spec fn aperture_limit(requested: u64, physical_bits: u8) -> MonadResult<u64> {
    let architectural = bits::width_limit(physical_bits);
    let limit = if requested != 0 {
        requested
    } else if DEFAULT_APERTURE_END < architectural {
        DEFAULT_APERTURE_END
    } else {
        architectural
    };
    if limit == 0 || limit > architectural || limit % 0x1000 != 0 {
        Err(MonadError::new(ErrorPhase::EptBuild, ErrorCode::InvalidRange, limit))
    } else {
        Ok(limit)
    }
}

/// Where the views end.
pub fn configured_limit(requested: u64, physical_bits: u8) -> (result: MonadResult<u64>)
    requires
        physical_bits < 64,
    ensures
        result == aperture_limit(requested, physical_bits),
{
    let architectural: u64 = 1u64 << (physical_bits as u64);
    let limit: u64 = if requested != 0 {
        requested
    } else if DEFAULT_APERTURE_END < architectural {
        DEFAULT_APERTURE_END
    } else {
        architectural
    };
    proof {
        bits::lemma_low_masks(limit);
    }
    if limit == 0 || limit > architectural || limit & (PAGE_SIZE_4K - 1) != 0 {
        return Err(MonadError::new(ErrorPhase::EptBuild, ErrorCode::InvalidRange, limit));
    }
    Ok(limit)
}

/// Whether memory is aligned, in both address spaces, and the processor can
/// address all of it.
pub fn valid_physical_allocation(
    virtual_address: usize,
    physical_address: u64,
    size: usize,
    alignment: usize,
    physical_bits: u8,
) -> (valid: bool)
    ensures
        valid == {
            &&& alignment > 0
            &&& alignment & ((alignment - 1) as usize) == 0
            &&& virtual_address & ((alignment - 1) as usize) == 0
            &&& physical_address & ((alignment - 1) as u64) == 0
            &&& physical_bits < 64
            &&& physical_address + size <= bits::width_limit(physical_bits)
        },
{
    if alignment == 0 || alignment & (alignment - 1) != 0 || virtual_address & (alignment - 1) != 0
        || physical_address & ((alignment - 1) as u64) != 0 {
        return false;
    }
    if physical_bits >= 64 {
        return false;
    }
    let limit: u64 = 1u64 << (physical_bits as u64);
    match physical_address.checked_add(size as u64) {
        Some(end) => end <= limit,
        None => false,
    }
}

/// Whether memory can be a VMX region.
pub fn valid_vmx_allocation(virtual_address: usize, physical: u64, physical_bits: u8) -> (valid:
    bool)
    ensures
        valid == {
            &&& virtual_address & 0xfff == 0
            &&& physical & 0xfff == 0
            &&& physical_bits < 64
            &&& physical + VMX_REGION_SIZE <= bits::width_limit(physical_bits)
        },
{
    assert(0x1000usize & 0xfffusize == 0) by (bit_vector);
    valid_physical_allocation(
        virtual_address,
        physical,
        VMX_REGION_SIZE,
        VMX_REGION_SIZE,
        physical_bits,
    )
}

/// How many bytes to ask for so that an aligned save area fits in them.
pub fn xsave_allocation_size(size: u32) -> (bytes: Option<usize>)
    ensures
        bytes == if size + 63 > usize::MAX {
            None
        } else {
            Some((size + 63) as usize)
        },
{
    (size as usize).checked_add(63)
}

/// Where the save area lies in the memory that was asked for: at the first
/// multiple of 64.
pub fn xsave_placement(storage: usize, size: u32) -> (address: Option<usize>)
    ensures
        match address {
            Some(address) => {
                &&& storage + size + 63 <= usize::MAX
                &&& address % 64 == 0
                &&& storage <= address < storage + 64
                &&& address + size <= storage + size + 63
            },
            None => storage + size + 63 > usize::MAX,
        },
{
    let bytes: usize = xsave_allocation_size(size)?;
    let storage_end: usize = storage.checked_add(bytes)?;
    let raised: usize = storage.checked_add(63)?;
    assert(raised & !63usize == raised / 64 * 64) by (bit_vector);
    let aligned: usize = raised & !63usize;
    let end: usize = aligned.checked_add(size as usize)?;
    if end > storage_end {
        return None;
    }
    Some(aligned)
}

proof fn lemma_byte(
    b0: bool,
    b1: bool,
    b2: bool,
    b3: bool,
    b4: bool,
    b5: bool,
    b6: bool,
    b7: bool,
    bit: u8,
)
    by (bit_vector)
    requires
        bit < 8,
    ensures
        ({
            let byte = (if b0 {
                1u8
            } else {
                0
            }) | (if b1 {
                2u8
            } else {
                0
            }) | (if b2 {
                4u8
            } else {
                0
            }) | (if b3 {
                8u8
            } else {
                0
            }) | (if b4 {
                16u8
            } else {
                0
            }) | (if b5 {
                32u8
            } else {
                0
            }) | (if b6 {
                64u8
            } else {
                0
            }) | (if b7 {
                128u8
            } else {
                0
            });
            (byte & (1u8 << bit) != 0) == (if bit == 0 {
                b0
            } else if bit == 1 {
                b1
            } else if bit == 2 {
                b2
            } else if bit == 3 {
                b3
            } else if bit == 4 {
                b4
            } else if bit == 5 {
                b5
            } else if bit == 6 {
                b6
            } else {
                b7
            })
        }),
{
}

/// Whether a byte of the bitmap watches a register of its eight.
pub open spec fn watches(byte: u8, bit: u8) -> bool {
    byte & (1u8 << bit) != 0
}

fn flag(set: bool, value: u8) -> (flag: u8)
    ensures
        flag == if set {
            value
        } else {
            0
        },
{
    if set {
        value
    } else {
        0
    }
}

/// The byte of the bitmap for eight registers.
fn watch_byte(first: u32, variable_count: u8) -> (byte: u8)
    requires
        first <= 0x1ff8,
    ensures
        forall|bit: u8|
            bit < 8 ==> #[trigger] watches(byte, bit) == msr::spec_is_mtrr_write(
                (first + bit) as u32,
                variable_count,
            ),
{
    let b0: bool = is_mtrr_write(first, variable_count);
    let b1: bool = is_mtrr_write(first + 1, variable_count);
    let b2: bool = is_mtrr_write(first + 2, variable_count);
    let b3: bool = is_mtrr_write(first + 3, variable_count);
    let b4: bool = is_mtrr_write(first + 4, variable_count);
    let b5: bool = is_mtrr_write(first + 5, variable_count);
    let b6: bool = is_mtrr_write(first + 6, variable_count);
    let b7: bool = is_mtrr_write(first + 7, variable_count);
    let byte: u8 = flag(b0, 1) | flag(b1, 2) | flag(b2, 4) | flag(b3, 8) | flag(b4, 16) | flag(
        b5,
        32,
    ) | flag(b6, 64) | flag(b7, 128);
    proof {
        assert forall|bit: u8| bit < 8 implies #[trigger] watches(byte, bit)
            == msr::spec_is_mtrr_write((first + bit) as u32, variable_count) by {
            lemma_byte(b0, b1, b2, b3, b4, b5, b6, b7, bit);
        }
    }
    byte
}

/// The bitmap of registers whose writes exit: those that would change the
/// memory types, and no others. Reads do not exit.
pub fn msr_bitmap(variable_count: u8) -> (bitmap: Vec<u8>)
    ensures
        bitmap@.len() == MSR_BITMAP_BYTES,
        forall|i: int|
            0 <= i < MSR_BITMAP_BYTES && !(2048 <= i < 3072) ==> #[trigger] bitmap@[i] == 0,
        forall|i: int, bit: u8|
            0 <= i < 1024 && bit < 8 ==> #[trigger] watches(bitmap@[2048 + i], bit)
                == msr::spec_is_mtrr_write((i * 8 + bit) as u32, variable_count),
{
    let mut bitmap: Vec<u8> = Vec::new();
    while bitmap.len() < MSR_BITMAP_BYTES
        invariant
            bitmap@.len() <= MSR_BITMAP_BYTES,
            forall|i: int|
                0 <= i < bitmap@.len() && !(2048 <= i < 3072) ==> #[trigger] bitmap@[i] == 0,
            forall|i: int, bit: u8|
                0 <= i < 1024 && 2048 + i < bitmap@.len() && bit < 8 ==> #[trigger] watches(
                    bitmap@[2048 + i],
                    bit,
                ) == msr::spec_is_mtrr_write((i * 8 + bit) as u32, variable_count),
        decreases MSR_BITMAP_BYTES - bitmap@.len(),
    {
        let index: usize = bitmap.len();
        if 2048 <= index && index < 3072 {
            let byte: u8 = watch_byte(((index - 2048) * 8) as u32, variable_count);
            bitmap.push(byte);
        } else {
            bitmap.push(0);
        }
    }
    bitmap
}

/// What the controller is told of the monitor.
#[derive(Debug, Clone, Copy, PartialEq, Eq, Structural)]
pub struct PublicCapabilities {
    pub capability_bits: u64,
    pub aperture_end: u64,
    pub max_physical_address_bits: u8,
    pub hypervisor_present: bool,
    pub cpu_count: u16,
}

pub open spec fn one_if(set: bool) -> u64 {
    if set {
        1
    } else {
        0
    }
}

/// What the page tables can do, one bit each.
pub open spec fn spec_capability_bits(capabilities: &IntelCapabilities) -> u64 {
    let ept = capabilities.ept;
    one_if(ept.four_level_walk) | (one_if(ept.write_back_walk) << 1) | (one_if(ept.page_2m) << 2)
        | (one_if(ept.page_1g) << 3) | (one_if(ept.invept_single) << 4) | (one_if(ept.invept_all)
        << 5) | (one_if(ept.execute_only) << 6) | (one_if(ept.accessed_dirty) << 7)
}

fn as_bit(set: bool) -> (bit: u64)
    ensures
        bit == one_if(set),
{
    if set {
        1
    } else {
        0
    }
}

/// What the page tables can do, one bit each.
pub fn encode_capability_bits(capabilities: &IntelCapabilities) -> (encoded: u64)
    ensures
        encoded == spec_capability_bits(capabilities),
{
    let ept = capabilities.ept;
    as_bit(ept.four_level_walk) | (as_bit(ept.write_back_walk) << 1) | (as_bit(ept.page_2m) << 2)
        | (as_bit(ept.page_1g) << 3) | (as_bit(ept.invept_single) << 4) | (as_bit(ept.invept_all)
        << 5) | (as_bit(ept.execute_only) << 6) | (as_bit(ept.accessed_dirty) << 7)
}

/// What a controller is told before the monitor runs. Under another hypervisor
/// it is told nothing but that.
pub fn inspect_capabilities(platform: Option<&ValidatedPlatform>) -> (capabilities:
    PublicCapabilities)
    ensures
        capabilities == match platform {
            None => PublicCapabilities {
                capability_bits: 0,
                aperture_end: 0,
                max_physical_address_bits: 0,
                hypervisor_present: true,
                cpu_count: 0,
            },
            Some(found) => {
                let width = found.spec_capabilities().max_physical_address_bits;
                PublicCapabilities {
                    capability_bits: spec_capability_bits(&found.spec_capabilities()),
                    aperture_end: if DEFAULT_APERTURE_END < bits::width_limit(width) {
                        DEFAULT_APERTURE_END
                    } else {
                        bits::width_limit(width)
                    },
                    max_physical_address_bits: width,
                    hypervisor_present: false,
                    cpu_count: found.spec_topology().view().len() as u16,
                }
            },
        },
{
    match platform {
        None => PublicCapabilities {
            capability_bits: 0,
            aperture_end: 0,
            max_physical_address_bits: 0,
            hypervisor_present: true,
            cpu_count: 0,
        },
        Some(found) => {
            let capabilities = found.capabilities();
            let architectural: u64 = 1u64 << (capabilities.max_physical_address_bits as u64);
            PublicCapabilities {
                capability_bits: encode_capability_bits(&capabilities),
                aperture_end: if DEFAULT_APERTURE_END < architectural {
                    DEFAULT_APERTURE_END
                } else {
                    architectural
                },
                max_physical_address_bits: capabilities.max_physical_address_bits,
                hypervisor_present: false,
                cpu_count: found.topology().len(),
            }
        },
    }
}

} // verus!
