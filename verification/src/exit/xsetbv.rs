//! A guest that sets its extended control register.

use vstd::prelude::*;

use super::disposition::{ExitDisposition, FatalReason};
use super::eventinjection;
use super::eventinjection::{inject_gp, inject_ud};

verus! {

/// The components whose dependencies are known. No others may reach the
/// privileged instruction.
pub const KNOWN_XCR0: u64 = 0xe_02ff;

/// Whether a mask of components can be enabled: all of them are supported, the
/// basic one is there, and those that depend on each other come together.
pub open spec fn spec_valid_xcr0(value: u64, supported: u64) -> bool {
    &&& value & !supported == 0
    &&& value & 1 != 0
    &&& value & 4 != 0 ==> value & 2 != 0
    &&& value & 0x18 == 0 || value & 0x18 == 0x18
    &&& value & 0xe0 != 0 ==> value & 0xe0 == 0xe0 && value & 6 == 6
    &&& value & 0x6_0000 == 0 || value & 0x6_0000 == 0x6_0000
}

/// Whether a mask of components can be enabled.
#[verifier::when_used_as_spec(spec_valid_xcr0)]
pub fn valid_xcr0(value: u64, supported: u64) -> (valid: bool)
    ensures
        valid == spec_valid_xcr0(value, supported),
{
    value & !supported == 0 && value & 1 != 0 && (value & 4 == 0 || value & 2 != 0) && (value & 0x18
        == 0 || value & 0x18 == 0x18) && (value & 0xe0 == 0 || (value & 0xe0 == 0xe0 && value & 6
        == 6)) && (value & 0x6_0000 == 0 || value & 0x6_0000 == 0x6_0000)
}

/// What keeps the guest from setting the register, the first that the processor
/// would report.
pub open spec fn refusal(
    cs: u16,
    cr4: u64,
    index: u32,
    value: u64,
    supported: u64,
) -> Option<ExitDisposition> {
    if cr4 & 0x4_0000 == 0 {
        Some(eventinjection::spec_inject_ud())
    } else if cs & 3 != 0 || index != 0 || !spec_valid_xcr0(value, supported) {
        Some(eventinjection::spec_inject_gp())
    } else if supported & !KNOWN_XCR0 != 0 {
        Some(ExitDisposition::Fatal(FatalReason::InvalidVcpuState))
    } else {
        None
    }
}

/// Whether the guest may set the register.
pub fn admission(cs: u16, cr4: u64, index: u32, value: u64, supported: u64) -> (result: Result<
    (),
    ExitDisposition,
>)
    ensures
        result == match refusal(cs, cr4, index, value, supported) {
            Some(disposition) => Err::<(), ExitDisposition>(disposition),
            None => Ok(()),
        },
{
    if cr4 & 0x4_0000 == 0 {
        return Err(inject_ud());
    }
    if cs & 3 != 0 || index != 0 || !valid_xcr0(value, supported) {
        return Err(inject_gp());
    }
    if supported & !KNOWN_XCR0 != 0 {
        return Err(ExitDisposition::Fatal(FatalReason::InvalidVcpuState));
    }
    Ok(())
}

/// A value that two registers hold in their low halves.
pub open spec fn spec_joined(high: u64, low: u64) -> u64 {
    (low as u32) as u64 | (((high as u32) as u64) << 32)
}

/// A value that two registers hold in their low halves.
#[verifier::when_used_as_spec(spec_joined)]
pub fn joined(high: u64, low: u64) -> (value: u64)
    ensures
        value == spec_joined(high, low),
{
    let low_half: u32 = #[verifier::truncate]
    (low as u32);
    let high_half: u32 = #[verifier::truncate]
    (high as u32);
    low_half as u64 | ((high_half as u64) << 32)
}

} // verus!
