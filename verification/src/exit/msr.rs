//! A guest that reads or writes a model-specific register.

use vstd::prelude::*;

use super::disposition::{ExitDisposition, FatalReason};
use super::eventinjection;
use super::eventinjection::inject_gp;

verus! {

/// Whether a write to a register would change the memory types that the views
/// were built with: the variable ranges, the fixed ones, and the default.
pub open spec fn spec_is_mtrr_write(msr: u32, variable_count: u8) -> bool {
    ||| 0x200 <= msr < 0x200 + 2 * variable_count
    ||| msr == 0x250
    ||| msr == 0x258
    ||| msr == 0x259
    ||| 0x268 <= msr <= 0x26f
    ||| msr == 0x2ff
}

/// Whether a write to a register would change the memory types.
#[verifier::when_used_as_spec(spec_is_mtrr_write)]
pub fn is_mtrr_write(msr: u32, variable_count: u8) -> (mtrr: bool)
    ensures
        mtrr == spec_is_mtrr_write(msr, variable_count),
{
    let variable_end: u32 = 0x200 + 2 * (variable_count as u32);
    (0x200 <= msr && msr < variable_end) || msr == 0x250 || msr == 0x258 || msr == 0x259 || (0x268
        <= msr && msr <= 0x26f) || msr == 0x2ff
}

/// What an access to a register comes to.
pub open spec fn msr_disposition(msr: u32, write: bool, variable_count: u8) -> ExitDisposition {
    if write && spec_is_mtrr_write(msr, variable_count) {
        ExitDisposition::Fatal(FatalReason::MtrrChangedWhileRunning)
    } else {
        eventinjection::spec_inject_gp()
    }
}

/// The guest may not touch a register that is intercepted, and what changes the
/// memory types ends the hypervisor.
pub fn handle(rcx: u64, write: bool, variable_count: u8) -> (disposition: ExitDisposition)
    ensures
        disposition == msr_disposition(rcx as u32, write, variable_count),
{
    let msr: u32 = #[verifier::truncate]
    (rcx as u32);
    if write && is_mtrr_write(msr, variable_count) {
        return ExitDisposition::Fatal(FatalReason::MtrrChangedWhileRunning);
    }
    inject_gp()
}

} // verus!
