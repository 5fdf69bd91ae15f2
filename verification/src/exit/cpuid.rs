//! A guest that asks what the processor can do.

use vstd::prelude::*;

use super::disposition::ExitDisposition;
use crate::arch::intel::caps::CpuidRegisters;
use crate::arch::intel::vmcs::GuestRegs;
use crate::bits;

verus! {

const FEATURE_INFORMATION: u32 = 0x1;

const EXTENDED_FEATURES: u32 = 0x7;

const HYPERVISOR_PRESENT_BIT: usize = 31;

const PROTECTION_KEYS_ENABLED_BIT: usize = 4;

const EXTENDED_STATE: u32 = 0xd;

/// What the processor is asked for the guest.
#[derive(Debug, Clone, Copy, PartialEq, Eq, Structural)]
pub struct CpuidQuestion {
    pub leaf: u32,
    pub subleaf: u32,
    /// The answer depends on the state components that are selected, so the
    /// guest's own are selected while it is asked.
    pub under_guest_mask: bool,
}

/// The question that the guest's registers put. What the extended state takes up
/// is asked under the guest's own mask.
pub fn question(regs: &GuestRegs) -> (asked: CpuidQuestion)
    ensures
        asked.leaf == regs.rax as u32,
        asked.subleaf == regs.rcx as u32,
        asked.under_guest_mask == (asked.leaf == 13 && asked.subleaf <= 1),
{
    let leaf: u32 = #[verifier::truncate]
    (regs.rax as u32);
    let subleaf: u32 = #[verifier::truncate]
    (regs.rcx as u32);
    CpuidQuestion { leaf, subleaf, under_guest_mask: leaf == EXTENDED_STATE && subleaf <= 1 }
}

/// What the guest is told: what the processor says, but for what would show
/// the hypervisor, and with the protection keys as the guest has set them.
pub open spec fn guest_answer(
    leaf: u32,
    subleaf: u32,
    guest_cr4: u64,
    native: CpuidRegisters,
) -> CpuidRegisters {
    if leaf == 7 && subleaf == 0 {
        CpuidRegisters { ecx: bits::with_bit_u32(native.ecx, 4, guest_cr4 & 0x40_0000 != 0), ..native }
    } else if leaf == 1 {
        CpuidRegisters { ecx: bits::with_bit_u32(native.ecx, 31, false), ..native }
    } else {
        native
    }
}

/// Answers the guest, by what the processor said to the question that the guest
/// put.
pub fn handle(regs: &mut GuestRegs, guest_cr4: u64, native: CpuidRegisters) -> (disposition:
    ExitDisposition)
    ensures
        disposition == ExitDisposition::ResumeAndAdvance,
        ({
            let answer = guest_answer(
                old(regs).rax as u32,
                old(regs).rcx as u32,
                guest_cr4,
                native,
            );
            *final(regs) == GuestRegs {
                rax: answer.eax as u64,
                rbx: answer.ebx as u64,
                rcx: answer.ecx as u64,
                rdx: answer.edx as u64,
                ..*old(regs)
            }
        }),
{
    let leaf: u32 = #[verifier::truncate]
    (regs.rax as u32);
    let subleaf: u32 = #[verifier::truncate]
    (regs.rcx as u32);
    let mut ecx: u32 = native.ecx;
    if leaf == EXTENDED_FEATURES && subleaf == 0 {
        bits::set_bit_u32(&mut ecx, PROTECTION_KEYS_ENABLED_BIT, guest_cr4 & 0x40_0000 != 0);
    }
    if leaf == FEATURE_INFORMATION {
        bits::set_bit_u32(&mut ecx, HYPERVISOR_PRESENT_BIT, false);
    }
    regs.rax = native.eax as u64;
    regs.rbx = native.ebx as u64;
    regs.rcx = ecx as u64;
    regs.rdx = native.edx as u64;
    ExitDisposition::ResumeAndAdvance
}

} // verus!
