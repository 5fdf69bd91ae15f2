//! What the processor's registers and answers mean, by the bits that the
//! architecture gives them.

use vstd::prelude::*;

use super::caps;
use super::caps::{
    cpuid_mask, validate_required_capabilities, CpuidRegisters, GuestFeatureContract,
    IntelCapabilities, RawCapabilities, XsaveComponent,
};
use super::control::{ControlCapability, ControlField};
use super::state::{decode_tss_slots, TssState};
use super::vmx::{
    decode_entry, decode_vmx_status, prepare_control_registers, OriginalControlRegisters,
    VmxOperation,
};
use crate::bits;
use crate::error::{ErrorCode, ErrorPhase, MonadResult};
use crate::telemetry::record;

verus! {

/// One bit of a word, by its weight.
pub open spec fn set(word: int, weight: int) -> bool {
    (word / weight) % 2 == 1
}

/// The controls that a register says must be set: its low half.
pub open spec fn must(register: u64) -> u32 {
    (register % 0x1_0000_0000) as u32
}

/// The controls that a register says may be set: its high half.
pub open spec fn may(register: u64) -> u32 {
    (register / 0x1_0000_0000) as u32
}

/// Whether controls can be had under a register.
pub open spec fn grantable(register: u64, requested: u32) -> bool {
    must(register) & !may(register) == 0 && requested & !may(register) == 0
}

proof fn lemma_halves(register: u64)
    by (bit_vector)
    ensures
        register as u32 == register % 0x1_0000_0000,
        (register >> 32) as u32 == register / 0x1_0000_0000,
        (register >> 50) & 0xf == (register / 0x4_0000_0000_0000) % 16,
        register & 0x7fff_ffff == register % 0x8000_0000,
        register & 0x3 == register % 4,
        (register & 0x1 != 0) == (register % 2 == 1),
        (register & 0x4 != 0) == ((register / 4) % 2 == 1),
        (register & 0x40 != 0) == ((register / 0x40) % 2 == 1),
        (register & 0x4000 != 0) == ((register / 0x4000) % 2 == 1),
        (register & 0x1_0000 != 0) == ((register / 0x1_0000) % 2 == 1),
        (register & 0x2_0000 != 0) == ((register / 0x2_0000) % 2 == 1),
        (register & 0x10_0000 != 0) == ((register / 0x10_0000) % 2 == 1),
        (register & 0x20_0000 != 0) == ((register / 0x20_0000) % 2 == 1),
        (register & 0x200_0000 != 0) == ((register / 0x200_0000) % 2 == 1),
        (register & 0x400_0000 != 0) == ((register / 0x400_0000) % 2 == 1),
        (register & 0x80_0000_0000_0000 != 0) == ((register / 0x80_0000_0000_0000) % 2 == 1),
{
}

/// A register that describes controls: the low half must be set, the high half may
/// be; what is granted is what was requested and what must be, nothing else, and
/// it is granted exactly when it may all be set.
pub proof fn law_controls_of_a_register(
    register: u64,
    capability: ControlCapability,
    field: ControlField,
    requested: u32,
    result: MonadResult<u32>,
)
    requires
        call_ensures(ControlCapability::from_msr, (register,), capability),
        call_ensures(ControlCapability::adjust, (capability, field, requested), result),
    ensures
        capability.must_be_one == must(register),
        capability.may_be_one == may(register),
        result is Ok <==> grantable(register, requested),
        result matches Ok(granted) ==> granted == requested | must(register),
{
    lemma_halves(register);
}

/// What a guest finds of instructions, by the features that the processor tells.
pub open spec fn features_of(raw: RawCapabilities) -> GuestFeatureContract {
    GuestFeatureContract {
        rdtscp: set(raw.cpuid_80000001_edx as int, 0x800_0000),
        invpcid: set(raw.cpuid_7_0_ebx as int, 0x400),
        xsaves: set(raw.cpuid_d1_eax as int, 0x8),
        waitpkg: set(raw.cpuid_7_0_ecx as int, 0x20),
    }
}

/// The secondary controls that a guest's instructions need: bit 3 for the
/// processor's number with its clock, bit 12 for dropping translations by context,
/// bit 20 for saving state compactly, bit 26 for waiting.
pub open spec fn needed_by(features: GuestFeatureContract) -> u32 {
    (if features.rdtscp {
        0x8u32
    } else {
        0
    }) | (if features.invpcid {
        0x1000u32
    } else {
        0
    }) | (if features.xsaves {
        0x10_0000u32
    } else {
        0
    }) | (if features.waitpkg {
        0x400_0000u32
    } else {
        0
    })
}

/// Whether a processor can carry the hypervisor: VMX that the firmware has enabled
/// and locked, regions in ordinary memory, extended tables of four levels in
/// ordinary memory with both large sizes and with the ways to drop their
/// translations, saved state, and a width and a count that are supported.
pub open spec fn carries(raw: RawCapabilities) -> bool {
    &&& set(raw.cpuid_1_ecx as int, 0x20)
    &&& !set(raw.cpuid_1_ecx as int, 0x8000_0000)
    &&& set(raw.cpuid_1_ecx as int, 0x400_0000)
    &&& set(raw.feature_control as int, 1)
    &&& set(raw.feature_control as int, 4)
    &&& (raw.vmx_basic / 0x4_0000_0000_0000) % 16 == 6
    &&& raw.vmx_basic % 0x8000_0000 != 0
    &&& raw.cr0_fixed0 & !raw.cr0_fixed1 == 0
    &&& raw.cr4_fixed0 & !raw.cr4_fixed1 == 0
    &&& set(raw.ept_vpid as int, 0x40)
    &&& set(raw.ept_vpid as int, 0x4000)
    &&& set(raw.ept_vpid as int, 0x1_0000)
    &&& set(raw.ept_vpid as int, 0x2_0000)
    &&& set(raw.ept_vpid as int, 0x10_0000)
    &&& set(raw.ept_vpid as int, 0x200_0000)
    &&& set(raw.ept_vpid as int, 0x400_0000)
    &&& raw.xcr0_supported % 4 == 3
    &&& set(raw.cpuid_d1_eax as int, 8)
    &&& caps::layout_ok(&raw)
    &&& 1 <= raw.cpuid_80000008_eax % 0x100 <= 48
    &&& 1 <= raw.processor_count <= 256
    &&& grantable(raw.pinbased_controls, 0)
    &&& grantable(raw.primary_controls, 0x9000_0000)
    &&& grantable(raw.secondary_controls, needed_by(features_of(raw)) | 0x10_0002)
    &&& grantable(raw.exit_controls, 0x200)
    &&& grantable(raw.entry_controls, 0x200)
}

proof fn lemma_parts(may: u32, a: u32, b: u32, c: u32, d: u32)
    by (bit_vector)
    ensures
        (a | b | c | d | 0x10_0002) & !may == 0 <==> a & !may == 0 && b & !may == 0 && c & !may == 0
            && d & !may == 0 && 0x10_0000 & !may == 0 && 0x2 & !may == 0,
        0u32 & !may == 0,
{
}

proof fn lemma_features(raw: RawCapabilities)
    ensures
        raw.spec_guest_features() == features_of(raw),
        raw.spec_guest_features().spec_requested_secondary_controls() == needed_by(
            features_of(raw),
        ),
{
    bits::lemma_single_bits_u32(raw.cpuid_80000001_edx);
    bits::lemma_single_bits_u32(raw.cpuid_7_0_ebx);
    bits::lemma_single_bits_u32(raw.cpuid_d1_eax);
    bits::lemma_single_bits_u32(raw.cpuid_7_0_ecx);
}

/// A processor is taken exactly when it can carry the hypervisor, and what is
/// built on is what it tells of itself.
#[verifier::rlimit(60)]
#[verifier::spinoff_prover]
pub proof fn law_processor_is_taken_for_what_it_is(
    raw: RawCapabilities,
    result: MonadResult<IntelCapabilities>,
)
    requires
        call_ensures(validate_required_capabilities, (&raw,), result),
    ensures
        result is Ok <==> carries(raw),
        result matches Ok(found) ==> {
            &&& found.vmx_revision_id == raw.vmx_basic % 0x8000_0000
            &&& found.max_physical_address_bits == raw.cpuid_80000008_eax % 0x100
            &&& found.cr0_fixed0 == raw.cr0_fixed0
            &&& found.cr0_fixed1 == raw.cr0_fixed1
            &&& found.cr4_fixed0 == raw.cr4_fixed0
            &&& found.cr4_fixed1 == raw.cr4_fixed1
            &&& found.ept.execute_only == set(raw.ept_vpid as int, 1)
            &&& found.ept.page_2m == set(raw.ept_vpid as int, 0x1_0000)
            &&& found.ept.page_1g == set(raw.ept_vpid as int, 0x2_0000)
            &&& found.ept.four_level_walk == set(raw.ept_vpid as int, 0x40)
            &&& found.ept.write_back_walk == set(raw.ept_vpid as int, 0x4000)
            &&& found.ept.invept == set(raw.ept_vpid as int, 0x10_0000)
            &&& found.ept.accessed_dirty == set(raw.ept_vpid as int, 0x20_0000)
            &&& found.ept.invept_single == set(raw.ept_vpid as int, 0x200_0000)
            &&& found.ept.invept_all == set(raw.ept_vpid as int, 0x400_0000)
            &&& found.guest_features == features_of(raw)
            &&& found.controls.pinbased == 0 | must(raw.pinbased_controls)
            &&& found.controls.primary == 0x9000_0000 | must(raw.primary_controls)
            &&& found.controls.secondary == (needed_by(features_of(raw)) | 0x10_0002) | must(
                raw.secondary_controls,
            )
            &&& found.controls.vmexit == 0x200 | must(raw.exit_controls)
            &&& found.controls.vmentry == 0x200 | must(raw.entry_controls)
            &&& found.xsave.xcr0_mask == raw.xcr0_supported
            &&& found.xsave.xss_mask == raw.xss_supported
            &&& found.xsave.state_mask == raw.xcr0_supported | raw.xss_supported
            &&& found.xsave.xcomp_bv == found.xsave.state_mask | 0x8000_0000_0000_0000
        },
{
    reveal_with_fuel(caps::first_missing, 25);
    bits::lemma_single_bits_u32(raw.cpuid_1_ecx);
    bits::lemma_single_bits_u32(raw.cpuid_d1_eax);
    bits::lemma_fields_u32(raw.cpuid_80000008_eax);
    lemma_features(raw);
    lemma_halves(raw.feature_control);
    lemma_halves(raw.vmx_basic);
    lemma_halves(raw.ept_vpid);
    lemma_halves(raw.xcr0_supported);
    lemma_halves(raw.pinbased_controls);
    lemma_halves(raw.primary_controls);
    lemma_halves(raw.secondary_controls);
    lemma_halves(raw.exit_controls);
    lemma_halves(raw.entry_controls);
    let features = features_of(raw);
    lemma_parts(
        may(raw.secondary_controls),
        if features.rdtscp {
            0x8
        } else {
            0
        },
        if features.invpcid {
            0x1000
        } else {
            0
        },
        if features.xsaves {
            0x10_0000
        } else {
            0
        },
        if features.waitpkg {
            0x400_0000
        } else {
            0
        },
    );
    lemma_parts(may(raw.pinbased_controls), 0, 0, 0, 0);
    lemma_repeated(needed_by(features));
}

proof fn lemma_repeated(requested: u32)
    by (bit_vector)
    ensures
        requested | 0x10_0002 | 0x10_0002 == requested | 0x10_0002,
{
}

/// The registers that a processor is read by, and where each value goes.
pub proof fn law_registers_are_read_by_their_numbers<M: Fn(u32) -> u64>(
    raw: RawCapabilities,
    read: M,
)
    requires
        caps::tells_registers(raw, read),
    ensures
        call_ensures(read, (0x3au32,), raw.feature_control),
        call_ensures(read, (0x480u32,), raw.vmx_basic),
        call_ensures(read, (0x486u32,), raw.cr0_fixed0),
        call_ensures(read, (0x487u32,), raw.cr0_fixed1),
        call_ensures(read, (0x488u32,), raw.cr4_fixed0),
        call_ensures(read, (0x489u32,), raw.cr4_fixed1),
        call_ensures(read, (0x48bu32,), raw.secondary_controls),
        call_ensures(read, (0x48cu32,), raw.ept_vpid),
        (raw.vmx_basic / 0x80_0000_0000_0000) % 2 == 1 ==> {
            &&& call_ensures(read, (0x48du32,), raw.pinbased_controls)
            &&& call_ensures(read, (0x48eu32,), raw.primary_controls)
            &&& call_ensures(read, (0x48fu32,), raw.exit_controls)
            &&& call_ensures(read, (0x490u32,), raw.entry_controls)
        },
        (raw.vmx_basic / 0x80_0000_0000_0000) % 2 == 0 ==> {
            &&& call_ensures(read, (0x481u32,), raw.pinbased_controls)
            &&& call_ensures(read, (0x482u32,), raw.primary_controls)
            &&& call_ensures(read, (0x483u32,), raw.exit_controls)
            &&& call_ensures(read, (0x484u32,), raw.entry_controls)
        },
{
    lemma_halves(raw.vmx_basic);
}

/// A mask in two registers, and the description of a component.
pub proof fn law_answers_are_put_together(
    low: u32,
    high: u32,
    mask: u64,
    registers: CpuidRegisters,
    component: XsaveComponent,
)
    requires
        call_ensures(cpuid_mask, (low, high), mask),
        call_ensures(XsaveComponent::from_cpuid, (registers,), component),
    ensures
        mask == low + 0x1_0000_0000 * high,
        component.size == registers.eax,
        component.standard_offset == registers.ebx,
        component.supervisor == (registers.ecx % 2 == 1),
        component.align64 == ((registers.ecx / 2) % 2 == 1),
{
    record::lemma_status_word(low, high);
    bits::lemma_single_bits_u32(registers.ecx);
}

/// The number under which an instruction is told.
pub open spec fn operation_number(operation: VmxOperation) -> int {
    match operation {
        VmxOperation::Vmxon => 1,
        VmxOperation::Vmxoff => 2,
        VmxOperation::Vmclear => 3,
        VmxOperation::Vmptrld => 4,
        VmxOperation::Vmread => 5,
        VmxOperation::Vmwrite => 6,
        VmxOperation::Vmlaunch => 7,
        VmxOperation::Vmresume => 8,
        VmxOperation::InveptSingle => 9,
        VmxOperation::InveptAll => 10,
    }
}

proof fn lemma_vmx_detail(operation: u8, status: u8, subcode: u32, flags: u64)
    by (bit_vector)
    ensures
        operation as u64 | ((status as u64) << 8) | ((subcode as u64) << 32) == operation + 0x100
            * status + 0x1_0000_0000 * subcode,
        (flags & 0x40 != 0) == ((flags / 0x40) % 2 == 1),
        (flags & 1 != 0) == (flags % 2 == 1),
        (flags & 0x8000_0000_0000_0000 != 0) == (flags >= 0x8000_0000_0000_0000),
        ((flags & !0x8000_0000_0000_0000u64) & 0x40 != 0) == ((flags / 0x40) % 2 == 1),
        ((flags & !0x8000_0000_0000_0000u64) & 1 != 0) == (flags % 2 == 1),
{
}

/// How an instruction ended is read off the flags: the zero flag is a failure with
/// a number, the carry flag one without, neither is success; the error tells the
/// instruction, the kind of failure and the number.
pub proof fn law_instruction_reports_by_its_flags(
    operation: VmxOperation,
    rflags: u64,
    number: Option<u32>,
    result: MonadResult<()>,
)
    requires
        call_ensures(decode_vmx_status, (operation, rflags, number), result),
    ensures
        result is Ok <==> (rflags / 0x40) % 2 == 0 && rflags % 2 == 0,
        result matches Err(error) ==> {
            let with_number = (rflags / 0x40) % 2 == 1;
            &&& error.phase == ErrorPhase::Launch
            &&& error.code == match operation {
                VmxOperation::Vmread => ErrorCode::VmreadFailure,
                VmxOperation::Vmwrite => ErrorCode::VmwriteFailure,
                VmxOperation::InveptSingle => ErrorCode::InveptFailure,
                VmxOperation::InveptAll => ErrorCode::InveptFailure,
                _ => ErrorCode::VmxInstructionFailure,
            }
            &&& error.detail == operation_number(operation) + (if with_number {
                0x200int
            } else {
                0x100
            }) + 0x1_0000_0000 * (if with_number && number is Some {
                number.unwrap() as int
            } else {
                0xffff_ffff
            })
        },
{
    let subcode = match number {
        Some(value) => value,
        None => u32::MAX,
    };
    lemma_vmx_detail(operation.spec_code(), 2, subcode, rflags);
    lemma_vmx_detail(operation.spec_code(), 1, u32::MAX, rflags);
}

/// An entry that came back: the top bit says that a write before it failed, the
/// flags say how.
pub proof fn law_failed_entry_is_told_apart(
    operation: VmxOperation,
    returned: u64,
    number: Option<u32>,
    result: MonadResult<()>,
    write_result: MonadResult<()>,
    entry_result: MonadResult<()>,
)
    requires
        call_ensures(decode_entry, (operation, returned, number), result),
        call_ensures(
            decode_vmx_status,
            (VmxOperation::Vmwrite, returned, number),
            write_result,
        ),
        call_ensures(decode_vmx_status, (operation, returned, number), entry_result),
    ensures
        result == if returned >= 0x8000_0000_0000_0000 {
            write_result
        } else {
            entry_result
        },
{
    lemma_vmx_detail(0, 0, 0, returned);
}

proof fn lemma_needed(original: u64, fixed0: u64, fixed1: u64)
    by (bit_vector)
    requires
        fixed0 & !fixed1 == 0,
    ensures
        ({
            let cr4 = (original | fixed0 | 0x2000) & fixed1;
            &&& (cr4 & 0x2000 != 0) == (fixed1 & 0x2000 != 0)
            &&& fixed0 & !cr4 == 0
            &&& cr4 & !fixed1 == 0
            &&& (cr4 ^ original) & !(fixed0 | !fixed1 | 0x2000) == 0
        }),
        ({
            let cr0 = (original | fixed0) & fixed1;
            &&& fixed0 & !cr0 == 0
            &&& cr0 & !fixed1 == 0
            &&& (cr0 ^ original) & !(fixed0 | !fixed1) == 0
        }),
{
}

/// The control registers that VMX needs: VMX is enabled, the fixed bits are met,
/// and nothing else is changed; a processor that cannot enable VMX is refused.
pub proof fn law_needed_control_registers(
    capabilities: IntelCapabilities,
    original: OriginalControlRegisters,
    result: MonadResult<OriginalControlRegisters>,
)
    requires
        call_ensures(prepare_control_registers, (&capabilities, original), result),
        capabilities.cr0_fixed0 & !capabilities.cr0_fixed1 == 0,
        capabilities.cr4_fixed0 & !capabilities.cr4_fixed1 == 0,
    ensures
        result is Ok <==> capabilities.cr4_fixed1 & 0x2000 != 0,
        result matches Ok(needed) ==> {
            &&& needed.cr4 & 0x2000 != 0
            &&& capabilities.cr4_fixed0 & !needed.cr4 == 0
            &&& needed.cr4 & !capabilities.cr4_fixed1 == 0
            &&& (needed.cr4 ^ original.cr4) & !(capabilities.cr4_fixed0 | !capabilities.cr4_fixed1
                | 0x2000) == 0
            &&& capabilities.cr0_fixed0 & !needed.cr0 == 0
            &&& needed.cr0 & !capabilities.cr0_fixed1 == 0
            &&& (needed.cr0 ^ original.cr0) & !(capabilities.cr0_fixed0
                | !capabilities.cr0_fixed1) == 0
        },
{
    lemma_needed(original.cr4, capabilities.cr4_fixed0, capabilities.cr4_fixed1);
    lemma_needed(original.cr0, capabilities.cr0_fixed0, capabilities.cr0_fixed1);
}

proof fn lemma_tss(low: u64, high: u64)
    by (bit_vector)
    ensures
        ((low >> 16) & 0xff_ffff) | (((low >> 56) & 0xff) << 24) | ((high & 0xffff_ffff) << 32)
            == (low / 0x1_0000) % 0x100_0000 + 0x100_0000 * (low / 0x100_0000_0000_0000)
            + 0x1_0000_0000 * (high % 0x1_0000_0000),
        ({
            let limit = (low & 0xffff) as u32 | ((((low >> 48) & 0xf) as u32) << 16);
            &&& limit == low % 0x1_0000 + 0x1_0000 * ((low / 0x1_0000_0000_0000) % 16)
            &&& (limit << 12) | 0xfff == 0x1000 * limit + 0xfff
        }),
        (low & 0x80_0000_0000_0000 != 0) == ((low / 0x80_0000_0000_0000) % 2 == 1),
        ((low >> 40) & 0xff) as u32 | ((low >> 40) & 0xf000) as u32 == (low / 0x100_0000_0000)
            % 0x100 + 0x1000 * ((low / 0x10_0000_0000_0000) % 16),
{
}

/// A task-state segment as its descriptor says: base and limit out of the pieces
/// that the descriptor holds them in, the limit counted in pages where its bit says
/// so, and the access rights.
pub proof fn law_task_segment_is_put_together(low: u64, high: u64, tss: TssState)
    requires
        call_ensures(decode_tss_slots, (low, high), tss),
    ensures
        tss.base == (low / 0x1_0000) % 0x100_0000 + 0x100_0000 * (low / 0x100_0000_0000_0000)
            + 0x1_0000_0000 * (high % 0x1_0000_0000),
        ({
            let limit = low % 0x1_0000 + 0x1_0000 * ((low / 0x1_0000_0000_0000) % 16);
            tss.limit == if (low / 0x80_0000_0000_0000) % 2 == 1 {
                0x1000 * limit + 0xfff
            } else {
                limit
            }
        }),
        tss.access_rights == (low / 0x100_0000_0000) % 0x100 + 0x1000 * ((low
            / 0x10_0000_0000_0000) % 16),
{
    lemma_tss(low, high);
}

} // verus!
