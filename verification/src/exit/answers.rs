//! What each exit comes to, in the guest's own terms: which instruction is
//! answered with what, which is refused with which exception, and what is left
//! on record.

use vstd::prelude::*;

use super::context::{ExitContext, ExitFieldValidity};
use super::cpuid;
use super::cpuid::CpuidQuestion;
use super::disposition::{ExitDisposition, FatalReason};
use super::ept_fault;
use super::ept_fault::{decode_fault, EptFault, EptFaultDisposition, EptFaultTracker};
use super::eventinjection;
use super::eventinjection::{InterruptionType, VmEntryEvent};
use super::vmexit;
use super::vmexit::{
    advance_rip, capture_validity, route_exit_reason, EntryAction, EntryPurpose, EntryStage,
    ExitReplies, ExitRoute, VmExitAction,
};
use super::xsetbv;
use crate::arch::intel::takeover;
use crate::arch::intel::vmcs::GuestRegs;
use crate::bits;
use crate::ept::view::ViewId;
use crate::error::MonadResult;
use crate::rendezvous::mailbox::PublishedViewDirectory;
use crate::rendezvous::transaction::SwitchCall;
use crate::telemetry::record;
use crate::telemetry::record::{EventKind, EventRecord};
use crate::vmm::vcpu::VcpuModel;

verus! {

/// The exception of an invalid opcode: vector 6, without an error code.
pub open spec fn invalid_opcode(disposition: ExitDisposition) -> bool {
    disposition matches ExitDisposition::Inject(event) && event.vector == 6
        && event.interruption_type == InterruptionType::HardwareException && event.error_code
        is None
}

/// The general protection exception: vector 13, with an error code of zero.
pub open spec fn general_protection(disposition: ExitDisposition) -> bool {
    disposition matches ExitDisposition::Inject(event) && event.vector == 13
        && event.interruption_type == InterruptionType::HardwareException && event.error_code
        == Some(0u32)
}

/// The numbers by which the architecture knows the exits that are handled.
pub proof fn law_exit_reaches_its_handler(reason: u64, route: ExitRoute)
    requires
        call_ensures(route_exit_reason, (reason,), route),
    ensures
        route is TripleFault <==> reason == 2,
        route is Cpuid <==> reason == 10,
        route is Vmcall <==> reason == 18,
        route is GuestVmxInstruction <==> (19 <= reason <= 27 || reason == 50 || reason == 53
            || reason == 59),
        route is Rdmsr <==> reason == 31,
        route is Wrmsr <==> reason == 32,
        route is EptViolation <==> reason == 48,
        route is EptMisconfiguration <==> reason == 49,
        route is Xsetbv <==> reason == 55,
{
}

/// What the processor is asked: leaf and subleaf out of the low halves of the
/// guest's registers; what the extended state takes up is asked under the guest's
/// own mask.
pub proof fn law_question_is_the_guests(regs: GuestRegs, asked: CpuidQuestion)
    requires
        call_ensures(cpuid::question, (&regs,), asked),
    ensures
        asked.leaf == regs.rax % 0x1_0000_0000,
        asked.subleaf == regs.rcx % 0x1_0000_0000,
        asked.under_guest_mask <==> asked.leaf == 13 && (asked.subleaf == 0 || asked.subleaf == 1),
{
    super::context::lemma_cut(regs.rax);
    super::context::lemma_cut(regs.rcx);
}

/// What setting or clearing a bit of an answer comes to.
proof fn lemma_answer_bits(ecx: u32)
    by (bit_vector)
    ensures
        ecx & !(1u32 << 31u32) == ecx % 0x8000_0000,
        (ecx / 16) % 2 == 1 ==> ecx | (1u32 << 4u32) == ecx,
        (ecx / 16) % 2 == 0 ==> ecx | (1u32 << 4u32) == ecx + 16,
        (ecx / 16) % 2 == 1 ==> (ecx & !(1u32 << 4u32)) + 16 == ecx,
        (ecx / 16) % 2 == 0 ==> ecx & !(1u32 << 4u32) == ecx,
{
}

/// A guest that asks what the processor can do gets the processor's answer in
/// the four registers, and goes on behind the instruction; only what would show
/// the hypervisor is taken out of leaf 1, and the protection keys of leaf 7 are as
/// the guest has set them.
pub proof fn law_guest_learns_what_the_processor_says(
    before: VcpuModel,
    after: VcpuModel,
    context: ExitContext,
    replies: ExitReplies,
    directory: Option<&PublishedViewDirectory>,
    calls: Seq<SwitchCall>,
    calls_after: Seq<SwitchCall>,
    disposition: ExitDisposition,
)
    requires
        vmexit::dispatched(
            vmexit::entered(before, context),
            after,
            context,
            replies,
            directory,
            calls,
            calls_after,
            disposition,
        ),
        context.basic_reason == 10,
    ensures
        ({
            let leaf = before.regs.rax % 0x1_0000_0000;
            let subleaf = before.regs.rcx % 0x1_0000_0000;
            let native = replies.native;
            &&& disposition is ResumeAndAdvance
            &&& after.regs.rax == native.eax
            &&& after.regs.rbx == native.ebx
            &&& after.regs.rdx == native.edx
            &&& after.regs.rcx == if leaf == 1 {
                native.ecx as int % 0x8000_0000
            } else if leaf == 7 && subleaf == 0 {
                native.ecx - 16 * ((native.ecx as int / 16) % 2) + 16 * ((context.guest_cr4 as int
                    / 0x40_0000) % 2)
            } else {
                native.ecx as int
            }
            &&& after.regs == (GuestRegs {
                rax: after.regs.rax,
                rbx: after.regs.rbx,
                rcx: after.regs.rcx,
                rdx: after.regs.rdx,
                rip: context.guest_rip,
                rsp: context.guest_rsp,
                rflags: context.guest_rflags,
                ..before.regs
            })
            &&& after == (VcpuModel { regs: after.regs, ..before })
            &&& calls_after == calls
        }),
{
    super::context::lemma_cut(before.regs.rax);
    super::context::lemma_cut(before.regs.rcx);
    lemma_components(context.guest_cr4);
    lemma_answer_bits(replies.native.ecx);
}

/// Whether a register holds memory types: a variable range's base or mask, one of
/// the eleven fixed ranges, or the default.
pub open spec fn holds_memory_types(msr: int, variable_count: int) -> bool {
    ||| 0x200 <= msr < 0x200 + 2 * variable_count
    ||| msr == 0x250
    ||| msr == 0x258
    ||| msr == 0x259
    ||| msr == 0x268
    ||| msr == 0x269
    ||| msr == 0x26a
    ||| msr == 0x26b
    ||| msr == 0x26c
    ||| msr == 0x26d
    ||| msr == 0x26e
    ||| msr == 0x26f
    ||| msr == 0x2ff
}

/// No access to an intercepted register goes through: each is a general
/// protection exception and changes nothing, but for a write to one that holds
/// memory types, which ends the hypervisor and leaves word of the register.
pub proof fn law_intercepted_register_is_refused(
    before: VcpuModel,
    after: VcpuModel,
    context: ExitContext,
    replies: ExitReplies,
    directory: Option<&PublishedViewDirectory>,
    calls: Seq<SwitchCall>,
    calls_after: Seq<SwitchCall>,
    disposition: ExitDisposition,
)
    requires
        vmexit::dispatched(
            before,
            after,
            context,
            replies,
            directory,
            calls,
            calls_after,
            disposition,
        ),
        context.basic_reason == 31 || context.basic_reason == 32,
    ensures
        ({
            let msr = before.regs.rcx as int % 0x1_0000_0000;
            if context.basic_reason == 32 && holds_memory_types(
                msr,
                before.variable_mtrrs as int,
            ) {
                &&& disposition == ExitDisposition::Fatal(FatalReason::MtrrChangedWhileRunning)
                &&& after == (VcpuModel { events: after.events, ..before })
                &&& before.events matches Some(ring) ==> exists|event: EventRecord|
                    {
                        &&& after.events == Some(#[trigger] ring.recorded(event))
                        &&& event.kind == 9
                        &&& event.detail == msr
                        &&& event.guest_rip == context.guest_rip
                        &&& event.run_id == before.run_id
                    }
            } else {
                general_protection(disposition) && after == before
            }
        }),
        after.regs == before.regs,
        calls_after == calls,
{
    super::context::lemma_cut(before.regs.rcx);
    if before.events is Some {
        let ring = before.events.unwrap();
        let event = before.stamped(
            EventRecord::spec_from_exit(
                &context,
                EventKind::MtrrModificationAttempt,
                0,
                0,
                before.regs.rcx as u32,
            ),
        );
        assert(ring.recorded(event) == ring.recorded(event));
    }
}

/// One bit of a word.
pub open spec fn bit(value: u64, weight: int) -> bool {
    (value as int / weight) % 2 == 1
}

/// Whether a mask of state components makes sense: the basic one, vector halves
/// only with the wider registers, components that come together together, and the
/// widest only with all below.
pub open spec fn sensible_components(value: u64) -> bool {
    &&& bit(value, 1)
    &&& bit(value, 4) ==> bit(value, 2)
    &&& bit(value, 8) == bit(value, 0x10)
    &&& bit(value, 0x20) == bit(value, 0x40)
    &&& bit(value, 0x40) == bit(value, 0x80)
    &&& bit(value, 0x20) ==> bit(value, 2) && bit(value, 4)
    &&& bit(value, 0x2_0000) == bit(value, 0x4_0000)
}

proof fn lemma_components(value: u64)
    by (bit_vector)
    ensures
        (value & 1 != 0) == (value % 2 == 1),
        (value & 4 != 0) == ((value / 4) % 2 == 1),
        (value & 2 != 0) == ((value / 2) % 2 == 1),
        (value & 0x18 == 0 || value & 0x18 == 0x18) == (((value / 8) % 2 == 1) == ((value / 16) % 2
            == 1)),
        (value & 0xe0 != 0) == ((value / 0x20) % 2 == 1 || (value / 0x40) % 2 == 1 || (value
            / 0x80) % 2 == 1),
        (value & 0xe0 == 0xe0) == ((value / 0x20) % 2 == 1 && (value / 0x40) % 2 == 1 && (value
            / 0x80) % 2 == 1),
        (value & 6 == 6) == ((value / 2) % 2 == 1 && (value / 4) % 2 == 1),
        (value & 0x6_0000 == 0 || value & 0x6_0000 == 0x6_0000) == (((value / 0x2_0000) % 2 == 1)
            == ((value / 0x4_0000) % 2 == 1)),
        (value & 0x4_0000 != 0) == ((value / 0x4_0000) % 2 == 1),
        (value & 0x40_0000 != 0) == ((value / 0x40_0000) % 2 == 1),
{
}

proof fn lemma_joined(high: u64, low: u64)
    ensures
        xsetbv::spec_joined(high, low) == low % 0x1_0000_0000 + 0x1_0000_0000 * (high
            % 0x1_0000_0000),
{
    super::context::lemma_cut(low);
    super::context::lemma_cut(high);
    record::lemma_status_word(low as u32, high as u32);
}

/// A guest that selects state components goes on with those that it asked for, in
/// the halves of two registers, exactly when it may: without the feature it is an
/// invalid opcode; from outside the kernel, for another register, or with a mask
/// that makes no sense or is not supported it is a general protection exception;
/// components that nobody knows end the hypervisor.
pub proof fn law_guest_selects_its_components(
    before: VcpuModel,
    after: VcpuModel,
    context: ExitContext,
    replies: ExitReplies,
    directory: Option<&PublishedViewDirectory>,
    calls: Seq<SwitchCall>,
    calls_after: Seq<SwitchCall>,
    disposition: ExitDisposition,
)
    requires
        vmexit::dispatched(
            before,
            after,
            context,
            replies,
            directory,
            calls,
            calls_after,
            disposition,
        ),
        context.basic_reason == 55,
    ensures
        ({
            let value = (before.regs.rax % 0x1_0000_0000 + 0x1_0000_0000 * (before.regs.rdx
                % 0x1_0000_0000)) as u64;
            let supported = before.capabilities.xsave.xcr0_mask;
            if !bit(context.guest_cr4, 0x4_0000) {
                invalid_opcode(disposition) && after == before
            } else if context.guest_cs_selector % 4 != 0 || before.regs.rcx % 0x1_0000_0000 != 0
                || value & !supported != 0 || !sensible_components(value) {
                general_protection(disposition) && after == before
            } else if supported & !0xe_02ffu64 != 0 {
                disposition == ExitDisposition::Fatal(FatalReason::InvalidVcpuState) && after
                    == before
            } else {
                disposition is ResumeAndAdvance && after == (VcpuModel {
                    guest_xcr0: value,
                    ..before
                })
            }
        }),
        calls_after == calls,
{
    lemma_joined(before.regs.rdx, before.regs.rax);
    takeover::lemma_null_selector(context.guest_cs_selector);
    super::context::lemma_cut(before.regs.rcx);
    let value = xsetbv::spec_joined(before.regs.rdx, before.regs.rax);
    lemma_components(value);
    lemma_components(context.guest_cr4);
}

/// Exits that no guest comes back from, and instructions that are not for it: a
/// triple fault and a table that the processor cannot read are fatal, each with
/// its own reason, and a VMX instruction is an invalid opcode. Nothing changes.
pub proof fn law_exits_without_an_answer(
    before: VcpuModel,
    after: VcpuModel,
    context: ExitContext,
    replies: ExitReplies,
    directory: Option<&PublishedViewDirectory>,
    calls: Seq<SwitchCall>,
    calls_after: Seq<SwitchCall>,
    disposition: ExitDisposition,
)
    requires
        vmexit::dispatched(
            before,
            after,
            context,
            replies,
            directory,
            calls,
            calls_after,
            disposition,
        ),
    ensures
        context.basic_reason == 2 ==> disposition == ExitDisposition::Fatal(
            FatalReason::TripleFault,
        ) && after == before && calls_after == calls,
        context.basic_reason == 49 ==> disposition == ExitDisposition::Fatal(
            FatalReason::CorruptEptHierarchy,
        ) && after == before && calls_after == calls,
        19 <= context.basic_reason <= 27 || context.basic_reason == 50 || context.basic_reason
            == 53 || context.basic_reason == 59 ==> invalid_opcode(disposition) && after == before
            && calls_after == calls,
{
}

proof fn lemma_qualification(qualification: u64)
    by (bit_vector)
    ensures
        (qualification & !0x1fffu64 != 0) == (qualification >= 0x2000),
        qualification & 7 == qualification % 8,
        (qualification & 0x80 != 0) == ((qualification / 0x80) % 2 == 1),
{
}

/// The fault that an exit reports: the page that holds the guest-physical
/// address, the access out of the three lowest bits of the qualification, and a
/// linear address exactly where bit 7 says that there is one.
pub proof fn law_fault_is_read_off_the_exit(
    qualification: u64,
    guest_physical_address: Option<u64>,
    guest_linear_address: Option<u64>,
    guest_rip: u64,
    result: Result<EptFault, FatalReason>,
)
    requires
        call_ensures(
            decode_fault,
            (qualification, guest_physical_address, guest_linear_address, guest_rip),
            result,
        ),
    ensures
        result is Ok <==> qualification < 0x2000 && qualification % 8 != 0
            && guest_physical_address is Some && guest_physical_address.unwrap()
            < 0x1_0000_0000_0000 && (guest_linear_address is Some <==> (qualification / 0x80) % 2
            == 1),
        result matches Ok(fault) ==> {
            &&& fault.qualification == qualification
            &&& guest_physical_address == Some(fault.guest_physical_address)
            &&& fault.guest_physical_page == fault.guest_physical_address
                - fault.guest_physical_address % 0x1000
            &&& fault.guest_linear_address == guest_linear_address
            &&& fault.guest_rip == guest_rip
            &&& fault.access.0 == qualification % 8
        },
        result matches Err(reason) ==> reason == FatalReason::InvalidVmcsState,
{
    lemma_qualification(qualification);
}

/// An access that the view does not allow ends the hypervisor, and leaves a record
/// that says which access it was, of which address, from where, in which view, and
/// to which run it belongs.
pub proof fn law_violation_is_on_record(
    before: VcpuModel,
    after: VcpuModel,
    context: ExitContext,
    replies: ExitReplies,
    directory: Option<&PublishedViewDirectory>,
    calls: Seq<SwitchCall>,
    calls_after: Seq<SwitchCall>,
    disposition: ExitDisposition,
)
    requires
        vmexit::dispatched(
            before,
            after,
            context,
            replies,
            directory,
            calls,
            calls_after,
            disposition,
        ),
        context.basic_reason == 48,
    ensures
        ({
            let whole = context.qualification is Some && context.qualification.unwrap() < 0x2000
                && context.qualification.unwrap() % 8 != 0 && context.guest_physical_address
                is Some && context.guest_physical_address.unwrap() < 0x1_0000_0000_0000 && (
            context.guest_linear_address is Some <==> (context.qualification.unwrap() / 0x80) % 2
                == 1);
            if whole {
                &&& disposition == ExitDisposition::Fatal(FatalReason::UnhandledEptViolation)
                &&& after == (VcpuModel { events: after.events, ..before })
                &&& before.events matches Some(ring) ==> exists|event: EventRecord|
                    {
                        &&& after.events == Some(#[trigger] ring.recorded(event))
                        &&& event.kind == 5
                        &&& event.access == context.qualification.unwrap() % 8
                        &&& event.qualification == context.qualification.unwrap()
                        &&& event.guest_physical_address
                            == context.guest_physical_address.unwrap()
                        &&& context.guest_linear_address is Some ==> event.guest_linear_address
                            == context.guest_linear_address.unwrap()
                        &&& event.guest_rip == context.guest_rip
                        &&& event.guest_rsp == context.guest_rsp
                        &&& event.guest_rflags == context.guest_rflags
                        &&& event.view_slot == context.active_view.slot
                        &&& event.view_generation == context.active_view.generation
                        &&& event.cpu_dense_index == context.cpu.dense_index
                        &&& event.tsc == context.tsc
                        &&& event.run_id == before.run_id
                        &&& event.view_epoch == before.view_epoch
                        &&& event.attempt_epoch == before.rendezvous_epoch
                    }
            } else {
                disposition == ExitDisposition::Fatal(FatalReason::InvalidVmcsState) && after
                    == before
            }
        }),
        calls_after == calls,
{
    if context.qualification is Some {
        lemma_qualification(context.qualification.unwrap());
    }
    if before.events is Some && context.qualification is Some {
        let ring = before.events.unwrap();
        let event = before.stamped(
            EventRecord::spec_from_exit(
                &context,
                EventKind::EptViolation,
                (context.qualification.unwrap() & 7) as u8,
                0,
                0,
            ),
        );
        assert(ring.recorded(event) == ring.recorded(event));
    }
}

/// The number under which the record of a fatal end tells its reason.
pub open spec fn reason_number(reason: FatalReason) -> int {
    match reason {
        FatalReason::UnexpectedVmExit => 1,
        FatalReason::InvalidVmcsState => 2,
        FatalReason::VmreadFailure => 3,
        FatalReason::VmwriteFailure => 4,
        FatalReason::InveptFailure => 5,
        FatalReason::RendezvousTimeout => 6,
        FatalReason::RendezvousRollbackFailure => 7,
        FatalReason::MtrrChangedWhileRunning => 8,
        FatalReason::RepeatedEptFault => 9,
        FatalReason::InvalidActiveView => 10,
        FatalReason::InvalidInternalMailbox => 11,
        FatalReason::PartialShutdown => 12,
        FatalReason::CorruptEptHierarchy => 13,
        FatalReason::TripleFault => 14,
        FatalReason::VmEntryFailure => 15,
        FatalReason::UnhandledEptViolation => 16,
        FatalReason::InvalidVcpuState => 17,
    }
}

/// A processor that cannot go on leaves word of why, where, in which view and in
/// which run, in a place of its own and in its ring; nothing else of it changes.
pub proof fn law_fatal_end_leaves_word(
    vcpu: VcpuModel,
    context: ExitContext,
    reason: FatalReason,
    code: u32,
)
    requires
        call_ensures(FatalReason::code, (reason,), code),
    ensures
        code == reason_number(reason),
        ({
            let after = vcpu.fatal(context, reason);
            let event = after.emergency_event;
            &&& event.kind == 11
            &&& event.status == reason_number(reason)
            &&& event.guest_rip == context.guest_rip
            &&& event.guest_rsp == context.guest_rsp
            &&& event.guest_rflags == context.guest_rflags
            &&& event.view_slot == context.active_view.slot
            &&& event.view_generation == context.active_view.generation
            &&& event.cpu_dense_index == context.cpu.dense_index
            &&& event.cpu_group == context.cpu.group
            &&& event.cpu_number == context.cpu.number
            &&& event.tsc == context.tsc
            &&& event.run_id == vcpu.run_id
            &&& event.view_epoch == vcpu.view_epoch
            &&& event.attempt_epoch == vcpu.rendezvous_epoch
            &&& vcpu.events matches Some(ring) ==> after.events == Some(ring.recorded(event))
            &&& vcpu.events is None ==> after.events is None
            &&& after == (VcpuModel {
                emergency_event: event,
                events: after.events,
                ..vcpu
            })
        }),
{
}

/// An unknown exit is on record under its reason.
pub proof fn law_unknown_exit_is_on_record(
    before: VcpuModel,
    after: VcpuModel,
    context: ExitContext,
    replies: ExitReplies,
    directory: Option<&PublishedViewDirectory>,
    calls: Seq<SwitchCall>,
    calls_after: Seq<SwitchCall>,
    disposition: ExitDisposition,
    route: ExitRoute,
)
    requires
        vmexit::dispatched(
            before,
            after,
            context,
            replies,
            directory,
            calls,
            calls_after,
            disposition,
        ),
        call_ensures(route_exit_reason, (context.basic_reason as u64,), route),
        route is Unknown,
    ensures
        disposition == ExitDisposition::Fatal(FatalReason::UnexpectedVmExit),
        after == (VcpuModel { events: after.events, ..before }),
        before.events matches Some(ring) ==> exists|event: EventRecord|
            {
                &&& after.events == Some(#[trigger] ring.recorded(event))
                &&& event.kind == 8
                &&& event.status == context.basic_reason
                &&& event.guest_rip == context.guest_rip
                &&& event.run_id == before.run_id
            },
{
    if before.events is Some {
        let ring = before.events.unwrap();
        let event = before.stamped(
            EventRecord::spec_from_exit(
                &context,
                EventKind::UnexpectedVmExit,
                0,
                context.basic_reason as u32,
                0,
            ),
        );
        assert(ring.recorded(event) == ring.recorded(event));
    }
}

/// Which fields an exit gives, with the delivery that it interrupted: a pending
/// event is there where the top bit of its field is set, its error code where bit
/// 11 is set too, and the length of the instruction also for an event that an
/// instruction raised.
pub proof fn law_interrupted_delivery_is_seen(
    reason: u16,
    qualification: u64,
    exit_info: u32,
    idt_info: u32,
    validity: ExitFieldValidity,
)
    requires
        call_ensures(
            capture_validity,
            (reason, qualification, exit_info, idt_info),
            validity,
        ),
    ensures
        validity.exit_interruption_info <==> exit_info >= 0x8000_0000,
        validity.idt_vectoring_info <==> idt_info >= 0x8000_0000,
        validity.idt_vectoring_error_code <==> idt_info >= 0x8000_0000 && (idt_info / 0x800) % 2
            == 1,
        validity.instruction_length <==> reason == 10 || reason == 18 || reason == 31 || reason
            == 32 || (idt_info >= 0x8000_0000 && 4 <= (idt_info / 0x100) % 8 <= 6),
        validity.qualification <==> reason == 48,
        validity.guest_physical_address <==> reason == 48 || reason == 49,
        validity.guest_linear_address <==> reason == 48 && (qualification / 0x80) % 2 == 1,
{
    bits::lemma_short_word(exit_info);
    bits::lemma_short_word(idt_info);
    lemma_qualification(qualification);
}

/// A guest goes on right behind its instruction, or not at all.
pub proof fn law_guest_goes_on_behind_its_instruction(
    context: ExitContext,
    result: MonadResult<u64>,
)
    requires
        call_ensures(advance_rip, (&context,), result),
    ensures
        result is Ok <==> context.instruction_length is Some && context.guest_rip
            + context.instruction_length.unwrap() < 0x1_0000_0000_0000_0000,
        result matches Ok(next) ==> next == context.guest_rip + context.instruction_length.unwrap(),
{
}

/// What a disposition begins: going on writes the place behind the instruction,
/// an event is prepared when the pending one was read, a stop and a fatal end are
/// just that; none of them moves a view.
pub proof fn law_disposition_is_acted_on(
    before: VcpuModel,
    after: VcpuModel,
    context: ExitContext,
    disposition: ExitDisposition,
    directory: Option<&PublishedViewDirectory>,
    tsc: u64,
    calls: Seq<SwitchCall>,
    calls_after: Seq<SwitchCall>,
    stage: EntryStage,
    action: EntryAction,
)
    requires
        vmexit::applied(
            before,
            after,
            context,
            disposition,
            directory,
            tsc,
            calls,
            calls_after,
            stage,
        ),
        call_ensures(EntryStage::action, (stage,), action),
    ensures
        disposition is ResumeAndAdvance && context.instruction_length is Some && context.guest_rip
            + context.instruction_length.unwrap() < 0x1_0000_0000_0000_0000 ==> {
            &&& action matches EntryAction::Write(write) && write.field is GuestRip && write.value
                == context.guest_rip + context.instruction_length.unwrap()
            &&& after == before
        },
        disposition is ResumeWithoutAdvance ==> action is ReadPending && after == before && stage
            == EntryStage::Reading(EntryPurpose::Reinject),
        disposition matches ExitDisposition::Inject(event) ==> action is ReadPending && after
            == before && stage == EntryStage::Reading(EntryPurpose::Inject(event)),
        disposition is Shutdown ==> action == EntryAction::Finish(VmExitAction::Shutdown) && after
            == before,
        disposition matches ExitDisposition::Fatal(reason) ==> action == EntryAction::Finish(
            VmExitAction::Fatal(reason),
        ) && after == before.fatal(context, reason),
        disposition !is SwitchPublishedView ==> calls_after == calls && after.active_view
            == before.active_view,
{
}

/// Each reply brings the entry on: the place that was written is the guest's, then
/// an interrupted delivery is looked for; an event that nothing stands in the way
/// of is written field by field, and the guest's flags are those of the update once
/// they are written; after the last write the guest resumes.
pub proof fn law_entry_is_prepared_step_by_step(
    vcpu: VcpuModel,
    context: ExitContext,
    next: u64,
    event: VmEntryEvent,
    value: u64,
)
    ensures
        ({
            let state = vmexit::after_reply(
                vcpu,
                context,
                EntryStage::Advancing(next),
                Ok(value),
            );
            &&& state.stage == EntryStage::Reading(EntryPurpose::Reinject)
            &&& state.vcpu == (VcpuModel {
                regs: GuestRegs { rip: next, ..vcpu.regs },
                ..vcpu
            })
        }),
        ({
            let state = vmexit::after_reply(
                vcpu,
                context,
                EntryStage::Reading(EntryPurpose::Inject(event)),
                Ok(value),
            );
            let barred = (value % 0x1_0000_0000) >= 0x8000_0000 || (context.idt_vectoring_info
                is Some && context.idt_vectoring_info.unwrap() >= 0x8000_0000);
            if barred {
                state.stage == EntryStage::Finished(
                    VmExitAction::Fatal(FatalReason::VmwriteFailure),
                )
            } else {
                &&& state.vcpu == vcpu
                &&& state.stage matches EntryStage::Writing(update, index) && {
                    &&& index == 0
                    &&& update.interruption_info % 0x100 == event.vector
                    &&& update.interruption_info >= 0x8000_0000
                    &&& ((update.interruption_info / 0x800) % 2 == 1) == (event.error_code
                        is Some)
                    &&& update.error_code == event.error_code
                    &&& update.instruction_length == 0
                }
            }
        }),
        context.idt_vectoring_info is None ==> vmexit::after_reply(
            vcpu,
            context,
            EntryStage::Reading(EntryPurpose::Reinject),
            Ok(value),
        ) == (vmexit::EntryState { stage: EntryStage::Finished(VmExitAction::Resume), vcpu }),
{
    super::context::lemma_cut(value);
    bits::lemma_single_bits_u32(value as u32);
    if context.idt_vectoring_info is Some {
        bits::lemma_short_word(context.idt_vectoring_info.unwrap());
    }
    eventinjection::lemma_interruption_field(
        event.vector,
        event.interruption_type.spec_code(),
    );
}

/// What a policy's decision comes to: a fatal reason and an event are passed on,
/// a retry resumes at the same instruction at most twice for the same view, page,
/// place and access, and a switch goes through only to a view that is allowed by
/// its slot and exists.
pub proof fn law_decision_is_carried_out_within_bounds(
    known: bool,
    active_view: ViewId,
    fault: EptFault,
    tracker: EptFaultTracker,
    allowed: u64,
    reason: FatalReason,
    event: VmEntryEvent,
    view: ViewId,
)
    ensures
        ept_fault::resolution(
            EptFaultDisposition::Fatal(reason),
            known,
            active_view,
            fault,
            tracker,
            allowed,
        ) == (ExitDisposition::Fatal(reason), tracker),
        ept_fault::resolution(
            EptFaultDisposition::Inject(event),
            known,
            active_view,
            fault,
            tracker,
            allowed,
        ) == (ExitDisposition::Inject(event), tracker),
        ({
            let (done, after) = ept_fault::resolution(
                EptFaultDisposition::RetryCurrentView,
                known,
                active_view,
                fault,
                tracker,
                allowed,
            );
            let same = tracker.last matches Some(last) && last.view == active_view && last.gpa_page
                == fault.guest_physical_page && last.rip == fault.guest_rip && last.access
                == fault.access.0;
            if same && tracker.retries >= 2 {
                done == ExitDisposition::Fatal(FatalReason::RepeatedEptFault) && after == tracker
            } else {
                &&& done is ResumeWithoutAdvance
                &&& after.retries == if same {
                    tracker.retries + 1
                } else {
                    1
                }
                &&& after.last matches Some(last) && last.view == active_view && last.gpa_page
                    == fault.guest_physical_page && last.rip == fault.guest_rip && last.access
                    == fault.access.0
            }
        }),
        ({
            let (done, after) = ept_fault::resolution(
                EptFaultDisposition::SwitchToPublishedView(view),
                known,
                active_view,
                fault,
                tracker,
                allowed,
            );
            if known && view.reserved == 0 && view.generation != 0 && view.slot < 64 && allowed & (
            1u64 << (view.slot as u64)) != 0 {
                done == ExitDisposition::SwitchPublishedView(view) && after.retries == 0
                    && after.last is None
            } else {
                done == ExitDisposition::Fatal(FatalReason::InvalidActiveView) && after == tracker
            }
        }),
{
}

} // verus!
