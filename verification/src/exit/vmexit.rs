//! The outer loop of exits: what is read, where it goes, and what it comes to.

use vstd::prelude::*;

use super::context;
use super::context::{
    capture_exit_context, ContextField, ContextRead, ContextReader, ExitContext, ExitFieldValidity,
    CONTEXT_FIELDS,
};
use super::cpuid;
use super::disposition::{ExitDisposition, FatalReason};
use super::ept;
use super::eventinjection;
use super::eventinjection::{
    prepare_injection, prepare_reinjection, InjectionUpdate, VmEntryEvent,
};
use super::{genericvmx, msr, triplefault, vmcall, xsetbv};
use crate::arch::intel::caps::CpuidRegisters;
use crate::arch::intel::vmcs::{GuestRegs, VmcsField, VmcsWrite};
use crate::ept::view::ViewId;
use crate::error::{ErrorCode, ErrorPhase, MonadError, MonadResult};
use crate::rendezvous::mailbox::PublishedViewDirectory;
use crate::rendezvous::transaction::{ActiveViewState, SwitchCall, SwitchStep, ViewSwitchBackend};
use crate::telemetry::record::{EventKind, EventRecord};
use crate::topology::CpuId;
use crate::vmm::vcpu::{Vcpu, VcpuModel};

verus! {

/// Where an exit goes.
#[derive(Debug, Clone, Copy, PartialEq, Eq, Structural)]
pub enum ExitRoute {
    TripleFault,
    Cpuid,
    Xsetbv,
    Vmcall,
    GuestVmxInstruction,
    Rdmsr,
    Wrmsr,
    EptViolation,
    EptMisconfiguration,
    Unknown,
}

pub const REASON_TRIPLE_FAULT: u64 = 2;

pub const REASON_CPUID: u64 = 10;

pub const REASON_VMCALL: u64 = 18;

pub const REASON_VMCLEAR: u64 = 19;

pub const REASON_VMLAUNCH: u64 = 20;

pub const REASON_VMPTRLD: u64 = 21;

pub const REASON_VMPTRST: u64 = 22;

pub const REASON_VMREAD: u64 = 23;

pub const REASON_VMRESUME: u64 = 24;

pub const REASON_VMWRITE: u64 = 25;

pub const REASON_VMXOFF: u64 = 26;

pub const REASON_VMXON: u64 = 27;

pub const REASON_RDMSR: u64 = 31;

pub const REASON_WRMSR: u64 = 32;

pub const REASON_EPT_VIOLATION: u64 = 48;

pub const REASON_EPT_MISCONFIGURATION: u64 = 49;

pub const REASON_INVEPT: u64 = 50;

pub const REASON_INVVPID: u64 = 53;

pub const REASON_XSETBV: u64 = 55;

pub const REASON_VMFUNC: u64 = 59;

/// Where an exit with a basic reason goes. The instructions of VMX itself, but
/// for the call, are one kind, and what is not listed is not known.
pub open spec fn spec_route_exit_reason(reason: u64) -> ExitRoute {
    if reason == REASON_TRIPLE_FAULT {
        ExitRoute::TripleFault
    } else if reason == REASON_CPUID {
        ExitRoute::Cpuid
    } else if reason == REASON_XSETBV {
        ExitRoute::Xsetbv
    } else if reason == REASON_VMCALL {
        ExitRoute::Vmcall
    } else if REASON_VMCLEAR <= reason <= REASON_VMXON || reason == REASON_INVEPT || reason
        == REASON_INVVPID || reason == REASON_VMFUNC {
        ExitRoute::GuestVmxInstruction
    } else if reason == REASON_RDMSR {
        ExitRoute::Rdmsr
    } else if reason == REASON_WRMSR {
        ExitRoute::Wrmsr
    } else if reason == REASON_EPT_VIOLATION {
        ExitRoute::EptViolation
    } else if reason == REASON_EPT_MISCONFIGURATION {
        ExitRoute::EptMisconfiguration
    } else {
        ExitRoute::Unknown
    }
}

/// Where an exit with a basic reason goes.
#[verifier::when_used_as_spec(spec_route_exit_reason)]
pub fn route_exit_reason(reason: u64) -> (route: ExitRoute)
    ensures
        route == spec_route_exit_reason(reason),
{
    match reason {
        2 => ExitRoute::TripleFault,
        10 => ExitRoute::Cpuid,
        55 => ExitRoute::Xsetbv,
        18 => ExitRoute::Vmcall,
        19 | 20 | 21 | 22 | 23 | 24 | 25 | 26 | 27 | 50 | 53 | 59 => ExitRoute::GuestVmxInstruction,
        31 => ExitRoute::Rdmsr,
        32 => ExitRoute::Wrmsr,
        48 => ExitRoute::EptViolation,
        49 => ExitRoute::EptMisconfiguration,
        _ => ExitRoute::Unknown,
    }
}

/// An exit that is not known ends the hypervisor.
pub fn unknown_exit_disposition() -> (disposition: ExitDisposition)
    ensures
        disposition == ExitDisposition::Fatal(FatalReason::UnexpectedVmExit),
{
    ExitDisposition::Fatal(FatalReason::UnexpectedVmExit)
}

/// What the outer loop does next.
#[derive(Debug, Clone, Copy, PartialEq, Eq, Structural)]
pub enum VmExitAction {
    Resume,
    Shutdown,
    Fatal(FatalReason),
}

/// What the exit says of its fields, by its reason and by whether it came
/// during the delivery of an event.
pub open spec fn spec_capture_validity(
    reason: u16,
    qualification: u64,
    exit_info: u32,
    idt_info: u32,
) -> ExitFieldValidity {
    let basic = ExitFieldValidity::spec_for_basic_reason(reason, qualification);
    ExitFieldValidity {
        exit_interruption_info: eventinjection::is_valid(exit_info),
        idt_vectoring_info: eventinjection::is_valid(idt_info),
        idt_vectoring_error_code: eventinjection::is_valid(idt_info) && idt_info & 0x800 != 0,
        instruction_length: basic.instruction_length || (eventinjection::is_valid(idt_info)
            && eventinjection::from_instruction(idt_info)),
        ..basic
    }
}

/// What the exit says of its fields.
#[verifier::when_used_as_spec(spec_capture_validity)]
pub fn capture_validity(reason: u16, qualification: u64, exit_info: u32, idt_info: u32) -> (validity:
    ExitFieldValidity)
    ensures
        validity == spec_capture_validity(reason, qualification, exit_info, idt_info),
{
    let basic = ExitFieldValidity::for_basic_reason(reason, qualification);
    let vectoring: bool = idt_info & 0x8000_0000 != 0;
    let vectoring_type: u32 = (idt_info >> 8) & 0x7;
    ExitFieldValidity {
        exit_interruption_info: exit_info & 0x8000_0000 != 0,
        idt_vectoring_info: vectoring,
        idt_vectoring_error_code: vectoring && idt_info & 0x800 != 0,
        instruction_length: basic.instruction_length || (vectoring && 4 <= vectoring_type
            && vectoring_type <= 6),
        ..basic
    }
}

/// What is read first, to learn which fields are valid.
pub open spec fn probe_plan(ept_violation: bool) -> Seq<ContextField> {
    if ept_violation {
        seq![
            ContextField::ExitReason,
            ContextField::Qualification,
            ContextField::ExitInterruptionInfo,
            ContextField::IdtVectoringInfo,
        ]
    } else {
        seq![
            ContextField::ExitReason,
            ContextField::ExitInterruptionInfo,
            ContextField::IdtVectoringInfo,
        ]
    }
}

/// Whether the first read says that the view was violated.
pub open spec fn reads_violation(reads: Seq<ContextRead>) -> bool {
    &&& reads.len() > 0
    &&& reads[0].result is Ok
    &&& reads[0].result.unwrap() & 0xffff == REASON_EPT_VIOLATION
}

/// What the first reads say of the fields.
pub open spec fn probed_validity(reads: Seq<ContextRead>) -> ExitFieldValidity {
    let reason = (reads[0].result.unwrap() & 0xffff) as u16;
    if reads_violation(reads) {
        spec_capture_validity(
            reason,
            reads[1].result.unwrap(),
            reads[2].result.unwrap() as u32,
            reads[3].result.unwrap() as u32,
        )
    } else {
        spec_capture_validity(
            reason,
            0,
            reads[1].result.unwrap() as u32,
            reads[2].result.unwrap() as u32,
        )
    }
}

/// What reads come to: the first ones say which fields are valid, and those are
/// read then. The first that fails ends them.
pub open spec fn capture_outcome(
    blank: ExitContext,
    made: Seq<ContextRead>,
    result: MonadResult<ExitContext>,
) -> bool {
    let plan = probe_plan(reads_violation(made));
    let split = if made.len() < plan.len() {
        made.len() as int
    } else {
        plan.len() as int
    };
    let probes = made.take(split);
    let rest = made.skip(split);
    &&& made.len() > 0
    &&& context::follows(probes, plan)
    &&& match probes.last().result {
        Err(error) => rest.len() == 0 && result == Err::<ExitContext, MonadError>(error),
        Ok(_) => {
            &&& rest.len() > 0
            &&& context::follows(
                rest,
                context::planned(probed_validity(probes), CONTEXT_FIELDS as nat),
            )
            &&& result == context::read_outcome(blank, rest)
        },
    }
}

/// The first reads of an exit.
struct Probe {
    reason: u16,
    qualification: u64,
    exit_info: u32,
    idt_info: u32,
}

/// Whether reads are those of a probe that went through.
spec fn probe_done(reads: Seq<ContextRead>, probe: Probe) -> bool {
    &&& context::follows(reads, probe_plan(reads_violation(reads)))
    &&& reads.len() == probe_plan(reads_violation(reads)).len()
    &&& reads.last().result is Ok
    &&& probed_validity(reads) == spec_capture_validity(
        probe.reason,
        probe.qualification,
        probe.exit_info,
        probe.idt_info,
    )
}

fn probe<R: ContextReader>(reader: &mut R) -> (result: MonadResult<Probe>)
    ensures
        ({
            let before = old(reader).reads();
            let after = final(reader).reads();
            let made = after.skip(before.len() as int);
            &&& after.len() > before.len()
            &&& after.take(before.len() as int) == before
            &&& match result {
                Ok(probe) => probe_done(made, probe),
                Err(error) => {
                    &&& context::follows(made, probe_plan(reads_violation(made)))
                    &&& made.last().result == Err::<u64, MonadError>(error)
                },
            }
        }),
{
    let ghost before = reader.reads();
    let first = reader.read(ContextField::ExitReason);
    proof {
        let made = reader.reads().skip(before.len() as int);
        assert(reader.reads().take(before.len() as int) =~= before);
        assert(made =~= seq![ContextRead { field: ContextField::ExitReason, result: first }]);
    }
    let reason: u64 = match first {
        Ok(value) => value & 0xffff,
        Err(error) => {
            return Err(error);
        },
    };
    let ghost violation = reason == REASON_EPT_VIOLATION;
    let ghost mut so_far = seq![ContextRead { field: ContextField::ExitReason, result: first }];
    let mut qualification: u64 = 0;
    if reason == REASON_EPT_VIOLATION {
        let second = reader.read(ContextField::Qualification);
        proof {
            so_far = so_far.push(
                ContextRead { field: ContextField::Qualification, result: second },
            );
            assert(reader.reads().skip(before.len() as int) =~= so_far);
            assert(reader.reads().take(before.len() as int) =~= before);
        }
        match second {
            Ok(value) => {
                qualification = value;
            },
            Err(error) => {
                return Err(error);
            },
        }
    }
    let third = reader.read(ContextField::ExitInterruptionInfo);
    proof {
        so_far = so_far.push(
            ContextRead { field: ContextField::ExitInterruptionInfo, result: third },
        );
        assert(reader.reads().skip(before.len() as int) =~= so_far);
        assert(reader.reads().take(before.len() as int) =~= before);
    }
    let exit_info: u64 = match third {
        Ok(value) => value,
        Err(error) => {
            return Err(error);
        },
    };
    let fourth = reader.read(ContextField::IdtVectoringInfo);
    proof {
        so_far = so_far.push(ContextRead { field: ContextField::IdtVectoringInfo, result: fourth });
        assert(reader.reads().skip(before.len() as int) =~= so_far);
        assert(reader.reads().take(before.len() as int) =~= before);
    }
    let idt_info: u64 = match fourth {
        Ok(value) => value,
        Err(error) => {
            return Err(error);
        },
    };
    Ok(
        Probe {
            reason: #[verifier::truncate]
            (reason as u16),
            qualification,
            exit_info: #[verifier::truncate]
            (exit_info as u32),
            idt_info: #[verifier::truncate]
            (idt_info as u32),
        },
    )
}

/// Reads the guest's state at an exit.
pub fn capture<R: ContextReader>(
    reader: &mut R,
    cpu: CpuId,
    active_view: ViewId,
    tsc: u64,
) -> (result: MonadResult<ExitContext>)
    ensures
        final(reader).reads().len() > old(reader).reads().len(),
        final(reader).reads().take(old(reader).reads().len() as int) == old(reader).reads(),
        capture_outcome(
            ExitContext::spec_blank(cpu, active_view, tsc),
            final(reader).reads().skip(old(reader).reads().len() as int),
            result,
        ),
{
    let ghost before = reader.reads();
    let probed = probe(reader);
    let ghost middle = reader.reads();
    let ghost probes = middle.skip(before.len() as int);
    let found = match probed {
        Ok(found) => found,
        Err(error) => {
            proof {
                assert(probes.take(probes.len() as int) =~= probes);
            }
            return Err(error);
        },
    };
    let validity = capture_validity(
        found.reason,
        found.qualification,
        found.exit_info,
        found.idt_info,
    );
    let result = capture_exit_context(reader, validity, cpu, active_view, tsc);
    proof {
        let after = reader.reads();
        let made = after.skip(before.len() as int);
        let rest = after.skip(middle.len() as int);
        assert(after.take(middle.len() as int) == middle);
        assert forall|i: int| 0 <= i < middle.len() implies after[i] == middle[i] by {
            assert(after.take(middle.len() as int)[i] == middle[i]);
        }
        assert forall|i: int| 0 <= i < before.len() implies middle[i] == before[i] by {
            assert(middle.take(before.len() as int)[i] == before[i]);
        }
        assert(after.take(before.len() as int) =~= before);
        assert(made.take(probes.len() as int) =~= probes);
        assert(made.skip(probes.len() as int) =~= rest);
        assert(made[0] == probes[0]);
        assert(reads_violation(made) == reads_violation(probes));
    }
    result
}

/// Where the guest goes on behind its instruction.
pub open spec fn next_rip(context: ExitContext) -> MonadResult<u64> {
    match context.instruction_length {
        None => Err(
            MonadError::new(
                ErrorPhase::ExitHandling,
                ErrorCode::InvalidGuestState,
                context.basic_reason as u64,
            ),
        ),
        Some(length) => if context.guest_rip + length > u64::MAX {
            Err(
                MonadError::new(
                    ErrorPhase::ExitHandling,
                    ErrorCode::InvalidGuestState,
                    length as u64,
                ),
            )
        } else {
            Ok((context.guest_rip + length) as u64)
        },
    }
}

/// Where the guest goes on behind its instruction.
pub fn advance_rip(context: &ExitContext) -> (result: MonadResult<u64>)
    ensures
        result == next_rip(*context),
{
    let length: u64 = match context.instruction_length {
        Some(length) => length as u64,
        None => {
            return Err(
                MonadError::new(
                    ErrorPhase::ExitHandling,
                    ErrorCode::InvalidGuestState,
                    context.basic_reason as u64,
                ),
            );
        },
    };
    match context.guest_rip.checked_add(length) {
        Some(next) => Ok(next),
        None => Err(
            MonadError::new(ErrorPhase::ExitHandling, ErrorCode::InvalidGuestState, length),
        ),
    }
}

/// Whether calls switch one processor alone: the pointer is written and its
/// translations dropped, and where that fails the old pointer is brought back.
pub open spec fn switches_locally(
    made: Seq<SwitchCall>,
    cpu: u16,
    target: u64,
    old_eptp: u64,
) -> bool {
    &&& 1 <= made.len() <= 4
    &&& made.len() >= 1 ==> made[0].cpu == cpu && made[0].step is WriteTarget && made[0].eptp
        == target
    &&& made.len() >= 2 ==> made[1].cpu == cpu && made[1].step is InvalidateTarget && made[1].eptp
        == target
    &&& made.len() >= 3 ==> made[2].cpu == cpu && made[2].step is RestoreOld && made[2].eptp
        == old_eptp
    &&& made.len() >= 4 ==> made[3].cpu == cpu && made[3].step is InvalidateRestoredOld
        && made[3].eptp == old_eptp
    &&& (made.len() == 1) == (made[0].result is Err)
    &&& made.len() >= 2 ==> (made.len() == 2) == (made[1].result is Ok)
    &&& made.len() >= 3 ==> (made.len() == 3) == (made[2].result is Err)
}

/// What a switch of one processor alone did.
pub open spec fn local_switch(
    before: VcpuModel,
    after: VcpuModel,
    view: ViewId,
    directory: Option<&PublishedViewDirectory>,
    tsc: u64,
    calls: Seq<SwitchCall>,
    calls_after: Seq<SwitchCall>,
    result: Result<(), FatalReason>,
) -> bool {
    let target = match directory {
        Some(views) => views.resolved(view),
        None => None,
    };
    match target {
        None => {
            &&& result == Err::<(), FatalReason>(FatalReason::InvalidActiveView)
            &&& after == before
            &&& calls_after == calls
        },
        Some(target) => {
            let made = calls_after.skip(calls.len() as int);
            let switched = VcpuModel {
                active_view: ActiveViewState { id: view, eptp: target },
                ..before
            };
            let counted = VcpuModel { view_epoch: (before.view_epoch + 1) as u64, ..switched };
            &&& calls_after.len() >= calls.len()
            &&& calls_after.take(calls.len() as int) == calls
            &&& switches_locally(made, before.cpu.dense_index, target, before.active_view.eptp)
            &&& if made.len() == 1 {
                result == Err::<(), FatalReason>(FatalReason::VmwriteFailure) && after == before
            } else if made.len() > 2 {
                result == Err::<(), FatalReason>(FatalReason::InveptFailure) && after == before
            } else if before.view_epoch == u64::MAX {
                result == Err::<(), FatalReason>(FatalReason::InvalidVcpuState) && after == switched
            } else {
                &&& result == Ok::<(), FatalReason>(())
                &&& after == counted.recorded(
                    counted.stamped(
                        EventRecord::spec_from_transition(
                            before.cpu,
                            view,
                            tsc,
                            EventKind::ViewSwitch,
                            0,
                            1,
                        ),
                    ),
                )
            }
        },
    }
}

/// Switches this processor alone to a published view.
pub fn switch_local_view<B: ViewSwitchBackend>(
    vcpu: &mut Vcpu,
    view: ViewId,
    directory: Option<&PublishedViewDirectory>,
    tsc: u64,
    backend: &mut B,
) -> (result: Result<(), FatalReason>)
    requires
        old(vcpu)@.wf(),
    ensures
        final(vcpu)@.wf(),
        local_switch(
            old(vcpu)@,
            final(vcpu)@,
            view,
            directory,
            tsc,
            old(backend).calls(),
            final(backend).calls(),
            result,
        ),
{
    let ghost calls = backend.calls();
    let resolved = match directory {
        Some(views) => views.resolve(view),
        None => None,
    };
    let target: u64 = match resolved {
        Some(target) => target,
        None => {
            return Err(FatalReason::InvalidActiveView);
        },
    };
    let cpu: u16 = vcpu.cpu.dense_index;
    let old_eptp: u64 = vcpu.active_view.eptp;
    let written = backend.run(cpu, SwitchStep::WriteTarget, target);
    let ghost mut made = seq![
        SwitchCall { cpu, step: SwitchStep::WriteTarget, eptp: target, result: written },
    ];
    proof {
        assert(backend.calls().skip(calls.len() as int) =~= made);
        assert(backend.calls().take(calls.len() as int) =~= calls);
    }
    if written.is_err() {
        return Err(FatalReason::VmwriteFailure);
    }
    let dropped = backend.run(cpu, SwitchStep::InvalidateTarget, target);
    proof {
        made = made.push(
            SwitchCall { cpu, step: SwitchStep::InvalidateTarget, eptp: target, result: dropped },
        );
        assert(backend.calls().skip(calls.len() as int) =~= made);
        assert(backend.calls().take(calls.len() as int) =~= calls);
    }
    if dropped.is_err() {
        let restored = backend.run(cpu, SwitchStep::RestoreOld, old_eptp);
        proof {
            made = made.push(
                SwitchCall { cpu, step: SwitchStep::RestoreOld, eptp: old_eptp, result: restored },
            );
            assert(backend.calls().skip(calls.len() as int) =~= made);
            assert(backend.calls().take(calls.len() as int) =~= calls);
        }
        if restored.is_err() {
            return Err(FatalReason::InveptFailure);
        }
        let again = backend.run(cpu, SwitchStep::InvalidateRestoredOld, old_eptp);
        proof {
            made = made.push(
                SwitchCall {
                    cpu,
                    step: SwitchStep::InvalidateRestoredOld,
                    eptp: old_eptp,
                    result: again,
                },
            );
            assert(backend.calls().skip(calls.len() as int) =~= made);
            assert(backend.calls().take(calls.len() as int) =~= calls);
        }
        return Err(FatalReason::InveptFailure);
    }
    vcpu.active_view = ActiveViewState { id: view, eptp: target };
    if !vcpu.commit_view_epoch() {
        return Err(FatalReason::InvalidVcpuState);
    }
    vcpu.record_transition(EventKind::ViewSwitch, 0, 1, tsc);
    Ok(())
}

/// What an exit needs from outside.
#[derive(Debug, Clone, Copy)]
pub struct ExitReplies {
    /// What the processor says to the leaf and subleaf in the guest's
    /// registers, where the guest asked.
    pub native: CpuidRegisters,
    /// What a read of the guest's code selector came to.
    pub cs: MonadResult<u64>,
    /// The processor that this runs on.
    pub current_cpu: CpuId,
}

/// The processor with the guest's place, stack and flags at the exit.
pub open spec fn entered(vcpu: VcpuModel, context: ExitContext) -> VcpuModel {
    VcpuModel {
        regs: GuestRegs {
            rip: context.guest_rip,
            rsp: context.guest_rsp,
            rflags: context.guest_rflags,
            ..vcpu.regs
        },
        ..vcpu
    }
}

/// What the dispatch of an exit did.
pub open spec fn dispatched(
    before: VcpuModel,
    after: VcpuModel,
    context: ExitContext,
    replies: ExitReplies,
    directory: Option<&PublishedViewDirectory>,
    calls: Seq<SwitchCall>,
    calls_after: Seq<SwitchCall>,
    disposition: ExitDisposition,
) -> bool {
    let route = spec_route_exit_reason(context.basic_reason as u64);
    let regs = before.regs;
    &&& route !is Vmcall ==> calls_after == calls
    &&& match route {
        ExitRoute::TripleFault => {
            &&& disposition == triplefault::spec_disposition()
            &&& after == before
        },
        ExitRoute::Cpuid => {
            let answer = cpuid::guest_answer(
                regs.rax as u32,
                regs.rcx as u32,
                context.guest_cr4,
                replies.native,
            );
            &&& disposition == ExitDisposition::ResumeAndAdvance
            &&& after == (VcpuModel {
                regs: GuestRegs {
                    rax: answer.eax as u64,
                    rbx: answer.ebx as u64,
                    rcx: answer.ecx as u64,
                    rdx: answer.edx as u64,
                    ..regs
                },
                ..before
            })
        },
        ExitRoute::Xsetbv => {
            let value = xsetbv::spec_joined(regs.rdx, regs.rax);
            match xsetbv::refusal(
                context.guest_cs_selector,
                context.guest_cr4,
                regs.rcx as u32,
                value,
                before.capabilities.xsave.xcr0_mask,
            ) {
                Some(refusal) => disposition == refusal && after == before,
                None => {
                    &&& disposition == ExitDisposition::ResumeAndAdvance
                    &&& after == (VcpuModel { guest_xcr0: value, ..before })
                },
            }
        },
        ExitRoute::Vmcall => vmcall::call_effect(
            before,
            after,
            replies.cs,
            replies.current_cpu,
            directory,
            calls,
            calls_after,
            disposition,
        ),
        ExitRoute::GuestVmxInstruction => {
            &&& disposition == eventinjection::spec_inject_ud()
            &&& after == before
        },
        ExitRoute::Rdmsr => {
            &&& disposition == eventinjection::spec_inject_gp()
            &&& after == before
        },
        ExitRoute::Wrmsr => {
            &&& disposition == msr::msr_disposition(regs.rcx as u32, true, before.variable_mtrrs)
            &&& after == if msr::spec_is_mtrr_write(regs.rcx as u32, before.variable_mtrrs) {
                before.recorded(
                    before.stamped(
                        EventRecord::spec_from_exit(
                            &context,
                            EventKind::MtrrModificationAttempt,
                            0,
                            0,
                            regs.rcx as u32,
                        ),
                    ),
                )
            } else {
                before
            }
        },
        ExitRoute::EptViolation => {
            &&& disposition == ept::violation_disposition(context)
            &&& after == ept::after_violation(before, context)
        },
        ExitRoute::EptMisconfiguration => {
            &&& disposition == ExitDisposition::Fatal(FatalReason::CorruptEptHierarchy)
            &&& after == before
        },
        ExitRoute::Unknown => {
            &&& disposition == ExitDisposition::Fatal(FatalReason::UnexpectedVmExit)
            &&& after == before.recorded(
                before.stamped(
                    EventRecord::spec_from_exit(
                        &context,
                        EventKind::UnexpectedVmExit,
                        0,
                        context.basic_reason as u32,
                        0,
                    ),
                ),
            )
        },
    }
}

/// Dispatches one exit.
pub fn dispatch<B: ViewSwitchBackend>(
    vcpu: &mut Vcpu,
    context: &ExitContext,
    replies: ExitReplies,
    directory: Option<&PublishedViewDirectory>,
    backend: &mut B,
) -> (disposition: ExitDisposition)
    requires
        old(vcpu)@.wf(),
    ensures
        final(vcpu)@.wf(),
        dispatched(
            entered(old(vcpu)@, *context),
            final(vcpu)@,
            *context,
            replies,
            directory,
            old(backend).calls(),
            final(backend).calls(),
            disposition,
        ),
{
    vcpu.regs.rip = context.guest_rip;
    vcpu.regs.rsp = context.guest_rsp;
    vcpu.regs.rflags = context.guest_rflags;
    let ghost before = vcpu@;
    assert(before == entered(old(vcpu)@, *context));
    match route_exit_reason(context.basic_reason as u64) {
        ExitRoute::Cpuid => cpuid::handle(&mut vcpu.regs, context.guest_cr4, replies.native),
        ExitRoute::Xsetbv => {
            let value: u64 = xsetbv::joined(vcpu.regs.rdx, vcpu.regs.rax);
            let index: u32 = #[verifier::truncate]
            (vcpu.regs.rcx as u32);
            match xsetbv::admission(
                context.guest_cs_selector,
                context.guest_cr4,
                index,
                value,
                vcpu.capabilities.xsave.xcr0_mask,
            ) {
                Err(refusal) => refusal,
                Ok(_) => {
                    vcpu.guest_xcr0 = value;
                    ExitDisposition::ResumeAndAdvance
                },
            }
        },
        ExitRoute::Rdmsr => msr::handle(vcpu.regs.rcx, false, vcpu.variable_mtrrs),
        ExitRoute::Wrmsr => {
            let disposition = msr::handle(vcpu.regs.rcx, true, vcpu.variable_mtrrs);
            if matches!(disposition, ExitDisposition::Fatal(_)) {
                let register: u32 = #[verifier::truncate]
                (vcpu.regs.rcx as u32);
                let event = vcpu.stamp_event(
                    EventRecord::from_exit(
                        context,
                        EventKind::MtrrModificationAttempt,
                        0,
                        0,
                        register,
                    ),
                );
                vcpu.record(event);
            }
            disposition
        },
        ExitRoute::TripleFault => triplefault::disposition(),
        ExitRoute::EptViolation => ept::handle_violation(vcpu, context, directory),
        ExitRoute::EptMisconfiguration => {
            let address: u64 = match context.guest_physical_address {
                Some(address) => address,
                None => 0,
            };
            ept::handle_misconfig(address)
        },
        ExitRoute::Vmcall => vmcall::handle(
            vcpu,
            replies.cs,
            replies.current_cpu,
            directory,
            backend,
        ),
        ExitRoute::GuestVmxInstruction => genericvmx::handle(),
        ExitRoute::Unknown => {
            let event = vcpu.stamp_event(
                EventRecord::from_exit(
                    context,
                    EventKind::UnexpectedVmExit,
                    0,
                    context.basic_reason as u32,
                    0,
                ),
            );
            vcpu.record(event);
            unknown_exit_disposition()
        },
    }
}

/// Why the pending event of the next entry is read.
#[derive(Debug, Clone, Copy, PartialEq, Eq, Structural)]
pub enum EntryPurpose {
    /// An interrupted delivery is to be completed.
    Reinject,
    /// An event of the hypervisor's own is to be delivered.
    Inject(VmEntryEvent),
}

/// How far the preparation of the next entry has come.
#[derive(Debug, Clone, Copy, PartialEq, Eq, Structural)]
pub enum EntryStage {
    /// The guest's place is to be written.
    Advancing(u64),
    /// The pending event is to be read.
    Reading(EntryPurpose),
    /// The write of an update with this index is to be made.
    Writing(InjectionUpdate, usize),
    /// There is nothing left to do but this.
    Finished(VmExitAction),
}

/// What the outside does next for an entry.
#[derive(Debug, Clone, Copy, PartialEq, Eq, Structural)]
pub enum EntryAction {
    Write(VmcsWrite),
    ReadPending,
    Finish(VmExitAction),
}

impl EntryStage {
    /// A stage that can be reached: there is a write to make.
    pub open spec fn wf(self) -> bool {
        self matches EntryStage::Writing(update, index) ==> index < update.writes().len()
    }

    /// What is to be done at a stage.
    pub open spec fn spec_action(self) -> EntryAction {
        match self {
            EntryStage::Advancing(next) => EntryAction::Write(
                VmcsWrite { field: VmcsField::GuestRip, value: next },
            ),
            EntryStage::Reading(_) => EntryAction::ReadPending,
            EntryStage::Writing(update, index) => EntryAction::Write(
                update.writes()[index as int],
            ),
            EntryStage::Finished(action) => EntryAction::Finish(action),
        }
    }

    /// What is to be done at a stage.
    pub fn action(self) -> (action: EntryAction)
        requires
            self.wf(),
        ensures
            action == self.spec_action(),
    {
        match self {
            EntryStage::Advancing(next) => EntryAction::Write(
                VmcsWrite { field: VmcsField::GuestRip, value: next },
            ),
            EntryStage::Reading(_) => EntryAction::ReadPending,
            EntryStage::Writing(update, index) => match update.write(index) {
                Some(write) => EntryAction::Write(write),
                None => EntryAction::Finish(VmExitAction::Resume),
            },
            EntryStage::Finished(action) => EntryAction::Finish(action),
        }
    }

    /// How many replies are still awaited at most.
    pub open spec fn remaining(self) -> nat {
        match self {
            EntryStage::Advancing(_) => 6,
            EntryStage::Reading(_) => 5,
            EntryStage::Writing(update, index) => (update.writes().len() - index) as nat,
            EntryStage::Finished(_) => 0,
        }
    }
}

/// A stage, and the processor at it.
pub struct EntryState {
    pub stage: EntryStage,
    pub vcpu: VcpuModel,
}

/// The end that a fatal reason makes.
pub open spec fn ended(vcpu: VcpuModel, context: ExitContext, reason: FatalReason) -> EntryState {
    EntryState {
        stage: EntryStage::Finished(VmExitAction::Fatal(reason)),
        vcpu: vcpu.fatal(context, reason),
    }
}

/// What is left to do when an update is to be written.
pub open spec fn started(vcpu: VcpuModel, update: InjectionUpdate) -> EntryState {
    EntryState { stage: EntryStage::Writing(update, 0), vcpu }
}

/// The stage behind a reply.
pub open spec fn after_reply(
    vcpu: VcpuModel,
    context: ExitContext,
    stage: EntryStage,
    reply: MonadResult<u64>,
) -> EntryState {
    match stage {
        EntryStage::Finished(_) => EntryState { stage, vcpu },
        _ => match reply {
            Err(_) => ended(vcpu, context, FatalReason::VmwriteFailure),
            Ok(value) => match stage {
                EntryStage::Advancing(next) => EntryState {
                    stage: EntryStage::Reading(EntryPurpose::Reinject),
                    vcpu: VcpuModel { regs: GuestRegs { rip: next, ..vcpu.regs }, ..vcpu },
                },
                EntryStage::Reading(EntryPurpose::Reinject) => match eventinjection::reinjection(
                    context,
                    value as u32,
                ) {
                    Err(_) => ended(vcpu, context, FatalReason::VmwriteFailure),
                    Ok(None) => EntryState {
                        stage: EntryStage::Finished(VmExitAction::Resume),
                        vcpu,
                    },
                    Ok(Some(update)) => started(vcpu, update),
                },
                EntryStage::Reading(EntryPurpose::Inject(event)) => match eventinjection::injection(
                    context,
                    event,
                    value as u32,
                ) {
                    Err(_) => ended(vcpu, context, FatalReason::VmwriteFailure),
                    Ok(update) => started(vcpu, update),
                },
                EntryStage::Writing(update, index) => {
                    let next = (index + 1) as usize;
                    if next >= update.writes().len() {
                        EntryState { stage: EntryStage::Finished(VmExitAction::Resume), vcpu }
                    } else if update.writes()[next as int].field is GuestRflags {
                        EntryState {
                            stage: EntryStage::Writing(update, next),
                            vcpu: VcpuModel {
                                regs: GuestRegs { rflags: update.guest_rflags, ..vcpu.regs },
                                ..vcpu
                            },
                        }
                    } else {
                        EntryState { stage: EntryStage::Writing(update, next), vcpu }
                    }
                },
                EntryStage::Finished(_) => EntryState { stage, vcpu },
            },
        },
    }
}

fn finish_fatal(vcpu: &mut Vcpu, context: &ExitContext, reason: FatalReason) -> (stage: EntryStage)
    requires
        old(vcpu)@.wf(),
    ensures
        final(vcpu)@.wf(),
        (EntryState { stage, vcpu: final(vcpu)@ }) == ended(old(vcpu)@, *context, reason),
{
    vcpu.record_fatal(context, reason);
    EntryStage::Finished(VmExitAction::Fatal(reason))
}

/// Goes on with the preparation of an entry: `reply` is what the action of the
/// stage came to. What is read counts, what is written does not.
pub fn proceed(
    vcpu: &mut Vcpu,
    context: &ExitContext,
    stage: EntryStage,
    reply: MonadResult<u64>,
) -> (next: EntryStage)
    requires
        old(vcpu)@.wf(),
        stage.wf(),
    ensures
        final(vcpu)@.wf(),
        next.wf(),
        (EntryState { stage: next, vcpu: final(vcpu)@ }) == after_reply(
            old(vcpu)@,
            *context,
            stage,
            reply,
        ),
{
    if let EntryStage::Finished(action) = stage {
        return EntryStage::Finished(action);
    }
    let value: u64 = match reply {
        Ok(value) => value,
        Err(_) => {
            return finish_fatal(vcpu, context, FatalReason::VmwriteFailure);
        },
    };
    let pending: u32 = #[verifier::truncate]
    (value as u32);
    match stage {
        EntryStage::Advancing(next) => {
            vcpu.regs.rip = next;
            EntryStage::Reading(EntryPurpose::Reinject)
        },
        EntryStage::Reading(EntryPurpose::Reinject) => match prepare_reinjection(
            context,
            pending,
        ) {
            Err(_) => finish_fatal(vcpu, context, FatalReason::VmwriteFailure),
            Ok(None) => EntryStage::Finished(VmExitAction::Resume),
            Ok(Some(update)) => EntryStage::Writing(update, 0),
        },
        EntryStage::Reading(EntryPurpose::Inject(event)) => match prepare_injection(
            context,
            event,
            pending,
        ) {
            Err(_) => finish_fatal(vcpu, context, FatalReason::VmwriteFailure),
            Ok(update) => EntryStage::Writing(update, 0),
        },
        EntryStage::Writing(update, index) => {
            let next: usize = index + 1;
            match update.write(next) {
                None => EntryStage::Finished(VmExitAction::Resume),
                Some(write) => {
                    if write.field == VmcsField::GuestRflags {
                        vcpu.regs.rflags = update.guest_rflags;
                    }
                    EntryStage::Writing(update, next)
                },
            }
        },
        EntryStage::Finished(action) => EntryStage::Finished(action),
    }
}

/// What a disposition begins.
pub open spec fn applied(
    before: VcpuModel,
    after: VcpuModel,
    context: ExitContext,
    disposition: ExitDisposition,
    directory: Option<&PublishedViewDirectory>,
    tsc: u64,
    calls: Seq<SwitchCall>,
    calls_after: Seq<SwitchCall>,
    stage: EntryStage,
) -> bool {
    let state = EntryState { stage, vcpu: after };
    &&& disposition !is SwitchPublishedView ==> calls_after == calls
    &&& match disposition {
        ExitDisposition::ResumeAndAdvance => match next_rip(context) {
            Ok(next) => state == EntryState { stage: EntryStage::Advancing(next), vcpu: before },
            Err(_) => state == ended(before, context, FatalReason::VmwriteFailure),
        },
        ExitDisposition::ResumeWithoutAdvance => state == EntryState {
            stage: EntryStage::Reading(EntryPurpose::Reinject),
            vcpu: before,
        },
        ExitDisposition::Inject(event) => state == EntryState {
            stage: EntryStage::Reading(EntryPurpose::Inject(event)),
            vcpu: before,
        },
        ExitDisposition::Shutdown => state == EntryState {
            stage: EntryStage::Finished(VmExitAction::Shutdown),
            vcpu: before,
        },
        ExitDisposition::Fatal(reason) => state == ended(before, context, reason),
        ExitDisposition::SwitchPublishedView(view) => exists|
            middle: VcpuModel,
            result: Result<(), FatalReason>,
        |
            {
                &&& #[trigger] local_switch(
                    before,
                    middle,
                    view,
                    directory,
                    tsc,
                    calls,
                    calls_after,
                    result,
                )
                &&& state == match result {
                    Ok(_) => EntryState {
                        stage: EntryStage::Reading(EntryPurpose::Reinject),
                        vcpu: middle,
                    },
                    Err(reason) => ended(middle, context, reason),
                }
            },
    }
}

/// Begins to act on a disposition. The outside then carries out the action of
/// each stage and hands its reply to `proceed`, until the stage is finished.
pub fn apply<B: ViewSwitchBackend>(
    vcpu: &mut Vcpu,
    context: &ExitContext,
    disposition: ExitDisposition,
    directory: Option<&PublishedViewDirectory>,
    tsc: u64,
    backend: &mut B,
) -> (stage: EntryStage)
    requires
        old(vcpu)@.wf(),
    ensures
        final(vcpu)@.wf(),
        stage.wf(),
        applied(
            old(vcpu)@,
            final(vcpu)@,
            *context,
            disposition,
            directory,
            tsc,
            old(backend).calls(),
            final(backend).calls(),
            stage,
        ),
{
    match disposition {
        ExitDisposition::ResumeAndAdvance => match advance_rip(context) {
            Ok(next) => EntryStage::Advancing(next),
            Err(_) => finish_fatal(vcpu, context, FatalReason::VmwriteFailure),
        },
        ExitDisposition::ResumeWithoutAdvance => EntryStage::Reading(EntryPurpose::Reinject),
        ExitDisposition::Inject(event) => EntryStage::Reading(EntryPurpose::Inject(event)),
        ExitDisposition::SwitchPublishedView(view) => {
            let result = switch_local_view(vcpu, view, directory, tsc, backend);
            let ghost middle = vcpu@;
            match result {
                Ok(_) => {
                    assert(local_switch(
                        old(vcpu)@,
                        middle,
                        view,
                        directory,
                        tsc,
                        old(backend).calls(),
                        backend.calls(),
                        result,
                    ));
                    EntryStage::Reading(EntryPurpose::Reinject)
                },
                Err(reason) => {
                    let stage = finish_fatal(vcpu, context, reason);
                    assert(local_switch(
                        old(vcpu)@,
                        middle,
                        view,
                        directory,
                        tsc,
                        old(backend).calls(),
                        backend.calls(),
                        result,
                    ));
                    stage
                },
            }
        },
        ExitDisposition::Shutdown => EntryStage::Finished(VmExitAction::Shutdown),
        ExitDisposition::Fatal(reason) => finish_fatal(vcpu, context, reason),
    }
}

/// Reads the guest's state, or leaves word that it could not be read.
pub fn open_exit<R: ContextReader>(vcpu: &mut Vcpu, reader: &mut R, tsc: u64) -> (result: Result<
    ExitContext,
    VmExitAction,
>)
    requires
        old(vcpu)@.wf(),
    ensures
        final(vcpu)@.wf(),
        ({
            let blank = ExitContext::spec_blank(old(vcpu).cpu, old(vcpu).active_view.id, tsc);
            let made = final(reader).reads().skip(old(reader).reads().len() as int);
            exists|captured: MonadResult<ExitContext>|
                {
                    &&& #[trigger] capture_outcome(blank, made, captured)
                    &&& match captured {
                        Ok(context) => {
                            &&& result == Ok::<ExitContext, VmExitAction>(context)
                            &&& final(vcpu)@ == old(vcpu)@
                        },
                        Err(_) => {
                            &&& result == Err::<ExitContext, VmExitAction>(
                                VmExitAction::Fatal(FatalReason::VmreadFailure),
                            )
                            &&& final(vcpu)@ == old(vcpu)@.fatal(blank, FatalReason::VmreadFailure)
                        },
                    }
                }
        }),
{
    let captured = capture(reader, vcpu.cpu, vcpu.active_view.id, tsc);
    match captured {
        Ok(context) => Ok(context),
        Err(_) => {
            let blank = ExitContext::blank(vcpu.cpu, vcpu.active_view.id, tsc);
            vcpu.record_fatal(&blank, FatalReason::VmreadFailure);
            Err(VmExitAction::Fatal(FatalReason::VmreadFailure))
        },
    }
}

/// The preparation of an entry comes to an end: every reply brings it closer.
pub proof fn law_entry_comes_to_an_end(
    vcpu: VcpuModel,
    context: ExitContext,
    stage: EntryStage,
    reply: MonadResult<u64>,
)
    requires
        stage.wf(),
        stage !is Finished,
    ensures
        after_reply(vcpu, context, stage, reply).stage.remaining() < stage.remaining(),
        after_reply(vcpu, context, stage, reply).stage.wf(),
{
}

/// The guest resumes only from an entry whose every write went through: a reply
/// that reports a failure ends in a fatal action.
pub proof fn law_failed_write_is_fatal(
    vcpu: VcpuModel,
    context: ExitContext,
    stage: EntryStage,
    error: MonadError,
)
    requires
        stage !is Finished,
    ensures
        after_reply(vcpu, context, stage, Err(error)).stage == EntryStage::Finished(
            VmExitAction::Fatal(FatalReason::VmwriteFailure),
        ),
{
}

/// An access that a view does not allow never moves the guest on: its registers
/// stay, the hardware is left alone, and what follows does not step over the
/// instruction.
pub proof fn law_fault_never_advances(
    before: VcpuModel,
    after: VcpuModel,
    context: ExitContext,
    replies: ExitReplies,
    directory: Option<&PublishedViewDirectory>,
    calls: Seq<SwitchCall>,
    calls_after: Seq<SwitchCall>,
    disposition: ExitDisposition,
)
    requires
        dispatched(
            before,
            after,
            context,
            replies,
            directory,
            calls,
            calls_after,
            disposition,
        ),
        ({
            let route = spec_route_exit_reason(context.basic_reason as u64);
            route is EptViolation || route is EptMisconfiguration
        }),
    ensures
        disposition is Fatal,
        disposition !is ResumeAndAdvance,
        after.regs == before.regs,
        after.active_view == before.active_view,
        calls_after == calls,
{
}

/// There is no exit that the hypervisor does not know and goes on from: it ends
/// in a fatal action, with word of what came.
pub proof fn law_unknown_exit_is_fatal(
    before: VcpuModel,
    middle: VcpuModel,
    after: VcpuModel,
    context: ExitContext,
    replies: ExitReplies,
    directory: Option<&PublishedViewDirectory>,
    tsc: u64,
    calls: Seq<SwitchCall>,
    calls_between: Seq<SwitchCall>,
    calls_after: Seq<SwitchCall>,
    disposition: ExitDisposition,
    stage: EntryStage,
)
    requires
        spec_route_exit_reason(context.basic_reason as u64) is Unknown,
        dispatched(
            before,
            middle,
            context,
            replies,
            directory,
            calls,
            calls_between,
            disposition,
        ),
        applied(
            middle,
            after,
            context,
            disposition,
            directory,
            tsc,
            calls_between,
            calls_after,
            stage,
        ),
    ensures
        stage == EntryStage::Finished(VmExitAction::Fatal(FatalReason::UnexpectedVmExit)),
        after.emergency_event == middle.last_word(context, FatalReason::UnexpectedVmExit),
        after.regs == before.regs,
        calls_after == calls,
{
}

} // verus!
