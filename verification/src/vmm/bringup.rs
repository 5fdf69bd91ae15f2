//! One processor on its way into the guest, and back where the way ends.

use vstd::prelude::*;

use super::launch;
use super::vcpu::{Vcpu, VcpuModel};
use crate::arch::intel::vmcs::GuestRegs;
use crate::arch::intel::vmx;
use crate::arch::intel::vmx::{prepare_control_registers, OriginalControlRegisters};
use crate::error::{ErrorCode, ErrorPhase, MonadError, MonadResult};
use crate::exit::disposition::FatalReason;

verus! {

/// How far a processor has come. The registers are those that it had before.
#[derive(Debug, Clone, Copy)]
pub enum BringUp {
    /// The registers that VMX needs are to be written.
    Preparing(OriginalControlRegisters, OriginalControlRegisters),
    /// VMX is to be turned on.
    Entering(OriginalControlRegisters),
    /// The processor is to be described, for the guest that goes on as it.
    Describing(OriginalControlRegisters),
    /// The control structure is to be filled.
    Setting(OriginalControlRegisters),
    /// The guest is to be entered.
    Launching(OriginalControlRegisters),
    /// VMX is to be turned off. The guest's state components were selected, if
    /// the guest was tried.
    Leaving(OriginalControlRegisters, bool, MonadError),
    /// The state components are to be selected that were.
    Unmasking(OriginalControlRegisters, u64, MonadError),
    /// The registers are to be what they were.
    Restoring(OriginalControlRegisters, MonadError),
    /// Nothing is left of the attempt.
    TakenBack(MonadError),
    /// The guest was entered, and this is what became of it since.
    Launched(MonadResult<()>),
    /// VMX could not be turned off.
    Lost,
}

/// What is to be done next on the processor.
#[derive(Debug, Clone, Copy)]
pub enum BringUpAction {
    WriteControls(OriginalControlRegisters),
    TurnOn,
    Describe,
    SetUp,
    Launch,
    TurnOff,
    WriteMask(u64),
    Finish(MonadResult<()>),
    Halt(FatalReason),
}

/// What an action came to.
#[derive(Debug, Clone, Copy)]
pub enum BringUpReply {
    Done,
    /// The registers, and the state components that are selected.
    Described(GuestRegs, u64),
    Failed(MonadError),
}

/// A failure as a processor reports it.
pub open spec fn seen(vcpu: VcpuModel, error: MonadError) -> MonadError {
    MonadError { cpu_dense_index: vcpu.cpu.dense_index, ..error }
}

/// Whether a processor that was launched runs the guest.
pub open spec fn launch_report(vcpu: VcpuModel) -> MonadResult<()> {
    if vcpu.active {
        Ok(())
    } else {
        Err(
            seen(
                vcpu,
                MonadError::new(ErrorPhase::Launch, ErrorCode::LaunchRollbackFailure, 0),
            ),
        )
    }
}

impl BringUp {
    /// What is to be done at a stage.
    pub open spec fn spec_action(self) -> BringUpAction {
        match self {
            BringUp::Preparing(_, needed) => BringUpAction::WriteControls(needed),
            BringUp::Entering(_) => BringUpAction::TurnOn,
            BringUp::Describing(_) => BringUpAction::Describe,
            BringUp::Setting(_) => BringUpAction::SetUp,
            BringUp::Launching(_) => BringUpAction::Launch,
            BringUp::Leaving(_, _, _) => BringUpAction::TurnOff,
            BringUp::Unmasking(_, mask, _) => BringUpAction::WriteMask(mask),
            BringUp::Restoring(original, _) => BringUpAction::WriteControls(original),
            BringUp::TakenBack(error) => BringUpAction::Finish(Err(error)),
            BringUp::Launched(result) => BringUpAction::Finish(result),
            BringUp::Lost => BringUpAction::Halt(FatalReason::PartialShutdown),
        }
    }

    /// What is to be done at a stage.
    pub fn action(self) -> (action: BringUpAction)
        ensures
            action == self.spec_action(),
    {
        match self {
            BringUp::Preparing(_, needed) => BringUpAction::WriteControls(needed),
            BringUp::Entering(_) => BringUpAction::TurnOn,
            BringUp::Describing(_) => BringUpAction::Describe,
            BringUp::Setting(_) => BringUpAction::SetUp,
            BringUp::Launching(_) => BringUpAction::Launch,
            BringUp::Leaving(_, _, _) => BringUpAction::TurnOff,
            BringUp::Unmasking(_, mask, _) => BringUpAction::WriteMask(mask),
            BringUp::Restoring(original, _) => BringUpAction::WriteControls(original),
            BringUp::TakenBack(error) => BringUpAction::Finish(Err(error)),
            BringUp::Launched(result) => BringUpAction::Finish(result),
            BringUp::Lost => BringUpAction::Halt(FatalReason::PartialShutdown),
        }
    }

    /// The stage, and the processor, behind what the action came to.
    pub open spec fn after(self, vcpu: VcpuModel, reply: BringUpReply) -> (BringUp, VcpuModel) {
        match (self, reply) {
            (BringUp::Preparing(original, _), _) => (BringUp::Entering(original), vcpu),
            (BringUp::Entering(original), BringUpReply::Failed(error)) => (
                BringUp::Restoring(original, seen(vcpu, error)),
                vcpu,
            ),
            (BringUp::Entering(original), _) => (BringUp::Describing(original), vcpu),
            (BringUp::Describing(original), BringUpReply::Failed(error)) => (
                BringUp::Leaving(original, false, seen(vcpu, error)),
                vcpu,
            ),
            (BringUp::Describing(original), BringUpReply::Described(regs, mask)) => (
                BringUp::Setting(original),
                VcpuModel { regs, guest_xcr0: mask, ..vcpu },
            ),
            (BringUp::Describing(original), BringUpReply::Done) => (
                BringUp::Setting(original),
                vcpu,
            ),
            (BringUp::Setting(original), BringUpReply::Failed(error)) => (
                BringUp::Leaving(original, false, seen(vcpu, error)),
                vcpu,
            ),
            (BringUp::Setting(original), _) => (
                BringUp::Launching(original),
                VcpuModel { active: true, ..vcpu },
            ),
            (BringUp::Launching(original), BringUpReply::Failed(error)) => (
                BringUp::Leaving(original, true, seen(vcpu, error)),
                vcpu,
            ),
            (BringUp::Launching(original), _) => (BringUp::Launched(launch_report(vcpu)), vcpu),
            (BringUp::Leaving(_, _, _), BringUpReply::Failed(_)) => (BringUp::Lost, vcpu),
            (BringUp::Leaving(original, true, error), _) => (
                BringUp::Unmasking(original, vcpu.guest_xcr0, error),
                VcpuModel { active: false, ..vcpu },
            ),
            (BringUp::Leaving(original, false, error), _) => (
                BringUp::Restoring(original, error),
                VcpuModel { active: false, ..vcpu },
            ),
            (BringUp::Unmasking(original, _, error), _) => (
                BringUp::Restoring(original, error),
                vcpu,
            ),
            (BringUp::Restoring(_, error), _) => (BringUp::TakenBack(error), vcpu),
            _ => (self, vcpu),
        }
    }

    /// How many actions are still to come at most.
    pub open spec fn remaining(self) -> nat {
        match self {
            BringUp::Preparing(_, _) => 8,
            BringUp::Entering(_) => 7,
            BringUp::Describing(_) => 6,
            BringUp::Setting(_) => 5,
            BringUp::Launching(_) => 4,
            BringUp::Leaving(_, _, _) => 3,
            BringUp::Unmasking(_, _, _) => 2,
            BringUp::Restoring(_, _) => 1,
            _ => 0,
        }
    }
}

/// How an attempt begins, if it can.
pub open spec fn begun(
    vcpu: VcpuModel,
    group: u16,
    number: u8,
    xsave_area: usize,
    xsave_size: u32,
    original: OriginalControlRegisters,
) -> MonadResult<BringUp> {
    match launch::launch_fault(vcpu, group, number, xsave_area, xsave_size) {
        Some(error) => Err(error),
        None => match vmx::needed_controls(vcpu.capabilities, original) {
            Err(error) => Err(seen(vcpu, error)),
            Ok(needed) => Ok(BringUp::Preparing(original, needed)),
        },
    }
}

impl Vcpu {
    /// Begins to bring a processor into the guest, if it is the right one, has
    /// room for its state, and can be given the registers that VMX needs.
    pub fn begin_bring_up(
        &self,
        group: u16,
        number: u8,
        xsave_area: usize,
        xsave_size: u32,
        original: OriginalControlRegisters,
    ) -> (result: MonadResult<BringUp>)
        ensures
            result == begun(self@, group, number, xsave_area, xsave_size, original),
    {
        self.init_cpu(group, number, xsave_area, xsave_size)?;
        match prepare_control_registers(&self.capabilities, original) {
            Ok(needed) => Ok(BringUp::Preparing(original, needed)),
            Err(error) => Err(error.on_cpu(self.cpu.dense_index)),
        }
    }

    /// Goes on with a stage, by what its action came to. Only what can fail
    /// counts.
    pub fn bring_up(&mut self, stage: BringUp, reply: BringUpReply) -> (next: BringUp)
        ensures
            (next, final(self)@) == stage.after(old(self)@, reply),
    {
        let cpu: u16 = self.cpu.dense_index;
        match stage {
            BringUp::Preparing(original, _) => BringUp::Entering(original),
            BringUp::Entering(original) => match reply {
                BringUpReply::Failed(error) => BringUp::Restoring(original, error.on_cpu(cpu)),
                _ => BringUp::Describing(original),
            },
            BringUp::Describing(original) => match reply {
                BringUpReply::Failed(error) => BringUp::Leaving(
                    original,
                    false,
                    error.on_cpu(cpu),
                ),
                BringUpReply::Described(regs, mask) => {
                    self.regs = regs;
                    self.guest_xcr0 = mask;
                    BringUp::Setting(original)
                },
                BringUpReply::Done => BringUp::Setting(original),
            },
            BringUp::Setting(original) => match reply {
                BringUpReply::Failed(error) => BringUp::Leaving(
                    original,
                    false,
                    error.on_cpu(cpu),
                ),
                _ => {
                    self.active = true;
                    BringUp::Launching(original)
                },
            },
            BringUp::Launching(original) => match reply {
                BringUpReply::Failed(error) => BringUp::Leaving(original, true, error.on_cpu(cpu)),
                _ => BringUp::Launched(self.launched()),
            },
            BringUp::Leaving(original, tried, error) => match reply {
                BringUpReply::Failed(_) => BringUp::Lost,
                _ => {
                    self.active = false;
                    if tried {
                        BringUp::Unmasking(original, self.guest_xcr0, error)
                    } else {
                        BringUp::Restoring(original, error)
                    }
                },
            },
            BringUp::Unmasking(original, _, error) => BringUp::Restoring(original, error),
            BringUp::Restoring(_, error) => BringUp::TakenBack(error),
            BringUp::TakenBack(error) => BringUp::TakenBack(error),
            BringUp::Launched(result) => BringUp::Launched(result),
            BringUp::Lost => BringUp::Lost,
        }
    }
}

/// The hardware of a processor, as far as an attempt changes it: whether VMX is
/// on, the control registers, and the state components that are selected.
pub struct Native {
    pub vmx_on: bool,
    pub controls: OriginalControlRegisters,
    pub mask: u64,
}

/// What an action may make of the hardware. An entry selects state components
/// of its own.
pub open spec fn carried_out(
    before: Native,
    action: BringUpAction,
    reply: BringUpReply,
    after: Native,
) -> bool {
    match action {
        BringUpAction::WriteControls(controls) => after == (Native { controls, ..before }),
        BringUpAction::WriteMask(mask) => after == (Native { mask, ..before }),
        BringUpAction::TurnOn => after == (Native {
            vmx_on: before.vmx_on || reply !is Failed,
            ..before
        }),
        BringUpAction::TurnOff => after == (Native {
            vmx_on: before.vmx_on && reply is Failed,
            ..before
        }),
        BringUpAction::Describe => {
            &&& after == before
            &&& reply !is Done
            &&& reply matches BringUpReply::Described(_, mask) ==> mask == before.mask
        },
        BringUpAction::Launch => after == (Native { mask: after.mask, ..before }),
        _ => after == before,
    }
}

/// An attempt: its stage, the processor, and the hardware.
pub struct Attempt {
    pub stage: BringUp,
    pub vcpu: VcpuModel,
    pub native: Native,
}

/// An attempt that has just begun.
pub open spec fn begins(attempt: Attempt) -> bool {
    &&& attempt.stage matches BringUp::Preparing(original, _)
    &&& attempt.native.controls == original
    &&& !attempt.native.vmx_on
    &&& !attempt.vcpu.active
}

/// What begins on an idle processor, with the registers that it has, is an
/// attempt that has just begun.
pub proof fn law_begun_attempt_begins(
    vcpu: VcpuModel,
    group: u16,
    number: u8,
    xsave_area: usize,
    xsave_size: u32,
    native: Native,
)
    requires
        !vcpu.active,
        !native.vmx_on,
    ensures
        begun(vcpu, group, number, xsave_area, xsave_size, native.controls) matches Ok(stage)
            ==> begins(Attempt { stage, vcpu, native }),
{
}

/// An attempt goes on, whatever its action comes to. A guest that was entered
/// runs, and may change its processor, before the attempt goes on.
pub open spec fn moves(before: Attempt, after: Attempt, reply: BringUpReply) -> bool {
    &&& carried_out(before.native, before.stage.spec_action(), reply, after.native)
    &&& exists|vcpu: VcpuModel|
        {
            &&& before.stage !is Launching || reply is Failed ==> vcpu == before.vcpu
            &&& (after.stage, after.vcpu) == #[trigger] before.stage.after(vcpu, reply)
        }
}

/// A course of an attempt.
pub open spec fn is_course(course: Seq<Attempt>) -> bool {
    &&& course.len() > 0
    &&& begins(course[0])
    &&& forall|t: int|
        0 < t < course.len() ==> exists|reply: BringUpReply| #[trigger]
            moves(course[t - 1], #[trigger] course[t], reply)
}

/// The processor is as at first, but for what describes it.
pub open spec fn only_described(first: VcpuModel, now: VcpuModel) -> bool {
    now == (VcpuModel { regs: now.regs, guest_xcr0: now.guest_xcr0, ..first })
}

/// What holds at a stage of an attempt that began with `first`.
spec fn in_place(first: Attempt, attempt: Attempt) -> bool {
    let before = first.native.controls;
    let idle = VcpuModel { active: false, ..attempt.vcpu };
    let kept = attempt.native.mask == first.native.mask;
    match attempt.stage {
        BringUp::Preparing(original, _) => {
            &&& original == before
            &&& attempt.native == first.native
            &&& attempt.vcpu == first.vcpu
        },
        BringUp::Entering(original) => {
            &&& original == before
            &&& !attempt.native.vmx_on
            &&& kept
            &&& attempt.vcpu == first.vcpu
        },
        BringUp::Describing(original) => {
            &&& original == before
            &&& attempt.native.vmx_on
            &&& kept
            &&& attempt.vcpu == first.vcpu
        },
        BringUp::Setting(original) | BringUp::Launching(original) => {
            &&& original == before
            &&& attempt.native.vmx_on
            &&& kept
            &&& attempt.vcpu.guest_xcr0 == first.native.mask
            &&& only_described(first.vcpu, idle)
        },
        BringUp::Leaving(original, tried, _) => {
            &&& original == before
            &&& attempt.native.vmx_on
            &&& tried ==> attempt.vcpu.guest_xcr0 == first.native.mask
            &&& !tried ==> kept
            &&& only_described(first.vcpu, idle)
        },
        BringUp::Unmasking(original, mask, _) => {
            &&& original == before
            &&& !attempt.native.vmx_on
            &&& mask == first.native.mask
            &&& only_described(first.vcpu, attempt.vcpu)
        },
        BringUp::Restoring(original, _) => {
            &&& original == before
            &&& !attempt.native.vmx_on
            &&& kept
            &&& only_described(first.vcpu, attempt.vcpu)
        },
        BringUp::TakenBack(_) => {
            &&& attempt.native == first.native
            &&& only_described(first.vcpu, attempt.vcpu)
        },
        BringUp::Launched(result) => {
            &&& attempt.native.vmx_on
            &&& result == launch_report(attempt.vcpu)
        },
        BringUp::Lost => attempt.native.vmx_on,
    }
}

proof fn lemma_course(course: Seq<Attempt>, t: int)
    requires
        is_course(course),
        0 <= t < course.len(),
    ensures
        in_place(course[0], course[t]),
    decreases t,
{
    if t > 0 {
        lemma_course(course, t - 1);
        let before = course[t - 1];
        let after = course[t];
        let reply = choose|reply: BringUpReply| moves(before, after, reply);
        assert(moves(before, after, reply));
        let vcpu = choose|vcpu: VcpuModel|
            {
                &&& before.stage !is Launching || reply is Failed ==> vcpu == before.vcpu
                &&& (after.stage, after.vcpu) == #[trigger] before.stage.after(vcpu, reply)
            };
        assert((after.stage, after.vcpu) == before.stage.after(vcpu, reply));
    }
}

/// An attempt that is taken back leaves no trace on the hardware, and none on the
/// processor but what described it: VMX is off, and the control registers and
/// the selected state components are what they were. One that is not taken back
/// has VMX on, and reports success only for a processor that runs the guest.
pub proof fn law_failed_attempt_leaves_no_trace(course: Seq<Attempt>)
    requires
        is_course(course),
    ensures
        match course.last().stage {
            BringUp::TakenBack(_) => {
                &&& course.last().native == course[0].native
                &&& only_described(course[0].vcpu, course.last().vcpu)
            },
            BringUp::Launched(result) => {
                &&& course.last().native.vmx_on
                &&& result is Ok <==> course.last().vcpu.active
            },
            BringUp::Lost => course.last().native.vmx_on,
            _ => true,
        },
{
    lemma_course(course, course.len() - 1);
}

/// Every action brings an attempt closer to its end.
pub proof fn law_attempt_comes_to_an_end(stage: BringUp, vcpu: VcpuModel, reply: BringUpReply)
    ensures
        stage.remaining() > 0 ==> stage.after(vcpu, reply).0.remaining() < stage.remaining(),
        stage.remaining() == 0 ==> {
            &&& stage.after(vcpu, reply) == (stage, vcpu)
            &&& stage.spec_action() is Finish || stage.spec_action() is Halt
        },
{
}

} // verus!
