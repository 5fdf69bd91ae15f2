//! Changing what the hypervisor does: activating views, and stopping.

use vstd::prelude::*;

use super::activation;
use super::activation::Activation;
use super::machine;
use super::machine::{Monitor, Vmm};
use super::vcpu::{Vcpu, VcpuModel};
use crate::arch::intel::vmcs::GuestRegs;
use crate::ept::page::EptPageAllocator;
use crate::ept::view::ViewId;
use crate::error::{ErrorCode, ErrorPhase, MonadError, MonadResult};
use crate::exit::disposition::FatalReason;
use crate::lifecycle;
use crate::lifecycle::{
    validate_shutdown_origin, LifecycleControl, LifecycleState, ShutdownOrigin,
};
use crate::rendezvous::mailbox::{
    MailboxModel, MailboxRequest, MailboxState, MailboxStatus, RendezvousOperation,
};
use crate::topology::CpuSetWord;

verus! {

/// What a controller holds while processors change their views.
pub struct PendingActivation {
    pub control: LifecycleControl,
    pub activation: Activation,
}

/// What preparing a change came to, without the right to change.
pub open spec fn change_of(result: MonadResult<PendingActivation>) -> MonadResult<Activation> {
    match result {
        Ok(pending) => Ok(pending.activation),
        Err(error) => Err(error),
    }
}

/// What beginning to activate a publication comes to: one controller at a
/// time, and only views that were published.
pub open spec fn activation_begun<A: EptPageAllocator + Clone>(
    before: Monitor<A>,
    after: Monitor<A>,
    id: ViewId,
    words: Seq<CpuSetWord>,
    now: u64,
    result: MonadResult<PendingActivation>,
) -> bool {
    let vmm = before.vmm.unwrap();
    let fault = if before.refusal() is Some {
        before.refusal()
    } else if vmm.manager.model().find_published(id) is Err {
        Some(vmm.manager.model().find_published(id)->Err_0)
    } else if before.lifecycle.spec_controlled() {
        Some(MonadError::new(ErrorPhase::Activation, ErrorCode::RendezvousBusy, 0))
    } else {
        None
    };
    match fault {
        Some(error) => {
            &&& result == Err::<PendingActivation, MonadError>(error)
            &&& after.vmm == before.vmm
            &&& before.same_life(&after)
        },
        None => {
            &&& after.lifecycle.spec_state() == before.lifecycle.spec_state()
            &&& after.lifecycle.spec_controlled() == (result is Ok)
            &&& after.vmm is Some
            &&& activation::activation_prepared(
                vmm,
                after.vmm.unwrap(),
                id,
                words,
                now,
                change_of(result),
            )
        },
    }
}

impl<A: EptPageAllocator + Clone> Monitor<A> {
    /// Where the hypervisor is in its life is as before.
    pub open spec fn same_life(&self, after: &Self) -> bool {
        &&& after.lifecycle.spec_state() == self.lifecycle.spec_state()
        &&& after.lifecycle.spec_controlled() == self.lifecycle.spec_controlled()
    }

    /// Arms a set of processors for a publication, in the name of one
    /// controller.
    pub fn activate_view(&mut self, id: ViewId, cpu_set: &[CpuSetWord], now: u64) -> (result:
        MonadResult<PendingActivation>)
        requires
            old(self).wf(),
        ensures
            final(self).wf(),
            activation_begun(*old(self), *final(self), id, cpu_set@, now, result),
    {
        let _ = self.running()?.manager.published_eptp(id)?;
        let control = match self.lifecycle.try_control() {
            Ok(control) => control,
            Err(_) => {
                return Err(MonadError::new(ErrorPhase::Activation, ErrorCode::RendezvousBusy, 0));
            },
        };
        let prepared = match &mut self.vmm {
            Some(vmm) => vmm.activate_published_view(id, cpu_set, now),
            None => Err(
                MonadError::new(ErrorPhase::Activation, ErrorCode::InvalidLifecycleState, 0),
            ),
        };
        match prepared {
            Ok(change) => Ok(PendingActivation { control, activation: change }),
            Err(error) => {
                control.release(&mut self.lifecycle);
                Err(error)
            },
        }
    }

    /// Ends a change that all processors have left.
    pub fn end_activation(&mut self, pending: PendingActivation) -> (result: MonadResult<()>)
        ensures
            final(self).vmm == old(self).vmm,
            final(self).lifecycle.spec_state() == old(self).lifecycle.spec_state(),
            !final(self).lifecycle.spec_controlled(),
            result == pending.activation@.outcome(),
    {
        let result = pending.activation.outcome();
        pending.control.release(&mut self.lifecycle);
        result
    }
}

/// A processor that is asked to stop: its mailbox is cleared if it can be, and
/// holds the request. One that runs no guest is left alone.
pub open spec fn halting(vcpu: VcpuModel, epoch: u64) -> (VcpuModel, bool) {
    if !vcpu.active {
        (vcpu, true)
    } else {
        let cleared = if vcpu.mailbox.state is Completed || vcpu.mailbox.state is Failed {
            MailboxModel {
                state: MailboxState::Idle,
                status: MailboxStatus::Pending,
                ..vcpu.mailbox
            }
        } else {
            vcpu.mailbox
        };
        let joined = VcpuModel { rendezvous_epoch: epoch, mailbox: cleared, ..vcpu };
        match vcpu.active_report.snapped() {
            Err(_) => (joined, false),
            Ok(active) => if cleared.state is Idle {
                (
                    VcpuModel {
                        mailbox: activation::holding(
                            cleared,
                            activation::request_for(
                                epoch,
                                RendezvousOperation::Shutdown,
                                active,
                                active.eptp,
                            ),
                        ),
                        ..joined
                    },
                    true,
                )
            } else {
                (joined, false)
            },
        }
    }
}

/// Asks one processor to stop.
fn halt_vcpu(vcpu: &mut Vcpu, epoch: u64) -> (asked: bool)
    ensures
        (final(vcpu)@, asked) == halting(old(vcpu)@, epoch),
{
    if !vcpu.active {
        return true;
    }
    let idle: bool = match vcpu.mailbox.state() {
        Some(state) => state == MailboxState::Idle,
        None => true,
    };
    if !idle {
        let _ = vcpu.mailbox.reset();
    }
    vcpu.rendezvous_epoch = epoch;
    let active = match vcpu.active_report.snapshot() {
        Ok(active) => active,
        Err(_) => {
            return false;
        },
    };
    let request = MailboxRequest {
        epoch,
        operation: RendezvousOperation::Shutdown,
        target_view: active.id,
        target_eptp: active.eptp,
        expected_old_eptp: active.eptp,
    };
    vcpu.mailbox.prepare(request).is_ok()
}

/// What asking processors to stop comes to: all are asked, or those before the
/// first that cannot be.
pub open spec fn halted(
    before: Seq<VcpuModel>,
    after: Seq<VcpuModel>,
    epoch: u64,
    asked: bool,
) -> bool {
    &&& after.len() == before.len()
    &&& if asked {
        forall|k: int|
            0 <= k < before.len() ==> (#[trigger] after[k], true) == halting(before[k], epoch)
    } else {
        exists|stop: int|
            {
                &&& 0 <= stop < before.len()
                &&& !(#[trigger] halting(before[stop], epoch)).1
                &&& forall|k: int|
                    0 <= k < before.len() ==> #[trigger] after[k] == if k <= stop {
                        halting(before[k], epoch).0
                    } else {
                        before[k]
                    }
                &&& forall|k: int| 0 <= k < stop ==> (#[trigger] halting(before[k], epoch)).1
            }
    }
}

/// Asks processors to stop, up to the first that cannot be asked.
fn halt_vcpus(vcpus: &mut Vec<Vcpu>, epoch: u64) -> (asked: bool)
    requires
        forall|k: int|
            0 <= k < old(vcpus)@.len() ==> (#[trigger] machine::models(old(vcpus)@)[k]).wf(),
    ensures
        final(vcpus)@.len() == old(vcpus)@.len(),
        forall|k: int|
            0 <= k < old(vcpus)@.len() ==> (#[trigger] machine::models(final(vcpus)@)[k]).wf(),
        halted(machine::models(old(vcpus)@), machine::models(final(vcpus)@), epoch, asked),
{
    let ghost before = machine::models(vcpus@);
    let mut index: usize = 0;
    while index < vcpus.len()
        invariant
            index <= vcpus@.len(),
            before == machine::models(old(vcpus)@),
            before.len() == vcpus@.len(),
            forall|k: int| 0 <= k < before.len() ==> (#[trigger] before[k]).wf(),
            forall|k: int|
                0 <= k < before.len() ==> #[trigger] machine::models(vcpus@)[k] == if k < index {
                    halting(before[k], epoch).0
                } else {
                    before[k]
                },
            forall|k: int| 0 <= k < index ==> (#[trigger] halting(before[k], epoch)).1,
        decreases vcpus@.len() - index,
    {
        let ghost now = machine::models(vcpus@);
        assert(now[index as int] == before[index as int]);
        let asked: bool = halt_vcpu(&mut vcpus[index], epoch);
        proof {
            assert(machine::models(vcpus@) =~= now.update(index as int, vcpus@[index as int]@));
            assert forall|k: int| 0 <= k < before.len() implies #[trigger] machine::models(vcpus@)[k]
                == if k <= index {
                halting(before[k], epoch).0
            } else {
                before[k]
            } by {
                assert(now[k] == if k < index {
                    halting(before[k], epoch).0
                } else {
                    before[k]
                });
            }
        }
        if !asked {
            assert(!halting(before[index as int], epoch).1);
            return false;
        }
        index = index + 1;
    }
    true
}

/// What asking all processors to stop, in a new epoch, comes to.
pub open spec fn shutdown_prepared<A: EptPageAllocator + Clone>(
    before: Vmm<A>,
    after: Vmm<A>,
    asked: bool,
) -> bool {
    let epoch = activation::epoch_after(before.epoch);
    let models = machine::models(before.vcpus@);
    let models_after = machine::models(after.vcpus@);
    &&& activation::same_but_vcpus(before, after)
    &&& after.epoch == epoch
    &&& if epoch == 0 {
        !asked && models_after == models
    } else {
        halted(models, models_after, epoch, asked)
    }
}

impl<A: EptPageAllocator + Clone> Vmm<A> {
    /// Asks all processors that run the guest to stop.
    pub fn shutdown_all(&mut self) -> (asked: bool)
        requires
            old(self).wf(),
        ensures
            final(self).wf(),
            shutdown_prepared(*old(self), *final(self), asked),
    {
        let epoch: u64 = match self.next_epoch() {
            Some(epoch) => epoch,
            None => {
                return false;
            },
        };
        halt_vcpus(&mut self.vcpus, epoch)
    }
}

/// What a controller does next to stop the hypervisor.
pub enum ShutdownStep {
    /// There is nothing to stop.
    Nothing,
    /// All processors are to go back to the base view.
    ReturnToBase(PendingActivation),
}

/// The error of a stop that cannot be finished.
pub open spec fn spec_shutdown_failure() -> MonadError {
    MonadError::new(ErrorPhase::Shutdown, ErrorCode::ShutdownFailure, 0)
}

/// What beginning to stop comes to.
pub open spec fn shutdown_begun<A: EptPageAllocator + Clone>(
    before: Monitor<A>,
    after: Monitor<A>,
    now: u64,
    result: MonadResult<ShutdownStep>,
) -> bool {
    let state = before.lifecycle.spec_state();
    if before.lifecycle.spec_controlled() {
        &&& result == Err::<ShutdownStep, MonadError>(
            MonadError::new(ErrorPhase::Session, ErrorCode::ControllerBusy, 0),
        )
        &&& before.same_life(&after)
        &&& after.vmm == before.vmm
    } else if before.vmm is None {
        &&& result == if state is Absent {
            Ok::<ShutdownStep, MonadError>(ShutdownStep::Nothing)
        } else {
            Err(
                MonadError::new(
                    ErrorPhase::Shutdown,
                    ErrorCode::InvalidLifecycleState,
                    state.spec_code() as u64,
                ),
            )
        }
        &&& before.same_life(&after)
        &&& after.vmm is None
    } else if lifecycle::transition_fault(
        state,
        LifecycleState::Running,
        LifecycleState::Quiescing,
    ) is Some {
        &&& result == Err::<ShutdownStep, MonadError>(
            lifecycle::transition_fault(
                state,
                LifecycleState::Running,
                LifecycleState::Quiescing,
            ).unwrap(),
        )
        &&& before.same_life(&after)
        &&& after.vmm == before.vmm
    } else {
        &&& after.vmm is Some
        &&& match result {
            Ok(ShutdownStep::Nothing) => false,
            Ok(ShutdownStep::ReturnToBase(pending)) => {
                &&& after.lifecycle.spec_state() == LifecycleState::Quiescing
                &&& after.lifecycle.spec_controlled()
                &&& activation::base_prepared(
                    before.vmm.unwrap(),
                    after.vmm.unwrap(),
                    now,
                    Ok(pending.activation),
                )
            },
            Err(error) => {
                &&& after.lifecycle.spec_state() == LifecycleState::Running
                &&& !after.lifecycle.spec_controlled()
                &&& activation::base_prepared(
                    before.vmm.unwrap(),
                    after.vmm.unwrap(),
                    now,
                    Err(error),
                )
            },
        }
    }
}

/// What follows the return to the base view: where it failed the hypervisor
/// goes on running, and otherwise all processors are asked to stop. Where they
/// cannot be asked, the machine cannot go on.
pub open spec fn shutdown_continued<A: EptPageAllocator + Clone>(
    before: Monitor<A>,
    after: Monitor<A>,
    pending: PendingActivation,
    result: MonadResult<LifecycleControl>,
) -> bool {
    let state = before.lifecycle.spec_state();
    match pending.activation@.base_outcome() {
        Err(error) => {
            let fault = lifecycle::transition_fault(
                state,
                LifecycleState::Quiescing,
                LifecycleState::Running,
            );
            &&& after.vmm == before.vmm
            &&& !after.lifecycle.spec_controlled()
            &&& after.lifecycle.spec_state() == if fault is None {
                LifecycleState::Running
            } else {
                state
            }
            &&& result == Err::<LifecycleControl, MonadError>(
                if fault is None {
                    error
                } else {
                    fault.unwrap()
                },
            )
        },
        Ok(_) => match lifecycle::transition_fault(
            state,
            LifecycleState::Quiescing,
            LifecycleState::Stopping,
        ) {
            Some(fault) => {
                &&& result == Err::<LifecycleControl, MonadError>(fault)
                &&& after.vmm == before.vmm
                &&& !after.lifecycle.spec_controlled()
                &&& after.lifecycle.spec_state() == state
            },
            None => {
                &&& after.vmm is Some
                &&& shutdown_prepared(before.vmm.unwrap(), after.vmm.unwrap(), result is Ok)
                &&& after.lifecycle.spec_controlled() == (before.lifecycle.spec_controlled()
                    && result is Ok)
                &&& after.lifecycle.spec_state() == if result is Ok {
                    LifecycleState::Stopping
                } else {
                    LifecycleState::Fatal
                }
                &&& result is Err ==> result->Err_0 == spec_shutdown_failure()
            },
        },
    }
}

/// What finishing a stop comes to: nothing is left, unless a processor still
/// runs the guest.
pub open spec fn shutdown_finished<A: EptPageAllocator + Clone>(
    before: Monitor<A>,
    after: Monitor<A>,
    result: MonadResult<()>,
) -> bool {
    let state = before.lifecycle.spec_state();
    if before.vmm matches Some(vmm) && vmm.some_active() {
        &&& result == Err::<(), MonadError>(spec_shutdown_failure())
        &&& after.lifecycle.spec_state() == LifecycleState::Fatal
        &&& !after.lifecycle.spec_controlled()
        &&& after.vmm == before.vmm
    } else {
        &&& after.vmm is None
        &&& !after.lifecycle.spec_controlled()
        &&& match lifecycle::transition_fault(
            state,
            LifecycleState::Stopping,
            LifecycleState::Absent,
        ) {
            Some(fault) => {
                &&& result == Err::<(), MonadError>(fault)
                &&& after.lifecycle.spec_state() == state
            },
            None => {
                &&& result == Ok::<(), MonadError>(())
                &&& after.lifecycle.spec_state() == LifecycleState::Absent
            },
        }
    }
}

impl<A: EptPageAllocator + Clone> Monitor<A> {
    /// Begins to stop the hypervisor.
    pub fn vmm_shutdown(&mut self, now: u64) -> (result: MonadResult<ShutdownStep>)
        requires
            old(self).wf(),
        ensures
            final(self).wf(),
            shutdown_begun(*old(self), *final(self), now, result),
    {
        let control = self.lifecycle.try_control()?;
        if self.vmm.is_none() {
            let state = self.lifecycle.state();
            control.release(&mut self.lifecycle);
            if state == LifecycleState::Absent {
                return Ok(ShutdownStep::Nothing);
            }
            return Err(
                MonadError::new(
                    ErrorPhase::Shutdown,
                    ErrorCode::InvalidLifecycleState,
                    state.code() as u64,
                ),
            );
        }
        if let Err(error) = control.transition(
            &mut self.lifecycle,
            LifecycleState::Running,
            LifecycleState::Quiescing,
        ) {
            control.release(&mut self.lifecycle);
            return Err(error);
        }
        let prepared = match &mut self.vmm {
            Some(vmm) => vmm.activate_base(now),
            None => Err(MonadError::new(ErrorPhase::Shutdown, ErrorCode::InvalidLifecycleState, 0)),
        };
        match prepared {
            Ok(change) => Ok(
                ShutdownStep::ReturnToBase(PendingActivation { control, activation: change }),
            ),
            Err(error) => {
                let returned = control.transition(
                    &mut self.lifecycle,
                    LifecycleState::Quiescing,
                    LifecycleState::Running,
                );
                control.release(&mut self.lifecycle);
                returned?;
                Err(error)
            },
        }
    }

    /// Goes on to stop the hypervisor, once all processors have left the
    /// change to the base view.
    pub fn continue_shutdown(&mut self, pending: PendingActivation) -> (result: MonadResult<
        LifecycleControl,
    >)
        requires
            old(self).wf(),
            old(self).vmm is Some,
        ensures
            final(self).wf(),
            shutdown_continued(*old(self), *final(self), pending, result),
    {
        let control = pending.control;
        if let Err(error) = pending.activation.base_outcome() {
            let returned = control.transition(
                &mut self.lifecycle,
                LifecycleState::Quiescing,
                LifecycleState::Running,
            );
            control.release(&mut self.lifecycle);
            returned?;
            return Err(error);
        }
        if let Err(error) = control.transition(
            &mut self.lifecycle,
            LifecycleState::Quiescing,
            LifecycleState::Stopping,
        ) {
            control.release(&mut self.lifecycle);
            return Err(error);
        }
        let asked: bool = match &mut self.vmm {
            Some(vmm) => vmm.shutdown_all(),
            None => false,
        };
        if !asked {
            self.lifecycle.enter_fatal();
            control.release(&mut self.lifecycle);
            return Err(MonadError::new(ErrorPhase::Shutdown, ErrorCode::ShutdownFailure, 0));
        }
        Ok(control)
    }

    /// Finishes to stop the hypervisor, once all processors were called.
    pub fn finish_shutdown(&mut self, control: LifecycleControl) -> (result: MonadResult<()>)
        ensures
            old(self).wf() ==> final(self).wf(),
            shutdown_finished(*old(self), *final(self), result),
    {
        let active: bool = match &self.vmm {
            Some(vmm) => vmm.any_active(),
            None => false,
        };
        if active {
            self.lifecycle.enter_fatal();
            control.release(&mut self.lifecycle);
            return Err(MonadError::new(ErrorPhase::Shutdown, ErrorCode::ShutdownFailure, 0));
        }
        if let Some(vmm) = self.vmm.take() {
            let _ = vmm.release();
        }
        let result = control.transition(
            &mut self.lifecycle,
            LifecycleState::Stopping,
            LifecycleState::Absent,
        );
        control.release(&mut self.lifecycle);
        result
    }
}

/// What a processor that was asked to stop reads before it stops.
#[derive(Debug, Clone, Copy, PartialEq, Eq, Structural)]
pub struct StopReads {
    pub rip: u64,
    pub rsp: u64,
    pub rflags: u64,
    pub instruction_length: u64,
    pub guest_cs: u64,
    pub trampoline_start: u64,
    pub trampoline_end: u64,
}

/// Where a request to stop came from, as a processor sees it.
pub open spec fn stop_origin(vcpu: VcpuModel, reads: StopReads) -> ShutdownOrigin {
    ShutdownOrigin {
        cpl: (reads.guest_cs & 3) as u8,
        rip: reads.rip,
        trampoline_start: reads.trampoline_start,
        trampoline_end: reads.trampoline_end,
        expected_epoch: vcpu.rendezvous_epoch,
        mailbox_epoch: vcpu.mailbox.epoch,
        expected_cpu: vcpu.cpu.dense_index,
        current_cpu: vcpu.cpu.dense_index,
    }
}

/// Whether a processor may stop: the request came from the registered code,
/// and so does what follows it.
pub open spec fn may_stop(vcpu: VcpuModel, reads: StopReads) -> bool {
    &&& lifecycle::origin_valid(stop_origin(vcpu, reads))
    &&& reads.rip + reads.instruction_length <= reads.trampoline_end
}

/// A processor that goes on without the monitor, behind the request to stop.
pub open spec fn stopped(vcpu: VcpuModel, reads: StopReads) -> VcpuModel {
    VcpuModel {
        regs: GuestRegs {
            rip: (reads.rip + reads.instruction_length) as u64,
            rsp: reads.rsp,
            rflags: reads.rflags,
            ..vcpu.regs
        },
        ..vcpu
    }
}

impl Vcpu {
    /// Sets the registers with which a processor goes on without the monitor.
    pub fn stop_cpu(&mut self, reads: StopReads) -> (result: Result<(), FatalReason>)
        ensures
            if may_stop(old(self)@, reads) {
                &&& result == Ok::<(), FatalReason>(())
                &&& final(self)@ == stopped(old(self)@, reads)
            } else {
                &&& result == Err::<(), FatalReason>(FatalReason::InvalidInternalMailbox)
                &&& final(self)@ == old(self)@
            },
    {
        let cpl: u64 = reads.guest_cs & 3;
        let origin = ShutdownOrigin {
            cpl: #[verifier::truncate] (cpl as u8),
            rip: reads.rip,
            trampoline_start: reads.trampoline_start,
            trampoline_end: reads.trampoline_end,
            expected_epoch: self.rendezvous_epoch,
            mailbox_epoch: self.mailbox.epoch(),
            expected_cpu: self.cpu.dense_index,
            current_cpu: self.cpu.dense_index,
        };
        if validate_shutdown_origin(origin).is_err() {
            return Err(FatalReason::InvalidInternalMailbox);
        }
        match reads.rip.checked_add(reads.instruction_length) {
            Some(next_rip) => {
                if next_rip > reads.trampoline_end {
                    return Err(FatalReason::InvalidInternalMailbox);
                }
                self.regs.rip = next_rip;
                self.regs.rsp = reads.rsp;
                self.regs.rflags = reads.rflags;
                Ok(())
            },
            None => Err(FatalReason::InvalidInternalMailbox),
        }
    }
}

/// The control register with which a processor goes on: the guest's, with
/// virtual machine extensions as they were before.
pub fn restored_cr4(guest: u64, original: u64) -> (restored: u64)
    ensures
        restored == (guest & !0x2000u64) | (original & 0x2000),
{
    (guest & !0x2000u64) | (original & 0x2000)
}

/// A hypervisor that has stopped leaves no monitor and can be started again;
/// one that could not stop stays fatal.
pub proof fn law_stop_is_complete<A: EptPageAllocator + Clone>(
    before: Monitor<A>,
    after: Monitor<A>,
    result: MonadResult<()>,
)
    requires
        shutdown_finished(before, after, result),
        before.lifecycle.spec_state() is Stopping,
    ensures
        result is Ok <==> !(before.vmm matches Some(vmm) && vmm.some_active()),
        result is Ok ==> {
            &&& after.vmm is None
            &&& lifecycle::transition_fault(
                after.lifecycle.spec_state(),
                LifecycleState::Absent,
                LifecycleState::Preparing,
            ) is None
        },
        result is Err ==> after.lifecycle.spec_state() is Fatal,
{
}

/// A stop that cannot bring all processors back to the base view leaves the
/// hypervisor running.
pub proof fn law_failed_return_keeps_running<A: EptPageAllocator + Clone>(
    before: Monitor<A>,
    after: Monitor<A>,
    pending: PendingActivation,
    result: MonadResult<LifecycleControl>,
)
    requires
        shutdown_continued(before, after, pending, result),
        before.lifecycle.spec_state() is Quiescing,
        pending.activation@.failed || pending.activation@.fatal,
    ensures
        result is Err,
        after.lifecycle.spec_state() is Running,
        after.vmm == before.vmm,
{
}

} // verus!
