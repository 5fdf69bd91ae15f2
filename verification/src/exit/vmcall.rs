//! The private call of a rendezvous callback. The guest's registers carry no
//! command, pointer or data, and a call of the guest's own is an invalid
//! opcode.

use vstd::prelude::*;

use super::disposition::{ExitDisposition, FatalReason};
use super::eventinjection;
use super::eventinjection::inject_ud;
use crate::error::MonadResult;
use crate::rendezvous::mailbox;
use crate::rendezvous::mailbox::{
    MailboxModel, MailboxRequest, MailboxState, MailboxStatus, MailboxValidation,
    PublishedViewDirectory, RendezvousOperation,
};
use crate::rendezvous::transaction;
use crate::rendezvous::transaction::{switch_view, SwitchCall, SwitchFailure, ViewSwitchBackend};
use crate::topology::CpuId;
use crate::vmm::vcpu::{Vcpu, VcpuModel};

verus! {

pub open spec fn spec_switch_disposition(
    operation: RendezvousOperation,
    result: Result<(), SwitchFailure>,
) -> ExitDisposition {
    match result {
        Ok(_) => ExitDisposition::ResumeAndAdvance,
        Err(failure) => if failure.recovery is Some {
            ExitDisposition::Fatal(FatalReason::RendezvousRollbackFailure)
        } else if operation is SwitchView {
            ExitDisposition::ResumeAndAdvance
        } else {
            ExitDisposition::Fatal(FatalReason::InvalidVcpuState)
        },
    }
}

/// What a switch comes to. A switch that was taken back is resumed from, and
/// the mailbox says that it failed. One that could not be taken back is not.
#[verifier::when_used_as_spec(spec_switch_disposition)]
pub fn switch_disposition(
    operation: RendezvousOperation,
    result: Result<(), SwitchFailure>,
) -> (disposition: ExitDisposition)
    ensures
        disposition == spec_switch_disposition(operation, result),
{
    match result {
        Ok(_) => ExitDisposition::ResumeAndAdvance,
        Err(failure) => {
            if failure.recovery.is_some() {
                return ExitDisposition::Fatal(FatalReason::RendezvousRollbackFailure);
            }
            match operation {
                RendezvousOperation::SwitchView => ExitDisposition::ResumeAndAdvance,
                RendezvousOperation::RollbackView => ExitDisposition::Fatal(
                    FatalReason::InvalidVcpuState,
                ),
                RendezvousOperation::Shutdown => ExitDisposition::Fatal(
                    FatalReason::InvalidVcpuState,
                ),
            }
        },
    }
}

/// What the processor knows when it takes its request.
pub open spec fn validation_of(
    vcpu: VcpuModel,
    cs: u16,
    current_cpu: CpuId,
    directory: Option<&PublishedViewDirectory>,
) -> MailboxValidation {
    MailboxValidation {
        cs_selector: cs,
        expected_cpu: vcpu.cpu,
        current_cpu,
        active_epoch: vcpu.rendezvous_epoch,
        active_view: vcpu.active_view.id,
        active_eptp: vcpu.active_view.eptp,
        resolved_target_eptp: match directory {
            Some(views) => if vcpu.mailbox.state is Prepared {
                views.resolved(vcpu.mailbox.target_view())
            } else {
                None
            },
            None => None,
        },
    }
}

/// The request that a mailbox holds.
pub open spec fn request_of(mailbox: MailboxModel) -> MailboxRequest {
    MailboxRequest {
        epoch: mailbox.epoch,
        operation: RendezvousOperation::spec_decode(mailbox.operation).unwrap(),
        target_view: mailbox.target_view(),
        target_eptp: mailbox.target_eptp,
        expected_old_eptp: mailbox.expected_old_eptp,
    }
}

/// What a call did: a request that the mailbox does not hold for this
/// processor, now, from its view, is an invalid opcode. One that it does hold
/// is carried out.
pub open spec fn call_effect(
    before: VcpuModel,
    after: VcpuModel,
    cs: MonadResult<u64>,
    current_cpu: CpuId,
    directory: Option<&PublishedViewDirectory>,
    calls: Seq<SwitchCall>,
    calls_after: Seq<SwitchCall>,
    disposition: ExitDisposition,
) -> bool {
    match cs {
        Err(_) => {
            &&& disposition == ExitDisposition::Fatal(FatalReason::VmreadFailure)
            &&& after == before
            &&& calls_after == calls
        },
        Ok(selector) => {
            let validation = validation_of(before, selector as u16, current_cpu, directory);
            let taken = mailbox::after_consume(before.mailbox, validation);
            let request = request_of(before.mailbox);
            if mailbox::consume_fault(before.mailbox, validation) is Some {
                &&& disposition == eventinjection::spec_inject_ud()
                &&& after == (VcpuModel { mailbox: taken, ..before })
                &&& calls_after == calls
            } else if request.operation is Shutdown {
                &&& disposition == ExitDisposition::Shutdown
                &&& after == (VcpuModel {
                    mailbox: MailboxModel {
                        state: MailboxState::Completed,
                        status: MailboxStatus::Success,
                        ..taken
                    },
                    ..before
                })
                &&& calls_after == calls
            } else {
                &&& after == (VcpuModel {
                    active_view: after.active_view,
                    active_report: before.active_report.published(after.active_view),
                    mailbox: after.mailbox,
                    ..before
                })
                &&& exists|result: Result<(), SwitchFailure>|
                    {
                        &&& #[trigger] transaction::switch_effect(
                            before.cpu.dense_index,
                            before.active_view,
                            after.active_view,
                            request,
                            taken,
                            after.mailbox,
                            calls,
                            calls_after,
                            result,
                        )
                        &&& disposition == spec_switch_disposition(request.operation, result)
                    }
            }
        },
    }
}

/// Handles a call. `cs` is what the read of the guest's code selector came to.
pub fn handle<B: ViewSwitchBackend>(
    vcpu: &mut Vcpu,
    cs: MonadResult<u64>,
    current_cpu: CpuId,
    directory: Option<&PublishedViewDirectory>,
    backend: &mut B,
) -> (disposition: ExitDisposition)
    requires
        old(vcpu)@.wf(),
    ensures
        final(vcpu)@.wf(),
        call_effect(
            old(vcpu)@,
            final(vcpu)@,
            cs,
            current_cpu,
            directory,
            old(backend).calls(),
            final(backend).calls(),
            disposition,
        ),
{
    let ghost before = vcpu@;
    let selector: u64 = match cs {
        Ok(selector) => selector,
        Err(_) => {
            return ExitDisposition::Fatal(FatalReason::VmreadFailure);
        },
    };
    let resolved = match vcpu.mailbox.prepared_target() {
        Some(id) => match directory {
            Some(views) => views.resolve(id),
            None => None,
        },
        None => None,
    };
    let validation = MailboxValidation {
        cs_selector: #[verifier::truncate]
        (selector as u16),
        expected_cpu: vcpu.cpu,
        current_cpu,
        active_epoch: vcpu.rendezvous_epoch,
        active_view: vcpu.active_view.id,
        active_eptp: vcpu.active_view.eptp,
        resolved_target_eptp: resolved,
    };
    assert(validation == validation_of(before, selector as u16, current_cpu, directory));
    let request = match vcpu.mailbox.consume(validation) {
        Ok(request) => request,
        Err(_) => {
            return inject_ud();
        },
    };
    if request.operation == RendezvousOperation::Shutdown {
        if vcpu.mailbox.complete().is_err() {
            return ExitDisposition::Fatal(FatalReason::InvalidVcpuState);
        }
        return ExitDisposition::Shutdown;
    }
    let mut active = vcpu.active_view;
    let result = switch_view(
        vcpu.cpu.dense_index,
        &mut active,
        request,
        &mut vcpu.mailbox,
        backend,
    );
    vcpu.active_view = active;
    vcpu.active_report.publish(active);
    switch_disposition(request.operation, result)
}

/// A call of the guest's own, with no request prepared, is an invalid opcode
/// and changes neither view nor hardware, whatever its registers hold.
pub proof fn law_public_call_is_invalid(
    before: VcpuModel,
    after: VcpuModel,
    cs: u64,
    current_cpu: CpuId,
    directory: Option<&PublishedViewDirectory>,
    calls: Seq<SwitchCall>,
    calls_after: Seq<SwitchCall>,
    disposition: ExitDisposition,
)
    requires
        before.mailbox.state !is Prepared || cs as u16 & 3 != 0,
        call_effect(
            before,
            after,
            Ok(cs),
            current_cpu,
            directory,
            calls,
            calls_after,
            disposition,
        ),
    ensures
        disposition == eventinjection::spec_inject_ud(),
        calls_after == calls,
        after.active_view == before.active_view,
        after.regs == before.regs,
{
}

/// A switch whose recovery failed is never resumed from.
pub proof fn law_failed_recovery_is_fatal(operation: RendezvousOperation, failure: SwitchFailure)
    requires
        failure.recovery is Some,
    ensures
        spec_switch_disposition(operation, Err(failure)) is Fatal,
{
}

} // verus!
