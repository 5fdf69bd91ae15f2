//! Exits that the page tables of a view cause.

use vstd::prelude::*;

use super::context::ExitContext;
use super::disposition::{ExitDisposition, FatalReason};
use super::ept_fault;
use super::ept_fault::{decode_fault, resolve_disposition, ResearchEptFaultPolicy};
use crate::ept::view::ViewId;
use crate::rendezvous::mailbox::PublishedViewDirectory;
use crate::telemetry::record::{EventKind, EventRecord};
use crate::vmm::vcpu::{Vcpu, VcpuModel};

verus! {

/// What an access that the view does not allow comes to, under the policy that
/// lets none pass.
pub open spec fn violation_disposition(context: ExitContext) -> ExitDisposition {
    match context.qualification {
        None => ExitDisposition::Fatal(FatalReason::InvalidVmcsState),
        Some(qualification) => match ept_fault::decoded_fault(
            qualification,
            context.guest_physical_address,
            context.guest_linear_address,
            context.guest_rip,
        ) {
            Err(reason) => ExitDisposition::Fatal(reason),
            Ok(_) => ExitDisposition::Fatal(FatalReason::UnhandledEptViolation),
        },
    }
}

/// The processor after such an access. A fault that makes sense is recorded.
pub open spec fn after_violation(vcpu: VcpuModel, context: ExitContext) -> VcpuModel {
    match context.qualification {
        None => vcpu,
        Some(qualification) => match ept_fault::decoded_fault(
            qualification,
            context.guest_physical_address,
            context.guest_linear_address,
            context.guest_rip,
        ) {
            Err(_) => vcpu,
            Ok(fault) => vcpu.recorded(
                vcpu.stamped(
                    EventRecord::spec_from_exit(
                        &context,
                        EventKind::EptViolation,
                        fault.access.0,
                        0,
                        0,
                    ),
                ),
            ),
        },
    }
}

/// Handles an access that the view does not allow. The guest never goes on
/// behind it.
pub fn handle_violation(
    vcpu: &mut Vcpu,
    context: &ExitContext,
    directory: Option<&PublishedViewDirectory>,
) -> (disposition: ExitDisposition)
    requires
        old(vcpu)@.wf(),
    ensures
        final(vcpu)@.wf(),
        disposition == violation_disposition(*context),
        final(vcpu)@ == after_violation(old(vcpu)@, *context),
        disposition !is ResumeAndAdvance,
{
    let qualification: u64 = match context.qualification {
        Some(value) => value,
        None => {
            return ExitDisposition::Fatal(FatalReason::InvalidVmcsState);
        },
    };
    let fault = match decode_fault(
        qualification,
        context.guest_physical_address,
        context.guest_linear_address,
        context.guest_rip,
    ) {
        Ok(value) => value,
        Err(reason) => {
            return ExitDisposition::Fatal(reason);
        },
    };
    let event = vcpu.stamp_event(
        EventRecord::from_exit(context, EventKind::EptViolation, fault.access.bits(), 0, 0),
    );
    vcpu.record(event);
    let exists = |view: ViewId| -> (known: bool)
        ensures
            known == (directory matches Some(views) && views.resolved(view) is Some),
        {
            match directory {
                Some(views) => views.resolve(view).is_some(),
                None => false,
            }
        };
    let mut tracker = vcpu.fault_tracker;
    let disposition = resolve_disposition(
        &ResearchEptFaultPolicy,
        vcpu.cpu,
        vcpu.active_view.id,
        &fault,
        &mut tracker,
        vcpu.allowed_fault_views,
        exists,
    );
    vcpu.fault_tracker = tracker;
    disposition
}

/// A table that the processor cannot read is beyond repair.
pub fn handle_misconfig(_guest_physical_address: u64) -> (disposition: ExitDisposition)
    ensures
        disposition == ExitDisposition::Fatal(FatalReason::CorruptEptHierarchy),
{
    ExitDisposition::Fatal(FatalReason::CorruptEptHierarchy)
}

} // verus!
