//! What to do about an access that the active view does not allow.

use vstd::prelude::*;

use super::disposition::{ExitDisposition, FatalReason};
use super::eventinjection::VmEntryEvent;
use crate::bits;
use crate::ept::view::ViewId;
use crate::topology::CpuId;

verus! {

/// How often one fault may be tried again without a change.
pub const MAX_IDENTICAL_EPT_RETRIES: u8 = 2;

/// The views that a policy may switch to: one bit for each slot.
pub const COMPILED_ALLOWED_VIEW_MASK: u64 = 0xff;

/// What the guest tried.
#[derive(Debug, Clone, Copy, PartialEq, Eq, Structural)]
pub struct EptFaultAccess(pub u8);

impl EptFaultAccess {
    pub const READ: u8 = 1;

    pub const WRITE: u8 = 2;

    pub const EXECUTE: u8 = 4;

    pub fn bits(self) -> (bits: u8)
        ensures
            bits == self.0,
    {
        self.0
    }
}

/// An access that the active view does not allow.
#[derive(Debug, Clone, Copy, PartialEq, Eq, Structural)]
pub struct EptFault {
    pub qualification: u64,
    pub guest_physical_address: u64,
    pub guest_physical_page: u64,
    pub guest_linear_address: Option<u64>,
    pub guest_rip: u64,
    pub access: EptFaultAccess,
}

/// What a policy decides.
#[derive(Debug, Clone, Copy, PartialEq, Eq, Structural)]
pub enum EptFaultDisposition {
    Fatal(FatalReason),
    Inject(VmEntryEvent),
    SwitchToPublishedView(ViewId),
    RetryCurrentView,
}

/// Decides what to do about a fault.
pub trait EptFaultPolicy {
    /// What the policy may decide.
    spec fn allows(
        &self,
        cpu: CpuId,
        active_view: ViewId,
        fault: EptFault,
        decision: EptFaultDisposition,
    ) -> bool;

    fn handle(&self, cpu: CpuId, active_view: ViewId, fault: &EptFault) -> (decision:
        EptFaultDisposition)
        ensures
            self.allows(cpu, active_view, *fault, decision),
    ;
}

/// The policy that lets no fault pass.
pub struct ResearchEptFaultPolicy;

impl EptFaultPolicy for ResearchEptFaultPolicy {
    open spec fn allows(
        &self,
        cpu: CpuId,
        active_view: ViewId,
        fault: EptFault,
        decision: EptFaultDisposition,
    ) -> bool {
        decision == EptFaultDisposition::Fatal(FatalReason::UnhandledEptViolation)
    }

    fn handle(&self, _cpu: CpuId, _active_view: ViewId, _fault: &EptFault) -> (decision:
        EptFaultDisposition) {
        EptFaultDisposition::Fatal(FatalReason::UnhandledEptViolation)
    }
}

/// The policy that is built in.
pub const COMPILED_EPT_FAULT_POLICY: ResearchEptFaultPolicy = ResearchEptFaultPolicy;

/// What makes two faults the same.
#[derive(Debug, Clone, Copy, PartialEq, Eq, Structural)]
pub struct EptFaultSignature {
    pub view: ViewId,
    pub gpa_page: u64,
    pub rip: u64,
    pub access: u8,
}

/// Counts how often one fault was tried again.
#[derive(Debug, Clone, Copy, PartialEq, Eq, Structural)]
pub struct EptFaultTracker {
    pub last: Option<EptFaultSignature>,
    pub retries: u8,
}

impl EptFaultTracker {
    pub open spec fn spec_new() -> Self {
        EptFaultTracker { last: None, retries: 0 }
    }

    #[verifier::when_used_as_spec(spec_new)]
    pub fn new() -> (tracker: Self)
        ensures
            tracker == Self::spec_new(),
    {
        EptFaultTracker { last: None, retries: 0 }
    }

    /// Whether a fault may be tried again: a new one may, an old one a few
    /// times.
    pub open spec fn permits(self, signature: EptFaultSignature) -> bool {
        self.last != Some(signature) || self.retries < MAX_IDENTICAL_EPT_RETRIES
    }

    /// The tracker after a fault that is to be tried again.
    pub open spec fn after(self, signature: EptFaultSignature) -> EptFaultTracker {
        if self.last != Some(signature) {
            EptFaultTracker { last: Some(signature), retries: 1 }
        } else if self.retries >= MAX_IDENTICAL_EPT_RETRIES {
            self
        } else {
            EptFaultTracker { retries: (self.retries + 1) as u8, ..self }
        }
    }

    pub fn permit_retry(&mut self, signature: EptFaultSignature) -> (permitted: bool)
        ensures
            permitted == old(self).permits(signature),
            *final(self) == old(self).after(signature),
    {
        let same: bool = match self.last {
            Some(last) => last == signature,
            None => false,
        };
        if !same {
            self.last = Some(signature);
            self.retries = 1;
            return true;
        }
        if self.retries >= MAX_IDENTICAL_EPT_RETRIES {
            return false;
        }
        self.retries = self.retries + 1;
        true
    }

    pub fn reset(&mut self)
        ensures
            *final(self) == Self::spec_new(),
    {
        self.last = None;
        self.retries = 0;
    }
}

impl Default for EptFaultTracker {
    fn default() -> (tracker: Self)
        ensures
            tracker == Self::spec_new(),
    {
        EptFaultTracker::new()
    }
}

/// One fault that comes again and again without a change in between is tried
/// again at most `MAX_IDENTICAL_EPT_RETRIES` times.
pub proof fn law_identical_faults_are_bounded(tracker: EptFaultTracker, signature: EptFaultSignature)
    ensures
        !tracker.after(signature).after(signature).permits(signature),
        EptFaultTracker::spec_new().permits(signature),
        EptFaultTracker::spec_new().after(signature).permits(signature),
{
}

/// A fault of another view, page, place or access is tried again.
pub proof fn law_changed_fault_is_new(
    tracker: EptFaultTracker,
    signature: EptFaultSignature,
    other: EptFaultSignature,
)
    requires
        other != signature,
    ensures
        tracker.after(signature).permits(other),
{
}

/// The fault that an exit reports, if what it reports makes sense.
pub open spec fn decoded_fault(
    qualification: u64,
    guest_physical_address: Option<u64>,
    guest_linear_address: Option<u64>,
    guest_rip: u64,
) -> Result<EptFault, FatalReason> {
    match guest_physical_address {
        None => Err(FatalReason::InvalidVmcsState),
        Some(gpa) => if qualification & !0x1fffu64 != 0 || qualification & 7 == 0 || gpa
            >= 0x1_0000_0000_0000 || (qualification & 0x80 != 0) != (guest_linear_address is Some) {
            Err(FatalReason::InvalidVmcsState)
        } else {
            Ok(
                EptFault {
                    qualification,
                    guest_physical_address: gpa,
                    guest_physical_page: (gpa - gpa % 0x1000) as u64,
                    guest_linear_address,
                    guest_rip,
                    access: EptFaultAccess((qualification & 7) as u8),
                },
            )
        },
    }
}

/// The fault that an exit reports.
pub fn decode_fault(
    qualification: u64,
    guest_physical_address: Option<u64>,
    guest_linear_address: Option<u64>,
    guest_rip: u64,
) -> (result: Result<EptFault, FatalReason>)
    ensures
        result == decoded_fault(
            qualification,
            guest_physical_address,
            guest_linear_address,
            guest_rip,
        ),
{
    if qualification & !0x1fffu64 != 0 {
        return Err(FatalReason::InvalidVmcsState);
    }
    proof {
        lemma_access(qualification);
    }
    let access: u8 = (qualification & 7) as u8;
    if access == 0 {
        return Err(FatalReason::InvalidVmcsState);
    }
    let gpa: u64 = match guest_physical_address {
        Some(gpa) => gpa,
        None => {
            return Err(FatalReason::InvalidVmcsState);
        },
    };
    if gpa >= 0x1_0000_0000_0000 {
        return Err(FatalReason::InvalidVmcsState);
    }
    let linear: bool = qualification & 0x80 != 0;
    if linear != guest_linear_address.is_some() {
        return Err(FatalReason::InvalidVmcsState);
    }
    proof {
        bits::lemma_low_masks(gpa);
    }
    Ok(
        EptFault {
            qualification,
            guest_physical_address: gpa,
            guest_physical_page: gpa & !0xfffu64,
            guest_linear_address,
            guest_rip,
            access: EptFaultAccess(access),
        },
    )
}

proof fn lemma_access(qualification: u64)
    ensures
        qualification & 7 <= 7,
{
    crate::bits::lemma_word(qualification);
}

/// The signature of a fault in a view.
pub open spec fn signature_of(active_view: ViewId, fault: EptFault) -> EptFaultSignature {
    EptFaultSignature {
        view: active_view,
        gpa_page: fault.guest_physical_page,
        rip: fault.guest_rip,
        access: fault.access.0,
    }
}

/// Whether a policy may name a view at all.
pub open spec fn nameable(view: ViewId, allowed_view_mask: u64) -> bool {
    &&& view.reserved == 0
    &&& view.generation != 0
    &&& view.slot < 64
    &&& allowed_view_mask & (1u64 << (view.slot as u64)) != 0
}

/// What a decision comes to: what is done, and the tracker after it. `known`
/// says whether the view that the decision names exists.
pub open spec fn resolution(
    decision: EptFaultDisposition,
    known: bool,
    active_view: ViewId,
    fault: EptFault,
    tracker: EptFaultTracker,
    allowed_view_mask: u64,
) -> (ExitDisposition, EptFaultTracker) {
    match decision {
        EptFaultDisposition::Fatal(reason) => (ExitDisposition::Fatal(reason), tracker),
        EptFaultDisposition::Inject(event) => (ExitDisposition::Inject(event), tracker),
        EptFaultDisposition::RetryCurrentView => {
            let signature = signature_of(active_view, fault);
            (
                if tracker.permits(signature) {
                    ExitDisposition::ResumeWithoutAdvance
                } else {
                    ExitDisposition::Fatal(FatalReason::RepeatedEptFault)
                },
                tracker.after(signature),
            )
        },
        EptFaultDisposition::SwitchToPublishedView(view) => if nameable(view, allowed_view_mask)
            && known {
            (ExitDisposition::SwitchPublishedView(view), EptFaultTracker::spec_new())
        } else {
            (ExitDisposition::Fatal(FatalReason::InvalidActiveView), tracker)
        },
    }
}

/// Carries out a decision, as far as it is sound.
pub fn resolve_decision(
    decision: EptFaultDisposition,
    known: bool,
    active_view: ViewId,
    fault: &EptFault,
    tracker: &mut EptFaultTracker,
    allowed_view_mask: u64,
) -> (disposition: ExitDisposition)
    ensures
        (disposition, *final(tracker)) == resolution(
            decision,
            known,
            active_view,
            *fault,
            *old(tracker),
            allowed_view_mask,
        ),
{
    match decision {
        EptFaultDisposition::Fatal(reason) => ExitDisposition::Fatal(reason),
        EptFaultDisposition::Inject(event) => ExitDisposition::Inject(event),
        EptFaultDisposition::RetryCurrentView => {
            let signature = EptFaultSignature {
                view: active_view,
                gpa_page: fault.guest_physical_page,
                rip: fault.guest_rip,
                access: fault.access.bits(),
            };
            if tracker.permit_retry(signature) {
                ExitDisposition::ResumeWithoutAdvance
            } else {
                ExitDisposition::Fatal(FatalReason::RepeatedEptFault)
            }
        },
        EptFaultDisposition::SwitchToPublishedView(view) => {
            let allowed: bool = view.slot < 64 && allowed_view_mask & (1u64 << (view.slot as u64))
                != 0;
            if view.reserved != 0 || view.generation == 0 || !allowed || !known {
                return ExitDisposition::Fatal(FatalReason::InvalidActiveView);
            }
            tracker.reset();
            ExitDisposition::SwitchPublishedView(view)
        },
    }
}

/// Asks a policy about a fault, and carries out what it decides as far as that
/// is sound: a retry within its bound, a switch to a view that may be named and
/// exists.
pub fn resolve_disposition<P: EptFaultPolicy, F: Fn(ViewId) -> bool>(
    policy: &P,
    cpu: CpuId,
    active_view: ViewId,
    fault: &EptFault,
    tracker: &mut EptFaultTracker,
    allowed_view_mask: u64,
    view_exists: F,
) -> (disposition: ExitDisposition)
    requires
        forall|view: ViewId| #[trigger] call_requires(view_exists, (view,)),
    ensures
        exists|decision: EptFaultDisposition, known: bool|
            {
                &&& policy.allows(cpu, active_view, *fault, decision)
                &&& decision matches EptFaultDisposition::SwitchToPublishedView(view)
                    ==> call_ensures(view_exists, (view,), known)
                &&& (disposition, *final(tracker)) == #[trigger] resolution(
                    decision,
                    known,
                    active_view,
                    *fault,
                    *old(tracker),
                    allowed_view_mask,
                )
            },
        disposition !is ResumeAndAdvance,
{
    let decision = policy.handle(cpu, active_view, fault);
    let known: bool = match decision {
        EptFaultDisposition::SwitchToPublishedView(view) => view_exists(view),
        _ => false,
    };
    let disposition = resolve_decision(
        decision,
        known,
        active_view,
        fault,
        tracker,
        allowed_view_mask,
    );
    assert((disposition, *tracker) == resolution(
        decision,
        known,
        active_view,
        *fault,
        *old(tracker),
        allowed_view_mask,
    ));
    disposition
}

} // verus!
