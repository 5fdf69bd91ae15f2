//! What an exit comes to. A dispatch returns one disposition, and only the
//! outer loop acts on it.

use vstd::prelude::*;

use super::eventinjection::VmEntryEvent;
use crate::ept::view::ViewId;

verus! {

/// What is to be done with a guest that has left.
#[derive(Debug, Clone, Copy, PartialEq, Eq, Structural)]
pub enum ExitDisposition {
    ResumeAndAdvance,
    ResumeWithoutAdvance,
    Inject(VmEntryEvent),
    SwitchPublishedView(ViewId),
    /// A private step of the lifecycle. A guest's own call never comes to it.
    Shutdown,
    Fatal(FatalReason),
}

impl ExitDisposition {
    /// Whether the guest goes on behind the instruction it left at.
    pub fn advances_rip(self) -> (advances: bool)
        ensures
            advances == (self is ResumeAndAdvance),
    {
        matches!(self, ExitDisposition::ResumeAndAdvance)
    }
}

/// Why the hypervisor cannot go on.
#[derive(Debug, Clone, Copy, PartialEq, Eq, Structural)]
pub enum FatalReason {
    UnexpectedVmExit,
    InvalidVmcsState,
    VmreadFailure,
    VmwriteFailure,
    InveptFailure,
    RendezvousTimeout,
    RendezvousRollbackFailure,
    MtrrChangedWhileRunning,
    RepeatedEptFault,
    InvalidActiveView,
    InvalidInternalMailbox,
    PartialShutdown,
    CorruptEptHierarchy,
    TripleFault,
    VmEntryFailure,
    UnhandledEptViolation,
    InvalidVcpuState,
}

impl FatalReason {
    pub open spec fn spec_code(self) -> u32 {
        match self {
            FatalReason::UnexpectedVmExit => 1,
            FatalReason::InvalidVmcsState => 2,
            FatalReason::VmreadFailure => 3,
            FatalReason::VmwriteFailure => 4,
            FatalReason::InveptFailure => 5,
            FatalReason::RendezvousTimeout => 6,
            FatalReason::RendezvousRollbackFailure => 7,
            FatalReason::MtrrChangedWhileRunning => 8,
            FatalReason::RepeatedEptFault => 9,
            FatalReason::InvalidActiveView => 10,
            FatalReason::InvalidInternalMailbox => 11,
            FatalReason::PartialShutdown => 12,
            FatalReason::CorruptEptHierarchy => 13,
            FatalReason::TripleFault => 14,
            FatalReason::VmEntryFailure => 15,
            FatalReason::UnhandledEptViolation => 16,
            FatalReason::InvalidVcpuState => 17,
        }
    }

    /// The number that stands for the reason in records.
    #[verifier::when_used_as_spec(spec_code)]
    pub fn code(self) -> (code: u32)
        ensures
            code == self.spec_code(),
    {
        match self {
            FatalReason::UnexpectedVmExit => 1,
            FatalReason::InvalidVmcsState => 2,
            FatalReason::VmreadFailure => 3,
            FatalReason::VmwriteFailure => 4,
            FatalReason::InveptFailure => 5,
            FatalReason::RendezvousTimeout => 6,
            FatalReason::RendezvousRollbackFailure => 7,
            FatalReason::MtrrChangedWhileRunning => 8,
            FatalReason::RepeatedEptFault => 9,
            FatalReason::InvalidActiveView => 10,
            FatalReason::InvalidInternalMailbox => 11,
            FatalReason::PartialShutdown => 12,
            FatalReason::CorruptEptHierarchy => 13,
            FatalReason::TripleFault => 14,
            FatalReason::VmEntryFailure => 15,
            FatalReason::UnhandledEptViolation => 16,
            FatalReason::InvalidVcpuState => 17,
        }
    }
}

} // verus!
