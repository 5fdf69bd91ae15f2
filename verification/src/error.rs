//! The error value that every operation reports.

use vstd::prelude::*;

verus! {

/// No CPU is named by the error.
pub const NO_CPU: u16 = 0xffff;

/// No batch operation is named by the error.
pub const NO_OPERATION: u32 = 0xffff_ffff;

/// The step of the hypervisor's life in which an error arose.
#[derive(Debug, Clone, Copy, PartialEq, Eq, Structural)]
pub enum ErrorPhase {
    Capability,
    Device,
    Session,
    Topology,
    Mtrr,
    EptBuild,
    DraftEdit,
    Publish,
    Launch,
    Rendezvous,
    Activation,
    ExitHandling,
    Shutdown,
    Telemetry,
}

impl ErrorPhase {
    /// The number that stands for the phase on the wire.
    pub open spec fn spec_code(self) -> u32 {
        match self {
            ErrorPhase::Capability => 1,
            ErrorPhase::Device => 2,
            ErrorPhase::Session => 3,
            ErrorPhase::Topology => 4,
            ErrorPhase::Mtrr => 5,
            ErrorPhase::EptBuild => 6,
            ErrorPhase::DraftEdit => 7,
            ErrorPhase::Publish => 8,
            ErrorPhase::Launch => 9,
            ErrorPhase::Rendezvous => 10,
            ErrorPhase::Activation => 11,
            ErrorPhase::ExitHandling => 12,
            ErrorPhase::Shutdown => 13,
            ErrorPhase::Telemetry => 14,
        }
    }

    /// The number that stands for the phase on the wire.
    #[verifier::when_used_as_spec(spec_code)]
    pub fn code(self) -> (code: u32)
        ensures
            code == self.spec_code(),
    {
        match self {
            ErrorPhase::Capability => 1,
            ErrorPhase::Device => 2,
            ErrorPhase::Session => 3,
            ErrorPhase::Topology => 4,
            ErrorPhase::Mtrr => 5,
            ErrorPhase::EptBuild => 6,
            ErrorPhase::DraftEdit => 7,
            ErrorPhase::Publish => 8,
            ErrorPhase::Launch => 9,
            ErrorPhase::Rendezvous => 10,
            ErrorPhase::Activation => 11,
            ErrorPhase::ExitHandling => 12,
            ErrorPhase::Shutdown => 13,
            ErrorPhase::Telemetry => 14,
        }
    }
}

/// What went wrong.
#[derive(Debug, Clone, Copy, PartialEq, Eq, Structural)]
pub enum ErrorCode {
    InvalidAbiVersion,
    InvalidStructureSize,
    UnsupportedFlags,
    AccessDenied,
    ControllerBusy,
    WrongSession,
    InvalidLifecycleState,
    UnsupportedCapability,
    CompetingHypervisor,
    TooManyProcessors,
    TopologyChanged,
    InvalidRange,
    AddressOverflow,
    MisalignedAddress,
    PhysicalAddressTooWide,
    UnsupportedPermissionCombination,
    UnsupportedMtrrCombination,
    EptAllocationFailure,
    EptVerificationFailure,
    StaleHandle,
    WrongObjectState,
    DraftCapacity,
    PublishedViewCapacity,
    BackingCapacity,
    BackingStillReferenced,
    InvalidCpuSet,
    RendezvousBusy,
    RendezvousTimeout,
    VmreadFailure,
    VmwriteFailure,
    InveptFailure,
    LaunchRollbackFailure,
    ActivationRolledBack,
    ShutdownFailure,
    VmxInstructionFailure,
    InvalidDescriptor,
    InvalidGuestState,
    GenerationOverflow,
    AllocationFailure,
}

impl ErrorCode {
    /// The number that stands for the code on the wire.
    #[verifier::when_used_as_spec(spec_code)]
    pub fn code(self) -> (code: u32)
        ensures
            code == self.spec_code(),
    {
        match self {
            ErrorCode::InvalidAbiVersion => 1,
            ErrorCode::InvalidStructureSize => 2,
            ErrorCode::UnsupportedFlags => 3,
            ErrorCode::AccessDenied => 4,
            ErrorCode::ControllerBusy => 5,
            ErrorCode::WrongSession => 6,
            ErrorCode::InvalidLifecycleState => 7,
            ErrorCode::UnsupportedCapability => 8,
            ErrorCode::CompetingHypervisor => 9,
            ErrorCode::TooManyProcessors => 10,
            ErrorCode::TopologyChanged => 11,
            ErrorCode::InvalidRange => 12,
            ErrorCode::AddressOverflow => 13,
            ErrorCode::MisalignedAddress => 14,
            ErrorCode::PhysicalAddressTooWide => 15,
            ErrorCode::UnsupportedPermissionCombination => 16,
            ErrorCode::UnsupportedMtrrCombination => 17,
            ErrorCode::EptAllocationFailure => 18,
            ErrorCode::EptVerificationFailure => 19,
            ErrorCode::StaleHandle => 20,
            ErrorCode::WrongObjectState => 21,
            ErrorCode::DraftCapacity => 22,
            ErrorCode::PublishedViewCapacity => 23,
            ErrorCode::BackingCapacity => 24,
            ErrorCode::BackingStillReferenced => 25,
            ErrorCode::InvalidCpuSet => 26,
            ErrorCode::RendezvousBusy => 27,
            ErrorCode::RendezvousTimeout => 28,
            ErrorCode::VmreadFailure => 29,
            ErrorCode::VmwriteFailure => 30,
            ErrorCode::InveptFailure => 31,
            ErrorCode::LaunchRollbackFailure => 32,
            ErrorCode::ActivationRolledBack => 33,
            ErrorCode::ShutdownFailure => 34,
            ErrorCode::VmxInstructionFailure => 35,
            ErrorCode::InvalidDescriptor => 36,
            ErrorCode::InvalidGuestState => 37,
            ErrorCode::GenerationOverflow => 38,
            ErrorCode::AllocationFailure => 39,
        }
    }

    /// The number that stands for the code on the wire.
    pub open spec fn spec_code(self) -> u32 {
        match self {
            ErrorCode::InvalidAbiVersion => 1,
            ErrorCode::InvalidStructureSize => 2,
            ErrorCode::UnsupportedFlags => 3,
            ErrorCode::AccessDenied => 4,
            ErrorCode::ControllerBusy => 5,
            ErrorCode::WrongSession => 6,
            ErrorCode::InvalidLifecycleState => 7,
            ErrorCode::UnsupportedCapability => 8,
            ErrorCode::CompetingHypervisor => 9,
            ErrorCode::TooManyProcessors => 10,
            ErrorCode::TopologyChanged => 11,
            ErrorCode::InvalidRange => 12,
            ErrorCode::AddressOverflow => 13,
            ErrorCode::MisalignedAddress => 14,
            ErrorCode::PhysicalAddressTooWide => 15,
            ErrorCode::UnsupportedPermissionCombination => 16,
            ErrorCode::UnsupportedMtrrCombination => 17,
            ErrorCode::EptAllocationFailure => 18,
            ErrorCode::EptVerificationFailure => 19,
            ErrorCode::StaleHandle => 20,
            ErrorCode::WrongObjectState => 21,
            ErrorCode::DraftCapacity => 22,
            ErrorCode::PublishedViewCapacity => 23,
            ErrorCode::BackingCapacity => 24,
            ErrorCode::BackingStillReferenced => 25,
            ErrorCode::InvalidCpuSet => 26,
            ErrorCode::RendezvousBusy => 27,
            ErrorCode::RendezvousTimeout => 28,
            ErrorCode::VmreadFailure => 29,
            ErrorCode::VmwriteFailure => 30,
            ErrorCode::InveptFailure => 31,
            ErrorCode::LaunchRollbackFailure => 32,
            ErrorCode::ActivationRolledBack => 33,
            ErrorCode::ShutdownFailure => 34,
            ErrorCode::VmxInstructionFailure => 35,
            ErrorCode::InvalidDescriptor => 36,
            ErrorCode::InvalidGuestState => 37,
            ErrorCode::GenerationOverflow => 38,
            ErrorCode::AllocationFailure => 39,
        }
    }
}

/// One failure: where it arose, what it is, and a stable detail.
///
/// The detail depends on the code:
///
/// - capability failures name the required feature; impossible controls put
///   the field in bits 32..39 and the rejected control mask in bits 0..31;
/// - VMX failures put the operation in bits 0..7, the status in bits 8..15 and
///   the instruction error in bits 32..63 (all ones means unavailable);
/// - address, guest-state and CPU-set failures use their named detail;
/// - capacity failures contain the rejected count, a physical-width failure
///   contains the rejected width, and a generation overflow contains the
///   previous generation;
/// - fields rejected for being reserved and nonzero contain the rejected value;
/// - otherwise the detail is zero unless the producing function says more.
#[derive(Debug, Clone, Copy, PartialEq, Eq, Structural)]
pub struct MonadError {
    pub phase: ErrorPhase,
    pub code: ErrorCode,
    /// Dense CPU index, or `NO_CPU`.
    pub cpu_dense_index: u16,
    /// Always zero.
    pub reserved: u16,
    /// Batch index, or `NO_OPERATION`.
    pub operation_index: u32,
    /// Stable detail for this code.
    pub detail: u64,
}

pub type MonadResult<T> = core::result::Result<T, MonadError>;

impl MonadError {
    /// The error that names neither a CPU nor a batch operation.
    pub open spec fn spec_new(phase: ErrorPhase, code: ErrorCode, detail: u64) -> Self {
        MonadError {
            phase,
            code,
            cpu_dense_index: NO_CPU,
            reserved: 0,
            operation_index: NO_OPERATION,
            detail,
        }
    }

    /// The error that names neither a CPU nor a batch operation.
    #[verifier::when_used_as_spec(spec_new)]
    pub fn new(phase: ErrorPhase, code: ErrorCode, detail: u64) -> (error: Self)
        ensures
            error == Self::spec_new(phase, code, detail),
    {
        Self {
            phase,
            code,
            cpu_dense_index: NO_CPU,
            reserved: 0,
            operation_index: NO_OPERATION,
            detail,
        }
    }

    /// The same failure, seen on one CPU.
    pub fn on_cpu(self, dense_index: u16) -> (error: Self)
        ensures
            error == (MonadError { cpu_dense_index: dense_index, ..self }),
    {
        Self { cpu_dense_index: dense_index, ..self }
    }

    /// The same failure, seen at one operation of a batch.
    pub fn at_operation(self, operation_index: u32) -> (error: Self)
        ensures
            error == (MonadError { operation_index, ..self }),
    {
        Self { operation_index, ..self }
    }
}

} // verus!
