//! The states of the hypervisor's life and the ways between them.

use vstd::prelude::*;

use crate::error::{ErrorCode, ErrorPhase, MonadError, MonadResult};

verus! {

/// Where the hypervisor is in its life.
#[derive(Debug, Clone, Copy, PartialEq, Eq, Structural)]
pub enum LifecycleState {
    Absent,
    Preparing,
    Launching,
    Running,
    Quiescing,
    Stopping,
    Fatal,
}

impl LifecycleState {
    pub open spec fn spec_code(self) -> u8 {
        match self {
            LifecycleState::Absent => 0,
            LifecycleState::Preparing => 1,
            LifecycleState::Launching => 2,
            LifecycleState::Running => 3,
            LifecycleState::Quiescing => 4,
            LifecycleState::Stopping => 5,
            LifecycleState::Fatal => 6,
        }
    }

    #[verifier::when_used_as_spec(spec_code)]
    pub fn code(self) -> (code: u8)
        ensures
            code == self.spec_code(),
    {
        match self {
            LifecycleState::Absent => 0,
            LifecycleState::Preparing => 1,
            LifecycleState::Launching => 2,
            LifecycleState::Running => 3,
            LifecycleState::Quiescing => 4,
            LifecycleState::Stopping => 5,
            LifecycleState::Fatal => 6,
        }
    }

    /// The state with a code, if there is one.
    pub fn decode(value: u8) -> (state: Option<Self>)
        ensures
            match state {
                Some(state) => state.spec_code() == value,
                None => value > 6,
            },
    {
        match value {
            0 => Some(LifecycleState::Absent),
            1 => Some(LifecycleState::Preparing),
            2 => Some(LifecycleState::Launching),
            3 => Some(LifecycleState::Running),
            4 => Some(LifecycleState::Quiescing),
            5 => Some(LifecycleState::Stopping),
            6 => Some(LifecycleState::Fatal),
            _ => None,
        }
    }

    /// The ways between states.
    pub open spec fn spec_allows(self, next: Self) -> bool {
        match self {
            LifecycleState::Absent => next is Preparing,
            LifecycleState::Preparing => next is Launching || next is Absent,
            LifecycleState::Launching => next is Running || next is Absent,
            LifecycleState::Running => next is Quiescing || next is Fatal,
            LifecycleState::Quiescing => next is Running || next is Stopping,
            LifecycleState::Stopping => next is Absent || next is Fatal,
            LifecycleState::Fatal => false,
        }
    }

    /// Whether there is a way from this state to another.
    #[verifier::when_used_as_spec(spec_allows)]
    pub fn allows(self, next: Self) -> (allowed: bool)
        ensures
            allowed == self.spec_allows(next),
    {
        match (self, next) {
            (LifecycleState::Absent, LifecycleState::Preparing) => true,
            (LifecycleState::Preparing, LifecycleState::Launching) => true,
            (LifecycleState::Preparing, LifecycleState::Absent) => true,
            (LifecycleState::Launching, LifecycleState::Running) => true,
            (LifecycleState::Launching, LifecycleState::Absent) => true,
            (LifecycleState::Running, LifecycleState::Quiescing) => true,
            (LifecycleState::Running, LifecycleState::Fatal) => true,
            (LifecycleState::Quiescing, LifecycleState::Running) => true,
            (LifecycleState::Quiescing, LifecycleState::Stopping) => true,
            (LifecycleState::Stopping, LifecycleState::Absent) => true,
            (LifecycleState::Stopping, LifecycleState::Fatal) => true,
            _ => false,
        }
    }
}

/// The one lifecycle of an instance, with the right to change it.
pub struct Lifecycle {
    state: LifecycleState,
    controlled: bool,
}

/// The right to change a lifecycle, held by one controller at a time.
pub struct LifecycleControl {
    granted: bool,
}

impl Lifecycle {
    /// The state.
    pub closed spec fn spec_state(&self) -> LifecycleState {
        self.state
    }

    /// Whether a controller holds the right to change it.
    pub closed spec fn spec_controlled(&self) -> bool {
        self.controlled
    }

    pub fn new() -> (lifecycle: Self)
        ensures
            lifecycle.spec_state() == LifecycleState::Absent,
            !lifecycle.spec_controlled(),
    {
        Lifecycle { state: LifecycleState::Absent, controlled: false }
    }

    #[verifier::when_used_as_spec(spec_state)]
    pub fn state(&self) -> (state: LifecycleState)
        ensures
            state == self.spec_state(),
    {
        self.state
    }

    /// Takes the right to change the lifecycle, if nobody holds it.
    pub fn try_control(&mut self) -> (result: MonadResult<LifecycleControl>)
        ensures
            final(self).spec_state() == old(self).spec_state(),
            final(self).spec_controlled(),
            match result {
                Ok(_) => !old(self).spec_controlled(),
                Err(error) => old(self).spec_controlled() && error == MonadError::new(
                    ErrorPhase::Session,
                    ErrorCode::ControllerBusy,
                    0,
                ),
            },
    {
        if self.controlled {
            return Err(MonadError::new(ErrorPhase::Session, ErrorCode::ControllerBusy, 0));
        }
        self.controlled = true;
        Ok(LifecycleControl { granted: true })
    }

    /// Gives up the lifecycle, from any state.
    pub fn enter_fatal(&mut self)
        ensures
            final(self).spec_state() == LifecycleState::Fatal,
            final(self).spec_controlled() == old(self).spec_controlled(),
    {
        self.state = LifecycleState::Fatal;
    }
}

impl Default for Lifecycle {
    fn default() -> (lifecycle: Self)
        ensures
            lifecycle.spec_state() == LifecycleState::Absent,
            !lifecycle.spec_controlled(),
    {
        Lifecycle::new()
    }
}

/// Why a lifecycle does not go from one state to another, if it does not.
pub open spec fn transition_fault(
    actual: LifecycleState,
    expected: LifecycleState,
    next: LifecycleState,
) -> Option<MonadError> {
    if !expected.allows(next) {
        Some(
            MonadError::new(
                ErrorPhase::Session,
                ErrorCode::InvalidLifecycleState,
                expected.spec_code() as u64 | ((next.spec_code() as u64) << 8),
            ),
        )
    } else if actual != expected {
        Some(
            MonadError::new(
                ErrorPhase::Session,
                ErrorCode::InvalidLifecycleState,
                actual.spec_code() as u64,
            ),
        )
    } else {
        None
    }
}

impl LifecycleControl {
    pub fn state(&self, lifecycle: &Lifecycle) -> (state: LifecycleState)
        ensures
            state == lifecycle.spec_state(),
    {
        lifecycle.state()
    }

    /// Goes from the state that is expected to the next, if that is allowed.
    pub fn transition(
        &self,
        lifecycle: &mut Lifecycle,
        expected: LifecycleState,
        next: LifecycleState,
    ) -> (result: MonadResult<()>)
        ensures
            final(lifecycle).spec_controlled() == old(lifecycle).spec_controlled(),
            match transition_fault(old(lifecycle).spec_state(), expected, next) {
                Some(error) => {
                    &&& result == Err::<(), MonadError>(error)
                    &&& final(lifecycle).spec_state() == old(lifecycle).spec_state()
                },
                None => {
                    &&& result == Ok::<(), MonadError>(())
                    &&& final(lifecycle).spec_state() == next
                },
            },
    {
        if !expected.allows(next) {
            return Err(
                MonadError::new(
                    ErrorPhase::Session,
                    ErrorCode::InvalidLifecycleState,
                    expected.code() as u64 | ((next.code() as u64) << 8),
                ),
            );
        }
        if lifecycle.state != expected {
            return Err(
                MonadError::new(
                    ErrorPhase::Session,
                    ErrorCode::InvalidLifecycleState,
                    lifecycle.state.code() as u64,
                ),
            );
        }
        lifecycle.state = next;
        Ok(())
    }

    /// Gives the right back.
    pub fn release(self, lifecycle: &mut Lifecycle)
        ensures
            final(lifecycle).spec_state() == old(lifecycle).spec_state(),
            !final(lifecycle).spec_controlled(),
    {
        lifecycle.controlled = false;
    }
}

/// Nothing leads out of the fatal state.
pub proof fn law_fatal_is_final(next: LifecycleState)
    ensures
        !LifecycleState::Fatal.allows(next),
{
}

/// Only a launch, or a request that was withdrawn, leads to running; only a
/// stop that was prepared leads to stopping.
pub proof fn law_running_and_stopping_have_one_way_in(from: LifecycleState)
    ensures
        from.allows(LifecycleState::Running) ==> from is Launching || from is Quiescing,
        from.allows(LifecycleState::Stopping) ==> from is Quiescing,
{
}

/// The debug registers of a processor.
#[derive(Debug, Clone, Copy, PartialEq, Eq, Structural)]
pub struct DebugState {
    pub dr0: u64,
    pub dr1: u64,
    pub dr2: u64,
    pub dr3: u64,
    pub dr6: u64,
    pub dr7: u64,
}

/// Where a request to stop came from.
#[derive(Debug, Clone, Copy, PartialEq, Eq, Structural)]
pub struct ShutdownOrigin {
    pub cpl: u8,
    pub rip: u64,
    pub trampoline_start: u64,
    pub trampoline_end: u64,
    pub expected_epoch: u64,
    pub mailbox_epoch: u64,
    pub expected_cpu: u16,
    pub current_cpu: u16,
}

/// Whether a request to stop came from the registered code, at the highest
/// privilege, in its epoch and on its processor.
pub open spec fn origin_valid(origin: ShutdownOrigin) -> bool {
    &&& origin.cpl == 0
    &&& origin.trampoline_start <= origin.rip < origin.trampoline_end
    &&& origin.expected_epoch != 0
    &&& origin.expected_epoch == origin.mailbox_epoch
    &&& origin.expected_cpu == origin.current_cpu
}

pub fn validate_shutdown_origin(origin: ShutdownOrigin) -> (result: MonadResult<()>)
    ensures
        result == if origin_valid(origin) {
            Ok::<(), MonadError>(())
        } else {
            Err(MonadError::new(ErrorPhase::Shutdown, ErrorCode::AccessDenied, origin.rip))
        },
{
    let valid: bool = origin.cpl == 0 && origin.trampoline_start < origin.trampoline_end
        && origin.trampoline_start <= origin.rip && origin.rip < origin.trampoline_end
        && origin.expected_epoch != 0 && origin.expected_epoch == origin.mailbox_epoch
        && origin.expected_cpu == origin.current_cpu;
    if !valid {
        return Err(MonadError::new(ErrorPhase::Shutdown, ErrorCode::AccessDenied, origin.rip));
    }
    Ok(())
}

} // verus!
