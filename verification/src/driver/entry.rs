//! How the device is opened, cleaned up, closed, and asked: what is decided
//! before a request is read.

use vstd::prelude::*;

use super::device::STATUS_INVALID_DEVICE_REQUEST;
use super::ioctl;
use super::ioctl::{ntstatus, MAX_REQUEST_BYTES, STATUS_SUCCESS};
use super::session;
use super::session::{CloseDrain, ControllerSession};

verus! {

pub const STATUS_INVALID_PARAMETER: i32 = -1073741811;

pub const STATUS_BUFFER_TOO_SMALL: i32 = -1073741789;

pub const STATUS_INSUFFICIENT_RESOURCES: i32 = -1073741670;

/// How often a nonce is drawn before there is none.
pub const NONCE_DRAWS: u32 = 4;

/// The search for a nonce that is not zero.
#[derive(Debug, Clone, Copy, PartialEq, Eq, Structural)]
pub enum NonceSearch {
    /// So many draws are left.
    Drawing(u32),
    Found(u64),
    Failed(i32),
}

impl NonceSearch {
    /// The search after one draw more, whose status and number these are.
    pub open spec fn after_draw(self, status: i32, drawn: u64) -> NonceSearch {
        match self {
            NonceSearch::Drawing(left) => if status < 0 {
                NonceSearch::Failed(status)
            } else if drawn != 0 {
                NonceSearch::Found(drawn)
            } else if left <= 1 {
                NonceSearch::Failed(STATUS_INSUFFICIENT_RESOURCES)
            } else {
                NonceSearch::Drawing((left - 1) as u32)
            },
            _ => self,
        }
    }

    pub fn new() -> (search: Self)
        ensures
            search == NonceSearch::Drawing(NONCE_DRAWS),
    {
        NonceSearch::Drawing(NONCE_DRAWS)
    }

    /// Takes one draw into account.
    pub fn draw(self, status: i32, drawn: u64) -> (next: Self)
        ensures
            next == self.after_draw(status, drawn),
    {
        match self {
            NonceSearch::Drawing(left) => {
                if status < 0 {
                    NonceSearch::Failed(status)
                } else if drawn != 0 {
                    NonceSearch::Found(drawn)
                } else if left <= 1 {
                    NonceSearch::Failed(STATUS_INSUFFICIENT_RESOURCES)
                } else {
                    NonceSearch::Drawing(left - 1)
                }
            },
            _ => self,
        }
    }
}

/// Opens the device: who opens it becomes the controller, with the nonce that
/// was found.
pub fn open_device(session: &mut ControllerSession, nonce: Result<u64, i32>) -> (status: i32)
    ensures
        match nonce {
            Err(failure) => status == failure && *final(session) == *old(session),
            Ok(found) => match session::acquire_fault(*old(session), found) {
                Some(error) => {
                    &&& status == ioctl::spec_ntstatus(error)
                    &&& *final(session) == *old(session)
                },
                None => {
                    &&& status == STATUS_SUCCESS
                    &&& *final(session) == session::acquired(*old(session), found)
                },
            },
        },
{
    match nonce {
        Err(failure) => failure,
        Ok(found) => match session.acquire(found) {
            Ok(_) => STATUS_SUCCESS,
            Err(error) => ntstatus(error),
        },
    }
}

/// A session behind whose controller everything was cleaned up.
pub open spec fn cleaned_up(session: ControllerSession) -> ControllerSession {
    if session.nonce != 0 {
        session::shut(session)
    } else {
        session
    }
}

/// Cleans up behind the controller: no request is let in any more. What is
/// under way may still come to its end.
pub fn clean_up_device(session: &mut ControllerSession) -> (status: i32)
    ensures
        status == STATUS_SUCCESS,
        *final(session) == cleaned_up(*old(session)),
{
    let nonce: u64 = session.active_nonce();
    if nonce != 0 {
        if let Err(error) = session.begin_close(nonce) {
            return ntstatus(error);
        }
    }
    STATUS_SUCCESS
}

/// What is left to do when the device is closed.
pub enum CloseStep {
    /// There is no controller.
    Nothing,
    /// A request is still under way, which cannot be.
    Undrained,
    /// The hypervisor is to be stopped, then the session given up.
    Release(CloseDrain),
}

/// Begins to close the device.
pub fn close_device(session: &mut ControllerSession) -> (step: CloseStep)
    ensures
        *final(session) == cleaned_up(*old(session)),
        step is Nothing <==> old(session).nonce == 0,
        step is Undrained <==> old(session).nonce != 0 && old(session).inflight != 0,
{
    if session.active_nonce() == 0 {
        return CloseStep::Nothing;
    }
    let drain = session.close_owner();
    if !drain.is_drained(session) {
        return CloseStep::Undrained;
    }
    CloseStep::Release(drain)
}

/// Why a request is not even read, if it is not: the level at which it comes,
/// no description of it, sizes that no request has, or no memory for it.
pub open spec fn control_refusal(
    irql: u8,
    described: bool,
    input_length: usize,
    output_length: usize,
    buffered: bool,
) -> Option<i32> {
    if irql != 0 || !described {
        Some(STATUS_INVALID_DEVICE_REQUEST)
    } else if input_length > MAX_REQUEST_BYTES || output_length > MAX_REQUEST_BYTES {
        Some(STATUS_INVALID_PARAMETER)
    } else if !buffered {
        Some(STATUS_BUFFER_TOO_SMALL)
    } else {
        None
    }
}

/// Whether a request may be read.
pub fn admit_control(
    irql: u8,
    described: bool,
    input_length: usize,
    output_length: usize,
    buffered: bool,
) -> (result: Result<(), i32>)
    ensures
        result == match control_refusal(irql, described, input_length, output_length, buffered) {
            Some(status) => Err::<(), i32>(status),
            None => Ok(()),
        },
{
    if irql != 0 || !described {
        return Err(STATUS_INVALID_DEVICE_REQUEST);
    }
    if input_length > MAX_REQUEST_BYTES || output_length > MAX_REQUEST_BYTES {
        return Err(STATUS_INVALID_PARAMETER);
    }
    if !buffered {
        return Err(STATUS_BUFFER_TOO_SMALL);
    }
    Ok(())
}

/// A nonce that is found is never zero, and the search comes to its end.
pub proof fn law_nonce_is_found_or_refused(search: NonceSearch, status: i32, drawn: u64)
    requires
        search is Drawing,
    ensures
        match search.after_draw(status, drawn) {
            NonceSearch::Drawing(left) => left < search->Drawing_0,
            NonceSearch::Found(nonce) => nonce == drawn && nonce != 0 && status >= 0,
            NonceSearch::Failed(failure) => failure < 0,
        },
{
}

/// A session that was cleaned up lets no request in, and one that was closed
/// can be taken by the next controller.
pub proof fn law_closed_session_is_free(
    before: ControllerSession,
    cleaned: ControllerSession,
    closed: ControllerSession,
    nonce: u64,
    mutable: bool,
)
    requires
        before.nonce != 0,
        cleaned == cleaned_up(before),
        cleaned.inflight == 0,
        closed == session::given_up(cleaned),
        nonce != 0,
    ensures
        session::begin_fault(cleaned, nonce, mutable) is Some,
        session::acquire_fault(cleaned, nonce) is Some,
        session::acquire_fault(closed, nonce) is None,
{
}

} // verus!
