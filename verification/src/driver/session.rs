//! The session of the one controller that there is at a time.

use vstd::prelude::*;

use crate::error::{ErrorCode, ErrorPhase, MonadError, MonadResult};

verus! {

/// The session. A nonce of zero means that there is no controller.
#[derive(Debug)]
pub struct ControllerSession {
    pub nonce: u64,
    pub inflight: u32,
    pub closing: bool,
    pub mutable_busy: bool,
}

/// A request that was let in, and is still under way.
#[derive(Debug)]
pub struct SessionRequest {
    pub mutable: bool,
}

/// A close that waits for the requests under way.
#[derive(Debug)]
pub struct CloseDrain {
    pub closing: (),
}

pub open spec fn spec_session_error(code: ErrorCode, detail: u64) -> MonadError {
    MonadError::new(ErrorPhase::Session, code, detail)
}

#[verifier::when_used_as_spec(spec_session_error)]
pub fn session_error(code: ErrorCode, detail: u64) -> (error: MonadError)
    ensures
        error == spec_session_error(code, detail),
{
    MonadError::new(ErrorPhase::Session, code, detail)
}

/// Counting up, around the end of the word.
pub open spec fn one_more(count: u32) -> u32 {
    if count == u32::MAX {
        0
    } else {
        (count + 1) as u32
    }
}

/// Counting down, around the end of the word.
pub open spec fn one_less(count: u32) -> u32 {
    if count == 0 {
        u32::MAX
    } else {
        (count - 1) as u32
    }
}

/// Why a controller cannot take the session, if it cannot.
pub open spec fn acquire_fault(session: ControllerSession, nonce: u64) -> Option<MonadError> {
    if nonce == 0 {
        Some(spec_session_error(ErrorCode::WrongSession, 0))
    } else if session.nonce != 0 {
        Some(spec_session_error(ErrorCode::ControllerBusy, 0))
    } else {
        None
    }
}

/// Why a request is not let in, if it is not.
pub open spec fn begin_fault(session: ControllerSession, nonce: u64, mutable: bool) -> Option<
    MonadError,
> {
    if session.closing {
        Some(spec_session_error(ErrorCode::ControllerBusy, 0))
    } else if nonce == 0 || nonce != session.nonce {
        Some(spec_session_error(ErrorCode::WrongSession, nonce))
    } else if mutable && session.mutable_busy {
        Some(spec_session_error(ErrorCode::ControllerBusy, 0))
    } else {
        None
    }
}

/// The session of a controller that has just taken it.
pub open spec fn acquired(session: ControllerSession, nonce: u64) -> ControllerSession {
    ControllerSession { nonce, closing: false, ..session }
}

/// The session once no request is let in any more.
pub open spec fn shut(session: ControllerSession) -> ControllerSession {
    ControllerSession { closing: true, ..session }
}

/// The session after its controller gave it up.
pub open spec fn given_up(session: ControllerSession) -> ControllerSession {
    ControllerSession { nonce: 0, closing: false, ..session }
}

/// The session with one more request under way.
pub open spec fn begun(session: ControllerSession, mutable: bool) -> ControllerSession {
    ControllerSession {
        inflight: one_more(session.inflight),
        mutable_busy: session.mutable_busy || mutable,
        ..session
    }
}

/// The session with one request less under way.
pub open spec fn ended(session: ControllerSession, mutable: bool) -> ControllerSession {
    ControllerSession {
        inflight: one_less(session.inflight),
        mutable_busy: session.mutable_busy && !mutable,
        ..session
    }
}

impl ControllerSession {
    pub fn new() -> (session: Self)
        ensures
            session == (ControllerSession {
                nonce: 0,
                inflight: 0,
                closing: false,
                mutable_busy: false,
            }),
    {
        ControllerSession { nonce: 0, inflight: 0, closing: false, mutable_busy: false }
    }

    /// Makes a controller the owner of the session.
    pub fn acquire(&mut self, nonce: u64) -> (result: MonadResult<()>)
        ensures
            match acquire_fault(*old(self), nonce) {
                Some(error) => {
                    &&& result == Err::<(), MonadError>(error)
                    &&& *final(self) == *old(self)
                },
                None => {
                    &&& result == Ok::<(), MonadError>(())
                    &&& *final(self) == acquired(*old(self), nonce)
                },
            },
    {
        if nonce == 0 {
            return Err(session_error(ErrorCode::WrongSession, 0));
        }
        if self.nonce != 0 {
            return Err(session_error(ErrorCode::ControllerBusy, 0));
        }
        self.nonce = nonce;
        self.closing = false;
        Ok(())
    }

    pub fn active_nonce(&self) -> (nonce: u64)
        ensures
            nonce == self.nonce,
    {
        self.nonce
    }

    /// Lets a request of the owner in. Only one that changes something is
    /// under way at a time, and none is let in while the session closes.
    pub fn begin(&mut self, nonce: u64, mutable: bool) -> (result: MonadResult<SessionRequest>)
        ensures
            match begin_fault(*old(self), nonce, mutable) {
                Some(error) => {
                    &&& result == Err::<SessionRequest, MonadError>(error)
                    &&& *final(self) == *old(self)
                },
                None => {
                    &&& result == Ok::<SessionRequest, MonadError>(SessionRequest { mutable })
                    &&& *final(self) == begun(*old(self), mutable)
                },
            },
    {
        if self.closing {
            return Err(session_error(ErrorCode::ControllerBusy, 0));
        }
        if nonce == 0 || nonce != self.nonce {
            return Err(session_error(ErrorCode::WrongSession, nonce));
        }
        if mutable {
            if self.mutable_busy {
                return Err(session_error(ErrorCode::ControllerBusy, 0));
            }
            self.mutable_busy = true;
        }
        self.inflight = if self.inflight == u32::MAX {
            0
        } else {
            self.inflight + 1
        };
        Ok(SessionRequest { mutable })
    }

    /// Begins to close the owner's session.
    pub fn begin_close(&mut self, nonce: u64) -> (result: MonadResult<CloseDrain>)
        ensures
            if nonce == 0 || old(self).nonce != nonce {
                &&& result == Err::<CloseDrain, MonadError>(
                    spec_session_error(ErrorCode::WrongSession, nonce),
                )
                &&& *final(self) == *old(self)
            } else {
                &&& result is Ok
                &&& *final(self) == shut(*old(self))
            },
    {
        if nonce == 0 || self.nonce != nonce {
            return Err(session_error(ErrorCode::WrongSession, nonce));
        }
        Ok(self.close_owner())
    }

    /// Begins to close the session, whoever owns it. The owner does so at its
    /// final close, when its requests were already drained.
    pub fn close_owner(&mut self) -> (drain: CloseDrain)
        ensures
            *final(self) == shut(*old(self)),
    {
        self.closing = true;
        CloseDrain { closing: () }
    }

    pub fn inflight(&self) -> (inflight: u32)
        ensures
            inflight == self.inflight,
    {
        self.inflight
    }
}

impl Default for ControllerSession {
    fn default() -> (session: Self)
        ensures
            session == (ControllerSession {
                nonce: 0,
                inflight: 0,
                closing: false,
                mutable_busy: false,
            }),
    {
        ControllerSession::new()
    }
}

impl SessionRequest {
    /// The request is done.
    pub fn end(self, session: &mut ControllerSession)
        ensures
            *final(session) == ended(*old(session), self.mutable),
    {
        if self.mutable {
            session.mutable_busy = false;
        }
        session.inflight = if session.inflight == 0 {
            u32::MAX
        } else {
            session.inflight - 1
        };
    }
}

impl CloseDrain {
    /// Whether no request is under way.
    pub fn is_drained(&self, session: &ControllerSession) -> (drained: bool)
        ensures
            drained == (session.inflight == 0),
    {
        session.inflight == 0
    }

    /// Gives the session up, once no request is under way.
    pub fn finish(self, session: &mut ControllerSession) -> (result: MonadResult<()>)
        ensures
            if old(session).inflight != 0 {
                &&& result == Err::<(), MonadError>(
                    spec_session_error(ErrorCode::ControllerBusy, 0),
                )
                &&& *final(session) == *old(session)
            } else {
                &&& result == if old(session).nonce == 0 {
                    Err::<(), MonadError>(spec_session_error(ErrorCode::WrongSession, 0))
                } else {
                    Ok(())
                }
                &&& *final(session) == given_up(*old(session))
            },
    {
        if !self.is_drained(session) {
            return Err(session_error(ErrorCode::ControllerBusy, 0));
        }
        let old_nonce: u64 = session.nonce;
        session.nonce = 0;
        session.closing = false;
        if old_nonce == 0 {
            return Err(session_error(ErrorCode::WrongSession, 0));
        }
        Ok(())
    }
}

/// While a request that changes something is under way, no other is let in, and
/// when it is done the session is as it was.
pub proof fn law_requests_are_serialized(session: ControllerSession, nonce: u64, other: u64)
    requires
        begin_fault(session, nonce, true) is None,
    ensures
        begin_fault(begun(session, true), other, true) is Some,
        ended(begun(session, true), true) == session,
{
}

/// While the session is owned, no other controller takes it, and while it
/// closes, no request is let in.
pub proof fn law_session_is_exclusive(session: ControllerSession, nonce: u64, mutable: bool)
    ensures
        session.nonce != 0 ==> acquire_fault(session, nonce) is Some,
        session.closing ==> begin_fault(session, nonce, mutable) is Some,
        nonce != session.nonce ==> begin_fault(session, nonce, mutable) is Some,
{
}

} // verus!
