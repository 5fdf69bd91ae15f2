//! How all processors change views together.

use vstd::prelude::*;

pub mod agreement;
pub mod mailbox;
pub mod transaction;

pub use mailbox::{
    InternalMailbox, MailboxRequest, MailboxState, MailboxStatus, MailboxValidation,
    PublishedViewDirectory, RendezvousOperation,
};

pub use transaction::{
    rollback_view, switch_view, ActiveViewState, CpuResultState, RendezvousCpuResult,
    RendezvousTransaction, SwitchFailure, SwitchStep, ViewSwitchBackend,
};

verus! {

} // verus!
