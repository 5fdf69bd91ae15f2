//! The request that a controller leaves for one processor.

use vstd::prelude::*;

use crate::ept::view::{ViewId, MAX_PUBLISHED_VIEWS};
use crate::topology::CpuId;

verus! {

/// Where a request is on its way.
#[derive(Debug, Clone, Copy, PartialEq, Eq, Structural)]
pub enum MailboxState {
    Idle,
    Prepared,
    Executing,
    Completed,
    Failed,
}

impl MailboxState {
    pub open spec fn spec_code(self) -> u8 {
        match self {
            MailboxState::Idle => 0,
            MailboxState::Prepared => 1,
            MailboxState::Executing => 2,
            MailboxState::Completed => 3,
            MailboxState::Failed => 4,
        }
    }

    #[verifier::when_used_as_spec(spec_code)]
    pub fn code(self) -> (code: u8)
        ensures
            code == self.spec_code(),
    {
        match self {
            MailboxState::Idle => 0,
            MailboxState::Prepared => 1,
            MailboxState::Executing => 2,
            MailboxState::Completed => 3,
            MailboxState::Failed => 4,
        }
    }

    /// The state with a code, if there is one.
    pub fn decode(value: u8) -> (state: Option<Self>)
        ensures
            match state {
                Some(state) => state.spec_code() == value,
                None => value > 4,
            },
    {
        match value {
            0 => Some(MailboxState::Idle),
            1 => Some(MailboxState::Prepared),
            2 => Some(MailboxState::Executing),
            3 => Some(MailboxState::Completed),
            4 => Some(MailboxState::Failed),
            _ => None,
        }
    }
}

/// What a processor is asked to do.
#[derive(Debug, Clone, Copy, PartialEq, Eq, Structural)]
pub enum RendezvousOperation {
    SwitchView,
    RollbackView,
    Shutdown,
}

impl RendezvousOperation {
    pub open spec fn spec_code(self) -> u8 {
        match self {
            RendezvousOperation::SwitchView => 1,
            RendezvousOperation::RollbackView => 2,
            RendezvousOperation::Shutdown => 3,
        }
    }

    #[verifier::when_used_as_spec(spec_code)]
    pub fn code(self) -> (code: u8)
        ensures
            code == self.spec_code(),
    {
        match self {
            RendezvousOperation::SwitchView => 1,
            RendezvousOperation::RollbackView => 2,
            RendezvousOperation::Shutdown => 3,
        }
    }

    pub open spec fn spec_decode(value: u8) -> Option<Self> {
        if value == 1 {
            Some(RendezvousOperation::SwitchView)
        } else if value == 2 {
            Some(RendezvousOperation::RollbackView)
        } else if value == 3 {
            Some(RendezvousOperation::Shutdown)
        } else {
            None
        }
    }

    /// The operation with a code, if there is one.
    #[verifier::when_used_as_spec(spec_decode)]
    pub fn decode(value: u8) -> (operation: Option<Self>)
        ensures
            operation == Self::spec_decode(value),
    {
        match value {
            1 => Some(RendezvousOperation::SwitchView),
            2 => Some(RendezvousOperation::RollbackView),
            3 => Some(RendezvousOperation::Shutdown),
            _ => None,
        }
    }
}

/// What became of a request.
#[derive(Debug, Clone, Copy, PartialEq, Eq, Structural)]
pub enum MailboxStatus {
    Pending,
    Success,
    WrongCpl,
    WrongCpu,
    WrongState,
    WrongEpoch,
    InvalidOperation,
    OldViewMismatch,
    UnknownView,
    TargetEptpMismatch,
    SwitchFailed,
}

impl MailboxStatus {
    pub open spec fn spec_code(self) -> u32 {
        match self {
            MailboxStatus::Pending => 0,
            MailboxStatus::Success => 1,
            MailboxStatus::WrongCpl => 2,
            MailboxStatus::WrongCpu => 3,
            MailboxStatus::WrongState => 4,
            MailboxStatus::WrongEpoch => 5,
            MailboxStatus::InvalidOperation => 6,
            MailboxStatus::OldViewMismatch => 7,
            MailboxStatus::UnknownView => 8,
            MailboxStatus::TargetEptpMismatch => 9,
            MailboxStatus::SwitchFailed => 10,
        }
    }

    #[verifier::when_used_as_spec(spec_code)]
    pub fn code(self) -> (code: u32)
        ensures
            code == self.spec_code(),
    {
        match self {
            MailboxStatus::Pending => 0,
            MailboxStatus::Success => 1,
            MailboxStatus::WrongCpl => 2,
            MailboxStatus::WrongCpu => 3,
            MailboxStatus::WrongState => 4,
            MailboxStatus::WrongEpoch => 5,
            MailboxStatus::InvalidOperation => 6,
            MailboxStatus::OldViewMismatch => 7,
            MailboxStatus::UnknownView => 8,
            MailboxStatus::TargetEptpMismatch => 9,
            MailboxStatus::SwitchFailed => 10,
        }
    }
}

/// A request.
#[derive(Debug, Clone, Copy, PartialEq, Eq, Structural)]
pub struct MailboxRequest {
    pub epoch: u64,
    pub operation: RendezvousOperation,
    pub target_view: ViewId,
    pub target_eptp: u64,
    pub expected_old_eptp: u64,
}

/// What a processor knows when it takes a request.
#[derive(Debug, Clone, Copy)]
pub struct MailboxValidation {
    pub cs_selector: u16,
    pub expected_cpu: CpuId,
    pub current_cpu: CpuId,
    pub active_epoch: u64,
    pub active_view: ViewId,
    pub active_eptp: u64,
    pub resolved_target_eptp: Option<u64>,
}

/// A mailbox as contracts see it. The operation is a raw code.
pub struct MailboxModel {
    pub state: MailboxState,
    pub epoch: u64,
    pub operation: u8,
    pub target_eptp: u64,
    pub target_view_slot: u16,
    pub target_view_generation: u64,
    pub expected_old_eptp: u64,
    pub status: MailboxStatus,
}

impl MailboxModel {
    /// The view that the request names.
    pub open spec fn target_view(self) -> ViewId {
        ViewId {
            slot: self.target_view_slot,
            reserved: 0,
            generation: self.target_view_generation,
        }
    }

    /// The mailbox in which a request was left.
    pub open spec fn left(request: MailboxRequest) -> MailboxModel {
        MailboxModel {
            state: MailboxState::Prepared,
            epoch: request.epoch,
            operation: request.operation.spec_code(),
            target_eptp: request.target_eptp,
            target_view_slot: request.target_view.slot,
            target_view_generation: request.target_view.generation,
            expected_old_eptp: request.expected_old_eptp,
            status: MailboxStatus::Pending,
        }
    }

    /// The request that is in the mailbox.
    pub open spec fn request(self) -> MailboxRequest {
        MailboxRequest {
            epoch: self.epoch,
            operation: RendezvousOperation::spec_decode(self.operation).unwrap(),
            target_view: self.target_view(),
            target_eptp: self.target_eptp,
            expected_old_eptp: self.expected_old_eptp,
        }
    }

    /// The mailbox after its request went through.
    pub open spec fn completed(self) -> MailboxModel {
        MailboxModel { state: MailboxState::Completed, status: MailboxStatus::Success, ..self }
    }

    /// The mailbox after its request failed.
    pub open spec fn failed(self, status: MailboxStatus) -> MailboxModel {
        MailboxModel { state: MailboxState::Failed, status, ..self }
    }

    /// The mailbox after a request that is done with was cleared.
    pub open spec fn cleared(self) -> MailboxModel {
        MailboxModel { state: MailboxState::Idle, status: MailboxStatus::Pending, ..self }
    }

    /// The mailbox after a refusal: a request in execution has failed.
    pub open spec fn refused(self, status: MailboxStatus) -> MailboxModel {
        MailboxModel {
            status,
            state: if self.state is Executing {
                MailboxState::Failed
            } else {
                self.state
            },
            ..self
        }
    }
}

/// Why a request is not taken, if it is not.
pub open spec fn consume_fault(model: MailboxModel, validation: MailboxValidation) -> Option<
    MailboxStatus,
> {
    if validation.cs_selector & 3 != 0 {
        Some(MailboxStatus::WrongCpl)
    } else if validation.current_cpu.name() != validation.expected_cpu.name() {
        Some(MailboxStatus::WrongCpu)
    } else if model.state !is Prepared {
        Some(MailboxStatus::WrongState)
    } else if model.epoch == 0 || model.epoch != validation.active_epoch {
        Some(MailboxStatus::WrongEpoch)
    } else if RendezvousOperation::spec_decode(model.operation) is None {
        Some(MailboxStatus::InvalidOperation)
    } else if model.expected_old_eptp != validation.active_eptp {
        Some(MailboxStatus::OldViewMismatch)
    } else if RendezvousOperation::spec_decode(model.operation) == Some(
        RendezvousOperation::Shutdown,
    ) {
        None
    } else if validation.resolved_target_eptp is None {
        Some(MailboxStatus::UnknownView)
    } else if validation.resolved_target_eptp != Some(model.target_eptp)
        || model.target_view_generation == 0 {
        Some(MailboxStatus::TargetEptpMismatch)
    } else {
        None
    }
}

/// The mailbox after an attempt to take its request.
pub open spec fn after_consume(model: MailboxModel, validation: MailboxValidation) -> MailboxModel {
    let executing = MailboxModel { state: MailboxState::Executing, ..model };
    match consume_fault(model, validation) {
        None => executing,
        Some(MailboxStatus::WrongCpl) => model.refused(MailboxStatus::WrongCpl),
        Some(MailboxStatus::WrongCpu) => model.refused(MailboxStatus::WrongCpu),
        Some(MailboxStatus::WrongState) => model.refused(MailboxStatus::WrongState),
        Some(status) => executing.refused(status),
    }
}

/// The mailbox of one processor.
pub struct InternalMailbox {
    state: MailboxState,
    epoch: u64,
    operation: u8,
    target_eptp: u64,
    target_view_slot: u16,
    target_view_generation: u64,
    expected_old_eptp: u64,
    status: MailboxStatus,
}

impl InternalMailbox {
    /// The mailbox as contracts see it.
    pub closed spec fn view(&self) -> MailboxModel {
        MailboxModel {
            state: self.state,
            epoch: self.epoch,
            operation: self.operation,
            target_eptp: self.target_eptp,
            target_view_slot: self.target_view_slot,
            target_view_generation: self.target_view_generation,
            expected_old_eptp: self.expected_old_eptp,
            status: self.status,
        }
    }

    pub fn new() -> (mailbox: Self)
        ensures
            mailbox@ == (MailboxModel {
                state: MailboxState::Idle,
                epoch: 0,
                operation: 0,
                target_eptp: 0,
                target_view_slot: 0,
                target_view_generation: 0,
                expected_old_eptp: 0,
                status: MailboxStatus::Pending,
            }),
    {
        InternalMailbox {
            state: MailboxState::Idle,
            epoch: 0,
            operation: 0,
            target_eptp: 0,
            target_view_slot: 0,
            target_view_generation: 0,
            expected_old_eptp: 0,
            status: MailboxStatus::Pending,
        }
    }

    pub fn state(&self) -> (state: Option<MailboxState>)
        ensures
            state == Some(self@.state),
    {
        Some(self.state)
    }

    pub fn status(&self) -> (status: u32)
        ensures
            status == self@.status.spec_code(),
    {
        self.status.code()
    }

    pub fn epoch(&self) -> (epoch: u64)
        ensures
            epoch == self@.epoch,
    {
        self.epoch
    }

    /// The view that a prepared request names.
    pub fn prepared_target(&self) -> (target: Option<ViewId>)
        ensures
            target == if self@.state is Prepared {
                Some(self@.target_view())
            } else {
                None
            },
    {
        if self.state != MailboxState::Prepared {
            return None;
        }
        Some(
            ViewId {
                slot: self.target_view_slot,
                reserved: 0,
                generation: self.target_view_generation,
            },
        )
    }

    /// Leaves a request in an idle mailbox.
    pub fn prepare(&mut self, request: MailboxRequest) -> (result: Result<(), MailboxStatus>)
        ensures
            if old(self)@.state is Idle {
                &&& result == Ok::<(), MailboxStatus>(())
                &&& final(self)@ == MailboxModel::left(request)
            } else {
                &&& result == Err::<(), MailboxStatus>(MailboxStatus::WrongState)
                &&& final(self)@ == old(self)@
            },
    {
        if self.state != MailboxState::Idle {
            return Err(MailboxStatus::WrongState);
        }
        self.operation = request.operation.code();
        self.target_eptp = request.target_eptp;
        self.target_view_slot = request.target_view.slot;
        self.target_view_generation = request.target_view.generation;
        self.expected_old_eptp = request.expected_old_eptp;
        self.epoch = request.epoch;
        self.status = MailboxStatus::Pending;
        self.state = MailboxState::Prepared;
        Ok(())
    }

    fn reject(&mut self, status: MailboxStatus) -> (result: Result<MailboxRequest, MailboxStatus>)
        ensures
            result == Err::<MailboxRequest, MailboxStatus>(status),
            final(self)@ == old(self)@.refused(status),
    {
        self.status = status;
        if self.state == MailboxState::Executing {
            self.state = MailboxState::Failed;
        }
        Err(status)
    }

    /// Takes a prepared request that is meant for this processor, in this
    /// epoch, from the view that is active to a view that is published.
    pub fn consume(&mut self, validation: MailboxValidation) -> (result: Result<
        MailboxRequest,
        MailboxStatus,
    >)
        ensures
            final(self)@ == after_consume(old(self)@, validation),
            match consume_fault(old(self)@, validation) {
                Some(status) => result == Err::<MailboxRequest, MailboxStatus>(status),
                None => result == Ok::<MailboxRequest, MailboxStatus>(old(self)@.request()),
            },
    {
        if validation.cs_selector & 3 != 0 {
            return self.reject(MailboxStatus::WrongCpl);
        }
        if !validation.current_cpu.same(&validation.expected_cpu) {
            return self.reject(MailboxStatus::WrongCpu);
        }
        if self.state != MailboxState::Prepared {
            return self.reject(MailboxStatus::WrongState);
        }
        self.state = MailboxState::Executing;
        if self.epoch == 0 || self.epoch != validation.active_epoch {
            return self.reject(MailboxStatus::WrongEpoch);
        }
        let operation = match RendezvousOperation::decode(self.operation) {
            Some(operation) => operation,
            None => {
                return self.reject(MailboxStatus::InvalidOperation);
            },
        };
        if self.expected_old_eptp != validation.active_eptp {
            return self.reject(MailboxStatus::OldViewMismatch);
        }
        if operation != RendezvousOperation::Shutdown {
            match validation.resolved_target_eptp {
                Some(resolved) => {
                    if resolved != self.target_eptp || self.target_view_generation == 0 {
                        return self.reject(MailboxStatus::TargetEptpMismatch);
                    }
                },
                None => {
                    return self.reject(MailboxStatus::UnknownView);
                },
            }
        }
        Ok(
            MailboxRequest {
                epoch: self.epoch,
                operation,
                target_view: ViewId {
                    slot: self.target_view_slot,
                    reserved: 0,
                    generation: self.target_view_generation,
                },
                target_eptp: self.target_eptp,
                expected_old_eptp: self.expected_old_eptp,
            },
        )
    }

    /// A request in execution has succeeded.
    pub fn complete(&mut self) -> (result: Result<(), MailboxStatus>)
        ensures
            if old(self)@.state is Executing {
                &&& result == Ok::<(), MailboxStatus>(())
                &&& final(self)@ == old(self)@.completed()
            } else {
                &&& result == Err::<(), MailboxStatus>(MailboxStatus::WrongState)
                &&& final(self)@ == old(self)@
            },
    {
        if self.state != MailboxState::Executing {
            return Err(MailboxStatus::WrongState);
        }
        self.state = MailboxState::Completed;
        self.status = MailboxStatus::Success;
        Ok(())
    }

    /// The request has failed.
    pub fn fail(&mut self, status: MailboxStatus)
        ensures
            final(self)@ == old(self)@.failed(status),
    {
        self.status = status;
        self.state = MailboxState::Failed;
    }

    /// Clears a request that is done with.
    pub fn reset(&mut self) -> (result: Result<(), MailboxStatus>)
        ensures
            if old(self)@.state is Completed || old(self)@.state is Failed {
                &&& result == Ok::<(), MailboxStatus>(())
                &&& final(self)@ == old(self)@.cleared()
            } else {
                &&& result == Err::<(), MailboxStatus>(MailboxStatus::WrongState)
                &&& final(self)@ == old(self)@
            },
    {
        if self.state != MailboxState::Completed && self.state != MailboxState::Failed {
            return Err(MailboxStatus::WrongState);
        }
        self.status = MailboxStatus::Pending;
        self.state = MailboxState::Idle;
        Ok(())
    }

    /// Overwrites the operation's code.
    pub fn set_raw_operation(&mut self, operation: u8)
        ensures
            final(self)@ == (MailboxModel { operation, ..old(self)@ }),
    {
        self.operation = operation;
    }
}

impl Default for InternalMailbox {
    fn default() -> (mailbox: Self)
        ensures
            mailbox@.state is Idle,
            mailbox@.status is Pending,
            mailbox@.epoch == 0,
    {
        InternalMailbox::new()
    }
}

/// A request that was left is the one that is taken, by a processor for which
/// it is valid, and only once.
pub proof fn law_request_is_taken_once(
    model: MailboxModel,
    request: MailboxRequest,
    validation: MailboxValidation,
    again: MailboxValidation,
)
    requires
        model == MailboxModel::left(request),
        consume_fault(model, validation) is None,
    ensures
        RendezvousOperation::spec_decode(model.operation) == Some(request.operation),
        request.target_view.reserved == 0 ==> model.target_view() == request.target_view,
        consume_fault(after_consume(model, validation), again) is Some,
{
}

/// The published views of an instance, by slot: generation and pointer.
pub struct PublishedViewDirectory {
    slots: Vec<(u64, u64)>,
}

/// The directory in which a view was entered.
pub open spec fn entered_view(slots: Seq<(u64, u64)>, id: ViewId, eptp: u64) -> Seq<(u64, u64)> {
    slots.update(id.slot as int, (id.generation, eptp))
}

/// The pointer that a directory has for a view, if it has one.
pub open spec fn pointer_of(slots: Seq<(u64, u64)>, id: ViewId) -> Option<u64> {
    if id.reserved != 0 || id.generation == 0 || id.slot >= slots.len() || slots[id.slot as int].0
        != id.generation {
        None
    } else {
        Some(slots[id.slot as int].1)
    }
}

/// Why a view cannot be entered in a directory, if it cannot.
pub open spec fn directory_fault(slots: Seq<(u64, u64)>, id: ViewId, eptp: u64) -> Option<
    MailboxStatus,
> {
    if id.reserved != 0 || id.generation == 0 || eptp == 0 || id.slot >= slots.len() {
        Some(MailboxStatus::UnknownView)
    } else if slots[id.slot as int].0 != 0 {
        Some(MailboxStatus::WrongState)
    } else {
        None
    }
}

impl PublishedViewDirectory {
    /// The slots: generation and pointer of each, zero where it is empty.
    pub closed spec fn view(&self) -> Seq<(u64, u64)> {
        self.slots@
    }

    /// The pointer of a view.
    pub open spec fn resolved(&self, id: ViewId) -> Option<u64> {
        pointer_of(self@, id)
    }

    pub fn new() -> (directory: Self)
        ensures
            directory@.len() == MAX_PUBLISHED_VIEWS,
            forall|i: int| 0 <= i < MAX_PUBLISHED_VIEWS ==> #[trigger] directory@[i] == (0u64, 0u64),
    {
        let mut slots: Vec<(u64, u64)> = Vec::new();
        while slots.len() < MAX_PUBLISHED_VIEWS
            invariant
                slots@.len() <= MAX_PUBLISHED_VIEWS,
                forall|i: int| 0 <= i < slots@.len() ==> #[trigger] slots@[i] == (0u64, 0u64),
            decreases MAX_PUBLISHED_VIEWS - slots@.len(),
        {
            slots.push((0, 0));
        }
        PublishedViewDirectory { slots }
    }

    /// Enters a view, once.
    pub fn publish(&mut self, id: ViewId, eptp: u64) -> (result: Result<(), MailboxStatus>)
        ensures
            match directory_fault(old(self)@, id, eptp) {
                Some(status) => {
                    &&& result == Err::<(), MailboxStatus>(status)
                    &&& final(self)@ == old(self)@
                },
                None => {
                    &&& result == Ok::<(), MailboxStatus>(())
                    &&& final(self)@ == entered_view(old(self)@, id, eptp)
                    &&& final(self).resolved(id) == Some(eptp)
                },
            },
    {
        if id.reserved != 0 || id.generation == 0 || eptp == 0 {
            return Err(MailboxStatus::UnknownView);
        }
        let index: usize = id.slot as usize;
        if index >= self.slots.len() {
            return Err(MailboxStatus::UnknownView);
        }
        if self.slots[index].0 != 0 {
            return Err(MailboxStatus::WrongState);
        }
        self.slots.set(index, (id.generation, eptp));
        Ok(())
    }

    /// The pointer of a view that was entered.
    pub fn resolve(&self, id: ViewId) -> (eptp: Option<u64>)
        ensures
            eptp == self.resolved(id),
    {
        if id.reserved != 0 || id.generation == 0 {
            return None;
        }
        let index: usize = id.slot as usize;
        if index >= self.slots.len() {
            return None;
        }
        let slot = self.slots[index];
        if slot.0 != id.generation {
            return None;
        }
        Some(slot.1)
    }
}

impl Default for PublishedViewDirectory {
    fn default() -> (directory: Self)
        ensures
            directory@.len() == MAX_PUBLISHED_VIEWS,
            forall|i: int| 0 <= i < MAX_PUBLISHED_VIEWS ==> #[trigger] directory@[i] == (0u64, 0u64),
    {
        PublishedViewDirectory::new()
    }
}

} // verus!
