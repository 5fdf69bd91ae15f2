//! One virtual processor.

use vstd::prelude::*;

use crate::arch::intel::caps::IntelCapabilities;
use crate::arch::intel::vmcs::GuestRegs;
use crate::ept::view::ViewId;
use crate::error::{ErrorCode, ErrorPhase, MonadError, MonadResult};
use crate::exit::context::ExitContext;
use crate::exit::disposition::FatalReason;
use crate::exit::ept_fault::EptFaultTracker;
use crate::rendezvous::mailbox::{InternalMailbox, MailboxModel};
use crate::rendezvous::transaction::ActiveViewState;
use crate::telemetry::record::{EventKind, EventRecord};
use crate::telemetry::ring::{EventRing, RingModel};
use crate::topology::CpuId;

verus! {

/// The active view as others may see it. The version is odd while it changes.
#[derive(Debug, Clone, Copy, PartialEq, Eq, Structural)]
pub struct ActiveViewReport {
    pub version: u64,
    pub state: ActiveViewState,
}

impl ActiveViewReport {
    pub open spec fn spec_new(state: ActiveViewState) -> Self {
        ActiveViewReport { version: 0, state }
    }

    #[verifier::when_used_as_spec(spec_new)]
    pub fn new(state: ActiveViewState) -> (report: Self)
        ensures
            report == Self::spec_new(state),
    {
        ActiveViewReport { version: 0, state }
    }

    /// The report of another view.
    pub open spec fn published(self, state: ActiveViewState) -> ActiveViewReport {
        ActiveViewReport {
            version: if self.version >= u64::MAX - 1 {
                (self.version - (u64::MAX - 1)) as u64
            } else {
                (self.version + 2) as u64
            },
            state,
        }
    }

    /// Reports another view.
    pub fn publish(&mut self, state: ActiveViewState)
        ensures
            *final(self) == old(self).published(state),
    {
        self.version = if self.version >= u64::MAX - 1 {
            self.version - (u64::MAX - 1)
        } else {
            self.version + 2
        };
        self.state = state;
    }

    /// What is reported, unless it is just changing.
    pub open spec fn snapped(self) -> MonadResult<ActiveViewState> {
        if self.version % 2 != 0 {
            Err(MonadError::new(ErrorPhase::Activation, ErrorCode::RendezvousBusy, 0))
        } else {
            Ok(
                ActiveViewState {
                    id: ViewId { reserved: 0, ..self.state.id },
                    eptp: self.state.eptp,
                },
            )
        }
    }

    /// Whether a view is the one that is reported.
    pub open spec fn reports(self, id: ViewId) -> bool {
        self.snapped() matches Ok(state) && state.id == id
    }

    /// What is reported, unless it is just changing.
    pub fn snapshot(&self) -> (result: MonadResult<ActiveViewState>)
        ensures
            result == self.snapped(),
    {
        if self.version % 2 != 0 {
            return Err(MonadError::new(ErrorPhase::Activation, ErrorCode::RendezvousBusy, 0));
        }
        Ok(
            ActiveViewState {
                id: ViewId {
                    slot: self.state.id.slot,
                    reserved: 0,
                    generation: self.state.id.generation,
                },
                eptp: self.state.eptp,
            },
        )
    }
}

/// What was reported last is what is read.
pub proof fn law_report_is_read(report: ActiveViewReport, state: ActiveViewState)
    requires
        report.version % 2 == 0,
        state.id.reserved == 0,
    ensures
        report.published(state).snapped() == Ok::<ActiveViewState, MonadError>(state),
        ActiveViewReport::spec_new(state).snapped() == Ok::<ActiveViewState, MonadError>(state),
{
}

/// One virtual processor.
pub struct Vcpu {
    pub cpu: CpuId,
    pub regs: GuestRegs,
    pub active_view: ActiveViewState,
    pub active_report: ActiveViewReport,
    pub mailbox: InternalMailbox,
    /// The epoch of the rendezvous that this processor takes part in.
    pub rendezvous_epoch: u64,
    /// How often the view was changed by the processor itself.
    pub view_epoch: u64,
    pub run_id: u64,
    pub events: Option<EventRing>,
    pub emergency_event: EventRecord,
    pub fault_tracker: EptFaultTracker,
    pub allowed_fault_views: u64,
    pub capabilities: IntelCapabilities,
    pub guest_xcr0: u64,
    /// How many variable memory type ranges there are.
    pub variable_mtrrs: u8,
    /// Whether the processor runs the guest.
    pub active: bool,
    pub launch_error: Option<MonadError>,
}

/// A virtual processor as contracts see it.
#[verifier::ext_equal]
pub struct VcpuModel {
    pub cpu: CpuId,
    pub regs: GuestRegs,
    pub active_view: ActiveViewState,
    pub active_report: ActiveViewReport,
    pub mailbox: MailboxModel,
    pub rendezvous_epoch: u64,
    pub view_epoch: u64,
    pub run_id: u64,
    pub events: Option<RingModel>,
    pub emergency_event: EventRecord,
    pub fault_tracker: EptFaultTracker,
    pub allowed_fault_views: u64,
    pub capabilities: IntelCapabilities,
    pub guest_xcr0: u64,
    pub variable_mtrrs: u8,
    pub active: bool,
    pub launch_error: Option<MonadError>,
}

impl VcpuModel {
    /// The ring, if there is one, is in order.
    pub open spec fn wf(self) -> bool {
        self.events matches Some(ring) ==> ring.in_step()
    }

    /// The event, with where it belongs.
    pub open spec fn stamped(self, event: EventRecord) -> EventRecord {
        event.spec_with_provenance(self.run_id, self.view_epoch, self.rendezvous_epoch)
    }

    /// The processor after it recorded an event.
    pub open spec fn recorded(self, event: EventRecord) -> VcpuModel {
        VcpuModel {
            events: match self.events {
                Some(ring) => Some(ring.recorded(event)),
                None => None,
            },
            ..self
        }
    }

    /// The event that says why the processor cannot go on.
    pub open spec fn last_word(self, context: ExitContext, reason: FatalReason) -> EventRecord {
        self.stamped(
            EventRecord::spec_from_exit(&context, EventKind::Fatal, 0, reason.spec_code(), 0),
        )
    }

    /// The processor after it found that it cannot go on.
    pub open spec fn fatal(self, context: ExitContext, reason: FatalReason) -> VcpuModel {
        let event = self.last_word(context, reason);
        VcpuModel { emergency_event: event, ..self.recorded(event) }
    }
}

impl Vcpu {
    /// The processor as contracts see it.
    pub open spec fn view(&self) -> VcpuModel {
        VcpuModel {
            cpu: self.cpu,
            regs: self.regs,
            active_view: self.active_view,
            active_report: self.active_report,
            mailbox: self.mailbox@,
            rendezvous_epoch: self.rendezvous_epoch,
            view_epoch: self.view_epoch,
            run_id: self.run_id,
            events: match self.events {
                Some(ring) => Some(ring@),
                None => None,
            },
            emergency_event: self.emergency_event,
            fault_tracker: self.fault_tracker,
            allowed_fault_views: self.allowed_fault_views,
            capabilities: self.capabilities,
            guest_xcr0: self.guest_xcr0,
            variable_mtrrs: self.variable_mtrrs,
            active: self.active,
            launch_error: self.launch_error,
        }
    }

    /// The event, with where it belongs.
    pub fn stamp_event(&self, event: EventRecord) -> (stamped: EventRecord)
        ensures
            stamped == self@.stamped(event),
    {
        event.with_provenance(self.run_id, self.view_epoch, self.rendezvous_epoch)
    }

    /// Records an event, where there is a ring for it.
    pub fn record(&mut self, event: EventRecord)
        requires
            old(self)@.wf(),
        ensures
            final(self)@.wf(),
            final(self)@ == old(self)@.recorded(event),
    {
        match self.events.take() {
            Some(mut ring) => {
                ring.record(event);
                self.events = Some(ring);
            },
            None => {
                self.events = None;
            },
        }
    }

    /// Records a step that no exit reports.
    pub fn record_transition(&mut self, kind: EventKind, status: u32, detail: u32, tsc: u64)
        requires
            old(self)@.wf(),
        ensures
            final(self)@.wf(),
            final(self)@ == old(self)@.recorded(
                old(self)@.stamped(
                    EventRecord::spec_from_transition(
                        old(self).cpu,
                        old(self).active_view.id,
                        tsc,
                        kind,
                        status,
                        detail,
                    ),
                ),
            ),
    {
        let event = EventRecord::from_transition(
            self.cpu,
            self.active_view.id,
            tsc,
            kind,
            status,
            detail,
        );
        let stamped = self.stamp_event(event);
        self.record(stamped);
    }

    /// Counts a change of the view, as long as it can be counted.
    pub fn commit_view_epoch(&mut self) -> (counted: bool)
        ensures
            counted == (old(self).view_epoch < u64::MAX),
            final(self)@ == (VcpuModel {
                view_epoch: if counted {
                    (old(self).view_epoch + 1) as u64
                } else {
                    old(self).view_epoch
                },
                ..old(self)@
            }),
    {
        if self.view_epoch == u64::MAX {
            return false;
        }
        self.view_epoch = self.view_epoch + 1;
        true
    }

    /// Leaves word of why the processor cannot go on.
    pub fn record_fatal(&mut self, context: &ExitContext, reason: FatalReason)
        requires
            old(self)@.wf(),
        ensures
            final(self)@.wf(),
            final(self)@ == old(self)@.fatal(*context, reason),
    {
        let event = self.stamp_event(
            EventRecord::from_exit(context, EventKind::Fatal, 0, reason.code(), 0),
        );
        self.emergency_event = event;
        self.record(event);
    }
}

} // verus!
