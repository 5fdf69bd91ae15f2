//! The running monitor: its processors, its views, and what a controller may
//! learn of them or change about them.

use vstd::prelude::*;

use super::setup;
use super::setup::{encode_capability_bits, PublicCapabilities};
use super::vcpu::{Vcpu, VcpuModel};
use crate::ept::manager;
use crate::ept::manager::{EptViewManager, ManagerModel};
use crate::ept::page::EptPageAllocator;
use crate::ept::address::GuestPhysicalAddress;
use crate::ept::walker::WalkResult;
use crate::ept::backing::BackingId;
use crate::ept::view::{DraftEdit, DraftId, ViewId, ViewMetadata, MAX_PUBLISHED_VIEWS};
use crate::error::{ErrorCode, ErrorPhase, MonadError, MonadResult};
use crate::lifecycle::{Lifecycle, LifecycleState};
use crate::rendezvous::mailbox;
use crate::rendezvous::mailbox::PublishedViewDirectory;
use crate::telemetry::record::EventRecord;
use crate::telemetry::ring;
use crate::telemetry::ring::RingSnapshot;
use crate::topology;
use crate::topology::CpuTopology;

verus! {

/// The running monitor.
pub struct Vmm<A: EptPageAllocator + Clone> {
    pub vcpus: Vec<Vcpu>,
    pub manager: EptViewManager<A>,
    pub topology: CpuTopology,
    pub epoch: u64,
    pub rendezvous_tsc_budget: u64,
    pub aperture_end: u64,
    pub published_views: PublishedViewDirectory,
}

impl<A: EptPageAllocator + Clone> Vmm<A> {
    /// Gives up the monitor: all its pages go back to their sources. What is
    /// left of its views is of no further use.
    pub fn release(self) -> (manager: EptViewManager<A>)
        ensures
            self.manager.given_back(&manager),
    {
        let mut manager = self.manager;
        manager.release();
        manager
    }
}

/// The processors as contracts see them.
pub open spec fn models(vcpus: Seq<Vcpu>) -> Seq<VcpuModel> {
    vcpus.map_values(|vcpu: Vcpu| vcpu@)
}

/// What the controller is told of a processor.
#[derive(Debug, Clone, Copy, PartialEq, Eq, Structural)]
pub struct PublicVcpuState {
    pub cpu_dense_index: u16,
    pub active: bool,
    pub active_view: ViewId,
    pub last_epoch: u64,
    pub last_fatal: u32,
    pub last_mailbox: u32,
    pub event_sequence: u64,
}

/// What the controller is told of a view.
#[derive(Debug, Clone, Copy, PartialEq, Eq)]
pub struct PublicViewState {
    pub id: ViewId,
    pub metadata: ViewMetadata,
    pub active_cpu_set: [u64; 4],
}

impl Default for PublicViewState {
    fn default() -> (state: Self)
        ensures
            state.id == (ViewId { slot: 0, reserved: 0, generation: 0 }),
            state.active_cpu_set@ =~= seq![0u64, 0u64, 0u64, 0u64],
            state.metadata == (ViewMetadata {
                source: ViewId { slot: 0, reserved: 0, generation: 0 },
                edit_count: 0,
                table_pages: 0,
                leaf_1g: 0,
                leaf_2m: 0,
                leaf_4k: 0,
                backing_pages: 0,
                readable_pages: 0,
                writable_pages: 0,
                executable_pages: 0,
            }),
    {
        let id = ViewId { slot: 0, reserved: 0, generation: 0 };
        PublicViewState {
            id,
            metadata: ViewMetadata {
                source: id,
                edit_count: 0,
                table_pages: 0,
                leaf_1g: 0,
                leaf_2m: 0,
                leaf_4k: 0,
                backing_pages: 0,
                readable_pages: 0,
                writable_pages: 0,
                executable_pages: 0,
            },
            active_cpu_set: [0;4],
        }
    }
}

/// Why a request that needs the running monitor is refused.
pub open spec fn running_fault(state: LifecycleState, present: bool) -> Option<MonadError> {
    if state !is Running {
        Some(
            MonadError::new(
                ErrorPhase::Session,
                ErrorCode::InvalidLifecycleState,
                state.spec_code() as u64,
            ),
        )
    } else if !present {
        Some(MonadError::new(ErrorPhase::Session, ErrorCode::WrongObjectState, 0))
    } else {
        None
    }
}

/// Whether a request that needs the running monitor may go on.
pub fn require_running(state: LifecycleState, present: bool) -> (result: MonadResult<()>)
    ensures
        result == match running_fault(state, present) {
            Some(error) => Err::<(), MonadError>(error),
            None => Ok(()),
        },
{
    if state != LifecycleState::Running {
        return Err(
            MonadError::new(
                ErrorPhase::Session,
                ErrorCode::InvalidLifecycleState,
                state.code() as u64,
            ),
        );
    }
    if !present {
        return Err(MonadError::new(ErrorPhase::Session, ErrorCode::WrongObjectState, 0));
    }
    Ok(())
}

/// A processor that there is not.
pub open spec fn spec_no_such_cpu(cpu_dense_index: u16) -> MonadError {
    MonadError::new(ErrorPhase::Telemetry, ErrorCode::InvalidCpuSet, cpu_dense_index as u64)
}

/// The error for a processor that there is not.
#[verifier::when_used_as_spec(spec_no_such_cpu)]
pub fn no_such_cpu(cpu_dense_index: u16) -> (error: MonadError)
    ensures
        error == spec_no_such_cpu(cpu_dense_index),
{
    MonadError::new(ErrorPhase::Telemetry, ErrorCode::InvalidCpuSet, cpu_dense_index as u64)
}

/// The directory names the publications, and nothing else.
pub open spec fn entered(slots: Seq<(u64, u64)>, manager: ManagerModel) -> bool {
    &&& slots.len() == MAX_PUBLISHED_VIEWS
    &&& forall|k: int|
        0 <= k < MAX_PUBLISHED_VIEWS ==> #[trigger] slots[k] == match manager.published[k] {
            Some(view) => (view.id.generation, view.model.eptp()),
            None => (0u64, 0u64),
        }
}

impl<A: EptPageAllocator + Clone> Vmm<A> {
    /// What holds of every monitor.
    pub open spec fn wf(&self) -> bool {
        &&& self.manager.wf()
        &&& self.vcpus@.len() == self.topology.view().len()
        &&& entered(self.published_views@, self.manager.model())
        &&& forall|k: int|
            0 <= k < self.vcpus@.len() ==> (#[trigger] models(self.vcpus@)[k]).wf()
    }

    /// The processor with a name, if it is one of the monitor's.
    pub fn current_vcpu(&self, group: u16, number: u8) -> (found: Option<usize>)
        ensures
            match found {
                Some(k) => {
                    &&& k < self.vcpus@.len()
                    &&& self.vcpus@[k as int].cpu.group == group
                    &&& self.vcpus@[k as int].cpu.number == number
                    &&& forall|j: int|
                        0 <= j < k ==> (#[trigger] self.vcpus@[j]).cpu.group != group
                            || self.vcpus@[j].cpu.number != number
                },
                None => forall|j: int|
                    0 <= j < self.vcpus@.len() ==> (#[trigger] self.vcpus@[j]).cpu.group != group
                        || self.vcpus@[j].cpu.number != number,
            },
    {
        let mut index: usize = 0;
        while index < self.vcpus.len()
            invariant
                index <= self.vcpus@.len(),
                forall|j: int|
                    0 <= j < index ==> (#[trigger] self.vcpus@[j]).cpu.group != group
                        || self.vcpus@[j].cpu.number != number,
            decreases self.vcpus@.len() - index,
        {
            if self.vcpus[index].cpu.group == group && self.vcpus[index].cpu.number == number {
                return Some(index);
            }
            index = index + 1;
        }
        None
    }

    /// Whether some processor still runs the guest.
    pub open spec fn some_active(&self) -> bool {
        exists|k: int| 0 <= k < self.vcpus@.len() && (#[trigger] self.vcpus@[k]).active
    }

    pub fn any_active(&self) -> (active: bool)
        ensures
            active == self.some_active(),
    {
        let mut index: usize = 0;
        while index < self.vcpus.len()
            invariant
                index <= self.vcpus@.len(),
                forall|j: int| 0 <= j < index ==> !(#[trigger] self.vcpus@[j]).active,
            decreases self.vcpus@.len() - index,
        {
            if self.vcpus[index].active {
                return true;
            }
            index = index + 1;
        }
        false
    }
}

/// The hypervisor of this machine: where it is in its life, and the monitor,
/// while there is one.
pub struct Monitor<A: EptPageAllocator + Clone> {
    pub lifecycle: Lifecycle,
    pub vmm: Option<Vmm<A>>,
}

impl<A: EptPageAllocator + Clone> Monitor<A> {
    /// What holds of every hypervisor.
    pub open spec fn wf(&self) -> bool {
        self.vmm matches Some(vmm) ==> vmm.wf()
    }

    /// Why a request that needs the running monitor is refused, if it is.
    pub open spec fn refusal(&self) -> Option<MonadError> {
        running_fault(self.lifecycle.spec_state(), self.vmm is Some)
    }

    pub fn new() -> (monitor: Self)
        ensures
            monitor.wf(),
            monitor.vmm is None,
            monitor.lifecycle.spec_state() == LifecycleState::Absent,
            !monitor.lifecycle.spec_controlled(),
    {
        Monitor { lifecycle: Lifecycle::new(), vmm: None }
    }

    pub fn lifecycle_state(&self) -> (state: LifecycleState)
        ensures
            state == self.lifecycle.spec_state(),
    {
        self.lifecycle.state()
    }

    /// The running monitor, to look at.
    pub fn running(&self) -> (result: MonadResult<&Vmm<A>>)
        ensures
            match self.refusal() {
                Some(error) => result == Err::<&Vmm<A>, MonadError>(error),
                None => result matches Ok(vmm) && Some(*vmm) == self.vmm,
            },
    {
        require_running(self.lifecycle.state(), self.vmm.is_some())?;
        match &self.vmm {
            Some(vmm) => Ok(vmm),
            None => Err(MonadError::new(ErrorPhase::Session, ErrorCode::WrongObjectState, 0)),
        }
    }

    /// The running monitor, to change.
    pub fn running_mut(&mut self) -> (result: MonadResult<&mut Vmm<A>>)
        ensures
            final(self).lifecycle == old(self).lifecycle,
            match old(self).refusal() {
                Some(error) => {
                    &&& result is Err
                    &&& result->Err_0 == error
                    &&& final(self).vmm == old(self).vmm
                },
                None => {
                    &&& result is Ok
                    &&& *result->Ok_0 == old(self).vmm.unwrap()
                    &&& final(self).vmm == Some(*final(result->Ok_0))
                },
            },
    {
        require_running(self.lifecycle.state(), self.vmm.is_some())?;
        match &mut self.vmm {
            Some(vmm) => Ok(vmm),
            None => Err(MonadError::new(ErrorPhase::Session, ErrorCode::WrongObjectState, 0)),
        }
    }
}

/// The pointer to a root table is never zero: it says how deep the walk is.
pub proof fn lemma_eptp(root: u64)
    ensures
        6u64 | (3u64 << 3) | ((root >> 12) << 12) != 0,
{
    crate::bits::lemma_word(root);
}

/// What a controller is told of a processor.
pub open spec fn told(vcpu: VcpuModel, index: u16, event_sequence: u64) -> MonadResult<
    PublicVcpuState,
> {
    match vcpu.active_report.snapped() {
        Err(error) => Err(error),
        Ok(view) => Ok(
            PublicVcpuState {
                cpu_dense_index: index,
                active: vcpu.active,
                active_view: view.id,
                last_epoch: vcpu.rendezvous_epoch,
                last_fatal: vcpu.emergency_event.status,
                last_mailbox: vcpu.mailbox.status.spec_code(),
                event_sequence,
            },
        ),
    }
}

/// What reading the events of a processor comes to.
pub open spec fn events_read(
    before: VcpuModel,
    after: VcpuModel,
    index: u16,
    after_sequence: u64,
    room: Seq<EventRecord>,
    filled: Seq<EventRecord>,
    result: MonadResult<RingSnapshot>,
) -> bool {
    match before.events {
        None => {
            &&& result == Err::<RingSnapshot, MonadError>(
                MonadError::new(ErrorPhase::Telemetry, ErrorCode::WrongObjectState, index as u64),
            )
            &&& after == before
            &&& filled == room
        },
        Some(ring) => if after_sequence != 0 && after_sequence != ring.reader_sequence {
            &&& result == Err::<RingSnapshot, MonadError>(
                MonadError::new(ErrorPhase::Telemetry, ErrorCode::StaleHandle, after_sequence),
            )
            &&& after == before
            &&& filled == room
        } else {
            let count = ring.readable(room.len() as int);
            &&& result == Ok::<RingSnapshot, MonadError>(
                RingSnapshot {
                    count: count as usize,
                    next_sequence: ring.read_sequence(room.len() as int),
                    dropped: ring.dropped,
                },
            )
            &&& after == (VcpuModel { events: Some(ring.read(room.len() as int)), ..before })
            &&& filled.len() == room.len()
            &&& forall|k: int|
                0 <= k < room.len() ==> #[trigger] filled[k] == if k < count {
                    ring.record_at(ring.cursor() + k)
                } else {
                    room[k]
                }
        },
    }
}

impl Vcpu {
    /// Hands out the events that the reader has not seen.
    fn read_events(&mut self, index: u16, after_sequence: u64, output: &mut [EventRecord]) -> (result:
        MonadResult<RingSnapshot>)
        requires
            old(self)@.wf(),
        ensures
            final(self)@.wf(),
            events_read(
                old(self)@,
                final(self)@,
                index,
                after_sequence,
                old(output)@,
                final(output)@,
                result,
            ),
    {
        match self.events.take() {
            Some(mut ring) => {
                let result = ring.snapshot_from(after_sequence, output);
                self.events = Some(ring);
                result
            },
            None => {
                self.events = None;
                Err(
                    MonadError::new(
                        ErrorPhase::Telemetry,
                        ErrorCode::WrongObjectState,
                        index as u64,
                    ),
                )
            },
        }
    }
}

impl<A: EptPageAllocator + Clone> Vmm<A> {
    /// What a change of one processor leaves alone.
    pub open spec fn differs_in_vcpu(&self, after: &Self, index: int) -> bool {
        &&& models(after.vcpus@) == models(self.vcpus@).update(index, after.vcpus@[index]@)
        &&& after.manager == self.manager
        &&& after.topology == self.topology
        &&& after.epoch == self.epoch
        &&& after.rendezvous_tsc_budget == self.rendezvous_tsc_budget
        &&& after.aperture_end == self.aperture_end
        &&& after.published_views == self.published_views
    }
}

/// What reading the events of a processor comes to.
pub open spec fn events_taken<A: EptPageAllocator + Clone>(
    before: Monitor<A>,
    after: Monitor<A>,
    cpu_dense_index: u16,
    after_sequence: u64,
    room: Seq<EventRecord>,
    filled: Seq<EventRecord>,
    result: MonadResult<RingSnapshot>,
) -> bool {
    &&& after.lifecycle == before.lifecycle
    &&& if before.has_cpu(cpu_dense_index) {
        let index = cpu_dense_index as int;
        &&& after.vmm is Some
        &&& before.vmm.unwrap().differs_in_vcpu(&after.vmm.unwrap(), index)
        &&& events_read(
            before.vmm.unwrap().vcpus@[index]@,
            after.vmm.unwrap().vcpus@[index]@,
            cpu_dense_index,
            after_sequence,
            room,
            filled,
            result,
        )
    } else {
        &&& result == Err::<RingSnapshot, MonadError>(no_such_cpu(cpu_dense_index))
        &&& after.vmm == before.vmm
        &&& filled == room
    }
}

impl<A: EptPageAllocator + Clone> Monitor<A> {
    /// Whether there is a processor at a place.
    pub open spec fn has_cpu(&self, cpu_dense_index: u16) -> bool {
        self.vmm matches Some(vmm) && (cpu_dense_index as int) < vmm.vcpus@.len()
    }

    /// Hands out the events of a processor that the reader has not seen.
    pub fn read_events(
        &mut self,
        cpu_dense_index: u16,
        after_sequence: u64,
        output: &mut [EventRecord],
    ) -> (result: MonadResult<RingSnapshot>)
        requires
            old(self).wf(),
        ensures
            final(self).wf(),
            events_taken(
                *old(self),
                *final(self),
                cpu_dense_index,
                after_sequence,
                old(output)@,
                final(output)@,
                result,
            ),
    {
        let index: usize = cpu_dense_index as usize;
        match &mut self.vmm {
            Some(vmm) => {
                if index >= vmm.vcpus.len() {
                    return Err(no_such_cpu(cpu_dense_index));
                }
                let ghost before = models(vmm.vcpus@);
                assert(before[index as int].wf());
                let result = vmm.vcpus[index].read_events(cpu_dense_index, after_sequence, output);
                proof {
                    assert(models(vmm.vcpus@) =~= before.update(
                        index as int,
                        vmm.vcpus@[index as int]@,
                    ));
                }
                result
            },
            None => Err(no_such_cpu(cpu_dense_index)),
        }
    }

    /// What a controller may know of a processor.
    pub open spec fn state_told(
        &self,
        cpu_dense_index: u16,
        result: MonadResult<PublicVcpuState>,
    ) -> bool {
        if self.has_cpu(cpu_dense_index) {
            let vcpu = self.vmm.unwrap().vcpus@[cpu_dense_index as int]@;
            exists|sequence: u64|
                {
                    &&& result == #[trigger] told(vcpu, cpu_dense_index, sequence)
                    &&& match vcpu.events {
                        Some(events) => ring::next(sequence) == events.next_sequence,
                        None => sequence == 0,
                    }
                }
        } else {
            result == Err::<PublicVcpuState, MonadError>(no_such_cpu(cpu_dense_index))
        }
    }

    /// What a controller may know of a processor.
    pub fn vcpu_state(&self, cpu_dense_index: u16) -> (result: MonadResult<PublicVcpuState>)
        ensures
            self.state_told(cpu_dense_index, result),
    {
        match &self.vmm {
            Some(vmm) => {
                if cpu_dense_index as usize >= vmm.vcpus.len() {
                    return Err(no_such_cpu(cpu_dense_index));
                }
                let vcpu = &vmm.vcpus[cpu_dense_index as usize];
                let event_sequence: u64 = match &vcpu.events {
                    Some(ring) => ring.latest_sequence(),
                    None => 0,
                };
                let result = match vcpu.active_report.snapshot() {
                    Ok(view) => Ok(
                        PublicVcpuState {
                            cpu_dense_index,
                            active: vcpu.active,
                            active_view: view.id,
                            last_epoch: vcpu.rendezvous_epoch,
                            last_fatal: vcpu.emergency_event.status,
                            last_mailbox: vcpu.mailbox.status(),
                            event_sequence,
                        },
                    ),
                    Err(error) => Err(error),
                };
                assert(result == told(vcpu@, cpu_dense_index, event_sequence));
                result
            },
            None => Err(no_such_cpu(cpu_dense_index)),
        }
    }

    /// Where a guest page of a publication leads.
    pub open spec fn view_walked(&self, id: ViewId, gpa: GuestPhysicalAddress) -> MonadResult<
        WalkResult,
    > {
        match self.refusal() {
            Some(error) => Err(error),
            None => {
                let model = self.vmm.unwrap().manager.model();
                match model.find_published(id) {
                    Ok(k) => Ok(model.view_at(k).model.walk(gpa)),
                    Err(error) => Err(error),
                }
            },
        }
    }

    /// Walks a guest page of a publication.
    pub fn query_view(&self, id: ViewId, gpa: GuestPhysicalAddress) -> (result: MonadResult<
        WalkResult,
    >)
        requires
            self.wf(),
        ensures
            result == self.view_walked(id, gpa),
    {
        self.running()?.manager.walk(id, gpa)
    }

    /// Where a guest page of a draft leads.
    pub open spec fn draft_walked(&self, id: DraftId, gpa: GuestPhysicalAddress) -> MonadResult<
        WalkResult,
    > {
        match self.refusal() {
            Some(error) => Err(error),
            None => {
                let model = self.vmm.unwrap().manager.model();
                match model.find_draft(id) {
                    Ok(k) => Ok(model.draft_at(k).model.walk(gpa)),
                    Err(error) => Err(error),
                }
            },
        }
    }

    /// Walks a guest page of a draft.
    pub fn query_draft(&self, id: DraftId, gpa: GuestPhysicalAddress) -> (result: MonadResult<
        WalkResult,
    >)
        requires
            self.wf(),
        ensures
            result == self.draft_walked(id, gpa),
    {
        self.running()?.manager.walk_draft(id, gpa)
    }

    /// Where the memory that the views map ends.
    pub fn aperture_end(&self) -> (result: MonadResult<u64>)
        requires
            self.wf(),
        ensures
            result == match self.refusal() {
                Some(error) => Err::<u64, MonadError>(error),
                None => Ok(self.vmm.unwrap().manager.model().view_at(0).model.aperture_end),
            },
    {
        self.running()?.manager.aperture_end()
    }

    /// What the processors can do; while there is no monitor, what looking at
    /// the platform came to.
    pub fn current_capabilities(&self, inspected: MonadResult<PublicCapabilities>) -> (result:
        MonadResult<PublicCapabilities>)
        requires
            self.wf(),
        ensures
            result == self.spec_capabilities(inspected),
    {
        match &self.vmm {
            None => inspected,
            Some(vmm) => {
                let count: u16 = vmm.topology.len();
                let first = &vmm.vcpus[0];
                Ok(
                    PublicCapabilities {
                        capability_bits: encode_capability_bits(&first.capabilities),
                        aperture_end: vmm.aperture_end,
                        max_physical_address_bits: first.capabilities.max_physical_address_bits,
                        hypervisor_present: false,
                        cpu_count: count,
                    },
                )
            },
        }
    }

    /// What the processors can do.
    pub open spec fn spec_capabilities(&self, inspected: MonadResult<PublicCapabilities>)
        -> MonadResult<PublicCapabilities> {
        match self.vmm {
            None => inspected,
            Some(vmm) => Ok(
                PublicCapabilities {
                    capability_bits: setup::spec_capability_bits(&vmm.vcpus@[0].capabilities),
                    aperture_end: vmm.aperture_end,
                    max_physical_address_bits: vmm.vcpus@[0].capabilities.max_physical_address_bits,
                    hypervisor_present: false,
                    cpu_count: vmm.vcpus@.len() as u16,
                },
            ),
        }
    }
}

/// What a change of the manager leaves alone.
pub open spec fn same_but_manager<A: EptPageAllocator + Clone>(before: Vmm<A>, after: Vmm<A>) -> bool {
    &&& after.vcpus == before.vcpus
    &&& after.topology == before.topology
    &&& after.epoch == before.epoch
    &&& after.rendezvous_tsc_budget == before.rendezvous_tsc_budget
    &&& after.aperture_end == before.aperture_end
}

/// Nothing has changed.
pub open spec fn untouched<A: EptPageAllocator + Clone>(before: Monitor<A>, after: Monitor<A>) -> bool {
    &&& after.lifecycle == before.lifecycle
    &&& after.vmm == before.vmm
}

/// Nothing but drafts and backings has changed.
pub open spec fn manager_changed<A: EptPageAllocator + Clone>(
    before: Monitor<A>,
    after: Monitor<A>,
) -> bool {
    &&& after.lifecycle == before.lifecycle
    &&& after.vmm is Some
    &&& same_but_manager(before.vmm.unwrap(), after.vmm.unwrap())
    &&& after.vmm.unwrap().published_views == before.vmm.unwrap().published_views
}

/// What allocating a backing comes to.
pub open spec fn backing_allocated<A: EptPageAllocator + Clone>(
    before: Monitor<A>,
    after: Monitor<A>,
    page_count: u32,
    immutable: bool,
    result: MonadResult<BackingId>,
) -> bool {
    match before.refusal() {
        Some(error) => untouched(before, after) && result == Err::<BackingId, MonadError>(error),
        None => manager_changed(before, after) && manager::allocate_effect::<A>(
            before.vmm.unwrap().manager.model(),
            after.vmm.unwrap().manager.model(),
            page_count,
            immutable,
            result,
        ),
    }
}

/// What writing to a backing comes to.
pub open spec fn backing_written<A: EptPageAllocator + Clone>(
    before: Monitor<A>,
    after: Monitor<A>,
    id: BackingId,
    offset: usize,
    data: Seq<u8>,
    result: MonadResult<()>,
) -> bool {
    match before.refusal() {
        Some(error) => untouched(before, after) && result == Err::<(), MonadError>(error),
        None => manager_changed(before, after) && manager::write_effect(
            before.vmm.unwrap().manager.model(),
            after.vmm.unwrap().manager.model(),
            id,
            offset,
            data,
            result,
        ),
    }
}

/// What freeing a backing comes to.
pub open spec fn backing_freed<A: EptPageAllocator + Clone>(
    before: Monitor<A>,
    after: Monitor<A>,
    id: BackingId,
    result: MonadResult<()>,
) -> bool {
    match before.refusal() {
        Some(error) => untouched(before, after) && result == Err::<(), MonadError>(error),
        None => manager_changed(before, after) && manager::free_effect(
            before.vmm.unwrap().manager.model(),
            after.vmm.unwrap().manager.model(),
            id,
            result,
        ),
    }
}

/// What registering a target comes to.
pub open spec fn target_registered<A: EptPageAllocator + Clone>(
    before: Monitor<A>,
    after: Monitor<A>,
    backing: BackingId,
    page_index: u32,
    result: MonadResult<GuestPhysicalAddress>,
) -> bool {
    match before.refusal() {
        Some(error) => untouched(before, after) && result == Err::<
            GuestPhysicalAddress,
            MonadError,
        >(error),
        None => manager_changed(before, after) && manager::register_effect(
            before.vmm.unwrap().manager.model(),
            after.vmm.unwrap().manager.model(),
            backing,
            page_index,
            result,
        ),
    }
}

/// What cloning a publication into a draft comes to.
pub open spec fn draft_created<A: EptPageAllocator + Clone>(
    before: Monitor<A>,
    after: Monitor<A>,
    source: ViewId,
    result: MonadResult<DraftId>,
) -> bool {
    match before.refusal() {
        Some(error) => untouched(before, after) && result == Err::<DraftId, MonadError>(error),
        None => manager_changed(before, after) && manager::create_effect::<A>(
            before.vmm.unwrap().manager.model(),
            after.vmm.unwrap().manager.model(),
            source,
            result,
        ),
    }
}

/// What dropping a draft comes to.
pub open spec fn draft_discarded<A: EptPageAllocator + Clone>(
    before: Monitor<A>,
    after: Monitor<A>,
    id: DraftId,
    result: MonadResult<()>,
) -> bool {
    match before.refusal() {
        Some(error) => untouched(before, after) && result == Err::<(), MonadError>(error),
        None => manager_changed(before, after) && manager::discard_effect(
            before.vmm.unwrap().manager.model(),
            after.vmm.unwrap().manager.model(),
            id,
            result,
        ),
    }
}

/// What applying edits to a draft comes to.
pub open spec fn batch_applied<A: EptPageAllocator + Clone>(
    before: Monitor<A>,
    after: Monitor<A>,
    id: DraftId,
    edits: Seq<DraftEdit>,
    result: MonadResult<()>,
) -> bool {
    match before.refusal() {
        Some(error) => untouched(before, after) && result == Err::<(), MonadError>(error),
        None => manager_changed(before, after) && manager::batch_effect::<A>(
            before.vmm.unwrap().manager.model(),
            after.vmm.unwrap().manager.model(),
            id,
            edits,
            result,
        ),
    }
}

/// What publishing a draft comes to.
pub open spec fn view_published<A: EptPageAllocator + Clone>(
    before: Monitor<A>,
    after: Monitor<A>,
    id: DraftId,
    result: MonadResult<ViewId>,
) -> bool {
    match before.refusal() {
        Some(error) => untouched(before, after) && result == Err::<ViewId, MonadError>(error),
        None => {
            let vmm = before.vmm.unwrap();
            let vmm_after = after.vmm.unwrap();
            &&& after.lifecycle == before.lifecycle
            &&& after.vmm is Some
            &&& same_but_manager(vmm, vmm_after)
            &&& manager::publish_effect(
                vmm.manager.model(),
                vmm_after.manager.model(),
                id,
                result,
            )
            &&& match result {
                Ok(view) => {
                    let eptp = vmm_after.manager.model().view_at(view.slot as int).model.eptp();
                    &&& vmm_after.published_views@ == vmm.published_views@.update(
                        view.slot as int,
                        (view.generation, eptp),
                    )
                    &&& vmm_after.published_views.resolved(view) == Some(eptp)
                },
                Err(_) => vmm_after.published_views == vmm.published_views,
            }
        },
    }
}

/// Publishing a draft keeps the directory right, once the publication is
/// entered.
proof fn lemma_published_is_entered(
    slots: Seq<(u64, u64)>,
    before: ManagerModel,
    k: int,
    after: ManagerModel,
    view_id: ViewId,
)
    requires
        before.wf(),
        after.wf(),
        before.next_publish_slot < MAX_PUBLISHED_VIEWS,
        entered(slots, before),
        manager::publishes(before, k, after, view_id),
    ensures
        after.find_published(view_id) == Ok::<int, MonadError>(before.next_publish_slot as int),
        mailbox::directory_fault(
            slots,
            view_id,
            after.view_at(before.next_publish_slot as int).model.eptp(),
        ) is None,
        entered(
            slots.update(
                view_id.slot as int,
                (
                    view_id.generation,
                    after.view_at(before.next_publish_slot as int).model.eptp(),
                ),
            ),
            after,
        ),
{
    let p = before.next_publish_slot as int;
    lemma_eptp(after.view_at(p).model.hierarchy.root);
    assert(before.published[p] is None);
    assert(after.published[p] is Some) by {
        assert(after.published[p] == Some(after.view_at(p)));
    }
    let next = slots.update(p, (view_id.generation, after.view_at(p).model.eptp()));
    assert forall|j: int| 0 <= j < MAX_PUBLISHED_VIEWS implies #[trigger] next[j] == match after.published[j] {
        Some(view) => (view.id.generation, view.model.eptp()),
        None => (0u64, 0u64),
    } by {
        if j != p {
            assert(after.published[j] == before.published[j]);
            assert(slots[j] == next[j]);
        }
    }
}

impl<A: EptPageAllocator + Clone> Monitor<A> {
    /// Allocates pages that the controller owns.
    pub fn allocate_backing(&mut self, page_count: u32, immutable: bool) -> (result: MonadResult<BackingId>)
        requires
            old(self).wf(),
        ensures
            final(self).wf(),
            backing_allocated(*old(self), *final(self), page_count, immutable, result),
    {
        let vmm = self.running_mut()?;
        vmm.manager.allocate_backing(page_count, immutable)
    }

    /// Writes to pages that may still be written.
    pub fn write_backing(&mut self, id: BackingId, offset: usize, data: &[u8]) -> (result: MonadResult<()>)
        requires
            old(self).wf(),
        ensures
            final(self).wf(),
            backing_written(*old(self), *final(self), id, offset, data@, result),
    {
        let vmm = self.running_mut()?;
        vmm.manager.write_backing(id, offset, data)
    }

    /// Frees pages that no view maps.
    pub fn free_backing(&mut self, id: BackingId) -> (result: MonadResult<()>)
        requires
            old(self).wf(),
        ensures
            final(self).wf(),
            backing_freed(*old(self), *final(self), id, result),
    {
        let vmm = self.running_mut()?;
        vmm.manager.free_backing(id)
    }

    /// Registers a backing page as a target that edits may touch. A monitor
    /// starts without targets, and its drafts take edits of targets only.
    pub fn register_target(&mut self, backing: BackingId, page_index: u32) -> (result: MonadResult<
        GuestPhysicalAddress,
    >)
        requires
            old(self).wf(),
        ensures
            final(self).wf(),
            target_registered(*old(self), *final(self), backing, page_index, result),
    {
        let vmm = self.running_mut()?;
        vmm.manager.register_target(backing, page_index)
    }

    /// Clones a publication into a draft.
    pub fn create_draft(&mut self, source: ViewId) -> (result: MonadResult<DraftId>)
        requires
            old(self).wf(),
        ensures
            final(self).wf(),
            draft_created(*old(self), *final(self), source, result),
    {
        let vmm = self.running_mut()?;
        let ghost before = vmm.manager.model();
        proof {
            vmm.manager.lemma_wf();
        }
        let result = vmm.manager.create_draft(source);
        proof {
            manager::lemma_create_publishes_nothing::<A>(
                before,
                vmm.manager.model(),
                source,
                result,
            );
        }
        result
    }

    /// Drops a draft.
    pub fn discard_draft(&mut self, id: DraftId) -> (result: MonadResult<()>)
        requires
            old(self).wf(),
        ensures
            final(self).wf(),
            draft_discarded(*old(self), *final(self), id, result),
    {
        let vmm = self.running_mut()?;
        vmm.manager.discard_draft(id)
    }

    /// Applies all edits to a draft, or none.
    pub fn apply_edit_batch(&mut self, id: DraftId, edits: &[DraftEdit]) -> (result: MonadResult<()>)
        requires
            old(self).wf(),
        ensures
            final(self).wf(),
            batch_applied(*old(self), *final(self), id, edits@, result),
    {
        let vmm = self.running_mut()?;
        vmm.manager.apply_batch(id, edits)
    }

    /// Checks a draft, publishes it, and enters it in the directory.
    pub fn publish_view(&mut self, id: DraftId) -> (result: MonadResult<ViewId>)
        requires
            old(self).wf(),
        ensures
            final(self).wf(),
            view_published(*old(self), *final(self), id, result),
    {
        let vmm = self.running_mut()?;
        let ghost before = vmm.manager.model();
        proof {
            vmm.manager.lemma_wf();
        }
        let view = vmm.manager.publish_draft(id)?;
        proof {
            vmm.manager.lemma_wf();
            let k = before.find_draft(id)->Ok_0;
            lemma_published_is_entered(
                vmm.published_views@,
                before,
                k,
                vmm.manager.model(),
                view,
            );
        }
        let eptp: u64 = vmm.manager.published_eptp(view)?;
        if let Err(status) = vmm.published_views.publish(view, eptp) {
            return Err(
                MonadError::new(
                    ErrorPhase::Publish,
                    ErrorCode::EptVerificationFailure,
                    status.code() as u64,
                ),
            );
        }
        Ok(view)
    }
}

/// Whether the set of processors of a view is right for the first processors.
pub open spec fn runs_on(state: PublicViewState, vcpus: Seq<Vcpu>, count: int) -> bool {
    forall|cpu: u16|
        cpu < 256 ==> (#[trigger] topology::in_mask(
            state.active_cpu_set@[cpu as int / 64],
            (cpu % 64) as u8,
        ) <==> cpu < count && vcpus[cpu as int].active_report.reports(state.id))
}

/// Adds a processor to the set of a view.
fn add_cpu(state: &mut PublicViewState, cpu: u16)
    requires
        cpu < 256,
    ensures
        final(state).id == old(state).id,
        final(state).metadata == old(state).metadata,
        forall|other: u16|
            other < 256 ==> (#[trigger] topology::in_mask(
                final(state).active_cpu_set@[other as int / 64],
                (other % 64) as u8,
            ) <==> other == cpu || topology::in_mask(
                old(state).active_cpu_set@[other as int / 64],
                (other % 64) as u8,
            )),
{
    let word: usize = (cpu / 64) as usize;
    let bit: u64 = (cpu % 64) as u64;
    let ghost before = state.active_cpu_set@;
    let mask: u64 = state.active_cpu_set[word];
    state.active_cpu_set[word] = mask | (1u64 << bit);
    proof {
        assert forall|other: u16| other < 256 implies (#[trigger] topology::in_mask(
            state.active_cpu_set@[other as int / 64],
            (other % 64) as u8,
        ) <==> other == cpu || topology::in_mask(before[other as int / 64], (other % 64) as u8)) by {
            topology::lemma_in_mask(mask, bit as u8, (other % 64) as u8);
        }
    }
}

/// The publications as the controller is told of them.
pub open spec fn listed<A: EptPageAllocator + Clone>(
    vmm: Vmm<A>,
    room: Seq<PublicViewState>,
    filled: Seq<PublicViewState>,
    copied: int,
) -> bool {
    let manager = vmm.manager.model();
    &&& copied == if (manager.next_publish_slot as int) < room.len() {
        manager.next_publish_slot as int
    } else {
        room.len() as int
    }
    &&& filled.len() == room.len()
    &&& forall|k: int|
        0 <= k < copied ==> {
            &&& (#[trigger] filled[k]).id == manager.view_at(k).id
            &&& filled[k].metadata == manager.view_at(k).metadata
            &&& runs_on(filled[k], vmm.vcpus@, vmm.vcpus@.len() as int)
        }
    &&& forall|k: int| copied <= k < room.len() ==> #[trigger] filled[k] == room[k]
}

impl<A: EptPageAllocator + Clone> Vmm<A> {
    /// The name and the figures of each publication, without processors.
    fn describe_views(&self, output: &mut [PublicViewState]) -> (result: MonadResult<usize>)
        requires
            self.wf(),
        ensures
            final(output)@.len() == old(output)@.len(),
            result matches Ok(copied) && {
                let manager = self.manager.model();
                &&& copied == if (manager.next_publish_slot as int) < old(output)@.len() {
                    manager.next_publish_slot as int
                } else {
                    old(output)@.len() as int
                }
                &&& forall|k: int|
                    0 <= k < copied ==> {
                        &&& (#[trigger] final(output)@[k]).id == manager.view_at(k).id
                        &&& final(output)@[k].metadata == manager.view_at(k).metadata
                        &&& runs_on(final(output)@[k], self.vcpus@, 0)
                    }
                &&& forall|k: int|
                    copied <= k < final(output)@.len() ==> #[trigger] final(output)@[k] == old(
                        output,
                    )@[k]
            },
    {
        proof {
            self.manager.lemma_wf();
        }
        let blank = ViewId { slot: 0, reserved: 0, generation: 0 };
        let mut ids: [ViewId; 8] = [blank;8];
        let count: usize = self.manager.published_ids(&mut ids);
        let copied: usize = if count < output.len() {
            count
        } else {
            output.len()
        };
        let mut index: usize = 0;
        while index < copied
            invariant
                self.wf(),
                self.manager.model().wf(),
                index <= copied <= output@.len(),
                copied <= self.manager.model().next_publish_slot,
                copied <= ids@.len(),
                output@.len() == old(output)@.len(),
                forall|k: int|
                    0 <= k < copied ==> #[trigger] ids@[k] == self.manager.model().view_at(k).id,
                forall|k: int|
                    0 <= k < index ==> {
                        &&& (#[trigger] output@[k]).id == self.manager.model().view_at(k).id
                        &&& output@[k].metadata == self.manager.model().view_at(k).metadata
                        &&& runs_on(output@[k], self.vcpus@, 0)
                    },
                forall|k: int|
                    index <= k < output@.len() ==> #[trigger] output@[k] == old(output)@[k],
            decreases copied - index,
        {
            let id = ids[index];
            proof {
                let model = self.manager.model();
                assert(model.published[index as int] is Some);
                assert(model.find_published(id) == Ok::<int, MonadError>(index as int));
            }
            let metadata = self.manager.metadata(id)?;
            let state = PublicViewState { id, metadata, active_cpu_set: [0;4] };
            proof {
                assert forall|cpu: u16| cpu < 256 implies !#[trigger] topology::in_mask(
                    state.active_cpu_set@[cpu as int / 64],
                    (cpu % 64) as u8,
                ) by {
                    topology::lemma_in_mask(0, 0, (cpu % 64) as u8);
                }
            }
            output[index] = state;
            index = index + 1;
        }
        Ok(copied)
    }

    /// Adds a processor to the set of the view that it reports.
    fn place_cpu(&self, output: &mut [PublicViewState], copied: usize, cpu: u16, active: ViewId)
        requires
            self.wf(),
            copied <= old(output)@.len(),
            copied <= self.manager.model().next_publish_slot,
            (cpu as int) < self.vcpus@.len() <= 256,
            forall|id: ViewId|
                #[trigger] self.vcpus@[cpu as int].active_report.reports(id) <==> id == active,
            forall|k: int|
                0 <= k < copied ==> {
                    &&& (#[trigger] old(output)@[k]).id == self.manager.model().view_at(k).id
                    &&& runs_on(old(output)@[k], self.vcpus@, cpu as int)
                },
        ensures
            final(output)@.len() == old(output)@.len(),
            forall|k: int|
                0 <= k < copied ==> {
                    &&& (#[trigger] final(output)@[k]).id == old(output)@[k].id
                    &&& final(output)@[k].metadata == old(output)@[k].metadata
                    &&& runs_on(final(output)@[k], self.vcpus@, cpu + 1)
                },
            forall|k: int|
                copied <= k < final(output)@.len() ==> #[trigger] final(output)@[k] == old(
                    output,
                )@[k],
    {
        let ghost start = output@;
        proof {
            self.manager.lemma_wf();
            let model = self.manager.model();
            assert forall|k: int| 0 <= k < copied implies (#[trigger] start[k]).id.slot == k by {
                assert(model.published[k] is Some);
            }
        }
        let mut index: usize = 0;
        while index < copied
            invariant
                index <= copied <= output@.len(),
                output@ == start,
                start == old(output)@,
                cpu < self.vcpus@.len() <= 256,
                forall|id: ViewId|
                    #[trigger] self.vcpus@[cpu as int].active_report.reports(id) <==> id == active,
                forall|k: int| 0 <= k < index ==> (#[trigger] start[k]).id != active,
                forall|k: int|
                    0 <= k < copied ==> {
                        &&& (#[trigger] start[k]).id.slot == k
                        &&& runs_on(start[k], self.vcpus@, cpu as int)
                    },
            decreases copied - index,
        {
            if output[index].id == active {
                let mut state = output[index];
                add_cpu(&mut state, cpu);
                output[index] = state;
                proof {
                    assert forall|k: int| 0 <= k < copied implies {
                        &&& (#[trigger] output@[k]).id == start[k].id
                        &&& output@[k].metadata == start[k].metadata
                        &&& runs_on(output@[k], self.vcpus@, cpu + 1)
                    } by {
                        assert(start[k].id.slot == k);
                        assert(start[index as int].id.slot == index);
                        assert(runs_on(start[k], self.vcpus@, cpu as int));
                        self.lemma_runs_on(start[k], output@[k], cpu, active);
                    }
                }
                return;
            }
            index = index + 1;
        }
        proof {
            assert forall|k: int| 0 <= k < copied implies runs_on(
                #[trigger] output@[k],
                self.vcpus@,
                cpu + 1,
            ) by {
                self.lemma_runs_on(start[k], output@[k], cpu, active);
            }
        }
    }

    proof fn lemma_runs_on(
        &self,
        before: PublicViewState,
        after: PublicViewState,
        cpu: u16,
        active: ViewId,
    )
        requires
            cpu < self.vcpus@.len() <= 256,
            forall|id: ViewId|
                #[trigger] self.vcpus@[cpu as int].active_report.reports(id) <==> id == active,
            runs_on(before, self.vcpus@, cpu as int),
            after.id == before.id,
            forall|other: u16|
                other < 256 ==> (#[trigger] topology::in_mask(
                    after.active_cpu_set@[other as int / 64],
                    (other % 64) as u8,
                ) <==> (other == cpu && before.id == active) || topology::in_mask(
                    before.active_cpu_set@[other as int / 64],
                    (other % 64) as u8,
                )),
        ensures
            runs_on(after, self.vcpus@, cpu + 1),
    {
        assert forall|other: u16| other < 256 implies (#[trigger] topology::in_mask(
            after.active_cpu_set@[other as int / 64],
            (other % 64) as u8,
        ) <==> other < cpu + 1 && self.vcpus@[other as int].active_report.reports(after.id)) by {
            assert(topology::in_mask(
                before.active_cpu_set@[other as int / 64],
                (other % 64) as u8,
            ) <==> other < cpu && self.vcpus@[other as int].active_report.reports(before.id));
        }
    }

    /// Whether some processor is just changing its view.
    pub open spec fn some_changing(&self) -> bool {
        exists|k: int|
            0 <= k < self.vcpus@.len() && (#[trigger] self.vcpus@[k]).active_report.snapped() is Err
    }

    /// Lists the publications, each with the processors that run it.
    pub fn list_views(&self, output: &mut [PublicViewState]) -> (result: MonadResult<(usize, usize)>)
        requires
            self.wf(),
        ensures
            final(output)@.len() == old(output)@.len(),
            if self.some_changing() {
                result == Err::<(usize, usize), MonadError>(
                    MonadError::new(ErrorPhase::Activation, ErrorCode::RendezvousBusy, 0),
                )
            } else {
                result matches Ok((copied, total)) && {
                    &&& total == self.manager.model().next_publish_slot
                    &&& listed(*self, old(output)@, final(output)@, copied as int)
                }
            },
    {
        let copied: usize = self.describe_views(output)?;
        let count: u16 = self.topology.len();
        let mut index: u16 = 0;
        while index < count
            invariant
                self.wf(),
                index <= count,
                count == self.vcpus@.len(),
                count <= 256,
                output@.len() == old(output)@.len(),
                copied <= output@.len(),
                copied == if (self.manager.model().next_publish_slot as int) < output@.len() {
                    self.manager.model().next_publish_slot as int
                } else {
                    output@.len() as int
                },
                forall|k: int|
                    0 <= k < index ==> (#[trigger] self.vcpus@[k]).active_report.snapped() is Ok,
                forall|k: int|
                    0 <= k < copied ==> {
                        &&& (#[trigger] output@[k]).id == self.manager.model().view_at(k).id
                        &&& output@[k].metadata == self.manager.model().view_at(k).metadata
                        &&& runs_on(output@[k], self.vcpus@, index as int)
                    },
                forall|k: int|
                    copied <= k < output@.len() ==> #[trigger] output@[k] == old(output)@[k],
            decreases count - index,
        {
            let active = match self.vcpus[index as usize].active_report.snapshot() {
                Ok(state) => state.id,
                Err(error) => {
                    assert(self.vcpus@[index as int].active_report.snapped() is Err);
                    return Err(error);
                },
            };
            self.place_cpu(output, copied, index, active);
            index = index + 1;
        }
        Ok((copied, self.manager.published_count()))
    }
}

impl<A: EptPageAllocator + Clone> Monitor<A> {
    /// Lists the publications, each with the processors that run it.
    pub fn list_views(&self, output: &mut [PublicViewState]) -> (result: MonadResult<(usize, usize)>)
        requires
            self.wf(),
        ensures
            final(output)@.len() == old(output)@.len(),
            match self.refusal() {
                Some(error) => {
                    &&& result == Err::<(usize, usize), MonadError>(error)
                    &&& final(output)@ == old(output)@
                },
                None => {
                    let vmm = self.vmm.unwrap();
                    if vmm.some_changing() {
                        result == Err::<(usize, usize), MonadError>(
                            MonadError::new(ErrorPhase::Activation, ErrorCode::RendezvousBusy, 0),
                        )
                    } else {
                        result matches Ok((copied, total)) && {
                            &&& total == vmm.manager.model().next_publish_slot
                            &&& listed(vmm, old(output)@, final(output)@, copied as int)
                        }
                    }
                },
            },
    {
        self.running()?.list_views(output)
    }
}

} // verus!
