//! Starting the hypervisor: its memory, its processors, and their launch.

use vstd::prelude::*;

use super::activation;
use super::activation::CpuAction;
use super::machine;
use super::machine::{Monitor, Vmm};
use super::setup;
use super::setup::{configured_limit, VmmStartConfig};
use super::vcpu::{ActiveViewReport, Vcpu, VcpuModel};
use crate::arch::intel::caps::{IntelCapabilities, ValidatedPlatform};
use crate::arch::intel::vmcs::GuestRegs;
use crate::bits;
use crate::ept::address::HostPhysicalAddress;
use crate::ept::backing::BackingPageReference;
use crate::ept::builder;
use crate::ept::builder::{build_base_view, BaseViewCandidate, BuildPlan};
use crate::ept::entry;
use crate::ept::entry::EptLevel;
use crate::ept::inventory;
use crate::ept::inventory::{ApertureErrorDetail, PhysicalInventory, PhysicalRange, RequiredPhysicalRange};
use crate::ept::manager::EptViewManager;
use crate::ept::mtrr;
use crate::ept::mtrr::{normalize_mtrrs, MtrrErrorDetail, NormalizedMemoryMap, RawMtrrState};
use crate::ept::page;
use crate::ept::page::EptPageAllocator;
use crate::ept::scan;
use crate::ept::view;
use crate::ept::view::{PageState, ViewModel};
use crate::ept::walker::EptValidationError;
use crate::error::{ErrorCode, ErrorPhase, MonadError, MonadResult};
use crate::exit::ept_fault::{EptFaultTracker, COMPILED_ALLOWED_VIEW_MASK};
use crate::lifecycle;
use crate::lifecycle::{LifecycleControl, LifecycleState};
use crate::memory;
use crate::memory::{collect_physical_inventory, MemoryRange};
use crate::rendezvous::mailbox::{
    InternalMailbox, MailboxModel, MailboxRequest, MailboxState, MailboxStatus,
    PublishedViewDirectory, RendezvousOperation,
};
use crate::rendezvous::transaction::ActiveViewState;
use crate::telemetry::record::EventRecord;
use crate::telemetry::ring::EventRing;
use crate::topology;
use crate::topology::{CpuId, CpuTopology};

verus! {

/// A processor that has not run yet.
pub open spec fn blank(
    vcpu: VcpuModel,
    cpu: CpuId,
    base: ActiveViewState,
    capabilities: IntelCapabilities,
    run_id: u64,
    variable_mtrrs: u8,
) -> bool {
    &&& vcpu.cpu == cpu
    &&& vcpu.regs == GuestRegs::spec_zeroed()
    &&& vcpu.active_view == base
    &&& vcpu.active_report == ActiveViewReport::spec_new(base)
    &&& vcpu.mailbox == MailboxModel {
        state: MailboxState::Idle,
        epoch: 0,
        operation: 0,
        target_eptp: 0,
        target_view_slot: 0,
        target_view_generation: 0,
        expected_old_eptp: 0,
        status: MailboxStatus::Pending,
    }
    &&& vcpu.rendezvous_epoch == 0
    &&& vcpu.view_epoch == 0
    &&& vcpu.run_id == run_id
    &&& vcpu.events matches Some(ring) && ring.in_step() && ring.published == 0
        && ring.next_sequence == 1 && ring.dropped == 0
    &&& vcpu.emergency_event == EventRecord::spec_zeroed()
    &&& vcpu.fault_tracker == EptFaultTracker::spec_new()
    &&& vcpu.allowed_fault_views == COMPILED_ALLOWED_VIEW_MASK
    &&& vcpu.capabilities == capabilities
    &&& vcpu.guest_xcr0 == 0
    &&& vcpu.variable_mtrrs == variable_mtrrs
    &&& !vcpu.active
    &&& vcpu.launch_error is None
}

impl Vcpu {
    /// A processor in the base view, unless there is no memory for its events.
    pub fn init_vcpu(
        cpu: CpuId,
        base: ActiveViewState,
        capabilities: IntelCapabilities,
        run_id: u64,
        variable_mtrrs: u8,
    ) -> (result: MonadResult<Self>)
        ensures
            match result {
                Ok(vcpu) => blank(vcpu@, cpu, base, capabilities, run_id, variable_mtrrs),
                Err(error) => error == MonadError::new(
                    ErrorPhase::Launch,
                    ErrorCode::AllocationFailure,
                    0,
                ),
            },
    {
        let ring = match EventRing::try_new() {
            Ok(ring) => ring,
            Err(_) => {
                return Err(MonadError::new(ErrorPhase::Launch, ErrorCode::AllocationFailure, 0));
            },
        };
        Ok(
            Vcpu {
                cpu,
                regs: GuestRegs::default(),
                active_view: base,
                active_report: ActiveViewReport::new(base),
                mailbox: InternalMailbox::new(),
                rendezvous_epoch: 0,
                view_epoch: 0,
                run_id,
                events: Some(ring),
                emergency_event: EventRecord::zeroed(),
                fault_tracker: EptFaultTracker::new(),
                allowed_fault_views: COMPILED_ALLOWED_VIEW_MASK,
                capabilities,
                guest_xcr0: 0,
                variable_mtrrs,
                active: false,
                launch_error: None,
            },
        )
    }
}

/// All memory and all devices, as the start is told of them.
pub open spec fn joined_ranges(report: Seq<MemoryRange>, devices: Seq<PhysicalRange>) -> Seq<
    PhysicalRange,
> {
    Seq::new(
        memory::reported(report, 0) + devices.len(),
        |k: int| memory::inventory_at(report, devices, k),
    )
}

/// What the views must be able to reach.
pub open spec fn required_ranges(devices: Seq<PhysicalRange>) -> Seq<RequiredPhysicalRange> {
    devices.map_values(
        |range: PhysicalRange| RequiredPhysicalRange { start: range.start, length: range.length },
    )
}

/// The reported memory and devices are as they must be, and fit the aperture.
pub open spec fn memory_accepted(
    report: Seq<MemoryRange>,
    devices: Seq<PhysicalRange>,
    physical_bits: u8,
    limit: u64,
) -> bool {
    &&& forall|error: MonadError| !(#[trigger] memory::inventory_fault(report, devices, error))
    &&& forall|error: MonadError|
        !(#[trigger] inventory::inventory_refusal(
            joined_ranges(report, devices),
            required_ranges(devices),
            physical_bits,
            Some(limit),
            error,
        ))
}

/// How many variable range registers there are.
pub open spec fn variable_count(raw: RawMtrrState) -> u8 {
    (raw.capability & 0xff) as u8
}

/// Whether a base view suits a processor: its tables are as wide as the
/// processor's addresses, their permissions are read as the processor reads
/// them, and every page is mapped to itself through the largest leaf that the
/// processor has, the aperture holds and one memory type fills.
pub open spec fn suits(base: ViewModel, capabilities: IntelCapabilities) -> bool {
    &&& base.hierarchy.bits == capabilities.max_physical_address_bits
    &&& base.hierarchy.execute_only == capabilities.ept.execute_only
    &&& builder::follows_plan(
        base.hierarchy,
        BuildPlan {
            aperture_end: base.aperture_end,
            types: base.types,
            bits: capabilities.max_physical_address_bits,
            page_1g_supported: capabilities.ept.page_1g,
            page_2m_supported: capabilities.ept.page_2m,
        },
    )
}

/// A monitor that was just put together: one view, which maps the machine's
/// memory as the range registers say and as the processors can walk it, edits
/// that stay with targets of which there are none yet, and processors that have
/// not run yet.
pub open spec fn assembled<A: EptPageAllocator + Clone>(
    vmm: Vmm<A>,
    config: VmmStartConfig,
    platform: ValidatedPlatform,
    report: Seq<MemoryRange>,
    raw: RawMtrrState,
) -> bool {
    let manager = vmm.manager.model();
    let capabilities = platform.spec_capabilities();
    let base = manager.view_at(0).model;
    &&& vmm.wf()
    &&& vmm.topology.view() == platform.spec_topology().view()
    &&& topology::ids_ok(vmm.topology.view())
    &&& vmm.epoch == 0
    &&& vmm.rendezvous_tsc_budget == config.rendezvous_timeout_tsc
    &&& vmm.aperture_end == base.aperture_end
    &&& manager.session_nonce == config.session_nonce
    &&& manager.max_physical_bits == capabilities.max_physical_address_bits
    &&& manager.next_publish_slot == 1
    &&& !manager.unrestricted
    &&& manager.targets == Seq::<(HostPhysicalAddress, BackingPageReference)>::empty()
    &&& base.overrides == Map::<u64, PageState>::empty()
    &&& suits(base, capabilities)
    &&& raw.map_fault(vmm.aperture_end) is None
    &&& forall|address: int|
        0 <= address < vmm.aperture_end ==> #[trigger] mtrr::type_at(base.types, address)
            == raw.memory_type_of(address)
    &&& forall|k: int|
        0 <= k < vmm.vcpus@.len() ==> blank(
            #[trigger] machine::models(vmm.vcpus@)[k],
            vmm.topology.view()[k],
            ActiveViewState { id: manager.spec_base_id(), eptp: base.eptp() },
            capabilities,
            config.session_nonce,
            variable_count(raw),
        )
}

/// Makes the processors of a monitor.
fn init_vcpus(
    topology: &CpuTopology,
    base: ActiveViewState,
    capabilities: IntelCapabilities,
    run_id: u64,
    variable_mtrrs: u8,
) -> (result: MonadResult<Vec<Vcpu>>)
    ensures
        match result {
            Ok(vcpus) => {
                &&& vcpus@.len() == topology.view().len()
                &&& forall|k: int|
                    0 <= k < vcpus@.len() ==> blank(
                        #[trigger] machine::models(vcpus@)[k],
                        topology.view()[k],
                        base,
                        capabilities,
                        run_id,
                        variable_mtrrs,
                    )
            },
            Err(error) => error == MonadError::new(
                ErrorPhase::Launch,
                ErrorCode::AllocationFailure,
                0,
            ),
        },
{
    let mut vcpus: Vec<Vcpu> = Vec::new();
    let ids = topology.ids();
    let mut index: usize = 0;
    while index < ids.len()
        invariant
            index <= ids@.len(),
            ids@ == topology.view(),
            vcpus@.len() == index,
            forall|k: int|
                0 <= k < index ==> blank(
                    #[trigger] machine::models(vcpus@)[k],
                    topology.view()[k],
                    base,
                    capabilities,
                    run_id,
                    variable_mtrrs,
                ),
        decreases ids@.len() - index,
    {
        let ghost before = machine::models(vcpus@);
        let vcpu = Vcpu::init_vcpu(ids[index], base, capabilities, run_id, variable_mtrrs)?;
        vcpus.push(vcpu);
        proof {
            assert(machine::models(vcpus@) =~= before.push(vcpu@));
        }
        index = index + 1;
    }
    Ok(vcpus)
}

/// Why a monitor cannot be put together, if it cannot. What is wrong is found in
/// this order: with the limit, with how the memory is described, with the ranges
/// that it comes to, with the range registers on the aperture around them, and
/// with the base view. At each step memory may be short.
pub open spec fn assembly_refusal<A: EptPageAllocator>(
    config: VmmStartConfig,
    width: u8,
    report: Seq<MemoryRange>,
    raw_mtrrs: MonadResult<RawMtrrState>,
    error: MonadError,
) -> bool {
    let devices = config.device_ranges@;
    match setup::aperture_limit(config.aperture_limit, width) {
        Err(refused) => error == refused,
        Ok(limit) => {
            ||| memory::inventory_fault(report, devices, error)
            ||| memory::memory_short(report, devices, error)
            ||| well_described(report, devices) && {
                let ranges = joined_ranges(report, devices);
                ||| inventory::inventory_refusal(
                    ranges,
                    required_ranges(devices),
                    width,
                    Some(limit),
                    error,
                )
                ||| inventory::inventory_short(ranges, width, Some(limit), error)
                ||| memory_accepted(report, devices, width, limit) && exists|end: int|
                    {
                        &&& #[trigger] inventory::highest_end(ranges, end)
                        &&& aperture_refusal::<A>(
                            inventory::aperture_of(
                                end,
                                inventory::limit_in_force(width, Some(limit)),
                            ) as u64,
                            width,
                            config.session_nonce,
                            raw_mtrrs,
                            error,
                        )
                    }
            }
        },
    }
}

/// Whether nothing is wrong with how memory and devices are described.
pub open spec fn well_described(report: Seq<MemoryRange>, devices: Seq<PhysicalRange>) -> bool {
    forall|error: MonadError| !(#[trigger] memory::inventory_fault(report, devices, error))
}

/// Why there are no views over an aperture, if there are none: the range
/// registers could not be read or do not fit the aperture; or there is no base
/// view, or no memory for the processors.
pub open spec fn aperture_refusal<A: EptPageAllocator>(
    aperture_end: u64,
    width: u8,
    session_nonce: u64,
    raw_mtrrs: MonadResult<RawMtrrState>,
    error: MonadError,
) -> bool {
    match raw_mtrrs {
        Err(unread) => error == unread,
        Ok(raw) => match raw.map_fault(aperture_end) {
            Some(fault) => {
                ||| error == fault.spec_error()
                ||| !mtrr::found_early(fault) && error
                    == MtrrErrorDetail::AllocationFailure.spec_error()
            },
            None => {
                ||| error == MtrrErrorDetail::AllocationFailure.spec_error()
                ||| base_refusal::<A>(width, session_nonce, error)
                ||| entry::supported_width(width) && session_nonce != 0 && error
                    == MonadError::new(ErrorPhase::Launch, ErrorCode::AllocationFailure, 0)
            },
        },
    }
}

/// Why there is no base view, if there is none: the tables cannot be that wide;
/// or pages or memory are short, or there is more than can be counted; or, once
/// it is built, there is no session to name it by.
#[verifier::opaque]
pub open spec fn base_refusal<A: EptPageAllocator>(
    width: u8,
    session_nonce: u64,
    error: MonadError,
) -> bool {
    if !entry::supported_width(width) {
        error == MonadError::new(
            ErrorPhase::EptBuild,
            ErrorCode::PhysicalAddressTooWide,
            width as u64,
        )
    } else {
        ||| page::shortage::<A>(error)
        ||| exists|candidate: BaseViewCandidate<A>|
            {
                &&& #[trigger] scan::no_room(candidate.hierarchy(), candidate.shape(), error)
                &&& candidate.wf()
                &&& candidate.max_physical_bits == width
            }
        ||| exists|found: EptValidationError|
            scan::scan_shortage(EptLevel::Pml4, 0, found) && error == #[trigger] scan::view_fault(
                found,
            )
        ||| if session_nonce == 0 {
            error == MonadError::new(ErrorPhase::Session, ErrorCode::WrongSession, 0)
        } else {
            exists|candidate: BaseViewCandidate<A>|
                {
                    &&& view::figures_fault(
                        #[trigger] view::base_model(candidate, session_nonce),
                        error,
                    )
                    &&& candidate.wf()
                    &&& candidate.max_physical_bits == width
                }
        }
    }
}

/// A manager of the one view that maps an inventory, as the processor can walk
/// it.
fn first_manager<A: EptPageAllocator + Clone>(
    inventory: PhysicalInventory,
    memory_types: NormalizedMemoryMap,
    capabilities: &IntelCapabilities,
    session_nonce: u64,
    allocator: A,
) -> (result: MonadResult<EptViewManager<A>>)
    requires
        inventory.spec_aperture_end() == memory_types.spec_aperture_end(),
        inventory.spec_aperture_end() <= bits::width_limit(capabilities.max_physical_address_bits),
    ensures
        result matches Ok(manager) ==> {
            let model = manager.model();
            let base = model.view_at(0).model;
            &&& manager.wf()
            &&& model.session_nonce == session_nonce
            &&& model.max_physical_bits == capabilities.max_physical_address_bits
            &&& model.next_publish_slot == 1
            &&& !model.unrestricted
            &&& model.targets == Seq::<(HostPhysicalAddress, BackingPageReference)>::empty()
            &&& base.overrides == Map::<u64, PageState>::empty()
            &&& base.types == memory_types.view()
            &&& base.aperture_end == inventory.spec_aperture_end()
            &&& suits(base, *capabilities)
        },
        result matches Err(error) ==> base_refusal::<A>(
            capabilities.max_physical_address_bits,
            session_nonce,
            error,
        ),
        result is Ok ==> session_nonce != 0 && entry::supported_width(
            capabilities.max_physical_address_bits,
        ),
{
    proof {
        reveal(base_refusal);
    }
    let width: u8 = capabilities.max_physical_address_bits;
    let base = build_base_view(
        allocator.clone(),
        inventory,
        memory_types,
        width,
        capabilities.ept.page_1g,
        capabilities.ept.page_2m,
        capabilities.ept.execute_only,
    )?;
    let ghost candidate = base.spec_candidate();
    let made = EptViewManager::new(base, allocator, session_nonce, width, false);
    proof {
        if let Err(error) = made {
            let model = view::base_model(candidate, session_nonce);
            assert(model.overrides.dom() =~= Set::<u64>::empty());
        }
    }
    made
}

/// The monitor's own views: the base view, entered in the directory.
#[verifier::rlimit(40)]
#[verifier::spinoff_prover]
fn base_manager<A: EptPageAllocator + Clone>(
    config: &VmmStartConfig,
    capabilities: &IntelCapabilities,
    report: &[MemoryRange],
    raw_mtrrs: MonadResult<RawMtrrState>,
    allocator: A,
) -> (result: MonadResult<(EptViewManager<A>, u8)>)
    requires
        capabilities.max_physical_address_bits < 64,
    ensures
        setup::aperture_limit(config.aperture_limit, capabilities.max_physical_address_bits)
            matches Err(error) ==> result == Err::<(EptViewManager<A>, u8), MonadError>(error),
        result is Ok ==> config.session_nonce != 0 && entry::supported_width(
            capabilities.max_physical_address_bits,
        ),
        result matches Ok((manager, count)) ==> {
            let width = capabilities.max_physical_address_bits;
            let model = manager.model();
            let base = model.view_at(0).model;
            let limit = setup::aperture_limit(config.aperture_limit, width)->Ok_0;
            &&& manager.wf()
            &&& model.session_nonce == config.session_nonce
            &&& model.max_physical_bits == width
            &&& model.next_publish_slot == 1
            &&& !model.unrestricted
            &&& model.targets == Seq::<(HostPhysicalAddress, BackingPageReference)>::empty()
            &&& base.overrides == Map::<u64, PageState>::empty()
            &&& suits(base, *capabilities)
            &&& memory_accepted(report@, config.device_ranges@, width, limit)
            &&& raw_mtrrs matches Ok(raw) && {
                &&& raw.map_fault(base.aperture_end) is None
                &&& count == variable_count(raw)
                &&& forall|address: int|
                    0 <= address < base.aperture_end ==> #[trigger] mtrr::type_at(
                        base.types,
                        address,
                    ) == raw.memory_type_of(address)
            }
            &&& exists|end: int| #[trigger]
                inventory::highest_end(joined_ranges(report@, config.device_ranges@), end)
            &&& forall|end: int| #[trigger]
                inventory::highest_end(joined_ranges(report@, config.device_ranges@), end)
                    ==> base.aperture_end == inventory::aperture_of(
                    end,
                    inventory::limit_in_force(width, Some(limit)),
                )
        },
        result matches Err(error) ==> assembly_refusal::<A>(
            *config,
            capabilities.max_physical_address_bits,
            report@,
            raw_mtrrs,
            error,
        ),
{
    let width: u8 = capabilities.max_physical_address_bits;
    let limit: u64 = configured_limit(config.aperture_limit, width)?;
    let (ranges, required) = collect_physical_inventory(report, config.device_ranges.as_slice())?;
    proof {
        assert(ranges@ =~= joined_ranges(report@, config.device_ranges@));
        assert(required@ =~= required_ranges(config.device_ranges@));
    }
    let inventory = PhysicalInventory::ingest(
        ranges.as_slice(),
        required.as_slice(),
        width,
        Some(limit),
    )?;
    let aperture_end: u64 = inventory.aperture_end();
    let raw = raw_mtrrs?;
    let memory_types = normalize_mtrrs(&raw, aperture_end)?;
    let low: u64 = raw.capability & 0xff;
    let count: u8 = #[verifier::truncate] (low as u8);
    let manager = first_manager(
        inventory,
        memory_types,
        capabilities,
        config.session_nonce,
        allocator,
    )?;
    Ok((manager, count))
}

/// Puts a monitor together, with all that it needs to be launched.
pub fn alloc_vmm<A: EptPageAllocator + Clone>(
    config: &VmmStartConfig,
    platform: &ValidatedPlatform,
    report: &[MemoryRange],
    raw_mtrrs: MonadResult<RawMtrrState>,
    allocator: A,
) -> (result: MonadResult<Vmm<A>>)
    ensures
        setup::aperture_limit(
            config.aperture_limit,
            platform.spec_capabilities().max_physical_address_bits,
        ) matches Err(error) ==> result == Err::<Vmm<A>, MonadError>(error),
        result matches Ok(vmm) ==> {
            let width = platform.spec_capabilities().max_physical_address_bits;
            let limit = setup::aperture_limit(config.aperture_limit, width)->Ok_0;
            &&& memory_accepted(report@, config.device_ranges@, width, limit)
            &&& raw_mtrrs matches Ok(raw) && assembled(vmm, *config, *platform, report@, raw)
            &&& forall|end: int| #[trigger]
                inventory::highest_end(joined_ranges(report@, config.device_ranges@), end)
                    ==> vmm.aperture_end == inventory::aperture_of(
                    end,
                    inventory::limit_in_force(width, Some(limit)),
                )
        },
        result matches Err(error) ==> assembly_refusal::<A>(
            *config,
            platform.spec_capabilities().max_physical_address_bits,
            report@,
            raw_mtrrs,
            error,
        ),
{
    let capabilities = platform.capabilities();
    let (manager, count) = base_manager(config, &capabilities, report, raw_mtrrs, allocator)?;
    let id = manager.base_id();
    proof {
        manager.lemma_wf();
        let model = manager.model();
        assert(model.published[0] is Some);
        assert(model.find_published(id) == Ok::<int, MonadError>(0int));
    }
    let eptp: u64 = manager.published_eptp(id)?;
    let aperture_end: u64 = manager.aperture_end()?;
    let mut published_views = PublishedViewDirectory::new();
    proof {
        machine::lemma_eptp(manager.model().view_at(0).model.hierarchy.root);
    }
    if published_views.publish(id, eptp).is_err() {
        return Err(MonadError::new(ErrorPhase::Launch, ErrorCode::EptVerificationFailure, 0));
    }
    proof {
        let model = manager.model();
        assert forall|k: int| 0 <= k < published_views@.len() implies #[trigger]
        published_views@[k] == match model.published[k] {
            Some(view) => (view.id.generation, view.model.eptp()),
            None => (0u64, 0u64),
        } by {
            if k > 0 {
                assert(model.published[k] is None);
            }
        }
    }
    let topology = platform.topology().clone();
    let base = ActiveViewState { id, eptp };
    let vcpus = match init_vcpus(&topology, base, capabilities, config.session_nonce, count) {
        Ok(vcpus) => vcpus,
        Err(error) => {
            let mut manager = manager;
            manager.release();
            return Err(error);
        },
    };
    Ok(
        Vmm {
            vcpus,
            manager,
            topology,
            epoch: 0,
            rendezvous_tsc_budget: config.rendezvous_timeout_tsc,
            aperture_end,
            published_views,
        },
    )
}

/// How far one processor has come with its launch.
#[derive(Debug, Clone, Copy, PartialEq, Eq, Structural)]
pub enum LaunchStage {
    /// Waits until all have tried to launch.
    Gathering,
    RollingBack,
    /// Waits until all that were to stop have stopped.
    Leaving,
    Left,
    Lost,
}

/// The launch of all processors.
#[derive(Debug, Clone, Copy, PartialEq, Eq, Structural)]
pub struct LaunchContext {
    pub epoch: u64,
    pub participant_count: u32,
    pub arrived: u32,
    pub rollback_finished: u32,
    pub failed: bool,
    pub fatal: bool,
    pub deadline_tsc: u64,
}

impl LaunchContext {
    pub open spec fn spec_new(epoch: u64, participant_count: u32, deadline_tsc: u64) -> Self {
        LaunchContext {
            epoch,
            participant_count,
            arrived: 0,
            rollback_finished: 0,
            failed: false,
            fatal: false,
            deadline_tsc,
        }
    }

    #[verifier::when_used_as_spec(spec_new)]
    pub fn new(epoch: u64, participant_count: u32, deadline_tsc: u64) -> (launch: Self)
        ensures
            launch == Self::spec_new(epoch, participant_count, deadline_tsc),
    {
        LaunchContext {
            epoch,
            participant_count,
            arrived: 0,
            rollback_finished: 0,
            failed: false,
            fatal: false,
            deadline_tsc,
        }
    }

    /// One look at a barrier.
    pub open spec fn look(self, counter: u32, now: u64) -> Option<bool> {
        if counter == self.participant_count {
            Some(true)
        } else if now >= self.deadline_tsc {
            Some(false)
        } else {
            None
        }
    }

    /// One look at a barrier. To wait beyond the deadline is fatal.
    pub fn wait_launch_barrier(&mut self, counter: u32, now: u64) -> (passed: Option<bool>)
        ensures
            passed == old(self).look(counter, now),
            *final(self) == (LaunchContext {
                fatal: old(self).fatal || passed == Some(false),
                ..*old(self)
            }),
    {
        if counter == self.participant_count {
            return Some(true);
        }
        if now >= self.deadline_tsc {
            self.fatal = true;
            return Some(false);
        }
        None
    }

    /// One processor more has tried to launch.
    pub open spec fn one_arrived(self, failed: bool) -> LaunchContext {
        LaunchContext {
            arrived: activation::counted(self.arrived),
            failed: self.failed || failed,
            ..self
        }
    }

    /// One processor more has nothing to take back.
    pub open spec fn one_settled(self, fatal: bool) -> LaunchContext {
        LaunchContext {
            rollback_finished: activation::counted(self.rollback_finished),
            fatal: self.fatal || fatal,
            ..self
        }
    }

    /// A processor has tried to launch.
    pub fn report_launch(&mut self, vcpu: &mut Vcpu, result: MonadResult<()>)
        ensures
            *final(self) == old(self).one_arrived(result is Err),
            final(vcpu)@ == (VcpuModel {
                launch_error: match result {
                    Err(error) => Some(error),
                    Ok(_) => old(vcpu).launch_error,
                },
                ..old(vcpu)@
            }),
    {
        if let Err(error) = result {
            vcpu.launch_error = Some(error);
            self.failed = true;
        }
        self.arrived = activation::count_up(self.arrived);
    }

    /// A processor that is not one of the monitor's cannot launch.
    pub fn report_stranger(&mut self)
        ensures
            *final(self) == old(self).one_arrived(true),
    {
        self.failed = true;
        self.arrived = activation::count_up(self.arrived);
    }

    /// What follows the first barrier: a processor that runs the guest stops
    /// where another has failed.
    pub open spec fn settle(self, vcpu: VcpuModel) -> (
        LaunchContext,
        VcpuModel,
        LaunchStage,
        CpuAction,
    ) {
        if self.failed && vcpu.active {
            let joined = VcpuModel { rendezvous_epoch: self.epoch, ..vcpu };
            if vcpu.mailbox.state is Idle {
                (
                    self,
                    VcpuModel {
                        mailbox: activation::holding(
                            vcpu.mailbox,
                            activation::request_for(
                                self.epoch,
                                RendezvousOperation::Shutdown,
                                vcpu.active_view,
                                vcpu.active_view.eptp,
                            ),
                        ),
                        ..joined
                    },
                    LaunchStage::RollingBack,
                    CpuAction::CallMonitor,
                )
            } else {
                (self.one_settled(true), joined, LaunchStage::Leaving, CpuAction::Proceed)
            }
        } else {
            (self.one_settled(false), vcpu, LaunchStage::Leaving, CpuAction::Proceed)
        }
    }

    /// One step of one processor after it has tried to launch.
    pub open spec fn stepped(self, vcpu: VcpuModel, stage: LaunchStage, now: u64) -> (
        LaunchContext,
        VcpuModel,
        LaunchStage,
        CpuAction,
    ) {
        match stage {
            LaunchStage::Gathering => match self.look(self.arrived, now) {
                None => (self, vcpu, stage, CpuAction::Spin),
                Some(false) => (
                    LaunchContext { fatal: true, ..self },
                    vcpu,
                    LaunchStage::Lost,
                    CpuAction::Halt(4),
                ),
                Some(true) => self.settle(vcpu),
            },
            LaunchStage::RollingBack => (
                self.one_settled(vcpu.active),
                vcpu,
                LaunchStage::Leaving,
                CpuAction::Proceed,
            ),
            LaunchStage::Leaving => match self.look(self.rollback_finished, now) {
                None => (self, vcpu, stage, CpuAction::Spin),
                Some(false) => (
                    LaunchContext { fatal: true, ..self },
                    vcpu,
                    LaunchStage::Lost,
                    CpuAction::Halt(5),
                ),
                Some(true) => if self.fatal {
                    (self, vcpu, LaunchStage::Lost, CpuAction::Halt(5))
                } else {
                    (self, vcpu, LaunchStage::Left, CpuAction::Leave)
                },
            },
            LaunchStage::Left => (self, vcpu, LaunchStage::Left, CpuAction::Leave),
            LaunchStage::Lost => (self, vcpu, LaunchStage::Lost, CpuAction::Halt(5)),
        }
    }

    fn settle_vcpu(&mut self, vcpu: &mut Vcpu) -> (next: (LaunchStage, CpuAction))
        ensures
            (*final(self), final(vcpu)@, next.0, next.1) == old(self).settle(old(vcpu)@),
    {
        if self.failed && vcpu.active {
            let active = vcpu.active_view;
            vcpu.rendezvous_epoch = self.epoch;
            let request = MailboxRequest {
                epoch: self.epoch,
                operation: RendezvousOperation::Shutdown,
                target_view: active.id,
                target_eptp: active.eptp,
                expected_old_eptp: active.eptp,
            };
            if vcpu.mailbox.prepare(request).is_err() {
                self.fatal = true;
            } else {
                return (LaunchStage::RollingBack, CpuAction::CallMonitor);
            }
        }
        self.rollback_finished = activation::count_up(self.rollback_finished);
        (LaunchStage::Leaving, CpuAction::Proceed)
    }

    /// One step of a processor that is none of the monitor's: it waits with the
    /// others, and has nothing to take back.
    pub open spec fn stranger_stepped(self, stage: LaunchStage, now: u64) -> (
        LaunchContext,
        LaunchStage,
        CpuAction,
    ) {
        match stage {
            LaunchStage::Gathering => match self.look(self.arrived, now) {
                None => (self, stage, CpuAction::Spin),
                Some(false) => (
                    LaunchContext { fatal: true, ..self },
                    LaunchStage::Lost,
                    CpuAction::Halt(4),
                ),
                Some(true) => (self.one_settled(false), LaunchStage::Leaving, CpuAction::Proceed),
            },
            LaunchStage::RollingBack => (
                self.one_settled(false),
                LaunchStage::Leaving,
                CpuAction::Proceed,
            ),
            LaunchStage::Leaving => match self.look(self.rollback_finished, now) {
                None => (self, stage, CpuAction::Spin),
                Some(false) => (
                    LaunchContext { fatal: true, ..self },
                    LaunchStage::Lost,
                    CpuAction::Halt(5),
                ),
                Some(true) => if self.fatal {
                    (self, LaunchStage::Lost, CpuAction::Halt(5))
                } else {
                    (self, LaunchStage::Left, CpuAction::Leave)
                },
            },
            LaunchStage::Left => (self, LaunchStage::Left, CpuAction::Leave),
            LaunchStage::Lost => (self, LaunchStage::Lost, CpuAction::Halt(5)),
        }
    }

    /// Takes a processor that is none of the monitor's one step further.
    pub fn launch_stranger(&mut self, stage: LaunchStage, now: u64) -> (next: (
        LaunchStage,
        CpuAction,
    ))
        ensures
            (*final(self), next.0, next.1) == old(self).stranger_stepped(stage, now),
    {
        match stage {
            LaunchStage::Gathering => {
                let arrived: u32 = self.arrived;
                match self.wait_launch_barrier(arrived, now) {
                    None => (stage, CpuAction::Spin),
                    Some(false) => (LaunchStage::Lost, CpuAction::Halt(4)),
                    Some(true) => {
                        self.rollback_finished = activation::count_up(self.rollback_finished);
                        (LaunchStage::Leaving, CpuAction::Proceed)
                    },
                }
            },
            LaunchStage::RollingBack => {
                self.rollback_finished = activation::count_up(self.rollback_finished);
                (LaunchStage::Leaving, CpuAction::Proceed)
            },
            LaunchStage::Leaving => {
                let settled: u32 = self.rollback_finished;
                match self.wait_launch_barrier(settled, now) {
                    None => (stage, CpuAction::Spin),
                    Some(false) => (LaunchStage::Lost, CpuAction::Halt(5)),
                    Some(true) => {
                        if self.fatal {
                            (LaunchStage::Lost, CpuAction::Halt(5))
                        } else {
                            (LaunchStage::Left, CpuAction::Leave)
                        }
                    },
                }
            },
            LaunchStage::Left => (LaunchStage::Left, CpuAction::Leave),
            LaunchStage::Lost => (LaunchStage::Lost, CpuAction::Halt(5)),
        }
    }

    /// Takes one processor one step further.
    pub fn launch_cpu(&mut self, vcpu: &mut Vcpu, stage: LaunchStage, now: u64) -> (next: (
        LaunchStage,
        CpuAction,
    ))
        ensures
            (*final(self), final(vcpu)@, next.0, next.1) == old(self).stepped(
                old(vcpu)@,
                stage,
                now,
            ),
    {
        match stage {
            LaunchStage::Gathering => {
                let arrived: u32 = self.arrived;
                match self.wait_launch_barrier(arrived, now) {
                    None => (stage, CpuAction::Spin),
                    Some(false) => (LaunchStage::Lost, CpuAction::Halt(4)),
                    Some(true) => self.settle_vcpu(vcpu),
                }
            },
            LaunchStage::RollingBack => {
                if vcpu.active {
                    self.fatal = true;
                }
                self.rollback_finished = activation::count_up(self.rollback_finished);
                (LaunchStage::Leaving, CpuAction::Proceed)
            },
            LaunchStage::Leaving => {
                let settled: u32 = self.rollback_finished;
                match self.wait_launch_barrier(settled, now) {
                    None => (stage, CpuAction::Spin),
                    Some(false) => (LaunchStage::Lost, CpuAction::Halt(5)),
                    Some(true) => {
                        if self.fatal {
                            (LaunchStage::Lost, CpuAction::Halt(5))
                        } else {
                            (LaunchStage::Left, CpuAction::Leave)
                        }
                    },
                }
            },
            LaunchStage::Left => (LaunchStage::Left, CpuAction::Leave),
            LaunchStage::Lost => (LaunchStage::Lost, CpuAction::Halt(5)),
        }
    }
}

/// The first error that a processor reports.
pub open spec fn first_error(vcpus: Seq<Vcpu>, from: int) -> Option<MonadError>
    decreases vcpus.len() - from,
{
    if from >= vcpus.len() {
        None
    } else if vcpus[from].launch_error is Some {
        vcpus[from].launch_error
    } else {
        first_error(vcpus, from + 1)
    }
}

/// The first error that a processor reports.
fn find_error(vcpus: &Vec<Vcpu>) -> (error: Option<MonadError>)
    ensures
        error == first_error(vcpus@, 0),
{
    let mut index: usize = 0;
    while index < vcpus.len()
        invariant
            index <= vcpus@.len(),
            first_error(vcpus@, 0) == first_error(vcpus@, index as int),
        decreases vcpus@.len() - index,
    {
        if vcpus[index].launch_error.is_some() {
            return vcpus[index].launch_error;
        }
        index = index + 1;
    }
    None
}

/// What a launch came to, once all processors have left it.
pub open spec fn launch_result(launch: LaunchContext, vcpus: Seq<Vcpu>) -> MonadResult<()> {
    if launch.fatal {
        Err(MonadError::new(ErrorPhase::Launch, ErrorCode::LaunchRollbackFailure, 1))
    } else if launch.failed {
        Err(
            match first_error(vcpus, 0) {
                Some(error) => error,
                None => MonadError::new(ErrorPhase::Launch, ErrorCode::VmxInstructionFailure, 0),
            },
        )
    } else {
        Ok(())
    }
}

/// What a launch came to, once all processors have left it.
pub fn launch_outcome(launch: &LaunchContext, vcpus: &Vec<Vcpu>) -> (result: MonadResult<()>)
    ensures
        result == launch_result(*launch, vcpus@),
{
    if launch.fatal {
        return Err(MonadError::new(ErrorPhase::Launch, ErrorCode::LaunchRollbackFailure, 1));
    }
    if launch.failed {
        return match find_error(vcpus) {
            Some(error) => Err(error),
            None => Err(MonadError::new(ErrorPhase::Launch, ErrorCode::VmxInstructionFailure, 0)),
        };
    }
    Ok(())
}

/// What must hold of a processor before it is launched.
pub open spec fn launch_fault(
    vcpu: VcpuModel,
    group: u16,
    number: u8,
    xsave_area: usize,
    xsave_size: u32,
) -> Option<MonadError> {
    let cpu = vcpu.cpu.dense_index;
    if group != vcpu.cpu.group || number != vcpu.cpu.number {
        Some(
            MonadError {
                cpu_dense_index: cpu,
                ..MonadError::new(ErrorPhase::Topology, ErrorCode::TopologyChanged, cpu as u64)
            },
        )
    } else if xsave_area == 0 || xsave_area & 63 != 0 || xsave_size
        != vcpu.capabilities.xsave.maximum_size {
        Some(
            MonadError {
                cpu_dense_index: cpu,
                ..MonadError::new(ErrorPhase::Launch, ErrorCode::InvalidGuestState, 0)
            },
        )
    } else {
        None
    }
}

impl Vcpu {
    /// Whether this processor is the one that is to be launched, and has room
    /// for the state that it must keep.
    pub fn init_cpu(&self, group: u16, number: u8, xsave_area: usize, xsave_size: u32) -> (result:
        MonadResult<()>)
        ensures
            result == match launch_fault(self@, group, number, xsave_area, xsave_size) {
                Some(error) => Err::<(), MonadError>(error),
                None => Ok(()),
            },
    {
        let cpu: u16 = self.cpu.dense_index;
        if group != self.cpu.group || number != self.cpu.number {
            return Err(
                MonadError::new(
                    ErrorPhase::Topology,
                    ErrorCode::TopologyChanged,
                    cpu as u64,
                ).on_cpu(cpu),
            );
        }
        if xsave_area == 0 || xsave_area & 63 != 0 || xsave_size
            != self.capabilities.xsave.maximum_size {
            return Err(
                MonadError::new(ErrorPhase::Launch, ErrorCode::InvalidGuestState, 0).on_cpu(cpu),
            );
        }
        Ok(())
    }

    /// Whether the processor runs the guest after its launch.
    pub fn launched(&self) -> (result: MonadResult<()>)
        ensures
            result == if self.active {
                Ok::<(), MonadError>(())
            } else {
                Err(
                    MonadError {
                        cpu_dense_index: self.cpu.dense_index,
                        ..MonadError::new(ErrorPhase::Launch, ErrorCode::LaunchRollbackFailure, 0)
                    },
                )
            },
    {
        if self.active {
            return Ok(());
        }
        Err(
            MonadError::new(ErrorPhase::Launch, ErrorCode::LaunchRollbackFailure, 0).on_cpu(
                self.cpu.dense_index,
            ),
        )
    }
}

/// What a controller holds while the processors launch.
pub struct PendingLaunch<A: EptPageAllocator + Clone> {
    pub control: LifecycleControl,
    pub vmm: Vmm<A>,
    pub launch: LaunchContext,
}

/// Where the hypervisor is after a start was given up.
pub open spec fn abandoned(state: LifecycleState) -> LifecycleState {
    if state is Preparing || state is Launching {
        LifecycleState::Absent
    } else {
        state
    }
}

/// Why a start cannot begin, if it cannot.
pub open spec fn start_fault<A: EptPageAllocator + Clone>(
    monitor: Monitor<A>,
    config: VmmStartConfig,
) -> Option<MonadError> {
    if monitor.lifecycle.spec_controlled() {
        Some(MonadError::new(ErrorPhase::Session, ErrorCode::ControllerBusy, 0))
    } else if lifecycle::transition_fault(
        monitor.lifecycle.spec_state(),
        LifecycleState::Absent,
        LifecycleState::Preparing,
    ) is Some {
        lifecycle::transition_fault(
            monitor.lifecycle.spec_state(),
            LifecycleState::Absent,
            LifecycleState::Preparing,
        )
    } else if monitor.vmm is Some {
        Some(MonadError::new(ErrorPhase::Launch, ErrorCode::InvalidLifecycleState, 0))
    } else if config.session_nonce == 0 || config.rendezvous_timeout_tsc == 0 {
        Some(MonadError::new(ErrorPhase::Session, ErrorCode::WrongSession, 0))
    } else {
        None
    }
}

/// Why a monitor that was put together is not launched, if it is not.
pub open spec fn ready_fault<A: EptPageAllocator + Clone>(
    state: LifecycleState,
    vmm: Vmm<A>,
    snapshot: MonadResult<CpuTopology>,
    now: u64,
) -> Option<MonadError> {
    if snapshot is Err {
        Some(snapshot->Err_0)
    } else if !topology::identical(vmm.topology.view(), snapshot->Ok_0.view()) {
        Some(MonadError::new(ErrorPhase::Topology, ErrorCode::TopologyChanged, 0))
    } else if vmm.epoch == u64::MAX {
        Some(MonadError::new(ErrorPhase::Launch, ErrorCode::GenerationOverflow, u64::MAX))
    } else if now + vmm.rendezvous_tsc_budget > u64::MAX {
        Some(MonadError::new(ErrorPhase::Launch, ErrorCode::AddressOverflow, now))
    } else {
        lifecycle::transition_fault(state, LifecycleState::Preparing, LifecycleState::Launching)
    }
}

impl<A: EptPageAllocator + Clone> Monitor<A> {
    /// Gives a start up.
    pub fn abandon_start(&mut self, control: LifecycleControl)
        ensures
            final(self).vmm == old(self).vmm,
            !final(self).lifecycle.spec_controlled(),
            final(self).lifecycle.spec_state() == abandoned(old(self).lifecycle.spec_state()),
    {
        let state = self.lifecycle.state();
        if state == LifecycleState::Preparing || state == LifecycleState::Launching {
            let _ = control.transition(&mut self.lifecycle, state, LifecycleState::Absent);
        }
        control.release(&mut self.lifecycle);
    }

    /// Begins to start the hypervisor.
    pub fn vmm_init(&mut self, config: &VmmStartConfig) -> (result: MonadResult<LifecycleControl>)
        ensures
            final(self).vmm == old(self).vmm,
            match start_fault(*old(self), *config) {
                Some(error) => {
                    &&& result == Err::<LifecycleControl, MonadError>(error)
                    &&& old(self).same_life(&*final(self))
                },
                None => {
                    &&& result is Ok
                    &&& final(self).lifecycle.spec_controlled()
                    &&& final(self).lifecycle.spec_state() == LifecycleState::Preparing
                },
            },
    {
        let control = self.lifecycle.try_control()?;
        if let Err(error) = control.transition(
            &mut self.lifecycle,
            LifecycleState::Absent,
            LifecycleState::Preparing,
        ) {
            control.release(&mut self.lifecycle);
            return Err(error);
        }
        if self.vmm.is_some() {
            self.abandon_start(control);
            return Err(MonadError::new(ErrorPhase::Launch, ErrorCode::InvalidLifecycleState, 0));
        }
        if let Err(error) = config.check() {
            self.abandon_start(control);
            return Err(error);
        }
        Ok(control)
    }

    /// Holds the processors against those that were there at first, and opens
    /// the launch.
    pub fn prepare_launch(
        &mut self,
        control: LifecycleControl,
        vmm: Vmm<A>,
        snapshot: MonadResult<CpuTopology>,
        now: u64,
    ) -> (result: MonadResult<PendingLaunch<A>>)
        requires
            vmm.wf(),
            old(self).lifecycle.spec_controlled(),
        ensures
            final(self).vmm == old(self).vmm,
            match ready_fault(old(self).lifecycle.spec_state(), vmm, snapshot, now) {
                Some(error) => {
                    &&& result == Err::<PendingLaunch<A>, MonadError>(error)
                    &&& !final(self).lifecycle.spec_controlled()
                    &&& final(self).lifecycle.spec_state() == abandoned(
                        old(self).lifecycle.spec_state(),
                    )
                },
                None => {
                    &&& result matches Ok(pending) && {
                        &&& pending.vmm.wf()
                        &&& pending.vmm == (Vmm { epoch: (vmm.epoch + 1) as u64, ..vmm })
                        &&& pending.launch == LaunchContext::spec_new(
                            (vmm.epoch + 1) as u64,
                            vmm.vcpus@.len() as u32,
                            (now + vmm.rendezvous_tsc_budget) as u64,
                        )
                    }
                    &&& final(self).lifecycle.spec_controlled()
                    &&& final(self).lifecycle.spec_state() == LifecycleState::Launching
                },
            },
    {
        let mut vmm = vmm;
        let count: u16 = vmm.topology.len();
        let same: bool = match &snapshot {
            Ok(found) => vmm.topology.same_identity(found),
            Err(error) => {
                let error = *error;
                let _ = vmm.release();
                self.abandon_start(control);
                return Err(error);
            },
        };
        if !same {
            let _ = vmm.release();
            self.abandon_start(control);
            return Err(MonadError::new(ErrorPhase::Topology, ErrorCode::TopologyChanged, 0));
        }
        let epoch: u64 = match vmm.next_epoch() {
            Some(epoch) => epoch,
            None => {
                let _ = vmm.release();
                self.abandon_start(control);
                return Err(
                    MonadError::new(ErrorPhase::Launch, ErrorCode::GenerationOverflow, u64::MAX),
                );
            },
        };
        let deadline: u64 = match now.checked_add(vmm.rendezvous_tsc_budget) {
            Some(deadline) => deadline,
            None => {
                let _ = vmm.release();
                self.abandon_start(control);
                return Err(MonadError::new(ErrorPhase::Launch, ErrorCode::AddressOverflow, now));
            },
        };
        if let Err(error) = control.transition(
            &mut self.lifecycle,
            LifecycleState::Preparing,
            LifecycleState::Launching,
        ) {
            let _ = vmm.release();
            self.abandon_start(control);
            return Err(error);
        }
        Ok(
            PendingLaunch {
                control,
                vmm,
                launch: LaunchContext::new(epoch, count as u32, deadline),
            },
        )
    }

    /// Ends a launch that all processors have left.
    pub fn finish_launch(&mut self, pending: PendingLaunch<A>) -> (result: MonadResult<()>)
        requires
            pending.vmm.wf(),
            old(self).wf(),
        ensures
            final(self).wf(),
            !final(self).lifecycle.spec_controlled(),
            ({
                let state = old(self).lifecycle.spec_state();
                let fault = lifecycle::transition_fault(
                    state,
                    LifecycleState::Launching,
                    LifecycleState::Running,
                );
                match launch_result(pending.launch, pending.vmm.vcpus@) {
                    Err(error) => {
                        &&& result == Err::<(), MonadError>(error)
                        &&& final(self).vmm == old(self).vmm
                        &&& final(self).lifecycle.spec_state() == abandoned(state)
                    },
                    Ok(_) => match fault {
                        Some(error) => {
                            &&& result == Err::<(), MonadError>(error)
                            &&& final(self).vmm == old(self).vmm
                            &&& final(self).lifecycle.spec_state() == abandoned(state)
                        },
                        None => {
                            &&& result == Ok::<(), MonadError>(())
                            &&& final(self).vmm == Some(pending.vmm)
                            &&& final(self).lifecycle.spec_state() == LifecycleState::Running
                        },
                    },
                }
            }),
    {
        let PendingLaunch { control, vmm, launch } = pending;
        if let Err(error) = launch_outcome(&launch, &vmm.vcpus) {
            let _ = vmm.release();
            self.abandon_start(control);
            return Err(error);
        }
        if let Err(error) = control.transition(
            &mut self.lifecycle,
            LifecycleState::Launching,
            LifecycleState::Running,
        ) {
            let _ = vmm.release();
            self.abandon_start(control);
            return Err(error);
        }
        let replaced = self.vmm.take();
        self.vmm = Some(vmm);
        if let Some(replaced) = replaced {
            let _ = replaced.release();
        }
        control.release(&mut self.lifecycle);
        Ok(())
    }
}

/// A processor that runs the guest is asked to stop where the launch of
/// another has failed.
pub proof fn law_failed_launch_is_taken_back(
    launch: LaunchContext,
    vcpu: VcpuModel,
    now: u64,
)
    requires
        launch.failed,
        launch.arrived == launch.participant_count,
        vcpu.active,
        vcpu.mailbox.state is Idle,
    ensures
        ({
            let next = launch.stepped(vcpu, LaunchStage::Gathering, now);
            &&& next.3 == CpuAction::CallMonitor
            &&& next.1.mailbox.operation == RendezvousOperation::Shutdown.spec_code()
            &&& next.1.mailbox.epoch == next.1.rendezvous_epoch
        }),
{
}

/// Nobody leaves a launch in which a processor that was to stop still runs
/// the guest.
pub proof fn law_launch_is_not_left_half(
    launch: LaunchContext,
    vcpu: VcpuModel,
    stage: LaunchStage,
    now: u64,
)
    requires
        stage !is Left,
    ensures
        launch.stepped(vcpu, stage, now).3 is Leave ==> {
            &&& stage is Leaving
            &&& !launch.fatal
            &&& launch.rollback_finished == launch.participant_count
        },
        stage is RollingBack && vcpu.active ==> launch.stepped(vcpu, stage, now).0.fatal,
        launch.fatal ==> launch.stepped(vcpu, stage, now).0.fatal,
{
}

} // verus!
