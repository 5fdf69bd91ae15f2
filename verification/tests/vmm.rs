//! The monitor as a whole: launch, requests, changes of view and shutdown.

use std::cell::Cell;
use std::rc::Rc;

use monad::arch::intel::caps::{
    collect_capabilities, RawCapabilities, ValidatedPlatform, EPT_INVEPT, EPT_INVEPT_ALL,
    EPT_INVEPT_SINGLE, EPT_EXECUTE_ONLY, EPT_MEMORY_TYPE_WB, EPT_PAGE_1G, EPT_PAGE_2M, EPT_WALK_LENGTH_4,
    FEATURE_CONTROL_LOCK, FEATURE_CONTROL_VMX_OUTSIDE_SMX, MEMORY_TYPE_WRITE_BACK,
    VMX_BASIC_MEMORY_TYPE_SHIFT,
};
use monad::arch::intel::control::{
    REQUIRED_PRIMARY, REQUIRED_SECONDARY, REQUIRED_VMENTRY, REQUIRED_VMEXIT,
};
use monad::arch::intel::vmcs::GuestRegs;
use monad::arch::intel::vmx::OriginalControlRegisters;
use monad::driver::dispatch::{execute, finish, Completion, DeviceWork};
use monad::driver::ioctl::{
    operation, write_pod, ABI_VERSION, IOCTL_ALLOCATE_BACKING, IOCTL_CREATE_DRAFT,
    IOCTL_LIST_VIEWS, IOCTL_PUBLISH_VIEW, IOCTL_STOP_VMM, STATUS_SUCCESS,
};
use monad::driver::session::ControllerSession;
use monad::driver::wire::{Pod, RequestHeader};
use monad::ept::page::PageLog;
use monad::ept::{
    BackingState, DraftEdit, EptPageAllocator, EptPermissions, GpaRange, GuestPhysicalAddress,
    HostPhysicalAddress, RawMtrrState, ViewId, WalkResult, PAGE_SIZE_4K,
};
use monad::error::{ErrorCode, ErrorPhase, MonadError, MonadResult};
use monad::exit::disposition::{ExitDisposition, FatalReason};
use monad::exit::vmcall;
use monad::lifecycle::LifecycleState;
use monad::memory::MemoryRange;
use monad::rendezvous::transaction::SwitchLog;
use monad::rendezvous::{CpuResultState, SwitchStep, ViewSwitchBackend};
use monad::telemetry::EventRecord;
use monad::topology::{CpuId, CpuSetWord, CpuTopology};
use monad::vmm::activation::{Activation, CpuAction, CpuStage};
use monad::vmm::bringup::{BringUp, BringUpAction, BringUpReply};
use monad::vmm::control::{ShutdownStep, StopReads};
use monad::vmm::launch::{alloc_vmm, LaunchStage, PendingLaunch};
use monad::vmm::machine::{Monitor, PublicViewState, Vmm};
use monad::vmm::setup::{
    configured_limit, inspect_capabilities, msr_bitmap, valid_physical_allocation,
    xsave_allocation_size, xsave_placement, VmmStartConfig,
};
use monad::vmm::Vcpu;

#[derive(Default)]
struct FakePageStats {
    allocated: Cell<usize>,
    freed: Cell<usize>,
}

struct FakeAllocation {
    entries: Box<[u64; 512]>,
    bytes: Box<[u8; 4096]>,
}

struct FakePageState {
    next_hpa: Cell<u64>,
    allocation_ordinal: Cell<usize>,
    fail_at: Cell<Option<usize>>,
}

#[derive(Clone)]
struct FakePageAllocator {
    state: Rc<FakePageState>,
    stats: Rc<FakePageStats>,
}

impl FakePageAllocator {
    fn new(start_hpa: u64, fail_at: Option<usize>) -> Self {
        Self {
            state: Rc::new(FakePageState {
                next_hpa: Cell::new(start_hpa),
                allocation_ordinal: Cell::new(0),
                fail_at: Cell::new(fail_at),
            }),
            stats: Rc::new(FakePageStats::default()),
        }
    }
}

impl EptPageAllocator for FakePageAllocator {
    type Allocation = FakeAllocation;

    fn table(allocation: Self::Allocation) -> [u64; 512] {
        *allocation.entries
    }

    fn octets(allocation: Self::Allocation) -> [u8; 4096] {
        *allocation.bytes
    }

    fn lies_at(_allocation: Self::Allocation) -> u64 {
        unreachable!("an address for proofs")
    }

    fn asked(&self) -> PageLog<MonadResult<u64>> {
        unreachable!("a log for proofs")
    }

    fn returned(&self) -> PageLog<Self::Allocation> {
        unreachable!("a log for proofs")
    }

    fn refuses(error: MonadError) -> bool {
        error.phase == ErrorPhase::EptBuild
    }

    fn allocate_page(
        &mut self,
        max_physical_bits: u8,
    ) -> MonadResult<(Self::Allocation, HostPhysicalAddress)> {
        let ordinal = self.state.allocation_ordinal.get();
        self.state.allocation_ordinal.set(ordinal + 1);
        if self.state.fail_at.get() == Some(ordinal) {
            return Err(MonadError::new(
                ErrorPhase::EptBuild,
                ErrorCode::EptAllocationFailure,
                ordinal as u64,
            ));
        }
        let hpa = HostPhysicalAddress::for_mapping(
            self.state.next_hpa.get(),
            PAGE_SIZE_4K,
            PAGE_SIZE_4K,
            max_physical_bits,
        )?;
        self.state.next_hpa.set(self.state.next_hpa.get() + PAGE_SIZE_4K);
        self.stats.allocated.set(self.stats.allocated.get() + 1);
        let allocation = FakeAllocation {
            entries: Box::new([0; 512]),
            bytes: Box::new([0; 4096]),
        };
        Ok((allocation, hpa))
    }

    fn entries(allocation: &Self::Allocation) -> &[u64; 512] {
        &allocation.entries
    }

    fn entries_mut(allocation: &mut Self::Allocation) -> &mut [u64; 512] {
        &mut allocation.entries
    }

    fn bytes(allocation: &Self::Allocation) -> &[u8; 4096] {
        &allocation.bytes
    }

    fn bytes_mut(allocation: &mut Self::Allocation) -> &mut [u8; 4096] {
        &mut allocation.bytes
    }

    fn free_page(&mut self, _allocation: Self::Allocation) {
        self.stats.freed.set(self.stats.freed.get() + 1);
    }
}

const ONE_GIB: u64 = 0x4000_0000;
const NONCE: u64 = 0x55aa;

fn capability_msr(required: u32) -> u64 {
    u64::from(required) | (u64::from(u32::MAX) << 32)
}

fn raw_capabilities(count: u16) -> RawCapabilities {
    RawCapabilities {
        cpuid_1_ecx: (1 << 5) | (1 << 26),
        cpuid_80000008_eax: 48,
        cpuid_d1_eax: 1 << 3,
        xcr0_supported: 0x3,
        feature_control: FEATURE_CONTROL_LOCK | FEATURE_CONTROL_VMX_OUTSIDE_SMX,
        vmx_basic: 1 | ((MEMORY_TYPE_WRITE_BACK as u64) << VMX_BASIC_MEMORY_TYPE_SHIFT),
        cr0_fixed0: 0x20,
        cr0_fixed1: u64::MAX,
        cr4_fixed0: 0,
        cr4_fixed1: u64::MAX,
        pinbased_controls: capability_msr(0),
        primary_controls: capability_msr(REQUIRED_PRIMARY),
        secondary_controls: capability_msr(REQUIRED_SECONDARY),
        exit_controls: capability_msr(REQUIRED_VMEXIT),
        entry_controls: capability_msr(REQUIRED_VMENTRY),
        ept_vpid: EPT_WALK_LENGTH_4
            | EPT_MEMORY_TYPE_WB
            | EPT_PAGE_2M
            | EPT_PAGE_1G
            | EPT_INVEPT
            | EPT_INVEPT_SINGLE
            | EPT_INVEPT_ALL,
        processor_count: count,
        ..RawCapabilities::default()
    }
}

fn processors(count: u16) -> CpuTopology {
    let ids: Vec<CpuId> = (0..count)
        .map(|index| CpuId { dense_index: index, group: 0, number: index as u8, reserved: [0; 3] })
        .collect();
    CpuTopology::from_ids(&ids).expect("topology")
}

fn platform(count: u16) -> ValidatedPlatform {
    let raw = vec![raw_capabilities(count); usize::from(count)];
    match collect_capabilities(processors(count), &raw) {
        Ok(platform) => platform,
        Err(error) => panic!("platform: {error:?}"),
    }
}

fn range_registers() -> RawMtrrState {
    RawMtrrState {
        capability: 0,
        default_type: 0x806,
        fixed: [0; 11],
        variable: vec![],
        max_physical_bits: 48,
    }
}

fn memory() -> Vec<MemoryRange> {
    vec![
        MemoryRange { base: 0, bytes: ONE_GIB as i64 },
        MemoryRange { base: 0, bytes: 0 },
    ]
}

fn start_options() -> VmmStartConfig {
    VmmStartConfig {
        session_nonce: NONCE,
        aperture_limit: 0,
        rendezvous_timeout_tsc: 1000,
        device_ranges: vec![],
    }
}

fn assembled(count: u16, allocator: FakePageAllocator) -> Vmm<FakePageAllocator> {
    match alloc_vmm(&start_options(), &platform(count), &memory(), Ok(range_registers()), allocator)
    {
        Ok(vmm) => vmm,
        Err(error) => panic!("monitor: {error:?}"),
    }
}

fn opened(count: u16) -> (Monitor<FakePageAllocator>, PendingLaunch<FakePageAllocator>) {
    let mut monitor = Monitor::new();
    let control = monitor.vmm_init(&start_options()).expect("control");
    assert_eq!(monitor.lifecycle_state(), LifecycleState::Preparing);
    let vmm = assembled(count, FakePageAllocator::new(0x1000_0000, None));
    let pending = match monitor.prepare_launch(control, vmm, Ok(processors(count)), 10) {
        Ok(pending) => pending,
        Err(error) => panic!("launch: {error:?}"),
    };
    assert_eq!(monitor.lifecycle_state(), LifecycleState::Launching);
    (monitor, pending)
}

/// Takes every processor through its launch, in turn.
fn launch(pending: &mut PendingLaunch<FakePageAllocator>, fails: Option<usize>) {
    let count = pending.vmm.vcpus.len();
    for cpu in 0..count {
        let vcpu = &mut pending.vmm.vcpus[cpu];
        vcpu.active = fails != Some(cpu);
        let result = vcpu.launched();
        pending.launch.report_launch(vcpu, result);
    }
    let mut stages = vec![LaunchStage::Gathering; count];
    while stages.iter().any(|stage| *stage != LaunchStage::Left) {
        for cpu in 0..count {
            let vcpu = &mut pending.vmm.vcpus[cpu];
            let (stage, action) = pending.launch.launch_cpu(vcpu, stages[cpu], 20);
            stages[cpu] = stage;
            match action {
                CpuAction::CallMonitor => {
                    let called = vmcall::handle(
                        vcpu,
                        Ok(0x10),
                        vcpu_name(cpu),
                        None,
                        &mut Hardware::default(),
                    );
                    assert_eq!(called, ExitDisposition::Shutdown);
                    vcpu.active = false;
                }
                CpuAction::Halt(place) => panic!("halted at {place}"),
                _ => {}
            }
        }
    }
}

fn vcpu_name(cpu: usize) -> CpuId {
    CpuId { dense_index: cpu as u16, group: 0, number: cpu as u8, reserved: [0; 3] }
}

fn running(count: u16) -> Monitor<FakePageAllocator> {
    let (mut monitor, mut pending) = opened(count);
    launch(&mut pending, None);
    monitor.finish_launch(pending).expect("running");
    assert_eq!(monitor.lifecycle_state(), LifecycleState::Running);
    monitor
}

/// Switching hardware of which some steps fail, by how many were taken.
#[derive(Default)]
struct Hardware {
    taken: usize,
    fails: Option<usize>,
}

impl ViewSwitchBackend for Hardware {
    fn calls(&self) -> SwitchLog {
        unreachable!("a log for proofs")
    }

    fn run(&mut self, _cpu: u16, _step: SwitchStep, _eptp: u64) -> MonadResult<()> {
        let step = self.taken;
        self.taken += 1;
        if self.fails == Some(step) {
            return Err(MonadError::new(ErrorPhase::Activation, ErrorCode::InveptFailure, 0));
        }
        Ok(())
    }
}

/// Takes every processor through a change of view, in an order that `order`
/// gives, with hardware that fails on one of them.
fn change(
    vmm: &mut Vmm<FakePageAllocator>,
    activation: &mut Activation,
    order: &[usize],
    fails: Option<usize>,
) {
    let count = vmm.vcpus.len();
    let mut stages = vec![CpuStage::Arriving; count];
    let mut rounds = 0;
    while stages.iter().any(|stage| *stage != CpuStage::Left) {
        rounds += 1;
        assert!(rounds < 100, "stuck in {stages:?}");
        for cpu in order {
            let (stage, action) =
                activation.activate_cpu(&mut vmm.vcpus[*cpu], stages[*cpu], 20);
            let left = stages.iter().any(|stage| *stage == CpuStage::Left);
            if left {
                assert!(stages.iter().all(|stage| matches!(
                    stage,
                    CpuStage::Leaving | CpuStage::Left
                )));
            }
            stages[*cpu] = stage;
            match action {
                CpuAction::CallMonitor => {
                    let mut hardware = Hardware {
                        taken: 0,
                        fails: if fails == Some(*cpu) { Some(1) } else { None },
                    };
                    let called = vmcall::handle(
                        &mut vmm.vcpus[*cpu],
                        Ok(0x10),
                        vcpu_name(*cpu),
                        Some(&vmm.published_views),
                        &mut hardware,
                    );
                    assert_eq!(called, ExitDisposition::ResumeAndAdvance);
                }
                CpuAction::Halt(place) => panic!("halted at {place}"),
                _ => {}
            }
        }
    }
}

fn published(monitor: &mut Monitor<FakePageAllocator>) -> ViewId {
    let base = monitor.running().expect("running").manager.base_id();
    let draft = monitor.create_draft(base).expect("draft");
    monitor.publish_view(draft).expect("publish")
}

fn word(mask: u64) -> CpuSetWord {
    CpuSetWord { group: 0, reserved: 0, mask }
}

#[test]
fn a_launch_runs_on_all_processors() {
    let monitor = running(3);
    for cpu in 0..3 {
        let state = monitor.vcpu_state(cpu).expect("state");
        assert!(state.active);
        assert_eq!(state.active_view, ViewId { slot: 0, reserved: 0, generation: NONCE });
    }
    assert!(monitor.vcpu_state(3).is_err());
    assert_eq!(monitor.aperture_end(), Ok(ONE_GIB));
}

#[test]
fn a_failed_launch_leaves_nothing_behind() {
    for failed in 0..3 {
        let (mut monitor, mut pending) = opened(3);
        launch(&mut pending, Some(failed));
        assert!(pending.vmm.vcpus.iter().all(|vcpu| !vcpu.active));
        let error = monitor.finish_launch(pending).expect_err("failed");
        assert_eq!(error.code, ErrorCode::LaunchRollbackFailure);
        assert_eq!(usize::from(error.cpu_dense_index), failed);
        assert_eq!(monitor.lifecycle_state(), LifecycleState::Absent);
        assert!(monitor.vmm.is_none());
        assert!(monitor.vmm_init(&start_options()).is_ok());
    }
}

#[test]
fn a_launch_needs_the_processors_that_were_there() {
    let mut monitor = Monitor::new();
    let control = monitor.vmm_init(&start_options()).expect("control");
    let allocator = FakePageAllocator::new(0x1000_0000, None);
    let stats = Rc::clone(&allocator.stats);
    let vmm = assembled(2, allocator);
    let error = match monitor.prepare_launch(control, vmm, Ok(processors(3)), 10) {
        Ok(_) => panic!("another topology"),
        Err(error) => error,
    };
    assert_eq!(error.code, ErrorCode::TopologyChanged);
    assert!(stats.allocated.get() > 0);
    assert_eq!(stats.allocated.get(), stats.freed.get());
    assert_eq!(monitor.lifecycle_state(), LifecycleState::Absent);
}

#[test]
fn starts_are_refused_without_session_or_memory() {
    let mut monitor: Monitor<FakePageAllocator> = Monitor::new();
    let mut options = start_options();
    options.session_nonce = 0;
    let refused = monitor.vmm_init(&options).map(|_| ()).expect_err("no session");
    assert_eq!(refused.code, ErrorCode::WrongSession);
    assert_eq!(monitor.lifecycle_state(), LifecycleState::Absent);

    let options = VmmStartConfig { aperture_limit: 5, ..start_options() };
    let odd = alloc_vmm(
        &options,
        &platform(1),
        &memory(),
        Ok(range_registers()),
        FakePageAllocator::new(0x1000_0000, None),
    );
    assert_eq!(odd.map(|_| ()).expect_err("odd limit").detail, 5);

    let allocator = FakePageAllocator::new(0x1000_0000, Some(0));
    let stats = Rc::clone(&allocator.stats);
    let short =
        alloc_vmm(&start_options(), &platform(1), &memory(), Ok(range_registers()), allocator);
    assert_eq!(short.map(|_| ()).expect_err("no page").code, ErrorCode::EptAllocationFailure);
    assert_eq!(stats.allocated.get(), stats.freed.get());
}

#[test]
fn requests_need_the_running_monitor() {
    let mut monitor: Monitor<FakePageAllocator> = Monitor::new();
    let view = ViewId { slot: 0, reserved: 0, generation: NONCE };
    assert_eq!(
        monitor.create_draft(view).expect_err("absent").code,
        ErrorCode::InvalidLifecycleState
    );
    assert!(monitor.activate_view(view, &[word(1)], 0).is_err());
    assert!(matches!(monitor.vmm_shutdown(0), Ok(ShutdownStep::Nothing)));
}

#[test]
fn edits_stay_with_registered_targets() {
    let mut monitor = running(1);
    let base = monitor.running().expect("running").manager.base_id();
    let draft = monitor.create_draft(base).expect("draft");
    let edit = DraftEdit::SetPermissions {
        range: GpaRange::new(0, PAGE_SIZE_4K, ONE_GIB).expect("range"),
        permissions: EptPermissions::new(true, false, false, false).expect("read"),
    };
    let refused = monitor.apply_edit_batch(draft, &[edit]).expect_err("not a target");
    assert_eq!(refused.code, ErrorCode::AccessDenied);
    assert_eq!(refused.operation_index, 0);
    let backing = monitor.allocate_backing(1, false).expect("backing");
    monitor.write_backing(backing, 8, &[1, 2, 3]).expect("write");
    let target = monitor.register_target(backing, 0).expect("target");
    assert_eq!(monitor.register_target(backing, 0), Ok(target));
    let manager = &monitor.running().expect("running").manager;
    assert_eq!(manager.backing_state(backing), Ok(BackingState::Mutable));
    let owned = DraftEdit::SetPermissions {
        range: GpaRange::new(target.get(), PAGE_SIZE_4K, ONE_GIB).expect("range"),
        permissions: EptPermissions::new(true, false, false, false).expect("read"),
    };
    monitor.apply_edit_batch(draft, &[owned]).expect("owned");
    let WalkResult::Mapping(mapping) = monitor.query_draft(draft, target).expect("walk") else {
        panic!("mapping")
    };
    assert!(!mapping.permissions.write());
    assert!(monitor.free_backing(backing).is_err());
    monitor.discard_draft(draft).expect("discard");
}

#[test]
fn a_change_of_view_switches_all_targets() {
    for order in [[0, 1, 2], [2, 0, 1], [1, 2, 0]] {
        let mut monitor = running(3);
        let view = published(&mut monitor);
        let mut pending = monitor.activate_view(view, &[word(0b101)], 5).expect("prepared");
        let vmm = monitor.vmm.as_mut().expect("monitor");
        change(vmm, &mut pending.activation, &order, None);
        assert_eq!(
            pending.activation.transaction.per_cpu[1].state(),
            CpuResultState::NotTarget.code()
        );
        monitor.end_activation(pending).expect("activated");
        let views: Vec<ViewId> = (0..3)
            .map(|cpu| monitor.vcpu_state(cpu).expect("state").active_view)
            .collect();
        let base = ViewId { slot: 0, reserved: 0, generation: NONCE };
        assert_eq!(views, vec![view, base, view]);
        let mut listed = vec![PublicViewState::default(); 8];
        assert_eq!(monitor.list_views(&mut listed), Ok((2, 2)));
        assert_eq!(listed[0].active_cpu_set[0], 0b010);
        assert_eq!(listed[1].active_cpu_set[0], 0b101);
    }
}

#[test]
fn a_change_that_fails_on_one_processor_is_taken_back_on_all() {
    for order in [[0, 1, 2], [2, 0, 1], [1, 2, 0]] {
        for failed in 0..3 {
            let mut monitor = running(3);
            let view = published(&mut monitor);
            let mut pending = monitor.activate_view(view, &[word(0b111)], 5).expect("prepared");
            let vmm = monitor.vmm.as_mut().expect("monitor");
            change(vmm, &mut pending.activation, &order, Some(failed));
            let error = monitor.end_activation(pending).expect_err("taken back");
            assert_eq!(error.code, ErrorCode::ActivationRolledBack);
            assert_eq!(error.detail, 0);
            let base = ViewId { slot: 0, reserved: 0, generation: NONCE };
            for cpu in 0..3 {
                assert_eq!(monitor.vcpu_state(cpu).expect("state").active_view, base);
            }
            assert_eq!(monitor.lifecycle_state(), LifecycleState::Running);
        }
    }
}

#[test]
fn a_change_that_not_all_join_is_fatal() {
    let mut monitor = running(2);
    let view = published(&mut monitor);
    let mut pending = monitor.activate_view(view, &[word(1)], 5).expect("prepared");
    let vmm = monitor.vmm.as_mut().expect("monitor");
    let (stage, _) = pending.activation.activate_cpu(&mut vmm.vcpus[0], CpuStage::Arriving, 20);
    let (stage, action) = pending.activation.activate_cpu(&mut vmm.vcpus[0], stage, 21);
    assert_eq!(action, CpuAction::Spin);
    let (_, action) = pending.activation.activate_cpu(&mut vmm.vcpus[0], stage, 5000);
    assert_eq!(action, CpuAction::Halt(1));
    assert_eq!(monitor.end_activation(pending).expect_err("fatal").detail, 1);
}

#[test]
fn a_shutdown_goes_back_to_the_base_view_and_stops() {
    let mut monitor = running(2);
    let view = published(&mut monitor);
    let mut pending = monitor.activate_view(view, &[word(0b11)], 5).expect("prepared");
    change(monitor.vmm.as_mut().expect("monitor"), &mut pending.activation, &[0, 1], None);
    monitor.end_activation(pending).expect("activated");

    let mut pending = match monitor.vmm_shutdown(30) {
        Ok(ShutdownStep::ReturnToBase(pending)) => pending,
        _ => panic!("nothing to stop"),
    };
    assert_eq!(monitor.lifecycle_state(), LifecycleState::Quiescing);
    change(monitor.vmm.as_mut().expect("monitor"), &mut pending.activation, &[1, 0], None);
    let control = monitor.continue_shutdown(pending).expect("stopping");
    assert_eq!(monitor.lifecycle_state(), LifecycleState::Stopping);
    let vmm = monitor.vmm.as_mut().expect("monitor");
    for cpu in 0..2 {
        let vcpu = &mut vmm.vcpus[cpu];
        let called =
            vmcall::handle(vcpu, Ok(0x10), vcpu_name(cpu), None, &mut Hardware::default());
        assert_eq!(called, ExitDisposition::Shutdown);
        let reads = StopReads {
            rip: 0x1010,
            rsp: 0x8000,
            rflags: 2,
            instruction_length: 3,
            guest_cs: 0x10,
            trampoline_start: 0x1000,
            trampoline_end: 0x1020,
        };
        assert!(vcpu.stop_cpu(StopReads { rip: 0x2000, ..reads }).is_err());
        vcpu.stop_cpu(reads).expect("stopped");
        assert_eq!((vcpu.regs.rip, vcpu.regs.rsp), (0x1013, 0x8000));
        vcpu.active = false;
    }
    monitor.finish_shutdown(control).expect("absent");
    assert_eq!(monitor.lifecycle_state(), LifecycleState::Absent);
    assert!(monitor.vmm.is_none());
}

#[test]
fn all_pages_come_back_after_a_stop() {
    let allocator = FakePageAllocator::new(0x1000_0000, None);
    let stats = Rc::clone(&allocator.stats);
    let mut monitor = Monitor::new();
    let control = monitor.vmm_init(&start_options()).expect("control");
    let vmm = assembled(1, allocator);
    let mut pending = match monitor.prepare_launch(control, vmm, Ok(processors(1)), 10) {
        Ok(pending) => pending,
        Err(error) => panic!("launch: {error:?}"),
    };
    launch(&mut pending, None);
    monitor.finish_launch(pending).expect("running");
    published(&mut monitor);
    let base = monitor.running().expect("running").manager.base_id();
    monitor.create_draft(base).expect("draft");
    monitor.allocate_backing(3, false).expect("backing");
    assert!(stats.allocated.get() > stats.freed.get());
    let mut pending = match monitor.vmm_shutdown(30) {
        Ok(ShutdownStep::ReturnToBase(pending)) => pending,
        _ => panic!("nothing to stop"),
    };
    change(monitor.vmm.as_mut().expect("monitor"), &mut pending.activation, &[0], None);
    let control = monitor.continue_shutdown(pending).expect("stopping");
    monitor.vmm.as_mut().expect("monitor").vcpus[0].active = false;
    monitor.finish_shutdown(control).expect("absent");
    assert_eq!(stats.allocated.get(), stats.freed.get());
}

#[test]
fn a_processor_that_does_not_stop_is_fatal() {
    let mut monitor = running(2);
    let mut pending = match monitor.vmm_shutdown(30) {
        Ok(ShutdownStep::ReturnToBase(pending)) => pending,
        _ => panic!("nothing to stop"),
    };
    change(monitor.vmm.as_mut().expect("monitor"), &mut pending.activation, &[0, 1], None);
    let control = monitor.continue_shutdown(pending).expect("stopping");
    let error = monitor.finish_shutdown(control).expect_err("still active");
    assert_eq!(error.code, ErrorCode::ShutdownFailure);
    assert_eq!(monitor.lifecycle_state(), LifecycleState::Fatal);
    let control = monitor.lifecycle.try_control().expect("not held any more");
    control.release(&mut monitor.lifecycle);
}

#[test]
fn a_monitor_suits_its_processors() {
    for page_size in [EPT_PAGE_1G, EPT_PAGE_2M] {
        let small = RawCapabilities {
            ept_vpid: raw_capabilities(1).ept_vpid & !page_size,
            ..raw_capabilities(1)
        };
        match collect_capabilities(processors(1), &[small]) {
            Ok(_) => panic!("a leaf size is missing"),
            Err(error) => assert_eq!(error.code, ErrorCode::UnsupportedCapability),
        }
    }
    let execute_only = RawCapabilities {
        ept_vpid: raw_capabilities(1).ept_vpid | EPT_EXECUTE_ONLY,
        ..raw_capabilities(1)
    };
    for (raw, alone) in [(raw_capabilities(1), false), (execute_only, true)] {
        let platform = match collect_capabilities(processors(1), &[raw]) {
            Ok(platform) => platform,
            Err(error) => panic!("platform: {error:?}"),
        };
        let vmm = match alloc_vmm(
            &start_options(),
            &platform,
            &memory(),
            Ok(range_registers()),
            FakePageAllocator::new(0x1000_0000, None),
        ) {
            Ok(vmm) => vmm,
            Err(error) => panic!("monitor: {error:?}"),
        };
        let base = vmm.manager.base_id();
        let figures = vmm.manager.metadata(base).expect("figures");
        assert_eq!((figures.leaf_1g, figures.leaf_2m, figures.leaf_4k), (1, 0, 0));
        let image = vmm.manager.published_view(base).expect("base").image();
        assert_eq!(image.execute_only_supported(), alone);
    }
}

#[test]
fn events_are_read_from_the_processor_that_recorded_them() {
    let mut monitor = running(2);
    let vmm = monitor.vmm.as_mut().expect("monitor");
    let mut event = EventRecord::zeroed();
    event.detail = 77;
    vmm.vcpus[1].events.as_mut().expect("ring").record(event);
    let mut output = [EventRecord::zeroed(); 2];
    assert_eq!(monitor.read_events(0, 0, &mut output).expect("read").count, 0);
    assert_eq!(monitor.read_events(1, 0, &mut output).expect("read").count, 1);
    assert_eq!(output[0].detail, 77);
    assert!(monitor.read_events(2, 0, &mut output).is_err());
}

fn header(code: u32) -> RequestHeader {
    let shape = operation(code).expect("operation");
    RequestHeader {
        abi_version: ABI_VERSION,
        struct_size: shape.input_size as u16,
        flags: 0,
        request_id: 9,
        session_nonce: NONCE,
    }
}

fn request(code: u32, fields: &[(usize, &[u8])]) -> Vec<u8> {
    let shape = operation(code).expect("operation");
    let mut input = vec![0u8; shape.input_size];
    write_pod(&mut input[..RequestHeader::size()], &header(code)).expect("header");
    for (offset, bytes) in fields {
        input[*offset..*offset + bytes.len()].copy_from_slice(bytes);
    }
    input
}

fn answered(
    session: &mut ControllerSession,
    monitor: &mut Monitor<FakePageAllocator>,
    code: u32,
    input: &[u8],
    output: &mut [u8],
) -> Completion {
    let inspected = Ok(inspect_capabilities(None));
    match execute(session, monitor, code, inspected, 5, input, output) {
        DeviceWork::Answered(completion) => completion,
        _ => panic!("work was left"),
    }
}

#[test]
fn controllers_are_answered_through_the_device() {
    let mut session = ControllerSession::new();
    session.acquire(NONCE).expect("session");
    let mut monitor = running(2);
    let mut output = vec![0u8; 4096];

    let listed = answered(
        &mut session,
        &mut monitor,
        IOCTL_LIST_VIEWS,
        &request(IOCTL_LIST_VIEWS, &[(28, &2u32.to_le_bytes())]),
        &mut output,
    );
    assert_eq!(listed.status, STATUS_SUCCESS);

    let base = ViewId { slot: 0, reserved: 0, generation: NONCE };
    let mut named = [0u8; 16];
    named[8..].copy_from_slice(&base.generation.to_le_bytes());
    let drafted = answered(
        &mut session,
        &mut monitor,
        IOCTL_CREATE_DRAFT,
        &request(IOCTL_CREATE_DRAFT, &[(RequestHeader::size(), &named)]),
        &mut output,
    );
    assert_eq!(drafted.status, STATUS_SUCCESS);
    assert_eq!(session.inflight(), 0);

    let allocated = answered(
        &mut session,
        &mut monitor,
        IOCTL_ALLOCATE_BACKING,
        &request(IOCTL_ALLOCATE_BACKING, &[(RequestHeader::size(), &3u32.to_le_bytes())]),
        &mut output,
    );
    assert_eq!(allocated.status, STATUS_SUCCESS);

    let stale = answered(
        &mut session,
        &mut monitor,
        IOCTL_PUBLISH_VIEW,
        &request(IOCTL_PUBLISH_VIEW, &[]),
        &mut output,
    );
    assert_ne!(stale.status, STATUS_SUCCESS);
    assert_eq!(monitor.running().expect("running").manager.published_count(), 1);
}

#[test]
fn a_start_is_handed_on_and_answered_when_it_is_done() {
    let mut session = ControllerSession::new();
    session.acquire(NONCE).expect("session");
    let mut monitor: Monitor<FakePageAllocator> = Monitor::new();
    let mut output = vec![0u8; 4096];
    let stopped = request(IOCTL_STOP_VMM, &[]);
    let inspected = Ok(inspect_capabilities(None));
    let work =
        execute(&mut session, &mut monitor, IOCTL_STOP_VMM, inspected, 5, &stopped, &mut output);
    match work {
        DeviceWork::Answered(completion) => assert_ne!(completion.status, STATUS_SUCCESS),
        _ => panic!("nothing runs"),
    }
    let mut running = running(1);
    let inspected = Ok(inspect_capabilities(None));
    let work =
        execute(&mut session, &mut running, IOCTL_STOP_VMM, inspected, 5, &stopped, &mut output);
    let pending = match work {
        DeviceWork::Stop(pending) => pending,
        _ => panic!("to be stopped"),
    };
    assert_eq!(session.inflight(), 1);
    let completion = finish(&mut session, pending, &stopped, Ok(()), &mut output);
    assert_eq!(completion.status, STATUS_SUCCESS);
    assert_eq!(session.inflight(), 0);
}

#[test]
fn sizes_and_limits_of_a_start() {
    assert_eq!(configured_limit(0, 36), Ok(1 << 36));
    assert_eq!(configured_limit(0x1000, 36), Ok(0x1000));
    assert!(configured_limit(1 << 37, 36).is_err());
    assert!(configured_limit(0x1001, 36).is_err());
    assert!(valid_physical_allocation(0x1000, 0x2000, 0x1000, 0x1000, 48));
    assert!(!valid_physical_allocation(0x1001, 0x2000, 0x1000, 0x1000, 48));
    assert!(!valid_physical_allocation(0x1000, 1 << 48, 0x1000, 0x1000, 48));
    assert_eq!(xsave_allocation_size(576), Some(576 + 63));
    assert_eq!(xsave_placement(0x1001, 576), Some(0x1040));
    let bitmap = msr_bitmap(8);
    assert_eq!(bitmap.len(), 4096);
    assert_eq!(bitmap[2048 + 0x200 / 8] & 1, 1);
    assert_eq!(bitmap[2048 + 0x1b / 8] & (1 << (0x1b % 8)), 0);
}

#[test]
fn walks_are_answered_for_views_and_drafts() {
    let mut monitor = running(1);
    let gpa = GuestPhysicalAddress::from_page_aligned(0x3000).expect("gpa");
    let base = monitor.running().expect("running").manager.base_id();
    let draft = monitor.create_draft(base).expect("draft");
    let view = monitor.query_view(base, gpa).expect("walk");
    assert_eq!(monitor.query_draft(draft, gpa).expect("walk"), view);
    let beyond = GuestPhysicalAddress::from_page_aligned(ONE_GIB).expect("gpa");
    assert!(matches!(
        monitor.query_view(base, beyond).expect("walk"),
        WalkResult::NotPresent { .. }
    ));
}

fn assert_confined(monitor: &Monitor<FakePageAllocator>) {
    let vmm = monitor.running().expect("running");
    for vcpu in &vmm.vcpus {
        let active = vcpu.active_view;
        assert_eq!(vmm.published_views.resolve(active.id), Some(active.eptp));
        assert_eq!(vmm.manager.published_eptp(active.id), Ok(active.eptp));
    }
}

#[test]
fn processors_run_published_views_only() {
    let mut monitor = running(3);
    assert_confined(&monitor);
    let base = monitor.running().expect("running").manager.base_id();
    let view = published(&mut monitor);
    for (target, fails) in [(view, Some(1)), (view, None), (base, Some(2)), (base, None)] {
        let mut pending = monitor.activate_view(target, &[word(0b111)], 30).expect("prepared");
        let vmm = monitor.vmm.as_mut().expect("monitor");
        change(vmm, &mut pending.activation, &[2, 0, 1], fails);
        assert_eq!(monitor.end_activation(pending).is_ok(), fails.is_none());
        assert_confined(&monitor);
        let _ = published(&mut monitor);
        assert_confined(&monitor);
    }
}

#[test]
fn a_publication_outlasts_what_is_asked_later() {
    let mut monitor = running(1);
    let first = published(&mut monitor);
    let backing = monitor.allocate_backing(1, false).expect("backing");
    let manager = &mut monitor.running_mut().expect("running").manager;
    let gpa = manager.register_target(backing, 0).expect("target");
    let before = monitor.query_view(first, gpa).expect("walk");
    let draft = monitor.create_draft(first).expect("draft");
    let edit = DraftEdit::SetPermissions {
        range: GpaRange::new(gpa.get(), PAGE_SIZE_4K, ONE_GIB).expect("range"),
        permissions: EptPermissions::new(true, false, false, false).expect("read"),
    };
    monitor.apply_edit_batch(draft, &[edit]).expect("applied");
    assert_ne!(monitor.query_draft(draft, gpa).expect("walk"), before);
    assert_eq!(monitor.query_view(first, gpa).expect("walk"), before);
    let second = monitor.publish_view(draft).expect("published");
    assert_ne!(monitor.query_view(second, gpa).expect("walk"), before);
    assert_eq!(monitor.query_view(first, gpa).expect("walk"), before);
    let dropped = monitor.create_draft(second).expect("draft");
    monitor.discard_draft(dropped).expect("dropped");
    assert_eq!(monitor.query_view(first, gpa).expect("walk"), before);
}

/// The native processor of an attempt, of which one action fails.
struct NativeCpu {
    vmx_on: bool,
    controls: OriginalControlRegisters,
    mask: u64,
    taken: usize,
    fails: Vec<usize>,
}

const BEFORE: OriginalControlRegisters = OriginalControlRegisters { cr0: 0x1, cr4: 0x8 };

impl NativeCpu {
    fn new(fails: &[usize]) -> Self {
        Self { vmx_on: false, controls: BEFORE, mask: 0x7, taken: 0, fails: fails.to_vec() }
    }

    fn carry_out(&mut self, action: BringUpAction) -> BringUpReply {
        self.taken += 1;
        let failed = self.fails.contains(&self.taken);
        if let BringUpAction::Launch = action {
            self.mask = 0x3;
        }
        if failed {
            return BringUpReply::Failed(MonadError::new(
                ErrorPhase::Launch,
                ErrorCode::InvalidGuestState,
                self.taken as u64,
            ));
        }
        match action {
            BringUpAction::WriteControls(controls) => self.controls = controls,
            BringUpAction::TurnOn => self.vmx_on = true,
            BringUpAction::TurnOff => self.vmx_on = false,
            BringUpAction::WriteMask(mask) => self.mask = mask,
            BringUpAction::Describe => {
                let regs = GuestRegs { rbx: 5, ..GuestRegs::default() };
                return BringUpReply::Described(regs, self.mask);
            }
            _ => {}
        }
        BringUpReply::Done
    }
}

fn brought_up(vcpu: &mut Vcpu, native: &mut NativeCpu) -> Result<MonadResult<()>, FatalReason> {
    let size = vcpu.capabilities.xsave.maximum_size;
    let mut stage: BringUp =
        vcpu.begin_bring_up(0, vcpu.cpu.number, 0x1000, size, BEFORE).expect("begun");
    loop {
        match stage.action() {
            BringUpAction::Finish(result) => return Ok(result),
            BringUpAction::Halt(reason) => return Err(reason),
            action => stage = vcpu.bring_up(stage, native.carry_out(action)),
        }
    }
}

#[test]
fn a_processor_is_brought_into_the_guest() {
    let mut vmm = assembled(2, FakePageAllocator::new(0x1000_0000, None));
    let vcpu = &mut vmm.vcpus[1];
    let mut native = NativeCpu::new(&[]);
    assert_eq!(brought_up(vcpu, &mut native), Ok(Ok(())));
    assert!(vcpu.active);
    assert!(native.vmx_on);
    assert_eq!(native.controls.cr0, 0x21);
    assert_eq!(native.controls.cr4, 0x2008);
    assert_eq!((vcpu.regs.rbx, vcpu.guest_xcr0), (5, 0x7));
}

#[test]
fn a_failed_attempt_leaves_no_trace() {
    for fails in 2..=5 {
        let mut vmm = assembled(2, FakePageAllocator::new(0x1000_0000, None));
        let vcpu = &mut vmm.vcpus[1];
        let mut native = NativeCpu::new(&[fails]);
        let error = brought_up(vcpu, &mut native).expect("taken back").expect_err("failed");
        assert_eq!(error.cpu_dense_index, 1);
        assert_eq!(error.detail, fails as u64);
        assert!(!vcpu.active);
        assert!(!native.vmx_on);
        assert_eq!(native.controls, BEFORE);
        assert_eq!(native.mask, 0x7);
    }
}

#[test]
fn an_attempt_that_cannot_be_left_is_fatal() {
    let mut vmm = assembled(1, FakePageAllocator::new(0x1000_0000, None));
    let mut native = NativeCpu::new(&[5, 6]);
    let lost = brought_up(&mut vmm.vcpus[0], &mut native);
    assert_eq!(lost, Err(FatalReason::PartialShutdown));
    assert!(native.vmx_on);
}

#[test]
fn an_attempt_begins_on_the_right_processor_with_room() {
    let vmm = assembled(2, FakePageAllocator::new(0x1000_0000, None));
    let vcpu = &vmm.vcpus[1];
    let size = vcpu.capabilities.xsave.maximum_size;
    let moved = vcpu.begin_bring_up(0, 0, 0x1000, size, BEFORE).expect_err("other");
    assert_eq!((moved.code, moved.detail), (ErrorCode::TopologyChanged, 1));
    for (area, room) in [(0, size), (0x1020, size), (0x1000, size + 1)] {
        let error = vcpu.begin_bring_up(0, 1, area, room, BEFORE).expect_err("no room");
        assert_eq!(error.code, ErrorCode::InvalidGuestState);
        assert_eq!(error.cpu_dense_index, 1);
    }
    let mut narrow = assembled(1, FakePageAllocator::new(0x1000_0000, None));
    narrow.vcpus[0].capabilities.cr4_fixed1 = 0xff;
    let error = narrow.vcpus[0].begin_bring_up(0, 0, 0x1000, size, BEFORE).expect_err("no VMX");
    assert_eq!(error.code, ErrorCode::UnsupportedCapability);
    assert_eq!(error.cpu_dense_index, 0);
}
