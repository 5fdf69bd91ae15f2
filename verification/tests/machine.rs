//! The edge of the machine: processors, pages, and how the device is opened and
//! closed.

use monad::arch::intel::caps::{
    collect_processor_capabilities, current_initial_apic_id, hypervisor_present,
    require_passive, CpuidRegisters, RequiredCapability,
    IA32_FEATURE_CONTROL, IA32_VMX_BASIC, IA32_VMX_EPT_VPID_CAP, IA32_VMX_PINBASED_CTLS,
    IA32_VMX_TRUE_ENTRY_CTLS, IA32_VMX_TRUE_PINBASED_CTLS, VMX_BASIC_TRUE_CONTROLS,
};
use monad::driver::device::STATUS_INVALID_DEVICE_REQUEST;
use monad::driver::entry::{
    admit_control, clean_up_device, close_device, open_device, CloseStep, NonceSearch,
    NONCE_DRAWS, STATUS_BUFFER_TOO_SMALL, STATUS_INSUFFICIENT_RESOURCES, STATUS_INVALID_PARAMETER,
};
use monad::driver::ioctl::{ntstatus, MAX_REQUEST_BYTES, STATUS_SUCCESS};
use monad::driver::session::{session_error, ControllerSession};
use monad::ept::page::{admit_page, page_ceiling};
use monad::error::{ErrorCode, ErrorPhase};
use monad::topology::{
    admit_processor_count, snapshot_active_processors, CpuId, CpuSetErrorDetail, NativeProcessor,
};
use monad::vmm::activation::CpuAction;
use monad::vmm::launch::{LaunchContext, LaunchStage};

fn answer(leaf: u32, subleaf: u32) -> CpuidRegisters {
    let ecx = match (leaf, subleaf) {
        (1, 0) => (1 << 5) | (1 << 26),
        (0xd, 1) => 0x100,
        (0xd, 8) => 3,
        _ => leaf ^ subleaf,
    };
    let eax = match (leaf, subleaf) {
        (0xd, 0) => 7,
        _ => leaf + subleaf,
    };
    CpuidRegisters {
        eax,
        ebx: 1000 + subleaf,
        ecx,
        edx: 0,
    }
}

#[test]
fn one_processor_is_described_by_its_answers() {
    let raw = collect_processor_capabilities(answer, |register| u64::from(register), 4, 2)
        .expect("processor");
    assert_eq!(raw.cpuid_1_ecx, (1 << 5) | (1 << 26));
    assert_eq!(raw.cpuid_7_0_ebx, 1000);
    assert_eq!(raw.cpuid_80000008_eax, 0x8000_0008);
    assert_eq!((raw.xcr0_supported, raw.xss_supported), (7, 0x100));
    assert_eq!(raw.feature_control, u64::from(IA32_FEATURE_CONTROL));
    assert_eq!(raw.ept_vpid, u64::from(IA32_VMX_EPT_VPID_CAP));
    assert_eq!(raw.pinbased_controls, u64::from(IA32_VMX_PINBASED_CTLS));
    assert_eq!(raw.processor_count, 4);
    assert_eq!(raw.xsave_components[2].size, 0xd + 2);
    assert_eq!(raw.xsave_components[8].standard_offset, 1008);
    assert!(raw.xsave_components[8].supervisor && raw.xsave_components[8].align64);
    assert_eq!(raw.xsave_components[3].size, 0);
    assert_eq!(raw.xsave_components[0].size, 0);
}

#[test]
fn exact_controls_are_read_where_there_are_any() {
    let read = |register: u32| {
        if register == IA32_VMX_BASIC {
            VMX_BASIC_TRUE_CONTROLS
        } else {
            u64::from(register)
        }
    };
    let raw = collect_processor_capabilities(answer, read, 1, 0).expect("processor");
    assert_eq!(raw.pinbased_controls, u64::from(IA32_VMX_TRUE_PINBASED_CTLS));
    assert_eq!(raw.entry_controls, u64::from(IA32_VMX_TRUE_ENTRY_CTLS));
}

#[test]
fn a_processor_that_will_not_do_is_asked_no_more() {
    let silent = |register: u32| -> u64 { panic!("read of {register:#x}") };
    let guest = |leaf: u32, _: u32| {
        assert_eq!(leaf, 1);
        CpuidRegisters {
            eax: 0,
            ebx: 0,
            ecx: 1 << 31,
            edx: 0,
        }
    };
    let error = collect_processor_capabilities(guest, silent, 1, 3)
        .map(|_| ())
        .expect_err("guest");
    assert_eq!(error.code, ErrorCode::CompetingHypervisor);
    assert_eq!(error.cpu_dense_index, 3);
    let plain = |_: u32, _: u32| CpuidRegisters {
        eax: 0,
        ebx: 0,
        ecx: 0,
        edx: 0,
    };
    let error = collect_processor_capabilities(plain, silent, 1, 0)
        .map(|_| ())
        .expect_err("plain");
    assert_eq!(error.code, ErrorCode::UnsupportedCapability);
    assert_eq!(error.detail, RequiredCapability::Vmx.code());
}

#[test]
fn feature_information_names_the_processor_and_what_is_below_it() {
    let bare = CpuidRegisters { eax: 0, ebx: 0x1234_5678, ecx: 0x7fff_ffff, edx: 0 };
    assert_eq!(current_initial_apic_id(bare), 0x12);
    assert!(!hypervisor_present(bare));
    assert!(hypervisor_present(CpuidRegisters { ecx: 1 << 31, ..bare }));
}

#[test]
fn capabilities_are_collected_at_the_lowest_level() {
    assert!(require_passive(0).is_ok());
    let error = require_passive(2).expect_err("level");
    assert_eq!(error.phase, ErrorPhase::Capability);
    assert_eq!(error.code, ErrorCode::InvalidLifecycleState);
}

#[test]
fn processors_are_counted_and_named() {
    assert!(admit_processor_count(256).is_ok());
    let error = admit_processor_count(0).expect_err("none");
    assert_eq!(error.detail, CpuSetErrorDetail::Empty.code());
    let error = admit_processor_count(257).expect_err("many");
    assert_eq!((error.code, error.detail), (ErrorCode::TooManyProcessors, 257));

    let first = NativeProcessor { group: 0, number: 0 };
    let second = NativeProcessor { group: 1, number: 5 };
    let topology = snapshot_active_processors(&[Some(first), Some(second)]).expect("topology");
    assert_eq!(topology.len(), 2);
    let found = topology.get(1).expect("second");
    assert_eq!((found.dense_index, found.group, found.number), (1, 1, 5));

    let error = snapshot_active_processors(&[Some(first), None, None])
        .map(|_| ())
        .expect_err("gone");
    assert_eq!((error.code, error.detail), (ErrorCode::TopologyChanged, 1));
    assert!(snapshot_active_processors(&[Some(first), Some(first)]).is_err());
}

#[test]
fn code_knows_the_processor_that_it_was_sent_to() {
    let cpu = CpuId {
        dense_index: 7,
        group: 1,
        number: 3,
        reserved: [0; 3],
    };
    assert!(cpu.confirm(1, 3).is_ok());
    let error = cpu.confirm(1, 4).expect_err("moved");
    assert_eq!(error.code, ErrorCode::TopologyChanged);
    assert_eq!((error.cpu_dense_index, error.detail), (7, 7));
}

#[test]
fn pages_lie_on_boundaries_below_the_width() {
    assert_eq!(page_ceiling(0, 36), Ok((1 << 36) - 1));
    let error = page_ceiling(1, 36).expect_err("level");
    assert_eq!(error.code, ErrorCode::InvalidLifecycleState);
    for width in [11, 49] {
        let error = page_ceiling(0, width).expect_err("width");
        assert_eq!(error.code, ErrorCode::PhysicalAddressTooWide);
        assert_eq!(error.detail, u64::from(width));
    }
    assert_eq!(admit_page(0x7000, 0x3000, 36).expect("page").get(), 0x3000);
    for (address, physical) in [(0x7001, 0x3000), (0x7000, 0x3800), (0x7000, 1 << 36)] {
        let error = admit_page(address, physical, 36).expect_err("page");
        assert_eq!(error.code, ErrorCode::MisalignedAddress);
        assert_eq!(error.detail, physical);
    }
}

#[test]
fn a_nonce_is_drawn_until_it_is_not_zero() {
    assert_eq!(NonceSearch::new(), NonceSearch::Drawing(NONCE_DRAWS));
    assert_eq!(NonceSearch::new().draw(0, 0).draw(0, 9), NonceSearch::Found(9));
    assert_eq!(NonceSearch::new().draw(-5, 9), NonceSearch::Failed(-5));
    let mut search = NonceSearch::new();
    for _ in 0..NONCE_DRAWS {
        assert!(matches!(search, NonceSearch::Drawing(_)));
        search = search.draw(0, 0);
    }
    assert_eq!(search, NonceSearch::Failed(STATUS_INSUFFICIENT_RESOURCES));
}

#[test]
fn the_device_is_opened_cleaned_up_and_closed() {
    let mut session = ControllerSession::new();
    assert!(matches!(close_device(&mut session), CloseStep::Nothing));
    assert_eq!(open_device(&mut session, Err(-7)), -7);
    assert_eq!(
        open_device(&mut session, Ok(0)),
        ntstatus(session_error(ErrorCode::WrongSession, 0))
    );
    assert_eq!(open_device(&mut session, Ok(5)), STATUS_SUCCESS);
    assert_eq!(
        open_device(&mut session, Ok(6)),
        ntstatus(session_error(ErrorCode::ControllerBusy, 0))
    );
    let request = session.begin(5, true).expect("request");
    assert_eq!(clean_up_device(&mut session), STATUS_SUCCESS);
    assert!(session.begin(5, false).is_err());
    assert!(matches!(close_device(&mut session), CloseStep::Undrained));
    request.end(&mut session);
    let drain = match close_device(&mut session) {
        CloseStep::Release(drain) => drain,
        _ => panic!("not drained"),
    };
    assert!(drain.finish(&mut session).is_ok());
    assert_eq!(session.active_nonce(), 0);
    assert_eq!(open_device(&mut session, Ok(6)), STATUS_SUCCESS);
}

#[test]
fn requests_that_cannot_be_read_are_refused() {
    let most = MAX_REQUEST_BYTES;
    assert_eq!(admit_control(0, true, most, most, true), Ok(()));
    assert_eq!(admit_control(1, true, 0, 0, true), Err(STATUS_INVALID_DEVICE_REQUEST));
    assert_eq!(admit_control(0, false, 0, 0, true), Err(STATUS_INVALID_DEVICE_REQUEST));
    assert_eq!(admit_control(0, true, most + 1, 0, false), Err(STATUS_INVALID_PARAMETER));
    assert_eq!(admit_control(0, true, 0, most + 1, true), Err(STATUS_INVALID_PARAMETER));
    assert_eq!(admit_control(0, true, 8, 8, false), Err(STATUS_BUFFER_TOO_SMALL));
}

#[test]
fn a_stranger_waits_with_the_others() {
    let mut launch = LaunchContext::new(1, 1, 100);
    launch.report_stranger();
    assert!(launch.failed);
    let (stage, action) = launch.launch_stranger(LaunchStage::Gathering, 0);
    assert_eq!((stage, action), (LaunchStage::Leaving, CpuAction::Proceed));
    assert_eq!(launch.rollback_finished, 1);
    let (stage, action) = launch.launch_stranger(stage, 0);
    assert_eq!((stage, action), (LaunchStage::Left, CpuAction::Leave));

    let mut launch = LaunchContext::new(1, 2, 100);
    launch.report_stranger();
    let (stage, action) = launch.launch_stranger(LaunchStage::Gathering, 99);
    assert_eq!((stage, action), (LaunchStage::Gathering, CpuAction::Spin));
    let (stage, action) = launch.launch_stranger(stage, 100);
    assert_eq!((stage, action), (LaunchStage::Lost, CpuAction::Halt(4)));
    assert!(launch.fatal);
}
