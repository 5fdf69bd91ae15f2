//! Processor capabilities, controls, guest state and virtualization
//! instructions.

use monad::arch::intel::caps::{
    accumulate_processor_capabilities, admit_processor, calculate_xsave_layout,
    collect_capabilities, control_registers, cpuid_mask, validate_required_capabilities,
    CpuidRegisters, RawCapabilities, RequiredCapability, XsaveComponent, EPT_ACCESSED_DIRTY,
    EPT_EXECUTE_ONLY, EPT_INVEPT, EPT_INVEPT_ALL, EPT_INVEPT_SINGLE, EPT_MEMORY_TYPE_WB,
    EPT_PAGE_1G, EPT_PAGE_2M, EPT_WALK_LENGTH_4, FEATURE_CONTROL_LOCK,
    FEATURE_CONTROL_VMX_OUTSIDE_SMX, IA32_VMX_PINBASED_CTLS, IA32_VMX_TRUE_PINBASED_CTLS,
    MAX_XSAVE_BYTES, MEMORY_TYPE_WRITE_BACK, REQUIRED_CAPABILITIES, VMX_BASIC_MEMORY_TYPE_SHIFT,
    VMX_BASIC_TRUE_CONTROLS,
};
use monad::arch::intel::control::{
    ControlCapabilities, ControlCapability, ControlField, ENABLE_EPT, ENABLE_INVPCID,
    ENABLE_RDTSCP, ENABLE_USER_WAIT_PAUSE, ENABLE_XSAVES_XRSTORS, REQUIRED_PRIMARY,
    REQUIRED_SECONDARY, REQUIRED_VMENTRY, REQUIRED_VMEXIT,
};
use monad::arch::intel::state::{
    decode_tss_slots, descriptor_slot_range, normalize_control_state, normalize_rflags,
    read_tss_checked, segment_access_from_lar, RFLAGS_ARCHITECTURAL_MASK, RFLAGS_FIXED_ONE,
    RFLAGS_IOPL, RFLAGS_VM, SEGMENT_UNUSABLE,
};
use monad::arch::intel::vmcs::{host_selector, host_stack_pointer};
use monad::arch::intel::vmx::{
    decode_entry, decode_vmx_status, prepare_control_registers, OriginalControlRegisters,
    VmxOperation, VmxStatus, VmxonFailpoint,
};
use monad::error::{ErrorCode, MonadError};
use monad::topology::{CpuId, CpuTopology};

fn capability_msr(required: u32) -> u64 {
    u64::from(required) | (u64::from(u32::MAX) << 32)
}

fn valid_raw() -> RawCapabilities {
    RawCapabilities {
        cpuid_1_ecx: (1 << 5) | (1 << 26),
        cpuid_7_0_ebx: 1 << 10,
        cpuid_7_0_ecx: 1 << 5,
        cpuid_80000001_edx: 1 << 27,
        cpuid_80000008_eax: 48,
        cpuid_d1_eax: 1 << 3,
        xcr0_supported: 0x3,
        feature_control: FEATURE_CONTROL_LOCK | FEATURE_CONTROL_VMX_OUTSIDE_SMX,
        vmx_basic: 1 | ((MEMORY_TYPE_WRITE_BACK as u64) << VMX_BASIC_MEMORY_TYPE_SHIFT),
        cr0_fixed0: 0x20,
        cr0_fixed1: u64::MAX,
        cr4_fixed0: 0,
        cr4_fixed1: u64::MAX,
        pinbased_controls: capability_msr(0),
        primary_controls: capability_msr(REQUIRED_PRIMARY),
        secondary_controls: capability_msr(REQUIRED_SECONDARY),
        exit_controls: capability_msr(REQUIRED_VMEXIT),
        entry_controls: capability_msr(REQUIRED_VMENTRY),
        ept_vpid: EPT_WALK_LENGTH_4
            | EPT_MEMORY_TYPE_WB
            | EPT_PAGE_2M
            | EPT_PAGE_1G
            | EPT_INVEPT
            | EPT_INVEPT_SINGLE
            | EPT_INVEPT_ALL,
        processor_count: 1,
        ..RawCapabilities::default()
    }
}

#[test]
fn capability_each_required_bit_missing() {
    for index in 0..REQUIRED_CAPABILITIES {
        let missing = RequiredCapability::ordered(index);
        let mut raw = valid_raw();
        match missing {
            RequiredCapability::Vmx => raw.cpuid_1_ecx &= !(1 << 5),
            RequiredCapability::FeatureControlLocked => {
                raw.feature_control &= !FEATURE_CONTROL_LOCK
            }
            RequiredCapability::VmxOutsideSmx => {
                raw.feature_control &= !FEATURE_CONTROL_VMX_OUTSIDE_SMX
            }
            RequiredCapability::VmxRegionWriteBack => raw.vmx_basic &= !(0xf << 50),
            RequiredCapability::VmxRevision => raw.vmx_basic &= !0x7fff_ffff,
            RequiredCapability::Cr0FixedMasks => {
                raw.cr0_fixed0 = 1 << 63;
                raw.cr0_fixed1 &= !(1 << 63);
            }
            RequiredCapability::Cr4FixedMasks => {
                raw.cr4_fixed0 = 1 << 63;
                raw.cr4_fixed1 &= !(1 << 63);
            }
            RequiredCapability::Ept => raw.secondary_controls &= !(u64::from(ENABLE_EPT) << 32),
            RequiredCapability::EptFourLevel => raw.ept_vpid &= !EPT_WALK_LENGTH_4,
            RequiredCapability::EptWriteBack => raw.ept_vpid &= !EPT_MEMORY_TYPE_WB,
            RequiredCapability::EptPage2M => raw.ept_vpid &= !EPT_PAGE_2M,
            RequiredCapability::Invept => raw.ept_vpid &= !EPT_INVEPT,
            RequiredCapability::InveptSingle => raw.ept_vpid &= !EPT_INVEPT_SINGLE,
            RequiredCapability::InveptAll => raw.ept_vpid &= !EPT_INVEPT_ALL,
            RequiredCapability::EptPage1G => raw.ept_vpid &= !EPT_PAGE_1G,
            RequiredCapability::Xsave => raw.cpuid_1_ecx &= !(1 << 26),
            RequiredCapability::Xsaves => raw.cpuid_d1_eax &= !(1 << 3),
            RequiredCapability::XsaveLayout => {
                raw.xcr0_supported |= 1 << 2;
                raw.xsave_components[2].size = 0;
            }
            RequiredCapability::PhysicalAddressWidth => raw.cpuid_80000008_eax = 49,
            RequiredCapability::ProcessorCount => raw.processor_count = 0,
            RequiredCapability::RdtscpControl => {
                raw.secondary_controls &=
                    !(u64::from(ENABLE_RDTSCP) | (u64::from(ENABLE_RDTSCP) << 32))
            }
            RequiredCapability::InvpcidControl => {
                raw.secondary_controls &=
                    !(u64::from(ENABLE_INVPCID) | (u64::from(ENABLE_INVPCID) << 32))
            }
            RequiredCapability::XsavesControl => {
                raw.secondary_controls &= !(u64::from(ENABLE_XSAVES_XRSTORS)
                    | (u64::from(ENABLE_XSAVES_XRSTORS) << 32))
            }
            RequiredCapability::WaitpkgControl => {
                raw.secondary_controls &= !(u64::from(ENABLE_USER_WAIT_PAUSE)
                    | (u64::from(ENABLE_USER_WAIT_PAUSE) << 32))
            }
            RequiredCapability::ConsistentAcrossProcessors => {
                panic!("cross-processor consistency is tested during collection")
            }
        }
        let error = validate_required_capabilities(&raw)
            .expect_err("missing required capability must fail");
        if missing == RequiredCapability::PhysicalAddressWidth {
            assert_eq!(error.code, ErrorCode::PhysicalAddressTooWide);
            assert_eq!(error.detail, 49);
        } else {
            assert_eq!(error.code, ErrorCode::UnsupportedCapability);
            assert_eq!(error.detail, missing.code());
        }
    }

    let mut too_many = valid_raw();
    too_many.processor_count = 257;
    let error =
        validate_required_capabilities(&too_many).expect_err("257 processors must be rejected");
    assert_eq!(error.code, ErrorCode::TooManyProcessors);
    assert_eq!(error.detail, 257);

    let mut optional = valid_raw();
    optional.ept_vpid |= EPT_EXECUTE_ONLY | EPT_ACCESSED_DIRTY;
    let capabilities =
        validate_required_capabilities(&optional).expect("optional EPT features parse");
    assert!(capabilities.ept.execute_only);
    assert!(capabilities.ept.accessed_dirty);

    let first = validate_required_capabilities(&valid_raw()).expect("first processor");
    let mut second_raw = valid_raw();
    second_raw.ept_vpid |= EPT_EXECUTE_ONLY;
    let second = validate_required_capabilities(&second_raw).expect("second processor");
    let mut platform = Some(first);
    let mismatch = accumulate_processor_capabilities(&mut platform, second, 1)
        .expect_err("heterogeneous capability snapshots must fail");
    assert_eq!(mismatch.detail, RequiredCapability::ConsistentAcrossProcessors.code());
    assert_eq!(mismatch.cpu_dense_index, 1);
}

#[test]
fn capability_competing_hypervisor() {
    let mut raw = valid_raw();
    raw.cpuid_1_ecx |= 1 << 31;
    let error = validate_required_capabilities(&raw).expect_err("hypervisor-present must fail");
    assert_eq!(error.code, ErrorCode::CompetingHypervisor);
}

#[test]
fn guest_cpuid_features_have_matching_execution_controls() {
    let capabilities = validate_required_capabilities(&valid_raw()).expect("valid platform");
    assert_eq!(
        capabilities.controls.secondary
            & (ENABLE_RDTSCP | ENABLE_INVPCID | ENABLE_XSAVES_XRSTORS | ENABLE_USER_WAIT_PAUSE),
        ENABLE_RDTSCP | ENABLE_INVPCID | ENABLE_XSAVES_XRSTORS | ENABLE_USER_WAIT_PAUSE
    );
    assert!(capabilities.guest_features.rdtscp);
    assert!(capabilities.guest_features.invpcid);
    assert!(capabilities.guest_features.xsaves);
    assert!(capabilities.guest_features.waitpkg);

    let mut without_optional_features = valid_raw();
    without_optional_features.cpuid_7_0_ebx = 0;
    without_optional_features.cpuid_7_0_ecx = 0;
    without_optional_features.cpuid_80000001_edx = 0;
    let capabilities = validate_required_capabilities(&without_optional_features)
        .expect("optional native features may be absent");
    assert_eq!(
        capabilities.controls.secondary & (ENABLE_RDTSCP | ENABLE_INVPCID | ENABLE_USER_WAIT_PAUSE),
        0
    );
    assert_eq!(
        capabilities.controls.secondary & ENABLE_XSAVES_XRSTORS,
        ENABLE_XSAVES_XRSTORS
    );
}

#[test]
fn xsave_layout() {
    let mut raw = valid_raw();
    raw.xcr0_supported |= (1 << 2) | (1 << 3);
    raw.xsave_components[2] = XsaveComponent {
        size: 256,
        standard_offset: 576,
        supervisor: false,
        align64: false,
    };
    raw.xsave_components[3] = XsaveComponent {
        size: 64,
        standard_offset: 832,
        supervisor: false,
        align64: true,
    };
    let layout = calculate_xsave_layout(&raw).expect("valid xsave layout");
    assert_eq!(layout.maximum_size, 896);
    assert_eq!(layout.maximum_size % 64, 0);

    raw.xsave_components[3].standard_offset = 800;
    assert!(calculate_xsave_layout(&raw).is_err());
    raw.xsave_components[3].standard_offset = 832;

    raw.xcr0_supported &= !(1 << 3);
    raw.xss_supported |= 1 << 3;
    raw.xsave_components[3].standard_offset = 0;
    raw.xsave_components[3].supervisor = true;
    let supervisor = calculate_xsave_layout(&raw).expect("supervisor compacted component");
    assert_eq!(supervisor.state_mask & (1 << 3), 1 << 3);
    assert_eq!(supervisor.xcomp_bv & (1 << 63), 1 << 63);

    raw.xss_supported &= !(1 << 3);
    raw.xcr0_supported |= 1 << 3;
    raw.xsave_components[3].standard_offset = 832;
    raw.xsave_components[3].supervisor = false;
    raw.xsave_components[3].size = MAX_XSAVE_BYTES as u32;
    assert!(calculate_xsave_layout(&raw).is_err());
    raw.xsave_components[3].size = MAX_XSAVE_BYTES as u32 - 832;
    let exact = calculate_xsave_layout(&raw).expect("exact maximum is permitted");
    assert_eq!(exact.maximum_size, MAX_XSAVE_BYTES as u32);

    let mut overlapping_ownership = valid_raw();
    overlapping_ownership.xcr0_supported |= 1 << 2;
    overlapping_ownership.xss_supported |= 1 << 2;
    overlapping_ownership.xsave_components[2] = XsaveComponent {
        size: 64,
        standard_offset: 576,
        supervisor: true,
        align64: false,
    };
    assert!(calculate_xsave_layout(&overlapping_ownership).is_err());
}

#[test]
fn control_adjustment_table() {
    let cases: [(u32, u32, u32, Result<u32, u32>); 5] = [
        (0, u32::MAX, 0x5, Ok(0x5)),
        (0x8, u32::MAX, 0x1, Ok(0x9)),
        (0x8, 0x0f, 0x1, Ok(0x9)),
        (0, 0x0f, 0x10, Err(0x10)),
        (0x10, 0x0f, 0, Err(0x10)),
    ];

    for (must_be_one, may_be_one, requested, expected) in cases {
        let capability = ControlCapability { must_be_one, may_be_one };
        match (capability.adjust(ControlField::VmEntry, requested), expected) {
            (Ok(actual), Ok(wanted)) => assert_eq!(actual, wanted),
            (Err(error), Err(missing)) => {
                assert_eq!(error.code, ErrorCode::UnsupportedCapability);
                assert_eq!(error.detail & u64::from(u32::MAX), missing as u64);
            }
            (actual, wanted) => panic!("unexpected result: {actual:?}, wanted {wanted:?}"),
        }
    }
}

#[test]
fn native_instruction_controls_are_requested_explicitly() {
    let capabilities = ControlCapabilities {
        pinbased: ControlCapability::unrestricted(),
        primary: ControlCapability::unrestricted(),
        secondary: ControlCapability::unrestricted(),
        vmexit: ControlCapability::unrestricted(),
        vmentry: ControlCapability::unrestricted(),
    };
    let native = ENABLE_RDTSCP | ENABLE_INVPCID | ENABLE_USER_WAIT_PAUSE;
    let controls = capabilities.controls_for(native).expect("supported controls");
    assert_eq!(
        controls.secondary,
        REQUIRED_SECONDARY | ENABLE_RDTSCP | ENABLE_INVPCID | ENABLE_USER_WAIT_PAUSE
    );
}

#[test]
fn descriptor_bounds_and_unusable_segments() {
    assert_eq!(descriptor_slot_range(8, 23, 2), Ok(1));
    assert_eq!(
        descriptor_slot_range(8, 15, 2).map_err(|error| error.code),
        Err(ErrorCode::InvalidDescriptor)
    );
    assert_eq!(
        descriptor_slot_range(16, 15, 1).map_err(|error| error.code),
        Err(ErrorCode::InvalidDescriptor)
    );
    let table = [0, (9u64 << 40) | (1u64 << 47) | 0x1234, 0];
    let tr = 8;
    let decoded =
        read_tss_checked(&table, 23, tr).expect("last complete two-slot TSS must decode");
    assert_eq!(decoded.limit, 0x1234);
    assert_eq!(
        read_tss_checked(&table, 15, tr).map_err(|error| error.code),
        Err(ErrorCode::InvalidDescriptor)
    );
    assert_eq!(segment_access_from_lar(0x10, None), SEGMENT_UNUSABLE);
    assert_eq!(segment_access_from_lar(0, Some(0xffff)), SEGMENT_UNUSABLE);
    assert_eq!(segment_access_from_lar(0x10, Some(0x00cf_9300)), 0xc093);
    assert_eq!(segment_access_from_lar(0x10, Some(0xffcf_9300)), 0xc093);
}

#[test]
fn guest_state_normalization() {
    let rflags = normalize_rflags(u64::MAX);
    assert_ne!(rflags & RFLAGS_FIXED_ONE, 0);
    assert_eq!(rflags & RFLAGS_VM, 0);
    assert_eq!(rflags & RFLAGS_IOPL, 0);
    assert_eq!(rflags & !RFLAGS_ARCHITECTURAL_MASK, 0);
    assert_ne!(normalize_rflags(1 << 16) & (1 << 16), 0);

    let state =
        normalize_control_state(0x20, 1, 0xff, 0x21, 0x20).expect("consistent control state");
    assert_eq!(state.guest, 0x21);
    assert_eq!(
        normalize_control_state(0, 2, 1, 0, 0).map_err(|error| error.code),
        Err(ErrorCode::InvalidGuestState)
    );
    assert_eq!(
        normalize_control_state(0x20, 0, u64::MAX, 0x20, 0).map_err(|error| error.code),
        Err(ErrorCode::InvalidGuestState)
    );
    assert_eq!(
        normalize_control_state(0, 1, u64::MAX, 0, 0).map_err(|error| error.code),
        Err(ErrorCode::InvalidGuestState)
    );
}

fn decoded(error: MonadError) -> (u8, u8, u32) {
    (
        (error.detail & 0xff) as u8,
        ((error.detail >> 8) & 0xff) as u8,
        (error.detail >> 32) as u32,
    )
}

#[test]
fn vmx_status_decode() {
    let operations = [
        VmxOperation::Vmxon,
        VmxOperation::Vmxoff,
        VmxOperation::Vmclear,
        VmxOperation::Vmptrld,
        VmxOperation::Vmread,
        VmxOperation::Vmwrite,
        VmxOperation::Vmlaunch,
        VmxOperation::Vmresume,
        VmxOperation::InveptSingle,
        VmxOperation::InveptAll,
    ];
    for operation in operations {
        assert!(decode_vmx_status(operation, 0x2, None).is_ok());
        let invalid = decode_vmx_status(operation, 0x3, None)
            .expect_err("CF must decode as VMfailInvalid");
        assert_eq!(
            decoded(invalid),
            (operation.code(), VmxStatus::VmfailInvalid.code(), u32::MAX)
        );
        let valid = decode_vmx_status(operation, 0x42, Some(7))
            .expect_err("ZF must decode as VMfailValid");
        assert_eq!(decoded(valid), (operation.code(), VmxStatus::VmfailValid.code(), 7));
    }
}

#[test]
fn pre_vmxon_failpoint_stops_launch() {
    let mut failpoint = VmxonFailpoint { armed: true };
    let error =
        failpoint.pre_vmxon_failpoint().expect_err("armed failpoint must stop before VMXON");
    assert_eq!(error.code, ErrorCode::VmxInstructionFailure);
    assert!(failpoint.pre_vmxon_failpoint().is_ok());
}

#[test]
fn failed_entries_name_the_instruction_at_fault() {
    assert!(decode_entry(VmxOperation::Vmlaunch, 0, None).is_ok());
    let failed = decode_entry(VmxOperation::Vmlaunch, 0x40, Some(8)).expect_err("valid");
    assert_eq!(
        decoded(failed),
        (VmxOperation::Vmlaunch.code(), VmxStatus::VmfailValid.code(), 8)
    );
    let written = decode_entry(VmxOperation::Vmresume, (1 << 63) | 1, Some(8)).expect_err("write");
    assert_eq!(written.code, ErrorCode::VmwriteFailure);
    assert_eq!(
        decoded(written),
        (VmxOperation::Vmwrite.code(), VmxStatus::VmfailInvalid.code(), u32::MAX)
    );
    assert_eq!(
        decode_vmx_status(VmxOperation::InveptAll, 1, None).expect_err("invept").code,
        ErrorCode::InveptFailure
    );
}

#[test]
fn task_state_is_decoded_field_by_field() {
    let low = (0x12u64 << 56) | (0x8bu64 << 40) | (0x0034_5678 << 16) | 0x0067;
    let tss = decode_tss_slots(low, 0xffff_f800);
    assert_eq!(tss.base, 0xffff_f800_1234_5678);
    assert_eq!(tss.limit, 0x67);
    assert_eq!(tss.access_rights, 0x8b);
    let grained = decode_tss_slots(low | (1 << 55), 0);
    assert_eq!(grained.limit, (0x67 << 12) | 0xfff);
    assert_eq!(
        read_tss_checked(&[0, low, 0], 23, 0).map_err(|error| error.code),
        Err(ErrorCode::InvalidDescriptor)
    );
    assert_eq!(
        read_tss_checked(&[0, low & !(1 << 47), 0], 23, 8).map_err(|error| error.code),
        Err(ErrorCode::InvalidDescriptor)
    );
}

#[test]
fn control_registers_follow_the_basic_register() {
    assert_eq!(control_registers(0).pinbased, IA32_VMX_PINBASED_CTLS);
    assert_eq!(
        control_registers(VMX_BASIC_TRUE_CONTROLS).pinbased,
        IA32_VMX_TRUE_PINBASED_CTLS
    );
    assert_eq!(cpuid_mask(0x89ab_cdef, 0x0123_4567), 0x0123_4567_89ab_cdef);
}

fn processors(count: u16) -> CpuTopology {
    let mut ids = vec![];
    for index in 0..count {
        ids.push(CpuId { dense_index: index, group: 0, number: index as u8, reserved: [0; 3] });
    }
    CpuTopology::from_ids(&ids).expect("topology")
}

#[test]
fn platforms_need_one_kind_of_processor() {
    let mut raw = valid_raw();
    raw.processor_count = 2;
    let platform = match collect_capabilities(processors(2), &[raw, raw]) {
        Ok(platform) => platform,
        Err(_) => panic!("same processors"),
    };
    assert_eq!(platform.topology().len(), 2);
    assert_eq!(platform.capabilities().max_physical_address_bits, 48);
    let mut other = raw;
    other.ept_vpid |= EPT_ACCESSED_DIRTY;
    let error = match collect_capabilities(processors(2), &[raw, other]) {
        Ok(_) => panic!("different processors"),
        Err(error) => error,
    };
    assert_eq!(error.cpu_dense_index, 1);
    assert_eq!(error.detail, RequiredCapability::ConsistentAcrossProcessors.code());
}

#[test]
fn processors_without_virtualization_are_not_admitted() {
    let blank = CpuidRegisters { eax: 0, ebx: 0, ecx: 0, edx: 0 };
    assert_eq!(admit_processor(blank, 3).expect_err("no vmx").cpu_dense_index, 3);
    let vmx = CpuidRegisters { ecx: (1 << 5) | (1 << 26), ..blank };
    assert!(admit_processor(vmx, 3).is_ok());
    let guest = CpuidRegisters { ecx: vmx.ecx | (1 << 31), ..blank };
    assert_eq!(
        admit_processor(guest, 3).expect_err("competing").code,
        ErrorCode::CompetingHypervisor
    );
}

#[test]
fn host_values_are_masked_and_aligned() {
    assert_eq!(host_selector(0x2b), 0x28);
    assert_eq!(host_stack_pointer(0x1000, 0x6000), Some(0x7000 - 8));
    assert_eq!(host_stack_pointer(u64::MAX, 32), None);
}

#[test]
fn control_registers_are_brought_under_their_masks() {
    let capabilities = validate_required_capabilities(&valid_raw()).expect("platform");
    let original = OriginalControlRegisters { cr0: 0x1, cr4: 0 };
    let prepared = prepare_control_registers(&capabilities, original).expect("prepared");
    assert_eq!(prepared.cr0, 0x21);
    assert_eq!(prepared.cr4 & 0x2000, 0x2000);
}
