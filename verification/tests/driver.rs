//! The control interface: memory blocks, sessions, requests and names.

use std::mem::{align_of, size_of};

use monad::driver::allocator::{aligned_address, allocation_size, PREFIX};
use monad::driver::device::{
    acl_allows, backing_from_wire, backing_to_wire, cpu_words_from_wire, device_ranges_from_wire,
    draft_from_wire, draft_to_wire, edit_from_wire, edits_from_wire, leaf_size_log2,
    permissions_from_wire, permissions_to_wire, view_from_wire, view_to_wire, WideString,
    DEVICE_SDDL, STATUS_INVALID_DEVICE_REQUEST,
};
use monad::driver::dispatch::{conclude, start_config, write_error};
use monad::driver::ioctl::{
    code_at, ctl_code, lifecycle_allows, ntstatus, operation, read_pod, validate_and_begin,
    validate_request, write_pod, ValidatedRequest, ABI_VERSION, EDIT_MAP_BACKING_4K,
    EDIT_RESTORE_FROM_BASE, EDIT_SET_PERMISSIONS, FILE_READ_ACCESS, IOCTL_ACTIVATE_VIEW,
    IOCTL_ALLOCATE_BACKING, IOCTL_APPLY_EDIT_BATCH, IOCTL_CREATE_DRAFT, IOCTL_DISCARD_DRAFT,
    IOCTL_FREE_BACKING, IOCTL_GET_CAPS, IOCTL_GET_VCPU_STATE, IOCTL_LIST_VIEWS, IOCTL_PUBLISH_VIEW,
    IOCTL_QUERY_MAPPING, IOCTL_READ_EVENTS, IOCTL_START_VMM, IOCTL_STOP_VMM, IOCTL_WRITE_BACKING,
    MAX_REQUEST_BYTES, METHOD_BUFFERED, OPERATION_COUNT, STATUS_SUCCESS,
};
use monad::driver::session::ControllerSession;
use monad::driver::wire::{
    ActivateViewRequest, AllocateBackingRequest, AllocateBackingResponse, ApplyEditBatchRequest,
    ApplyEditBatchResponse, BackingIdWire,
    CpuSetWordWire, DevicePhysicalRangeWire, DraftIdWire, EditWire, GetCapsRequest,
    GetCapsResponse, GetVcpuStateResponse, MonadErrorWire, Pod, QueryMappingResponse,
    ReadEventsRequest, ReadEventsResponse, RequestHeader, ResponseHeader, StartVmmRequest,
    StartVmmResponse, ViewIdWire, ViewRecordWire,
};
use monad::ept::backing::BackingId;
use monad::ept::entry::EptLeafSize;
use monad::ept::inventory::PhysicalRangeKind;
use monad::ept::view::{DraftEdit, DraftId, ViewId};
use monad::ept::PAGE_SIZE_4K;
use monad::error::{ErrorCode, ErrorPhase, MonadError};
use monad::lifecycle::LifecycleState;
use monad::telemetry::record::EVENT_RECORD_BYTES;

fn bytes<T: Pod>(value: &T) -> Vec<u8> {
    let mut output = vec![0u8; T::size()];
    write_pod(&mut output, value).expect("room");
    output
}

fn request_header(size: usize, nonce: u64) -> RequestHeader {
    RequestHeader {
        abi_version: ABI_VERSION,
        struct_size: size as u16,
        flags: 0,
        request_id: 9,
        session_nonce: nonce,
    }
}

#[test]
fn over_aligned_allocations_leave_room_for_payload_and_owner() {
    for alignment in [32, 64, 256, 4096, 8192] {
        for size in [1, 128, 1152, 8192] {
            for base in (0x1000..0x3000).step_by(16) {
                let address = aligned_address(base, alignment).expect("address");
                assert_eq!(address % alignment, 0);
                assert!(address >= base + PREFIX);
                assert!(address + size <= base + allocation_size(size, alignment).expect("size"));
            }
        }
    }
    assert!(aligned_address(usize::MAX, 64).is_none());
}

#[test]
fn device_acl() {
    assert_eq!(DEVICE_SDDL, "D:P(A;;GA;;;SY)(A;;GA;;;BA)");
    assert!(acl_allows("SY"));
    assert!(acl_allows("BA"));
    assert!(!acl_allows("BU"));
    assert!(!acl_allows("WD"));
}

#[test]
fn typed_adapter_conversion() {
    let permissions = edit_from_wire(
        EditWire {
            kind: EDIT_SET_PERMISSIONS,
            gpa: 0x1000,
            length: 0x2000,
            permissions: 5,
            ..EditWire::default()
        },
        0x10_000,
    )
    .expect("permission edit");
    assert!(matches!(permissions, DraftEdit::SetPermissions { .. }));

    let backing = BackingIdWire { slot: 3, reserved: 0, generation: 7, session_nonce: 11 };
    let mapping = edit_from_wire(
        EditWire {
            kind: EDIT_MAP_BACKING_4K,
            gpa: 0x3000,
            length: PAGE_SIZE_4K,
            backing,
            backing_page: 2,
            permissions: 3,
            memory_type: 6,
            ..EditWire::default()
        },
        0x10_000,
    )
    .expect("mapping edit");
    assert!(matches!(mapping, DraftEdit::MapBacking4K { .. }));
    assert!(edit_from_wire(
        EditWire {
            kind: EDIT_MAP_BACKING_4K,
            gpa: 0x3000,
            length: PAGE_SIZE_4K,
            backing,
            permissions: 3,
            memory_type: 5,
            ..EditWire::default()
        },
        0x10_000,
    )
    .is_err());
}

#[test]
fn device_inventory_adapter_rejects_malformed_ranges() {
    let header = StartVmmRequest { device_range_count: 1, ..StartVmmRequest::default() };
    let base = size_of::<StartVmmRequest>();
    let mut input = vec![0u8; base + size_of::<DevicePhysicalRangeWire>()];
    write_pod(&mut input, &header).expect("header");
    write_pod(
        &mut input[base..],
        &DevicePhysicalRangeWire { start: 0xfec0_0000, length: 0x1000, reserved: 0 },
    )
    .expect("range");
    let ranges = device_ranges_from_wire(&input, 1).expect("valid range");
    assert_eq!(ranges.len(), 1);
    assert_eq!(ranges[0].kind, PhysicalRangeKind::Device);
    assert_eq!(ranges[0].start, 0xfec0_0000);
    assert_eq!(ranges[0].length, 0x1000);

    write_pod(
        &mut input[base..],
        &DevicePhysicalRangeWire { start: u64::MAX, length: 2, reserved: 0 },
    )
    .expect("overflowing range");
    assert!(device_ranges_from_wire(&input, 1).is_err());
}

#[test]
fn abi_layout() {
    assert_eq!(size_of::<RequestHeader>(), 24);
    assert_eq!(align_of::<RequestHeader>(), 8);
    let mark = 0xa5;
    let marked = bytes(&RequestHeader { session_nonce: mark, ..RequestHeader::default() });
    assert_eq!(marked[16], 0xa5);
    assert_eq!(size_of::<ResponseHeader>(), 48);
    assert_eq!(size_of::<MonadErrorWire>(), 24);
    assert_eq!(size_of::<ViewIdWire>(), 16);
    assert_eq!(size_of::<DraftIdWire>(), 24);
    assert_eq!(size_of::<BackingIdWire>(), 24);
    assert_eq!(size_of::<CpuSetWordWire>(), 16);
    let marked = bytes(&CpuSetWordWire { mask: mark, ..CpuSetWordWire::default() });
    assert_eq!(marked[8], 0xa5);
    assert_eq!(size_of::<StartVmmRequest>(), 56);
    let marked = bytes(&StartVmmRequest { device_range_count: 0xa5, ..StartVmmRequest::default() });
    assert_eq!(marked[40], 0xa5);
    assert_eq!(size_of::<DevicePhysicalRangeWire>(), 24);
    assert_eq!(size_of::<GetCapsResponse>(), 112);
    let marked = bytes(&GetCapsResponse { max_backing_pages: 0xa5, ..GetCapsResponse::default() });
    assert_eq!(marked[88], 0xa5);
    assert_eq!(size_of::<EditWire>(), 64);
    let marked = bytes(&EditWire { reserved: mark, ..EditWire::default() });
    assert_eq!(marked[56], 0xa5);
    assert_eq!(size_of::<QueryMappingResponse>(), 104);
    let marked = bytes(&QueryMappingResponse {
        source_backing: BackingIdWire { slot: 0xa5, ..BackingIdWire::default() },
        ..QueryMappingResponse::default()
    });
    assert_eq!(marked[56], 0xa5);
    assert_eq!(size_of::<ViewRecordWire>(), 112);
    let marked = bytes(&ViewRecordWire {
        active_cpu_set: [mark, 0, 0, 0],
        ..ViewRecordWire::default()
    });
    assert_eq!(marked[80], 0xa5);
    assert_eq!(RequestHeader::size(), 24);
    assert_eq!(ResponseHeader::size(), 48);
    assert_eq!(MonadErrorWire::size(), 24);
    assert_eq!(ViewIdWire::size(), 16);
    assert_eq!(DraftIdWire::size(), 24);
    assert_eq!(BackingIdWire::size(), 24);
    assert_eq!(CpuSetWordWire::size(), 16);
    assert_eq!(StartVmmRequest::size(), 56);
    assert_eq!(DevicePhysicalRangeWire::size(), 24);
    assert_eq!(GetCapsResponse::size(), 112);
    assert_eq!(EditWire::size(), 64);
    assert_eq!(QueryMappingResponse::size(), 104);
    assert_eq!(ViewRecordWire::size(), 112);
    assert_eq!(OPERATION_COUNT, 15);
    assert_eq!(IOCTL_GET_CAPS, ctl_code(0x800, FILE_READ_ACCESS));
    assert_eq!(IOCTL_START_VMM, ctl_code(0x801, 3));
    assert_eq!(IOCTL_STOP_VMM, ctl_code(0x802, 3));
    assert_eq!(IOCTL_ALLOCATE_BACKING, ctl_code(0x810, 3));
    assert_eq!(IOCTL_WRITE_BACKING, ctl_code(0x811, 3));
    assert_eq!(IOCTL_FREE_BACKING, ctl_code(0x812, 3));
    assert_eq!(IOCTL_CREATE_DRAFT, ctl_code(0x820, 3));
    assert_eq!(IOCTL_APPLY_EDIT_BATCH, ctl_code(0x821, 3));
    assert_eq!(IOCTL_DISCARD_DRAFT, ctl_code(0x822, 3));
    assert_eq!(IOCTL_PUBLISH_VIEW, ctl_code(0x823, 3));
    assert_eq!(IOCTL_QUERY_MAPPING, ctl_code(0x824, FILE_READ_ACCESS));
    assert_eq!(IOCTL_LIST_VIEWS, ctl_code(0x825, FILE_READ_ACCESS));
    assert_eq!(IOCTL_ACTIVATE_VIEW, ctl_code(0x826, 3));
    assert_eq!(IOCTL_READ_EVENTS, ctl_code(0x830, FILE_READ_ACCESS));
    assert_eq!(IOCTL_GET_VCPU_STATE, ctl_code(0x831, FILE_READ_ACCESS));
    for index in 0..OPERATION_COUNT {
        let operation = operation(code_at(index)).expect("operation");
        assert_eq!(operation.code & 3, METHOD_BUFFERED);
        assert!(operation.input_size >= size_of::<RequestHeader>());
        assert!(operation.output_size >= size_of::<ResponseHeader>());
        assert_ne!((operation.code >> 2) & 0xfff, 0);
        assert_ne!((operation.code >> 14) & 3, 0);
    }
}

#[test]
fn header_validation_matrix() {
    let request = GetCapsRequest { header: request_header(size_of::<GetCapsRequest>(), 0) };
    let valid = bytes(&request);
    let answer = size_of::<GetCapsResponse>();
    for end in 0..valid.len() {
        assert!(validate_request(IOCTL_GET_CAPS, &valid[..end], answer, 7).is_err());
    }
    validate_request(IOCTL_GET_CAPS, &valid, answer, 7).expect("valid");
    assert!(validate_request(IOCTL_GET_CAPS, &valid, answer - 1, 7).is_err());
    let mut bad = request;
    bad.header.abi_version = ABI_VERSION - 1;
    assert_eq!(
        validate_request(IOCTL_GET_CAPS, &bytes(&bad), answer, 7).expect_err("version").code,
        ErrorCode::InvalidAbiVersion
    );
    bad = request;
    bad.header.flags = 1;
    assert_eq!(
        validate_request(IOCTL_GET_CAPS, &bytes(&bad), answer, 7).expect_err("flags").code,
        ErrorCode::UnsupportedFlags
    );
    bad = request;
    bad.header.struct_size -= 1;
    assert_eq!(
        validate_request(IOCTL_GET_CAPS, &bytes(&bad), answer, 7).expect_err("size").code,
        ErrorCode::InvalidStructureSize
    );
    let oversized = vec![0u8; MAX_REQUEST_BYTES + 1];
    assert_eq!(
        validate_request(IOCTL_GET_CAPS, &oversized, answer, 7).expect_err("cap").code,
        ErrorCode::InvalidRange
    );
    let start = StartVmmRequest {
        header: request_header(size_of::<StartVmmRequest>(), 7),
        aperture_limit: 0,
        rendezvous_timeout_tsc: 1,
        device_range_count: 0,
        reserved0: 1,
        reserved1: 0,
    };
    let started = size_of::<StartVmmResponse>();
    assert_eq!(
        validate_request(IOCTL_START_VMM, &bytes(&start), started, 7)
            .expect_err("reserved")
            .code,
        ErrorCode::UnsupportedFlags
    );
    let start = StartVmmRequest {
        header: request_header(size_of::<StartVmmRequest>(), 7),
        aperture_limit: 1 << 39,
        rendezvous_timeout_tsc: 1,
        device_range_count: 1,
        reserved0: 0,
        reserved1: 0,
    };
    let mut start_bytes = bytes(&start);
    start_bytes.extend_from_slice(&bytes(&DevicePhysicalRangeWire {
        start: 0xfec0_0000,
        length: 0x1000,
        reserved: 0,
    }));
    let validated =
        validate_request(IOCTL_START_VMM, &start_bytes, started, 7).expect("range tail");
    assert_eq!(validated.total_input_size, start_bytes.len());
    let last = start_bytes.len() - 1;
    start_bytes[last] = 1;
    assert_eq!(
        validate_request(IOCTL_START_VMM, &start_bytes, started, 7)
            .expect_err("range reserved")
            .code,
        ErrorCode::UnsupportedFlags
    );
    let batch = ApplyEditBatchRequest {
        header: request_header(size_of::<ApplyEditBatchRequest>(), 7),
        draft: DraftIdWire::default(),
        edit_count: u32::MAX,
        reserved: 0,
    };
    assert!(validate_request(
        IOCTL_APPLY_EDIT_BATCH,
        &bytes(&batch),
        size_of::<ApplyEditBatchResponse>(),
        7
    )
    .is_err());
}

#[test]
fn operation_state_matrix() {
    let mut session = ControllerSession::new();
    session.acquire(7).expect("owner");
    for index in 0..OPERATION_COUNT {
        let descriptor = operation(code_at(index)).expect("operation");
        for state in [
            LifecycleState::Absent,
            LifecycleState::Preparing,
            LifecycleState::Launching,
            LifecycleState::Running,
            LifecycleState::Quiescing,
            LifecycleState::Stopping,
            LifecycleState::Fatal,
        ] {
            let request = ValidatedRequest {
                descriptor,
                header: request_header(
                    descriptor.input_size,
                    if descriptor.zero_nonce { 0 } else { 7 },
                ),
                total_input_size: descriptor.input_size,
            };
            let begun = match validate_and_begin(&mut session, request, state) {
                Ok(request) => {
                    if let Some(request) = request {
                        request.end(&mut session);
                    }
                    true
                }
                Err(_) => false,
            };
            assert_eq!(begun, lifecycle_allows(descriptor.code, state));
        }
    }
    let descriptor = operation(IOCTL_STOP_VMM).expect("stop");
    let wrong = ValidatedRequest {
        descriptor,
        header: request_header(descriptor.input_size, 8),
        total_input_size: descriptor.input_size,
    };
    assert_eq!(
        validate_and_begin(&mut session, wrong, LifecycleState::Running)
            .expect_err("wrong")
            .code,
        ErrorCode::WrongSession
    );
}

#[test]
fn stopped_evidence_remains_readable() {
    assert!(lifecycle_allows(IOCTL_READ_EVENTS, LifecycleState::Absent));
    assert!(lifecycle_allows(IOCTL_GET_VCPU_STATE, LifecycleState::Absent));
    assert!(!lifecycle_allows(IOCTL_APPLY_EDIT_BATCH, LifecycleState::Absent));
}

#[test]
fn no_pointer_or_hpa_exposure() {
    let response = GetVcpuStateResponse::default();
    let encoded = bytes(&response);
    assert!(encoded.iter().all(|byte| *byte == 0));
}

#[test]
fn fuzz_buffered_requests() {
    let mut seed = 0x91e1_0da5_7e11_c0deu64;
    for index in 0..OPERATION_COUNT {
        let operation = operation(code_at(index)).expect("operation");
        for length in
            0..=operation.input_size.saturating_add(operation.trailing_element_size * 3)
        {
            seed ^= seed << 13;
            seed ^= seed >> 7;
            seed ^= seed << 17;
            let mut input = vec![0u8; length];
            let mut value = seed;
            for byte in &mut input {
                value = value.wrapping_mul(6364136223846793005).wrapping_add(1);
                *byte = (value >> 56) as u8;
            }
            let before = input.clone();
            let _ = validate_request(operation.code, &input, operation.output_size, 7);
            assert_eq!(input, before);
        }
    }
}

#[test]
fn event_output_is_whole_records() {
    let request = ReadEventsRequest {
        header: request_header(size_of::<ReadEventsRequest>(), 7),
        cpu_dense_index: 0,
        reserved0: 0,
        max_records: 2,
        after_sequence: 0,
    };
    let output_size = size_of::<ReadEventsResponse>() + 2 * EVENT_RECORD_BYTES;
    validate_request(IOCTL_READ_EVENTS, &bytes(&request), output_size, 7).expect("whole records");
    assert!(validate_request(IOCTL_READ_EVENTS, &bytes(&request), output_size - 1, 7).is_err());
    assert_eq!(output_size - size_of::<ReadEventsResponse>(), 2 * EVENT_RECORD_BYTES);
}

#[test]
fn cleanup_quiesces_but_only_final_owner_close_releases() {
    let mut session = ControllerSession::new();
    session.acquire(7).expect("owner");
    let request = session.begin(7, true).expect("inflight");
    {
        let cleanup = session.begin_close(7).expect("cleanup");
        assert!(!cleanup.is_drained(&session));
    }
    assert_eq!(session.active_nonce(), 7);
    assert!(session.begin(7, false).is_err());
    request.end(&mut session);
    let close = session.close_owner();
    assert!(close.is_drained(&session));
    close.finish(&mut session).expect("final release");
    assert_eq!(session.active_nonce(), 0);
    session.acquire(8).expect("new owner");
}

#[test]
fn session_exclusivity_and_close_race() {
    let mut session = ControllerSession::new();
    assert!(session.acquire(0).is_err());
    session.acquire(0x1234).expect("first owner");
    assert_eq!(
        session.acquire(0x5678).expect_err("second owner").code,
        ErrorCode::ControllerBusy
    );
    let request = session.begin(0x1234, true).expect("request");
    assert_eq!(session.inflight(), 1);
    assert_eq!(
        session.begin(0x1234, true).expect_err("serialized").code,
        ErrorCode::ControllerBusy
    );
    let close = session.begin_close(0x1234).expect("close");
    assert!(!close.is_drained(&session));
    assert_eq!(
        session.begin(0x1234, false).expect_err("quiesced").code,
        ErrorCode::ControllerBusy
    );
    request.end(&mut session);
    assert!(close.is_drained(&session));
    close.finish(&mut session).expect("release");
    assert_eq!(session.active_nonce(), 0);
    assert_eq!(
        session.begin(0x1234, false).expect_err("stale").code,
        ErrorCode::WrongSession
    );
}

#[test]
fn an_open_close_cannot_finish_early() {
    let mut session = ControllerSession::new();
    session.acquire(5).expect("owner");
    let request = session.begin(5, false).expect("request");
    let close = session.close_owner();
    assert!(close.finish(&mut session).is_err());
    assert_eq!(session.active_nonce(), 5);
    request.end(&mut session);
    let close = session.close_owner();
    close.finish(&mut session).expect("drained");
}

#[test]
fn allocation_sizes_are_exact() {
    assert_eq!(allocation_size(100, 16), Some(100));
    assert_eq!(allocation_size(128, 64), Some(128 + PREFIX + 63));
    assert!(allocation_size(usize::MAX, 64).is_none());
    assert_eq!(aligned_address(0x1000, 64), Some(0x1040));
}

#[test]
fn names_survive_the_wire() {
    let view = ViewId { slot: 3, reserved: 0, generation: 9 };
    assert_eq!(view_from_wire(view_to_wire(view)), view);
    let draft = DraftId { slot: 1, reserved: 0, generation: 2, session_nonce: 0x55 };
    assert_eq!(draft_from_wire(draft_to_wire(draft)), draft);
    let backing = BackingId { slot: 70_000, generation: 4, session_nonce: 0x55 };
    assert_eq!(backing_from_wire(backing_to_wire(backing)), backing);
    assert_eq!(backing_to_wire(backing).slot, 70_000);
}

#[test]
fn permissions_survive_the_wire() {
    for value in 0..=255u8 {
        match permissions_from_wire(value) {
            Ok(permissions) => {
                assert!(value < 8);
                assert_eq!(permissions_to_wire(permissions), value);
            }
            Err(error) => {
                assert_eq!(error.code, ErrorCode::UnsupportedPermissionCombination);
                assert!(value >= 8 || value & 3 == 2);
            }
        }
    }
    assert_eq!(leaf_size_log2(EptLeafSize::Size4K), 12);
    assert_eq!(leaf_size_log2(EptLeafSize::Size2M), 21);
    assert_eq!(leaf_size_log2(EptLeafSize::Size1G), 30);
}

#[test]
fn edits_are_refused_for_their_first_fault() {
    let aperture = 0x10_000;
    let refused = |edit: EditWire| edit_from_wire(edit, aperture).expect_err("refused").code;
    let blank = EditWire::default();
    assert_eq!(refused(EditWire { kind: 9, ..blank }), ErrorCode::WrongObjectState);
    let set = EditWire {
        kind: EDIT_SET_PERMISSIONS,
        gpa: 0x1000,
        length: 0x1000,
        permissions: 1,
        ..blank
    };
    assert_eq!(refused(EditWire { backing_page: 1, ..set }), ErrorCode::UnsupportedFlags);
    assert_eq!(refused(EditWire { memory_type: 6, ..set }), ErrorCode::UnsupportedFlags);
    assert_eq!(refused(EditWire { gpa: 1, ..set }), ErrorCode::MisalignedAddress);
    assert_eq!(refused(EditWire { length: 0, ..set }), ErrorCode::InvalidRange);
    assert_eq!(refused(EditWire { length: aperture, ..set }), ErrorCode::InvalidRange);
    assert_eq!(
        refused(EditWire { permissions: 2, ..set }),
        ErrorCode::UnsupportedPermissionCombination
    );
    let map = EditWire {
        kind: EDIT_MAP_BACKING_4K,
        gpa: 0x3000,
        length: PAGE_SIZE_4K,
        permissions: 3,
        memory_type: 6,
        ..blank
    };
    assert_eq!(refused(EditWire { length: 0x2000, ..map }), ErrorCode::InvalidRange);
    assert_eq!(
        refused(EditWire { memory_type: 0, ..map }),
        ErrorCode::UnsupportedMtrrCombination
    );
    assert_eq!(refused(EditWire { gpa: 0x3001, ..map }), ErrorCode::MisalignedAddress);
    let restore = EditWire { kind: EDIT_RESTORE_FROM_BASE, gpa: 0x1000, length: 0x1000, ..blank };
    assert!(matches!(
        edit_from_wire(restore, aperture),
        Ok(DraftEdit::RestoreFromBase { .. })
    ));
    assert_eq!(refused(EditWire { permissions: 1, ..restore }), ErrorCode::UnsupportedFlags);
}

#[test]
fn edit_batches_name_the_edit_at_fault() {
    let mut input = vec![0u8; 56 + 2 * 64];
    let good = EditWire {
        kind: EDIT_SET_PERMISSIONS,
        gpa: 0x1000,
        length: 0x1000,
        permissions: 1,
        ..EditWire::default()
    };
    write_pod(&mut input[56..], &good).expect("first");
    write_pod(&mut input[120..], &EditWire { kind: 0, ..good }).expect("second");
    let error = edits_from_wire(&input, 2, 0x10_000).expect_err("second is bad");
    assert_eq!(error.operation_index, 1);
    assert_eq!(error.code, ErrorCode::WrongObjectState);
    assert_eq!(edits_from_wire(&input, 1, 0x10_000).expect("first only").len(), 1);
    let error = edits_from_wire(&input, 3, 0x10_000).expect_err("still the second");
    assert_eq!(error.operation_index, 1);
    write_pod(&mut input[120..], &good).expect("second");
    let error = edits_from_wire(&input, 3, 0x10_000).expect_err("no third");
    assert_eq!(error.operation_index, 2);
    assert_eq!(error.code, ErrorCode::InvalidStructureSize);
}

#[test]
fn processor_sets_are_bounded() {
    let mut input = vec![0u8; 48 + 16];
    write_pod(&mut input, &ActivateViewRequest { cpu_word_count: 1, ..Default::default() })
        .expect("request");
    write_pod(
        &mut input[48..],
        &CpuSetWordWire { group: 2, reserved: 0, reserved1: 0, mask: 5 },
    )
    .expect("word");
    let words = cpu_words_from_wire(&input, 1).expect("one word");
    assert_eq!((words[0].group, words[0].mask), (2, 5));
    assert_eq!(
        cpu_words_from_wire(&input, 0).expect_err("none").code,
        ErrorCode::InvalidCpuSet
    );
    assert_eq!(
        cpu_words_from_wire(&input, 5).expect_err("too many").code,
        ErrorCode::InvalidCpuSet
    );
    assert_eq!(
        cpu_words_from_wire(&input, 2).expect_err("cut off").code,
        ErrorCode::InvalidStructureSize
    );
}

#[test]
fn start_requests_need_a_time_limit() {
    let request = StartVmmRequest {
        header: request_header(56, 7),
        aperture_limit: 0x1234_5000,
        rendezvous_timeout_tsc: 99,
        ..StartVmmRequest::default()
    };
    let config = start_config(&bytes(&request), 7).expect("config");
    assert_eq!(config.session_nonce, 7);
    assert_eq!(config.aperture_limit, 0x1234_5000);
    assert_eq!(config.rendezvous_timeout_tsc, 99);
    assert!(config.device_ranges.is_empty());
    let endless = StartVmmRequest { rendezvous_timeout_tsc: 0, ..request };
    let error = match start_config(&bytes(&endless), 7) {
        Ok(_) => panic!("endless"),
        Err(error) => error,
    };
    assert_eq!(error.code, ErrorCode::InvalidRange);
    assert_eq!(error.detail, 0x1234_5000);
}

#[test]
fn failures_are_written_and_reported() {
    let error = MonadError::new(ErrorPhase::Device, ErrorCode::InvalidStructureSize, 3);
    let input = bytes(&RequestHeader { request_id: 0x77, ..RequestHeader::default() });
    let mut output = vec![0u8; 64];
    let completion = write_error(IOCTL_GET_CAPS, &input, &mut output, error);
    assert_eq!(completion.status, ntstatus(error));
    assert_eq!(completion.status, -1073741789);
    assert_eq!(completion.information, 48);
    let header = read_pod::<ResponseHeader>(&output, 0).expect("header");
    assert_eq!(header.request_id, 0x77);
    assert_eq!(header.struct_size, 112);
    assert_eq!(header.session_nonce, 0);
    assert_eq!(header.error.detail, 3);
    let mut narrow = vec![0xffu8; 47];
    let completion = write_error(IOCTL_GET_CAPS, &input[..3], &mut narrow, error);
    assert_eq!(completion.information, 0);
    assert!(narrow.iter().all(|byte| *byte == 0xff));
}

#[test]
fn plain_requests_are_answered_with_a_header() {
    let header = request_header(24, 7);
    let mut output = vec![0u8; 48];
    let completion =
        conclude(IOCTL_STOP_VMM, header, 7, &bytes(&header), Ok(48), &mut output);
    assert_eq!((completion.status, completion.information), (STATUS_SUCCESS, 48));
    let answer = read_pod::<ResponseHeader>(&output, 0).expect("header");
    assert_eq!(answer.request_id, 9);
    assert_eq!(answer.session_nonce, 7);
    assert_eq!(answer.struct_size, 48);
    let mut output = vec![0u8; 48];
    conclude(IOCTL_GET_CAPS, header, 7, &bytes(&header), Ok(48), &mut output);
    assert!(output.iter().all(|byte| *byte == 0));
}

#[test]
fn device_names_are_widened() {
    let wide = match WideString::from_ascii("\\Device\\MonadResearch") {
        Ok(wide) => wide,
        Err(_) => panic!("plain name"),
    };
    assert_eq!(wide.length, 21);
    assert_eq!(wide.buffer[0], '\\' as u16);
    assert_eq!(wide.buffer[20], 'h' as u16);
    assert_eq!(wide.buffer[21], 0);
    let long = "x".repeat(64);
    assert!(matches!(WideString::from_ascii(&long), Err(STATUS_INVALID_DEVICE_REQUEST)));
    assert!(WideString::from_ascii("\u{e9}").is_err());
    assert!(WideString::from_ascii(&long[..63]).is_ok());
}

#[test]
fn stored_values_are_loaded_again() {
    let value = EditWire {
        kind: 1,
        flags: 2,
        gpa: 0x1122_3344_5566_7788,
        length: 4,
        backing: BackingIdWire { slot: 5, reserved: 6, generation: 7, session_nonce: 8 },
        backing_page: 9,
        permissions: 10,
        memory_type: 11,
        reserved0: 12,
        reserved: u64::MAX,
    };
    let encoded = bytes(&value);
    assert_eq!(encoded[8], 0x88);
    assert_eq!(encoded[15], 0x11);
    assert_eq!(read_pod::<EditWire>(&encoded, 0).expect("edit"), value);
    assert!(read_pod::<EditWire>(&encoded, 1).is_err());
    assert!(read_pod::<EditWire>(&encoded, usize::MAX).is_err());
}

#[test]
fn a_reserved_field_is_refused_with_what_it_holds() {
    let started = size_of::<StartVmmResponse>();
    let mut start = StartVmmRequest {
        header: request_header(size_of::<StartVmmRequest>(), 7),
        aperture_limit: 0,
        rendezvous_timeout_tsc: 1,
        device_range_count: 0,
        reserved0: 1,
        reserved1: 0,
    };
    let refused = |input: &[u8]| {
        let error = validate_request(IOCTL_START_VMM, input, started, 7).expect_err("reserved");
        assert_eq!((error.phase, error.code), (ErrorPhase::Device, ErrorCode::UnsupportedFlags));
        error.detail
    };
    assert_eq!(refused(&bytes(&start)), 1);
    start.reserved1 = 5;
    assert_eq!(refused(&bytes(&start)), 1);
    start.reserved0 = 0;
    assert_eq!(refused(&bytes(&start)), 5);

    start.reserved1 = 0;
    start.device_range_count = 3;
    let mut input = bytes(&start);
    for reserved in [0, 0x77, 0x88] {
        input.extend_from_slice(&bytes(&DevicePhysicalRangeWire {
            start: 0xfec0_0000,
            length: 0x1000,
            reserved,
        }));
    }
    assert_eq!(refused(&input), 0x77);

    let allocate = AllocateBackingRequest {
        header: request_header(size_of::<AllocateBackingRequest>(), 7),
        page_count: 1,
        allocation_flags: 0xff01,
        reserved: 0,
    };
    let error = validate_request(
        IOCTL_ALLOCATE_BACKING,
        &bytes(&allocate),
        size_of::<AllocateBackingResponse>(),
        7,
    )
    .expect_err("flags");
    assert_eq!((error.code, error.detail), (ErrorCode::UnsupportedFlags, 0xff00));
}
