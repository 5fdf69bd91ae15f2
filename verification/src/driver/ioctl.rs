//! The requests of a controller: their codes, their shape, and when each is
//! allowed.

use vstd::prelude::*;

use super::session;
use super::session::{session_error, ControllerSession, SessionRequest};
use super::wire;
use super::wire::{
    load_u16, load_u32, load_u64, CpuSetWordWire, DevicePhysicalRangeWire, EditWire,
    MonadErrorWire, Pod, RequestHeader, ResponseHeader,
};
use crate::error::{ErrorCode, ErrorPhase, MonadError, NO_CPU, NO_OPERATION};
use crate::lifecycle::LifecycleState;

verus! {

pub const ABI_VERSION: u16 = 2;

pub const MAX_REQUEST_BYTES: usize = 0x1_0000;

pub const FILE_DEVICE_UNKNOWN: u32 = 0x22;

pub const METHOD_BUFFERED: u32 = 0;

pub const FILE_READ_ACCESS: u32 = 1;

pub const FILE_WRITE_ACCESS: u32 = 2;

pub const KNOWN_REQUEST_FLAGS: u32 = 0;

pub const ALLOCATION_FLAG_IMMUTABLE: u32 = 1;

pub const KNOWN_ALLOCATION_FLAGS: u32 = 1;

pub const EDIT_SET_PERMISSIONS: u32 = 1;

pub const EDIT_MAP_BACKING_4K: u32 = 2;

pub const EDIT_RESTORE_FROM_BASE: u32 = 3;

pub const OBJECT_PUBLISHED_VIEW: u32 = 1;

pub const OBJECT_DRAFT_VIEW: u32 = 2;

pub const MAPPING_NOT_PRESENT: u32 = 0;

pub const MAPPING_IDENTITY: u32 = 1;

pub const MAPPING_BACKING: u32 = 2;

pub const VIEW_STATE_PUBLISHED: u32 = 1;

pub const MAX_CPU_SET_WORDS: u32 = 4;

pub open spec fn spec_ctl_code(function: u32, access: u32) -> u32 {
    (FILE_DEVICE_UNKNOWN << 16) | (access << 14) | (function << 2) | METHOD_BUFFERED
}

/// The code of a request: device, access, function and method.
#[verifier::when_used_as_spec(spec_ctl_code)]
pub fn ctl_code(function: u32, access: u32) -> (code: u32)
    ensures
        code == spec_ctl_code(function, access),
{
    (FILE_DEVICE_UNKNOWN << 16) | (access << 14) | (function << 2) | METHOD_BUFFERED
}

pub const IOCTL_GET_CAPS: u32 = 0x22_6000;

pub const IOCTL_START_VMM: u32 = 0x22_e004;

pub const IOCTL_STOP_VMM: u32 = 0x22_e008;

pub const IOCTL_ALLOCATE_BACKING: u32 = 0x22_e040;

pub const IOCTL_WRITE_BACKING: u32 = 0x22_e044;

pub const IOCTL_FREE_BACKING: u32 = 0x22_e048;

pub const IOCTL_CREATE_DRAFT: u32 = 0x22_e080;

pub const IOCTL_APPLY_EDIT_BATCH: u32 = 0x22_e084;

pub const IOCTL_DISCARD_DRAFT: u32 = 0x22_e088;

pub const IOCTL_PUBLISH_VIEW: u32 = 0x22_e08c;

pub const IOCTL_QUERY_MAPPING: u32 = 0x22_6090;

pub const IOCTL_LIST_VIEWS: u32 = 0x22_6094;

pub const IOCTL_ACTIVATE_VIEW: u32 = 0x22_e098;

pub const IOCTL_READ_EVENTS: u32 = 0x22_60c0;

pub const IOCTL_GET_VCPU_STATE: u32 = 0x22_60c4;

/// How many requests there are.
pub const OPERATION_COUNT: usize = 15;

/// The shape of a request.
#[derive(Clone, Copy, Debug, PartialEq, Eq, Structural)]
pub struct OperationDescriptor {
    pub code: u32,
    pub input_size: usize,
    pub output_size: usize,
    pub mutable: bool,
    pub zero_nonce: bool,
    pub trailing_count_offset: Option<usize>,
    pub trailing_element_size: usize,
}

/// A request without anything behind it.
pub open spec fn plain_shape(code: u32, input_size: usize, output_size: usize, mutable: bool)
    -> OperationDescriptor {
    OperationDescriptor {
        code,
        input_size,
        output_size,
        mutable,
        zero_nonce: false,
        trailing_count_offset: None,
        trailing_element_size: 0,
    }
}

/// A request with elements behind it, whose count stands at an offset.
pub open spec fn tailed_shape(
    code: u32,
    input_size: usize,
    count_offset: usize,
    element_size: usize,
) -> OperationDescriptor {
    OperationDescriptor {
        code,
        input_size,
        output_size: 48,
        mutable: true,
        zero_nonce: false,
        trailing_count_offset: Some(count_offset),
        trailing_element_size: element_size,
    }
}

/// The shape of the request with a code.
pub open spec fn shape_of(code: u32) -> Option<OperationDescriptor> {
    if code == IOCTL_GET_CAPS {
        Some(OperationDescriptor { zero_nonce: true, ..plain_shape(code, 24, 112, false) })
    } else if code == IOCTL_START_VMM {
        Some(tailed_shape(code, 56, 40, 24))
    } else if code == IOCTL_STOP_VMM {
        Some(plain_shape(code, 24, 48, true))
    } else if code == IOCTL_ALLOCATE_BACKING {
        Some(plain_shape(code, 40, 72, true))
    } else if code == IOCTL_WRITE_BACKING {
        Some(tailed_shape(code, 64, 56, 1))
    } else if code == IOCTL_FREE_BACKING {
        Some(plain_shape(code, 48, 48, true))
    } else if code == IOCTL_CREATE_DRAFT {
        Some(plain_shape(code, 48, 72, true))
    } else if code == IOCTL_APPLY_EDIT_BATCH {
        Some(tailed_shape(code, 56, 48, 64))
    } else if code == IOCTL_DISCARD_DRAFT {
        Some(plain_shape(code, 48, 48, true))
    } else if code == IOCTL_PUBLISH_VIEW {
        Some(plain_shape(code, 48, 72, true))
    } else if code == IOCTL_QUERY_MAPPING {
        Some(plain_shape(code, 80, 104, false))
    } else if code == IOCTL_LIST_VIEWS {
        Some(plain_shape(code, 32, 56, false))
    } else if code == IOCTL_ACTIVATE_VIEW {
        Some(tailed_shape(code, 48, 40, 16))
    } else if code == IOCTL_READ_EVENTS {
        Some(plain_shape(code, 40, 72, false))
    } else if code == IOCTL_GET_VCPU_STATE {
        Some(plain_shape(code, 32, 112, false))
    } else {
        None
    }
}

fn plain(code: u32, input_size: usize, output_size: usize, mutable: bool) -> (shape:
    OperationDescriptor)
    ensures
        shape == plain_shape(code, input_size, output_size, mutable),
{
    OperationDescriptor {
        code,
        input_size,
        output_size,
        mutable,
        zero_nonce: false,
        trailing_count_offset: None,
        trailing_element_size: 0,
    }
}

fn tailed(code: u32, input_size: usize, count_offset: usize, element_size: usize) -> (shape:
    OperationDescriptor)
    ensures
        shape == tailed_shape(code, input_size, count_offset, element_size),
{
    OperationDescriptor {
        code,
        input_size,
        output_size: 48,
        mutable: true,
        zero_nonce: false,
        trailing_count_offset: Some(count_offset),
        trailing_element_size: element_size,
    }
}

pub open spec fn spec_device_error(code: ErrorCode, detail: u64) -> MonadError {
    MonadError::new(ErrorPhase::Device, code, detail)
}

#[verifier::when_used_as_spec(spec_device_error)]
pub fn device_error(code: ErrorCode, detail: u64) -> (error: MonadError)
    ensures
        error == spec_device_error(code, detail),
{
    MonadError::new(ErrorPhase::Device, code, detail)
}

/// The shape of the request with a code.
pub fn operation(code: u32) -> (result: Result<OperationDescriptor, MonadError>)
    ensures
        result == match shape_of(code) {
            Some(shape) => Ok::<OperationDescriptor, MonadError>(shape),
            None => Err(spec_device_error(ErrorCode::WrongObjectState, code as u64)),
        },
{
    if code == IOCTL_GET_CAPS {
        Ok(
            OperationDescriptor {
                code,
                input_size: 24,
                output_size: 112,
                mutable: false,
                zero_nonce: true,
                trailing_count_offset: None,
                trailing_element_size: 0,
            },
        )
    } else if code == IOCTL_START_VMM {
        Ok(tailed(code, 56, 40, 24))
    } else if code == IOCTL_STOP_VMM {
        Ok(plain(code, 24, 48, true))
    } else if code == IOCTL_ALLOCATE_BACKING {
        Ok(plain(code, 40, 72, true))
    } else if code == IOCTL_WRITE_BACKING {
        Ok(tailed(code, 64, 56, 1))
    } else if code == IOCTL_FREE_BACKING {
        Ok(plain(code, 48, 48, true))
    } else if code == IOCTL_CREATE_DRAFT {
        Ok(plain(code, 48, 72, true))
    } else if code == IOCTL_APPLY_EDIT_BATCH {
        Ok(tailed(code, 56, 48, 64))
    } else if code == IOCTL_DISCARD_DRAFT {
        Ok(plain(code, 48, 48, true))
    } else if code == IOCTL_PUBLISH_VIEW {
        Ok(plain(code, 48, 72, true))
    } else if code == IOCTL_QUERY_MAPPING {
        Ok(plain(code, 80, 104, false))
    } else if code == IOCTL_LIST_VIEWS {
        Ok(plain(code, 32, 56, false))
    } else if code == IOCTL_ACTIVATE_VIEW {
        Ok(tailed(code, 48, 40, 16))
    } else if code == IOCTL_READ_EVENTS {
        Ok(plain(code, 40, 72, false))
    } else if code == IOCTL_GET_VCPU_STATE {
        Ok(plain(code, 32, 112, false))
    } else {
        Err(device_error(ErrorCode::WrongObjectState, code as u64))
    }
}

pub open spec fn spec_code_at(index: usize) -> u32 {
    match index {
        0 => IOCTL_GET_CAPS,
        1 => IOCTL_START_VMM,
        2 => IOCTL_STOP_VMM,
        3 => IOCTL_ALLOCATE_BACKING,
        4 => IOCTL_WRITE_BACKING,
        5 => IOCTL_FREE_BACKING,
        6 => IOCTL_CREATE_DRAFT,
        7 => IOCTL_APPLY_EDIT_BATCH,
        8 => IOCTL_DISCARD_DRAFT,
        9 => IOCTL_PUBLISH_VIEW,
        10 => IOCTL_QUERY_MAPPING,
        11 => IOCTL_LIST_VIEWS,
        12 => IOCTL_ACTIVATE_VIEW,
        13 => IOCTL_READ_EVENTS,
        _ => IOCTL_GET_VCPU_STATE,
    }
}

/// The codes of all requests, in order.
#[verifier::when_used_as_spec(spec_code_at)]
pub fn code_at(index: usize) -> (code: u32)
    ensures
        code == spec_code_at(index),
{
    match index {
        0 => IOCTL_GET_CAPS,
        1 => IOCTL_START_VMM,
        2 => IOCTL_STOP_VMM,
        3 => IOCTL_ALLOCATE_BACKING,
        4 => IOCTL_WRITE_BACKING,
        5 => IOCTL_FREE_BACKING,
        6 => IOCTL_CREATE_DRAFT,
        7 => IOCTL_APPLY_EDIT_BATCH,
        8 => IOCTL_DISCARD_DRAFT,
        9 => IOCTL_PUBLISH_VIEW,
        10 => IOCTL_QUERY_MAPPING,
        11 => IOCTL_LIST_VIEWS,
        12 => IOCTL_ACTIVATE_VIEW,
        13 => IOCTL_READ_EVENTS,
        _ => IOCTL_GET_VCPU_STATE,
    }
}

/// The parts of a code stand side by side.
pub proof fn lemma_ctl_code(function: u32, access: u32)
    by (bit_vector)
    requires
        function < 0x1000,
        access < 4,
    ensures
        spec_ctl_code(function, access) == 0x22_0000 + 0x4000 * access + 4 * function,
{
}

/// The codes are made up of their parts, and every request is there once.
pub proof fn law_codes(code: u32)
    ensures
        IOCTL_GET_CAPS == spec_ctl_code(0x800, 1),
        IOCTL_START_VMM == spec_ctl_code(0x801, 3),
        IOCTL_STOP_VMM == spec_ctl_code(0x802, 3),
        IOCTL_ALLOCATE_BACKING == spec_ctl_code(0x810, 3),
        IOCTL_WRITE_BACKING == spec_ctl_code(0x811, 3),
        IOCTL_FREE_BACKING == spec_ctl_code(0x812, 3),
        IOCTL_CREATE_DRAFT == spec_ctl_code(0x820, 3),
        IOCTL_APPLY_EDIT_BATCH == spec_ctl_code(0x821, 3),
        IOCTL_DISCARD_DRAFT == spec_ctl_code(0x822, 3),
        IOCTL_PUBLISH_VIEW == spec_ctl_code(0x823, 3),
        IOCTL_QUERY_MAPPING == spec_ctl_code(0x824, 1),
        IOCTL_LIST_VIEWS == spec_ctl_code(0x825, 1),
        IOCTL_ACTIVATE_VIEW == spec_ctl_code(0x826, 3),
        IOCTL_READ_EVENTS == spec_ctl_code(0x830, 1),
        IOCTL_GET_VCPU_STATE == spec_ctl_code(0x831, 1),
        (shape_of(code) is Some) == (exists|index: usize|
            index < OPERATION_COUNT && #[trigger] spec_code_at(index) == code),
        shape_of(code) matches Some(shape) ==> shape.code == code && shape.input_size >= 24
            && shape.output_size >= 48,
{
    lemma_ctl_code(0x800, 1);
    lemma_ctl_code(0x801, 3);
    lemma_ctl_code(0x802, 3);
    lemma_ctl_code(0x810, 3);
    lemma_ctl_code(0x811, 3);
    lemma_ctl_code(0x812, 3);
    lemma_ctl_code(0x820, 3);
    lemma_ctl_code(0x821, 3);
    lemma_ctl_code(0x822, 3);
    lemma_ctl_code(0x823, 3);
    lemma_ctl_code(0x824, 1);
    lemma_ctl_code(0x825, 1);
    lemma_ctl_code(0x826, 3);
    lemma_ctl_code(0x830, 1);
    lemma_ctl_code(0x831, 1);
    if shape_of(code) is Some {
        assert(spec_code_at(0) == IOCTL_GET_CAPS);
        assert(spec_code_at(1) == IOCTL_START_VMM);
        assert(spec_code_at(2) == IOCTL_STOP_VMM);
        assert(spec_code_at(3) == IOCTL_ALLOCATE_BACKING);
        assert(spec_code_at(4) == IOCTL_WRITE_BACKING);
        assert(spec_code_at(5) == IOCTL_FREE_BACKING);
        assert(spec_code_at(6) == IOCTL_CREATE_DRAFT);
        assert(spec_code_at(7) == IOCTL_APPLY_EDIT_BATCH);
        assert(spec_code_at(8) == IOCTL_DISCARD_DRAFT);
        assert(spec_code_at(9) == IOCTL_PUBLISH_VIEW);
        assert(spec_code_at(10) == IOCTL_QUERY_MAPPING);
        assert(spec_code_at(11) == IOCTL_LIST_VIEWS);
        assert(spec_code_at(12) == IOCTL_ACTIVATE_VIEW);
        assert(spec_code_at(13) == IOCTL_READ_EVENTS);
        assert(spec_code_at(14) == IOCTL_GET_VCPU_STATE);
    }
}

impl MonadErrorWire {
    pub open spec fn spec_ok() -> Self {
        MonadErrorWire {
            phase: 0,
            code: 0,
            cpu_dense_index: NO_CPU,
            reserved: 0,
            operation_index: NO_OPERATION,
            detail: 0,
        }
    }

    /// No failure.
    #[verifier::when_used_as_spec(spec_ok)]
    pub fn ok() -> (wire: Self)
        ensures
            wire == Self::spec_ok(),
    {
        MonadErrorWire {
            phase: 0,
            code: 0,
            cpu_dense_index: NO_CPU,
            reserved: 0,
            operation_index: NO_OPERATION,
            detail: 0,
        }
    }

    pub open spec fn spec_of_error(value: MonadError) -> Self {
        MonadErrorWire {
            phase: value.phase.spec_code(),
            code: value.code.spec_code(),
            cpu_dense_index: value.cpu_dense_index,
            reserved: 0,
            operation_index: value.operation_index,
            detail: value.detail,
        }
    }
}

impl vstd::std_specs::convert::FromSpecImpl<MonadError> for MonadErrorWire {
    open spec fn obeys_from_spec() -> bool {
        true
    }

    open spec fn from_spec(value: MonadError) -> Self {
        MonadErrorWire::spec_of_error(value)
    }
}

impl From<MonadError> for MonadErrorWire {
    fn from(value: MonadError) -> (wire: Self) {
        MonadErrorWire {
            phase: value.phase.code(),
            code: value.code.code(),
            cpu_dense_index: value.cpu_dense_index,
            reserved: 0,
            operation_index: value.operation_index,
            detail: value.detail,
        }
    }
}

impl ResponseHeader {
    /// The header of a response of a size to a request that went through.
    pub open spec fn succeeded(size: u16, request: RequestHeader, session_nonce: u64) -> Self {
        ResponseHeader {
            abi_version: ABI_VERSION,
            struct_size: size,
            flags: 0,
            request_id: request.request_id,
            session_nonce,
            error: MonadErrorWire::spec_ok(),
        }
    }

    /// The header of a response of a size to a request that failed.
    pub open spec fn failed(size: u16, request_id: u64, error: MonadError) -> Self {
        ResponseHeader {
            abi_version: ABI_VERSION,
            struct_size: size,
            flags: 0,
            request_id,
            session_nonce: 0,
            error: MonadErrorWire::spec_of_error(error),
        }
    }

    pub fn success<T: Pod>(request: RequestHeader, session_nonce: u64) -> (header: Self)
        ensures
            header == Self::succeeded(T::spec_size() as u16, request, session_nonce),
    {
        ResponseHeader {
            abi_version: ABI_VERSION,
            struct_size: T::size() as u16,
            flags: 0,
            request_id: request.request_id,
            session_nonce,
            error: MonadErrorWire::ok(),
        }
    }

    pub fn failure<T: Pod>(request_id: u64, error: MonadError) -> (header: Self)
        ensures
            header == Self::failed(T::spec_size() as u16, request_id, error),
    {
        ResponseHeader {
            abi_version: ABI_VERSION,
            struct_size: T::size() as u16,
            flags: 0,
            request_id,
            session_nonce: 0,
            error: MonadErrorWire::from(error),
        }
    }
}

/// A request that has the right shape and comes from the owner.
#[derive(Clone, Copy, Debug, PartialEq, Eq, Structural)]
pub struct ValidatedRequest {
    pub descriptor: OperationDescriptor,
    pub header: RequestHeader,
    pub total_input_size: usize,
}

/// Reads a value at an offset.
pub fn read_pod<T: Pod>(input: &[u8], offset: usize) -> (result: Result<T, MonadError>)
    ensures
        match result {
            Ok(value) => offset + T::spec_size() <= input@.len() && value.laid_out(
                input@,
                offset as int,
            ),
            Err(error) => if offset + T::spec_size() > usize::MAX {
                error == spec_device_error(ErrorCode::AddressOverflow, offset as u64)
            } else {
                &&& offset + T::spec_size() > input@.len()
                &&& error == spec_device_error(
                    ErrorCode::InvalidStructureSize,
                    input@.len() as u64,
                )
            },
        },
{
    let size: usize = T::size();
    let end: usize = match offset.checked_add(size) {
        Some(end) => end,
        None => {
            return Err(device_error(ErrorCode::AddressOverflow, offset as u64));
        },
    };
    if end > input.len() {
        return Err(device_error(ErrorCode::InvalidStructureSize, input.len() as u64));
    }
    Ok(T::load(input, offset))
}

/// Writes a value at the beginning of the output.
pub fn write_pod<T: Pod>(output: &mut [u8], value: &T) -> (result: Result<usize, MonadError>)
    ensures
        if T::spec_size() > old(output)@.len() {
            &&& result == Err::<usize, MonadError>(
                spec_device_error(ErrorCode::InvalidStructureSize, old(output)@.len() as u64),
            )
            &&& final(output)@ == old(output)@
        } else {
            &&& result == Ok::<usize, MonadError>(T::spec_size() as usize)
            &&& value.laid_out(final(output)@, 0)
            &&& wire::kept(old(output)@, final(output)@, 0, T::spec_size())
        },
{
    let size: usize = T::size();
    let length: usize = output.len();
    if size > length {
        return Err(device_error(ErrorCode::InvalidStructureSize, length as u64));
    }
    value.store(output, 0);
    Ok(size)
}

/// The header that a request begins with.
pub open spec fn header_at(input: Seq<u8>) -> RequestHeader {
    RequestHeader {
        abi_version: wire::u16_at(input, 0),
        struct_size: wire::u16_at(input, 2),
        flags: wire::u32_at(input, 4),
        request_id: wire::u64_at(input, 8),
        session_nonce: wire::u64_at(input, 16),
    }
}

/// What is wrong with the header of a request, or with its room for an answer.
pub open spec fn header_fault(
    shape: OperationDescriptor,
    input: Seq<u8>,
    output_len: int,
) -> Option<MonadError> {
    let header = header_at(input);
    if input.len() > MAX_REQUEST_BYTES {
        Some(spec_device_error(ErrorCode::InvalidRange, input.len() as u64))
    } else if output_len > MAX_REQUEST_BYTES {
        Some(spec_device_error(ErrorCode::InvalidRange, output_len as u64))
    } else if input.len() < 24 {
        Some(spec_device_error(ErrorCode::InvalidStructureSize, input.len() as u64))
    } else if header.abi_version != ABI_VERSION {
        Some(spec_device_error(ErrorCode::InvalidAbiVersion, header.abi_version as u64))
    } else if header.struct_size != shape.input_size {
        Some(spec_device_error(ErrorCode::InvalidStructureSize, header.struct_size as u64))
    } else if header.flags & !KNOWN_REQUEST_FLAGS != 0 {
        Some(spec_device_error(ErrorCode::UnsupportedFlags, header.flags as u64))
    } else if output_len < shape.output_size {
        Some(spec_device_error(ErrorCode::InvalidStructureSize, output_len as u64))
    } else {
        None
    }
}

/// How many elements stand behind a request.
pub open spec fn trailing_count(shape: OperationDescriptor, input: Seq<u8>) -> int {
    match shape.trailing_count_offset {
        Some(offset) => wire::u32_at(input, offset as int) as int,
        None => 0,
    }
}

/// What is wrong with the size of a request.
pub open spec fn size_fault(shape: OperationDescriptor, input: Seq<u8>) -> Option<MonadError> {
    let count = trailing_count(shape, input);
    let trailing = count * shape.trailing_element_size;
    let wrong = spec_device_error(ErrorCode::InvalidStructureSize, input.len() as u64);
    if shape.trailing_count_offset matches Some(offset) && offset + 4 > input.len() {
        Some(wrong)
    } else if trailing > usize::MAX {
        Some(spec_device_error(ErrorCode::AddressOverflow, count as u64))
    } else if shape.input_size + trailing > usize::MAX {
        Some(spec_device_error(ErrorCode::AddressOverflow, shape.input_size as u64))
    } else if shape.input_size + trailing != input.len() {
        Some(wrong)
    } else {
        None
    }
}

/// What is wrong with a count of records, and how many bytes they take.
pub open spec fn records_size(base: int, count: u32, element: int) -> Result<int, MonadError> {
    if count == 0 {
        Err(spec_device_error(ErrorCode::InvalidRange, 0))
    } else if base + count * element > usize::MAX {
        Err(spec_device_error(ErrorCode::AddressOverflow, count as u64))
    } else {
        Ok(base + count * element)
    }
}

/// What is wrong with the room for a variable answer: it must hold whole
/// records.
pub open spec fn output_fault(
    code: u32,
    shape: OperationDescriptor,
    input: Seq<u8>,
    output_len: int,
) -> Option<MonadError> {
    let wanted = if code == IOCTL_LIST_VIEWS {
        records_size(56, wire::u32_at(input, 28), 112)
    } else if code == IOCTL_READ_EVENTS {
        records_size(72, wire::u32_at(input, 28), 128)
    } else {
        Ok(shape.output_size as int)
    };
    match wanted {
        Err(error) => Some(error),
        Ok(size) => if size > output_len || size > MAX_REQUEST_BYTES {
            Some(spec_device_error(ErrorCode::InvalidStructureSize, size as u64))
        } else {
            None
        },
    }
}

/// What is wrong with the session that a request names.
pub open spec fn nonce_fault(
    shape: OperationDescriptor,
    nonce: u64,
    active_nonce: u64,
) -> Option<MonadError> {
    if nonce == active_nonce && nonce != 0 {
        None
    } else if shape.zero_nonce && nonce == 0 {
        None
    } else {
        Some(session::spec_session_error(ErrorCode::WrongSession, nonce))
    }
}

/// A field that should be zero, if it is not.
pub open spec fn nonzero(value: u64) -> Option<u64> {
    if value != 0 {
        Some(value)
    } else {
        None
    }
}

/// The first of two findings.
pub open spec fn first_of(left: Option<u64>, right: Option<u64>) -> Option<u64> {
    match left {
        Some(value) => Some(value),
        None => right,
    }
}

/// The first field of an edit that should be zero and is not.
pub open spec fn reserved_in_edit(input: Seq<u8>, offset: int) -> Option<u64> {
    first_of(
        first_of(
            nonzero(wire::u32_at(input, offset + 4) as u64),
            nonzero(wire::u32_at(input, offset + 28) as u64),
        ),
        first_of(
            nonzero(wire::u16_at(input, offset + 54) as u64),
            nonzero(wire::u64_at(input, offset + 56)),
        ),
    )
}

/// The field of a device range that should be zero, if it is not.
pub open spec fn reserved_in_range(input: Seq<u8>, offset: int) -> Option<u64> {
    nonzero(wire::u64_at(input, offset + 16))
}

/// The first field of a word of processors that should be zero and is not.
pub open spec fn reserved_in_word(input: Seq<u8>, offset: int) -> Option<u64> {
    first_of(
        nonzero(wire::u16_at(input, offset + 2) as u64),
        nonzero(wire::u32_at(input, offset + 4) as u64),
    )
}

/// The first field of a record behind a request that should be zero and is not.
pub open spec fn reserved_in_record(code: u32, input: Seq<u8>, k: int) -> Option<u64> {
    if code == IOCTL_START_VMM {
        reserved_in_range(input, 56 + k * 24)
    } else if code == IOCTL_APPLY_EDIT_BATCH {
        reserved_in_edit(input, 56 + k * 64)
    } else {
        reserved_in_word(input, 48 + k * 16)
    }
}

/// The first field of the first records that should be zero and is not.
pub open spec fn reserved_in_records(code: u32, input: Seq<u8>, count: nat) -> Option<u64>
    decreases count,
{
    if count == 0 {
        None
    } else {
        first_of(
            reserved_in_records(code, input, (count - 1) as nat),
            reserved_in_record(code, input, count - 1),
        )
    }
}

/// The first field of a request that should be zero and is not, in the order in
/// which the fields are looked at; of the allocation flags, the unknown ones.
pub open spec fn first_reserved(code: u32, input: Seq<u8>) -> Option<u64> {
    let u16_field = |offset: int| nonzero(wire::u16_at(input, offset) as u64);
    let u32_field = |offset: int| nonzero(wire::u32_at(input, offset) as u64);
    let u64_field = |offset: int| nonzero(wire::u64_at(input, offset));
    if code == IOCTL_START_VMM {
        first_of(
            first_of(u32_field(44), u64_field(48)),
            reserved_in_records(code, input, wire::u32_at(input, 40) as nat),
        )
    } else if code == IOCTL_ALLOCATE_BACKING {
        first_of(
            u64_field(32),
            nonzero((wire::u32_at(input, 28) & !KNOWN_ALLOCATION_FLAGS) as u64),
        )
    } else if code == IOCTL_WRITE_BACKING {
        first_of(u32_field(28), u32_field(60))
    } else if code == IOCTL_FREE_BACKING {
        u32_field(28)
    } else if code == IOCTL_CREATE_DRAFT {
        first_of(
            first_of(u16_field(26), u32_field(28)),
            first_of(u32_field(40), u32_field(44)),
        )
    } else if code == IOCTL_APPLY_EDIT_BATCH {
        first_of(
            first_of(first_of(u16_field(26), u32_field(28)), u32_field(52)),
            reserved_in_records(code, input, wire::u32_at(input, 48) as nat),
        )
    } else if code == IOCTL_DISCARD_DRAFT || code == IOCTL_PUBLISH_VIEW {
        first_of(u16_field(26), u32_field(28))
    } else if code == IOCTL_QUERY_MAPPING {
        first_of(
            first_of(first_of(u32_field(28), u16_field(34)), u32_field(36)),
            first_of(u16_field(50), u32_field(52)),
        )
    } else if code == IOCTL_ACTIVATE_VIEW {
        first_of(
            first_of(first_of(u16_field(26), u32_field(28)), u32_field(44)),
            reserved_in_records(code, input, wire::u32_at(input, 40) as nat),
        )
    } else if code == IOCTL_READ_EVENTS {
        u16_field(26)
    } else if code == IOCTL_GET_VCPU_STATE {
        first_of(u16_field(26), u32_field(28))
    } else {
        None
    }
}

/// What the first records hold is found in all.
proof fn lemma_reserved_stays(code: u32, input: Seq<u8>, part: nat, count: nat)
    requires
        part <= count,
        reserved_in_records(code, input, part) is Some,
    ensures
        reserved_in_records(code, input, count) == reserved_in_records(code, input, part),
    decreases count,
{
    if part < count {
        lemma_reserved_stays(code, input, part, (count - 1) as nat);
    }
}

/// The first thing that is wrong with a request, if anything is.
pub open spec fn request_fault(
    code: u32,
    input: Seq<u8>,
    output_len: int,
    active_nonce: u64,
) -> Option<MonadError> {
    match shape_of(code) {
        None => Some(spec_device_error(ErrorCode::WrongObjectState, code as u64)),
        Some(shape) => if header_fault(shape, input, output_len) is Some {
            header_fault(shape, input, output_len)
        } else if size_fault(shape, input) is Some {
            size_fault(shape, input)
        } else if output_fault(code, shape, input, output_len) is Some {
            output_fault(code, shape, input, output_len)
        } else if nonce_fault(shape, header_at(input).session_nonce, active_nonce) is Some {
            nonce_fault(shape, header_at(input).session_nonce, active_nonce)
        } else {
            match first_reserved(code, input) {
                Some(value) => Some(spec_device_error(ErrorCode::UnsupportedFlags, value)),
                None => None,
            }
        },
    }
}

fn check_header(shape: &OperationDescriptor, input: &[u8], output_len: usize) -> (result: Result<
    RequestHeader,
    MonadError,
>)
    ensures
        match header_fault(*shape, input@, output_len as int) {
            Some(error) => result == Err::<RequestHeader, MonadError>(error),
            None => result == Ok::<RequestHeader, MonadError>(header_at(input@)),
        },
{
    let length: usize = input.len();
    if length > MAX_REQUEST_BYTES {
        return Err(device_error(ErrorCode::InvalidRange, length as u64));
    }
    if output_len > MAX_REQUEST_BYTES {
        return Err(device_error(ErrorCode::InvalidRange, output_len as u64));
    }
    if length < RequestHeader::size() {
        return Err(device_error(ErrorCode::InvalidStructureSize, length as u64));
    }
    let header: RequestHeader = read_pod(input, 0)?;
    if header.abi_version != ABI_VERSION {
        return Err(device_error(ErrorCode::InvalidAbiVersion, header.abi_version as u64));
    }
    if header.struct_size as usize != shape.input_size {
        return Err(device_error(ErrorCode::InvalidStructureSize, header.struct_size as u64));
    }
    if header.flags & !KNOWN_REQUEST_FLAGS != 0 {
        return Err(device_error(ErrorCode::UnsupportedFlags, header.flags as u64));
    }
    if output_len < shape.output_size {
        return Err(device_error(ErrorCode::InvalidStructureSize, output_len as u64));
    }
    Ok(header)
}

fn check_size(shape: &OperationDescriptor, input: &[u8]) -> (result: Result<usize, MonadError>)
    requires
        input@.len() <= MAX_REQUEST_BYTES,
        shape.trailing_count_offset matches Some(offset) ==> offset <= MAX_REQUEST_BYTES,
    ensures
        match size_fault(*shape, input@) {
            Some(error) => result == Err::<usize, MonadError>(error),
            None => result == Ok::<usize, MonadError>(input@.len() as usize),
        },
{
    let length: usize = input.len();
    let count: u32 = match shape.trailing_count_offset {
        Some(offset) => {
            if offset + 4 > length {
                return Err(device_error(ErrorCode::InvalidStructureSize, length as u64));
            }
            load_u32(input, offset)
        },
        None => 0,
    };
    let trailing: usize = match (count as usize).checked_mul(shape.trailing_element_size) {
        Some(trailing) => trailing,
        None => {
            return Err(device_error(ErrorCode::AddressOverflow, count as u64));
        },
    };
    let total: usize = match shape.input_size.checked_add(trailing) {
        Some(total) => total,
        None => {
            return Err(device_error(ErrorCode::AddressOverflow, shape.input_size as u64));
        },
    };
    if total != length || total > MAX_REQUEST_BYTES {
        return Err(device_error(ErrorCode::InvalidStructureSize, length as u64));
    }
    Ok(total)
}

fn checked_variable_size(base: usize, count: u32, element: usize) -> (result: Result<
    usize,
    MonadError,
>)
    requires
        base <= 72,
        element <= 128,
    ensures
        match records_size(base as int, count, element as int) {
            Ok(size) => result == Ok::<usize, MonadError>(size as usize),
            Err(error) => result == Err::<usize, MonadError>(error),
        },
{
    if count == 0 {
        return Err(device_error(ErrorCode::InvalidRange, 0));
    }
    match (count as usize).checked_mul(element) {
        Some(bytes) => match base.checked_add(bytes) {
            Some(size) => Ok(size),
            None => Err(device_error(ErrorCode::AddressOverflow, count as u64)),
        },
        None => Err(device_error(ErrorCode::AddressOverflow, count as u64)),
    }
}

fn check_output(
    code: u32,
    shape: &OperationDescriptor,
    input: &[u8],
    output_len: usize,
) -> (result: Result<(), MonadError>)
    requires
        input@.len() >= 32 || (code != IOCTL_LIST_VIEWS && code != IOCTL_READ_EVENTS),
    ensures
        match output_fault(code, *shape, input@, output_len as int) {
            Some(error) => result == Err::<(), MonadError>(error),
            None => result == Ok::<(), MonadError>(()),
        },
{
    let wanted: usize = if code == IOCTL_LIST_VIEWS {
        checked_variable_size(56, load_u32(input, 28), 112)?
    } else if code == IOCTL_READ_EVENTS {
        checked_variable_size(72, load_u32(input, 28), 128)?
    } else {
        shape.output_size
    };
    if wanted > output_len || wanted > MAX_REQUEST_BYTES {
        return Err(device_error(ErrorCode::InvalidStructureSize, wanted as u64));
    }
    Ok(())
}

fn check_nonce(shape: &OperationDescriptor, nonce: u64, active_nonce: u64) -> (result: Result<
    (),
    MonadError,
>)
    ensures
        match nonce_fault(*shape, nonce, active_nonce) {
            Some(error) => result == Err::<(), MonadError>(error),
            None => result == Ok::<(), MonadError>(()),
        },
{
    if shape.zero_nonce {
        if nonce != 0 && nonce != active_nonce {
            return Err(session_error(ErrorCode::WrongSession, nonce));
        }
    } else if nonce == 0 || nonce != active_nonce {
        return Err(session_error(ErrorCode::WrongSession, nonce));
    }
    Ok(())
}

/// A field that should be zero, if it is not.
fn unless_zero(value: u64) -> (found: Option<u64>)
    ensures
        found == nonzero(value),
{
    if value != 0 {
        Some(value)
    } else {
        None
    }
}

/// A finding, or else a field that should be zero and is not.
fn or_field(found: Option<u64>, value: u64) -> (first: Option<u64>)
    ensures
        first == first_of(found, nonzero(value)),
{
    match found {
        Some(earlier) => Some(earlier),
        None => unless_zero(value),
    }
}

fn device_ranges_have_reserved(input: &[u8], count: u32) -> (reserved: Option<u64>)
    requires
        56 + count * 24 <= input@.len() <= MAX_REQUEST_BYTES,
    ensures
        reserved == reserved_in_records(IOCTL_START_VMM, input@, count as nat),
{
    let mut index: usize = 0;
    while index < count as usize
        invariant
            index <= count,
            56 + count * 24 <= input@.len() <= MAX_REQUEST_BYTES,
            reserved_in_records(IOCTL_START_VMM, input@, index as nat) is None,
        decreases count - index,
    {
        let range = DevicePhysicalRangeWire::load(input, 56 + index * 24);
        let found = unless_zero(range.reserved);
        proof {
            assert(found == reserved_in_record(IOCTL_START_VMM, input@, index as int));
            assert(reserved_in_records(IOCTL_START_VMM, input@, (index + 1) as nat) == found);
        }
        if found.is_some() {
            proof {
                lemma_reserved_stays(IOCTL_START_VMM, input@, (index + 1) as nat, count as nat);
            }
            return found;
        }
        index = index + 1;
    }
    None
}

fn edits_have_reserved(input: &[u8], count: u32) -> (reserved: Option<u64>)
    requires
        56 + count * 64 <= input@.len() <= MAX_REQUEST_BYTES,
    ensures
        reserved == reserved_in_records(IOCTL_APPLY_EDIT_BATCH, input@, count as nat),
{
    let ghost code = IOCTL_APPLY_EDIT_BATCH;
    let mut index: usize = 0;
    while index < count as usize
        invariant
            index <= count,
            code == IOCTL_APPLY_EDIT_BATCH,
            56 + count * 64 <= input@.len() <= MAX_REQUEST_BYTES,
            reserved_in_records(code, input@, index as nat) is None,
        decreases count - index,
    {
        let edit = EditWire::load(input, 56 + index * 64);
        let of_edit = or_field(unless_zero(edit.flags as u64), edit.backing.reserved as u64);
        let found = or_field(or_field(of_edit, edit.reserved0 as u64), edit.reserved);
        proof {
            assert(found == reserved_in_edit(input@, 56 + index * 64));
            assert(found == reserved_in_record(code, input@, index as int));
            assert(reserved_in_records(code, input@, (index + 1) as nat) == found);
        }
        if found.is_some() {
            proof {
                lemma_reserved_stays(code, input@, (index + 1) as nat, count as nat);
            }
            return found;
        }
        index = index + 1;
    }
    None
}

fn cpu_words_have_reserved(input: &[u8], count: u32) -> (reserved: Option<u64>)
    requires
        48 + count * 16 <= input@.len() <= MAX_REQUEST_BYTES,
    ensures
        reserved == reserved_in_records(IOCTL_ACTIVATE_VIEW, input@, count as nat),
{
    let ghost code = IOCTL_ACTIVATE_VIEW;
    let mut index: usize = 0;
    while index < count as usize
        invariant
            index <= count,
            code == IOCTL_ACTIVATE_VIEW,
            48 + count * 16 <= input@.len() <= MAX_REQUEST_BYTES,
            reserved_in_records(code, input@, index as nat) is None,
        decreases count - index,
    {
        let word = CpuSetWordWire::load(input, 48 + index * 16);
        let found = or_field(unless_zero(word.reserved as u64), word.reserved1 as u64);
        proof {
            assert(found == reserved_in_word(input@, 48 + index * 16));
            assert(found == reserved_in_record(code, input@, index as int));
            assert(reserved_in_records(code, input@, (index + 1) as nat) == found);
        }
        if found.is_some() {
            proof {
                lemma_reserved_stays(code, input@, (index + 1) as nat, count as nat);
            }
            return found;
        }
        index = index + 1;
    }
    None
}

/// A finding, or else what the records hold.
fn or_records(found: Option<u64>, records: Option<u64>) -> (first: Option<u64>)
    ensures
        first == first_of(found, records),
{
    match found {
        Some(earlier) => Some(earlier),
        None => records,
    }
}

/// Refuses a request that has something where it should have zero, with what it
/// has there.
fn validate_reserved(code: u32, input: &[u8]) -> (result: Result<(), MonadError>)
    requires
        input@.len() <= MAX_REQUEST_BYTES,
        shape_of(code) is Some,
        size_fault(shape_of(code).unwrap(), input@) is None,
    ensures
        result == match first_reserved(code, input@) {
            Some(value) => Err::<(), MonadError>(
                spec_device_error(ErrorCode::UnsupportedFlags, value),
            ),
            None => Ok(()),
        },
{
    let found: Option<u64> = if code == IOCTL_START_VMM {
        let fixed = or_field(unless_zero(load_u32(input, 44) as u64), load_u64(input, 48));
        or_records(fixed, device_ranges_have_reserved(input, load_u32(input, 40)))
    } else if code == IOCTL_ALLOCATE_BACKING {
        let unknown: u32 = load_u32(input, 28) & !KNOWN_ALLOCATION_FLAGS;
        or_field(unless_zero(load_u64(input, 32)), unknown as u64)
    } else if code == IOCTL_WRITE_BACKING {
        or_field(unless_zero(load_u32(input, 28) as u64), load_u32(input, 60) as u64)
    } else if code == IOCTL_FREE_BACKING {
        unless_zero(load_u32(input, 28) as u64)
    } else if code == IOCTL_CREATE_DRAFT {
        let source = or_field(unless_zero(load_u16(input, 26) as u64), load_u32(input, 28) as u64);
        or_field(or_field(source, load_u32(input, 40) as u64), load_u32(input, 44) as u64)
    } else if code == IOCTL_APPLY_EDIT_BATCH {
        let draft = or_field(unless_zero(load_u16(input, 26) as u64), load_u32(input, 28) as u64);
        or_records(
            or_field(draft, load_u32(input, 52) as u64),
            edits_have_reserved(input, load_u32(input, 48)),
        )
    } else if code == IOCTL_DISCARD_DRAFT || code == IOCTL_PUBLISH_VIEW {
        or_field(unless_zero(load_u16(input, 26) as u64), load_u32(input, 28) as u64)
    } else if code == IOCTL_QUERY_MAPPING {
        let view = or_field(
            or_field(unless_zero(load_u32(input, 28) as u64), load_u16(input, 34) as u64),
            load_u32(input, 36) as u64,
        );
        or_field(or_field(view, load_u16(input, 50) as u64), load_u32(input, 52) as u64)
    } else if code == IOCTL_ACTIVATE_VIEW {
        let view = or_field(unless_zero(load_u16(input, 26) as u64), load_u32(input, 28) as u64);
        or_records(
            or_field(view, load_u32(input, 44) as u64),
            cpu_words_have_reserved(input, load_u32(input, 40)),
        )
    } else if code == IOCTL_READ_EVENTS {
        unless_zero(load_u16(input, 26) as u64)
    } else if code == IOCTL_GET_VCPU_STATE {
        or_field(unless_zero(load_u16(input, 26) as u64), load_u32(input, 28) as u64)
    } else {
        None
    };
    match found {
        Some(value) => Err(device_error(ErrorCode::UnsupportedFlags, value)),
        None => Ok(()),
    }
}

/// Holds a request against its shape, its room for an answer, the session, and
/// the zeros that it must have.
pub fn validate_request(code: u32, input: &[u8], output_len: usize, active_nonce: u64) -> (result:
    Result<ValidatedRequest, MonadError>)
    ensures
        match request_fault(code, input@, output_len as int, active_nonce) {
            Some(error) => result == Err::<ValidatedRequest, MonadError>(error),
            None => result == Ok::<ValidatedRequest, MonadError>(
                ValidatedRequest {
                    descriptor: shape_of(code).unwrap(),
                    header: header_at(input@),
                    total_input_size: input@.len() as usize,
                },
            ),
        },
{
    let descriptor = operation(code)?;
    let header = check_header(&descriptor, input, output_len)?;
    let total_input_size = check_size(&descriptor, input)?;
    check_output(code, &descriptor, input, output_len)?;
    check_nonce(&descriptor, header.session_nonce, active_nonce)?;
    validate_reserved(code, input)?;
    Ok(ValidatedRequest { descriptor, header, total_input_size })
}

/// Whether a request is allowed in a state of the lifecycle.
pub open spec fn spec_lifecycle_allows(code: u32, state: LifecycleState) -> bool {
    if code == IOCTL_GET_CAPS {
        true
    } else if code == IOCTL_START_VMM {
        state is Absent
    } else if code == IOCTL_READ_EVENTS || code == IOCTL_GET_VCPU_STATE {
        state is Running || state is Absent
    } else {
        shape_of(code) is Some && state is Running
    }
}

/// Whether a request is allowed in a state of the lifecycle.
#[verifier::when_used_as_spec(spec_lifecycle_allows)]
pub fn lifecycle_allows(code: u32, state: LifecycleState) -> (allows: bool)
    ensures
        allows == spec_lifecycle_allows(code, state),
{
    if code == IOCTL_GET_CAPS {
        true
    } else if code == IOCTL_START_VMM {
        matches!(state, LifecycleState::Absent)
    } else if code == IOCTL_READ_EVENTS || code == IOCTL_GET_VCPU_STATE {
        matches!(state, LifecycleState::Running | LifecycleState::Absent)
    } else {
        operation(code).is_ok() && matches!(state, LifecycleState::Running)
    }
}

/// The session that a request goes by.
pub open spec fn session_nonce(session: ControllerSession, request: ValidatedRequest) -> u64 {
    if request.descriptor.zero_nonce && request.header.session_nonce == 0 {
        session.nonce
    } else {
        request.header.session_nonce
    }
}

/// Lets a request in that is allowed in this state of the lifecycle.
pub fn validate_and_begin(
    session: &mut ControllerSession,
    request: ValidatedRequest,
    state: LifecycleState,
) -> (result: Result<Option<SessionRequest>, MonadError>)
    ensures
        ({
            let nonce = session_nonce(*old(session), request);
            if !spec_lifecycle_allows(request.descriptor.code, state) {
                &&& result == Err::<Option<SessionRequest>, MonadError>(
                    session::spec_session_error(
                        ErrorCode::InvalidLifecycleState,
                        state.spec_code() as u64,
                    ),
                )
                &&& *final(session) == *old(session)
            } else {
                match session::begin_fault(*old(session), nonce, true) {
                    Some(error) => {
                        &&& result == Err::<Option<SessionRequest>, MonadError>(error)
                        &&& *final(session) == *old(session)
                    },
                    None => {
                        &&& result == Ok::<Option<SessionRequest>, MonadError>(
                            Some(SessionRequest { mutable: true }),
                        )
                        &&& *final(session) == session::begun(*old(session), true)
                    },
                }
            }
        }),
{
    if !lifecycle_allows(request.descriptor.code, state) {
        return Err(session_error(ErrorCode::InvalidLifecycleState, state.code() as u64));
    }
    let nonce: u64 = if request.descriptor.zero_nonce && request.header.session_nonce == 0 {
        session.active_nonce()
    } else {
        request.header.session_nonce
    };
    match session.begin(nonce, true) {
        Ok(begun) => Ok(Some(begun)),
        Err(error) => Err(error),
    }
}

pub const STATUS_SUCCESS: i32 = 0;

pub open spec fn spec_ntstatus(error: MonadError) -> i32 {
    match error.code {
        ErrorCode::AccessDenied => (-1073741790) as i32,
        ErrorCode::WrongSession => (-1073741790) as i32,
        ErrorCode::ControllerBusy => (-1073741666) as i32,
        ErrorCode::RendezvousBusy => (-1073741666) as i32,
        ErrorCode::InvalidAbiVersion => (-1073741735) as i32,
        ErrorCode::InvalidStructureSize => (-1073741789) as i32,
        ErrorCode::AllocationFailure => (-1073741670) as i32,
        ErrorCode::EptAllocationFailure => (-1073741670) as i32,
        ErrorCode::InvalidLifecycleState => (-1073741436) as i32,
        ErrorCode::WrongObjectState => (-1073741436) as i32,
        _ => (-1073741811) as i32,
    }
}

/// The status that the operating system sees for a failure.
#[verifier::when_used_as_spec(spec_ntstatus)]
pub fn ntstatus(error: MonadError) -> (status: i32)
    ensures
        status == spec_ntstatus(error),
{
    match error.code {
        ErrorCode::AccessDenied => -1073741790,
        ErrorCode::WrongSession => -1073741790,
        ErrorCode::ControllerBusy => -1073741666,
        ErrorCode::RendezvousBusy => -1073741666,
        ErrorCode::InvalidAbiVersion => -1073741735,
        ErrorCode::InvalidStructureSize => -1073741789,
        ErrorCode::AllocationFailure => -1073741670,
        ErrorCode::EptAllocationFailure => -1073741670,
        ErrorCode::InvalidLifecycleState => -1073741436,
        ErrorCode::WrongObjectState => -1073741436,
        _ => -1073741811,
    }
}

/// What the stopped hypervisor recorded stays readable, and nothing of it can
/// be changed.
pub proof fn law_stopped_evidence_is_readable(code: u32)
    requires
        shape_of(code) is Some,
    ensures
        spec_lifecycle_allows(code, LifecycleState::Absent) == (code == IOCTL_GET_CAPS || code
            == IOCTL_START_VMM || code == IOCTL_READ_EVENTS || code == IOCTL_GET_VCPU_STATE),
{
}

} // verus!
