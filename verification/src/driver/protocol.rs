//! How requests and answers are told apart: their numbers, their sizes, what
//! must be zero in them, and when they are let in.

use vstd::prelude::*;

use super::allocator::allocation_size;
use super::device::{
    backing_from_wire, backing_to_wire, draft_from_wire, draft_to_wire, view_from_wire,
    view_to_wire,
};
use super::dispatch;
use super::dispatch::Completion;
use super::entry;
use super::entry::{admit_control, NonceSearch};
use super::ioctl;
use super::ioctl::{
    ctl_code, device_error, lifecycle_allows, ntstatus, operation, validate_request,
    OperationDescriptor, ValidatedRequest,
};
use super::layout;
use super::session;
use super::session::{session_error, ControllerSession};
use super::wire;
use super::wire::{BackingIdWire, DraftIdWire, Pod, RequestHeader, ResponseHeader, ViewIdWire};
use crate::bits;
use crate::ept::backing::BackingId;
use crate::ept::view::{DraftId, ViewId};
use crate::error::{ErrorCode, ErrorPhase, MonadError};
use crate::lifecycle::LifecycleState;

verus! {

/// Every phase has its number.
pub proof fn law_numbers_of_phases(phase: ErrorPhase, number: u32)
    requires
        call_ensures(ErrorPhase::code, (phase,), number),
    ensures
        phase is Capability ==> number == 1,
        phase is Device ==> number == 2,
        phase is Session ==> number == 3,
        phase is Topology ==> number == 4,
        phase is Mtrr ==> number == 5,
        phase is EptBuild ==> number == 6,
        phase is DraftEdit ==> number == 7,
        phase is Publish ==> number == 8,
        phase is Launch ==> number == 9,
        phase is Rendezvous ==> number == 10,
        phase is Activation ==> number == 11,
        phase is ExitHandling ==> number == 12,
        phase is Shutdown ==> number == 13,
        phase is Telemetry ==> number == 14,
{
}

/// Every failure has its number.
pub proof fn law_numbers_of_failures(code: ErrorCode, number: u32)
    requires
        call_ensures(ErrorCode::code, (code,), number),
    ensures
        code is InvalidAbiVersion ==> number == 1,
        code is InvalidStructureSize ==> number == 2,
        code is UnsupportedFlags ==> number == 3,
        code is AccessDenied ==> number == 4,
        code is ControllerBusy ==> number == 5,
        code is WrongSession ==> number == 6,
        code is InvalidLifecycleState ==> number == 7,
        code is UnsupportedCapability ==> number == 8,
        code is CompetingHypervisor ==> number == 9,
        code is TooManyProcessors ==> number == 10,
        code is TopologyChanged ==> number == 11,
        code is InvalidRange ==> number == 12,
        code is AddressOverflow ==> number == 13,
        code is MisalignedAddress ==> number == 14,
        code is PhysicalAddressTooWide ==> number == 15,
        code is UnsupportedPermissionCombination ==> number == 16,
        code is UnsupportedMtrrCombination ==> number == 17,
        code is EptAllocationFailure ==> number == 18,
        code is EptVerificationFailure ==> number == 19,
        code is StaleHandle ==> number == 20,
        code is WrongObjectState ==> number == 21,
        code is DraftCapacity ==> number == 22,
        code is PublishedViewCapacity ==> number == 23,
        code is BackingCapacity ==> number == 24,
        code is BackingStillReferenced ==> number == 25,
        code is InvalidCpuSet ==> number == 26,
        code is RendezvousBusy ==> number == 27,
        code is RendezvousTimeout ==> number == 28,
        code is VmreadFailure ==> number == 29,
        code is VmwriteFailure ==> number == 30,
        code is InveptFailure ==> number == 31,
        code is LaunchRollbackFailure ==> number == 32,
        code is ActivationRolledBack ==> number == 33,
        code is ShutdownFailure ==> number == 34,
        code is VmxInstructionFailure ==> number == 35,
        code is InvalidDescriptor ==> number == 36,
        code is InvalidGuestState ==> number == 37,
        code is GenerationOverflow ==> number == 38,
        code is AllocationFailure ==> number == 39,
{
}

/// A failure says where and what, and names no processor and no step of a batch
/// until it is told; what it is told, it says, and nothing else changes.
pub proof fn law_failure_says_what_it_is_told(
    phase: ErrorPhase,
    code: ErrorCode,
    detail: u64,
    cpu: u16,
    step: u32,
    error: MonadError,
    on_cpu: MonadError,
    at_step: MonadError,
)
    requires
        call_ensures(MonadError::new, (phase, code, detail), error),
        call_ensures(MonadError::on_cpu, (error, cpu), on_cpu),
        call_ensures(MonadError::at_operation, (error, step), at_step),
    ensures
        error.phase == phase && error.code == code && error.detail == detail,
        error.cpu_dense_index == 0xffff && error.operation_index == 0xffff_ffff,
        error.reserved == 0,
        on_cpu.phase == phase && on_cpu.code == code && on_cpu.detail == detail,
        on_cpu.cpu_dense_index == cpu && on_cpu.operation_index == 0xffff_ffff,
        at_step.phase == phase && at_step.code == code && at_step.detail == detail,
        at_step.cpu_dense_index == 0xffff && at_step.operation_index == step,
{
}

/// The phases of the two kinds of failure that come before a request is let in.
pub proof fn law_failures_before_a_request(
    code: ErrorCode,
    detail: u64,
    of_device: MonadError,
    of_session: MonadError,
)
    requires
        call_ensures(device_error, (code, detail), of_device),
        call_ensures(session_error, (code, detail), of_session),
    ensures
        of_device.phase is Device && of_device.code == code && of_device.detail == detail,
        of_session.phase is Session && of_session.code == code && of_session.detail == detail,
{
}

/// The answer to a request that failed carries the request's number and every
/// part of the failure, and that of one that went through carries the session.
pub proof fn law_answers_carry_the_request<T: Pod>(
    request: RequestHeader,
    nonce: u64,
    error: MonadError,
    success: ResponseHeader,
    failure: ResponseHeader,
    phase: u32,
    code: u32,
)
    requires
        0 <= T::spec_size() <= 0xffff,
        call_ensures(ErrorPhase::code, (error.phase,), phase),
        call_ensures(ErrorCode::code, (error.code,), code),
        call_ensures(ResponseHeader::success::<T>, (request, nonce), success),
        call_ensures(ResponseHeader::failure::<T>, (request.request_id, error), failure),
    ensures
        success.abi_version == 2 && failure.abi_version == 2,
        success.struct_size == T::spec_size() && failure.struct_size == T::spec_size(),
        success.flags == 0 && failure.flags == 0,
        success.request_id == request.request_id && failure.request_id == request.request_id,
        success.session_nonce == nonce && failure.session_nonce == 0,
        success.error.phase == 0 && success.error.code == 0 && success.error.detail == 0,
        success.error.cpu_dense_index == 0xffff && success.error.operation_index == 0xffff_ffff,
        success.error.reserved == 0 && failure.error.reserved == 0,
        failure.error.phase == phase && failure.error.code == code,
        failure.error.phase != 0 && failure.error.code != 0,
        failure.error.cpu_dense_index == error.cpu_dense_index,
        failure.error.operation_index == error.operation_index,
        failure.error.detail == error.detail,
{
}

/// Two failures that are answered alike are alike.
pub proof fn law_different_failures_are_answered_differently<T: Pod>(
    request_id: u64,
    one: MonadError,
    other: MonadError,
    answer: ResponseHeader,
)
    requires
        one.reserved == 0 && other.reserved == 0,
        call_ensures(ResponseHeader::failure::<T>, (request_id, one), answer),
        call_ensures(ResponseHeader::failure::<T>, (request_id, other), answer),
    ensures
        one == other,
{
}

/// A name is read and written part by part, and nothing is added to it.
pub proof fn law_names_part_by_part(
    backing: BackingIdWire,
    view: ViewIdWire,
    draft: DraftIdWire,
    backing_id: BackingId,
    view_id: ViewId,
    draft_id: DraftId,
    backing_again: BackingIdWire,
    view_again: ViewIdWire,
    draft_again: DraftIdWire,
)
    requires
        call_ensures(backing_from_wire, (backing,), backing_id),
        call_ensures(view_from_wire, (view,), view_id),
        call_ensures(draft_from_wire, (draft,), draft_id),
        call_ensures(backing_to_wire, (backing_id,), backing_again),
        call_ensures(view_to_wire, (view_id,), view_again),
        call_ensures(draft_to_wire, (draft_id,), draft_again),
    ensures
        backing_id.slot == backing.slot && backing_id.generation == backing.generation,
        backing_id.session_nonce == backing.session_nonce,
        view_id.slot == view.slot && view_id.generation == view.generation,
        view_id.reserved == view.reserved,
        draft_id.slot == draft.slot && draft_id.generation == draft.generation,
        draft_id.session_nonce == draft.session_nonce && draft_id.reserved == draft.reserved,
        backing_again.slot == backing.slot && backing_again.generation == backing.generation,
        backing_again.session_nonce == backing.session_nonce && backing_again.reserved == 0,
        view_again.slot == view.slot && view_again.generation == view.generation,
        view_again.reserved == 0 && view_again.reserved1 == 0,
        draft_again.slot == draft.slot && draft_again.generation == draft.generation,
        draft_again.session_nonce == draft.session_nonce,
        draft_again.reserved == 0 && draft_again.reserved1 == 0,
{
}

/// Whether a request is there, with the sizes of itself and of its answer.
pub open spec fn sizes(
    result: Result<OperationDescriptor, MonadError>,
    input: int,
    output: int,
) -> bool {
    &&& result is Ok
    &&& result->Ok_0.input_size == input
    &&& result->Ok_0.output_size == output
}

/// A code tells the request: the access that it needs tells whether it changes
/// anything, and only a question about the platform comes without a session.
pub proof fn law_shapes_of_requests(code: u32, result: Result<OperationDescriptor, MonadError>)
    requires
        call_ensures(operation, (code,), result),
    ensures
        code == 0x22_6000 ==> sizes(result, 24, 112),
        code == 0x22_e004 ==> sizes(result, 56, 48),
        code == 0x22_e008 ==> sizes(result, 24, 48),
        code == 0x22_e040 ==> sizes(result, 40, 72),
        code == 0x22_e044 ==> sizes(result, 64, 48),
        code == 0x22_e048 ==> sizes(result, 48, 48),
        code == 0x22_e080 ==> sizes(result, 48, 72),
        code == 0x22_e084 ==> sizes(result, 56, 48),
        code == 0x22_e088 ==> sizes(result, 48, 48),
        code == 0x22_e08c ==> sizes(result, 48, 72),
        code == 0x22_6090 ==> sizes(result, 80, 104),
        code == 0x22_6094 ==> sizes(result, 32, 56),
        code == 0x22_e098 ==> sizes(result, 48, 48),
        code == 0x22_60c0 ==> sizes(result, 40, 72),
        code == 0x22_60c4 ==> sizes(result, 32, 112),
        result is Ok <==> (code == 0x22_6000 || code == 0x22_e004 || code == 0x22_e008 || code == 0x22_e040 || code == 0x22_e044 || code == 0x22_e048 || code == 0x22_e080 || code == 0x22_e084 || code == 0x22_e088 || code == 0x22_e08c || code == 0x22_6090 || code == 0x22_6094 || code == 0x22_e098 || code == 0x22_60c0 || code == 0x22_60c4),
        result matches Ok(shape) ==> {
            &&& shape.code == code
            &&& shape.mutable == ((code / 0x8000) % 2 == 1)
            &&& shape.zero_nonce == (code == 0x22_6000)
            &&& shape.trailing_count_offset == if code == 0x22_e004 || code == 0x22_e098 {
                Some(40usize)
            } else if code == 0x22_e044 {
                Some(56usize)
            } else if code == 0x22_e084 {
                Some(48usize)
            } else {
                None::<usize>
            }
            &&& shape.trailing_element_size == if code == 0x22_e004 {
                24int
            } else if code == 0x22_e044 {
                1
            } else if code == 0x22_e084 {
                64
            } else if code == 0x22_e098 {
                16
            } else {
                0
            }
        },
        result matches Err(error) ==> error.phase is Device && error.code is WrongObjectState
            && error.detail == code,
{
}

/// The parts of a code stand side by side.
pub proof fn law_parts_of_a_code(function: u32, access: u32, code: u32)
    requires
        function < 0x1000,
        access < 4,
        call_ensures(ctl_code, (function, access), code),
    ensures
        code == 0x22_0000 + 0x4000 * access + 4 * function,
{
    ioctl::lemma_ctl_code(function, access);
}

/// A request that is let through begins with the version, its size and no
/// flags, names the session, and is as long as it says; its answer has room.
pub proof fn law_request_that_is_let_through(
    code: u32,
    input: &[u8],
    output_len: usize,
    nonce: u64,
    request: ValidatedRequest,
)
    requires
        call_ensures(validate_request, (code, input, output_len, nonce), Ok(request)),
    ensures
        ({
            let bytes = input@;
            &&& request.descriptor.code == code
            &&& request.total_input_size == bytes.len()
            &&& request.header.abi_version == 2
            &&& request.header.struct_size == request.descriptor.input_size
            &&& request.header.flags == 0
            &&& layout::number(bytes, 0, 2) == 2
            &&& layout::number(bytes, 2, 2) == request.descriptor.input_size
            &&& layout::number(bytes, 4, 4) == 0
            &&& layout::number(bytes, 8, 8) == request.header.request_id
            &&& layout::number(bytes, 16, 8) == request.header.session_nonce
            &&& request.header.session_nonce == nonce || code == 0x22_6000
                && request.header.session_nonce == 0
            &&& nonce == 0 ==> code == 0x22_6000
            &&& 24 <= bytes.len() <= 0x1_0000
            &&& request.descriptor.output_size <= output_len <= 0x1_0000
            &&& code == 0x22_6094 ==> 0 < layout::number(bytes, 28, 4) && 56 + 112 * layout::number(
                bytes,
                28,
                4,
            ) <= output_len
            &&& code == 0x22_60c0 ==> 0 < layout::number(bytes, 28, 4) && 72 + 128 * layout::number(
                bytes,
                28,
                4,
            ) <= output_len
        }),
{
    let bytes = input@;
    layout::law_numbers_have_their_lowest_byte_first(bytes, 0);
    layout::law_numbers_have_their_lowest_byte_first(bytes, 2);
    layout::law_numbers_have_their_lowest_byte_first(bytes, 4);
    layout::law_numbers_have_their_lowest_byte_first(bytes, 8);
    layout::law_numbers_have_their_lowest_byte_first(bytes, 16);
    layout::law_numbers_have_their_lowest_byte_first(bytes, 26);
    layout::law_numbers_have_their_lowest_byte_first(bytes, 28);
    layout::law_numbers_have_their_lowest_byte_first(bytes, 32);
    layout::law_numbers_have_their_lowest_byte_first(bytes, 34);
    layout::law_numbers_have_their_lowest_byte_first(bytes, 36);
    layout::law_numbers_have_their_lowest_byte_first(bytes, 40);
    layout::law_numbers_have_their_lowest_byte_first(bytes, 44);
    layout::law_numbers_have_their_lowest_byte_first(bytes, 48);
    layout::law_numbers_have_their_lowest_byte_first(bytes, 50);
    layout::law_numbers_have_their_lowest_byte_first(bytes, 52);
    layout::law_numbers_have_their_lowest_byte_first(bytes, 56);
    layout::law_numbers_have_their_lowest_byte_first(bytes, 60);
    bits::lemma_unknown_flags(ioctl::header_at(bytes).flags);
}

/// Whether the parts of a record that mean nothing are zero: of a range, of an
/// edit, or of a word of processors.
pub open spec fn record_zeros(code: u32, bytes: Seq<u8>, k: int) -> bool {
    if code == 0x22_e004 {
        layout::number(bytes, 56 + k * 24 + 16, 8) == 0
    } else if code == 0x22_e084 {
        &&& layout::number(bytes, 56 + k * 64 + 4, 4) == 0
        &&& layout::number(bytes, 56 + k * 64 + 28, 4) == 0
        &&& layout::number(bytes, 56 + k * 64 + 54, 2) == 0
        &&& layout::number(bytes, 56 + k * 64 + 56, 8) == 0
    } else {
        &&& layout::number(bytes, 48 + k * 16 + 2, 2) == 0
        &&& layout::number(bytes, 48 + k * 16 + 4, 4) == 0
    }
}

/// Whether the parts of a request that mean nothing are zero, and those of the
/// records behind it.
pub open spec fn zeros(code: u32, bytes: Seq<u8>) -> bool {
    &&& code == 0x22_e004 ==> layout::number(bytes, 44, 4) == 0 && layout::number(bytes, 48, 8) == 0
    &&& code == 0x22_e040 ==> layout::number(bytes, 32, 8) == 0
    &&& code == 0x22_e044 ==> layout::number(bytes, 28, 4) == 0 && layout::number(bytes, 60, 4) == 0
    &&& code == 0x22_e048 ==> layout::number(bytes, 28, 4) == 0
    &&& code == 0x22_e080 ==> layout::number(bytes, 26, 2) == 0 && layout::number(bytes, 28, 4) == 0 && layout::number(bytes, 40, 4) == 0 && layout::number(bytes, 44, 4) == 0
    &&& code == 0x22_e084 ==> layout::number(bytes, 26, 2) == 0 && layout::number(bytes, 28, 4) == 0 && layout::number(bytes, 52, 4) == 0
    &&& code == 0x22_e088 ==> layout::number(bytes, 26, 2) == 0 && layout::number(bytes, 28, 4) == 0
    &&& code == 0x22_e08c ==> layout::number(bytes, 26, 2) == 0 && layout::number(bytes, 28, 4) == 0
    &&& code == 0x22_6090 ==> layout::number(bytes, 28, 4) == 0 && layout::number(bytes, 34, 2) == 0 && layout::number(bytes, 36, 4) == 0 && layout::number(bytes, 50, 2) == 0 && layout::number(bytes, 52, 4) == 0
    &&& code == 0x22_e098 ==> layout::number(bytes, 26, 2) == 0 && layout::number(bytes, 28, 4) == 0 && layout::number(bytes, 44, 4) == 0
    &&& code == 0x22_60c0 ==> layout::number(bytes, 26, 2) == 0
    &&& code == 0x22_60c4 ==> layout::number(bytes, 26, 2) == 0 && layout::number(bytes, 28, 4) == 0
    &&& code == 0x22_e040 ==> layout::number(bytes, 28, 4) < 2
    &&& code == 0x22_e004 || code == 0x22_e098 ==> forall|k: int|
        0 <= k < layout::number(bytes, 40, 4) ==> #[trigger] record_zeros(code, bytes, k)
    &&& code == 0x22_e084 ==> forall|k: int|
        0 <= k < layout::number(bytes, 48, 4) ==> #[trigger] record_zeros(code, bytes, k)
}

/// How long a request is that is all there.
pub open spec fn length(code: u32, bytes: Seq<u8>) -> int {
    if code == 0x22_6000 {
        24int
    } else if code == 0x22_e004 {
        56 + layout::number(bytes, 40, 4) * 24
    } else if code == 0x22_e008 {
        24int
    } else if code == 0x22_e040 {
        40int
    } else if code == 0x22_e044 {
        64 + layout::number(bytes, 56, 4)
    } else if code == 0x22_e048 {
        48int
    } else if code == 0x22_e080 {
        48int
    } else if code == 0x22_e084 {
        56 + layout::number(bytes, 48, 4) * 64
    } else if code == 0x22_e088 {
        48int
    } else if code == 0x22_e08c {
        48int
    } else if code == 0x22_6090 {
        80int
    } else if code == 0x22_6094 {
        32int
    } else if code == 0x22_e098 {
        48 + layout::number(bytes, 40, 4) * 16
    } else if code == 0x22_60c0 {
        40int
    } else if code == 0x22_60c4 {
        32int
    } else {
        0int
    }
}

/// How much room the answer to a request takes.
pub open spec fn room(code: u32, bytes: Seq<u8>) -> int {
    if code == 0x22_6000 {
        112int
    } else if code == 0x22_e004 {
        48int
    } else if code == 0x22_e008 {
        48int
    } else if code == 0x22_e040 {
        72int
    } else if code == 0x22_e044 {
        48int
    } else if code == 0x22_e048 {
        48int
    } else if code == 0x22_e080 {
        72int
    } else if code == 0x22_e084 {
        48int
    } else if code == 0x22_e088 {
        48int
    } else if code == 0x22_e08c {
        72int
    } else if code == 0x22_6090 {
        104int
    } else if code == 0x22_6094 {
        56 + layout::number(bytes, 28, 4) * 112
    } else if code == 0x22_e098 {
        48int
    } else if code == 0x22_60c0 {
        72 + layout::number(bytes, 28, 4) * 128
    } else if code == 0x22_60c4 {
        112int
    } else {
        0int
    }
}

proof fn lemma_record_zeros(code: u32, bytes: Seq<u8>, k: int)
    requires
        code == 0x22_e004 || code == 0x22_e084 || code == 0x22_e098,
    ensures
        record_zeros(code, bytes, k) == (ioctl::reserved_in_record(code, bytes, k) is None),
{
    layout::law_numbers_have_their_lowest_byte_first(bytes, 56 + k * 24 + 16);
    layout::law_numbers_have_their_lowest_byte_first(bytes, 56 + k * 64 + 4);
    layout::law_numbers_have_their_lowest_byte_first(bytes, 56 + k * 64 + 28);
    layout::law_numbers_have_their_lowest_byte_first(bytes, 56 + k * 64 + 54);
    layout::law_numbers_have_their_lowest_byte_first(bytes, 56 + k * 64 + 56);
    layout::law_numbers_have_their_lowest_byte_first(bytes, 48 + k * 16 + 2);
    layout::law_numbers_have_their_lowest_byte_first(bytes, 48 + k * 16 + 4);
}

proof fn lemma_records_zeros(code: u32, bytes: Seq<u8>, count: nat)
    requires
        code == 0x22_e004 || code == 0x22_e084 || code == 0x22_e098,
    ensures
        (ioctl::reserved_in_records(code, bytes, count) is None) == (forall|k: int|
            0 <= k < count ==> #[trigger] record_zeros(code, bytes, k)),
    decreases count,
{
    if count > 0 {
        lemma_records_zeros(code, bytes, (count - 1) as nat);
        lemma_record_zeros(code, bytes, count - 1);
        if ioctl::reserved_in_records(code, bytes, count) is None {
            assert forall|k: int| 0 <= k < count implies #[trigger] record_zeros(code, bytes, k) by {
                assert(k == count - 1 || k < count - 1);
            }
        } else if ioctl::reserved_in_records(code, bytes, (count - 1) as nat) is None {
            assert(!record_zeros(code, bytes, count - 1));
        }
    }
}

proof fn lemma_zeros(code: u32, bytes: Seq<u8>)
    ensures
        zeros(code, bytes) == (ioctl::first_reserved(code, bytes) is None),
{
    layout::law_numbers_have_their_lowest_byte_first(bytes, 26);
    layout::law_numbers_have_their_lowest_byte_first(bytes, 28);
    layout::law_numbers_have_their_lowest_byte_first(bytes, 32);
    layout::law_numbers_have_their_lowest_byte_first(bytes, 34);
    layout::law_numbers_have_their_lowest_byte_first(bytes, 36);
    layout::law_numbers_have_their_lowest_byte_first(bytes, 40);
    layout::law_numbers_have_their_lowest_byte_first(bytes, 44);
    layout::law_numbers_have_their_lowest_byte_first(bytes, 48);
    layout::law_numbers_have_their_lowest_byte_first(bytes, 50);
    layout::law_numbers_have_their_lowest_byte_first(bytes, 52);
    layout::law_numbers_have_their_lowest_byte_first(bytes, 56);
    layout::law_numbers_have_their_lowest_byte_first(bytes, 60);
    bits::lemma_unknown_flags(wire::u32_at(bytes, 28));
    if code == 0x22_e004 || code == 0x22_e098 {
        lemma_records_zeros(code, bytes, wire::u32_at(bytes, 40) as nat);
    }
    if code == 0x22_e084 {
        lemma_records_zeros(code, bytes, wire::u32_at(bytes, 48) as nat);
    }
}

/// A request is let through exactly when it is one of those that there are, in
/// this version, without flags, of the size that it says, with room for its
/// answer, from the owner of the session, and zero where it means nothing.
pub proof fn law_requests_that_are_let_through(
    code: u32,
    input: &[u8],
    output_len: usize,
    nonce: u64,
    result: Result<ValidatedRequest, MonadError>,
    shape: Result<OperationDescriptor, MonadError>,
)
    requires
        call_ensures(validate_request, (code, input, output_len, nonce), result),
        call_ensures(operation, (code,), shape),
    ensures
        ({
            let bytes = input@;
            result is Ok <==> {
                &&& shape is Ok
                &&& 24 <= bytes.len() <= 0x1_0000
                &&& bytes.len() == length(code, bytes)
                &&& layout::number(bytes, 0, 2) == 2
                &&& layout::number(bytes, 2, 2) == shape->Ok_0.input_size
                &&& layout::number(bytes, 4, 4) == 0
                &&& room(code, bytes) <= output_len <= 0x1_0000
                &&& code == 0x22_6094 || code == 0x22_60c0 ==> layout::number(bytes, 28, 4) != 0
                &&& layout::number(bytes, 16, 8) == nonce && nonce != 0 || code == 0x22_6000
                    && layout::number(bytes, 16, 8) == 0
                &&& zeros(code, bytes)
            }
        }),
{
    let bytes = input@;
    layout::law_numbers_have_their_lowest_byte_first(bytes, 0);
    layout::law_numbers_have_their_lowest_byte_first(bytes, 2);
    layout::law_numbers_have_their_lowest_byte_first(bytes, 4);
    layout::law_numbers_have_their_lowest_byte_first(bytes, 8);
    layout::law_numbers_have_their_lowest_byte_first(bytes, 16);
    layout::law_numbers_have_their_lowest_byte_first(bytes, 26);
    layout::law_numbers_have_their_lowest_byte_first(bytes, 28);
    layout::law_numbers_have_their_lowest_byte_first(bytes, 32);
    layout::law_numbers_have_their_lowest_byte_first(bytes, 34);
    layout::law_numbers_have_their_lowest_byte_first(bytes, 36);
    layout::law_numbers_have_their_lowest_byte_first(bytes, 40);
    layout::law_numbers_have_their_lowest_byte_first(bytes, 44);
    layout::law_numbers_have_their_lowest_byte_first(bytes, 48);
    layout::law_numbers_have_their_lowest_byte_first(bytes, 50);
    layout::law_numbers_have_their_lowest_byte_first(bytes, 52);
    layout::law_numbers_have_their_lowest_byte_first(bytes, 56);
    layout::law_numbers_have_their_lowest_byte_first(bytes, 60);
    bits::lemma_unknown_flags(ioctl::header_at(bytes).flags);
    lemma_zeros(code, bytes);
}

/// What may be asked when: always for what the platform is, only then for a
/// start when nothing is there, for what was seen while it runs and afterwards,
/// and for all else only while it runs.
pub proof fn law_requests_have_their_time(code: u32, state: LifecycleState, allowed: bool)
    requires
        call_ensures(lifecycle_allows, (code, state), allowed),
    ensures
        code == 0x22_6000 ==> allowed,
        code == 0x22_e004 ==> allowed == (state is Absent),
        code == 0x22_60c0 || code == 0x22_60c4 ==> allowed == (state is Absent || state is Running),
        code != 0x22_6000 && code != 0x22_e004 && code != 0x22_60c0 && code != 0x22_60c4
            ==> allowed == (state is Running && (code == 0x22_6000 || code == 0x22_e004 || code == 0x22_e008 || code == 0x22_e040 || code == 0x22_e044 || code == 0x22_e048 || code == 0x22_e080 || code == 0x22_e084 || code == 0x22_e088 || code == 0x22_e08c || code == 0x22_6090 || code == 0x22_6094 || code == 0x22_e098 || code == 0x22_60c0 || code == 0x22_60c4)),
{
}

/// The status that goes with a failure, as the operating system numbers it.
pub proof fn law_statuses(error: MonadError, status: i32)
    requires
        call_ensures(ntstatus, (error,), status),
    ensures
        ({
            let number = status + 0x1_0000_0000;
            &&& 0xc000_0000 <= number < 0x1_0000_0000
            &&& number == 0xc000_0022 <==> error.code is AccessDenied || error.code is WrongSession
            &&& number == 0xc000_009e <==> error.code is ControllerBusy || error.code is RendezvousBusy
            &&& number == 0xc000_0059 <==> error.code is InvalidAbiVersion
            &&& number == 0xc000_0023 <==> error.code is InvalidStructureSize
            &&& number == 0xc000_009a <==> error.code is AllocationFailure || error.code is EptAllocationFailure
            &&& number == 0xc000_0184 <==> error.code is InvalidLifecycleState || error.code is WrongObjectState
            &&& number == 0xc000_000d || number == 0xc000_0022 || number == 0xc000_009e || number == 0xc000_0059
                || number == 0xc000_0023 || number == 0xc000_009a || number == 0xc000_0184
        }),
{
}

/// A session is taken by one controller that names itself, and a request is let
/// in exactly when it is the owner's, the session stays, and nothing else that
/// changes something is under way.
pub proof fn law_session_belongs_to_its_owner(session: ControllerSession, nonce: u64, mutable: bool)
    ensures
        session::acquire_fault(session, nonce) is None <==> nonce != 0 && session.nonce == 0,
        session::begin_fault(session, nonce, mutable) is None <==> {
            &&& !session.closing
            &&& nonce != 0 && nonce == session.nonce
            &&& !(mutable && session.mutable_busy)
        },
        session::begun(session, mutable).nonce == session.nonce,
        session::begun(session, mutable).closing == session.closing,
        session::begun(session, mutable).mutable_busy == (session.mutable_busy || mutable),
        session.inflight < 0xffff_ffff ==> session::begun(session, mutable).inflight
            == session.inflight + 1,
        session::ended(session, mutable).nonce == session.nonce,
        session::ended(session, mutable).closing == session.closing,
        session::ended(session, mutable).mutable_busy == (session.mutable_busy && !mutable),
        session.inflight > 0 ==> session::ended(session, mutable).inflight == session.inflight - 1,
{
}

/// A session that was taken is its new owner's, one that was shut stays its
/// owner's and lets nothing in, and one that was given up is nobody's; what is
/// under way is counted on throughout.
pub proof fn law_session_changes_hands(session: ControllerSession, nonce: u64, mutable: bool)
    ensures
        session::acquired(session, nonce).nonce == nonce,
        !session::acquired(session, nonce).closing,
        session::acquired(session, nonce).inflight == session.inflight,
        session::acquired(session, nonce).mutable_busy == session.mutable_busy,
        session::shut(session).nonce == session.nonce,
        session::shut(session).inflight == session.inflight,
        session::begin_fault(session::shut(session), nonce, mutable) is Some,
        session::given_up(session).nonce == 0,
        !session::given_up(session).closing,
        session::given_up(session).inflight == session.inflight,
        nonce != 0 ==> session::acquire_fault(session::given_up(session), nonce) is None,
        nonce != 0 && !session.mutable_busy ==> session::begin_fault(
            session::acquired(session, nonce),
            nonce,
            mutable,
        ) is None,
{
}

/// Opening, cleaning up behind a controller and refusing a request, with the
/// statuses that the operating system sees.
pub proof fn law_device_is_opened_and_closed(
    session: ControllerSession,
    irql: u8,
    described: bool,
    input_length: usize,
    output_length: usize,
    buffered: bool,
    admitted: Result<(), i32>,
    search: NonceSearch,
)
    requires
        call_ensures(
            admit_control,
            (irql, described, input_length, output_length, buffered),
            admitted,
        ),
        call_ensures(NonceSearch::new, (), search),
    ensures
        search == NonceSearch::Drawing(4),
        admitted is Ok <==> {
            &&& irql == 0
            &&& described
            &&& input_length <= 0x1_0000
            &&& output_length <= 0x1_0000
            &&& buffered
        },
        admitted matches Err(status) ==> {
            let number = status + 0x1_0000_0000;
            &&& number == 0xc000_0010 || number == 0xc000_000d || number == 0xc000_0023
            &&& number == 0xc000_0010 <==> irql != 0 || !described
        },
        session.nonce != 0 ==> entry::cleaned_up(session) == session::shut(session),
        session.nonce == 0 ==> entry::cleaned_up(session) == session,
{
}

/// A request whose work is done is answered: with success, the number of the
/// request and the session, in the header that every answer begins with.
pub proof fn law_finished_request_is_answered(
    code: u32,
    header: RequestHeader,
    nonce: u64,
    input: Seq<u8>,
    size: usize,
    out: Seq<u8>,
    out_after: Seq<u8>,
    completion: Completion,
)
    requires
        dispatch::concluded(
            code,
            header,
            nonce,
            input,
            Ok::<usize, MonadError>(size),
            out,
            out_after,
            completion,
        ),
    ensures
        completion.status == 0,
        completion.information == size,
        out.len() >= 48 && (code == 0x22_e004 || code == 0x22_e008 || code == 0x22_e044 || code
            == 0x22_e048 || code == 0x22_e084 || code == 0x22_e088 || code == 0x22_e098) ==> {
            &&& layout::number(out_after, 0, 2) == 2
            &&& layout::number(out_after, 2, 2) == 48
            &&& layout::number(out_after, 4, 4) == 0
            &&& layout::number(out_after, 8, 8) == header.request_id
            &&& layout::number(out_after, 16, 8) == nonce
            &&& layout::number(out_after, 24, 4) == 0
            &&& layout::number(out_after, 28, 4) == 0
            &&& layout::number(out_after, 40, 8) == 0
        },
        code == 0x22_6000 || code == 0x22_e040 || code == 0x22_e080 || code == 0x22_e08c || code
            == 0x22_6090 || code == 0x22_6094 || code == 0x22_60c0 || code == 0x22_60c4
            ==> out_after == out,
{
    layout::law_layout_of_response_header(
        ResponseHeader::succeeded(48, header, nonce),
        out_after,
        0,
    );
}

/// A block with a strict alignment is asked for with room to align it and for
/// the pool's own pointer; others as they are.
pub proof fn law_blocks_are_asked_for_with_room(
    size: usize,
    alignment: usize,
    bytes: Option<usize>,
)
    requires
        call_ensures(allocation_size, (size, alignment), bytes),
    ensures
        alignment <= 16 ==> bytes == Some(size),
        alignment > 16 ==> {
            &&& bytes is Some <==> size + alignment + 7 <= usize::MAX
            &&& bytes matches Some(asked) ==> asked == size + alignment + 7
        },
{
}

} // verus!
