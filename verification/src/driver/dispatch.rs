//! From the bytes of a request to the bytes of its answer.

use vstd::prelude::*;

use super::device;
use super::device::device_ranges_from_wire;
use super::ioctl;
use super::ioctl::{
    ntstatus, operation, read_pod, validate_and_begin, validate_request, write_pod,
    ValidatedRequest, IOCTL_ACTIVATE_VIEW, IOCTL_ALLOCATE_BACKING, IOCTL_APPLY_EDIT_BATCH,
    IOCTL_CREATE_DRAFT, IOCTL_DISCARD_DRAFT, IOCTL_FREE_BACKING, IOCTL_GET_CAPS,
    IOCTL_GET_VCPU_STATE, IOCTL_LIST_VIEWS, IOCTL_PUBLISH_VIEW, IOCTL_QUERY_MAPPING,
    IOCTL_READ_EVENTS, IOCTL_START_VMM, IOCTL_STOP_VMM, IOCTL_WRITE_BACKING, STATUS_SUCCESS,
};
use super::requests;
use super::requests::{
    execute_activate_view, execute_allocate_backing, execute_apply_edit_batch,
    execute_create_draft, execute_discard_draft, execute_free_backing, execute_get_caps,
    execute_get_vcpu_state, execute_list_views, execute_publish_view, execute_query_mapping,
    execute_read_events, execute_write_backing, read_fixed,
};
use super::session;
use super::session::{ControllerSession, SessionRequest};
use super::wire;
use super::wire::{Pod, RequestHeader, ResponseHeader, StartVmmRequest};
use crate::ept::page::EptPageAllocator;
use crate::error::{ErrorCode, ErrorPhase, MonadError, MonadResult};
use crate::lifecycle::LifecycleState;
use crate::vmm::control::PendingActivation;
use crate::vmm::machine;
use crate::vmm::machine::Monitor;
use crate::vmm::setup::{PublicCapabilities, VmmStartConfig};

verus! {

/// What the operating system is told of a request: a status, and how many
/// bytes the answer has.
#[derive(Debug, Clone, Copy, PartialEq, Eq, Structural)]
pub struct Completion {
    pub status: i32,
    pub information: usize,
}

/// A request that was let in and waits for work outside.
pub struct PendingRequest {
    pub code: u32,
    pub header: RequestHeader,
    pub request: SessionRequest,
}

/// What is left to do for a request.
pub enum DeviceWork {
    /// Nothing.
    Answered(Completion),
    /// The hypervisor is to be started.
    Start(PendingRequest, VmmStartConfig),
    /// The hypervisor is to be stopped.
    Stop(PendingRequest),
    /// The processors are to change their views.
    Activate(PendingRequest, PendingActivation),
}

/// The number by which a controller knows a request again.
pub open spec fn request_id_of(input: Seq<u8>) -> u64 {
    if input.len() >= 24 {
        ioctl::header_at(input).request_id
    } else {
        0
    }
}

/// How large the answer to a request is meant to be.
pub open spec fn answer_size(code: u32) -> u16 {
    match ioctl::shape_of(code) {
        Some(shape) => shape.output_size as u16,
        None => 48,
    }
}

/// A failure is reported: in the header of the answer, as far as there is room
/// for one, and to the operating system.
pub open spec fn failure_written(
    code: u32,
    input: Seq<u8>,
    error: MonadError,
    out: Seq<u8>,
    out_after: Seq<u8>,
    completion: Completion,
) -> bool {
    &&& completion.status == ntstatus(error)
    &&& if out.len() >= 48 {
        &&& completion.information == 48
        &&& ResponseHeader::failed(answer_size(code), request_id_of(input), error).laid_out(
            out_after,
            0,
        )
        &&& wire::kept(out, out_after, 0, 48)
    } else {
        &&& completion.information == 0
        &&& out_after == out
    }
}

/// Reports a failure.
pub fn write_error(code: u32, input: &[u8], output: &mut [u8], error: MonadError) -> (completion:
    Completion)
    ensures
        failure_written(code, input@, error, old(output)@, final(output)@, completion),
{
    let length: usize = input.len();
    let request_id: u64 = if length >= 24 {
        match read_pod::<RequestHeader>(input, 0) {
            Ok(header) => {
                proof {
                    ioctl::header_at(input@).determined(header, input@, 0);
                }
                header.request_id
            },
            Err(_) => 0,
        }
    } else {
        0
    };
    let output_size: usize = match operation(code) {
        Ok(shape) => shape.output_size,
        Err(_) => 48,
    };
    let status: i32 = ntstatus(error);
    if output.len() >= 48 {
        let failed = ResponseHeader::failure::<ResponseHeader>(request_id, error);
        let header = ResponseHeader {
            abi_version: failed.abi_version,
            struct_size: #[verifier::truncate] (output_size as u16),
            flags: failed.flags,
            request_id: failed.request_id,
            session_nonce: failed.session_nonce,
            error: failed.error,
        };
        if write_pod(output, &header).is_ok() {
            return Completion { status, information: 48 };
        }
    }
    Completion { status, information: 0 }
}

/// Whether carrying out a request writes the whole answer.
pub open spec fn spec_answers_itself(code: u32) -> bool {
    ||| code == IOCTL_GET_CAPS
    ||| code == IOCTL_ALLOCATE_BACKING
    ||| code == IOCTL_CREATE_DRAFT
    ||| code == IOCTL_PUBLISH_VIEW
    ||| code == IOCTL_QUERY_MAPPING
    ||| code == IOCTL_LIST_VIEWS
    ||| code == IOCTL_READ_EVENTS
    ||| code == IOCTL_GET_VCPU_STATE
}

fn answers_itself(code: u32) -> (answers: bool)
    ensures
        answers == spec_answers_itself(code),
{
    code == IOCTL_GET_CAPS || code == IOCTL_ALLOCATE_BACKING || code == IOCTL_CREATE_DRAFT || code
        == IOCTL_PUBLISH_VIEW || code == IOCTL_QUERY_MAPPING || code == IOCTL_LIST_VIEWS || code
        == IOCTL_READ_EVENTS || code == IOCTL_GET_VCPU_STATE
}

/// A request is concluded: what it came to is reported.
pub open spec fn concluded(
    code: u32,
    header: RequestHeader,
    nonce: u64,
    input: Seq<u8>,
    result: MonadResult<usize>,
    out: Seq<u8>,
    out_after: Seq<u8>,
    completion: Completion,
) -> bool {
    match result {
        Err(error) => failure_written(code, input, error, out, out_after, completion),
        Ok(size) => {
            &&& completion == (Completion { status: STATUS_SUCCESS, information: size })
            &&& if spec_answers_itself(code) || out.len() < 48 {
                out_after == out
            } else {
                &&& ResponseHeader::succeeded(48, header, nonce).laid_out(out_after, 0)
                &&& wire::kept(out, out_after, 0, 48)
            }
        },
    }
}

/// Concludes a request.
pub fn conclude(
    code: u32,
    header: RequestHeader,
    nonce: u64,
    input: &[u8],
    result: MonadResult<usize>,
    output: &mut [u8],
) -> (completion: Completion)
    ensures
        concluded(
            code,
            header,
            nonce,
            input@,
            result,
            old(output)@,
            final(output)@,
            completion,
        ),
{
    match result {
        Err(error) => write_error(code, input, output, error),
        Ok(size) => {
            if !answers_itself(code) {
                let answer = ResponseHeader::success::<ResponseHeader>(header, nonce);
                let _ = write_pod(output, &answer);
            }
            Completion { status: STATUS_SUCCESS, information: size }
        },
    }
}

/// What a request without an answer of its own came to.
pub open spec fn sized(result: MonadResult<()>) -> MonadResult<usize> {
    match result {
        Ok(_) => Ok(48),
        Err(error) => Err(error),
    }
}

fn with_size(result: MonadResult<()>) -> (sized_result: MonadResult<usize>)
    ensures
        sized_result == sized(result),
{
    match result {
        Ok(_) => Ok(48),
        Err(error) => Err(error),
    }
}

/// What carrying out a request comes to, where that takes no work outside.
pub open spec fn carried_out<A: EptPageAllocator + Clone>(
    code: u32,
    before: Monitor<A>,
    after: Monitor<A>,
    inspected: MonadResult<PublicCapabilities>,
    header: RequestHeader,
    nonce: u64,
    input: Seq<u8>,
    out: Seq<u8>,
    out_after: Seq<u8>,
    result: MonadResult<usize>,
) -> bool {
    if code == IOCTL_GET_CAPS {
        machine::untouched(before, after) && requests::caps_request(
            before,
            inspected,
            header,
            nonce,
            out,
            out_after,
            result,
        )
    } else if code == IOCTL_ALLOCATE_BACKING {
        requests::allocate_request(before, after, header, nonce, input, out, out_after, result)
    } else if code == IOCTL_WRITE_BACKING {
        exists|done: MonadResult<()>|
            {
                &&& #[trigger] requests::write_request(before, after, input, done)
                &&& result == sized(done)
                &&& out_after == out
            }
    } else if code == IOCTL_FREE_BACKING {
        exists|done: MonadResult<()>|
            {
                &&& #[trigger] requests::free_request(before, after, input, done)
                &&& result == sized(done)
                &&& out_after == out
            }
    } else if code == IOCTL_CREATE_DRAFT {
        requests::create_request(before, after, header, nonce, input, out, out_after, result)
    } else if code == IOCTL_APPLY_EDIT_BATCH {
        exists|done: MonadResult<()>|
            {
                &&& #[trigger] requests::edit_request(before, after, input, done)
                &&& result == sized(done)
                &&& out_after == out
            }
    } else if code == IOCTL_DISCARD_DRAFT {
        exists|done: MonadResult<()>|
            {
                &&& #[trigger] requests::discard_request(before, after, input, done)
                &&& result == sized(done)
                &&& out_after == out
            }
    } else if code == IOCTL_PUBLISH_VIEW {
        requests::publish_request(before, after, header, nonce, input, out, out_after, result)
    } else if code == IOCTL_QUERY_MAPPING {
        machine::untouched(before, after) && requests::query_request(
            before,
            header,
            nonce,
            input,
            out,
            out_after,
            result,
        )
    } else if code == IOCTL_LIST_VIEWS {
        machine::untouched(before, after) && requests::list_request(
            before,
            header,
            nonce,
            input,
            out,
            out_after,
            result,
        )
    } else if code == IOCTL_READ_EVENTS {
        requests::events_request(before, after, header, nonce, input, out, out_after, result)
    } else if code == IOCTL_GET_VCPU_STATE {
        machine::untouched(before, after) && requests::vcpu_request(
            before,
            header,
            nonce,
            input,
            out,
            out_after,
            result,
        )
    } else {
        &&& machine::untouched(before, after)
        &&& result == Err::<usize, MonadError>(
            ioctl::spec_device_error(ErrorCode::WrongObjectState, code as u64),
        )
        &&& out_after == out
    }
}

/// Carries out a request that takes no work outside.
fn carry_out<A: EptPageAllocator + Clone>(
    monitor: &mut Monitor<A>,
    code: u32,
    inspected: MonadResult<PublicCapabilities>,
    header: RequestHeader,
    nonce: u64,
    input: &[u8],
    output: &mut [u8],
) -> (result: MonadResult<usize>)
    requires
        old(monitor).wf(),
    ensures
        final(monitor).wf(),
        carried_out(
            code,
            *old(monitor),
            *final(monitor),
            inspected,
            header,
            nonce,
            input@,
            old(output)@,
            final(output)@,
            result,
        ),
{
    if code == IOCTL_GET_CAPS {
        execute_get_caps(monitor, inspected, header, nonce, output)
    } else if code == IOCTL_ALLOCATE_BACKING {
        execute_allocate_backing(monitor, header, nonce, input, output)
    } else if code == IOCTL_WRITE_BACKING {
        let done = execute_write_backing(monitor, input);
        assert(requests::write_request(*old(monitor), *monitor, input@, done));
        with_size(done)
    } else if code == IOCTL_FREE_BACKING {
        let done = execute_free_backing(monitor, input);
        assert(requests::free_request(*old(monitor), *monitor, input@, done));
        with_size(done)
    } else if code == IOCTL_CREATE_DRAFT {
        execute_create_draft(monitor, header, nonce, input, output)
    } else if code == IOCTL_APPLY_EDIT_BATCH {
        let done = execute_apply_edit_batch(monitor, input);
        assert(requests::edit_request(*old(monitor), *monitor, input@, done));
        with_size(done)
    } else if code == IOCTL_DISCARD_DRAFT {
        let done = execute_discard_draft(monitor, input);
        assert(requests::discard_request(*old(monitor), *monitor, input@, done));
        with_size(done)
    } else if code == IOCTL_PUBLISH_VIEW {
        execute_publish_view(monitor, header, nonce, input, output)
    } else if code == IOCTL_QUERY_MAPPING {
        execute_query_mapping(monitor, header, nonce, input, output)
    } else if code == IOCTL_LIST_VIEWS {
        execute_list_views(monitor, header, nonce, input, output)
    } else if code == IOCTL_READ_EVENTS {
        execute_read_events(monitor, header, nonce, input, output)
    } else if code == IOCTL_GET_VCPU_STATE {
        execute_get_vcpu_state(monitor, header, nonce, input, output)
    } else {
        Err(MonadError::new(ErrorPhase::Device, ErrorCode::WrongObjectState, code as u64))
    }
}

/// How the hypervisor is to be started, as a request says, or what is wrong
/// with the request.
pub open spec fn start_asked(
    input: Seq<u8>,
    nonce: u64,
    result: MonadResult<VmmStartConfig>,
) -> bool {
    let request = wire::loaded::<StartVmmRequest>(input, 0);
    if requests::cut_off::<StartVmmRequest>(input) {
        result == Err::<VmmStartConfig, MonadError>(requests::cut_off_error(input))
    } else if request.rendezvous_timeout_tsc == 0 {
        result == Err::<VmmStartConfig, MonadError>(
            MonadError::new(ErrorPhase::Device, ErrorCode::InvalidRange, request.aperture_limit),
        )
    } else {
        match result {
            Ok(config) => {
                &&& config.session_nonce == nonce
                &&& config.aperture_limit == request.aperture_limit
                &&& config.rendezvous_timeout_tsc == request.rendezvous_timeout_tsc
                &&& config.device_ranges@.len() == request.device_range_count
                &&& forall|k: int| #![trigger config.device_ranges@[k]]
                    0 <= k < request.device_range_count ==> {
                        &&& device::device_range_fault(input, k) is None
                        &&& config.device_ranges@[k] == device::device_range_at(input, k)
                    }
            },
            Err(error) => {
                ||| error == MonadError::new(
                    ErrorPhase::Device,
                    ErrorCode::AllocationFailure,
                    request.device_range_count as u64,
                )
                ||| exists|k: int|
                    {
                        &&& 0 <= k < request.device_range_count
                        &&& #[trigger] device::device_range_fault(input, k) == Some(error)
                        &&& forall|j: int|
                            0 <= j < k ==> (#[trigger] device::device_range_fault(input, j))
                                is None
                    }
            },
        }
    }
}

/// Reads how the hypervisor is to be started.
pub fn start_config(input: &[u8], nonce: u64) -> (result: MonadResult<VmmStartConfig>)
    ensures
        start_asked(input@, nonce, result),
{
    let request = read_fixed::<StartVmmRequest>(input)?;
    if request.rendezvous_timeout_tsc == 0 {
        return Err(
            MonadError::new(ErrorPhase::Device, ErrorCode::InvalidRange, request.aperture_limit),
        );
    }
    let device_ranges = device_ranges_from_wire(input, request.device_range_count)?;
    Ok(
        VmmStartConfig {
            session_nonce: nonce,
            aperture_limit: request.aperture_limit,
            rendezvous_timeout_tsc: request.rendezvous_timeout_tsc,
            device_ranges,
        },
    )
}

/// Why a request is not let in, if it is not.
pub open spec fn admission_fault(
    session: ControllerSession,
    state: LifecycleState,
    code: u32,
    input: Seq<u8>,
    output_len: int,
) -> Option<MonadError> {
    if ioctl::request_fault(code, input, output_len, session.nonce) is Some {
        ioctl::request_fault(code, input, output_len, session.nonce)
    } else if !ioctl::spec_lifecycle_allows(code, state) {
        Some(
            session::spec_session_error(
                ErrorCode::InvalidLifecycleState,
                state.spec_code() as u64,
            ),
        )
    } else {
        session::begin_fault(
            session,
            ioctl::session_nonce(
                session,
                ValidatedRequest {
                    descriptor: ioctl::shape_of(code).unwrap(),
                    header: ioctl::header_at(input),
                    total_input_size: input.len() as usize,
                },
            ),
            true,
        )
    }
}

/// A request that waits for work outside.
pub open spec fn waits(pending: PendingRequest, code: u32, input: Seq<u8>) -> bool {
    &&& pending.code == code
    &&& pending.header == ioctl::header_at(input)
    &&& pending.request.mutable
}

/// A request is answered, and is under way no longer.
pub open spec fn settled(before: ControllerSession, after: ControllerSession) -> bool {
    after == session::ended(session::begun(before, true), true)
}

/// What a request that was let in comes to.
pub open spec fn executed<A: EptPageAllocator + Clone>(
    before: Monitor<A>,
    after: Monitor<A>,
    session: ControllerSession,
    session_after: ControllerSession,
    code: u32,
    inspected: MonadResult<PublicCapabilities>,
    now: u64,
    input: Seq<u8>,
    out: Seq<u8>,
    out_after: Seq<u8>,
    work: DeviceWork,
) -> bool {
    let header = ioctl::header_at(input);
    let nonce = session.nonce;
    match work {
        DeviceWork::Answered(completion) => {
            &&& settled(session, session_after)
            &&& if code == IOCTL_START_VMM {
                &&& machine::untouched(before, after)
                &&& exists|asked: MonadResult<VmmStartConfig>|
                    {
                        &&& #[trigger] start_asked(input, nonce, asked)
                        &&& asked is Err
                        &&& failure_written(code, input, asked->Err_0, out, out_after, completion)
                    }
            } else if code == IOCTL_ACTIVATE_VIEW {
                exists|begun: MonadResult<PendingActivation>|
                    {
                        &&& #[trigger] requests::activate_request(before, after, input, now, begun)
                        &&& begun is Err
                        &&& failure_written(code, input, begun->Err_0, out, out_after, completion)
                    }
            } else {
                &&& code != IOCTL_STOP_VMM
                &&& exists|middle: Seq<u8>, result: MonadResult<usize>|
                    {
                        &&& #[trigger] carried_out(
                            code,
                            before,
                            after,
                            inspected,
                            header,
                            nonce,
                            input,
                            out,
                            middle,
                            result,
                        )
                        &&& concluded(
                            code,
                            header,
                            nonce,
                            input,
                            result,
                            middle,
                            out_after,
                            completion,
                        )
                    }
            }
        },
        DeviceWork::Start(pending, config) => {
            &&& code == IOCTL_START_VMM
            &&& waits(pending, code, input)
            &&& session_after == session::begun(session, true)
            &&& machine::untouched(before, after)
            &&& out_after == out
            &&& start_asked(input, nonce, Ok(config))
        },
        DeviceWork::Stop(pending) => {
            &&& code == IOCTL_STOP_VMM
            &&& waits(pending, code, input)
            &&& session_after == session::begun(session, true)
            &&& machine::untouched(before, after)
            &&& out_after == out
        },
        DeviceWork::Activate(pending, activation) => {
            &&& code == IOCTL_ACTIVATE_VIEW
            &&& waits(pending, code, input)
            &&& session_after == session::begun(session, true)
            &&& out_after == out
            &&& requests::activate_request(before, after, input, now, Ok(activation))
        },
    }
}

/// Carries out a request, as far as that takes no work outside.
pub fn execute<A: EptPageAllocator + Clone>(
    session: &mut ControllerSession,
    monitor: &mut Monitor<A>,
    code: u32,
    inspected: MonadResult<PublicCapabilities>,
    now: u64,
    input: &[u8],
    output: &mut [u8],
) -> (work: DeviceWork)
    requires
        old(monitor).wf(),
    ensures
        final(monitor).wf(),
        match admission_fault(
            *old(session),
            old(monitor).lifecycle.spec_state(),
            code,
            input@,
            old(output)@.len() as int,
        ) {
            Some(error) => {
                &&& *final(session) == *old(session)
                &&& machine::untouched(*old(monitor), *final(monitor))
                &&& work matches DeviceWork::Answered(completion) && failure_written(
                    code,
                    input@,
                    error,
                    old(output)@,
                    final(output)@,
                    completion,
                )
            },
            None => executed(
                *old(monitor),
                *final(monitor),
                *old(session),
                *final(session),
                code,
                inspected,
                now,
                input@,
                old(output)@,
                final(output)@,
                work,
            ),
        },
{
    let length: usize = output.len();
    let nonce: u64 = session.active_nonce();
    let validated = match validate_request(code, input, length, nonce) {
        Ok(validated) => validated,
        Err(error) => {
            return DeviceWork::Answered(write_error(code, input, output, error));
        },
    };
    let state = monitor.lifecycle_state();
    let request = match validate_and_begin(session, validated, state) {
        Ok(Some(request)) => request,
        Ok(None) => SessionRequest { mutable: true },
        Err(error) => {
            return DeviceWork::Answered(write_error(code, input, output, error));
        },
    };
    let header = validated.header;
    if code == IOCTL_START_VMM {
        let asked = start_config(input, nonce);
        assert(start_asked(input@, nonce, asked));
        return match asked {
            Ok(config) => DeviceWork::Start(PendingRequest { code, header, request }, config),
            Err(error) => {
                request.end(session);
                DeviceWork::Answered(write_error(code, input, output, error))
            },
        };
    }
    if code == IOCTL_STOP_VMM {
        return DeviceWork::Stop(PendingRequest { code, header, request });
    }
    if code == IOCTL_ACTIVATE_VIEW {
        let begun = execute_activate_view(monitor, input, now);
        assert(requests::activate_request(*old(monitor), *monitor, input@, now, begun));
        return match begun {
            Ok(pending) => DeviceWork::Activate(PendingRequest { code, header, request }, pending),
            Err(error) => {
                request.end(session);
                DeviceWork::Answered(write_error(code, input, output, error))
            },
        };
    }
    let result = carry_out(monitor, code, inspected, header, nonce, input, output);
    let ghost middle = output@;
    assert(carried_out(
        code,
        *old(monitor),
        *monitor,
        inspected,
        header,
        nonce,
        input@,
        old(output)@,
        middle,
        result,
    ));
    let completion = conclude(code, header, nonce, input, result, output);
    request.end(session);
    DeviceWork::Answered(completion)
}

/// Ends a request whose work outside is done.
pub fn finish(
    session: &mut ControllerSession,
    pending: PendingRequest,
    input: &[u8],
    result: MonadResult<()>,
    output: &mut [u8],
) -> (completion: Completion)
    ensures
        *final(session) == session::ended(*old(session), pending.request.mutable),
        concluded(
            pending.code,
            pending.header,
            old(session).nonce,
            input@,
            sized(result),
            old(output)@,
            final(output)@,
            completion,
        ),
{
    let nonce: u64 = session.active_nonce();
    let PendingRequest { code, header, request } = pending;
    let result = with_size(result);
    let completion = conclude(code, header, nonce, input, result, output);
    request.end(session);
    completion
}

} // verus!
