//! Carrying out the requests of a controller.

use vstd::prelude::*;

use super::device;
use super::device::{
    backing_from_wire, backing_to_wire, cpu_words_from_wire, draft_from_wire, draft_to_wire, edits_from_wire,
    leaf_size_log2, permissions_to_wire, view_from_wire, view_to_wire,
};
use super::ioctl;
use super::ioctl::{
    device_error, read_pod, write_pod, ABI_VERSION, ALLOCATION_FLAG_IMMUTABLE, MAPPING_BACKING,
    MAPPING_IDENTITY, MAPPING_NOT_PRESENT, OBJECT_DRAFT_VIEW, OBJECT_PUBLISHED_VIEW,
    VIEW_STATE_PUBLISHED,
};
use super::wire;
use super::wire::{
    ActivateViewRequest, AllocateBackingRequest, AllocateBackingResponse, ApplyEditBatchRequest, BackingIdWire,
    CreateDraftRequest, CreateDraftResponse, DiscardDraftRequest, DraftIdWire, FreeBackingRequest,
    GetCapsResponse, GetVcpuStateRequest, GetVcpuStateResponse, ListViewsRequest,
    ListViewsResponse, Pod, PublishViewRequest,
    PublishViewResponse, QueryMappingRequest, QueryMappingResponse, ReadEventsRequest,
    ReadEventsResponse, RequestHeader, ResponseHeader,
    ViewIdWire, ViewRecordWire, WriteBackingRequest,
};
use crate::ept::address::{GuestPhysicalAddress, PAGE_SIZE_4K};
use crate::ept::backing::{BackingId, MAX_BACKING_PAGES};
use crate::ept::page::EptPageAllocator;
use crate::ept::view::{
    DraftEdit, DraftId, ViewId, MAX_BATCH_EDITS, MAX_DRAFT_VIEWS, MAX_PUBLISHED_VIEWS,
};
use crate::ept::walker::{MappingSource, ResolvedMapping, WalkResult};
use crate::error::{ErrorCode, ErrorPhase, MonadError, MonadResult};
use crate::telemetry::record::EventRecord;
use crate::telemetry::ring::RingSnapshot;
use crate::vmm::control;
use crate::vmm::control::PendingActivation;
use crate::vmm::machine;
use crate::vmm::machine::{Monitor, PublicVcpuState, PublicViewState};
use crate::vmm::setup::PublicCapabilities;

verus! {

/// Whether a request has no room for its fixed part.
pub open spec fn cut_off<T: Pod>(input: Seq<u8>) -> bool {
    T::spec_size() > input.len()
}

/// The error of a request without room for its fixed part.
pub open spec fn cut_off_error(input: Seq<u8>) -> MonadError {
    ioctl::spec_device_error(ErrorCode::InvalidStructureSize, input.len() as u64)
}

/// Reads the fixed part of a request.
pub fn read_fixed<T: Pod>(input: &[u8]) -> (result: MonadResult<T>)
    ensures
        result == if cut_off::<T>(input@) {
            Err::<T, MonadError>(cut_off_error(input@))
        } else {
            Ok(wire::loaded::<T>(input@, 0))
        },
{
    let size: usize = T::size();
    let length: usize = input.len();
    match read_pod::<T>(input, 0) {
        Ok(value) => {
            proof {
                wire::lemma_loaded(value, input@, 0);
            }
            Ok(value)
        },
        Err(error) => Err(error),
    }
}

/// A response is written, or there is no room for it.
pub open spec fn answered<T: Pod>(
    response: T,
    before: Seq<u8>,
    after: Seq<u8>,
    result: MonadResult<usize>,
) -> bool {
    if T::spec_size() > before.len() {
        &&& result == Err::<usize, MonadError>(
            ioctl::spec_device_error(ErrorCode::InvalidStructureSize, before.len() as u64),
        )
        &&& after == before
    } else {
        &&& result == Ok::<usize, MonadError>(T::spec_size() as usize)
        &&& response.laid_out(after, 0)
        &&& wire::kept(before, after, 0, T::spec_size())
    }
}

/// A request fails, and nothing is written.
pub open spec fn unanswered(
    error: MonadError,
    before: Seq<u8>,
    after: Seq<u8>,
    result: MonadResult<usize>,
) -> bool {
    result == Err::<usize, MonadError>(error) && after == before
}

/// Whether the pages of a request are not to be written.
pub open spec fn wants_immutable(flags: u32) -> bool {
    flags & ALLOCATION_FLAG_IMMUTABLE != 0
}

/// What a request for pages comes to.
pub open spec fn allocate_request<A: EptPageAllocator + Clone>(
    before: Monitor<A>,
    after: Monitor<A>,
    header: RequestHeader,
    nonce: u64,
    input: Seq<u8>,
    out: Seq<u8>,
    out_after: Seq<u8>,
    result: MonadResult<usize>,
) -> bool {
    if cut_off::<AllocateBackingRequest>(input) {
        machine::untouched(before, after) && unanswered(
            cut_off_error(input),
            out,
            out_after,
            result,
        )
    } else {
        let request = wire::loaded::<AllocateBackingRequest>(input, 0);
        exists|outcome: MonadResult<BackingId>|
            {
                &&& #[trigger] machine::backing_allocated(
                    before,
                    after,
                    request.page_count,
                    wants_immutable(request.allocation_flags),
                    outcome,
                )
                &&& match outcome {
                    Err(error) => unanswered(error, out, out_after, result),
                    Ok(id) => answered(
                        AllocateBackingResponse {
                            header: ResponseHeader::succeeded(72, header, nonce),
                            backing: device::spec_backing_to_wire(id),
                        },
                        out,
                        out_after,
                        result,
                    ),
                }
            }
    }
}

/// Carries out a request for pages.
pub fn execute_allocate_backing<A: EptPageAllocator + Clone>(
    monitor: &mut Monitor<A>,
    header: RequestHeader,
    nonce: u64,
    input: &[u8],
    output: &mut [u8],
) -> (result: MonadResult<usize>)
    requires
        old(monitor).wf(),
    ensures
        final(monitor).wf(),
        allocate_request(
            *old(monitor),
            *final(monitor),
            header,
            nonce,
            input@,
            old(output)@,
            final(output)@,
            result,
        ),
{
    let request = read_fixed::<AllocateBackingRequest>(input)?;
    let immutable: bool = request.allocation_flags & ALLOCATION_FLAG_IMMUTABLE != 0;
    let outcome = monitor.allocate_backing(request.page_count, immutable);
    assert(machine::backing_allocated(
        *old(monitor),
        *monitor,
        request.page_count,
        wants_immutable(request.allocation_flags),
        outcome,
    ));
    let backing = outcome?;
    let response = AllocateBackingResponse {
        header: ResponseHeader::success::<AllocateBackingResponse>(header, nonce),
        backing: backing_to_wire(backing),
    };
    write_pod(output, &response)
}

/// What a request to write to a backing comes to.
pub open spec fn write_request<A: EptPageAllocator + Clone>(
    before: Monitor<A>,
    after: Monitor<A>,
    input: Seq<u8>,
    result: MonadResult<()>,
) -> bool {
    if cut_off::<WriteBackingRequest>(input) {
        machine::untouched(before, after) && result == Err::<(), MonadError>(cut_off_error(input))
    } else {
        let request = wire::loaded::<WriteBackingRequest>(input, 0);
        let end = 64 + request.data_length;
        if request.offset > usize::MAX {
            &&& machine::untouched(before, after)
            &&& result == Err::<(), MonadError>(
                MonadError::new(
                    ErrorPhase::DraftEdit,
                    ErrorCode::AddressOverflow,
                    request.offset,
                ),
            )
        } else if end > usize::MAX {
            &&& machine::untouched(before, after)
            &&& result == Err::<(), MonadError>(
                MonadError::new(
                    ErrorPhase::DraftEdit,
                    ErrorCode::AddressOverflow,
                    request.data_length as u64,
                ),
            )
        } else if end > input.len() {
            machine::untouched(before, after) && result == Err::<(), MonadError>(
                cut_off_error(input),
            )
        } else {
            machine::backing_written(
                before,
                after,
                device::spec_backing_from_wire(request.backing),
                request.offset as usize,
                input.subrange(64, end),
                result,
            )
        }
    }
}

/// Carries out a request to write to a backing.
pub fn execute_write_backing<A: EptPageAllocator + Clone>(
    monitor: &mut Monitor<A>,
    input: &[u8],
) -> (result: MonadResult<()>)
    requires
        old(monitor).wf(),
    ensures
        final(monitor).wf(),
        write_request(*old(monitor), *final(monitor), input@, result),
{
    let request = read_fixed::<WriteBackingRequest>(input)?;
    if request.offset > usize::MAX as u64 {
        return Err(
            MonadError::new(ErrorPhase::DraftEdit, ErrorCode::AddressOverflow, request.offset),
        );
    }
    let start: usize = 64;
    let end: usize = match start.checked_add(request.data_length as usize) {
        Some(end) => end,
        None => {
            return Err(
                MonadError::new(
                    ErrorPhase::DraftEdit,
                    ErrorCode::AddressOverflow,
                    request.data_length as u64,
                ),
            );
        },
    };
    if end > input.len() {
        return Err(device_error(ErrorCode::InvalidStructureSize, input.len() as u64));
    }
    let data = vstd::slice::slice_subrange(input, start, end);
    monitor.write_backing(backing_from_wire(request.backing), request.offset as usize, data)
}

/// What a request to free a backing comes to.
pub open spec fn free_request<A: EptPageAllocator + Clone>(
    before: Monitor<A>,
    after: Monitor<A>,
    input: Seq<u8>,
    result: MonadResult<()>,
) -> bool {
    if cut_off::<FreeBackingRequest>(input) {
        machine::untouched(before, after) && result == Err::<(), MonadError>(cut_off_error(input))
    } else {
        machine::backing_freed(
            before,
            after,
            device::spec_backing_from_wire(wire::loaded::<FreeBackingRequest>(input, 0).backing),
            result,
        )
    }
}

/// Carries out a request to free a backing.
pub fn execute_free_backing<A: EptPageAllocator + Clone>(
    monitor: &mut Monitor<A>,
    input: &[u8],
) -> (result: MonadResult<()>)
    requires
        old(monitor).wf(),
    ensures
        final(monitor).wf(),
        free_request(*old(monitor), *final(monitor), input@, result),
{
    let request = read_fixed::<FreeBackingRequest>(input)?;
    monitor.free_backing(backing_from_wire(request.backing))
}

/// What a request for a draft comes to.
pub open spec fn create_request<A: EptPageAllocator + Clone>(
    before: Monitor<A>,
    after: Monitor<A>,
    header: RequestHeader,
    nonce: u64,
    input: Seq<u8>,
    out: Seq<u8>,
    out_after: Seq<u8>,
    result: MonadResult<usize>,
) -> bool {
    if cut_off::<CreateDraftRequest>(input) {
        machine::untouched(before, after) && unanswered(
            cut_off_error(input),
            out,
            out_after,
            result,
        )
    } else {
        let request = wire::loaded::<CreateDraftRequest>(input, 0);
        exists|outcome: MonadResult<DraftId>|
            {
                &&& #[trigger] machine::draft_created(
                    before,
                    after,
                    device::spec_view_from_wire(request.source),
                    outcome,
                )
                &&& match outcome {
                    Err(error) => unanswered(error, out, out_after, result),
                    Ok(id) => answered(
                        CreateDraftResponse {
                            header: ResponseHeader::succeeded(72, header, nonce),
                            draft: device::spec_draft_to_wire(id),
                        },
                        out,
                        out_after,
                        result,
                    ),
                }
            }
    }
}

/// Carries out a request for a draft.
pub fn execute_create_draft<A: EptPageAllocator + Clone>(
    monitor: &mut Monitor<A>,
    header: RequestHeader,
    nonce: u64,
    input: &[u8],
    output: &mut [u8],
) -> (result: MonadResult<usize>)
    requires
        old(monitor).wf(),
    ensures
        final(monitor).wf(),
        create_request(
            *old(monitor),
            *final(monitor),
            header,
            nonce,
            input@,
            old(output)@,
            final(output)@,
            result,
        ),
{
    let request = read_fixed::<CreateDraftRequest>(input)?;
    let source = view_from_wire(request.source);
    let outcome = monitor.create_draft(source);
    assert(machine::draft_created(*old(monitor), *monitor, source, outcome));
    let draft = outcome?;
    let response = CreateDraftResponse {
        header: ResponseHeader::success::<CreateDraftResponse>(header, nonce),
        draft: draft_to_wire(draft),
    };
    write_pod(output, &response)
}

/// What a request to edit a draft comes to: nothing, where one of its edits
/// cannot be read, and otherwise what the edits together come to.
pub open spec fn edit_request<A: EptPageAllocator + Clone>(
    before: Monitor<A>,
    after: Monitor<A>,
    input: Seq<u8>,
    result: MonadResult<()>,
) -> bool {
    let request = wire::loaded::<ApplyEditBatchRequest>(input, 0);
    let count = request.edit_count;
    if cut_off::<ApplyEditBatchRequest>(input) {
        machine::untouched(before, after) && result == Err::<(), MonadError>(cut_off_error(input))
    } else if count == 0 || count > MAX_BATCH_EDITS {
        machine::untouched(before, after) && result == Err::<(), MonadError>(
            MonadError::new(ErrorPhase::DraftEdit, ErrorCode::InvalidRange, count as u64),
        )
    } else if before.refusal() is Some {
        machine::untouched(before, after) && result == Err::<(), MonadError>(
            before.refusal().unwrap(),
        )
    } else {
        let end = before.vmm.unwrap().manager.model().view_at(0).model.aperture_end;
        ||| {
            &&& machine::untouched(before, after)
            &&& result is Err
            &&& {
                ||| result->Err_0 == MonadError::new(
                    ErrorPhase::DraftEdit,
                    ErrorCode::AllocationFailure,
                    count as u64,
                )
                ||| exists|k: int|
                    {
                        &&& 0 <= k < count
                        &&& #[trigger] device::batch_edit_fault(input, end, k) == Some(
                            result->Err_0,
                        )
                        &&& forall|j: int|
                            0 <= j < k ==> (#[trigger] device::batch_edit_fault(input, end, j))
                                is None
                    }
            }
        }
        ||| {
            &&& forall|k: int|
                0 <= k < count ==> (#[trigger] device::batch_edit_fault(input, end, k)) is None
            &&& exists|edits: Seq<DraftEdit>|
                {
                    &&& edits.len() == count
                    &&& #[trigger] device::batch_says(input, edits)
                    &&& machine::batch_applied(
                        before,
                        after,
                        device::spec_draft_from_wire(request.draft),
                        edits,
                        result,
                    )
                }
        }
    }
}

/// Carries out a request to edit a draft.
pub fn execute_apply_edit_batch<A: EptPageAllocator + Clone>(
    monitor: &mut Monitor<A>,
    input: &[u8],
) -> (result: MonadResult<()>)
    requires
        old(monitor).wf(),
    ensures
        final(monitor).wf(),
        edit_request(*old(monitor), *final(monitor), input@, result),
{
    let request = read_fixed::<ApplyEditBatchRequest>(input)?;
    let count: usize = request.edit_count as usize;
    if count == 0 || count > MAX_BATCH_EDITS {
        return Err(MonadError::new(ErrorPhase::DraftEdit, ErrorCode::InvalidRange, count as u64));
    }
    let aperture_end: u64 = monitor.aperture_end()?;
    let edits = edits_from_wire(input, count, aperture_end)?;
    assert(device::batch_says(input@, edits@));
    monitor.apply_edit_batch(draft_from_wire(request.draft), edits.as_slice())
}

/// What a request to drop a draft comes to.
pub open spec fn discard_request<A: EptPageAllocator + Clone>(
    before: Monitor<A>,
    after: Monitor<A>,
    input: Seq<u8>,
    result: MonadResult<()>,
) -> bool {
    if cut_off::<DiscardDraftRequest>(input) {
        machine::untouched(before, after) && result == Err::<(), MonadError>(cut_off_error(input))
    } else {
        machine::draft_discarded(
            before,
            after,
            device::spec_draft_from_wire(wire::loaded::<DiscardDraftRequest>(input, 0).draft),
            result,
        )
    }
}

/// Carries out a request to drop a draft.
pub fn execute_discard_draft<A: EptPageAllocator + Clone>(
    monitor: &mut Monitor<A>,
    input: &[u8],
) -> (result: MonadResult<()>)
    requires
        old(monitor).wf(),
    ensures
        final(monitor).wf(),
        discard_request(*old(monitor), *final(monitor), input@, result),
{
    let request = read_fixed::<DiscardDraftRequest>(input)?;
    monitor.discard_draft(draft_from_wire(request.draft))
}

/// What a request to publish a draft comes to.
pub open spec fn publish_request<A: EptPageAllocator + Clone>(
    before: Monitor<A>,
    after: Monitor<A>,
    header: RequestHeader,
    nonce: u64,
    input: Seq<u8>,
    out: Seq<u8>,
    out_after: Seq<u8>,
    result: MonadResult<usize>,
) -> bool {
    if cut_off::<PublishViewRequest>(input) {
        machine::untouched(before, after) && unanswered(
            cut_off_error(input),
            out,
            out_after,
            result,
        )
    } else {
        let request = wire::loaded::<PublishViewRequest>(input, 0);
        exists|outcome: MonadResult<ViewId>|
            {
                &&& #[trigger] machine::view_published(
                    before,
                    after,
                    device::spec_draft_from_wire(request.draft),
                    outcome,
                )
                &&& match outcome {
                    Err(error) => unanswered(error, out, out_after, result),
                    Ok(id) => answered(
                        PublishViewResponse {
                            header: ResponseHeader::succeeded(72, header, nonce),
                            view: device::spec_view_to_wire(id),
                            reserved: 0,
                            reserved1: 0,
                        },
                        out,
                        out_after,
                        result,
                    ),
                }
            }
    }
}

/// Carries out a request to publish a draft.
pub fn execute_publish_view<A: EptPageAllocator + Clone>(
    monitor: &mut Monitor<A>,
    header: RequestHeader,
    nonce: u64,
    input: &[u8],
    output: &mut [u8],
) -> (result: MonadResult<usize>)
    requires
        old(monitor).wf(),
    ensures
        final(monitor).wf(),
        publish_request(
            *old(monitor),
            *final(monitor),
            header,
            nonce,
            input@,
            old(output)@,
            final(output)@,
            result,
        ),
{
    let request = read_fixed::<PublishViewRequest>(input)?;
    let draft = draft_from_wire(request.draft);
    let outcome = monitor.publish_view(draft);
    assert(machine::view_published(*old(monitor), *monitor, draft, outcome));
    let view = outcome?;
    let response = PublishViewResponse {
        header: ResponseHeader::success::<PublishViewResponse>(header, nonce),
        view: view_to_wire(view),
        reserved: 0,
        reserved1: 0,
    };
    write_pod(output, &response)
}

/// The name of no draft.
pub open spec fn no_draft(id: DraftIdWire) -> bool {
    &&& id.slot == 0
    &&& id.reserved == 0
    &&& id.reserved1 == 0
    &&& id.generation == 0
    &&& id.session_nonce == 0
}

/// The name of no view.
pub open spec fn no_view(id: ViewIdWire) -> bool {
    &&& id.slot == 0
    &&& id.reserved == 0
    &&& id.reserved1 == 0
    &&& id.generation == 0
}

/// Where the page that a request asks about leads.
pub open spec fn queried<A: EptPageAllocator + Clone>(
    monitor: Monitor<A>,
    request: QueryMappingRequest,
    page: GuestPhysicalAddress,
) -> MonadResult<WalkResult> {
    if request.object_kind == OBJECT_PUBLISHED_VIEW && no_draft(request.draft) {
        monitor.view_walked(device::spec_view_from_wire(request.view), page)
    } else if request.object_kind == OBJECT_DRAFT_VIEW && no_view(request.view) {
        monitor.draft_walked(device::spec_draft_from_wire(request.draft), page)
    } else {
        Err(
            MonadError::new(
                ErrorPhase::DraftEdit,
                ErrorCode::WrongObjectState,
                request.object_kind as u64,
            ),
        )
    }
}

/// What a controller is told of a mapping: what it may do, and what it is
/// backed by, but not where it is in the machine's memory.
pub open spec fn tells_mapping(
    response: QueryMappingResponse,
    header: RequestHeader,
    nonce: u64,
    gpa: u64,
    mapping: ResolvedMapping,
) -> bool {
    &&& response.header == ResponseHeader::succeeded(104, header, nonce)
    &&& response.mapped == 1
    &&& response.permissions == device::spec_permissions_to_wire(mapping.permissions)
    &&& response.memory_type == mapping.memory_type.spec_code()
    &&& response.leaf_size_log2 == device::spec_leaf_size_log2(mapping.leaf_size)
    &&& match mapping.source {
        MappingSource::Identity => {
            &&& response.source_kind == MAPPING_IDENTITY
            &&& response.source_backing == (BackingIdWire {
                slot: 0,
                reserved: 0,
                generation: 0,
                session_nonce: 0,
            })
            &&& response.page_offset == gpa
        },
        MappingSource::Backing(reference) => {
            &&& response.source_kind == MAPPING_BACKING
            &&& response.source_backing == device::spec_backing_to_wire(reference.backing_id)
            &&& response.page_offset == reference.page_index * 0x1000 + (gpa & 0xfff)
        },
    }
    &&& response.reserved@ == seq![0u64, 0u64]
}

/// What a controller is told of a page that is not mapped.
pub open spec fn tells_absence(
    response: QueryMappingResponse,
    header: RequestHeader,
    nonce: u64,
) -> bool {
    &&& response.header == ResponseHeader::succeeded(104, header, nonce)
    &&& response.mapped == 0
    &&& response.permissions == 0
    &&& response.memory_type == 0
    &&& response.leaf_size_log2 == 0
    &&& response.source_kind == MAPPING_NOT_PRESENT
    &&& response.source_backing == (BackingIdWire {
        slot: 0,
        reserved: 0,
        generation: 0,
        session_nonce: 0,
    })
    &&& response.page_offset == 0
    &&& response.reserved@ == seq![0u64, 0u64]
}

/// What a question about a page comes to.
pub open spec fn query_request<A: EptPageAllocator + Clone>(
    monitor: Monitor<A>,
    header: RequestHeader,
    nonce: u64,
    input: Seq<u8>,
    out: Seq<u8>,
    out_after: Seq<u8>,
    result: MonadResult<usize>,
) -> bool {
    if cut_off::<QueryMappingRequest>(input) {
        unanswered(cut_off_error(input), out, out_after, result)
    } else {
        let request = wire::loaded::<QueryMappingRequest>(input, 0);
        exists|page: GuestPhysicalAddress|
            {
                let walk = #[trigger] queried(monitor, request, page);
                &&& page.get() == request.gpa & !0xfffu64
                &&& match walk {
                    Err(error) => unanswered(error, out, out_after, result),
                    Ok(WalkResult::Invalid(error)) => unanswered(
                        MonadError::new(
                            ErrorPhase::DraftEdit,
                            ErrorCode::EptVerificationFailure,
                            error.detail,
                        ),
                        out,
                        out_after,
                        result,
                    ),
                    Ok(WalkResult::NotPresent { .. }) => exists|response: QueryMappingResponse|
                        {
                            &&& #[trigger] tells_absence(response, header, nonce)
                            &&& answered(response, out, out_after, result)
                        },
                    Ok(WalkResult::Mapping(mapping)) => exists|response: QueryMappingResponse|
                        {
                            &&& #[trigger] tells_mapping(
                                response,
                                header,
                                nonce,
                                request.gpa,
                                mapping,
                            )
                            &&& answered(response, out, out_after, result)
                        },
                }
            }
    }
}

proof fn lemma_page_of(gpa: u64)
    ensures
        (gpa & !0xfffu64) % 0x1000 == 0,
        gpa & 0xfff < 0x1000,
{
    crate::bits::lemma_word(gpa);
}

/// Answers a question about a page.
pub fn execute_query_mapping<A: EptPageAllocator + Clone>(
    monitor: &Monitor<A>,
    header: RequestHeader,
    nonce: u64,
    input: &[u8],
    output: &mut [u8],
) -> (result: MonadResult<usize>)
    requires
        monitor.wf(),
    ensures
        query_request(
            *monitor,
            header,
            nonce,
            input@,
            old(output)@,
            final(output)@,
            result,
        ),
{
    let request = read_fixed::<QueryMappingRequest>(input)?;
    proof {
        lemma_page_of(request.gpa);
    }
    let page = GuestPhysicalAddress::from_page_aligned(request.gpa & !0xfffu64)?;
    let for_view: bool = request.object_kind == OBJECT_PUBLISHED_VIEW && request.draft.slot == 0
        && request.draft.reserved == 0 && request.draft.reserved1 == 0 && request.draft.generation
        == 0 && request.draft.session_nonce == 0;
    let for_draft: bool = request.object_kind == OBJECT_DRAFT_VIEW && request.view.slot == 0
        && request.view.reserved == 0 && request.view.reserved1 == 0 && request.view.generation
        == 0;
    let walk = if for_view {
        monitor.query_view(view_from_wire(request.view), page)
    } else if for_draft {
        monitor.query_draft(draft_from_wire(request.draft), page)
    } else {
        Err(
            MonadError::new(
                ErrorPhase::DraftEdit,
                ErrorCode::WrongObjectState,
                request.object_kind as u64,
            ),
        )
    };
    assert(walk == queried(*monitor, request, page));
    let nothing = BackingIdWire { slot: 0, reserved: 0, generation: 0, session_nonce: 0 };
    match walk? {
        WalkResult::Mapping(mapping) => {
            let (source_kind, source_backing, page_offset): (u32, BackingIdWire, u64) =
                match mapping.source {
                MappingSource::Identity => (MAPPING_IDENTITY, nothing, request.gpa),
                MappingSource::Backing(reference) => (
                    MAPPING_BACKING,
                    backing_to_wire(reference.backing_id),
                    reference.page_index as u64 * PAGE_SIZE_4K + (request.gpa & 0xfff),
                ),
            };
            let response = QueryMappingResponse {
                header: ResponseHeader::success::<QueryMappingResponse>(header, nonce),
                mapped: 1,
                permissions: permissions_to_wire(mapping.permissions),
                memory_type: mapping.memory_type.code(),
                leaf_size_log2: leaf_size_log2(mapping.leaf_size),
                source_kind,
                source_backing,
                page_offset,
                reserved: [0;2],
            };
            proof {
                assert(response.reserved@ =~= seq![0u64, 0u64]);
                assert(tells_mapping(response, header, nonce, request.gpa, mapping));
            }
            write_pod(output, &response)
        },
        WalkResult::NotPresent { level: _, raw_entry: _ } => {
            let response = QueryMappingResponse {
                header: ResponseHeader::success::<QueryMappingResponse>(header, nonce),
                mapped: 0,
                permissions: 0,
                memory_type: 0,
                leaf_size_log2: 0,
                source_kind: MAPPING_NOT_PRESENT,
                source_backing: nothing,
                page_offset: 0,
                reserved: [0;2],
            };
            proof {
                assert(response.reserved@ =~= seq![0u64, 0u64]);
                assert(tells_absence(response, header, nonce));
            }
            write_pod(output, &response)
        },
        WalkResult::Invalid(error) => Err(
            MonadError::new(
                ErrorPhase::DraftEdit,
                ErrorCode::EptVerificationFailure,
                error.detail,
            ),
        ),
    }
}

/// What a controller is told of a processor.
pub open spec fn tells_vcpu(
    response: GetVcpuStateResponse,
    header: RequestHeader,
    nonce: u64,
    state: PublicVcpuState,
) -> bool {
    &&& response.header == ResponseHeader::succeeded(112, header, nonce)
    &&& response.cpu_dense_index == state.cpu_dense_index
    &&& response.vmx_state == device::one_bit(state.active)
    &&& response.reserved0 == 0
    &&& response.reserved1 == 0
    &&& response.active_view == device::spec_view_to_wire(state.active_view)
    &&& response.last_epoch == state.last_epoch
    &&& response.last_fatal == state.last_fatal
    &&& response.last_mailbox == state.last_mailbox
    &&& response.event_sequence == state.event_sequence
    &&& response.reserved@ == seq![0u64, 0u64]
}

/// What a question about a processor comes to.
pub open spec fn vcpu_request<A: EptPageAllocator + Clone>(
    monitor: Monitor<A>,
    header: RequestHeader,
    nonce: u64,
    input: Seq<u8>,
    out: Seq<u8>,
    out_after: Seq<u8>,
    result: MonadResult<usize>,
) -> bool {
    if cut_off::<GetVcpuStateRequest>(input) {
        unanswered(cut_off_error(input), out, out_after, result)
    } else {
        let cpu = wire::loaded::<GetVcpuStateRequest>(input, 0).cpu_dense_index;
        exists|told: MonadResult<PublicVcpuState>|
            {
                &&& #[trigger] monitor.state_told(cpu, told)
                &&& match told {
                    Err(error) => unanswered(error, out, out_after, result),
                    Ok(state) => exists|response: GetVcpuStateResponse|
                        {
                            &&& #[trigger] tells_vcpu(response, header, nonce, state)
                            &&& answered(response, out, out_after, result)
                        },
                }
            }
    }
}

/// Answers a question about a processor.
pub fn execute_get_vcpu_state<A: EptPageAllocator + Clone>(
    monitor: &Monitor<A>,
    header: RequestHeader,
    nonce: u64,
    input: &[u8],
    output: &mut [u8],
) -> (result: MonadResult<usize>)
    ensures
        vcpu_request(*monitor, header, nonce, input@, old(output)@, final(output)@, result),
{
    let request = read_fixed::<GetVcpuStateRequest>(input)?;
    let told = monitor.vcpu_state(request.cpu_dense_index);
    assert(monitor.state_told(request.cpu_dense_index, told));
    let state = told?;
    let response = GetVcpuStateResponse {
        header: ResponseHeader::success::<GetVcpuStateResponse>(header, nonce),
        cpu_dense_index: state.cpu_dense_index,
        vmx_state: device::as_one_bit(state.active),
        reserved0: 0,
        reserved1: 0,
        active_view: view_to_wire(state.active_view),
        last_epoch: state.last_epoch,
        last_fatal: state.last_fatal,
        last_mailbox: state.last_mailbox,
        event_sequence: state.event_sequence,
        reserved: [0;2],
    };
    proof {
        assert(response.reserved@ =~= seq![0u64, 0u64]);
        assert(tells_vcpu(response, header, nonce, state));
    }
    write_pod(output, &response)
}

/// What a controller is told of the platform.
pub open spec fn tells_platform(
    response: GetCapsResponse,
    header: RequestHeader,
    nonce: u64,
    lifecycle: u8,
    capabilities: PublicCapabilities,
) -> bool {
    &&& response.header == ResponseHeader::succeeded(112, header, nonce)
    &&& response.driver_version == ABI_VERSION
    &&& response.lifecycle == lifecycle
    &&& response.capability_bits == capabilities.capability_bits
    &&& response.aperture_end == capabilities.aperture_end
    &&& response.physaddr_width == capabilities.max_physical_address_bits
    &&& response.vbs_or_hypervisor_present == device::one_bit(capabilities.hypervisor_present)
    &&& response.session_available == device::one_bit(nonce != 0)
    &&& response.reserved0 == 0
    &&& response.cpu_count == capabilities.cpu_count
    &&& response.max_views == MAX_PUBLISHED_VIEWS
    &&& response.max_drafts == MAX_DRAFT_VIEWS
    &&& response.max_batch_edits == MAX_BATCH_EDITS
    &&& response.reserved1 == 0
    &&& response.reserved2 == 0
    &&& response.max_backing_pages == MAX_BACKING_PAGES
    &&& response.reserved3 == 0
    &&& response.reserved@ == seq![0u64, 0u64]
}

/// What a question about the platform comes to.
pub open spec fn caps_request<A: EptPageAllocator + Clone>(
    monitor: Monitor<A>,
    inspected: MonadResult<PublicCapabilities>,
    header: RequestHeader,
    nonce: u64,
    out: Seq<u8>,
    out_after: Seq<u8>,
    result: MonadResult<usize>,
) -> bool {
    match monitor.spec_capabilities(inspected) {
        Err(error) => unanswered(error, out, out_after, result),
        Ok(capabilities) => exists|response: GetCapsResponse|
            {
                &&& #[trigger] tells_platform(
                    response,
                    header,
                    nonce,
                    monitor.lifecycle.spec_state().spec_code(),
                    capabilities,
                )
                &&& answered(response, out, out_after, result)
            },
    }
}

/// Answers a question about the platform.
pub fn execute_get_caps<A: EptPageAllocator + Clone>(
    monitor: &Monitor<A>,
    inspected: MonadResult<PublicCapabilities>,
    header: RequestHeader,
    nonce: u64,
    output: &mut [u8],
) -> (result: MonadResult<usize>)
    requires
        monitor.wf(),
    ensures
        caps_request(*monitor, inspected, header, nonce, old(output)@, final(output)@, result),
{
    let capabilities = monitor.current_capabilities(inspected)?;
    let lifecycle: u8 = monitor.lifecycle_state().code();
    let response = GetCapsResponse {
        header: ResponseHeader::success::<GetCapsResponse>(header, nonce),
        driver_version: ABI_VERSION as u32,
        lifecycle: lifecycle as u32,
        capability_bits: capabilities.capability_bits,
        aperture_end: capabilities.aperture_end,
        physaddr_width: capabilities.max_physical_address_bits,
        vbs_or_hypervisor_present: device::as_one_bit(capabilities.hypervisor_present),
        session_available: device::as_one_bit(nonce != 0),
        reserved0: 0,
        cpu_count: capabilities.cpu_count,
        max_views: MAX_PUBLISHED_VIEWS as u16,
        max_drafts: MAX_DRAFT_VIEWS as u16,
        max_batch_edits: MAX_BATCH_EDITS as u16,
        reserved1: 0,
        reserved2: 0,
        max_backing_pages: MAX_BACKING_PAGES as u32,
        reserved3: 0,
        reserved: [0;2],
    };
    proof {
        assert(response.reserved@ =~= seq![0u64, 0u64]);
        assert(tells_platform(response, header, nonce, lifecycle, capabilities));
    }
    write_pod(output, &response)
}

/// Writes a record behind the fixed part of a response.
fn write_record<T: Pod>(output: &mut [u8], cursor: usize, value: &T) -> (result: MonadResult<usize>)
    requires
        cursor <= old(output)@.len(),
    ensures
        if cursor + T::spec_size() > old(output)@.len() {
            &&& result == Err::<usize, MonadError>(
                ioctl::spec_device_error(
                    ErrorCode::InvalidStructureSize,
                    (old(output)@.len() - cursor) as u64,
                ),
            )
            &&& final(output)@ == old(output)@
        } else {
            &&& result == Ok::<usize, MonadError>((cursor + T::spec_size()) as usize)
            &&& value.laid_out(final(output)@, cursor as int)
            &&& wire::kept(old(output)@, final(output)@, cursor as int, cursor + T::spec_size())
        },
{
    let size: usize = T::size();
    let length: usize = output.len();
    if size > length - cursor {
        return Err(device_error(ErrorCode::InvalidStructureSize, (length - cursor) as u64));
    }
    value.store(output, cursor);
    Ok(cursor + size)
}

/// What a controller is told of a view.
pub open spec fn tells_view(record: ViewRecordWire, state: PublicViewState) -> bool {
    let metadata = state.metadata;
    &&& record.id == device::spec_view_to_wire(state.id)
    &&& record.source == device::spec_view_to_wire(metadata.source)
    &&& record.state == VIEW_STATE_PUBLISHED
    &&& record.table_pages == metadata.table_pages
    &&& record.leaf_count == metadata.leaf_1g + metadata.leaf_2m + metadata.leaf_4k
    &&& record.readable_pages == metadata.readable_pages
    &&& record.writable_pages == metadata.writable_pages
    &&& record.executable_pages == metadata.executable_pages
    &&& record.backing_ref_count == metadata.backing_pages
    &&& record.cpu_word_count == 4
    &&& record.active_cpu_set@ == state.active_cpu_set@
}

/// The record of a view is at an offset.
pub open spec fn view_recorded(bytes: Seq<u8>, offset: int, state: PublicViewState) -> bool {
    exists|record: ViewRecordWire| #[trigger]
        record.laid_out(bytes, offset) && tells_view(record, state)
}

/// Some of the views are listed.
pub open spec fn views_written(
    header: RequestHeader,
    nonce: u64,
    states: Seq<PublicViewState>,
    start: int,
    count: int,
    total: int,
    out: Seq<u8>,
    result: MonadResult<usize>,
) -> bool {
    &&& result == Ok::<usize, MonadError>((56 + 112 * count) as usize)
    &&& (ListViewsResponse {
        header: ResponseHeader::succeeded(56, header, nonce),
        record_count: count as u32,
        total_count: total as u32,
    }).laid_out(out, 0)
    &&& forall|k: int|
        0 <= k < count ==> #[trigger] view_recorded(out, 56 + 112 * k, states[start + k])
}

/// What a request for the list of views comes to.
pub open spec fn list_request<A: EptPageAllocator + Clone>(
    monitor: Monitor<A>,
    header: RequestHeader,
    nonce: u64,
    input: Seq<u8>,
    out: Seq<u8>,
    out_after: Seq<u8>,
    result: MonadResult<usize>,
) -> bool {
    let request = wire::loaded::<ListViewsRequest>(input, 0);
    let vmm = monitor.vmm.unwrap();
    let total = vmm.manager.model().next_publish_slot as int;
    let start = request.start_index as int;
    if cut_off::<ListViewsRequest>(input) {
        unanswered(cut_off_error(input), out, out_after, result)
    } else if monitor.refusal() is Some {
        unanswered(monitor.refusal().unwrap(), out, out_after, result)
    } else if vmm.some_changing() {
        unanswered(
            MonadError::new(ErrorPhase::Activation, ErrorCode::RendezvousBusy, 0),
            out,
            out_after,
            result,
        )
    } else if start > total {
        unanswered(
            ioctl::spec_device_error(ErrorCode::InvalidRange, start as u64),
            out,
            out_after,
            result,
        )
    } else {
        let count = if request.max_records < total - start {
            request.max_records as int
        } else {
            total - start
        };
        &&& out_after.len() == out.len()
        &&& if 56 + 112 * count > out.len() {
            result == Err::<usize, MonadError>(
                ioctl::spec_device_error(
                    ErrorCode::InvalidStructureSize,
                    if out.len() < 56 {
                        out.len() as u64
                    } else {
                        ((out.len() - 56) % 112) as u64
                    },
                ),
            )
        } else {
            exists|room: Seq<PublicViewState>, states: Seq<PublicViewState>|
                {
                    &&& #[trigger] machine::listed(vmm, room, states, total)
                    &&& views_written(
                        header,
                        nonce,
                        states,
                        start,
                        count,
                        total,
                        out_after,
                        result,
                    )
                }
        }
    }
}

fn record_of(state: &PublicViewState) -> (record: ViewRecordWire)
    ensures
        tells_view(record, *state),
{
    let metadata = state.metadata;
    ViewRecordWire {
        id: view_to_wire(state.id),
        source: view_to_wire(metadata.source),
        state: VIEW_STATE_PUBLISHED,
        table_pages: metadata.table_pages,
        leaf_count: metadata.leaf_1g as u64 + metadata.leaf_2m as u64 + metadata.leaf_4k as u64,
        readable_pages: metadata.readable_pages,
        writable_pages: metadata.writable_pages,
        executable_pages: metadata.executable_pages,
        backing_ref_count: metadata.backing_pages,
        cpu_word_count: 4,
        active_cpu_set: state.active_cpu_set,
    }
}

proof fn lemma_response_kept(
    response: ListViewsResponse,
    before: Seq<u8>,
    after: Seq<u8>,
    low: int,
    high: int,
)
    requires
        response.laid_out(before, 0),
        before.len() >= 56,
        56 <= low,
        wire::kept(before, after, low, high),
    ensures
        response.laid_out(after, 0),
{
}

proof fn lemma_record_kept(
    before: Seq<u8>,
    after: Seq<u8>,
    offset: int,
    state: PublicViewState,
    low: int,
    high: int,
)
    requires
        view_recorded(before, offset, state),
        0 <= offset,
        offset + 112 <= before.len(),
        offset + 112 <= low,
        wire::kept(before, after, low, high),
    ensures
        view_recorded(after, offset, state),
{
    let record = choose|record: ViewRecordWire| #[trigger]
        record.laid_out(before, offset) && tells_view(record, state);
    assert(record.laid_out(after, offset));
}

/// Answers a request for the list of views.
#[verifier::loop_isolation(false)]
pub fn execute_list_views<A: EptPageAllocator + Clone>(
    monitor: &Monitor<A>,
    header: RequestHeader,
    nonce: u64,
    input: &[u8],
    output: &mut [u8],
) -> (result: MonadResult<usize>)
    requires
        monitor.wf(),
    ensures
        list_request(*monitor, header, nonce, input@, old(output)@, final(output)@, result),
{
    let request = read_fixed::<ListViewsRequest>(input)?;
    let mut states: [PublicViewState; 8] = [PublicViewState::default();8];
    let ghost room = states@;
    let (copied, total) = monitor.list_views(&mut states)?;
    let ghost vmm = monitor.vmm.unwrap();
    let ghost filled = states@;
    proof {
        vmm.manager.lemma_wf();
        assert(machine::listed(vmm, room, filled, total as int));
    }
    let start: usize = request.start_index as usize;
    if start > total {
        return Err(device_error(ErrorCode::InvalidRange, start as u64));
    }
    let count: usize = if (request.max_records as usize) < total - start {
        request.max_records as usize
    } else {
        total - start
    };
    let response = ListViewsResponse {
        header: ResponseHeader::success::<ListViewsResponse>(header, nonce),
        record_count: count as u32,
        total_count: total as u32,
    };
    let mut cursor: usize = write_pod(output, &response)?;
    let mut index: usize = 0;
    while index < count
        invariant
            index <= count <= 8,
            start + count <= total <= 8,
            states@ == filled,
            filled.len() == 8,
            cursor == 56 + 112 * index,
            cursor <= output@.len(),
            output@.len() == old(output)@.len(),
            response.laid_out(output@, 0),
            forall|k: int|
                0 <= k < index ==> #[trigger] view_recorded(
                    output@,
                    56 + 112 * k,
                    filled[start + k],
                ),
        decreases count - index,
    {
        let ghost before = output@;
        let record = record_of(&states[start + index]);
        match write_record(output, cursor, &record) {
            Ok(next) => {
                proof {
                    lemma_response_kept(response, before, output@, cursor as int, cursor + 112);
                    assert forall|k: int| 0 <= k < index + 1 implies #[trigger] view_recorded(
                        output@,
                        56 + 112 * k,
                        filled[start + k],
                    ) by {
                        if k < index {
                            assert(view_recorded(before, 56 + 112 * k, filled[start + k]));
                            lemma_record_kept(
                                before,
                                output@,
                                56 + 112 * k,
                                filled[start + k],
                                cursor as int,
                                cursor + 112,
                            );
                        } else {
                            assert(record.laid_out(output@, cursor as int));
                        }
                    }
                }
                cursor = next;
            },
            Err(error) => {
                assert((output@.len() - 56) % 112 == output@.len() - cursor);
                return Err(error);
            },
        }
        index = index + 1;
    }
    Ok(cursor)
}

/// What a request to activate a view comes to.
pub open spec fn activate_request<A: EptPageAllocator + Clone>(
    before: Monitor<A>,
    after: Monitor<A>,
    input: Seq<u8>,
    now: u64,
    result: MonadResult<PendingActivation>,
) -> bool {
    let request = wire::loaded::<ActivateViewRequest>(input, 0);
    if cut_off::<ActivateViewRequest>(input) {
        machine::untouched(before, after) && result == Err::<PendingActivation, MonadError>(
            cut_off_error(input),
        )
    } else {
        ||| {
            &&& machine::untouched(before, after)
            &&& result is Err
            &&& device::cpu_words_fault(input, request.cpu_word_count, result->Err_0)
        }
        ||| {
            &&& 0 < request.cpu_word_count <= ioctl::MAX_CPU_SET_WORDS
            &&& 48 + 16 * request.cpu_word_count <= input.len()
            &&& control::activation_begun(
                before,
                after,
                device::spec_view_from_wire(request.view),
                Seq::new(
                    request.cpu_word_count as nat,
                    |k: int| device::cpu_word_at(input, k),
                ),
                now,
                result,
            )
        }
    }
}

/// Begins to carry out a request to activate a view.
pub fn execute_activate_view<A: EptPageAllocator + Clone>(
    monitor: &mut Monitor<A>,
    input: &[u8],
    now: u64,
) -> (result: MonadResult<PendingActivation>)
    requires
        old(monitor).wf(),
    ensures
        final(monitor).wf(),
        activate_request(*old(monitor), *final(monitor), input@, now, result),
{
    let request = read_fixed::<ActivateViewRequest>(input)?;
    let words = cpu_words_from_wire(input, request.cpu_word_count)?;
    proof {
        assert(words@ =~= Seq::new(
            request.cpu_word_count as nat,
            |k: int| device::cpu_word_at(input@, k),
        ));
    }
    monitor.activate_view(view_from_wire(request.view), words.as_slice(), now)
}

/// The words of a record are at an offset, one behind the other.
pub open spec fn event_recorded(bytes: Seq<u8>, offset: int, record: EventRecord) -> bool {
    words_recorded(bytes, offset, record.words(), 16)
}

/// The first words of a record are at an offset.
pub open spec fn words_recorded(bytes: Seq<u8>, offset: int, words: Seq<u64>, count: int) -> bool {
    forall|w: int| 0 <= w < count ==> #[trigger] wire::u64_at(bytes, offset + 8 * w) == words[w]
}

proof fn lemma_words_kept(
    before: Seq<u8>,
    after: Seq<u8>,
    offset: int,
    words: Seq<u64>,
    count: int,
    low: int,
    high: int,
)
    requires
        words_recorded(before, offset, words, count),
        0 <= offset,
        offset + 8 * count <= before.len(),
        offset + 8 * count <= low,
        wire::kept(before, after, low, high),
    ensures
        words_recorded(after, offset, words, count),
{
    assert forall|w: int| 0 <= w < count implies #[trigger] wire::u64_at(after, offset + 8 * w)
        == words[w] by {
        assert(wire::u64_at(before, offset + 8 * w) == words[w]);
    }
}

/// Writes the words of a record.
fn write_event(output: &mut [u8], cursor: usize, record: EventRecord) -> (result: MonadResult<usize>)
    requires
        cursor <= old(output)@.len(),
    ensures
        final(output)@.len() == old(output)@.len(),
        if cursor + 128 > old(output)@.len() {
            result == Err::<usize, MonadError>(
                MonadError::new(
                    ErrorPhase::Telemetry,
                    ErrorCode::InvalidStructureSize,
                    old(output)@.len() as u64,
                ),
            )
        } else {
            &&& result == Ok::<usize, MonadError>((cursor + 128) as usize)
            &&& event_recorded(final(output)@, cursor as int, record)
            &&& wire::kept(old(output)@, final(output)@, cursor as int, cursor + 128)
        },
{
    let words = record.encode_words();
    let ghost start = output@;
    let length: usize = output.len();
    let mut index: usize = 0;
    proof {
        wire::lemma_kept(start, output@, cursor as int, cursor as int);
    }
    while index < 16
        invariant
            index <= 16,
            start == old(output)@,
            length == start.len(),
            cursor <= start.len(),
            index > 0 ==> cursor + 8 * index <= start.len(),
            words@ == record.words(),
            words_recorded(output@, cursor as int, words@, index as int),
            wire::kept(start, output@, cursor as int, cursor + 8 * index),
        decreases 16 - index,
    {
        let at: usize = cursor + 8 * index;
        if length - at < 8 {
            return Err(
                MonadError::new(
                    ErrorPhase::Telemetry,
                    ErrorCode::InvalidStructureSize,
                    length as u64,
                ),
            );
        }
        let ghost before = output@;
        wire::store_u64(output, at, words[index]);
        proof {
            lemma_words_kept(
                before,
                output@,
                cursor as int,
                words@,
                index as int,
                at as int,
                at + 8,
            );
            wire::lemma_kept(start, output@, cursor as int, cursor + 8 * (index + 1));
        }
        index = index + 1;
    }
    Ok(cursor + 128)
}

/// A record that has not been written.
pub open spec fn blank_records(count: nat) -> Seq<EventRecord> {
    Seq::new(count, |k: int| EventRecord::spec_zeroed())
}

/// The events are written.
pub open spec fn events_written(
    header: RequestHeader,
    nonce: u64,
    snapshot: RingSnapshot,
    records: Seq<EventRecord>,
    out: Seq<u8>,
    out_after: Seq<u8>,
    result: MonadResult<usize>,
) -> bool {
    &&& out_after.len() == out.len()
    &&& if out.len() < 72 {
        result == Err::<usize, MonadError>(
            ioctl::spec_device_error(ErrorCode::InvalidStructureSize, out.len() as u64),
        )
    } else if 72 + 128 * snapshot.count > out.len() {
        result == Err::<usize, MonadError>(
            MonadError::new(
                ErrorPhase::Telemetry,
                ErrorCode::InvalidStructureSize,
                out.len() as u64,
            ),
        )
    } else {
        &&& result == Ok::<usize, MonadError>((72 + 128 * snapshot.count) as usize)
        &&& (ReadEventsResponse {
            header: ResponseHeader::succeeded(72, header, nonce),
            record_count: snapshot.count as u32,
            reserved: 0,
            next_sequence: snapshot.next_sequence,
            dropped: snapshot.dropped,
        }).laid_out(out_after, 0)
        &&& forall|k: int|
            0 <= k < snapshot.count ==> #[trigger] event_recorded(
                out_after,
                72 + 128 * k,
                records[k],
            )
    }
}

/// What a request for events comes to.
pub open spec fn events_request<A: EptPageAllocator + Clone>(
    before: Monitor<A>,
    after: Monitor<A>,
    header: RequestHeader,
    nonce: u64,
    input: Seq<u8>,
    out: Seq<u8>,
    out_after: Seq<u8>,
    result: MonadResult<usize>,
) -> bool {
    let request = wire::loaded::<ReadEventsRequest>(input, 0);
    if cut_off::<ReadEventsRequest>(input) {
        machine::untouched(before, after) && unanswered(
            cut_off_error(input),
            out,
            out_after,
            result,
        )
    } else {
        ||| machine::untouched(before, after) && unanswered(
            MonadError::new(
                ErrorPhase::Telemetry,
                ErrorCode::AllocationFailure,
                request.max_records as u64,
            ),
            out,
            out_after,
            result,
        )
        ||| exists|records: Seq<EventRecord>, taken: MonadResult<RingSnapshot>|
            {
                &&& #[trigger] machine::events_taken(
                    before,
                    after,
                    request.cpu_dense_index,
                    request.after_sequence,
                    blank_records(request.max_records as nat),
                    records,
                    taken,
                )
                &&& match taken {
                    Err(error) => unanswered(error, out, out_after, result),
                    Ok(snapshot) => events_written(
                        header,
                        nonce,
                        snapshot,
                        records,
                        out,
                        out_after,
                        result,
                    ),
                }
            }
    }
}

proof fn lemma_events_response_kept(
    response: ReadEventsResponse,
    before: Seq<u8>,
    after: Seq<u8>,
    low: int,
    high: int,
)
    requires
        response.laid_out(before, 0),
        before.len() >= 72,
        72 <= low,
        wire::kept(before, after, low, high),
    ensures
        response.laid_out(after, 0),
{
}

/// Writes the events behind the fixed part of the response.
fn write_events(
    output: &mut [u8],
    header: RequestHeader,
    nonce: u64,
    snapshot: RingSnapshot,
    records: &[EventRecord],
) -> (result: MonadResult<usize>)
    requires
        snapshot.count <= records@.len(),
    ensures
        events_written(
            header,
            nonce,
            snapshot,
            records@,
            old(output)@,
            final(output)@,
            result,
        ),
{
    let response = ReadEventsResponse {
        header: ResponseHeader::success::<ReadEventsResponse>(header, nonce),
        record_count: #[verifier::truncate] (snapshot.count as u32),
        reserved: 0,
        next_sequence: snapshot.next_sequence,
        dropped: snapshot.dropped,
    };
    let ghost start = output@;
    let length: usize = output.len();
    let mut cursor: usize = write_pod(output, &response)?;
    let mut index: usize = 0;
    while index < snapshot.count
        invariant
            index <= snapshot.count <= records@.len(),
            start == old(output)@,
            length == start.len(),
            start.len() >= 72,
            cursor == 72 + 128 * index,
            cursor <= output@.len(),
            output@.len() == start.len(),
            response.laid_out(output@, 0),
            forall|k: int|
                0 <= k < index ==> #[trigger] event_recorded(output@, 72 + 128 * k, records@[k]),
        decreases snapshot.count - index,
    {
        let ghost before = output@;
        match write_event(output, cursor, records[index]) {
            Ok(next) => {
                proof {
                    lemma_events_response_kept(
                        response,
                        before,
                        output@,
                        cursor as int,
                        cursor + 128,
                    );
                    assert forall|k: int| 0 <= k < index + 1 implies #[trigger] event_recorded(
                        output@,
                        72 + 128 * k,
                        records@[k],
                    ) by {
                        if k < index {
                            assert(event_recorded(before, 72 + 128 * k, records@[k]));
                            lemma_words_kept(
                                before,
                                output@,
                                72 + 128 * k,
                                records@[k].words(),
                                16,
                                cursor as int,
                                cursor + 128,
                            );
                        }
                    }
                }
                cursor = next;
            },
            Err(error) => {
                return Err(error);
            },
        }
        index = index + 1;
    }
    Ok(cursor)
}

/// Carries out a request for events.
pub fn execute_read_events<A: EptPageAllocator + Clone>(
    monitor: &mut Monitor<A>,
    header: RequestHeader,
    nonce: u64,
    input: &[u8],
    output: &mut [u8],
) -> (result: MonadResult<usize>)
    requires
        old(monitor).wf(),
    ensures
        final(monitor).wf(),
        events_request(
            *old(monitor),
            *final(monitor),
            header,
            nonce,
            input@,
            old(output)@,
            final(output)@,
            result,
        ),
{
    let request = read_fixed::<ReadEventsRequest>(input)?;
    let count: usize = request.max_records as usize;
    let mut records: Vec<EventRecord> = Vec::new();
    if records.try_reserve(count).is_err() {
        return Err(
            MonadError::new(ErrorPhase::Telemetry, ErrorCode::AllocationFailure, count as u64),
        );
    }
    while records.len() < count
        invariant
            records@.len() <= count,
            forall|k: int|
                0 <= k < records@.len() ==> #[trigger] records@[k] == EventRecord::spec_zeroed(),
        decreases count - records@.len(),
    {
        records.push(EventRecord::zeroed());
    }
    assert(records@ =~= blank_records(count as nat));
    let taken = monitor.read_events(
        request.cpu_dense_index,
        request.after_sequence,
        records.as_mut_slice(),
    );
    assert(machine::events_taken(
        *old(monitor),
        *monitor,
        request.cpu_dense_index,
        request.after_sequence,
        blank_records(request.max_records as nat),
        records@,
        taken,
    ));
    let snapshot = taken?;
    write_events(output, header, nonce, snapshot, records.as_slice())
}

/// What a controller is told of a page is the same wherever the page lies in the
/// machine's memory.
pub proof fn law_answer_hides_host_memory(
    response: QueryMappingResponse,
    header: RequestHeader,
    nonce: u64,
    gpa: u64,
    here: ResolvedMapping,
    there: ResolvedMapping,
)
    requires
        there == (ResolvedMapping { hpa_page: there.hpa_page, ..here }),
    ensures
        tells_mapping(response, header, nonce, gpa, here) == tells_mapping(
            response,
            header,
            nonce,
            gpa,
            there,
        ),
{
}

} // verus!
