//! What requests come to, from the bytes that ask to what is there afterwards
//! and to the bytes that answer.

use vstd::prelude::*;

use super::device;
use super::device::cpu_words_from_wire;
use super::dispatch;
use super::dispatch::{start_config, Completion};
use super::layout;
use super::requests;
use super::wire;
use super::wire::{
    ActivateViewRequest, AllocateBackingRequest, AllocateBackingResponse, CreateDraftRequest, CreateDraftResponse,
    FreeBackingRequest, GetCapsResponse, GetVcpuStateRequest, GetVcpuStateResponse, Pod,
    PublishViewRequest, PublishViewResponse, RequestHeader, WriteBackingRequest,
};
use crate::bits;
use crate::ept::address::GuestPhysicalAddress;
use crate::ept::backing;
use crate::ept::inventory::PhysicalRange;
use crate::ept::page::EptPageAllocator;
use crate::ept::view::{DraftId, ViewId};
use crate::error::{MonadError, MonadResult};
use crate::telemetry::record;
use crate::telemetry::record::{EventRecord, EVENT_WORDS};
use crate::topology;
use crate::topology::{CpuId, CpuSetWord};
use crate::vmm::activation;
use crate::vmm::control::PendingActivation;
use crate::vmm::machine::{Monitor, PublicViewState};
use crate::vmm::setup::{PublicCapabilities, VmmStartConfig};

verus! {

/// Every code leads to the work that it stands for.
pub proof fn law_codes_reach_their_work<A: EptPageAllocator + Clone>(
    code: u32,
    before: Monitor<A>,
    after: Monitor<A>,
    inspected: MonadResult<PublicCapabilities>,
    header: RequestHeader,
    nonce: u64,
    input: Seq<u8>,
    out: Seq<u8>,
    out_after: Seq<u8>,
    result: MonadResult<usize>,
)
    requires
        dispatch::carried_out(
            code,
            before,
            after,
            inspected,
            header,
            nonce,
            input,
            out,
            out_after,
            result,
        ),
    ensures
        code == 0x22_6000 ==> requests::caps_request(
            before,
            inspected,
            header,
            nonce,
            out,
            out_after,
            result,
        ),
        code == 0x22_e040 ==> requests::allocate_request(
            before,
            after,
            header,
            nonce,
            input,
            out,
            out_after,
            result,
        ),
        code == 0x22_e044 && result is Ok ==> result->Ok_0 == 48 && requests::write_request(
            before,
            after,
            input,
            Ok::<(), MonadError>(()),
        ),
        code == 0x22_e048 && result is Ok ==> result->Ok_0 == 48 && requests::free_request(
            before,
            after,
            input,
            Ok::<(), MonadError>(()),
        ),
        code == 0x22_e080 ==> requests::create_request(
            before,
            after,
            header,
            nonce,
            input,
            out,
            out_after,
            result,
        ),
        code == 0x22_e084 && result is Ok ==> result->Ok_0 == 48 && requests::edit_request(
            before,
            after,
            input,
            Ok::<(), MonadError>(()),
        ),
        code == 0x22_e088 && result is Ok ==> result->Ok_0 == 48 && requests::discard_request(
            before,
            after,
            input,
            Ok::<(), MonadError>(()),
        ),
        code == 0x22_e08c ==> requests::publish_request(
            before,
            after,
            header,
            nonce,
            input,
            out,
            out_after,
            result,
        ),
        code == 0x22_6090 ==> requests::query_request(
            before,
            header,
            nonce,
            input,
            out,
            out_after,
            result,
        ),
        code == 0x22_6094 ==> requests::list_request(
            before,
            header,
            nonce,
            input,
            out,
            out_after,
            result,
        ),
        code == 0x22_60c0 ==> requests::events_request(
            before,
            after,
            header,
            nonce,
            input,
            out,
            out_after,
            result,
        ),
        code == 0x22_60c4 ==> requests::vcpu_request(
            before,
            header,
            nonce,
            input,
            out,
            out_after,
            result,
        ),
        // A question leaves everything as it was.
        code == 0x22_6000 || code == 0x22_6090 || code == 0x22_6094 || code == 0x22_60c4
            ==> after.vmm == before.vmm && after.lifecycle == before.lifecycle,
{
}

/// Bytes that were written are in the backing that the request names, from the
/// offset on that it names; all its other bytes, its pages and every other
/// backing are as they were.
pub proof fn law_written_bytes_are_there<A: EptPageAllocator + Clone>(
    before: Monitor<A>,
    after: Monitor<A>,
    input: Seq<u8>,
    request: WriteBackingRequest,
)
    requires
        requests::write_request(before, after, input, Ok::<(), MonadError>(())),
        request.laid_out(input, 0),
    ensures
        ({
            let old = before.vmm.unwrap().manager.model().backings;
            let new = after.vmm.unwrap().manager.model().backings;
            let slot = request.backing.slot as int;
            let old_object = old[slot].object.unwrap();
            let object = new[slot].object.unwrap();
            &&& slot < old.len() && new.len() == old.len()
            &&& old[slot].object is Some && new[slot].object is Some
            &&& new[slot].generation == request.backing.generation
            &&& object.id == old_object.id && object.hpas == old_object.hpas
            &&& object.contents.len() == old_object.contents.len()
            &&& request.offset + request.data_length <= object.contents.len()
            &&& forall|k: int|
                0 <= k < object.contents.len() ==> #[trigger] object.contents[k]
                    == if request.offset <= k < request.offset + request.data_length {
                    input[64 + k - request.offset]
                } else {
                    old_object.contents[k]
                }
            &&& forall|other: int|
                0 <= other < old.len() && other != slot ==> #[trigger] new[other] == old[other]
        }),
{
    wire::lemma_loaded(request, input, 0);
}

/// Pages that were asked for are had: as many as were asked, all zero, in a slot
/// that was free, to be written unless the request said otherwise, and the
/// answer gives the name under which they are found.
pub proof fn law_pages_are_had<A: EptPageAllocator + Clone>(
    before: Monitor<A>,
    after: Monitor<A>,
    header: RequestHeader,
    nonce: u64,
    input: Seq<u8>,
    request: AllocateBackingRequest,
    out: Seq<u8>,
    out_after: Seq<u8>,
    size: usize,
)
    requires
        before.wf(),
        requests::allocate_request(
            before,
            after,
            header,
            nonce,
            input,
            out,
            out_after,
            Ok::<usize, MonadError>(size),
        ),
        request.laid_out(input, 0),
    ensures
        size == 72,
        exists|response: AllocateBackingResponse|
            {
                let old = before.vmm.unwrap().manager.model();
                let new = after.vmm.unwrap().manager.model();
                let slot = response.backing.slot as int;
                let object = new.backings[slot].object.unwrap();
                &&& #[trigger] requests::answered(
                    response,
                    out,
                    out_after,
                    Ok::<usize, MonadError>(size),
                )
                &&& response.header.request_id == header.request_id
                &&& response.header.session_nonce == nonce
                &&& slot < old.backings.len()
                &&& old.backings[slot].object is None
                &&& response.backing.generation == old.backings[slot].generation + 1
                &&& response.backing.session_nonce == old.session_nonce
                &&& new.backings[slot].generation == response.backing.generation
                &&& new.backings[slot].object is Some
                &&& object.hpas.len() == request.page_count
                &&& object.contents.len() == 4096 * request.page_count
                &&& forall|k: int|
                    0 <= k < object.contents.len() ==> #[trigger] object.contents[k] == 0
                &&& object.state == if request.allocation_flags % 2 == 1 {
                    backing::BackingState::Immutable
                } else {
                    backing::BackingState::Mutable
                }
                &&& object.draft_refs == 0 && object.published_refs == 0 && !object.target_pinned
            },
{
    wire::lemma_loaded(request, input, 0);
    bits::lemma_unknown_flags(request.allocation_flags);
    let outcome = choose|outcome: MonadResult<backing::BackingId>|
        {
            &&& #[trigger] crate::vmm::machine::backing_allocated(
                before,
                after,
                request.page_count,
                requests::wants_immutable(request.allocation_flags),
                outcome,
            )
            &&& match outcome {
                Err(error) => requests::unanswered(
                    error,
                    out,
                    out_after,
                    Ok::<usize, MonadError>(size),
                ),
                Ok(id) => requests::answered(
                    AllocateBackingResponse {
                        header: wire::ResponseHeader::succeeded(72, header, nonce),
                        backing: device::spec_backing_to_wire(id),
                    },
                    out,
                    out_after,
                    Ok::<usize, MonadError>(size),
                ),
            }
        };
    let id = outcome->Ok_0;
    let response = AllocateBackingResponse {
        header: wire::ResponseHeader::succeeded(72, header, nonce),
        backing: device::spec_backing_to_wire(id),
    };
    let slots = before.vmm.unwrap().manager.model().backings;
    before.vmm.unwrap().manager.lemma_wf();
    lemma_first_free(slots, slots.len());
    let i = choose|i: int| #[trigger] backing::is_first_free(slots, i);
    assert(id.slot == i);
    assert(requests::answered(response, out, out_after, Ok::<usize, MonadError>(size)));
}

/// Either a first slot is free, or none is.
proof fn lemma_first_free(slots: Seq<backing::SlotModel>, count: nat)
    requires
        count <= slots.len(),
    ensures
        (forall|k: int| 0 <= k < count ==> !backing::is_free(#[trigger] slots[k])) || exists|i: int| #[trigger]
            backing::is_first_free(slots, i),
    decreases count,
{
    if count > 0 {
        lemma_first_free(slots, (count - 1) as nat);
        if (forall|k: int| 0 <= k < count - 1 ==> !backing::is_free(#[trigger] slots[k]))
            && backing::is_free(slots[count - 1]) {
            assert(backing::is_first_free(slots, count - 1));
        }
    }
}

/// A backing that was freed is not found any more under the name that the
/// request gave, and every other backing is as it was.
pub proof fn law_freed_backing_is_gone<A: EptPageAllocator + Clone>(
    before: Monitor<A>,
    after: Monitor<A>,
    input: Seq<u8>,
    request: FreeBackingRequest,
)
    requires
        requests::free_request(before, after, input, Ok::<(), MonadError>(())),
        request.laid_out(input, 0),
    ensures
        ({
            let old = before.vmm.unwrap().manager.model().backings;
            let new = after.vmm.unwrap().manager.model().backings;
            let slot = request.backing.slot as int;
            let object = old[slot].object.unwrap();
            &&& slot < old.len() && new.len() == old.len()
            &&& old[slot].object is Some && old[slot].generation == request.backing.generation
            &&& object.draft_refs == 0 && object.published_refs == 0 && !object.target_pinned
            &&& new[slot].object is None && new[slot].generation == old[slot].generation
            &&& forall|other: int|
                0 <= other < old.len() && other != slot ==> #[trigger] new[other] == old[other]
        }),
{
    wire::lemma_loaded(request, input, 0);
}

/// A draft that was asked for is there under the name in the answer, came from
/// the view that the request named, and walks as that view does.
pub proof fn law_draft_is_there_as_asked<A: EptPageAllocator + Clone>(
    before: Monitor<A>,
    after: Monitor<A>,
    header: RequestHeader,
    nonce: u64,
    input: Seq<u8>,
    request: CreateDraftRequest,
    out: Seq<u8>,
    out_after: Seq<u8>,
    size: usize,
    gpa: GuestPhysicalAddress,
)
    requires
        before.wf(),
        after.wf(),
        requests::create_request(
            before,
            after,
            header,
            nonce,
            input,
            out,
            out_after,
            Ok::<usize, MonadError>(size),
        ),
        request.laid_out(input, 0),
        request.source.reserved == 0,
        gpa.get() % 0x1000 == 0,
    ensures
        size == 72,
        exists|response: CreateDraftResponse|
            {
                let old = before.vmm.unwrap().manager.model();
                let new = after.vmm.unwrap().manager.model();
                let source = old.view_at(request.source.slot as int);
                let draft = new.draft_at(response.draft.slot as int);
                &&& #[trigger] requests::answered(
                    response,
                    out,
                    out_after,
                    Ok::<usize, MonadError>(size),
                )
                &&& response.header.request_id == header.request_id
                &&& response.header.session_nonce == nonce
                &&& old.published[request.source.slot as int] is Some
                &&& source.id.slot == request.source.slot
                &&& source.id.generation == request.source.generation
                &&& new.drafts[response.draft.slot as int].draft is Some
                &&& new.drafts[response.draft.slot as int].generation == response.draft.generation
                &&& response.draft.session_nonce == new.session_nonce
                &&& draft.source == source.id
                &&& draft.model.walk(gpa) == source.model.walk(gpa)
                &&& new.published == old.published
            },
{
    wire::lemma_loaded(request, input, 0);
    let source = device::spec_view_from_wire(request.source);
    let outcome = choose|outcome: MonadResult<DraftId>|
        {
            &&& #[trigger] crate::vmm::machine::draft_created(before, after, source, outcome)
            &&& match outcome {
                Err(error) => requests::unanswered(
                    error,
                    out,
                    out_after,
                    Ok::<usize, MonadError>(size),
                ),
                Ok(id) => requests::answered(
                    CreateDraftResponse {
                        header: wire::ResponseHeader::succeeded(72, header, nonce),
                        draft: device::spec_draft_to_wire(id),
                    },
                    out,
                    out_after,
                    Ok::<usize, MonadError>(size),
                ),
            }
        };
    let id = outcome->Ok_0;
    let response = CreateDraftResponse {
        header: wire::ResponseHeader::succeeded(72, header, nonce),
        draft: device::spec_draft_to_wire(id),
    };
    before.vmm.unwrap().manager.law_draft_walks_as_its_source(
        &after.vmm.unwrap().manager,
        source,
        id,
        gpa,
    );
    assert(requests::answered(response, out, out_after, Ok::<usize, MonadError>(size)));
}

/// A view that was published is there under the name in the answer, walks as
/// the draft did that the request named, and the draft is gone.
pub proof fn law_publication_is_there_as_asked<A: EptPageAllocator + Clone>(
    before: Monitor<A>,
    after: Monitor<A>,
    header: RequestHeader,
    nonce: u64,
    input: Seq<u8>,
    request: PublishViewRequest,
    out: Seq<u8>,
    out_after: Seq<u8>,
    size: usize,
    gpa: GuestPhysicalAddress,
)
    requires
        before.wf(),
        requests::publish_request(
            before,
            after,
            header,
            nonce,
            input,
            out,
            out_after,
            Ok::<usize, MonadError>(size),
        ),
        request.laid_out(input, 0),
        gpa.get() % 0x1000 == 0,
    ensures
        size == 72,
        exists|response: PublishViewResponse|
            {
                let old = before.vmm.unwrap().manager.model();
                let new = after.vmm.unwrap().manager.model();
                let draft = old.draft_at(request.draft.slot as int);
                let view = new.view_at(response.view.slot as int);
                &&& #[trigger] requests::answered(
                    response,
                    out,
                    out_after,
                    Ok::<usize, MonadError>(size),
                )
                &&& response.header.request_id == header.request_id
                &&& response.header.session_nonce == nonce
                &&& old.drafts[request.draft.slot as int].draft is Some
                &&& old.drafts[request.draft.slot as int].generation == request.draft.generation
                &&& response.view.slot == old.next_publish_slot
                &&& new.published[response.view.slot as int] is Some
                &&& view.id.slot == response.view.slot
                &&& view.id.generation == response.view.generation
                &&& view.model.walk(gpa) == draft.model.walk(gpa)
                &&& view.metadata.source == draft.source
                &&& new.drafts[request.draft.slot as int].draft is None
            },
{
    wire::lemma_loaded(request, input, 0);
    let draft = device::spec_draft_from_wire(request.draft);
    let outcome = choose|outcome: MonadResult<ViewId>|
        {
            &&& #[trigger] crate::vmm::machine::view_published(before, after, draft, outcome)
            &&& match outcome {
                Err(error) => requests::unanswered(
                    error,
                    out,
                    out_after,
                    Ok::<usize, MonadError>(size),
                ),
                Ok(id) => requests::answered(
                    PublishViewResponse {
                        header: wire::ResponseHeader::succeeded(72, header, nonce),
                        view: device::spec_view_to_wire(id),
                        reserved: 0,
                        reserved1: 0,
                    },
                    out,
                    out_after,
                    Ok::<usize, MonadError>(size),
                ),
            }
        };
    let id = outcome->Ok_0;
    let response = PublishViewResponse {
        header: wire::ResponseHeader::succeeded(72, header, nonce),
        view: device::spec_view_to_wire(id),
        reserved: 0,
        reserved1: 0,
    };
    before.vmm.unwrap().manager.lemma_wf();
    before.vmm.unwrap().manager.law_publication_walks_as_its_draft(
        after.vmm.unwrap().manager.model(),
        draft,
        id,
        gpa,
    );
    assert(requests::answered(response, out, out_after, Ok::<usize, MonadError>(size)));
}

/// A controller is told of a processor what is so: whether it runs, the view
/// that it reports, the last epoch, the status of its last fatal event, how the
/// last message went, and the number of its last event.
pub proof fn law_processor_is_told_as_it_is<A: EptPageAllocator + Clone>(
    monitor: Monitor<A>,
    header: RequestHeader,
    nonce: u64,
    input: Seq<u8>,
    request: GetVcpuStateRequest,
    out: Seq<u8>,
    out_after: Seq<u8>,
    size: usize,
)
    requires
        requests::vcpu_request(
            monitor,
            header,
            nonce,
            input,
            out,
            out_after,
            Ok::<usize, MonadError>(size),
        ),
        request.laid_out(input, 0),
    ensures
        size == 112,
        exists|response: GetVcpuStateResponse|
            {
                let vcpu = monitor.vmm.unwrap().vcpus@[request.cpu_dense_index as int]@;
                &&& #[trigger] requests::answered(
                    response,
                    out,
                    out_after,
                    Ok::<usize, MonadError>(size),
                )
                &&& request.cpu_dense_index < monitor.vmm.unwrap().vcpus@.len()
                &&& response.header.request_id == header.request_id
                &&& response.header.session_nonce == nonce
                &&& response.cpu_dense_index == request.cpu_dense_index
                &&& response.vmx_state == if vcpu.active {
                    1int
                } else {
                    0
                }
                &&& vcpu.active_report.version % 2 == 0
                &&& response.active_view.slot == vcpu.active_report.state.id.slot
                &&& response.active_view.generation == vcpu.active_report.state.id.generation
                &&& response.last_epoch == vcpu.rendezvous_epoch
                &&& response.last_fatal == vcpu.emergency_event.status
                &&& (response.last_mailbox == 1) == (vcpu.mailbox.status is Success)
                &&& (response.last_mailbox == 0) == (vcpu.mailbox.status is Pending)
                &&& match vcpu.events {
                    Some(events) => response.event_sequence < 0xffff_ffff_ffff_ffff
                        ==> events.next_sequence == response.event_sequence + 1,
                    None => response.event_sequence == 0,
                }
            },
{
    wire::lemma_loaded(request, input, 0);
    let told = choose|told: MonadResult<crate::vmm::machine::PublicVcpuState>|
        {
            &&& #[trigger] monitor.state_told(request.cpu_dense_index, told)
            &&& match told {
                Err(error) => requests::unanswered(
                    error,
                    out,
                    out_after,
                    Ok::<usize, MonadError>(size),
                ),
                Ok(state) => exists|response: GetVcpuStateResponse|
                    {
                        &&& #[trigger] requests::tells_vcpu(response, header, nonce, state)
                        &&& requests::answered(
                            response,
                            out,
                            out_after,
                            Ok::<usize, MonadError>(size),
                        )
                    },
            }
        };
    let response = choose|response: GetVcpuStateResponse|
        {
            &&& #[trigger] requests::tells_vcpu(response, header, nonce, told->Ok_0)
            &&& requests::answered(response, out, out_after, Ok::<usize, MonadError>(size))
        };
    assert(requests::answered(response, out, out_after, Ok::<usize, MonadError>(size)));
}

/// A controller is told of the platform what was found out, the limits that
/// there are, and whether there is a session.
pub proof fn law_platform_is_told_as_it_is<A: EptPageAllocator + Clone>(
    monitor: Monitor<A>,
    found: PublicCapabilities,
    header: RequestHeader,
    nonce: u64,
    out: Seq<u8>,
    out_after: Seq<u8>,
    size: usize,
)
    requires
        requests::caps_request(
            monitor,
            Ok::<PublicCapabilities, MonadError>(found),
            header,
            nonce,
            out,
            out_after,
            Ok::<usize, MonadError>(size),
        ),
    ensures
        size == 112,
        exists|response: GetCapsResponse|
            {
                &&& #[trigger] requests::answered(
                    response,
                    out,
                    out_after,
                    Ok::<usize, MonadError>(size),
                )
                &&& response.header.request_id == header.request_id
                &&& response.header.session_nonce == nonce
                &&& response.driver_version == 2
                &&& (response.lifecycle == 0) == (monitor.lifecycle.spec_state() is Absent)
                &&& (response.lifecycle == 3) == (monitor.lifecycle.spec_state() is Running)
                &&& (response.lifecycle == 6) == (monitor.lifecycle.spec_state() is Fatal)
                &&& (response.session_available == 1) == (nonce != 0)
                &&& response.session_available <= 1
                &&& response.max_views == 8
                &&& response.max_drafts == 2
                &&& response.max_batch_edits == 64
                &&& response.max_backing_pages == 4096
                &&& monitor.vmm is None ==> {
                    &&& response.capability_bits == found.capability_bits
                    &&& response.aperture_end == found.aperture_end
                    &&& response.physaddr_width == found.max_physical_address_bits
                    &&& (response.vbs_or_hypervisor_present == 1) == found.hypervisor_present
                    &&& response.cpu_count == found.cpu_count
                }
                &&& monitor.vmm matches Some(vmm) ==> {
                    &&& response.aperture_end == vmm.aperture_end
                    &&& response.physaddr_width
                        == vmm.vcpus@[0].capabilities.max_physical_address_bits
                    &&& response.vbs_or_hypervisor_present == 0
                    &&& vmm.vcpus@.len() <= 0xffff ==> response.cpu_count == vmm.vcpus@.len()
                }
            },
{
    let told = monitor.spec_capabilities(Ok::<PublicCapabilities, MonadError>(found))->Ok_0;
    let response = choose|response: GetCapsResponse|
        {
            &&& #[trigger] requests::tells_platform(
                response,
                header,
                nonce,
                monitor.lifecycle.spec_state().spec_code(),
                told,
            )
            &&& requests::answered(response, out, out_after, Ok::<usize, MonadError>(size))
        };
    assert(requests::answered(response, out, out_after, Ok::<usize, MonadError>(size)));
}

/// The bytes of the record of a view: its name, the view that it came from, and
/// its figures, each in its place.
pub proof fn law_bytes_of_a_listed_view(bytes: Seq<u8>, offset: int, state: PublicViewState)
    requires
        requests::view_recorded(bytes, offset, state),
    ensures
        layout::number(bytes, offset, 2) == state.id.slot,
        layout::number(bytes, offset + 8, 8) == state.id.generation,
        layout::number(bytes, offset + 16, 2) == state.metadata.source.slot,
        layout::number(bytes, offset + 24, 8) == state.metadata.source.generation,
        layout::number(bytes, offset + 32, 4) == 1,
        layout::number(bytes, offset + 36, 4) == state.metadata.table_pages,
        layout::number(bytes, offset + 40, 8) == state.metadata.leaf_1g + state.metadata.leaf_2m
            + state.metadata.leaf_4k,
        layout::number(bytes, offset + 48, 8) == state.metadata.readable_pages,
        layout::number(bytes, offset + 56, 8) == state.metadata.writable_pages,
        layout::number(bytes, offset + 64, 8) == state.metadata.executable_pages,
        layout::number(bytes, offset + 72, 4) == state.metadata.backing_pages,
        layout::number(bytes, offset + 76, 4) == 4,
        layout::number(bytes, offset + 80, 8) == state.active_cpu_set@[0],
        layout::number(bytes, offset + 88, 8) == state.active_cpu_set@[1],
        layout::number(bytes, offset + 96, 8) == state.active_cpu_set@[2],
        layout::number(bytes, offset + 104, 8) == state.active_cpu_set@[3],
{
    let record = choose|record: wire::ViewRecordWire| #[trigger]
        record.laid_out(bytes, offset) && requests::tells_view(record, state);
    layout::law_layout_of_view_record_wire(record, bytes, offset);
}

/// The bytes of an event: every part of the record in its place.
pub proof fn law_bytes_of_an_event(
    bytes: Seq<u8>,
    offset: int,
    event: EventRecord,
    list: [u64; EVENT_WORDS],
)
    requires
        requests::event_recorded(bytes, offset, event),
        call_ensures(EventRecord::encode_words, (event,), list),
    ensures
        layout::number(bytes, offset, 8) == event.sequence,
        layout::number(bytes, offset + 8, 8) == event.tsc,
        layout::number(bytes, offset + 16, 8) == event.cpu_dense_index + 0x1_0000 * event.cpu_group
            + 0x1_0000_0000 * event.cpu_number + 0x100_0000_0000 * event.kind + 0x1_0000_0000_0000
            * event.access + 0x100_0000_0000_0000 * event.reserved0,
        layout::number(bytes, offset + 24, 8) == event.view_slot + 0x1_0000 * event.reserved1,
        layout::number(bytes, offset + 32, 8) == event.view_generation,
        layout::number(bytes, offset + 40, 8) == event.guest_rip,
        layout::number(bytes, offset + 48, 8) == event.guest_rsp,
        layout::number(bytes, offset + 56, 8) == event.guest_rflags,
        layout::number(bytes, offset + 64, 8) == event.qualification,
        layout::number(bytes, offset + 72, 8) == event.guest_physical_address,
        layout::number(bytes, offset + 80, 8) == event.guest_linear_address,
        layout::number(bytes, offset + 88, 8) == event.status + 0x1_0000_0000 * event.detail,
        layout::number(bytes, offset + 96, 8) == event.schema_version + 0x1_0000 * event.record_size
            + 0x1_0000_0000 * event.provenance_flags,
        layout::number(bytes, offset + 104, 8) == event.view_epoch,
        layout::number(bytes, offset + 112, 8) == event.run_id,
        layout::number(bytes, offset + 120, 8) == event.attempt_epoch,
{
    record::law_words_of_a_record(event, list);
    assert forall|w: int| 0 <= w < 16 implies #[trigger] layout::number(bytes, offset + 8 * w, 8)
        == list@[w] by {
        layout::law_numbers_have_their_lowest_byte_first(bytes, offset + 8 * w);
        assert(wire::u64_at(bytes, offset + 8 * w) == event.words()[w]);
    }
    assert(layout::number(bytes, offset + 8 * 0, 8) == list@[0]);
    assert(layout::number(bytes, offset + 8 * 1, 8) == list@[1]);
    assert(layout::number(bytes, offset + 8 * 2, 8) == list@[2]);
    assert(layout::number(bytes, offset + 8 * 3, 8) == list@[3]);
    assert(layout::number(bytes, offset + 8 * 4, 8) == list@[4]);
    assert(layout::number(bytes, offset + 8 * 5, 8) == list@[5]);
    assert(layout::number(bytes, offset + 8 * 6, 8) == list@[6]);
    assert(layout::number(bytes, offset + 8 * 7, 8) == list@[7]);
    assert(layout::number(bytes, offset + 8 * 8, 8) == list@[8]);
    assert(layout::number(bytes, offset + 8 * 9, 8) == list@[9]);
    assert(layout::number(bytes, offset + 8 * 10, 8) == list@[10]);
    assert(layout::number(bytes, offset + 8 * 11, 8) == list@[11]);
    assert(layout::number(bytes, offset + 8 * 12, 8) == list@[12]);
    assert(layout::number(bytes, offset + 8 * 13, 8) == list@[13]);
    assert(layout::number(bytes, offset + 8 * 14, 8) == list@[14]);
    assert(layout::number(bytes, offset + 8 * 15, 8) == list@[15]);
}

/// A failure is answered with the number of the request and every part of what
/// failed, as far as there is room for it.
pub proof fn law_failure_is_answered(
    code: u32,
    input: Seq<u8>,
    error: MonadError,
    out: Seq<u8>,
    out_after: Seq<u8>,
    completion: Completion,
)
    requires
        dispatch::failure_written(code, input, error, out, out_after, completion),
    ensures
        completion.status < 0,
        out.len() < 48 ==> completion.information == 0 && out_after == out,
        out.len() >= 48 ==> {
            &&& completion.information == 48
            &&& layout::number(out_after, 0, 2) == 2
            &&& layout::number(out_after, 4, 4) == 0
            &&& layout::number(out_after, 8, 8) == if input.len() >= 24 {
                layout::number(input, 8, 8)
            } else {
                0
            }
            &&& layout::number(out_after, 16, 8) == 0
            &&& layout::number(out_after, 24, 4) == error.phase.spec_code()
            &&& layout::number(out_after, 28, 4) == error.code.spec_code()
            &&& layout::number(out_after, 32, 2) == error.cpu_dense_index
            &&& layout::number(out_after, 36, 4) == error.operation_index
            &&& layout::number(out_after, 40, 8) == error.detail
        },
{
    layout::law_numbers_have_their_lowest_byte_first(input, 8);
    let header = wire::ResponseHeader::failed(
        dispatch::answer_size(code),
        dispatch::request_id_of(input),
        error,
    );
    layout::law_layout_of_response_header(header, out_after, 0);
}

/// The hypervisor is started as the request says: with its limit and its time,
/// and with every range that stands behind it, in order, as device memory.
pub proof fn law_start_is_as_asked(input: &[u8], nonce: u64, config: VmmStartConfig)
    requires
        call_ensures(
            start_config,
            (input, nonce),
            Ok::<VmmStartConfig, MonadError>(config),
        ),
        input@.len() >= 56,
    ensures
        config.session_nonce == nonce,
        config.aperture_limit == layout::number(input@, 24, 8),
        config.rendezvous_timeout_tsc == layout::number(input@, 32, 8),
        config.rendezvous_timeout_tsc != 0,
        config.device_ranges@.len() == layout::number(input@, 40, 4),
        forall|k: int|
            0 <= k < config.device_ranges@.len() ==> {
                let range: PhysicalRange = #[trigger] config.device_ranges@[k];
                &&& range.start == layout::number(input@, 56 + 24 * k, 8)
                &&& range.length == layout::number(input@, 56 + 24 * k + 8, 8)
                &&& range.kind is Device
                &&& range.length != 0
                &&& range.start + range.length < 0x1_0000_0000_0000_0000
            },
{
    let bytes = input@;
    let request = wire::StartVmmRequest {
        header: super::ioctl::header_at(bytes),
        aperture_limit: wire::u64_at(bytes, 24),
        rendezvous_timeout_tsc: wire::u64_at(bytes, 32),
        device_range_count: wire::u32_at(bytes, 40),
        reserved0: wire::u32_at(bytes, 44),
        reserved1: wire::u64_at(bytes, 48),
    };
    assert(request.laid_out(bytes, 0));
    wire::lemma_loaded(request, bytes, 0);
    layout::law_numbers_have_their_lowest_byte_first(bytes, 24);
    layout::law_numbers_have_their_lowest_byte_first(bytes, 32);
    layout::law_numbers_have_their_lowest_byte_first(bytes, 40);
    assert forall|k: int| 0 <= k < config.device_ranges@.len() implies {
        let range: PhysicalRange = #[trigger] config.device_ranges@[k];
        &&& range.start == layout::number(bytes, 56 + 24 * k, 8)
        &&& range.length == layout::number(bytes, 56 + 24 * k + 8, 8)
        &&& range.kind is Device
        &&& range.length != 0
        &&& range.start + range.length < 0x1_0000_0000_0000_0000
    } by {
        layout::law_numbers_have_their_lowest_byte_first(bytes, 56 + 24 * k);
        layout::law_numbers_have_their_lowest_byte_first(bytes, 56 + 24 * k + 8);
        assert(device::device_range_fault(bytes, k) is None);
        assert(config.device_ranges@[k] == device::device_range_at(bytes, k));
    }
}

/// The processors that a view is to run on are those of the words behind the
/// request, in order.
pub proof fn law_processors_are_as_asked(input: &[u8], count: u32, words: Vec<CpuSetWord>)
    requires
        call_ensures(
            cpu_words_from_wire,
            (input, count),
            Ok::<Vec<CpuSetWord>, MonadError>(words),
        ),
    ensures
        0 < count <= 4,
        words@.len() == count,
        48 + 16 * count <= input@.len(),
        forall|k: int|
            0 <= k < count ==> {
                &&& (#[trigger] words@[k]).group == layout::number(input@, 48 + 16 * k, 2)
                &&& words@[k].reserved == layout::number(input@, 48 + 16 * k + 2, 2)
                &&& words@[k].mask == layout::number(input@, 48 + 16 * k + 8, 8)
            },
{
    let bytes = input@;
    assert forall|k: int| 0 <= k < count implies {
        &&& (#[trigger] words@[k]).group == layout::number(bytes, 48 + 16 * k, 2)
        &&& words@[k].reserved == layout::number(bytes, 48 + 16 * k + 2, 2)
        &&& words@[k].mask == layout::number(bytes, 48 + 16 * k + 8, 8)
    } by {
        let at = 48 + 16 * k;
        let word = wire::CpuSetWordWire {
            group: wire::u16_at(bytes, at),
            reserved: wire::u16_at(bytes, at + 2),
            reserved1: wire::u32_at(bytes, at + 4),
            mask: wire::u64_at(bytes, at + 8),
        };
        assert(word.laid_out(bytes, at));
        wire::lemma_loaded(word, bytes, at);
        layout::law_numbers_have_their_lowest_byte_first(bytes, at);
        layout::law_numbers_have_their_lowest_byte_first(bytes, at + 2);
        layout::law_numbers_have_their_lowest_byte_first(bytes, at + 8);
        assert(words@[k] == device::cpu_word_at(bytes, k));
    }
}

/// A change of view that was begun is the one that was asked for: to the view
/// that the request names, under that view's own pointer, in the next epoch, and
/// on exactly the processors whose bits are set in the words behind it.
pub proof fn law_change_is_begun_as_asked<A: EptPageAllocator + Clone>(
    before: Monitor<A>,
    after: Monitor<A>,
    input: Seq<u8>,
    request: ActivateViewRequest,
    now: u64,
    pending: PendingActivation,
    cpu: int,
)
    requires
        requests::activate_request(
            before,
            after,
            input,
            now,
            Ok::<PendingActivation, MonadError>(pending),
        ),
        request.laid_out(input, 0),
        0 <= cpu < before.vmm.unwrap().topology.view().len() <= 256,
        before.vmm.unwrap().topology.view()[cpu].number < 64,
    ensures
        ({
            let vmm = before.vmm.unwrap();
            let change = pending.activation@;
            let id = vmm.topology.view()[cpu];
            &&& change.target.id.slot == request.view.slot
            &&& change.target.id.generation == request.view.generation
            &&& vmm.manager.model().published[request.view.slot as int] is Some
            &&& change.target.eptp == vmm.manager.model().view_at(
                request.view.slot as int,
            ).model.eptp()
            &&& change.epoch == vmm.epoch + 1
            &&& change.deadline_tsc == now + vmm.rendezvous_tsc_budget
            &&& change.participant_count == vmm.vcpus@.len()
            &&& change.targets[cpu] <==> exists|k: int|
                0 <= k < request.cpu_word_count && #[trigger] names_processor(input, k, id)
            &&& after.vmm.unwrap().manager == vmm.manager
        }),
{
    wire::lemma_loaded(request, input, 0);
    let vmm = before.vmm.unwrap();
    let ids = vmm.topology.view();
    let id = ids[cpu];
    let words = Seq::new(request.cpu_word_count as nat, |k: int| device::cpu_word_at(input, k));
    assert forall|k: int| 0 <= k < words.len() implies topology::word_names(#[trigger] words[k], id)
        == names_processor(input, k, id) by {
        lemma_word_read(input, k);
        topology::law_mask_names_its_bits(words[k].mask, id.number);
    }
    let named = activation::named(ids, words);
    assert(named[cpu] == topology::chosen(words, words.len() as int, id));
    assert(pending.activation@.targets[cpu] == named[cpu]);
    if named[cpu] {
        let k = choose|k: int| 0 <= k < words.len() && topology::word_names(#[trigger] words[k], id);
        assert(names_processor(input, k, id));
    }
    if exists|k: int| 0 <= k < request.cpu_word_count && #[trigger] names_processor(input, k, id) {
        let k = choose|k: int|
            0 <= k < request.cpu_word_count && #[trigger] names_processor(input, k, id);
        assert(topology::word_names(words[k], id));
    }
}

/// Whether a word behind a request to change the view names a processor: its
/// group is the processor's, and the bit with the processor's number is set.
pub open spec fn names_processor(input: Seq<u8>, k: int, id: CpuId) -> bool {
    &&& layout::number(input, 48 + 16 * k, 2) == id.group
    &&& (layout::number(input, 48 + 16 * k + 8, 8) / vstd::arithmetic::power2::pow2(
        id.number as nat,
    ) as int) % 2 == 1
}

proof fn lemma_word_read(bytes: Seq<u8>, k: int)
    ensures
        device::cpu_word_at(bytes, k).group == layout::number(bytes, 48 + 16 * k, 2),
        device::cpu_word_at(bytes, k).mask == layout::number(bytes, 48 + 16 * k + 8, 8),
{
    let at = 48 + 16 * k;
    let word = wire::CpuSetWordWire {
        group: wire::u16_at(bytes, at),
        reserved: wire::u16_at(bytes, at + 2),
        reserved1: wire::u32_at(bytes, at + 4),
        mask: wire::u64_at(bytes, at + 8),
    };
    assert(word.laid_out(bytes, at));
    wire::lemma_loaded(word, bytes, at);
    layout::law_numbers_have_their_lowest_byte_first(bytes, at);
    layout::law_numbers_have_their_lowest_byte_first(bytes, at + 8);
}

} // verus!
