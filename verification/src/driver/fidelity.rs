//! What a controller asked for is what it gets: requests reach the views with
//! every part of what they say, and questions are answered with it.

use vstd::prelude::*;

use super::device;
use super::device::{
    edit_from_wire, leaf_size_log2, permissions_from_wire, permissions_to_wire,
};
use super::requests;
use super::wire;
use super::wire::{
    ApplyEditBatchRequest, EditWire, Pod, QueryMappingRequest, QueryMappingResponse, RequestHeader,
};
use crate::bits;
use crate::ept::address;
use crate::ept::address::{EptPermissions, GuestPhysicalAddress};
use crate::ept::entry::EptLeafSize;
use crate::ept::manager;
use crate::ept::page::EptPageAllocator;
use crate::ept::view;
use crate::ept::view::{BackingMemoryType, DraftEdit};
use crate::ept::walker::{MappingSource, ResolvedMapping, WalkResult};
use crate::error::{MonadError, MonadResult};
use crate::vmm::machine::Monitor;

verus! {

/// Whether a byte asks for permissions that can be had: nothing but the three
/// lowest bits, and no writing without reading.
pub open spec fn askable(permissions: u8) -> bool {
    permissions < 8 && ((permissions / 2) % 2 == 1 ==> permissions % 2 == 1)
}

/// Whether permissions are those of a byte: one for reading, two for writing,
/// four for executing.
pub open spec fn asked(permissions: EptPermissions, byte: u8) -> bool {
    &&& permissions.read == (byte % 2 == 1)
    &&& permissions.write == ((byte / 2) % 2 == 1)
    &&& permissions.execute == ((byte / 4) % 2 == 1)
}

proof fn lemma_permission_byte(byte: u8, r: u8, w: u8, x: u8)
    by (bit_vector)
    requires
        r <= 1,
        w <= 1,
        x <= 1,
    ensures
        (byte & 1 != 0) == (byte % 2 == 1),
        (byte & 2 != 0) == ((byte / 2) % 2 == 1),
        (byte & 4 != 0) == ((byte / 4) % 2 == 1),
        (byte & !7u8 != 0) == (byte >= 8),
        r | (w << 1) | (x << 2) == r + 2 * w + 4 * x,
{
}

/// A byte of permissions is read bit for bit, and refused exactly when it asks
/// for what cannot be had; permissions are written as they are read.
pub proof fn law_permission_byte(
    byte: u8,
    result: MonadResult<EptPermissions>,
    permissions: EptPermissions,
    written: u8,
)
    requires
        call_ensures(permissions_from_wire, (byte,), result),
        call_ensures(permissions_to_wire, (permissions,), written),
    ensures
        result is Ok <==> askable(byte),
        result matches Ok(read) ==> asked(read, byte),
        asked(permissions, written),
        written < 8,
{
    let r = device::one_bit(permissions.read);
    let w = device::one_bit(permissions.write);
    let x = device::one_bit(permissions.execute);
    lemma_permission_byte(byte, r, w, x);
}

/// The size of a leaf is told by the number of address bits below it.
pub proof fn law_leaf_size_is_told(size: EptLeafSize, told: u8)
    requires
        call_ensures(leaf_size_log2, (size,), told),
    ensures
        told == match size {
            EptLeafSize::Size4K => 12int,
            EptLeafSize::Size2M => 21,
            EptLeafSize::Size1G => 30,
        },
{
}

/// An edit that names a backing nowhere.
pub open spec fn no_backing_named(value: EditWire) -> bool {
    &&& value.backing.slot == 0
    &&& value.backing.reserved == 0
    &&& value.backing.generation == 0
    &&& value.backing.session_nonce == 0
    &&& value.backing_page == 0
    &&& value.memory_type == 0
}

/// Whole pages inside the aperture, at least one.
pub open spec fn pages_inside(start: u64, length: u64, aperture_end: u64) -> bool {
    &&& start % 0x1000 == 0
    &&& length > 0
    &&& length % 0x1000 == 0
    &&& start + length <= aperture_end
}

/// An edit that is read says what the request said: kind one gives permissions to
/// a range, kind two maps a page to the page of the backing that was named, as
/// ordinary memory, kind three takes a range back; each with the addresses,
/// names, numbers and permissions of the request. It is read exactly when the
/// request is in order.
pub proof fn law_edit_says_what_was_asked(
    value: EditWire,
    aperture_end: u64,
    result: MonadResult<DraftEdit>,
)
    requires
        call_ensures(edit_from_wire, (value, aperture_end), result),
    ensures
        result is Ok <==> if value.kind == 1 {
            no_backing_named(value) && pages_inside(value.gpa, value.length, aperture_end)
                && askable(value.permissions)
        } else if value.kind == 2 {
            value.length == 0x1000 && value.memory_type == 6 && value.gpa % 0x1000 == 0 && askable(
                value.permissions,
            )
        } else if value.kind == 3 {
            no_backing_named(value) && value.permissions == 0 && pages_inside(
                value.gpa,
                value.length,
                aperture_end,
            )
        } else {
            false
        },
        result matches Ok(edit) ==> match edit {
            DraftEdit::SetPermissions { range, permissions } => {
                &&& value.kind == 1
                &&& range.spec_start().get() == value.gpa
                &&& range.spec_end() == value.gpa + value.length
                &&& asked(permissions, value.permissions)
            },
            DraftEdit::MapBacking4K { gpa, backing, permissions, memory_type } => {
                &&& value.kind == 2
                &&& gpa.get() == value.gpa
                &&& backing.backing_id.slot == value.backing.slot
                &&& backing.backing_id.generation == value.backing.generation
                &&& backing.backing_id.session_nonce == value.backing.session_nonce
                &&& backing.page_index == value.backing_page
                &&& asked(permissions, value.permissions)
                &&& memory_type == BackingMemoryType::WriteBack
            },
            DraftEdit::RestoreFromBase { range } => {
                &&& value.kind == 3
                &&& range.spec_start().get() == value.gpa
                &&& range.spec_end() == value.gpa + value.length
            },
        },
{
    lemma_permission_byte(value.permissions, 0, 0, 0);
}

/// Two requests to map a page that give the same edit asked for the same: the
/// guest page, the backing, its page and the permissions.
pub proof fn law_different_requests_are_different_edits(
    one: EditWire,
    other: EditWire,
    aperture_end: u64,
    edit: DraftEdit,
)
    requires
        call_ensures(edit_from_wire, (one, aperture_end), Ok::<DraftEdit, MonadError>(edit)),
        call_ensures(edit_from_wire, (other, aperture_end), Ok::<DraftEdit, MonadError>(edit)),
        one.kind == 2,
    ensures
        other.kind == 2,
        one.gpa == other.gpa,
        one.backing.slot == other.backing.slot,
        one.backing.generation == other.backing.generation,
        one.backing.session_nonce == other.backing.session_nonce,
        one.backing_page == other.backing_page,
        one.permissions == other.permissions,
{
    law_edit_says_what_was_asked(
        one,
        aperture_end,
        Ok::<DraftEdit, MonadError>(edit),
    );
    law_edit_says_what_was_asked(
        other,
        aperture_end,
        Ok::<DraftEdit, MonadError>(edit),
    );
    assert(one.permissions == one.permissions % 2 + 2 * ((one.permissions / 2) % 2) + 4 * ((
    one.permissions / 4) % 2));
    assert(other.permissions == other.permissions % 2 + 2 * ((other.permissions / 2) % 2) + 4 * ((
    other.permissions / 4) % 2));
}

/// Edits that leave a page alone leave its state.
proof fn lemma_later_edits(
    slots: Seq<crate::ept::backing::SlotModel>,
    nonce: u64,
    model: view::ViewModel,
    edits: Seq<DraftEdit>,
    k: int,
    page: u64,
)
    requires
        0 <= k <= edits.len(),
        page % 0x1000 == 0,
        forall|j: int|
            k <= j < edits.len() ==> !view::in_range(
                manager::edit_span(#[trigger] edits[j]).0,
                manager::edit_span(edits[j]).1,
                page,
            ),
    ensures
        view::state_at(
            manager::after_batch(slots, nonce, model, edits),
            model.types,
            page,
        ) == view::state_at(
            manager::after_batch(slots, nonce, model, edits.take(k)),
            model.types,
            page,
        ),
    decreases edits.len(),
{
    if edits.len() == k {
        assert(edits.take(k) =~= edits);
    } else {
        let rest = edits.drop_last();
        assert(rest.take(k) =~= edits.take(k));
        assert forall|j: int| k <= j < rest.len() implies !view::in_range(
            manager::edit_span(#[trigger] rest[j]).0,
            manager::edit_span(rest[j]).1,
            page,
        ) by {
            assert(rest[j] == edits[j]);
        }
        lemma_later_edits(slots, nonce, model, rest, k, page);
        let last = edits.last();
        assert(edits[edits.len() - 1] == last);
        assert(!view::in_range(manager::edit_span(last).0, manager::edit_span(last).1, page));
    }
}

/// What a page of a draft is after a batch, of which one edit covered it and no
/// later one did.
proof fn lemma_page_after<A: EptPageAllocator + Clone>(
    before: Monitor<A>,
    after: Monitor<A>,
    input: Seq<u8>,
    batch: ApplyEditBatchRequest,
    k: int,
    value: EditWire,
    page: u64,
) -> (d: int)
    requires
        before.wf(),
        after.wf(),
        requests::edit_request(before, after, input, Ok::<(), MonadError>(())),
        batch.laid_out(input, 0),
        0 <= k < batch.edit_count,
        value.laid_out(input, 56 + 64 * k),
        page % 0x1000 == 0,
        value.gpa <= page < value.gpa + value.length,
        forall|j: int|
            k < j < batch.edit_count ==> {
                let later = #[trigger] wire::loaded::<EditWire>(input, 56 + 64 * j);
                later.gpa + later.length <= page || later.gpa > page
            },
    ensures
        ({
            let old = before.vmm.unwrap().manager.model();
            let new = after.vmm.unwrap().manager.model();
            let state = new.draft_at(d).model.state(page);
            let slot = value.backing.slot as int;
            &&& before.refusal() is None && after.refusal() is None
            &&& new.find_draft(device::spec_draft_from_wire(batch.draft)) == Ok::<int, MonadError>(
                d,
            )
            &&& 0 <= d < new.drafts.len() && new.drafts[d].draft is Some
            &&& page < new.draft_at(d).model.aperture_end
            &&& value.permissions < 8
            &&& value.kind == 1 ==> {
                &&& asked(state.permissions, value.permissions)
                &&& k == 0 ==> {
                    let was = old.draft_at(d).model.state(page);
                    state.hpa == was.hpa && state.backing == was.backing && state.memory_type
                        == was.memory_type
                }
            }
            &&& value.kind == 2 ==> {
                &&& asked(state.permissions, value.permissions)
                &&& page == value.gpa
                &&& old.backings[slot].object is Some
                &&& value.backing_page < old.backings[slot].object.unwrap().hpas.len()
                &&& state.hpa == old.backings[slot].object.unwrap().hpas[value.backing_page as int]
                &&& state.memory_type is WriteBack
                &&& state.backing is Some
                &&& state.backing.unwrap().page_index == value.backing_page
                &&& state.backing.unwrap().backing_id.slot == value.backing.slot
                &&& state.backing.unwrap().backing_id.generation == value.backing.generation
                &&& state.backing.unwrap().backing_id.session_nonce == value.backing.session_nonce
            }
            &&& value.kind == 3 ==> {
                &&& state.permissions.read && state.permissions.write && state.permissions.execute
                &&& state.hpa == page
                &&& state.backing is None
            }
            &&& value.kind == 1 || value.kind == 2 || value.kind == 3
        }),
{
    wire::lemma_loaded(batch, input, 0);
    wire::lemma_loaded(value, input, 56 + 64 * k);
    let end = before.vmm.unwrap().manager.model().view_at(0).model.aperture_end;
    let id = device::spec_draft_from_wire(batch.draft);
    let edits = choose|edits: Seq<DraftEdit>|
        {
            &&& edits.len() == batch.edit_count
            &&& #[trigger] device::batch_says(input, edits)
            &&& crate::vmm::machine::batch_applied(
                before,
                after,
                id,
                edits,
                Ok::<(), MonadError>(()),
            )
        };
    let old = before.vmm.unwrap().manager.model();
    let new = after.vmm.unwrap().manager.model();
    let d = old.find_draft(id).unwrap();
    let draft = old.draft_at(d);
    assert(device::batch_edit_fault(input, end, k) is None);
    assert(device::record_offset::<EditWire>(56, k) == 56 + 64 * k);
    assert(device::edit_says(value, edits[k]));
    lemma_permission_byte(value.permissions, 0, 0, 0);
    assert forall|j: int| k + 1 <= j < edits.len() implies !view::in_range(
        manager::edit_span(#[trigger] edits[j]).0,
        manager::edit_span(edits[j]).1,
        page,
    ) by {
        assert(device::batch_edit_fault(input, end, j) is None);
        assert(device::record_offset::<EditWire>(56, j) == 56 + 64 * j);
        assert(device::edit_says(wire::loaded::<EditWire>(input, 56 + 64 * j), edits[j]));
    }
    lemma_later_edits(old.backings, old.session_nonce, draft.model, edits, k + 1, page);
    assert(edits.take(k + 1).drop_last() =~= edits.take(k));
    assert(edits.take(k + 1).last() == edits[k]);
    assert(manager::applies_at(old.backings, old.session_nonce, draft.model, edits, k));
    assert(k == 0 ==> edits.take(k) =~= Seq::empty());
    assert(new.find_draft(id) == Ok::<int, MonadError>(d));
    let object = old.backings[value.backing.slot as int].object.unwrap();
    address::lemma_hpa_at(object.hpas[value.backing_page as int]);
    d
}

/// Whether an answer says what a page is: its permissions, where there are any,
/// its memory type, and where it comes from.
pub open spec fn tells_page(
    response: QueryMappingResponse,
    header: RequestHeader,
    nonce: u64,
    gpa: u64,
    page: u64,
    state: view::PageState,
) -> bool {
    &&& response.header.request_id == header.request_id
    &&& response.header.session_nonce == nonce
    &&& response.permissions < 8
    &&& asked(state.permissions, response.permissions)
    &&& response.permissions == 0 ==> {
        &&& response.mapped == 0
        &&& response.source_kind == 0
        &&& response.page_offset == 0
    }
    &&& response.permissions != 0 ==> {
        &&& response.mapped == 1
        &&& response.memory_type == state.memory_type.spec_code()
        &&& match state.backing {
            Some(reference) => {
                &&& response.source_kind == 2
                &&& response.source_backing.slot == reference.backing_id.slot
                &&& response.source_backing.generation == reference.backing_id.generation
                &&& response.source_backing.session_nonce == reference.backing_id.session_nonce
                &&& response.page_offset == reference.page_index * 0x1000 + (gpa - page)
            },
            None => {
                &&& response.source_kind == 1
                &&& response.source_backing.slot == 0
                &&& response.source_backing.generation == 0
                &&& response.source_backing.session_nonce == 0
                &&& response.page_offset == gpa
            },
        }
    }
}

/// An answer that tells a mapping tells the page.
proof fn lemma_mapping_tells_page(
    response: QueryMappingResponse,
    header: RequestHeader,
    nonce: u64,
    gpa: u64,
    page: u64,
    state: view::PageState,
    mapping: ResolvedMapping,
)
    requires
        page % 0x1000 == 0,
        page <= gpa < page + 0x1000,
        requests::tells_mapping(response, header, nonce, gpa, mapping),
        state.permissions.read || state.permissions.write || state.permissions.execute,
        mapping.permissions == state.permissions,
        mapping.memory_type == state.memory_type,
        mapping.source == match state.backing {
            Some(reference) => MappingSource::Backing(reference),
            None => MappingSource::Identity,
        },
    ensures
        tells_page(response, header, nonce, gpa, page, state),
{
    bits::lemma_low_masks(gpa);
    let r = device::one_bit(state.permissions.read);
    let w = device::one_bit(state.permissions.write);
    let x = device::one_bit(state.permissions.execute);
    lemma_permission_byte(0, r, w, x);
    assert(response.permissions == r + 2 * w + 4 * x);
}

/// What a question about an address of a draft is answered with: what the page
/// is.
proof fn lemma_page_answered<A: EptPageAllocator + Clone>(
    monitor: Monitor<A>,
    header: RequestHeader,
    nonce: u64,
    question: Seq<u8>,
    query: QueryMappingRequest,
    out: Seq<u8>,
    out_after: Seq<u8>,
    answer: MonadResult<usize>,
    d: int,
    page: u64,
)
    requires
        monitor.wf(),
        monitor.refusal() is None,
        requests::query_request(monitor, header, nonce, question, out, out_after, answer),
        question.len() >= 80,
        query.laid_out(question, 0),
        query.object_kind == 2,
        requests::no_view(query.view),
        page % 0x1000 == 0,
        page <= query.gpa < page + 0x1000,
        ({
            let model = monitor.vmm.unwrap().manager.model();
            &&& model.find_draft(device::spec_draft_from_wire(query.draft)) == Ok::<int, MonadError>(
                d,
            )
            &&& 0 <= d < model.drafts.len() && model.drafts[d].draft is Some
            &&& page < model.draft_at(d).model.aperture_end
        }),
    ensures
        exists|response: QueryMappingResponse|
            {
                &&& #[trigger] requests::answered(response, out, out_after, answer)
                &&& tells_page(
                    response,
                    header,
                    nonce,
                    query.gpa,
                    page,
                    monitor.vmm.unwrap().manager.model().draft_at(d).model.state(page),
                )
            },
{
    wire::lemma_loaded(query, question, 0);
    let model = monitor.vmm.unwrap().manager.model().draft_at(d).model;
    let state = model.state(page);
    let at = choose|at: GuestPhysicalAddress|
        {
            let walk = #[trigger] requests::queried(monitor, query, at);
            &&& at.get() == query.gpa & !0xfffu64
            &&& match walk {
                Err(error) => requests::unanswered(error, out, out_after, answer),
                Ok(WalkResult::Invalid(error)) => requests::unanswered(
                    MonadError::new(
                        crate::error::ErrorPhase::DraftEdit,
                        crate::error::ErrorCode::EptVerificationFailure,
                        error.detail,
                    ),
                    out,
                    out_after,
                    answer,
                ),
                Ok(WalkResult::NotPresent { .. }) => exists|response: QueryMappingResponse|
                    {
                        &&& #[trigger] requests::tells_absence(response, header, nonce)
                        &&& requests::answered(response, out, out_after, answer)
                    },
                Ok(WalkResult::Mapping(mapping)) => exists|response: QueryMappingResponse|
                    {
                        &&& #[trigger] requests::tells_mapping(
                            response,
                            header,
                            nonce,
                            query.gpa,
                            mapping,
                        )
                        &&& requests::answered(response, out, out_after, answer)
                    },
            }
        };
    bits::lemma_low_masks(query.gpa);
    assert(at.get() == page);
    monitor.vmm.unwrap().manager.law_walk_finds_the_page(false, d, at);
    let walk = requests::queried(monitor, query, at);
    assert(walk == Ok::<WalkResult, MonadError>(model.walk(at)));
    match model.walk(at) {
        WalkResult::Mapping(mapping) => {
            let response = choose|response: QueryMappingResponse|
                {
                    &&& #[trigger] requests::tells_mapping(
                        response,
                        header,
                        nonce,
                        query.gpa,
                        mapping,
                    )
                    &&& requests::answered(response, out, out_after, answer)
                };
            lemma_mapping_tells_page(response, header, nonce, query.gpa, page, state, mapping);
            assert(requests::answered(response, out, out_after, answer));
        },
        _ => {
            let response = choose|response: QueryMappingResponse|
                {
                    &&& #[trigger] requests::tells_absence(response, header, nonce)
                    &&& requests::answered(response, out, out_after, answer)
                };
            assert(requests::answered(response, out, out_after, answer));
        },
    }
}

/// A page that a batch maps, and that no later edit of the batch touches, is
/// answered with what was asked: after the batch went through, a question about
/// any address of the page in that draft is told the backing's name, the
/// permissions of the request, ordinary memory, and the offset into the backing
/// at which the named page begins, plus the offset into the page.
pub proof fn law_mapped_page_is_answered_as_asked<A: EptPageAllocator + Clone>(
    before: Monitor<A>,
    after: Monitor<A>,
    input: Seq<u8>,
    batch: ApplyEditBatchRequest,
    k: int,
    value: EditWire,
    header: RequestHeader,
    nonce: u64,
    question: Seq<u8>,
    query: QueryMappingRequest,
    out: Seq<u8>,
    out_after: Seq<u8>,
    answer: MonadResult<usize>,
)
    requires
        before.wf(),
        after.wf(),
        requests::edit_request(before, after, input, Ok::<(), MonadError>(())),
        batch.laid_out(input, 0),
        0 <= k < batch.edit_count,
        value.laid_out(input, 56 + 64 * k),
        value.kind == 2,
        value.permissions != 0,
        forall|j: int|
            k < j < batch.edit_count ==> {
                let later = #[trigger] wire::loaded::<EditWire>(input, 56 + 64 * j);
                later.gpa + later.length <= value.gpa || later.gpa > value.gpa
            },
        requests::query_request(after, header, nonce, question, out, out_after, answer),
        question.len() >= 80,
        query.laid_out(question, 0),
        query.object_kind == 2,
        requests::no_view(query.view),
        query.draft == batch.draft,
        value.gpa <= query.gpa < value.gpa + 0x1000,
    ensures
        exists|response: QueryMappingResponse|
            {
                &&& #[trigger] requests::answered(response, out, out_after, answer)
                &&& response.mapped == 1
                &&& response.source_kind == 2
                &&& response.source_backing.slot == value.backing.slot
                &&& response.source_backing.generation == value.backing.generation
                &&& response.source_backing.session_nonce == value.backing.session_nonce
                &&& response.permissions == value.permissions
                &&& response.memory_type == 6
                &&& response.page_offset == value.backing_page * 0x1000 + (query.gpa - value.gpa)
            },
{
    let page = value.gpa;
    let end = before.vmm.unwrap().manager.model().view_at(0).model.aperture_end;
    wire::lemma_loaded(batch, input, 0);
    wire::lemma_loaded(value, input, 56 + 64 * k);
    assert(device::batch_edit_fault(input, end, k) is None);
    assert(device::record_offset::<EditWire>(56, k) == 56 + 64 * k);
    let d = lemma_page_after(before, after, input, batch, k, value, page);
    lemma_page_answered(
        after,
        header,
        nonce,
        question,
        query,
        out,
        out_after,
        answer,
        d,
        page,
    );
    let state = after.vmm.unwrap().manager.model().draft_at(d).model.state(page);
    let response = choose|response: QueryMappingResponse|
        {
            &&& #[trigger] requests::answered(response, out, out_after, answer)
            &&& tells_page(response, header, nonce, query.gpa, page, state)
        };
    lemma_same_byte(value.permissions, response.permissions);
    assert(requests::answered(response, out, out_after, answer));
}

/// A byte of permissions is told by its three lowest bits.
proof fn lemma_same_byte(one: u8, other: u8)
    requires
        one < 8,
        other < 8,
        (one % 2 == 1) == (other % 2 == 1),
        ((one / 2) % 2 == 1) == ((other / 2) % 2 == 1),
        ((one / 4) % 2 == 1) == ((other / 4) % 2 == 1),
    ensures
        one == other,
{
    assert(one == one % 2 + 2 * ((one / 2) % 2) + 4 * ((one / 4) % 2));
    assert(other == other % 2 + 2 * ((other / 2) % 2) + 4 * ((other / 4) % 2));
}

/// A page that a batch maps leads to the page of the backing that was named, and
/// to no other place.
pub proof fn law_mapped_page_leads_to_the_backing<A: EptPageAllocator + Clone>(
    before: Monitor<A>,
    after: Monitor<A>,
    input: Seq<u8>,
    batch: ApplyEditBatchRequest,
    k: int,
    value: EditWire,
    gpa: GuestPhysicalAddress,
)
    requires
        before.wf(),
        after.wf(),
        requests::edit_request(before, after, input, Ok::<(), MonadError>(())),
        batch.laid_out(input, 0),
        0 <= k < batch.edit_count,
        value.laid_out(input, 56 + 64 * k),
        value.kind == 2,
        value.permissions != 0,
        gpa.get() == value.gpa,
        forall|j: int|
            k < j < batch.edit_count ==> {
                let later = #[trigger] wire::loaded::<EditWire>(input, 56 + 64 * j);
                later.gpa + later.length <= value.gpa || later.gpa > value.gpa
            },
    ensures
        ({
            let old = before.vmm.unwrap().manager.model();
            let new = after.vmm.unwrap().manager.model();
            let object = old.backings[value.backing.slot as int].object.unwrap();
            &&& new.find_draft(device::spec_draft_from_wire(batch.draft)) is Ok
            &&& new.draft_at(
                new.find_draft(device::spec_draft_from_wire(batch.draft)).unwrap(),
            ).model.walk(gpa) matches WalkResult::Mapping(mapping) && {
                &&& mapping.gpa_page == gpa
                &&& mapping.hpa_page.get() == object.hpas[value.backing_page as int]
                &&& asked(mapping.permissions, value.permissions)
            }
        }),
{
    let end = before.vmm.unwrap().manager.model().view_at(0).model.aperture_end;
    wire::lemma_loaded(batch, input, 0);
    wire::lemma_loaded(value, input, 56 + 64 * k);
    assert(device::batch_edit_fault(input, end, k) is None);
    assert(device::record_offset::<EditWire>(56, k) == 56 + 64 * k);
    let d = lemma_page_after(before, after, input, batch, k, value, value.gpa);
    after.vmm.unwrap().manager.law_walk_finds_the_page(false, d, gpa);
}

/// A page whose permissions a batch sets is answered with those permissions, and
/// as not mapped where there are none left; a page that a batch restores is
/// answered as the guest's own, with all permissions.
pub proof fn law_changed_page_is_answered_as_asked<A: EptPageAllocator + Clone>(
    before: Monitor<A>,
    after: Monitor<A>,
    input: Seq<u8>,
    batch: ApplyEditBatchRequest,
    k: int,
    value: EditWire,
    header: RequestHeader,
    nonce: u64,
    question: Seq<u8>,
    query: QueryMappingRequest,
    out: Seq<u8>,
    out_after: Seq<u8>,
    answer: MonadResult<usize>,
    page: u64,
)
    requires
        before.wf(),
        after.wf(),
        requests::edit_request(before, after, input, Ok::<(), MonadError>(())),
        batch.laid_out(input, 0),
        0 <= k < batch.edit_count,
        value.laid_out(input, 56 + 64 * k),
        value.kind == 1 || value.kind == 3,
        page % 0x1000 == 0,
        value.gpa <= page < value.gpa + value.length,
        forall|j: int|
            k < j < batch.edit_count ==> {
                let later = #[trigger] wire::loaded::<EditWire>(input, 56 + 64 * j);
                later.gpa + later.length <= page || later.gpa > page
            },
        requests::query_request(after, header, nonce, question, out, out_after, answer),
        question.len() >= 80,
        query.laid_out(question, 0),
        query.object_kind == 2,
        requests::no_view(query.view),
        query.draft == batch.draft,
        page <= query.gpa < page + 0x1000,
    ensures
        exists|response: QueryMappingResponse|
            {
                &&& #[trigger] requests::answered(response, out, out_after, answer)
                &&& value.kind == 1 ==> {
                    &&& response.permissions == value.permissions
                    &&& (response.mapped == 1) == (value.permissions != 0)
                }
                &&& value.kind == 3 ==> {
                    &&& response.mapped == 1
                    &&& response.permissions == 7
                    &&& response.source_kind == 1
                    &&& response.source_backing.generation == 0
                    &&& response.page_offset == query.gpa
                }
            },
{
    let d = lemma_page_after(before, after, input, batch, k, value, page);
    lemma_page_answered(
        after,
        header,
        nonce,
        question,
        query,
        out,
        out_after,
        answer,
        d,
        page,
    );
    let state = after.vmm.unwrap().manager.model().draft_at(d).model.state(page);
    let response = choose|response: QueryMappingResponse|
        {
            &&& #[trigger] requests::answered(response, out, out_after, answer)
            &&& tells_page(response, header, nonce, query.gpa, page, state)
        };
    if value.kind == 1 {
        lemma_same_byte(value.permissions, response.permissions);
    } else {
        lemma_same_byte(7, response.permissions);
    }
    assert(requests::answered(response, out, out_after, answer));
}

/// A page of which a batch of one edit sets the permissions leads where it led.
pub proof fn law_permissions_move_no_page<A: EptPageAllocator + Clone>(
    before: Monitor<A>,
    after: Monitor<A>,
    input: Seq<u8>,
    batch: ApplyEditBatchRequest,
    value: EditWire,
    page: u64,
)
    requires
        before.wf(),
        after.wf(),
        requests::edit_request(before, after, input, Ok::<(), MonadError>(())),
        batch.laid_out(input, 0),
        batch.edit_count == 1,
        value.laid_out(input, 56),
        value.kind == 1,
        page % 0x1000 == 0,
        value.gpa <= page < value.gpa + value.length,
    ensures
        ({
            let old = before.vmm.unwrap().manager.model();
            let new = after.vmm.unwrap().manager.model();
            let id = device::spec_draft_from_wire(batch.draft);
            let was = old.draft_at(old.find_draft(id).unwrap()).model.state(page);
            let now = new.draft_at(new.find_draft(id).unwrap()).model.state(page);
            &&& now.hpa == was.hpa
            &&& now.backing == was.backing
            &&& now.memory_type == was.memory_type
            &&& asked(now.permissions, value.permissions)
        }),
{
    let d = lemma_page_after(before, after, input, batch, 0, value, page);
}

} // verus!
