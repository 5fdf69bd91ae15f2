//! What was published stays: no operation of a manager changes a publication,
//! nor a byte of what it maps.

use vstd::prelude::*;

use super::address::GuestPhysicalAddress;
use super::backing;
use super::backing::{BackingId, BackingPageReference};
use super::manager;
use super::manager::ManagerModel;
use super::page::EptPageAllocator;
use super::view::{DraftEdit, DraftId, ViewId, MAX_PUBLISHED_VIEWS};
use crate::error::MonadResult;

verus! {

broadcast use super::address::group_host_addresses;

/// An operation of a manager, with what it came to.
pub enum Operation {
    Create(ViewId, MonadResult<DraftId>),
    Discard(DraftId, MonadResult<()>),
    Apply(DraftId, Seq<DraftEdit>, MonadResult<()>),
    Publish(DraftId, MonadResult<ViewId>),
    Allocate(u32, bool, MonadResult<BackingId>),
    Write(BackingId, usize, Seq<u8>, MonadResult<()>),
    Free(BackingId, MonadResult<()>),
    Register(BackingId, u32, MonadResult<GuestPhysicalAddress>),
}

/// What an operation makes of a manager.
pub open spec fn carried_out<A: EptPageAllocator>(
    before: ManagerModel,
    after: ManagerModel,
    operation: Operation,
) -> bool {
    match operation {
        Operation::Create(source, result) => manager::create_effect::<A>(
            before,
            after,
            source,
            result,
        ),
        Operation::Discard(id, result) => manager::discard_effect(before, after, id, result),
        Operation::Apply(id, edits, result) => manager::batch_effect::<A>(
            before,
            after,
            id,
            edits,
            result,
        ),
        Operation::Publish(id, result) => manager::publish_effect(before, after, id, result),
        Operation::Allocate(pages, immutable, result) => manager::allocate_effect::<A>(
            before,
            after,
            pages,
            immutable,
            result,
        ),
        Operation::Write(id, offset, data, result) => manager::write_effect(
            before,
            after,
            id,
            offset,
            data,
            result,
        ),
        Operation::Free(id, result) => manager::free_effect(before, after, id, result),
        Operation::Register(id, page, result) => manager::register_effect(
            before,
            after,
            id,
            page,
            result,
        ),
    }
}

/// A page that a publication takes from a backing.
pub open spec fn maps_backing(model: ManagerModel, p: int, page: u64) -> bool {
    &&& model.published[p] is Some
    &&& model.view_at(p).model.overrides.contains_key(page)
    &&& model.view_at(p).model.overrides[page].backing is Some
}

/// The backing page that a publication maps there.
pub open spec fn mapped(model: ManagerModel, p: int, page: u64) -> BackingPageReference {
    model.view_at(p).model.overrides[page].backing.unwrap()
}

/// The backing is there, where and as it was.
pub open spec fn same_memory(before: ManagerModel, after: ManagerModel, slot: int) -> bool {
    &&& before.backings[slot].object is Some
    &&& after.backings[slot].object is Some
    &&& after.backings[slot].generation == before.backings[slot].generation
    &&& backing::object_at(after.backings, slot).id == backing::object_at(before.backings, slot).id
    &&& backing::object_at(after.backings, slot).hpas == backing::object_at(
        before.backings,
        slot,
    ).hpas
    &&& backing::object_at(after.backings, slot).contents == backing::object_at(
        before.backings,
        slot,
    ).contents
}

/// No operation changes a publication, nor where what it maps lies, nor a byte
/// of it.
pub proof fn law_publication_is_immutable<A: EptPageAllocator>(
    before: ManagerModel,
    after: ManagerModel,
    operation: Operation,
    p: int,
    page: u64,
)
    requires
        before.wf(),
        carried_out::<A>(before, after, operation),
        0 <= p < before.published.len(),
        before.published[p] is Some,
    ensures
        after.published.len() == before.published.len(),
        after.published[p] == before.published[p],
        maps_backing(before, p, page) ==> same_memory(
            before,
            after,
            mapped(before, p, page).backing_id.slot as int,
        ),
{
    if maps_backing(before, p, page) {
        let reference = mapped(before, p, page);
        let slot = reference.backing_id.slot as int;
        assert(manager::published_maps(before.published)[p] == Some(
            before.view_at(p).model.overrides,
        ));
        manager::law_mapped_backing_is_kept(before, p, true, page);
        assert(before.backings[slot].object is Some);
        match operation {
            Operation::Write(id, offset, data, result) => {
                manager::law_published_backing_is_immutable(before, p, page, offset, data.len());
            },
            _ => {},
        }
    }
    match operation {
        Operation::Create(_, _) => {
            if manager::can_draft(before.drafts[0]) {
                assert(manager::is_first_draft(before.drafts, 0));
            } else if manager::can_draft(before.drafts[1]) {
                assert(manager::is_first_draft(before.drafts, 1));
            }
        },
        Operation::Publish(id, result) => {
            if before.next_publish_slot < MAX_PUBLISHED_VIEWS {
                assert(before.published[before.next_publish_slot as int] is None);
            }
        },
        Operation::Allocate(pages, immutable, result) => {
            if exists|i: int| backing::is_first_free(before.backings, i) {
                let i = choose|i: int| backing::is_first_free(before.backings, i);
                assert(backing::is_first_free(before.backings, i));
            } else {
                assert forall|k: int| 0 <= k < before.backings.len() implies !backing::is_free(
                    #[trigger] before.backings[k],
                ) by {
                    manager::lemma_none_free(before.backings, k);
                }
            }
        },
        _ => {},
    }
}

/// A history of a manager: one operation after the other.
pub open spec fn is_history<A: EptPageAllocator>(
    states: Seq<ManagerModel>,
    operations: Seq<Operation>,
) -> bool {
    &&& states.len() == operations.len() + 1
    &&& forall|k: int| 0 <= k < states.len() ==> (#[trigger] states[k]).wf()
    &&& forall|k: int|
        0 <= k < operations.len() ==> carried_out::<A>(
            states[k],
            states[k + 1],
            #[trigger] operations[k],
        )
}

/// A publication stays as it is, with every byte of what it maps, through
/// whatever is asked of its manager.
pub proof fn law_publication_outlasts_every_history<A: EptPageAllocator>(
    states: Seq<ManagerModel>,
    operations: Seq<Operation>,
    from: int,
    to: int,
    p: int,
    page: u64,
)
    requires
        is_history::<A>(states, operations),
        0 <= from <= to < states.len(),
        0 <= p < states[from].published.len(),
        states[from].published[p] is Some,
    ensures
        p < states[to].published.len(),
        states[to].published[p] == states[from].published[p],
        maps_backing(states[from], p, page) ==> same_memory(
            states[from],
            states[to],
            mapped(states[from], p, page).backing_id.slot as int,
        ),
    decreases to - from,
{
    if from < to {
        law_publication_outlasts_every_history::<A>(states, operations, from, to - 1, p, page);
        let before = states[to - 1];
        assert(carried_out::<A>(before, states[to], operations[to - 1]));
        law_publication_is_immutable::<A>(before, states[to], operations[to - 1], p, page);
    } else if maps_backing(states[from], p, page) {
        assert(manager::published_maps(states[from].published)[p] == Some(
            states[from].view_at(p).model.overrides,
        ));
        manager::law_mapped_backing_is_kept(states[from], p, true, page);
    }
}

} // verus!
