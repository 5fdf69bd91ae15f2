//! Names: which ones a manager gives out, and which ones it takes over its whole
//! history; and when what they name can go.

use vstd::prelude::*;

use super::account;
use super::account::Overrides;
use super::address::GuestPhysicalAddress;
use super::backing;
use super::backing::{BackingId, BackingPageReference, BackingState, SlotModel};
use super::entry::EptMemoryType;
use super::manager;
use super::manager::ManagerModel;
use super::page::EptPageAllocator;
use super::permanence;
use super::permanence::Operation;
use super::view;
use super::view::{DraftId, ViewId};
use super::walker::WalkResult;
use crate::error::{ErrorCode, ErrorPhase, MonadError, MonadResult};

verus! {

broadcast use super::address::group_host_addresses;

/// What a name is refused with once what it named is gone.
pub open spec fn gone(generation: u64) -> MonadError {
    MonadError::new(ErrorPhase::DraftEdit, ErrorCode::StaleHandle, generation)
}

/// Whether a view maps a page of a backing.
pub open spec fn maps_page(views: Seq<Overrides>, k: int, page: u64, id: BackingId) -> bool {
    &&& 0 <= k < views.len()
    &&& views[k] is Some
    &&& views[k].unwrap().contains_key(page)
    &&& views[k].unwrap()[page].backing is Some
    &&& views[k].unwrap()[page].backing.unwrap().backing_id == id
}

/// Whether some view maps some page of a backing.
pub open spec fn is_mapped(views: Seq<Overrides>, id: BackingId) -> bool {
    exists|k: int, page: u64| #[trigger] maps_page(views, k, page, id)
}

proof fn lemma_some_use(views: Seq<Overrides>, slot: int) -> (k: int)
    requires
        account::uses(views, slot) > 0,
    ensures
        0 <= k < views.len(),
        account::used_by(views[k], slot) > 0,
    decreases views.len(),
{
    let last = views.len() - 1;
    if account::used_by(views.last(), slot) > 0 {
        last
    } else {
        let k = lemma_some_use(views.drop_last(), slot);
        assert(views.drop_last()[k] == views[k]);
        k
    }
}

/// A live backing is counted exactly while some view maps a page of it.
proof fn lemma_counted_while_mapped(
    slots: Seq<SlotModel>,
    views: Seq<Overrides>,
    nonce: u64,
    id: BackingId,
)
    requires
        backing::slots_ok(slots),
        account::all_backed(slots, views, nonce),
        backing::lookup(slots, id, nonce) is Ok,
    ensures
        account::uses(views, id.slot as int) > 0 <==> is_mapped(views, id),
{
    let i = id.slot as int;
    if account::uses(views, i) > 0 {
        let k = lemma_some_use(views, i);
        let overrides = views[k].unwrap();
        assert(account::backed(slots, overrides, nonce));
        account::lemma_used_bound(slots, overrides, nonce, i);
        let pages = account::used_pages(overrides, i);
        assert(!pages.is_empty()) by {
            if pages.is_empty() {
                assert(pages =~= Set::<BackingPageReference>::empty());
            }
        }
        let reference = pages.choose();
        assert(pages.contains(reference));
        assert(view::references(overrides).contains(reference));
        let page = choose|page: u64| #[trigger]
            overrides.contains_key(page) && overrides[page].backing == Some(reference);
        assert(overrides.contains_key(page));
        assert(backing::page_address(slots, reference, nonce) is Ok);
        assert(reference.backing_id == id);
        assert(maps_page(views, k, page, id));
    }
    if is_mapped(views, id) {
        let (k, page) = choose|k: int, page: u64| #[trigger] maps_page(views, k, page, id);
        let overrides = views[k].unwrap();
        let reference = overrides[page].backing.unwrap();
        assert(account::backed(slots, overrides, nonce));
        account::lemma_used_bound(slots, overrides, nonce, i);
        let pages = account::used_pages(overrides, i);
        assert(view::references(overrides).contains(reference));
        assert(pages.contains(reference));
        if pages.len() == 0 {
            pages.lemma_len0_is_empty();
        }
        account::lemma_uses_update(views, k, None, i);
    }
}

/// A live backing can be freed exactly when no draft and no publication maps a
/// page of it and none of its pages is a target; a refusal changes nothing, and
/// a freed backing is named no more.
pub proof fn law_backing_is_freed_when_unused(
    before: ManagerModel,
    after: ManagerModel,
    id: BackingId,
    result: MonadResult<()>,
)
    requires
        before.wf(),
        manager::free_effect(before, after, id, result),
        backing::lookup(before.backings, id, before.session_nonce) is Ok,
    ensures
        result is Ok <==> {
            &&& !is_mapped(manager::draft_maps(before.drafts), id)
            &&& !is_mapped(manager::published_maps(before.published), id)
            &&& !account::holds_target(before.targets, id)
        },
        result matches Err(error) ==> {
            &&& error.phase == ErrorPhase::DraftEdit
            &&& error.code == ErrorCode::BackingStillReferenced
            &&& after == before
        },
        result is Ok ==> backing::lookup(after.backings, id, after.session_nonce) == Err::<
            int,
            MonadError,
        >(gone(id.generation)),
{
    let slots = before.backings;
    let i = id.slot as int;
    let object = backing::object_at(slots, i);
    lemma_counted_while_mapped(
        slots,
        manager::draft_maps(before.drafts),
        before.session_nonce,
        id,
    );
    lemma_counted_while_mapped(
        slots,
        manager::published_maps(before.published),
        before.session_nonce,
        id,
    );
    assert(backing::slot_ok(slots[i], i));
    if account::holds_target(before.targets, id) {
        let k = choose|k: int|
            0 <= k < before.targets.len() && (#[trigger] before.targets[k]).1.backing_id == id;
        assert(object.target_pinned);
    }
    if object.target_pinned {
        assert(account::holds_target(before.targets, object.id));
        let k = choose|k: int|
            0 <= k < before.targets.len() && (#[trigger] before.targets[k]).1.backing_id
                == object.id;
        assert(backing::page_address(slots, before.targets[k].1, before.session_nonce) is Ok);
        assert(object.id == id);
    }
}

/// A pinned object stays, and stays pinned.
pub open spec fn stays_pinned(before: SlotModel, after: SlotModel) -> bool {
    before.object is Some && before.object.unwrap().target_pinned ==> {
        &&& after.object is Some
        &&& after.object.unwrap().target_pinned
        &&& after.object.unwrap().id == before.object.unwrap().id
        &&& after.generation == before.generation
    }
}

/// Whether an operation gave a backing a name.
pub open spec fn gives_backing(operation: Operation, id: BackingId) -> bool {
    operation matches Operation::Allocate(_, _, Ok(given)) && given == id
}

/// Whether an operation gave a draft a name.
pub open spec fn gives_draft(operation: Operation, id: DraftId) -> bool {
    operation matches Operation::Create(_, Ok(given)) && given == id
}

/// What an operation does to the slot of a backing: the generation never falls,
/// and nothing appears in a generation that was there before.
proof fn lemma_backing_slot<A: EptPageAllocator>(
    before: ManagerModel,
    after: ManagerModel,
    operation: Operation,
    i: int,
)
    requires
        before.wf(),
        permanence::carried_out::<A>(before, after, operation),
        0 <= i < before.backings.len(),
    ensures
        after.session_nonce == before.session_nonce,
        after.backings.len() == before.backings.len(),
        after.backings[i].generation >= before.backings[i].generation,
        after.backings[i].generation == before.backings[i].generation && after.backings[i].object
            is Some ==> before.backings[i].object is Some,
        operation matches Operation::Allocate(_, _, Ok(id)) ==> id.slot == i ==> {
            &&& id.generation == before.backings[i].generation + 1
            &&& id.generation == after.backings[i].generation
            &&& id.session_nonce == before.session_nonce
            &&& after.backings[i].object is Some
        },
        after.backings[i].object is Some && !(before.backings[i].object is Some
            && after.backings[i].generation == before.backings[i].generation) ==> {
            &&& operation matches Operation::Allocate(_, _, Ok(id))
            &&& id.slot == i
            &&& id.generation == after.backings[i].generation
        },
        stays_pinned(before.backings[i], after.backings[i]),
{
    match operation {
        Operation::Create(_, _) => {
            if manager::can_draft(before.drafts[0]) {
                assert(manager::is_first_draft(before.drafts, 0));
            } else if manager::can_draft(before.drafts[1]) {
                assert(manager::is_first_draft(before.drafts, 1));
            }
        },
        Operation::Allocate(_, _, _) => {
            if exists|k: int| backing::is_first_free(before.backings, k) {
                let k = choose|k: int| backing::is_first_free(before.backings, k);
                assert(backing::is_first_free(before.backings, k));
            } else {
                assert forall|k: int| 0 <= k < before.backings.len() implies !backing::is_free(
                    #[trigger] before.backings[k],
                ) by {
                    manager::lemma_none_free(before.backings, k);
                }
            }
        },
        _ => {},
    }
}

/// What an operation does to a slot for drafts.
proof fn lemma_draft_slot<A: EptPageAllocator>(
    before: ManagerModel,
    after: ManagerModel,
    operation: Operation,
    i: int,
)
    requires
        before.wf(),
        permanence::carried_out::<A>(before, after, operation),
        0 <= i < before.drafts.len(),
    ensures
        after.session_nonce == before.session_nonce,
        after.drafts.len() == before.drafts.len(),
        after.drafts[i].generation >= before.drafts[i].generation,
        after.drafts[i].generation == before.drafts[i].generation && after.drafts[i].draft is Some
            ==> before.drafts[i].draft is Some,
        operation matches Operation::Create(_, Ok(id)) ==> id.slot == i ==> {
            &&& id.generation == before.drafts[i].generation + 1
            &&& id.generation == after.drafts[i].generation
            &&& id.session_nonce == before.session_nonce
            &&& id.reserved == 0
            &&& after.drafts[i].draft is Some
        },
        after.drafts[i].draft is Some && !(before.drafts[i].draft is Some
            && after.drafts[i].generation == before.drafts[i].generation) ==> {
            &&& operation matches Operation::Create(_, Ok(id))
            &&& id.slot == i
            &&& id.generation == after.drafts[i].generation
        },
        operation matches Operation::Create(_, Ok(id)) ==> id.slot < before.drafts.len(),
{
    match operation {
        Operation::Create(_, _) => {
            if manager::can_draft(before.drafts[0]) {
                assert(manager::is_first_draft(before.drafts, 0));
            } else if manager::can_draft(before.drafts[1]) {
                assert(manager::is_first_draft(before.drafts, 1));
            }
        },
        _ => {},
    }
}

/// Where an allocation that succeeds puts its object.
proof fn lemma_allocated_slot<A: EptPageAllocator>(
    before: ManagerModel,
    after: ManagerModel,
    operation: Operation,
)
    requires
        before.wf(),
        permanence::carried_out::<A>(before, after, operation),
    ensures
        operation matches Operation::Allocate(_, _, Ok(id)) ==> id.slot < before.backings.len(),
{
    if let Operation::Allocate(pages, _, Ok(id)) = operation {
        if exists|k: int| backing::is_first_free(before.backings, k) {
            let k = choose|k: int| backing::is_first_free(before.backings, k);
            assert(backing::is_first_free(before.backings, k));
        } else {
            assert forall|k: int| 0 <= k < before.backings.len() implies !backing::is_free(
                #[trigger] before.backings[k],
            ) by {
                manager::lemma_none_free(before.backings, k);
            }
        }
    }
}

/// Over a history the generation of a slot never falls, and nothing appears in a
/// generation that was there before.
proof fn lemma_generations<A: EptPageAllocator>(
    states: Seq<ManagerModel>,
    operations: Seq<Operation>,
    from: int,
    to: int,
    i: int,
    d: int,
)
    requires
        permanence::is_history::<A>(states, operations),
        0 <= from <= to < states.len(),
        0 <= i < states[from].backings.len(),
        0 <= d < states[from].drafts.len(),
    ensures
        states[to].session_nonce == states[from].session_nonce,
        states[to].backings.len() == states[from].backings.len(),
        states[to].backings[i].generation >= states[from].backings[i].generation,
        states[to].backings[i].generation == states[from].backings[i].generation
            && states[to].backings[i].object is Some ==> states[from].backings[i].object is Some,
        stays_pinned(states[from].backings[i], states[to].backings[i]),
        states[to].drafts.len() == states[from].drafts.len(),
        states[to].drafts[d].generation >= states[from].drafts[d].generation,
        states[to].drafts[d].generation == states[from].drafts[d].generation
            && states[to].drafts[d].draft is Some ==> states[from].drafts[d].draft is Some,
    decreases to - from,
{
    if from < to {
        lemma_generations::<A>(states, operations, from, to - 1, i, d);
        assert(permanence::carried_out::<A>(
            states[to - 1],
            states[to],
            operations[to - 1],
        ));
        lemma_backing_slot::<A>(states[to - 1], states[to], operations[to - 1], i);
        lemma_draft_slot::<A>(states[to - 1], states[to], operations[to - 1], d);
    }
}

/// No name is given to two backings, and none to two drafts.
pub proof fn law_names_are_given_once<A: EptPageAllocator>(
    states: Seq<ManagerModel>,
    operations: Seq<Operation>,
    j: int,
    k: int,
)
    requires
        permanence::is_history::<A>(states, operations),
        0 <= j < k < operations.len(),
    ensures
        forall|id: BackingId|
            !(gives_backing(operations[j], id) && #[trigger] gives_backing(operations[k], id)),
        forall|id: DraftId|
            !(gives_draft(operations[j], id) && #[trigger] gives_draft(operations[k], id)),
{
    assert(permanence::carried_out::<A>(states[j], states[j + 1], operations[j]));
    assert(permanence::carried_out::<A>(states[k], states[k + 1], operations[k]));
    assert(states[j].wf() && states[k].wf());
    lemma_allocated_slot::<A>(states[j], states[j + 1], operations[j]);
    if let Operation::Allocate(_, _, Ok(first)) = operations[j] {
        if let Operation::Allocate(_, _, Ok(second)) = operations[k] {
            if first == second {
                let i = first.slot as int;
                lemma_backing_slot::<A>(states[j], states[j + 1], operations[j], i);
                lemma_generations::<A>(states, operations, j + 1, k, i, 0);
                lemma_backing_slot::<A>(states[k], states[k + 1], operations[k], i);
            }
        }
    }
    if let Operation::Create(_, Ok(first)) = operations[j] {
        if let Operation::Create(_, Ok(second)) = operations[k] {
            if first == second {
                let d = first.slot as int;
                lemma_draft_slot::<A>(states[j], states[j + 1], operations[j], 0);
                lemma_draft_slot::<A>(states[j], states[j + 1], operations[j], d);
                assert(backing::slots_ok(states[j].backings));
                lemma_generations::<A>(states, operations, j + 1, k, 0, d);
                lemma_draft_slot::<A>(states[k], states[k + 1], operations[k], d);
            }
        }
    }
}

/// The name of a freed backing stays dead, also once its slot is used again.
pub proof fn law_freed_name_stays_dead<A: EptPageAllocator>(
    states: Seq<ManagerModel>,
    operations: Seq<Operation>,
    freed: int,
    later: int,
    id: BackingId,
)
    requires
        permanence::is_history::<A>(states, operations),
        0 <= freed < later < states.len(),
        operations[freed] == Operation::Free(id, Ok(())),
    ensures
        backing::lookup(states[later].backings, id, states[later].session_nonce) == Err::<
            int,
            MonadError,
        >(gone(id.generation)),
{
    let i = id.slot as int;
    assert(permanence::carried_out::<A>(states[freed], states[freed + 1], operations[freed]));
    assert(states[freed].wf());
    lemma_generations::<A>(states, operations, freed + 1, later, i, 0);
}

/// The name of a draft that was dropped or published stays dead.
pub proof fn law_spent_draft_stays_dead<A: EptPageAllocator>(
    states: Seq<ManagerModel>,
    operations: Seq<Operation>,
    spent: int,
    later: int,
    id: DraftId,
)
    requires
        permanence::is_history::<A>(states, operations),
        0 <= spent < later < states.len(),
        ({
            ||| operations[spent] matches Operation::Discard(named, _) && named == id
                && states[spent].find_draft(id) is Ok
            ||| operations[spent] matches Operation::Publish(named, Ok(_)) && named == id
        }),
    ensures
        states[later].find_draft(id) == Err::<int, MonadError>(gone(id.generation)),
{
    let d = id.slot as int;
    assert(permanence::carried_out::<A>(states[spent], states[spent + 1], operations[spent]));
    assert(states[spent].wf());
    assert(backing::slots_ok(states[spent].backings));
    lemma_generations::<A>(states, operations, spent + 1, later, 0, d);
}

/// A manager that began empty takes the name of a backing only if it gave it.
pub proof fn law_accepted_backing_was_given<A: EptPageAllocator>(
    states: Seq<ManagerModel>,
    operations: Seq<Operation>,
    at: int,
    id: BackingId,
)
    requires
        permanence::is_history::<A>(states, operations),
        0 <= at < states.len(),
        forall|i: int|
            0 <= i < states[0].backings.len() ==> (#[trigger] states[0].backings[i]).object
                is None,
        backing::lookup(states[at].backings, id, states[at].session_nonce) is Ok,
    ensures
        exists|k: int| 0 <= k < at && gives_backing(#[trigger] operations[k], id),
    decreases at,
{
    let i = id.slot as int;
    if at == 0 {
        assert(states[0].backings[i].object is None);
    } else {
        let before = states[at - 1];
        assert(permanence::carried_out::<A>(before, states[at], operations[at - 1]));
        assert(before.wf() && states[at].wf());
        assert(before.backings.len() == states[at].backings.len()) by {
            lemma_backing_slot::<A>(before, states[at], operations[at - 1], 0);
        }
        lemma_backing_slot::<A>(before, states[at], operations[at - 1], i);
        if backing::lookup(before.backings, id, before.session_nonce) is Ok {
            law_accepted_backing_was_given::<A>(states, operations, at - 1, id);
        } else {
            assert(gives_backing(operations[at - 1], id));
        }
    }
}

/// A manager that began empty takes the name of a draft only if it gave it.
pub proof fn law_accepted_draft_was_given<A: EptPageAllocator>(
    states: Seq<ManagerModel>,
    operations: Seq<Operation>,
    at: int,
    id: DraftId,
)
    requires
        permanence::is_history::<A>(states, operations),
        0 <= at < states.len(),
        forall|d: int|
            0 <= d < states[0].drafts.len() ==> (#[trigger] states[0].drafts[d]).draft is None,
        states[at].find_draft(id) is Ok,
    ensures
        exists|k: int| 0 <= k < at && gives_draft(#[trigger] operations[k], id),
    decreases at,
{
    let d = id.slot as int;
    if at == 0 {
        assert(states[0].drafts[d].draft is None);
    } else {
        let before = states[at - 1];
        assert(permanence::carried_out::<A>(before, states[at], operations[at - 1]));
        assert(before.wf() && states[at].wf());
        lemma_draft_slot::<A>(before, states[at], operations[at - 1], d);
        if before.find_draft(id) is Ok {
            law_accepted_draft_was_given::<A>(states, operations, at - 1, id);
        } else {
            assert(before.drafts[d].draft is Some && states[at].drafts[d].generation
                == before.drafts[d].generation ==> before.find_draft(id) is Ok);
            assert(gives_draft(operations[at - 1], id));
        }
    }
}

/// Publishing a draft pins every backing that the draft maps a page of; the
/// backing's name stays good.
pub proof fn law_publication_pins_its_backings(
    before: ManagerModel,
    after: ManagerModel,
    id: DraftId,
    view_id: ViewId,
    backing: BackingId,
)
    requires
        before.wf(),
        manager::publish_effect(before, after, id, Ok::<ViewId, MonadError>(view_id)),
        is_mapped(
            seq![Some(before.draft_at(before.find_draft(id).unwrap()).model.overrides)],
            backing,
        ),
    ensures
        backing::lookup(after.backings, backing, after.session_nonce) == Ok::<int, MonadError>(
            backing.slot as int,
        ),
        backing::object_at(after.backings, backing.slot as int).state
            == BackingState::PublishedPinned,
{
    let k = before.find_draft(id).unwrap();
    let p = before.next_publish_slot as int;
    let overrides = before.draft_at(k).model.overrides;
    let one = seq![Some(overrides)];
    let (j, page) = choose|j: int, page: u64| #[trigger] maps_page(one, j, page, backing);
    let reference = overrides[page].backing.unwrap();
    let drafts = manager::draft_maps(before.drafts);
    assert(drafts[k] == Some(overrides));
    assert(account::backed(before.backings, overrides, before.session_nonce));
    assert(backing::page_address(before.backings, reference, before.session_nonce) is Ok);
    let views = manager::published_maps(after.published);
    assert(views =~= manager::published_maps(before.published).update(p, Some(overrides)));
    assert(account::all_backed(before.backings, views, before.session_nonce)) by {
        assert forall|i: int| 0 <= i < views.len() implies ((#[trigger] views[i]) matches Some(map)
            ==> account::backed(before.backings, map, before.session_nonce)) by {
            if i != p {
                assert(views[i] == manager::published_maps(before.published)[i]);
            }
        }
    }
    assert(maps_page(views, p, page, backing));
    lemma_counted_while_mapped(before.backings, views, before.session_nonce, backing);
}

/// Registering a page again gives the same address and changes nothing. The
/// address is the page's, which the base view maps as write-back, and the state
/// of the backing stays.
pub proof fn law_registration_is_repeatable(
    before: ManagerModel,
    after: ManagerModel,
    again: ManagerModel,
    id: BackingId,
    page_index: u32,
    address: GuestPhysicalAddress,
    second: MonadResult<GuestPhysicalAddress>,
)
    requires
        before.wf(),
        manager::register_effect(before, after, id, page_index, Ok(address)),
        manager::register_effect(after, again, id, page_index, second),
    ensures
        second == Ok::<GuestPhysicalAddress, MonadError>(address),
        again == after,
        backing::page_address(
            after.backings,
            BackingPageReference { backing_id: id, page_index },
            after.session_nonce,
        ) matches Ok(hpa) && hpa.get() == address.get(),
        before.view_at(0).model.walk(address) matches WalkResult::Mapping(mapping)
            && mapping.memory_type == EptMemoryType::WriteBack,
        backing::object_at(after.backings, id.slot as int).state == backing::object_at(
            before.backings,
            id.slot as int,
        ).state,
{
    let reference = BackingPageReference { backing_id: id, page_index };
    let hpa = backing::page_address(before.backings, reference, before.session_nonce).unwrap();
    super::address::lemma_gpa_at(hpa.get());
    super::address::lemma_gpa_is_its_number(address, GuestPhysicalAddress::at(hpa.get()));
    assert(manager::is_target(after.targets, hpa.get())) by {
        if !manager::is_target(before.targets, hpa.get()) {
            assert(after.targets[before.targets.len() as int].0 == hpa);
        }
    }
    assert(backing::page_address(after.backings, reference, after.session_nonce)
        == backing::page_address(before.backings, reference, before.session_nonce));
    assert(manager::register_fault(after, reference) is None);
    if let Ok(found) = second {
        super::address::lemma_gpa_is_its_number(found, address);
    }
}

/// A registration that fails pins nothing.
pub proof fn law_failed_registration_changes_nothing(
    before: ManagerModel,
    after: ManagerModel,
    id: BackingId,
    page_index: u32,
    error: MonadError,
)
    requires
        manager::register_effect(before, after, id, page_index, Err(error)),
    ensures
        after == before,
{
}

/// From its registration on, a backing is never freed: through whatever is asked
/// of the manager it stays, and every request to free it is refused. This holds
/// of a page whose address no other backing had registered before.
pub proof fn law_registered_backing_stays<A: EptPageAllocator>(
    states: Seq<ManagerModel>,
    operations: Seq<Operation>,
    registered: int,
    later: int,
    id: BackingId,
    page_index: u32,
    address: GuestPhysicalAddress,
    after: ManagerModel,
    result: MonadResult<()>,
)
    requires
        permanence::is_history::<A>(states, operations),
        0 <= registered < later < states.len(),
        operations[registered] == Operation::Register(id, page_index, Ok(address)),
        forall|k: int|
            0 <= k < states[registered].targets.len() && (
            #[trigger] states[registered].targets[k]).0.get() == address.get()
                ==> states[registered].targets[k].1.backing_id == id,
        manager::free_effect(states[later], after, id, result),
    ensures
        backing::lookup(states[later].backings, id, states[later].session_nonce) is Ok,
        result matches Err(error) && error.code == ErrorCode::BackingStillReferenced,
        after == states[later],
{
    let i = id.slot as int;
    let before = states[registered];
    let then = states[registered + 1];
    assert(permanence::carried_out::<A>(before, then, operations[registered]));
    assert(before.wf() && then.wf());
    let hpa = backing::page_address(
        before.backings,
        BackingPageReference { backing_id: id, page_index },
        before.session_nonce,
    ).unwrap();
    if manager::is_target(before.targets, hpa.get()) {
        let k = choose|k: int|
            0 <= k < before.targets.len() && (#[trigger] before.targets[k]).0.get() == hpa.get();
        assert(before.targets[k].1.backing_id == id);
        assert(backing::object_at(before.backings, i).target_pinned);
    }
    lemma_generations::<A>(states, operations, registered + 1, later, i, 0);
}

} // verus!
