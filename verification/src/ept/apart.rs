//! Views apart: no two views of a manager share a table, as long as the source
//! of their pages hands out no page that is still in use.

use vstd::prelude::*;

use super::manager;
use super::manager::{DraftSlotModel, ManagerModel};
use super::page;
use super::page::{EptPageAllocator, EptPageOwner};
use super::permanence;
use super::permanence::Operation;
use super::view;
use super::view::{ViewModel, MAX_PUBLISHED_VIEWS};

verus! {

/// The view in a place: the publications come first, then the drafts.
pub open spec fn view_in(model: ManagerModel, place: int) -> Option<ViewModel> {
    if 0 <= place < model.published.len() {
        match model.published[place] {
            Some(view) => Some(view.model),
            None => None,
        }
    } else if 0 <= place - model.published.len() < model.drafts.len() {
        match model.drafts[place - model.published.len()].draft {
            Some(draft) => Some(draft.model),
            None => None,
        }
    } else {
        None
    }
}

/// Whether the view in a place has a table at an address.
pub open spec fn has_table(model: ManagerModel, place: int, address: u64) -> bool {
    match view_in(model, place) {
        Some(view) => page::has_page(view.hierarchy.pages, address),
        None => false,
    }
}

/// No two views share a table.
pub open spec fn apart(model: ManagerModel) -> bool {
    forall|left: int, right: int, address: u64|
        left != right && #[trigger] has_table(model, left, address) ==> !(#[trigger] has_table(
            model,
            right,
            address,
        ))
}

/// The tables of a draft that an operation made are pages that no view had
/// when it was made.
pub open spec fn tables_were_free(before: ManagerModel, after: ManagerModel) -> bool {
    forall|made: int, place: int, address: u64|
        made >= after.published.len() && view_in(after, made) != view_in(before, made)
            && #[trigger] has_table(after, made, address) ==> !(#[trigger] has_table(
            before,
            place,
            address,
        ))
}

/// One slot for drafts changed, and nothing was published.
spec fn one_draft_changed(before: ManagerModel, after: ManagerModel, k: int) -> bool {
    &&& after.published == before.published
    &&& after.drafts.len() == before.drafts.len()
    &&& forall|j: int|
        0 <= j < before.drafts.len() && j != k ==> (#[trigger] after.drafts[j]).draft
            == before.drafts[j].draft
}

proof fn lemma_one_draft(before: ManagerModel, after: ManagerModel, k: int)
    requires
        before.wf(),
        apart(before),
        one_draft_changed(before, after, k),
        tables_were_free(before, after),
    ensures
        apart(after),
{
    let changed = before.published.len() + k;
    assert forall|place: int| place != changed implies #[trigger] view_in(after, place) == view_in(
        before,
        place,
    ) by {
        let j = place - before.published.len();
        if 0 <= j < before.drafts.len() {
            assert(after.drafts[j].draft == before.drafts[j].draft);
        }
    }
    assert forall|left: int, right: int, address: u64|
        left != right && #[trigger] has_table(after, left, address) implies !(
    #[trigger] has_table(after, right, address)) by {
        if has_table(after, right, address) {
            assert(view_in(after, left) == view_in(before, left) || left == changed);
            assert(view_in(after, right) == view_in(before, right) || right == changed);
            if view_in(after, changed) == view_in(before, changed) {
                assert(has_table(before, left, address));
                assert(has_table(before, right, address));
            } else if left == changed {
                assert(has_table(before, right, address));
            } else {
                assert(has_table(before, left, address));
                if right != changed {
                    assert(has_table(before, right, address));
                }
            }
        }
    }
}

/// Publishing moves a draft's tables, and gives them to no other view.
proof fn lemma_published_tables(before: ManagerModel, after: ManagerModel, k: int, address: u64)
    requires
        before.wf(),
        0 <= k < before.drafts.len(),
        before.drafts[k].draft is Some,
        before.next_publish_slot < MAX_PUBLISHED_VIEWS,
        after.view_at(before.next_publish_slot as int).model.hierarchy == view::published_tables(
            before.draft_at(k).model.hierarchy,
        ),
        after.published[before.next_publish_slot as int] is Some,
        after.published.len() == before.published.len(),
    ensures
        has_table(after, before.next_publish_slot as int, address) == has_table(
            before,
            before.published.len() + k,
            address,
        ),
{
    let h = before.draft_at(k).model.hierarchy;
    let moved = page::with_owner(h.pages, EptPageOwner::Published);
    if page::has_page(moved, address) {
        let i = choose|i: int| 0 <= i < moved.len() && (#[trigger] moved[i]).hpa == address;
        assert(h.pages[i].hpa == address);
    }
    if page::has_page(h.pages, address) {
        let i = choose|i: int| 0 <= i < h.pages.len() && (#[trigger] h.pages[i]).hpa == address;
        assert(moved[i].hpa == address);
    }
}

/// The views are those of before, but that the draft is a publication.
proof fn lemma_publish(before: ManagerModel, after: ManagerModel, k: int)
    requires
        before.wf(),
        apart(before),
        0 <= k < before.drafts.len(),
        before.drafts[k].draft is Some,
        before.next_publish_slot < MAX_PUBLISHED_VIEWS,
        after.view_at(before.next_publish_slot as int).model.hierarchy == view::published_tables(
            before.draft_at(k).model.hierarchy,
        ),
        after.published == before.published.update(
            before.next_publish_slot as int,
            Some(after.view_at(before.next_publish_slot as int)),
        ),
        after.drafts == before.drafts.update(
            k,
            DraftSlotModel { draft: None, ..before.drafts[k] },
        ),
    ensures
        apart(after),
{
    let p = before.next_publish_slot as int;
    let gone = before.published.len() + k;
    assert forall|place: int| place != p && place != gone implies #[trigger] view_in(after, place)
        == view_in(before, place) by {}
    assert(view_in(after, gone) is None);
    assert forall|left: int, right: int, address: u64|
        left != right && #[trigger] has_table(after, left, address) implies !(
    #[trigger] has_table(after, right, address)) by {
        if has_table(after, right, address) {
            lemma_published_tables(before, after, k, address);
            assert(left != gone && right != gone);
            if left == p {
                assert(has_table(before, gone, address));
                assert(view_in(after, right) == view_in(before, right));
                assert(has_table(before, right, address));
            } else {
                assert(view_in(after, left) == view_in(before, left));
                assert(has_table(before, left, address));
                if right == p {
                    assert(has_table(before, gone, address));
                } else {
                    assert(view_in(after, right) == view_in(before, right));
                    assert(has_table(before, right, address));
                }
            }
        }
    }
}

/// A manager of one view has nothing to keep apart.
pub proof fn law_one_view_is_apart(model: ManagerModel)
    requires
        model.wf(),
        model.next_publish_slot == 1,
        forall|k: int| 0 <= k < model.drafts.len() ==> (#[trigger] model.drafts[k]).draft is None,
    ensures
        apart(model),
{
    assert forall|left: int, right: int, address: u64|
        left != right && #[trigger] has_table(model, left, address) implies !(
    #[trigger] has_table(model, right, address)) by {
        assert(left == 0) by {
            if 0 < left < model.published.len() {
                assert(model.published[left] is None);
            }
        }
        if 0 < right < model.published.len() {
            assert(model.published[right] is None);
        }
    }
}

/// An operation keeps views apart: what it makes has tables of its own, and what
/// it publishes takes its draft's tables along.
pub proof fn law_operations_keep_views_apart<A: EptPageAllocator>(
    before: ManagerModel,
    after: ManagerModel,
    operation: Operation,
)
    requires
        before.wf(),
        after.wf(),
        permanence::carried_out::<A>(before, after, operation),
        apart(before),
        tables_were_free(before, after),
    ensures
        apart(after),
{
    match operation {
        Operation::Create(source, result) => {
            if manager::can_draft(before.drafts[0]) {
                assert(manager::is_first_draft(before.drafts, 0));
                lemma_one_draft(before, after, 0);
            } else if manager::can_draft(before.drafts[1]) {
                assert(manager::is_first_draft(before.drafts, 1));
                lemma_one_draft(before, after, 1);
            }
        },
        Operation::Discard(id, result) => {
            lemma_one_draft(before, after, id.slot as int);
        },
        Operation::Apply(id, edits, result) => {
            lemma_one_draft(before, after, id.slot as int);
        },
        Operation::Publish(id, result) => {
            if result is Ok {
                lemma_publish(before, after, before.find_draft(id).unwrap());
            } else {
                lemma_one_draft(before, after, 0);
            }
        },
        _ => {
            lemma_one_draft(before, after, 0);
        },
    }
}

/// Through whatever is asked of a manager, no two of its views ever share a
/// table, where each draft's tables were free when they were taken.
pub proof fn law_views_never_share_a_table<A: EptPageAllocator>(
    states: Seq<ManagerModel>,
    operations: Seq<Operation>,
    to: int,
)
    requires
        permanence::is_history::<A>(states, operations),
        0 <= to < states.len(),
        apart(states[0]),
        forall|k: int|
            0 <= k < operations.len() ==> #[trigger] tables_were_free(states[k], states[k + 1]),
    ensures
        apart(states[to]),
    decreases to,
{
    if to > 0 {
        law_views_never_share_a_table::<A>(states, operations, to - 1);
        assert(permanence::carried_out::<A>(
            states[to - 1],
            states[to - 1 + 1],
            operations[to - 1],
        ));
        assert(tables_were_free(states[to - 1], states[to - 1 + 1]));
        law_operations_keep_views_apart::<A>(states[to - 1], states[to], operations[to - 1]);
    }
}

} // verus!
