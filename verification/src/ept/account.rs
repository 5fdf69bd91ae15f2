//! The books of a manager: which backing pages its views use, and that the
//! registry counts every use.

use vstd::prelude::*;

use super::address::HostPhysicalAddress;
use super::backing;
use super::backing::{
    BackingId, BackingPageReference, BackingState, ObjectModel, SlotModel, MAX_BACKING_PAGES,
};
use super::view;
use super::view::PageState;
use crate::error::MonadError;

verus! {

broadcast use super::address::group_host_addresses;

/// The overrides of a view, where there is one.
pub type Overrides = Option<Map<u64, PageState>>;

/// Every backing page behind a view is alive, and is the page that the view
/// maps.
pub open spec fn backed(slots: Seq<SlotModel>, overrides: Map<u64, PageState>, nonce: u64) -> bool {
    forall|page: u64| #[trigger]
        overrides.contains_key(page) ==> (overrides[page].backing matches Some(reference)
            ==> backing::page_address(slots, reference, nonce) == Ok::<
            HostPhysicalAddress,
            MonadError,
        >(HostPhysicalAddress::at(overrides[page].hpa)))
}

/// The backing pages of one object behind a view.
pub open spec fn used_pages(overrides: Map<u64, PageState>, slot: int) -> Set<BackingPageReference> {
    Set::new(
        |reference: BackingPageReference|
            view::references(overrides).contains(reference) && reference.backing_id.slot == slot,
    )
}

/// How many pages of one object a view uses.
pub open spec fn used_by(overrides: Overrides, slot: int) -> nat {
    match overrides {
        Some(overrides) => used_pages(overrides, slot).len(),
        None => 0,
    }
}

/// How many pages of one object views use, each view by itself.
pub open spec fn uses(views: Seq<Overrides>, slot: int) -> nat
    decreases views.len(),
{
    if views.len() == 0 {
        0
    } else {
        uses(views.drop_last(), slot) + used_by(views.last(), slot)
    }
}

/// The registry counts every use by a draft and every use by a publication,
/// and pins what a publication uses.
pub open spec fn counted(
    slots: Seq<SlotModel>,
    drafts: Seq<Overrides>,
    published: Seq<Overrides>,
) -> bool {
    forall|i: int|
        0 <= i < slots.len() ==> ((#[trigger] slots[i]).object matches Some(object) ==> {
            &&& object.draft_refs == uses(drafts, i)
            &&& object.published_refs == uses(published, i)
            &&& object.published_refs > 0 ==> object.state == BackingState::PublishedPinned
        })
}

/// Every view's backing pages are alive.
pub open spec fn all_backed(slots: Seq<SlotModel>, views: Seq<Overrides>, nonce: u64) -> bool {
    forall|k: int|
        0 <= k < views.len() ==> ((#[trigger] views[k]) matches Some(overrides) ==> backed(
            slots,
            overrides,
            nonce,
        ))
}

/// Whether a page of an object is a target.
pub open spec fn holds_target(
    targets: Seq<(HostPhysicalAddress, BackingPageReference)>,
    id: BackingId,
) -> bool {
    exists|k: int| 0 <= k < targets.len() && (#[trigger] targets[k]).1.backing_id == id
}

/// An object is pinned only for a target.
pub open spec fn pinned_for_targets(
    slots: Seq<SlotModel>,
    targets: Seq<(HostPhysicalAddress, BackingPageReference)>,
) -> bool {
    forall|i: int|
        0 <= i < slots.len() ==> ((#[trigger] slots[i]).object matches Some(object)
            ==> object.target_pinned ==> holds_target(targets, object.id))
}

/// Every target is a live page of a pinned object, and none occurs twice.
pub open spec fn targets_live(
    slots: Seq<SlotModel>,
    targets: Seq<(HostPhysicalAddress, BackingPageReference)>,
    nonce: u64,
) -> bool {
    &&& forall|k: int|
        0 <= k < targets.len() ==> {
            &&& backing::page_address(slots, (#[trigger] targets[k]).1, nonce) == Ok::<
                HostPhysicalAddress,
                MonadError,
            >(targets[k].0)
            &&& backing::object_at(slots, targets[k].1.backing_id.slot as int).target_pinned
        }
    &&& forall|j: int, k: int|
        0 <= j < k < targets.len() ==> (#[trigger] targets[j]).0 != (#[trigger] targets[k]).0
}

/// Every target is a live page of a pinned object, none occurs twice, and no
/// object is pinned for anything else.
pub open spec fn targets_ok(
    slots: Seq<SlotModel>,
    targets: Seq<(HostPhysicalAddress, BackingPageReference)>,
    nonce: u64,
) -> bool {
    &&& targets_live(slots, targets, nonce)
    &&& pinned_for_targets(slots, targets)
}

/// The books are right.
pub open spec fn balanced(
    slots: Seq<SlotModel>,
    drafts: Seq<Overrides>,
    published: Seq<Overrides>,
    targets: Seq<(HostPhysicalAddress, BackingPageReference)>,
    nonce: u64,
) -> bool {
    &&& backing::slots_ok(slots)
    &&& drafts.len() <= 2
    &&& published.len() <= 8
    &&& counted(slots, drafts, published)
    &&& all_backed(slots, drafts, nonce)
    &&& all_backed(slots, published, nonce)
    &&& targets_ok(slots, targets, nonce)
}

/// Replacing one view changes the uses by what that view uses.
pub proof fn lemma_uses_update(views: Seq<Overrides>, k: int, overrides: Overrides, slot: int)
    requires
        0 <= k < views.len(),
    ensures
        uses(views.update(k, overrides), slot) == uses(views, slot) - used_by(views[k], slot)
            + used_by(overrides, slot),
        used_by(views[k], slot) <= uses(views, slot),
    decreases views.len(),
{
    let after = views.update(k, overrides);
    if k == views.len() - 1 {
        assert(after.drop_last() =~= views.drop_last());
    } else {
        lemma_uses_update(views.drop_last(), k, overrides, slot);
        assert(after.drop_last() =~= views.drop_last().update(k, overrides));
    }
}

/// The references of one object.
spec fn object_pages(id: BackingId, n: nat) -> Set<BackingPageReference> {
    Set::new(
        |reference: BackingPageReference|
            reference.backing_id == id && (reference.page_index as nat) < n,
    )
}

proof fn lemma_object_pages(id: BackingId, n: nat)
    requires
        n <= u32::MAX,
    ensures
        object_pages(id, n).finite(),
        object_pages(id, n).len() == n,
    decreases n,
{
    if n == 0 {
        assert(object_pages(id, n) =~= Set::<BackingPageReference>::empty());
    } else {
        let m = (n - 1) as nat;
        lemma_object_pages(id, m);
        let last = BackingPageReference { backing_id: id, page_index: m as u32 };
        assert(object_pages(id, n) =~= object_pages(id, m).insert(last)) by {
            assert forall|r: BackingPageReference| #[trigger]
                object_pages(id, n).contains(r) == object_pages(id, m).insert(last).contains(r) by {
                if r.backing_id == id && r.page_index == m {
                    assert(r == last);
                }
            }
        }
    }
}

/// A view uses no more of an object than there is, and nothing of an empty
/// slot.
pub proof fn lemma_used_bound(
    slots: Seq<SlotModel>,
    overrides: Map<u64, PageState>,
    nonce: u64,
    slot: int,
)
    requires
        backing::slots_ok(slots),
        backed(slots, overrides, nonce),
    ensures
        used_pages(overrides, slot).finite(),
        used_pages(overrides, slot).len() <= MAX_BACKING_PAGES,
        !(0 <= slot < slots.len() && slots[slot].object is Some) ==> used_pages(
            overrides,
            slot,
        ).len() == 0,
{
    let pages = used_pages(overrides, slot);
    if 0 <= slot < slots.len() && slots[slot].object is Some {
        let object = backing::object_at(slots, slot);
        assert(backing::slot_ok(slots[slot], slot));
        let all = object_pages(object.id, object.hpas.len());
        lemma_object_pages(object.id, object.hpas.len());
        assert forall|r: BackingPageReference| #[trigger] pages.contains(r) implies all.contains(
            r,
        ) by {
            let page = choose|page: u64| #[trigger]
                overrides.contains_key(page) && overrides[page].backing == Some(r);
            assert(overrides.contains_key(page));
        }
        assert(pages.subset_of(all));
        vstd::set_lib::lemma_set_subset_finite(all, pages);
        vstd::set_lib::lemma_len_subset(pages, all);
    } else {
        assert forall|r: BackingPageReference| !#[trigger] pages.contains(r) by {
            if pages.contains(r) {
                let page = choose|page: u64| #[trigger]
                    overrides.contains_key(page) && overrides[page].backing == Some(r);
                assert(overrides.contains_key(page));
            }
        }
        assert(pages =~= Set::<BackingPageReference>::empty());
    }
}

/// Views use no more of an object than each of them can.
pub proof fn lemma_uses_bound(slots: Seq<SlotModel>, views: Seq<Overrides>, nonce: u64, slot: int)
    requires
        backing::slots_ok(slots),
        all_backed(slots, views, nonce),
    ensures
        uses(views, slot) <= MAX_BACKING_PAGES * views.len(),
        !(0 <= slot < slots.len() && slots[slot].object is Some) ==> uses(views, slot) == 0,
    decreases views.len(),
{
    if views.len() > 0 {
        let rest = views.drop_last();
        assert(all_backed(slots, rest, nonce)) by {
            assert forall|k: int| 0 <= k < rest.len() implies ((#[trigger] rest[k]) matches Some(
                overrides,
            ) ==> backed(slots, overrides, nonce)) by {
                assert(rest[k] == views[k]);
            }
        }
        lemma_uses_bound(slots, rest, nonce, slot);
        assert(views.last() == views[views.len() - 1]);
        if let Some(overrides) = views.last() {
            lemma_used_bound(slots, overrides, nonce, slot);
        }
    }
}

/// A list without repetition names an object as often as it holds pages of it.
pub proof fn lemma_tally(
    refs: Seq<BackingPageReference>,
    pages: Set<BackingPageReference>,
    slot: int,
)
    requires
        refs.no_duplicates(),
        pages == Set::new(
            |r: BackingPageReference| refs.to_set().contains(r) && r.backing_id.slot == slot,
        ),
    ensures
        pages.finite(),
        pages.len() == backing::tally(refs, slot),
    decreases refs.len(),
{
    if refs.len() == 0 {
        assert(pages =~= Set::<BackingPageReference>::empty());
    } else {
        let rest = refs.drop_last();
        let last = refs.last();
        let fewer = Set::new(
            |r: BackingPageReference| rest.to_set().contains(r) && r.backing_id.slot == slot,
        );
        lemma_tally(rest, fewer, slot);
        assert forall|r: BackingPageReference| #[trigger]
            refs.contains(r) == (rest.contains(r) || r == last) by {
            if refs.contains(r) {
                let k = choose|k: int| 0 <= k < refs.len() && refs[k] == r;
                if k < rest.len() {
                    assert(rest[k] == r);
                }
            }
            if rest.contains(r) {
                let k = choose|k: int| 0 <= k < rest.len() && rest[k] == r;
                assert(refs[k] == r);
            }
            if r == last {
                assert(refs[refs.len() - 1] == r);
            }
        }
        assert(!rest.contains(last)) by {
            if rest.contains(last) {
                let k = choose|k: int| 0 <= k < rest.len() && rest[k] == last;
                assert(refs[k] == refs[refs.len() - 1]);
            }
        }
        if last.backing_id.slot == slot {
            assert(pages =~= fewer.insert(last));
        } else {
            assert(pages =~= fewer);
        }
    }
}

/// What two sets have beyond each other is by how much they differ in size.
proof fn lemma_exchange(
    left: Set<BackingPageReference>,
    right: Set<BackingPageReference>,
)
    requires
        left.finite(),
        right.finite(),
    ensures
        left.len() + right.difference(left).len() == right.len() + left.difference(right).len(),
{
    vstd::set_lib::lemma_set_disjoint_lens(left, right.difference(left));
    vstd::set_lib::lemma_set_disjoint_lens(right, left.difference(right));
    assert(left + right.difference(left) =~= right + left.difference(right));
}

/// References that can all be counted.
pub proof fn lemma_no_fault(
    slots: Seq<SlotModel>,
    refs: Seq<BackingPageReference>,
    nonce: u64,
    add: bool,
    published: bool,
)
    requires
        forall|k: int|
            0 <= k < refs.len() ==> backing::reference_fault(
                slots,
                #[trigger] refs[k],
                nonce,
                add,
                published,
            ) is None,
    ensures
        backing::refs_fault(slots, refs, nonce, add, published) is None,
    decreases refs.len(),
{
    if refs.len() > 0 {
        let rest = refs.drop_last();
        assert forall|k: int| 0 <= k < rest.len() implies backing::reference_fault(
            slots,
            #[trigger] rest[k],
            nonce,
            add,
            published,
        ) is None by {
            assert(rest[k] == refs[k]);
        }
        lemma_no_fault(slots, rest, nonce, add, published);
        assert(refs[refs.len() - 1] == refs.last());
    }
}

/// Counting changes no address.
pub proof fn lemma_adjusted_addresses(
    slots: Seq<SlotModel>,
    refs: Seq<BackingPageReference>,
    add: bool,
    published: bool,
    nonce: u64,
)
    ensures
        forall|reference: BackingPageReference| #[trigger]
            backing::page_address(
                backing::adjusted(slots, refs, add, published),
                reference,
                nonce,
            ) == backing::page_address(slots, reference, nonce),
{
    let after = backing::adjusted(slots, refs, add, published);
    assert forall|reference: BackingPageReference| #[trigger]
        backing::page_address(after, reference, nonce) == backing::page_address(
            slots,
            reference,
            nonce,
        ) by {
        let i = reference.backing_id.slot as int;
        if i < slots.len() {
            assert(after[i] == backing::adjusted_slot(
                slots[i],
                backing::tally(refs, i),
                add,
                published,
            ));
        }
    }
}

/// Where addresses stay, backed views stay backed.
pub proof fn lemma_backed_frame(
    slots: Seq<SlotModel>,
    after: Seq<SlotModel>,
    views: Seq<Overrides>,
    nonce: u64,
)
    requires
        all_backed(slots, views, nonce),
        forall|reference: BackingPageReference| #[trigger]
            backing::page_address(slots, reference, nonce) is Ok ==> backing::page_address(
                after,
                reference,
                nonce,
            ) == backing::page_address(slots, reference, nonce),
    ensures
        all_backed(after, views, nonce),
{
    assert forall|k: int| 0 <= k < views.len() implies ((#[trigger] views[k]) matches Some(
        overrides,
    ) ==> backed(after, overrides, nonce)) by {
        if let Some(overrides) = views[k] {
            assert(backed(slots, overrides, nonce));
            assert forall|page: u64| #[trigger] overrides.contains_key(page) implies (
            overrides[page].backing matches Some(reference) ==> backing::page_address(
                after,
                reference,
                nonce,
            ) == Ok::<HostPhysicalAddress, MonadError>(
                HostPhysicalAddress::at(overrides[page].hpa),
            )) by {
                if let Some(reference) = overrides[page].backing {
                    assert(backing::page_address(slots, reference, nonce) is Ok);
                }
            }
        }
    }
}

/// The backing pages behind a view, where there is one.
pub open spec fn pages_behind(overrides: Overrides) -> Set<BackingPageReference> {
    match overrides {
        Some(overrides) => view::references(overrides),
        None => Set::empty(),
    }
}

/// The part of what a list holds that belongs to one object.
spec fn part(refs: Seq<BackingPageReference>, slot: int) -> Set<BackingPageReference> {
    Set::new(|r: BackingPageReference| refs.to_set().contains(r) && r.backing_id.slot == slot)
}

/// The pages of one object behind a view, where there is one.
spec fn part_behind(overrides: Overrides, slot: int) -> Set<BackingPageReference> {
    Set::new(|r: BackingPageReference| pages_behind(overrides).contains(r) && r.backing_id.slot == slot)
}

proof fn lemma_part_behind(slots: Seq<SlotModel>, overrides: Overrides, nonce: u64, slot: int)
    requires
        backing::slots_ok(slots),
        overrides matches Some(map) ==> backed(slots, map, nonce),
    ensures
        part_behind(overrides, slot).finite(),
        part_behind(overrides, slot).len() == used_by(overrides, slot),
        part_behind(overrides, slot).len() <= MAX_BACKING_PAGES,
{
    match overrides {
        Some(map) => {
            lemma_used_bound(slots, map, nonce, slot);
            assert(part_behind(overrides, slot) =~= used_pages(map, slot));
        },
        None => {
            assert(part_behind(overrides, slot) =~= Set::<BackingPageReference>::empty());
        },
    }
}

/// A page behind a backed view can be found.
proof fn lemma_behind(
    slots: Seq<SlotModel>,
    overrides: Overrides,
    nonce: u64,
    reference: BackingPageReference,
)
    requires
        overrides matches Some(map) ==> backed(slots, map, nonce),
        pages_behind(overrides).contains(reference),
    ensures
        backing::page_address(slots, reference, nonce) is Ok,
{
    let map = overrides.unwrap();
    let page = choose|page: u64| #[trigger]
        map.contains_key(page) && map[page].backing == Some(reference);
    assert(map.contains_key(page));
}

/// A slot whose counts are set anew; what publications use is pinned.
pub open spec fn recounted(slot: SlotModel, drafted: nat, published: nat) -> SlotModel {
    SlotModel {
        object: match slot.object {
            Some(object) => Some(
                ObjectModel {
                    draft_refs: drafted as u32,
                    published_refs: published as u32,
                    state: if published > 0 {
                        BackingState::PublishedPinned
                    } else {
                        object.state
                    },
                    ..object
                },
            ),
            None => None,
        },
        ..slot
    }
}

/// Slots whose counts are those of the views.
pub open spec fn recount(
    slots: Seq<SlotModel>,
    drafts: Seq<Overrides>,
    published: Seq<Overrides>,
) -> Seq<SlotModel> {
    Seq::new(slots.len(), |i: int| recounted(slots[i], uses(drafts, i), uses(published, i)))
}

/// Counting nothing changes nothing.
pub proof fn lemma_adjust_nothing(slots: Seq<SlotModel>, add: bool, published: bool)
    ensures
        backing::adjusted(slots, Seq::<BackingPageReference>::empty(), add, published) == slots,
{
    assert(backing::adjusted(slots, Seq::<BackingPageReference>::empty(), add, published) =~= slots);
}

/// While some of a draft's references are not discounted yet, the count of each
/// of them is not zero.
pub proof fn lemma_can_discount(
    slots: Seq<SlotModel>,
    drafts: Seq<Overrides>,
    published: Seq<Overrides>,
    targets: Seq<(HostPhysicalAddress, BackingPageReference)>,
    nonce: u64,
    k: int,
    done: Seq<BackingPageReference>,
    reference: BackingPageReference,
)
    requires
        balanced(slots, drafts, published, targets, nonce),
        0 <= k < drafts.len(),
        done.no_duplicates(),
        !done.contains(reference),
        forall|r: BackingPageReference|
            #![trigger pages_behind(drafts[k]).contains(r)]
            done.contains(r) || r == reference ==> pages_behind(drafts[k]).contains(r),
    ensures
        backing::page_address(slots, reference, nonce) is Ok,
        backing::tally(done, reference.backing_id.slot as int) < backing::object_at(
            slots,
            reference.backing_id.slot as int,
        ).draft_refs,
{
    let i = reference.backing_id.slot as int;
    let more = done.push(reference);
    assert(pages_behind(drafts[k]).contains(reference));
    assert(drafts[k] matches Some(map) ==> backed(slots, map, nonce));
    lemma_behind(slots, drafts[k], nonce, reference);
    assert(slots[i].object is Some);
    assert(more.no_duplicates());
    assert(more.drop_last() =~= done);
    lemma_tally(more, part(more, i), i);
    lemma_part_behind(slots, drafts[k], nonce, i);
    assert(part(more, i).subset_of(part_behind(drafts[k], i))) by {
        assert forall|r: BackingPageReference| #[trigger]
            part(more, i).contains(r) implies part_behind(drafts[k], i).contains(r) by {
            assert(more.contains(r));
            if r != reference {
                let at = choose|at: int| 0 <= at < more.len() && more[at] == r;
                assert(done[at] == r);
            }
            assert(pages_behind(drafts[k]).contains(r));
        }
    }
    vstd::set_lib::lemma_len_subset(part(more, i), part_behind(drafts[k], i));
    lemma_uses_update(drafts, k, None, i);
}

/// A draft takes another's place once the pages that it adds are counted and
/// those that it drops are discounted. Neither can fail.
#[verifier::rlimit(40)]
#[verifier::spinoff_prover]
pub proof fn lemma_redraft(
    slots: Seq<SlotModel>,
    drafts: Seq<Overrides>,
    published: Seq<Overrides>,
    targets: Seq<(HostPhysicalAddress, BackingPageReference)>,
    nonce: u64,
    k: int,
    replacement: Overrides,
    added: Seq<BackingPageReference>,
    removed: Seq<BackingPageReference>,
)
    requires
        balanced(slots, drafts, published, targets, nonce),
        0 <= k < drafts.len(),
        added.no_duplicates(),
        removed.no_duplicates(),
        added.to_set() == pages_behind(replacement).difference(pages_behind(drafts[k])),
        removed.to_set() == pages_behind(drafts[k]).difference(pages_behind(replacement)),
        replacement matches Some(map) ==> backed(slots, map, nonce),
    ensures
        backing::refs_fault(slots, added, nonce, true, false) is None,
        backing::counts_fit(slots, added, true, false),
        ({
            let middle = backing::adjusted(slots, added, true, false);
            let after = backing::adjusted(middle, removed, false, false);
            &&& backing::refs_fault(middle, removed, nonce, false, false) is None
            &&& backing::counts_fit(middle, removed, false, false)
            &&& balanced(after, drafts.update(k, replacement), published, targets, nonce)
            &&& after == recount(slots, drafts.update(k, replacement), published)
        }),
{
    let middle = backing::adjusted(slots, added, true, false);
    let after = backing::adjusted(middle, removed, false, false);
    let next = drafts.update(k, replacement);
    assert(drafts[k] matches Some(map) ==> backed(slots, map, nonce));
    assert forall|i: int| 0 <= i < slots.len() && slots[i].object is Some implies {
        let object = #[trigger] backing::object_at(slots, i);
        &&& object.draft_refs == uses(drafts, i)
        &&& object.draft_refs + backing::tally(added, i) <= 3 * MAX_BACKING_PAGES
        &&& backing::tally(removed, i) <= used_by(drafts[k], i) <= object.draft_refs
        &&& object.draft_refs + backing::tally(added, i) - backing::tally(removed, i) == uses(
            next,
            i,
        )
    } by {
        assert(counted(slots, drafts, published));
        assert(slots[i].object is Some);
        lemma_uses_bound(slots, drafts, nonce, i);
        lemma_uses_update(drafts, k, replacement, i);
        lemma_part_behind(slots, drafts[k], nonce, i);
        lemma_part_behind(slots, replacement, nonce, i);
        let old_part = part_behind(drafts[k], i);
        let new_part = part_behind(replacement, i);
        lemma_tally(added, part(added, i), i);
        lemma_tally(removed, part(removed, i), i);
        assert(part(added, i) =~= new_part.difference(old_part));
        assert(part(removed, i) =~= old_part.difference(new_part));
        lemma_exchange(new_part, old_part);
        vstd::set_lib::lemma_len_difference(new_part, old_part);
        vstd::set_lib::lemma_len_difference(old_part, new_part);
    }
    assert forall|j: int| 0 <= j < added.len() implies backing::reference_fault(
        slots,
        #[trigger] added[j],
        nonce,
        true,
        false,
    ) is None by {
        assert(added.to_set().contains(added[j]));
        lemma_behind(slots, replacement, nonce, added[j]);
        let i = added[j].backing_id.slot as int;
        let object = backing::object_at(slots, i);
    }
    lemma_no_fault(slots, added, nonce, true, false);
    assert(backing::counts_fit(slots, added, true, false)) by {
        assert forall|i: int| 0 <= i < slots.len() implies ((
        #[trigger] slots[i]).object matches Some(object) ==> backing::count_of(object, false)
            + backing::tally(added, i) <= u32::MAX) by {
            let object = backing::object_at(slots, i);
        }
    }
    lemma_adjusted_addresses(slots, added, true, false, nonce);
    backing::lemma_adjusted(slots, added, true, false);
    assert forall|i: int| 0 <= i < slots.len() implies {
        &&& (#[trigger] middle[i]).object is Some == slots[i].object is Some
        &&& slots[i].object is Some ==> {
            let object = backing::object_at(slots, i);
            &&& backing::object_at(middle, i) == (ObjectModel {
                draft_refs: (object.draft_refs + backing::tally(added, i)) as u32,
                ..object
            })
        }
    } by {
        if slots[i].object is Some {
            let object = backing::object_at(slots, i);
        }
    }
    assert forall|j: int| 0 <= j < removed.len() implies backing::reference_fault(
        middle,
        #[trigger] removed[j],
        nonce,
        false,
        false,
    ) is None by {
        assert(removed.to_set().contains(removed[j]));
        lemma_behind(slots, drafts[k], nonce, removed[j]);
        assert(backing::page_address(middle, removed[j], nonce) == backing::page_address(
            slots,
            removed[j],
            nonce,
        ));
        let i = removed[j].backing_id.slot as int;
        let object = backing::object_at(slots, i);
        assert(middle[i].object is Some);
        lemma_part_behind(slots, drafts[k], nonce, i);
        let whole = part_behind(drafts[k], i);
        assert(whole.contains(removed[j]));
        assert(whole.len() > 0) by {
            if whole.len() == 0 {
                whole.lemma_len0_is_empty();
            }
        }
    }
    lemma_no_fault(middle, removed, nonce, false, false);
    assert(backing::counts_fit(middle, removed, false, false)) by {
        assert forall|i: int| 0 <= i < middle.len() implies ((
        #[trigger] middle[i]).object matches Some(object) ==> backing::tally(removed, i)
            <= backing::count_of(object, false)) by {
            if middle[i].object is Some {
                let object = backing::object_at(slots, i);
            }
        }
    }
    lemma_adjusted_addresses(middle, removed, false, false, nonce);
    backing::lemma_adjusted(middle, removed, false, false);
    assert forall|i: int| 0 <= i < slots.len() implies {
        &&& (#[trigger] after[i]).object is Some == slots[i].object is Some
        &&& slots[i].object is Some ==> {
            let object = backing::object_at(slots, i);
            &&& backing::object_at(after, i) == (ObjectModel {
                draft_refs: uses(next, i) as u32,
                ..object
            })
            &&& uses(next, i) <= u32::MAX
        }
    } by {
        assert(middle[i].object is Some == slots[i].object is Some);
        if slots[i].object is Some {
            let object = backing::object_at(slots, i);
        }
    }
    assert(counted(after, next, published)) by {
        assert forall|i: int| 0 <= i < after.len() implies ((
        #[trigger] after[i]).object matches Some(object) ==> {
            &&& object.draft_refs == uses(next, i)
            &&& object.published_refs == uses(published, i)
            &&& object.published_refs > 0 ==> object.state == BackingState::PublishedPinned
        }) by {
            assert(slots[i].object is Some == after[i].object is Some);
        }
    }
    assert(after =~= recount(slots, next, published)) by {
        assert forall|i: int| 0 <= i < slots.len() implies #[trigger] after[i] == recounted(
            slots[i],
            uses(next, i),
            uses(published, i),
        ) by {
            assert(middle[i].object is Some == slots[i].object is Some);
            if slots[i].object is Some {
                let object = backing::object_at(slots, i);
                assert(counted(slots, drafts, published));
            }
        }
    }
    assert forall|reference: BackingPageReference| #[trigger]
        backing::page_address(slots, reference, nonce) is Ok implies backing::page_address(
        after,
        reference,
        nonce,
    ) == backing::page_address(slots, reference, nonce) by {
        assert(backing::page_address(middle, reference, nonce) == backing::page_address(
            slots,
            reference,
            nonce,
        ));
        assert(backing::page_address(after, reference, nonce) == backing::page_address(
            middle,
            reference,
            nonce,
        ));
    }
    lemma_backed_frame(slots, after, published, nonce);
    assert(all_backed(slots, next, nonce)) by {
        assert forall|j: int| 0 <= j < next.len() implies ((#[trigger] next[j]) matches Some(
            overrides,
        ) ==> backed(slots, overrides, nonce)) by {
            if j != k {
                assert(next[j] == drafts[j]);
            }
        }
    }
    lemma_backed_frame(slots, after, next, nonce);
    assert(targets_ok(after, targets, nonce)) by {
        assert forall|j: int| 0 <= j < targets.len() implies {
            &&& backing::page_address(after, (#[trigger] targets[j]).1, nonce) == Ok::<
                HostPhysicalAddress,
                MonadError,
            >(targets[j].0)
            &&& backing::object_at(after, targets[j].1.backing_id.slot as int).target_pinned
        } by {
            let i = targets[j].1.backing_id.slot as int;
            assert(backing::page_address(slots, targets[j].1, nonce) is Ok);
            assert(after[i].object is Some);
        }
    }
}

/// A draft becomes a publication once its pages are counted as published and
/// discounted as drafted. Neither can fail.
#[verifier::rlimit(40)]
#[verifier::spinoff_prover]
pub proof fn lemma_publish(
    slots: Seq<SlotModel>,
    drafts: Seq<Overrides>,
    published: Seq<Overrides>,
    targets: Seq<(HostPhysicalAddress, BackingPageReference)>,
    nonce: u64,
    k: int,
    p: int,
    refs: Seq<BackingPageReference>,
)
    requires
        balanced(slots, drafts, published, targets, nonce),
        0 <= k < drafts.len(),
        0 <= p < published.len(),
        drafts[k] is Some,
        published[p] is None,
        refs.no_duplicates(),
        refs.to_set() == pages_behind(drafts[k]),
    ensures
        backing::refs_fault(slots, refs, nonce, true, true) is None,
        backing::counts_fit(slots, refs, true, true),
        ({
            let middle = backing::adjusted(slots, refs, true, true);
            let after = backing::adjusted(middle, refs, false, false);
            &&& backing::refs_fault(middle, refs, nonce, false, false) is None
            &&& backing::counts_fit(middle, refs, false, false)
            &&& balanced(
                after,
                drafts.update(k, None),
                published.update(p, drafts[k]),
                targets,
                nonce,
            )
            &&& after == recount(slots, drafts.update(k, None), published.update(p, drafts[k]))
        }),
{
    let middle = backing::adjusted(slots, refs, true, true);
    let after = backing::adjusted(middle, refs, false, false);
    let next_drafts = drafts.update(k, None);
    let next_published = published.update(p, drafts[k]);
    assert(drafts[k] matches Some(map) ==> backed(slots, map, nonce));
    assert forall|i: int| 0 <= i < slots.len() && slots[i].object is Some implies {
        let object = #[trigger] backing::object_at(slots, i);
        &&& object.draft_refs == uses(drafts, i)
        &&& object.published_refs == uses(published, i)
        &&& object.published_refs + backing::tally(refs, i) <= 9 * MAX_BACKING_PAGES
        &&& backing::tally(refs, i) == used_by(drafts[k], i)
        &&& backing::tally(refs, i) <= object.draft_refs
        &&& object.draft_refs - backing::tally(refs, i) == uses(next_drafts, i)
        &&& object.published_refs + backing::tally(refs, i) == uses(next_published, i)
        &&& object.published_refs > 0 ==> object.state == BackingState::PublishedPinned
    } by {
        assert(counted(slots, drafts, published));
        assert(slots[i].object is Some);
        lemma_uses_bound(slots, drafts, nonce, i);
        lemma_uses_bound(slots, published, nonce, i);
        lemma_uses_update(drafts, k, None, i);
        lemma_uses_update(published, p, drafts[k], i);
        lemma_part_behind(slots, drafts[k], nonce, i);
        lemma_tally(refs, part(refs, i), i);
        assert(part(refs, i) =~= part_behind(drafts[k], i));
    }
    assert forall|j: int| 0 <= j < refs.len() implies backing::page_address(
        slots,
        #[trigger] refs[j],
        nonce,
    ) is Ok && part_behind(drafts[k], refs[j].backing_id.slot as int).len() > 0 by {
        assert(refs.to_set().contains(refs[j]));
        lemma_behind(slots, drafts[k], nonce, refs[j]);
        let i = refs[j].backing_id.slot as int;
        lemma_part_behind(slots, drafts[k], nonce, i);
        let whole = part_behind(drafts[k], i);
        assert(whole.contains(refs[j]));
        if whole.len() == 0 {
            whole.lemma_len0_is_empty();
        }
    }
    assert forall|j: int| 0 <= j < refs.len() implies backing::reference_fault(
        slots,
        #[trigger] refs[j],
        nonce,
        true,
        true,
    ) is None by {
        let i = refs[j].backing_id.slot as int;
        let object = backing::object_at(slots, i);
    }
    lemma_no_fault(slots, refs, nonce, true, true);
    assert(backing::counts_fit(slots, refs, true, true)) by {
        assert forall|i: int| 0 <= i < slots.len() implies ((
        #[trigger] slots[i]).object matches Some(object) ==> backing::count_of(object, true)
            + backing::tally(refs, i) <= u32::MAX) by {
            let object = backing::object_at(slots, i);
        }
    }
    lemma_adjusted_addresses(slots, refs, true, true, nonce);
    backing::lemma_adjusted(slots, refs, true, true);
    assert forall|i: int| 0 <= i < slots.len() implies {
        &&& (#[trigger] middle[i]).object is Some == slots[i].object is Some
        &&& slots[i].object is Some ==> {
            let object = backing::object_at(slots, i);
            &&& backing::object_at(middle, i) == (ObjectModel {
                published_refs: (object.published_refs + backing::tally(refs, i)) as u32,
                state: if backing::tally(refs, i) > 0 {
                    BackingState::PublishedPinned
                } else {
                    object.state
                },
                ..object
            })
        }
    } by {
        if slots[i].object is Some {
            let object = backing::object_at(slots, i);
        }
    }
    assert forall|j: int| 0 <= j < refs.len() implies backing::reference_fault(
        middle,
        #[trigger] refs[j],
        nonce,
        false,
        false,
    ) is None by {
        let i = refs[j].backing_id.slot as int;
        assert(backing::page_address(slots, refs[j], nonce) is Ok);
        assert(backing::page_address(middle, refs[j], nonce) == backing::page_address(
            slots,
            refs[j],
            nonce,
        ));
        let object = backing::object_at(slots, i);
        assert(middle[i].object is Some);
        lemma_part_behind(slots, drafts[k], nonce, i);
    }
    lemma_no_fault(middle, refs, nonce, false, false);
    assert(backing::counts_fit(middle, refs, false, false)) by {
        assert forall|i: int| 0 <= i < middle.len() implies ((
        #[trigger] middle[i]).object matches Some(object) ==> backing::tally(refs, i)
            <= backing::count_of(object, false)) by {
            if middle[i].object is Some {
                let object = backing::object_at(slots, i);
            }
        }
    }
    lemma_adjusted_addresses(middle, refs, false, false, nonce);
    backing::lemma_adjusted(middle, refs, false, false);
    assert forall|i: int| 0 <= i < slots.len() implies {
        &&& (#[trigger] after[i]).object is Some == slots[i].object is Some
        &&& slots[i].object is Some ==> {
            let object = backing::object_at(slots, i);
            &&& backing::object_at(after, i).draft_refs == uses(next_drafts, i)
            &&& backing::object_at(after, i).published_refs == uses(next_published, i)
            &&& backing::object_at(after, i).published_refs > 0 ==> backing::object_at(
                after,
                i,
            ).state == BackingState::PublishedPinned
            &&& backing::object_at(after, i).target_pinned == object.target_pinned
        }
    } by {
        assert(middle[i].object is Some == slots[i].object is Some);
        if slots[i].object is Some {
            let object = backing::object_at(slots, i);
        }
    }
    assert(counted(after, next_drafts, next_published)) by {
        assert forall|i: int| 0 <= i < after.len() implies ((
        #[trigger] after[i]).object matches Some(object) ==> {
            &&& object.draft_refs == uses(next_drafts, i)
            &&& object.published_refs == uses(next_published, i)
            &&& object.published_refs > 0 ==> object.state == BackingState::PublishedPinned
        }) by {
            assert(slots[i].object is Some == after[i].object is Some);
        }
    }
    assert(after =~= recount(slots, next_drafts, next_published)) by {
        assert forall|i: int| 0 <= i < slots.len() implies #[trigger] after[i] == recounted(
            slots[i],
            uses(next_drafts, i),
            uses(next_published, i),
        ) by {
            assert(middle[i].object is Some == slots[i].object is Some);
            if slots[i].object is Some {
                let object = backing::object_at(slots, i);
                assert(counted(slots, drafts, published));
            }
        }
    }
    assert forall|reference: BackingPageReference| #[trigger]
        backing::page_address(slots, reference, nonce) is Ok implies backing::page_address(
        after,
        reference,
        nonce,
    ) == backing::page_address(slots, reference, nonce) by {
        assert(backing::page_address(middle, reference, nonce) == backing::page_address(
            slots,
            reference,
            nonce,
        ));
        assert(backing::page_address(after, reference, nonce) == backing::page_address(
            middle,
            reference,
            nonce,
        ));
    }
    assert(all_backed(slots, next_drafts, nonce)) by {
        assert forall|j: int| 0 <= j < next_drafts.len() implies ((
        #[trigger] next_drafts[j]) matches Some(overrides) ==> backed(slots, overrides, nonce)) by {
            if j != k {
                assert(next_drafts[j] == drafts[j]);
            }
        }
    }
    assert(all_backed(slots, next_published, nonce)) by {
        assert forall|j: int| 0 <= j < next_published.len() implies ((
        #[trigger] next_published[j]) matches Some(overrides) ==> backed(
            slots,
            overrides,
            nonce,
        )) by {
            if j != p {
                assert(next_published[j] == published[j]);
            }
        }
    }
    lemma_backed_frame(slots, after, next_drafts, nonce);
    lemma_backed_frame(slots, after, next_published, nonce);
    assert(targets_ok(after, targets, nonce)) by {
        assert forall|j: int| 0 <= j < targets.len() implies {
            &&& backing::page_address(after, (#[trigger] targets[j]).1, nonce) == Ok::<
                HostPhysicalAddress,
                MonadError,
            >(targets[j].0)
            &&& backing::object_at(after, targets[j].1.backing_id.slot as int).target_pinned
        } by {
            let i = targets[j].1.backing_id.slot as int;
            assert(backing::page_address(slots, targets[j].1, nonce) is Ok);
            assert(after[i].object is Some);
        }
    }
}

/// A slot that no view and no target uses can change: it can be filled anew,
/// emptied or retired.
pub proof fn lemma_unused_slot(
    slots: Seq<SlotModel>,
    after: Seq<SlotModel>,
    drafts: Seq<Overrides>,
    published: Seq<Overrides>,
    targets: Seq<(HostPhysicalAddress, BackingPageReference)>,
    nonce: u64,
    i: int,
)
    requires
        balanced(slots, drafts, published, targets, nonce),
        0 <= i < slots.len(),
        after == slots.update(i, after[i]),
        backing::slots_ok(after),
        slots[i].object matches Some(object) ==> object.draft_refs == 0 && object.published_refs
            == 0 && !object.target_pinned,
        after[i].object matches Some(object) ==> object.draft_refs == 0 && object.published_refs
            == 0 && !object.target_pinned,
    ensures
        balanced(after, drafts, published, targets, nonce),
{
    lemma_uses_bound(slots, drafts, nonce, i);
    lemma_uses_bound(slots, published, nonce, i);
    assert(uses(drafts, i) == 0 && uses(published, i) == 0) by {
        assert(counted(slots, drafts, published));
        assert(slots[i].object is Some || slots[i].object is None);
    }
    assert(counted(after, drafts, published)) by {
        assert forall|j: int| 0 <= j < after.len() implies ((
        #[trigger] after[j]).object matches Some(object) ==> {
            &&& object.draft_refs == uses(drafts, j)
            &&& object.published_refs == uses(published, j)
            &&& object.published_refs > 0 ==> object.state == BackingState::PublishedPinned
        }) by {
            if j != i {
                assert(after[j] == slots[j]);
            }
        }
    }
    lemma_unused_backed(slots, after, drafts, nonce, i);
    lemma_unused_backed(slots, after, published, nonce, i);
    assert forall|j: int| 0 <= j < targets.len() implies {
        &&& backing::page_address(after, (#[trigger] targets[j]).1, nonce) == Ok::<
            HostPhysicalAddress,
            MonadError,
        >(targets[j].0)
        &&& backing::object_at(after, targets[j].1.backing_id.slot as int).target_pinned
    } by {
        let at = targets[j].1.backing_id.slot as int;
        assert(backing::page_address(slots, targets[j].1, nonce) is Ok);
        assert(at != i);
        assert(after[at] == slots[at]);
    }
    assert(pinned_for_targets(after, targets)) by {
        assert forall|j: int| 0 <= j < after.len() implies ((
        #[trigger] after[j]).object matches Some(object) ==> object.target_pinned ==> holds_target(
            targets,
            object.id,
        )) by {
            if j != i {
                assert(after[j] == slots[j]);
            }
        }
    }
}

/// Views that use nothing of a slot do not see it change.
proof fn lemma_unused_backed(
    slots: Seq<SlotModel>,
    after: Seq<SlotModel>,
    views: Seq<Overrides>,
    nonce: u64,
    i: int,
)
    requires
        backing::slots_ok(slots),
        all_backed(slots, views, nonce),
        0 <= i < slots.len(),
        after == slots.update(i, after[i]),
        uses(views, i) == 0,
    ensures
        all_backed(after, views, nonce),
{
    assert forall|k: int| 0 <= k < views.len() implies ((#[trigger] views[k]) matches Some(
        overrides,
    ) ==> backed(after, overrides, nonce)) by {
        if let Some(overrides) = views[k] {
            assert(backed(slots, overrides, nonce));
            lemma_uses_update(views, k, None, i);
            lemma_used_bound(slots, overrides, nonce, i);
            assert forall|page: u64| #[trigger] overrides.contains_key(page) implies (
            overrides[page].backing matches Some(reference) ==> backing::page_address(
                after,
                reference,
                nonce,
            ) == Ok::<HostPhysicalAddress, MonadError>(
                HostPhysicalAddress::at(overrides[page].hpa),
            )) by {
                if let Some(reference) = overrides[page].backing {
                    let at = reference.backing_id.slot as int;
                    if at == i {
                        let whole = used_pages(overrides, i);
                        assert(view::references(overrides).contains(reference));
                        assert(whole.contains(reference));
                        whole.lemma_len0_is_empty();
                    }
                    assert(after[at] == slots[at]);
                }
            }
        }
    }
}

/// An object whose pages, counts and state stay can change otherwise; the books
/// stay right, unless it is pinned anew and there is no target for it yet.
pub proof fn lemma_same_object(
    slots: Seq<SlotModel>,
    drafts: Seq<Overrides>,
    published: Seq<Overrides>,
    targets: Seq<(HostPhysicalAddress, BackingPageReference)>,
    nonce: u64,
    i: int,
    object: ObjectModel,
)
    requires
        balanced(slots, drafts, published, targets, nonce),
        0 <= i < slots.len(),
        slots[i].object is Some,
        backing::slots_ok(backing::with_object(slots, i, object)),
        ({
            let before = backing::object_at(slots, i);
            &&& object.id == before.id
            &&& object.hpas == before.hpas
            &&& object.state == before.state
            &&& object.draft_refs == before.draft_refs
            &&& object.published_refs == before.published_refs
            &&& before.target_pinned ==> object.target_pinned
        }),
    ensures
        object.target_pinned == backing::object_at(slots, i).target_pinned ==> balanced(
            backing::with_object(slots, i, object),
            drafts,
            published,
            targets,
            nonce,
        ),
        ({
            let after = backing::with_object(slots, i, object);
            &&& backing::slots_ok(after)
            &&& counted(after, drafts, published)
            &&& all_backed(after, drafts, nonce)
            &&& all_backed(after, published, nonce)
            &&& targets_live(after, targets, nonce)
        }),
{
    let after = backing::with_object(slots, i, object);
    assert forall|reference: BackingPageReference| #[trigger]
        backing::page_address(slots, reference, nonce) is Ok implies backing::page_address(
        after,
        reference,
        nonce,
    ) == backing::page_address(slots, reference, nonce) by {}
    lemma_backed_frame(slots, after, drafts, nonce);
    lemma_backed_frame(slots, after, published, nonce);
    assert(counted(after, drafts, published)) by {
        assert forall|j: int| 0 <= j < after.len() implies ((
        #[trigger] after[j]).object matches Some(found) ==> {
            &&& found.draft_refs == uses(drafts, j)
            &&& found.published_refs == uses(published, j)
            &&& found.published_refs > 0 ==> found.state == BackingState::PublishedPinned
        }) by {
            assert(slots[j].object is Some || slots[j].object is None);
        }
    }
    assert forall|j: int| 0 <= j < targets.len() implies {
        &&& backing::page_address(after, (#[trigger] targets[j]).1, nonce) == Ok::<
            HostPhysicalAddress,
            MonadError,
        >(targets[j].0)
        &&& backing::object_at(after, targets[j].1.backing_id.slot as int).target_pinned
    } by {
        assert(backing::page_address(slots, targets[j].1, nonce) is Ok);
    }
    if object.target_pinned == backing::object_at(slots, i).target_pinned {
        assert forall|j: int| 0 <= j < after.len() implies ((
        #[trigger] after[j]).object matches Some(found) ==> found.target_pinned ==> holds_target(
            targets,
            found.id,
        )) by {
            assert(slots[j].object is Some || slots[j].object is None);
        }
    }
}

} // verus!
