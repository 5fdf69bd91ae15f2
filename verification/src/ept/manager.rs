//! The views of one instance: publications, drafts, and what backs them.

use vstd::prelude::*;

use super::account;
use super::account::Overrides;
use super::address::{GuestPhysicalAddress, HostPhysicalAddress, PAGE_SIZE_4K};
use super::backing;
use super::backing::{
    BackingId, BackingPageReference, BackingRegistry, BackingState, ObjectModel, SlotModel,
    MAX_BACKING_PAGES,
};
use super::builder::VerifiedBaseView;
use super::entry::EptMemoryType;
use super::page;
use super::page::{EptPageAllocator, EptPageOwner};
use super::tree;
use super::view;
use super::view::{
    next_generation, reference_index, DraftEdit, DraftId, DraftView, PageOverride, PageState,
    PublishedView, ViewId, ViewImage, ViewMetadata, ViewModel, MAX_BATCH_EDITS, MAX_DRAFT_VIEWS,
    MAX_PUBLISHED_VIEWS,
};
use super::walker::{MappingSource, WalkResult};
use crate::bits;
use crate::error::{ErrorCode, ErrorPhase, MonadError, MonadResult};

verus! {

broadcast use super::address::group_host_addresses;

struct DraftSlot<A: EptPageAllocator + Clone> {
    generation: u64,
    retired: bool,
    draft: Option<DraftView<A>>,
}

/// A publication as contracts see it.
pub struct PublishedModel {
    pub id: ViewId,
    pub model: ViewModel,
    pub metadata: ViewMetadata,
}

/// A draft as contracts see it.
pub struct DraftModel {
    pub id: DraftId,
    pub source: ViewId,
    pub model: ViewModel,
}

/// A slot for drafts as contracts see it.
pub struct DraftSlotModel {
    pub generation: u64,
    pub retired: bool,
    pub draft: Option<DraftModel>,
}

/// A manager as contracts see it.
pub struct ManagerModel {
    pub published: Seq<Option<PublishedModel>>,
    pub drafts: Seq<DraftSlotModel>,
    pub backings: Seq<SlotModel>,
    pub next_publish_slot: u16,
    pub session_nonce: u64,
    pub max_physical_bits: u8,
    pub unrestricted: bool,
    pub targets: Seq<(HostPhysicalAddress, BackingPageReference)>,
}

/// What the publications override.
pub open spec fn published_maps(published: Seq<Option<PublishedModel>>) -> Seq<Overrides> {
    published.map_values(
        |view: Option<PublishedModel>|
            match view {
                Some(view) => Some(view.model.overrides),
                None => None,
            },
    )
}

/// What the drafts override.
pub open spec fn draft_maps(drafts: Seq<DraftSlotModel>) -> Seq<Overrides> {
    drafts.map_values(
        |slot: DraftSlotModel|
            match slot.draft {
                Some(draft) => Some(draft.model.overrides),
                None => None,
            },
    )
}

impl ManagerModel {
    /// What holds of every manager: its views are in order, its publications
    /// fill the first slots, names say where they stand, and the books are
    /// right.
    pub open spec fn wf(self) -> bool {
        &&& self.session_nonce != 0
        &&& self.published.len() == MAX_PUBLISHED_VIEWS
        &&& self.drafts.len() == MAX_DRAFT_VIEWS
        &&& 1 <= self.next_publish_slot <= MAX_PUBLISHED_VIEWS
        &&& forall|k: int|
            0 <= k < self.published.len() ==> match #[trigger] self.published[k] {
                Some(view) => {
                    &&& k < self.next_publish_slot
                    &&& view.id == (ViewId {
                        slot: k as u16,
                        reserved: 0,
                        generation: self.session_nonce,
                    })
                    &&& view.model.wf()
                    &&& view.model.all_supported()
                    &&& view::describes(view.model, view.metadata)
                },
                None => k >= self.next_publish_slot,
            }
        &&& forall|k: int|
            0 <= k < self.drafts.len() ==> ((#[trigger] self.drafts[k]).draft matches Some(draft)
                ==> {
                &&& draft.id == (DraftId {
                    slot: k as u16,
                    reserved: 0,
                    generation: self.drafts[k].generation,
                    session_nonce: self.session_nonce,
                })
                &&& self.drafts[k].generation != 0
                &&& draft.model.wf()
                &&& draft.model.all_supported()
            })
        &&& account::balanced(
            self.backings,
            draft_maps(self.drafts),
            published_maps(self.published),
            self.targets,
            self.session_nonce,
        )
    }

    /// The slot of the publication with a name, or what is wrong with the name.
    pub open spec fn find_published(self, id: ViewId) -> Result<int, MonadError> {
        match view::view_id_fault(id) {
            Some(error) => Err(error),
            None => if id.slot < self.published.len() && self.published[id.slot as int] is Some
                && self.published[id.slot as int].unwrap().id == id {
                Ok(id.slot as int)
            } else {
                Err(MonadError::new(ErrorPhase::DraftEdit, ErrorCode::StaleHandle, id.generation))
            },
        }
    }

    /// The slot of the draft with a name, or what is wrong with the name.
    pub open spec fn find_draft(self, id: DraftId) -> Result<int, MonadError> {
        match view::draft_id_fault(id, self.session_nonce) {
            Some(error) => Err(error),
            None => if id.slot < self.drafts.len() && self.drafts[id.slot as int].generation
                == id.generation && self.drafts[id.slot as int].draft is Some
                && self.drafts[id.slot as int].draft.unwrap().id == id {
                Ok(id.slot as int)
            } else {
                Err(MonadError::new(ErrorPhase::DraftEdit, ErrorCode::StaleHandle, id.generation))
            },
        }
    }

    /// The publication in a slot.
    pub open spec fn view_at(self, k: int) -> PublishedModel {
        self.published[k].unwrap()
    }

    /// The draft in a slot.
    pub open spec fn draft_at(self, k: int) -> DraftModel {
        self.drafts[k].draft.unwrap()
    }

    /// The manager in which a slot for drafts holds another draft, and the
    /// backings are counted anew.
    pub open spec fn with_draft(self, k: int, slot: DraftSlotModel) -> ManagerModel {
        let drafts = self.drafts.update(k, slot);
        ManagerModel {
            drafts,
            backings: account::recount(
                self.backings,
                draft_maps(drafts),
                published_maps(self.published),
            ),
            ..self
        }
    }

    /// The name of the base view.
    pub open spec fn spec_base_id(self) -> ViewId {
        ViewId { slot: 0, reserved: 0, generation: self.session_nonce }
    }
}

/// A slot that can take a draft.
pub open spec fn can_draft(slot: DraftSlotModel) -> bool {
    slot.draft is None && !slot.retired
}

/// The first slot that can take a draft.
pub open spec fn is_first_draft(drafts: Seq<DraftSlotModel>, k: int) -> bool {
    &&& 0 <= k < drafts.len()
    &&& can_draft(drafts[k])
    &&& forall|j: int| 0 <= j < k ==> !can_draft(#[trigger] drafts[j])
}

/// A view with the same pages in tables of its own.
pub open spec fn is_clone(from: ViewModel, to: ViewModel) -> bool {
    &&& to == (ViewModel { hierarchy: to.hierarchy, ..from })
    &&& to.hierarchy.owner == EptPageOwner::Draft
    &&& tree::is_copy(from.hierarchy, to.hierarchy)
}

/// The views of one instance.
pub struct EptViewManager<A: EptPageAllocator + Clone> {
    published: Vec<Option<PublishedView<A>>>,
    drafts: Vec<DraftSlot<A>>,
    backings: BackingRegistry<A>,
    next_publish_slot: u16,
    session_nonce: u64,
    max_physical_bits: u8,
    unrestricted_edits: bool,
    targets: Vec<(HostPhysicalAddress, BackingPageReference)>,
}

spec fn published_model<A: EptPageAllocator + Clone>(view: Option<PublishedView<A>>) -> Option<
    PublishedModel,
> {
    match view {
        Some(view) => Some(
            PublishedModel {
                id: view.spec_id(),
                model: view.model(),
                metadata: view.spec_metadata(),
            },
        ),
        None => None,
    }
}

spec fn draft_slot_model<A: EptPageAllocator + Clone>(slot: DraftSlot<A>) -> DraftSlotModel {
    DraftSlotModel {
        generation: slot.generation,
        retired: slot.retired,
        draft: match slot.draft {
            Some(draft) => Some(
                DraftModel {
                    id: draft.id,
                    source: draft.source,
                    model: draft.image.model(),
                },
            ),
            None => None,
        },
    }
}

fn stale(generation: u64) -> (error: MonadError)
    ensures
        error == MonadError::new(ErrorPhase::DraftEdit, ErrorCode::StaleHandle, generation),
{
    MonadError::new(ErrorPhase::DraftEdit, ErrorCode::StaleHandle, generation)
}

/// The references of one list that another does not hold.
pub fn difference(left: &[BackingPageReference], right: &[BackingPageReference]) -> (result:
    MonadResult<Vec<BackingPageReference>>)
    requires
        left@.no_duplicates(),
        view::ordered_references(right@),
    ensures
        match result {
            Ok(values) => {
                &&& values@.no_duplicates()
                &&& values@.to_set() == left@.to_set().difference(right@.to_set())
                &&& values@ == left@.filter(
                    |reference: BackingPageReference| !right@.contains(reference),
                )
            },
            Err(error) => error == MonadError::new(
                ErrorPhase::DraftEdit,
                ErrorCode::AllocationFailure,
                left@.len() as u64,
            ),
        },
{
    let ghost missing = |reference: BackingPageReference| !right@.contains(reference);
    let mut values: Vec<BackingPageReference> = Vec::new();
    let reserved = values.try_reserve(left.len());
    if reserved.is_err() {
        return Err(
            MonadError::new(
                ErrorPhase::DraftEdit,
                ErrorCode::AllocationFailure,
                left.len() as u64,
            ),
        );
    }
    proof {
        assert(left@.take(0) =~= Seq::<BackingPageReference>::empty());
        reveal(Seq::filter);
        assert(left@.take(0).filter(missing) =~= Seq::<BackingPageReference>::empty());
    }
    let mut i: usize = 0;
    while i < left.len()
        invariant
            i <= left@.len(),
            view::ordered_references(right@),
            missing == |reference: BackingPageReference| !right@.contains(reference),
            values@ == left@.take(i as int).filter(missing),
        decreases left@.len() - i,
    {
        let value = left[i];
        proof {
            reveal(Seq::filter);
            assert(left@.take(i + 1).drop_last() =~= left@.take(i as int));
            assert(left@.take(i + 1).last() == value);
        }
        match reference_index(right, value) {
            Ok(k) => {
                assert(right@.contains(value));
            },
            Err(_) => {
                values.push(value);
            },
        }
        i += 1;
    }
    proof {
        assert(left@.take(i as int) =~= left@);
        lemma_filtered(left@, missing);
        assert(values@.to_set() =~= left@.to_set().difference(right@.to_set()));
    }
    Ok(values)
}

/// What a filter keeps, and that it keeps each thing once.
proof fn lemma_filtered(list: Seq<BackingPageReference>, keep: spec_fn(BackingPageReference) -> bool)
    requires
        list.no_duplicates(),
    ensures
        list.filter(keep).no_duplicates(),
        forall|r: BackingPageReference| #[trigger]
            list.filter(keep).contains(r) == (list.contains(r) && keep(r)),
    decreases list.len(),
{
    reveal(Seq::filter);
    if list.len() > 0 {
        let rest = list.drop_last();
        let last = list.last();
        lemma_filtered(rest, keep);
        let kept = rest.filter(keep);
        assert(!rest.contains(last)) by {
            if rest.contains(last) {
                let k = choose|k: int| 0 <= k < rest.len() && rest[k] == last;
                assert(list[k] == list[list.len() - 1]);
            }
        }
        assert forall|r: BackingPageReference| #[trigger]
            list.contains(r) == (rest.contains(r) || r == last) by {
            if list.contains(r) {
                let k = choose|k: int| 0 <= k < list.len() && list[k] == r;
                if k < rest.len() {
                    assert(rest[k] == r);
                }
            }
            if rest.contains(r) {
                let k = choose|k: int| 0 <= k < rest.len() && rest[k] == r;
                assert(list[k] == r);
            }
            if r == last {
                assert(list[list.len() - 1] == r);
            }
        }
        if keep(last) {
            let after = kept.push(last);
            assert(list.filter(keep) == after);
            assert forall|r: BackingPageReference| #[trigger]
                after.contains(r) == (kept.contains(r) || r == last) by {
                if kept.contains(r) {
                    let k = choose|k: int| 0 <= k < kept.len() && kept[k] == r;
                    assert(after[k] == r);
                }
                if r == last {
                    assert(after[kept.len() as int] == r);
                }
            }
            assert(!kept.contains(last));
        }
    }
}

/// The page behind an edit, where the edit names one.
pub open spec fn edit_page(slots: Seq<SlotModel>, nonce: u64, edit: DraftEdit) -> HostPhysicalAddress {
    match edit {
        DraftEdit::MapBacking4K { gpa, backing, permissions, memory_type } => backing::page_address(
            slots,
            backing,
            nonce,
        ).unwrap(),
        _ => HostPhysicalAddress::at(0),
    }
}

/// What a view overrides after a batch of edits.
pub open spec fn after_batch(
    slots: Seq<SlotModel>,
    nonce: u64,
    model: ViewModel,
    edits: Seq<DraftEdit>,
) -> Map<u64, PageState>
    decreases edits.len(),
{
    if edits.len() == 0 {
        model.overrides
    } else {
        view::edited(
            after_batch(slots, nonce, model, edits.drop_last()),
            model.types,
            edits.last(),
            edit_page(slots, nonce, edits.last()),
        )
    }
}

/// Whether a view, edited up to there, can take one edit of a batch.
pub open spec fn applies_at(
    slots: Seq<SlotModel>,
    nonce: u64,
    model: ViewModel,
    edits: Seq<DraftEdit>,
    k: int,
) -> bool {
    &&& view::edit_applies(
        ViewModel {
            overrides: after_batch(slots, nonce, model, edits.take(k)),
            edit_count: (model.edit_count + k) as u32,
            ..model
        },
        edits[k],
        edit_page(slots, nonce, edits[k]),
    )
    &&& edits[k] matches DraftEdit::MapBacking4K { gpa, backing, permissions, memory_type }
        ==> backing::page_address(slots, backing, nonce) is Ok
}

/// Whether a view can take every edit of a batch in turn.
pub open spec fn batch_applies(
    slots: Seq<SlotModel>,
    nonce: u64,
    model: ViewModel,
    edits: Seq<DraftEdit>,
) -> bool {
    forall|k: int|
        0 <= k < edits.len() ==> #[trigger] applies_at(slots, nonce, model, edits, k)
}

/// What looking for the page behind an edit comes to.
pub open spec fn page_found(slots: Seq<SlotModel>, nonce: u64, edit: DraftEdit) -> MonadResult<
    HostPhysicalAddress,
> {
    match edit {
        DraftEdit::MapBacking4K { gpa, backing, permissions, memory_type } => backing::page_address(
            slots,
            backing,
            nonce,
        ),
        _ => Ok(HostPhysicalAddress::at(0)),
    }
}

/// Why a view, edited up to there, cannot take one edit of a batch, if it
/// cannot.
pub open spec fn fault_at(
    slots: Seq<SlotModel>,
    nonce: u64,
    model: ViewModel,
    edits: Seq<DraftEdit>,
    k: int,
) -> Option<MonadError> {
    view::edit_fault(
        ViewModel {
            overrides: after_batch(slots, nonce, model, edits.take(k)),
            edit_count: (model.edit_count + k) as u32,
            ..model
        },
        edits[k],
        page_found(slots, nonce, edits[k]),
    )
}

/// Whether an edit is the first of a batch that a view cannot take, and the
/// error says why.
pub open spec fn fails_at(
    slots: Seq<SlotModel>,
    nonce: u64,
    model: ViewModel,
    edits: Seq<DraftEdit>,
    k: int,
    error: MonadError,
) -> bool {
    &&& 0 <= k < edits.len()
    &&& forall|j: int| 0 <= j < k ==> #[trigger] applies_at(slots, nonce, model, edits, j)
    &&& fault_at(slots, nonce, model, edits, k) matches Some(fault) && error == (MonadError {
        operation_index: k as u32,
        ..fault
    })
}

/// Why a view refuses a batch, if it does, memory aside: it cannot take one of
/// the edits, the first such being named; or it can take all, but what comes of
/// them grants what the processor does not have, or has more parts than can be
/// counted, which is told behind the last edit.
pub open spec fn batch_refusal(
    slots: Seq<SlotModel>,
    nonce: u64,
    model: ViewModel,
    edits: Seq<DraftEdit>,
    error: MonadError,
) -> bool {
    ||| exists|k: int| #[trigger] fails_at(slots, nonce, model, edits, k, error)
    ||| {
        &&& batch_applies(slots, nonce, model, edits)
        &&& {
            ||| error == (MonadError {
                operation_index: edits.len() as u32,
                ..view::unsupported_view()
            }) && !(ViewModel {
                overrides: after_batch(slots, nonce, model, edits),
                ..model
            }).all_supported()
            ||| exists|made: ViewModel, fault: MonadError|
                #![trigger batch_result(slots, nonce, model, edits, made), view::figures_fault(made, fault)]
                batch_result(slots, nonce, model, edits, made) && made.wf() && view::figures_fault(
                    made,
                    fault,
                ) && error == (MonadError { operation_index: edits.len() as u32, ..fault })
        }
    }
}

/// A view after a batch: every edit in turn, and nothing else.
pub open spec fn batch_result(
    slots: Seq<SlotModel>,
    nonce: u64,
    before: ViewModel,
    edits: Seq<DraftEdit>,
    after: ViewModel,
) -> bool {
    &&& batch_applies(slots, nonce, before, edits)
    &&& after == (ViewModel {
        overrides: after_batch(slots, nonce, before, edits),
        edit_count: (before.edit_count + edits.len()) as u32,
        hierarchy: after.hierarchy,
        ..before
    })
    &&& before.edit_count + edits.len() <= u32::MAX
    &&& after.hierarchy.bits == before.hierarchy.bits
    &&& after.hierarchy.execute_only == before.hierarchy.execute_only
    &&& after.hierarchy.owner == EptPageOwner::Draft
}

/// The span of guest memory that an edit touches.
pub open spec fn edit_span(edit: DraftEdit) -> (int, int) {
    match edit {
        DraftEdit::SetPermissions { range, permissions } => (
            range.spec_start().get() as int,
            range.spec_end(),
        ),
        DraftEdit::RestoreFromBase { range } => (
            range.spec_start().get() as int,
            range.spec_end(),
        ),
        DraftEdit::MapBacking4K { gpa, backing, permissions, memory_type } => (
            gpa.get() as int,
            gpa.get() + 0x1000,
        ),
    }
}

/// Whether a page is a registered target.
pub open spec fn is_target(
    targets: Seq<(HostPhysicalAddress, BackingPageReference)>,
    page: u64,
) -> bool {
    exists|k: int| 0 <= k < targets.len() && (#[trigger] targets[k]).0.get() == page
}

/// Why an edit may not be made, if it may not: a restricted manager edits
/// registered targets only.
pub open spec fn target_fault(model: ManagerModel, edit: DraftEdit) -> Option<MonadError> {
    let span = edit_span(edit);
    if model.unrestricted {
        None
    } else if edit is MapBacking4K && span.1 > u64::MAX {
        Some(
            MonadError::new(ErrorPhase::DraftEdit, ErrorCode::AddressOverflow, span.0 as u64),
        )
    } else if exists|page: u64|
        view::in_range(span.0, span.1, page) && !#[trigger] is_target(model.targets, page) {
        Some(MonadError::new(ErrorPhase::DraftEdit, ErrorCode::AccessDenied, span.0 as u64))
    } else {
        None
    }
}

/// Why a batch may not be made, if it may not: the first edit that may not.
pub open spec fn batch_target_fault(model: ManagerModel, edits: Seq<DraftEdit>) -> Option<MonadError>
    decreases edits.len(),
{
    if edits.len() == 0 {
        None
    } else {
        match batch_target_fault(model, edits.drop_last()) {
            Some(error) => Some(error),
            None => match target_fault(model, edits.last()) {
                Some(error) => Some(
                    MonadError { operation_index: (edits.len() - 1) as u32, ..error },
                ),
                None => None,
            },
        }
    }
}

impl<A: EptPageAllocator + Clone> EptViewManager<A> {
    /// The manager as contracts see it.
    pub closed spec fn model(&self) -> ManagerModel {
        ManagerModel {
            published: self.published@.map_values(
                |view: Option<PublishedView<A>>| published_model(view),
            ),
            drafts: self.drafts@.map_values(|slot: DraftSlot<A>| draft_slot_model(slot)),
            backings: self.backings.view(),
            next_publish_slot: self.next_publish_slot,
            session_nonce: self.session_nonce,
            max_physical_bits: self.max_physical_bits,
            unrestricted: self.unrestricted_edits,
            targets: self.targets@,
        }
    }

    /// The manager's invariant.
    pub closed spec fn wf(&self) -> bool {
        &&& self.model().wf()
        &&& self.backings.wf()
        &&& forall|k: int|
            0 <= k < self.published@.len() ==> ((#[trigger] self.published@[k]) matches Some(view)
                ==> view.wf())
        &&& forall|k: int|
            0 <= k < self.drafts@.len() ==> ((#[trigger] self.drafts@[k]).draft matches Some(draft)
                ==> draft.image.wf())
    }

    /// The tables of a publication, and their source.
    pub closed spec fn published_image(&self, k: int) -> ViewImage<A> {
        self.published@[k].unwrap().spec_image()
    }

    /// The tables of a draft, and their source.
    pub closed spec fn draft_image(&self, k: int) -> ViewImage<A> {
        self.drafts@[k].draft.unwrap().image
    }

    /// Whether `after` is left when every page has gone back: the tables of each
    /// publication and draft to the source of that view, the pages of all
    /// backings to the source of the registry, which was asked for nothing.
    pub open spec fn given_back(&self, after: &Self) -> bool {
        &&& forall|k: int|
            0 <= k < self.model().published.len() && self.model().published[k] is Some
                ==> page::at_large((#[trigger] after.published_image(k)).table_source())
                == self.published_image(k).missing()
        &&& forall|k: int|
            0 <= k < self.model().drafts.len() && self.model().drafts[k].draft is Some
                ==> page::at_large((#[trigger] after.draft_image(k)).table_source())
                == self.draft_image(k).missing()
        &&& after.registry().returned() == self.registry().returned() + self.registry().held()
        &&& after.registry().asked() == self.registry().asked()
    }

    /// Gives up all views and backings: every page goes back to its source. The
    /// manager is of no further use.
    pub fn release(&mut self)
        ensures
            old(self).given_back(final(self)),
    {
        let ghost published = self.published@;
        let ghost drafts = self.drafts@;
        let mut i: usize = 0;
        while i < self.published.len()
            invariant
                i <= self.published@.len(),
                published == old(self).published@,
                drafts == old(self).drafts@,
                self.published@.len() == published.len(),
                self.drafts@ == drafts,
                self.backings == old(self).backings,
                forall|k: int|
                    i <= k < published.len() ==> #[trigger] self.published@[k] == published[k],
                forall|k: int|
                    0 <= k < i && published[k] is Some ==> page::at_large(
                        (#[trigger] self.published_image(k)).table_source(),
                    ) == old(self).published_image(k).missing(),
            decreases self.published@.len() - i,
        {
            let ghost before = *self;
            let taken = self.published[i].take();
            if let Some(view) = taken {
                let mut view = view;
                view.give_back();
                self.published.set(i, Some(view));
            }
            proof {
                assert forall|k: int| 0 <= k < i && published[k] is Some implies page::at_large(
                    (#[trigger] self.published_image(k)).table_source(),
                ) == old(self).published_image(k).missing() by {
                    assert(self.published@[k] == before.published@[k]);
                    assert(self.published_image(k) == before.published_image(k));
                }
            }
            i += 1;
        }
        let mut j: usize = 0;
        while j < self.drafts.len()
            invariant
                j <= self.drafts@.len(),
                published == old(self).published@,
                drafts == old(self).drafts@,
                self.published@.len() == published.len(),
                self.drafts@.len() == drafts.len(),
                self.backings == old(self).backings,
                forall|k: int| j <= k < drafts.len() ==> #[trigger] self.drafts@[k] == drafts[k],
                forall|k: int|
                    0 <= k < published.len() && published[k] is Some ==> page::at_large(
                        (#[trigger] self.published_image(k)).table_source(),
                    ) == old(self).published_image(k).missing(),
                forall|k: int|
                    0 <= k < j && drafts[k].draft is Some ==> page::at_large(
                        (#[trigger] self.draft_image(k)).table_source(),
                    ) == old(self).draft_image(k).missing(),
            decreases self.drafts@.len() - j,
        {
            let ghost before = *self;
            let taken = self.drafts[j].draft.take();
            if let Some(draft) = taken {
                let mut draft = draft;
                draft.image.give_back();
                self.drafts[j].draft = Some(draft);
            }
            proof {
                assert forall|k: int|
                    0 <= k < published.len() && published[k] is Some implies page::at_large(
                    (#[trigger] self.published_image(k)).table_source(),
                ) == old(self).published_image(k).missing() by {
                    assert(self.published_image(k) == before.published_image(k));
                }
                assert forall|k: int| 0 <= k < j && drafts[k].draft is Some implies page::at_large(
                    (#[trigger] self.draft_image(k)).table_source(),
                ) == old(self).draft_image(k).missing() by {
                    assert(self.drafts@[k] == before.drafts@[k]);
                    assert(self.draft_image(k) == before.draft_image(k));
                }
            }
            j += 1;
        }
        let ghost given = *self;
        self.backings.release_all();
        proof {
            assert forall|k: int|
                0 <= k < old(self).model().published.len() && old(self).model().published[k]
                    is Some implies page::at_large(
                (#[trigger] self.published_image(k)).table_source(),
            ) == old(self).published_image(k).missing() by {
                assert(published[k] is Some);
                assert(self.published_image(k) == given.published_image(k));
            }
            assert forall|k: int|
                0 <= k < old(self).model().drafts.len() && old(self).model().drafts[k].draft
                    is Some implies page::at_large(
                (#[trigger] self.draft_image(k)).table_source(),
            ) == old(self).draft_image(k).missing() by {
                assert(drafts[k].draft is Some);
                assert(self.draft_image(k) == given.draft_image(k));
            }
        }
    }

    /// The backings, and the source of their pages.
    pub closed spec fn registry(&self) -> BackingRegistry<A> {
        self.backings
    }

    /// What the invariant says of the model.
    pub proof fn lemma_wf(&self)
        requires
            self.wf(),
        ensures
            self.model().wf(),
    {
    }

    /// A manager of one base view.
    pub fn new(
        base: VerifiedBaseView<A>,
        allocator: A,
        session_nonce: u64,
        max_physical_bits: u8,
        unrestricted_edits: bool,
    ) -> (result: MonadResult<Self>)
        requires
            base.wf(),
        ensures
            session_nonce == 0 ==> result == Err::<Self, MonadError>(
                MonadError::new(ErrorPhase::Session, ErrorCode::WrongSession, 0),
            ),
            result matches Ok(manager) ==> {
                let model = manager.model();
                &&& session_nonce != 0
                &&& manager.wf()
                &&& model.session_nonce == session_nonce
                &&& model.max_physical_bits == max_physical_bits
                &&& model.unrestricted == unrestricted_edits
                &&& model.next_publish_slot == 1
                &&& model.targets == Seq::<(HostPhysicalAddress, BackingPageReference)>::empty()
                &&& model.published[0] is Some
                &&& model.view_at(0).model == view::base_model(
                    base.spec_candidate(),
                    session_nonce,
                )
                &&& forall|address: u64|
                    address < 0x1_0000_0000_0000 ==> #[trigger] tree::resolved(
                        model.view_at(0).model.hierarchy,
                        address,
                    ) == tree::resolved(base.spec_candidate().hierarchy(), address)
                &&& forall|k: int| 0 <= k < MAX_DRAFT_VIEWS ==> #[trigger] model.drafts[k] == (
                    DraftSlotModel { generation: 0, retired: false, draft: None })
                &&& forall|i: int|
                    0 <= i < MAX_BACKING_PAGES ==> #[trigger] model.backings[i] == (SlotModel {
                        generation: 0,
                        retired: false,
                        object: None,
                    })
            },
            result matches Err(error) ==> {
                let model = view::base_model(base.spec_candidate(), session_nonce);
                ||| session_nonce == 0
                ||| error == view::memory_fault(model)
                ||| error == MonadError::new(
                    ErrorPhase::DraftEdit,
                    ErrorCode::AllocationFailure,
                    MAX_BACKING_PAGES as u64,
                )
                ||| view::figures_fault(model, error)
            },
            session_nonce != 0 && view::beyond_figures(
                view::base_model(base.spec_candidate(), session_nonce).hierarchy,
            ) ==> result is Err && result->Err_0 == MonadError::new(
                ErrorPhase::DraftEdit,
                ErrorCode::AddressOverflow,
                u32::MAX as u64,
            ),
    {
        if session_nonce == 0 {
            let _ = base.release();
            return Err(MonadError::new(ErrorPhase::Session, ErrorCode::WrongSession, 0));
        }
        let image = ViewImage::from_base(base, session_nonce);
        let metadata = match image.verify() {
            Ok(metadata) => metadata,
            Err(error) => {
                let _ = image.release();
                return Err(error);
            },
        };
        let backings = match BackingRegistry::new(allocator) {
            Ok(backings) => backings,
            Err(error) => {
                let _ = image.release();
                return Err(error);
            },
        };
        let base_id = ViewId { slot: 0, reserved: 0, generation: session_nonce };
        proof {
            image.lemma_wf();
        }
        let view = PublishedView::new(base_id, image, metadata);
        let mut published: Vec<Option<PublishedView<A>>> = Vec::new();
        published.push(Some(view));
        let mut i: usize = 1;
        while i < MAX_PUBLISHED_VIEWS
            invariant
                1 <= i <= MAX_PUBLISHED_VIEWS,
                published@.len() == i,
                published@[0] == Some(view),
                forall|k: int| 1 <= k < i ==> (#[trigger] published@[k]) is None,
            decreases MAX_PUBLISHED_VIEWS - i,
        {
            published.push(None);
            i += 1;
        }
        let mut drafts: Vec<DraftSlot<A>> = Vec::new();
        drafts.push(DraftSlot { generation: 0, retired: false, draft: None });
        drafts.push(DraftSlot { generation: 0, retired: false, draft: None });
        let manager = EptViewManager {
            published,
            drafts,
            backings,
            next_publish_slot: 1,
            session_nonce,
            max_physical_bits,
            unrestricted_edits,
            targets: Vec::new(),
        };
        proof {
            manager.backings.lemma_wf();
            let model = manager.model();
            assert(model.published[0] == published_model(manager.published@[0]));
            assert forall|k: int| 0 <= k < model.published.len() implies #[trigger]
            model.published[k] == published_model(manager.published@[k]) by {}
            assert forall|k: int| 0 <= k < model.drafts.len() implies #[trigger] model.drafts[k]
                == (DraftSlotModel { generation: 0, retired: false, draft: None }) by {}
            assert(model.view_at(0).model.overrides =~= Map::<u64, PageState>::empty());
            assert(account::all_backed(
                model.backings,
                published_maps(model.published),
                session_nonce,
            )) by {
                assert forall|k: int| 0 <= k < published_maps(model.published).len() implies ((
                #[trigger] published_maps(model.published)[k]) matches Some(overrides)
                    ==> account::backed(model.backings, overrides, session_nonce)) by {
                    assert(model.published[k] == published_model(manager.published@[k]));
                }
            }
            assert(account::all_backed(model.backings, draft_maps(model.drafts), session_nonce)) by {
                assert forall|k: int| 0 <= k < draft_maps(model.drafts).len() implies (
                #[trigger] draft_maps(model.drafts)[k]) is None by {
                    assert(model.drafts[k].draft is None);
                }
            }
            assert(account::counted(
                model.backings,
                draft_maps(model.drafts),
                published_maps(model.published),
            ));
        }
        Ok(manager)
    }

    /// The slot of the publication with a name.
    fn published_index(&self, id: ViewId) -> (result: MonadResult<usize>)
        requires
            self.wf(),
        ensures
            match self.model().find_published(id) {
                Ok(k) => {
                    &&& result == Ok::<usize, MonadError>(k as usize)
                    &&& k == id.slot
                    &&& k < self.published@.len()
                    &&& self.published@[k] is Some
                    &&& self.published@[k].unwrap().wf()
                    &&& self.model().published[k] == published_model(self.published@[k])
                },
                Err(error) => result == Err::<usize, MonadError>(error),
            },
    {
        id.validate()?;
        let index: usize = id.slot as usize;
        if index >= self.published.len() {
            return Err(stale(id.generation));
        }
        assert(self.model().published[index as int] == published_model(
            self.published@[index as int],
        ));
        match &self.published[index] {
            Some(view) => {
                if view.id() != id {
                    return Err(stale(id.generation));
                }
                Ok(index)
            },
            None => Err(stale(id.generation)),
        }
    }

    /// The publication with a name.
    pub fn published_view(&self, id: ViewId) -> (result: MonadResult<&PublishedView<A>>)
        requires
            self.wf(),
        ensures
            match self.model().find_published(id) {
                Ok(k) => result matches Ok(view) && view.wf() && self.model().view_at(k) == (
                PublishedModel {
                    id: view.spec_id(),
                    model: view.model(),
                    metadata: view.spec_metadata(),
                }),
                Err(error) => result == Err::<&PublishedView<A>, MonadError>(error),
            },
    {
        let index: usize = self.published_index(id)?;
        match &self.published[index] {
            Some(view) => Ok(view),
            None => Err(stale(id.generation)),
        }
    }

    /// Names the publications, in order, as far as there is room.
    pub fn published_ids(&self, output: &mut [ViewId]) -> (count: usize)
        requires
            self.wf(),
        ensures
            count == if (self.model().next_publish_slot as int) < old(output)@.len() {
                self.model().next_publish_slot as int
            } else {
                old(output)@.len() as int
            },
            final(output)@.len() == old(output)@.len(),
            forall|k: int|
                0 <= k < count ==> #[trigger] final(output)@[k] == self.model().view_at(k).id,
            forall|k: int|
                count <= k < old(output)@.len() ==> #[trigger] final(output)@[k] == old(
                    output,
                )@[k],
    {
        let mut count: usize = 0;
        while count < self.published.len()
            invariant
                self.wf(),
                count <= self.model().next_publish_slot,
                count <= self.published@.len(),
                count <= output@.len(),
                output@.len() == old(output)@.len(),
                forall|k: int|
                    0 <= k < count ==> #[trigger] output@[k] == self.model().view_at(k).id,
                forall|k: int|
                    count <= k < output@.len() ==> #[trigger] output@[k] == old(output)@[k],
            ensures
                count == self.model().next_publish_slot || count == output@.len(),
            decreases self.published@.len() - count,
        {
            assert(self.model().published[count as int] == published_model(
                self.published@[count as int],
            ));
            if count == output.len() {
                break;
            }
            match &self.published[count] {
                Some(view) => {
                    let id = view.id();
                    output[count] = id;
                },
                None => {
                    break;
                },
            }
            count += 1;
        }
        count
    }

    /// How many publications there are.
    pub fn published_count(&self) -> (count: usize)
        requires
            self.wf(),
        ensures
            count == self.model().next_publish_slot,
            forall|k: int|
                0 <= k < self.model().published.len() ==> (#[trigger] self.model().published[k]
                    is Some <==> k < count),
    {
        let mut count: usize = 0;
        while count < self.published.len()
            invariant
                self.wf(),
                count <= self.model().next_publish_slot,
                count <= self.published@.len(),
            ensures
                count == self.model().next_publish_slot,
            decreases self.published@.len() - count,
        {
            assert(self.model().published[count as int] == published_model(
                self.published@[count as int],
            ));
            if self.published[count].is_none() {
                break;
            }
            count += 1;
        }
        count
    }

    /// Where the memory of the instance ends.
    pub fn aperture_end(&self) -> (result: MonadResult<u64>)
        requires
            self.wf(),
        ensures
            result == Ok::<u64, MonadError>(self.model().view_at(0).model.aperture_end),
    {
        assert(self.model().published[0] == published_model(self.published@[0]));
        match &self.published[0] {
            Some(view) => Ok(view.aperture_end()),
            None => Err(MonadError::new(ErrorPhase::EptBuild, ErrorCode::WrongObjectState, 0)),
        }
    }

    /// The slot of the draft with a name.
    fn draft_index(&self, id: DraftId) -> (result: MonadResult<usize>)
        requires
            self.wf(),
        ensures
            match self.model().find_draft(id) {
                Ok(k) => {
                    &&& result == Ok::<usize, MonadError>(k as usize)
                    &&& k == id.slot
                    &&& k < self.drafts@.len()
                    &&& self.drafts@[k].draft is Some
                    &&& self.drafts@[k].draft.unwrap().image.wf()
                    &&& self.model().drafts[k] == draft_slot_model(self.drafts@[k])
                },
                Err(error) => result == Err::<usize, MonadError>(error),
            },
    {
        id.validate(self.session_nonce)?;
        let index: usize = id.slot as usize;
        if index >= self.drafts.len() {
            return Err(stale(id.generation));
        }
        assert(self.model().drafts[index as int] == draft_slot_model(self.drafts@[index as int]));
        let slot = &self.drafts[index];
        if slot.generation != id.generation {
            return Err(stale(id.generation));
        }
        match &slot.draft {
            Some(draft) => {
                if draft.id != id {
                    return Err(stale(id.generation));
                }
                Ok(index)
            },
            None => Err(stale(id.generation)),
        }
    }

    /// The draft with a name.
    pub fn draft(&self, id: DraftId) -> (result: MonadResult<&DraftView<A>>)
        requires
            self.wf(),
        ensures
            match self.model().find_draft(id) {
                Ok(k) => result matches Ok(draft) && draft.image.wf() && self.model().draft_at(k)
                    == (DraftModel {
                    id: draft.id,
                    source: draft.source,
                    model: draft.image.model(),
                }),
                Err(error) => result == Err::<&DraftView<A>, MonadError>(error),
            },
    {
        let index: usize = self.draft_index(id)?;
        match &self.drafts[index].draft {
            Some(draft) => Ok(draft),
            None => Err(stale(id.generation)),
        }
    }

    /// Walks a guest page of a publication.
    pub fn walk(&self, id: ViewId, gpa: GuestPhysicalAddress) -> (result: MonadResult<WalkResult>)
        requires
            self.wf(),
        ensures
            result == match self.model().find_published(id) {
                Ok(k) => Ok::<WalkResult, MonadError>(self.model().view_at(k).model.walk(gpa)),
                Err(error) => Err(error),
            },
    {
        let view = self.published_view(id)?;
        Ok(view.walk(gpa))
    }

    /// Walks a guest page of a draft.
    pub fn walk_draft(&self, id: DraftId, gpa: GuestPhysicalAddress) -> (result: MonadResult<
        WalkResult,
    >)
        requires
            self.wf(),
        ensures
            result == match self.model().find_draft(id) {
                Ok(k) => Ok::<WalkResult, MonadError>(self.model().draft_at(k).model.walk(gpa)),
                Err(error) => Err(error),
            },
    {
        let draft = self.draft(id)?;
        Ok(draft.image.walk(gpa))
    }

    /// The figures of a publication.
    pub fn metadata(&self, id: ViewId) -> (result: MonadResult<ViewMetadata>)
        requires
            self.wf(),
        ensures
            result == match self.model().find_published(id) {
                Ok(k) => Ok::<ViewMetadata, MonadError>(self.model().view_at(k).metadata),
                Err(error) => Err(error),
            },
    {
        let view = self.published_view(id)?;
        Ok(view.metadata())
    }

    /// The pointer that selects the tables of a publication.
    pub fn published_eptp(&self, id: ViewId) -> (result: MonadResult<u64>)
        requires
            self.wf(),
        ensures
            result == match self.model().find_published(id) {
                Ok(k) => Ok::<u64, MonadError>(self.model().view_at(k).model.eptp()),
                Err(error) => Err(error),
            },
    {
        let view = self.published_view(id)?;
        Ok(view.eptp())
    }

    /// The name of the base view.
    pub fn base_id(&self) -> (id: ViewId)
        ensures
            id == self.model().spec_base_id(),
    {
        ViewId { slot: 0, reserved: 0, generation: self.session_nonce }
    }
}

/// What a slot for drafts overrides.
pub open spec fn slot_map(slot: DraftSlotModel) -> Overrides {
    match slot.draft {
        Some(draft) => Some(draft.model.overrides),
        None => None,
    }
}

proof fn lemma_draft_maps(drafts: Seq<DraftSlotModel>, k: int, slot: DraftSlotModel)
    requires
        0 <= k < drafts.len(),
    ensures
        draft_maps(drafts.update(k, slot)) == draft_maps(drafts).update(k, slot_map(slot)),
        draft_maps(drafts)[k] == slot_map(drafts[k]),
{
    assert(draft_maps(drafts.update(k, slot)) =~= draft_maps(drafts).update(k, slot_map(slot)));
}

/// A draft's references, all discounted, leave the counts of the other views.
proof fn lemma_draft_goes(before: ManagerModel, k: int, refs: Seq<BackingPageReference>)
    requires
        before.wf(),
        0 <= k < before.drafts.len(),
        before.drafts[k].draft is Some,
        refs.no_duplicates(),
        refs.to_set() == view::references(before.draft_at(k).model.overrides),
    ensures
        ({
            let maps = draft_maps(before.drafts).update(k, None);
            let published = published_maps(before.published);
            let after = backing::adjusted(before.backings, refs, false, false);
            &&& backing::refs_fault(before.backings, refs, before.session_nonce, false, false)
                is None
            &&& backing::counts_fit(before.backings, refs, false, false)
            &&& account::balanced(
                after,
                maps,
                published,
                before.targets,
                before.session_nonce,
            )
            &&& after == account::recount(before.backings, maps, published)
        }),
{
    let maps = draft_maps(before.drafts);
    assert(maps[k] == Some(before.draft_at(k).model.overrides));
    assert(refs.to_set() =~= account::pages_behind(maps[k]).difference(
        account::pages_behind(None),
    ));
    assert(Seq::<BackingPageReference>::empty().to_set() =~= account::pages_behind(
        None,
    ).difference(account::pages_behind(maps[k])));
    account::lemma_redraft(
        before.backings,
        maps,
        published_maps(before.published),
        before.targets,
        before.session_nonce,
        k,
        None,
        Seq::empty(),
        refs,
    );
    account::lemma_adjust_nothing(before.backings, true, false);
}

/// Discounts a draft's references one by one, with no memory but its own.
fn discount_draft<A: EptPageAllocator + Clone>(
    backings: &mut BackingRegistry<A>,
    image: &ViewImage<A>,
    session_nonce: u64,
    Ghost(before): Ghost<ManagerModel>,
    Ghost(k): Ghost<int>,
)
    requires
        old(backings).wf(),
        image.wf(),
        before.wf(),
        old(backings).view() == before.backings,
        session_nonce == before.session_nonce,
        0 <= k < before.drafts.len(),
        before.drafts[k].draft is Some,
        image.model() == before.draft_at(k).model,
    ensures
        final(backings).wf(),
        ({
            let maps = draft_maps(before.drafts).update(k, None);
            let published = published_maps(before.published);
            &&& final(backings).view() == account::recount(before.backings, maps, published)
            &&& account::balanced(
                final(backings).view(),
                maps,
                published,
                before.targets,
                before.session_nonce,
            )
        }),
{
    let overrides = image.overrides();
    let ghost maps = draft_maps(before.drafts);
    let ghost mut done: Seq<BackingPageReference> = Seq::empty();
    proof {
        assert(maps[k] == Some(before.draft_at(k).model.overrides));
        account::lemma_adjust_nothing(before.backings, false, false);
    }
    let mut i: usize = 0;
    while i < overrides.len()
        invariant
            i <= overrides@.len(),
            view::by_page(overrides@),
            before.wf(),
            backings.wf(),
            session_nonce == before.session_nonce,
            0 <= k < before.drafts.len(),
            maps == draft_maps(before.drafts),
            maps[k] == Some(view::override_map(overrides@)),
            done.no_duplicates(),
            forall|r: BackingPageReference| #[trigger]
                done.contains(r) == view::listed(overrides@, i as int, r),
            backings.view() == backing::adjusted(before.backings, done, false, false),
        decreases overrides@.len() - i,
    {
        let entry = overrides[i];
        if let Some(reference) = entry.backing {
            let found: bool = view::is_listed(overrides, i, reference);
            if !found {
                let ghost slot = reference.backing_id.slot as int;
                let ghost here = backings.view();
                proof {
                    assert(!done.contains(reference));
                    assert forall|r: BackingPageReference|
                        #![trigger account::pages_behind(maps[k]).contains(r)]
                        done.contains(r) || r == reference implies account::pages_behind(
                        maps[k],
                    ).contains(r) by {
                        view::lemma_listed(overrides@, r);
                        if r == reference {
                            assert(overrides@[i as int].backing == Some(r));
                        } else {
                            let j = choose|j: int|
                                0 <= j < i && (#[trigger] overrides@[j]).backing == Some(r);
                            assert(overrides@[j].backing == Some(r));
                        }
                    }
                    account::lemma_can_discount(
                        before.backings,
                        maps,
                        published_maps(before.published),
                        before.targets,
                        before.session_nonce,
                        k,
                        done,
                        reference,
                    );
                    assert(here[slot] == backing::adjusted_slot(
                        before.backings[slot],
                        backing::tally(done, slot),
                        false,
                        false,
                    ));
                }
                let _counted = backings.count_reference(reference, session_nonce, false, false);
                proof {
                    let more = done.push(reference);
                    assert(more.drop_last() =~= done);
                    assert(backings.view() =~= backing::adjusted(
                        before.backings,
                        more,
                        false,
                        false,
                    ));
                    assert forall|r: BackingPageReference| #[trigger]
                        more.contains(r) == view::listed(overrides@, i + 1, r) by {
                        lemma_listed_next(overrides@, i as int, done, r);
                    }
                    done = more;
                }
            } else {
                proof {
                    assert forall|r: BackingPageReference| #[trigger]
                        done.contains(r) == view::listed(overrides@, i + 1, r) by {
                        lemma_listed_next(overrides@, i as int, done, r);
                    }
                }
            }
        } else {
            proof {
                assert forall|r: BackingPageReference| #[trigger]
                    done.contains(r) == view::listed(overrides@, i + 1, r) by {
                    lemma_listed_next(overrides@, i as int, done, r);
                }
            }
        }
        i += 1;
    }
    proof {
        assert(done.to_set() =~= view::references(view::override_map(overrides@))) by {
            assert forall|r: BackingPageReference| #[trigger]
                done.to_set().contains(r) == view::references(
                    view::override_map(overrides@),
                ).contains(r) by {
                view::lemma_listed(overrides@, r);
                assert(done.contains(r) == view::listed(overrides@, overrides@.len() as int, r));
            }
        }
        lemma_draft_goes(before, k, done);
    }
}

/// One override more lists the page that it maps.
proof fn lemma_listed_next(
    overrides: Seq<PageOverride>,
    i: int,
    done: Seq<BackingPageReference>,
    r: BackingPageReference,
)
    requires
        0 <= i < overrides.len(),
        done.contains(r) == view::listed(overrides, i, r),
    ensures
        view::listed(overrides, i + 1, r) == (done.contains(r) || overrides[i].backing == Some(r)),
        done.push(r).contains(r),
        forall|s: BackingPageReference|
            s != r ==> #[trigger] done.push(s).contains(r) == done.contains(r),
{
    if view::listed(overrides, i + 1, r) {
        let j = choose|j: int| 0 <= j < i + 1 && (#[trigger] overrides[j]).backing == Some(r);
        assert(j < i ==> view::listed(overrides, i, r));
    }
    if view::listed(overrides, i, r) {
        let j = choose|j: int| 0 <= j < i && (#[trigger] overrides[j]).backing == Some(r);
        assert(0 <= j < i + 1 && overrides[j].backing == Some(r));
    }
    assert(done.push(r)[done.len() as int] == r);
    assert forall|s: BackingPageReference| s != r implies #[trigger] done.push(s).contains(r)
        == done.contains(r) by {
        if done.contains(r) {
            let at = choose|at: int| 0 <= at < done.len() && done[at] == r;
            assert(done.push(s)[at] == r);
        }
        if done.push(s).contains(r) {
            let at = choose|at: int| 0 <= at < done.push(s).len() && done.push(s)[at] == r;
            assert(done[at] == r);
        }
    }
}

impl<A: EptPageAllocator + Clone> EptViewManager<A> {
    /// The first slot that can take a draft.
    fn free_draft(&self) -> (found: Option<usize>)
        ensures
            match found {
                Some(k) => {
                    &&& is_first_draft(self.model().drafts, k as int)
                    &&& k < self.drafts@.len()
                    &&& self.model().drafts[k as int] == draft_slot_model(self.drafts@[k as int])
                },
                None => forall|j: int|
                    0 <= j < self.model().drafts.len() ==> !can_draft(
                        #[trigger] self.model().drafts[j],
                    ),
            },
    {
        let mut k: usize = 0;
        while k < self.drafts.len()
            invariant
                k <= self.drafts@.len(),
                forall|j: int| 0 <= j < k ==> !can_draft(#[trigger] self.model().drafts[j]),
            decreases self.drafts@.len() - k,
        {
            assert(self.model().drafts[k as int] == draft_slot_model(self.drafts@[k as int]));
            if self.drafts[k].draft.is_none() && !self.drafts[k].retired {
                return Some(k);
            }
            k += 1;
        }
        None
    }

    /// Starts a draft of a publication, in tables of its own.
    pub fn create_draft(&mut self, source: ViewId) -> (result: MonadResult<DraftId>)
        requires
            old(self).wf(),
        ensures
            final(self).wf(),
            create_effect::<A>(old(self).model(), final(self).model(), source, result),
    {
        let ghost before = self.model();
        let index: usize = match self.free_draft() {
            Some(index) => index,
            None => {
                return Err(
                    MonadError::new(
                        ErrorPhase::DraftEdit,
                        ErrorCode::DraftCapacity,
                        MAX_DRAFT_VIEWS as u64,
                    ),
                );
            },
        };
        proof {
            assert forall|k: int| #[trigger] is_first_draft(before.drafts, k) implies k
                == index by {
                if k < index {
                    assert(!can_draft(before.drafts[k]));
                } else if index < k {
                    assert(!can_draft(before.drafts[index as int]));
                }
            }
        }
        let generation: u64 = match next_generation(
            self.drafts[index].generation,
            ErrorPhase::DraftEdit,
        ) {
            Ok(generation) => generation,
            Err(error) => {
                self.drafts[index].retired = true;
                proof {
                    let slot = DraftSlotModel { retired: true, ..before.drafts[index as int] };
                    assert(self.model().drafts =~= before.drafts.update(index as int, slot));
                    lemma_draft_maps(before.drafts, index as int, slot);
                    assert(draft_maps(self.model().drafts) =~= draft_maps(before.drafts));
                    assert(self.model().published =~= before.published);
                }
                return Err(error);
            },
        };
        let image = match self.published_view(source) {
            Ok(view) => view.image().try_clone_as(EptPageOwner::Draft)?,
            Err(error) => {
                return Err(error);
            },
        };
        let refs = match image.backing_refs() {
            Ok(refs) => refs,
            Err(error) => {
                let _ = image.release();
                return Err(error);
            },
        };
        let ghost from = before.view_at(source.slot as int).model;
        proof {
            image.lemma_wf();
            let maps = draft_maps(before.drafts);
            let published = published_maps(before.published);
            assert(maps[index as int] is None);
            assert(published[source.slot as int] == Some(from.overrides));
            assert(refs@.to_set() =~= account::pages_behind(
                Some(image.model().overrides),
            ).difference(account::pages_behind(maps[index as int])));
            assert(Seq::<BackingPageReference>::empty().to_set() =~= account::pages_behind(
                maps[index as int],
            ).difference(account::pages_behind(Some(image.model().overrides))));
            account::lemma_redraft(
                before.backings,
                maps,
                published,
                before.targets,
                before.session_nonce,
                index as int,
                Some(image.model().overrides),
                refs@,
                Seq::empty(),
            );
            account::lemma_adjust_nothing(
                backing::adjusted(before.backings, refs@, true, false),
                false,
                false,
            );
        }
        self.backings.adjust_draft_refs(refs.as_slice(), self.session_nonce, true)?;
        let id = DraftId {
            slot: index as u16,
            reserved: 0,
            generation,
            session_nonce: self.session_nonce,
        };
        let ghost draft = DraftModel { id, source, model: image.model() };
        self.drafts[index].generation = generation;
        self.drafts[index].draft = Some(DraftView { id, source, image });
        proof {
            let slot = DraftSlotModel { generation, retired: false, draft: Some(draft) };
            assert(self.model().drafts =~= before.drafts.update(index as int, slot));
            assert(self.model().published =~= before.published);
            lemma_draft_maps(before.drafts, index as int, slot);
            assert(self.model() == before.with_draft(index as int, slot));
            assert(draft.model.all_supported()) by {
                assert(from.all_supported());
                assert forall|page: u64| #[trigger]
                    draft.model.overrides.contains_key(page) implies !view::refused(
                    draft.model.overrides[page].permissions,
                    draft.model.hierarchy.execute_only,
                ) by {
                    assert(from.overrides.contains_key(page));
                }
            }
        }
        Ok(id)
    }

    /// Drops a draft, and gives back what it was counted for. Want of memory for
    /// the list of its backing pages is reported, and keeps neither from going.
    pub fn discard_draft(&mut self, id: DraftId) -> (result: MonadResult<()>)
        requires
            old(self).wf(),
        ensures
            final(self).wf(),
            discard_effect(old(self).model(), final(self).model(), id, result),
    {
        let ghost before = self.model();
        let index: usize = self.draft_index(id)?;
        let taken = self.drafts[index].draft.take();
        let draft = match taken {
            Some(draft) => draft,
            None => {
                return Err(stale(id.generation));
            },
        };
        let ghost maps = draft_maps(before.drafts);
        let ghost published = published_maps(before.published);
        assert(maps[index as int] == Some(before.draft_at(index as int).model.overrides));
        let result = match draft.image.backing_refs() {
            Ok(refs) => {
                proof {
                    lemma_draft_goes(before, index as int, refs@);
                }
                self.backings.adjust_draft_refs(refs.as_slice(), self.session_nonce, false)
            },
            Err(error) => {
                discount_draft(
                    &mut self.backings,
                    &draft.image,
                    self.session_nonce,
                    Ghost(before),
                    Ghost(index as int),
                );
                Err(error)
            },
        };
        let _ = draft.image.release();
        proof {
            let slot = DraftSlotModel { draft: None, ..before.drafts[index as int] };
            assert(self.model().drafts =~= before.drafts.update(index as int, slot));
            assert(self.model().published =~= before.published);
            lemma_draft_maps(before.drafts, index as int, slot);
            assert(self.model() == before.with_draft(index as int, slot));
        }
        result
    }

    /// Publishes a draft in the next slot, for good.
    pub fn publish_draft(&mut self, id: DraftId) -> (result: MonadResult<ViewId>)
        requires
            old(self).wf(),
        ensures
            final(self).wf(),
            publish_effect(old(self).model(), final(self).model(), id, result),
    {
        let ghost before = self.model();
        let index: usize = self.draft_index(id)?;
        let publish_index: usize = self.next_publish_slot as usize;
        if publish_index >= MAX_PUBLISHED_VIEWS {
            return Err(
                MonadError::new(
                    ErrorPhase::Publish,
                    ErrorCode::PublishedViewCapacity,
                    self.next_publish_slot as u64,
                ),
            );
        }
        let (metadata, refs) = match &self.drafts[index].draft {
            Some(draft) => {
                let metadata = draft.image.verify()?;
                let refs = draft.image.backing_refs()?;
                (metadata, refs)
            },
            None => {
                return Err(
                    MonadError::new(ErrorPhase::Publish, ErrorCode::StaleHandle, id.generation),
                );
            },
        };
        let ghost from = before.draft_at(index as int);
        let ghost maps = draft_maps(before.drafts);
        let ghost published = published_maps(before.published);
        proof {
            assert(maps[index as int] == Some(from.model.overrides));
            assert(before.published[publish_index as int] is None);
            assert(published[publish_index as int] is None);
            account::lemma_publish(
                before.backings,
                maps,
                published,
                before.targets,
                before.session_nonce,
                index as int,
                publish_index as int,
                refs@,
            );
        }
        self.backings.adjust_published_refs(refs.as_slice(), self.session_nonce, true)?;
        self.backings.adjust_draft_refs(refs.as_slice(), self.session_nonce, false)?;
        let taken = self.drafts[index].draft.take();
        let draft = match taken {
            Some(draft) => draft,
            None => {
                return Err(
                    MonadError::new(ErrorPhase::Publish, ErrorCode::StaleHandle, id.generation),
                );
            },
        };
        let view_id = ViewId {
            slot: self.next_publish_slot,
            reserved: 0,
            generation: self.session_nonce,
        };
        let source = draft.source;
        let (image, metadata) = draft.image.mark_published(source, metadata);
        proof {
            image.lemma_wf();
            view::lemma_published_figures(from.model, image.model());
            assert(image.model().all_supported()) by {
                assert(from.model.all_supported());
                assert forall|page: u64| #[trigger]
                    image.model().overrides.contains_key(page) implies !view::refused(
                    image.model().overrides[page].permissions,
                    image.model().hierarchy.execute_only,
                ) by {
                    assert(from.model.overrides.contains_key(page));
                }
            }
        }
        let view = PublishedView::new(view_id, image, metadata);
        self.published.set(publish_index, Some(view));
        self.next_publish_slot = self.next_publish_slot + 1;
        proof {
            let slot = DraftSlotModel { draft: None, ..before.drafts[index as int] };
            let fresh = PublishedModel {
                id: view_id,
                model: view.model(),
                metadata: view.spec_metadata(),
            };
            assert(self.model().drafts =~= before.drafts.update(index as int, slot));
            assert(self.model().published =~= before.published.update(
                publish_index as int,
                Some(fresh),
            ));
            lemma_draft_maps(before.drafts, index as int, slot);
            assert(published_maps(self.model().published) =~= published.update(
                publish_index as int,
                maps[index as int],
            ));
            assert(self.model().targets == before.targets);
        }
        Ok(view_id)
    }
}

impl<A: EptPageAllocator + Clone> EptViewManager<A> {
    /// What a walk of a page of a draft or a publication finds: the page's state,
    /// where its permissions grant anything; nothing is mapped beyond the aperture.
    pub proof fn law_walk_finds_the_page(
        &self,
        published: bool,
        k: int,
        gpa: GuestPhysicalAddress,
    )
        requires
            self.wf(),
            gpa.get() % 0x1000 == 0,
            published ==> 0 <= k < self.model().published.len() && self.model().published[k]
                is Some,
            !published ==> 0 <= k < self.model().drafts.len() && self.model().drafts[k].draft
                is Some,
            ({
                let model = if published {
                    self.model().view_at(k).model
                } else {
                    self.model().draft_at(k).model
                };
                gpa.get() < model.aperture_end
            }),
        ensures
            ({
                let model = if published {
                    self.model().view_at(k).model
                } else {
                    self.model().draft_at(k).model
                };
                let state = model.state(gpa.get());
                if !(state.permissions.read || state.permissions.write
                    || state.permissions.execute) {
                    model.walk(gpa) is NotPresent
                } else {
                    model.walk(gpa) matches WalkResult::Mapping(mapping) && {
                        &&& mapping.gpa_page == gpa
                        &&& mapping.hpa_page.get() == state.hpa
                        &&& mapping.permissions == state.permissions
                        &&& mapping.memory_type == state.memory_type
                        &&& mapping.source == match state.backing {
                            Some(reference) => MappingSource::Backing(reference),
                            None => MappingSource::Identity,
                        }
                    }
                }
            }),
    {
        let image = if published {
            assert(self.published@[k] is Some);
            self.published@[k].unwrap().spec_image()
        } else {
            assert(self.drafts@[k].draft is Some);
            self.drafts@[k].draft.unwrap().image
        };
        image.lemma_wf();
        image.law_walk_finds_state(gpa);
        let model = image.model();
        assert(model.wf() && model.all_supported());
        if model.overrides.contains_key(gpa.get()) {
            assert(!view::refused(
                model.overrides[gpa.get()].permissions,
                model.hierarchy.execute_only,
            ));
        }
    }

    /// A draft that was cloned from a publication has a name of its own and
    /// walks as the publication does, page for page; no publication changed.
    pub proof fn law_draft_walks_as_its_source(
        &self,
        after: &Self,
        source: ViewId,
        id: DraftId,
        gpa: GuestPhysicalAddress,
    )
        requires
            self.wf(),
            after.wf(),
            create_effect::<A>(
                self.model(),
                after.model(),
                source,
                Ok::<DraftId, MonadError>(id),
            ),
            gpa.get() % 0x1000 == 0,
        ensures
            self.model().find_published(source) is Ok,
            self.model().find_draft(id) is Err,
            after.model().find_draft(id) is Ok,
            after.model().draft_at(after.model().find_draft(id).unwrap()).source == source,
            after.model().draft_at(after.model().find_draft(id).unwrap()).model.walk(gpa)
                == self.model().view_at(self.model().find_published(source).unwrap()).model.walk(
                gpa,
            ),
            after.model().published == self.model().published,
    {
        let before = self.model();
        let k: int = if can_draft(before.drafts[0]) {
            0
        } else {
            1
        };
        assert(is_first_draft(before.drafts, k)) by {
            if !can_draft(before.drafts[0]) && !can_draft(before.drafts[1]) {
                assert forall|j: int| 0 <= j < MAX_DRAFT_VIEWS implies !can_draft(
                    #[trigger] before.drafts[j],
                ) by {
                    assert(j == 0 || j == 1);
                }
            }
        }
        let p = before.find_published(source).unwrap();
        let from = before.view_at(p).model;
        let to = after.model().draft_at(k).model;
        let view = self.published@[p].unwrap();
        let draft = after.drafts@[k].draft.unwrap();
        view.spec_image().lemma_wf();
        let tables = view.spec_image().tables();
        draft.image.lemma_wf();
        bits::lemma_width_limit(from.hierarchy.bits);
        tree::lemma_copy(from.hierarchy, to.hierarchy, tables);
        if gpa.get() < bits::width_limit(from.hierarchy.bits) {
            tree::lemma_walked(from.hierarchy, tables, gpa);
            tree::lemma_walked(
                to.hierarchy,
                tree::copied_tables(from.hierarchy, to.hierarchy, tables),
                gpa,
            );
        }
    }

    /// A publication walks as its draft did, page for page; it stands in the
    /// next slot under a name that nothing had, keeps what it was drafted from,
    /// and the draft's name is gone.
    pub proof fn law_publication_walks_as_its_draft(
        &self,
        after: ManagerModel,
        id: DraftId,
        view_id: ViewId,
        gpa: GuestPhysicalAddress,
    )
        requires
            self.wf(),
            publish_effect(self.model(), after, id, Ok::<ViewId, MonadError>(view_id)),
            gpa.get() % 0x1000 == 0,
        ensures
            self.model().find_draft(id) is Ok,
            self.model().find_published(view_id) is Err,
            after.find_published(view_id) == Ok::<int, MonadError>(
                self.model().next_publish_slot as int,
            ),
            ({
                let draft = self.model().draft_at(self.model().find_draft(id).unwrap());
                let view = after.view_at(self.model().next_publish_slot as int);
                &&& view.model.walk(gpa) == draft.model.walk(gpa)
                &&& view.metadata.source == draft.source
            }),
            after.find_draft(id) == Err::<int, MonadError>(
                MonadError::new(ErrorPhase::DraftEdit, ErrorCode::StaleHandle, id.generation),
            ),
            after.next_publish_slot == self.model().next_publish_slot + 1,
    {
        let before = self.model();
        let k = before.find_draft(id).unwrap();
        let h = before.draft_at(k).model.hierarchy;
        let image = self.drafts@[k].draft.unwrap().image;
        image.lemma_wf();
        bits::lemma_width_limit(h.bits);
        tree::lemma_new_owner(h, view::published_tables(h), image.tables());
        if gpa.get() < bits::width_limit(h.bits) {
            tree::lemma_walked(h, image.tables(), gpa);
            tree::lemma_walked(view::published_tables(h), image.tables(), gpa);
        }
    }
}

/// A draft became the next publication: the view is the draft's, marked with
/// what it was drafted from, and the draft is gone.
pub open spec fn publishes(before: ManagerModel, k: int, after: ManagerModel, view_id: ViewId) -> bool {
    let p = before.next_publish_slot as int;
    let draft = before.draft_at(k);
    let view = after.view_at(p);
    let drafts = before.drafts.update(k, DraftSlotModel { draft: None, ..before.drafts[k] });
    let published = before.published.update(p, Some(view));
    &&& view_id == (ViewId {
        slot: before.next_publish_slot,
        reserved: 0,
        generation: before.session_nonce,
    })
    &&& view.id == view_id
    &&& view.model == (ViewModel {
        source: draft.source,
        hierarchy: view::published_tables(draft.model.hierarchy),
        ..draft.model
    })
    &&& view::describes(view.model, view.metadata)
    &&& after == (ManagerModel {
        drafts,
        published,
        backings: account::recount(
            before.backings,
            draft_maps(drafts),
            published_maps(published),
        ),
        next_publish_slot: (p + 1) as u16,
        ..before
    })
}

/// What cloning a publication into a draft comes to.
pub open spec fn create_effect<A: EptPageAllocator>(
    before: ManagerModel,
    after: ManagerModel,
    source: ViewId,
    result: MonadResult<DraftId>,
) -> bool {
    &&& (forall|j: int| 0 <= j < MAX_DRAFT_VIEWS ==> !can_draft(#[trigger] before.drafts[j])) ==> {
        &&& result == Err::<DraftId, MonadError>(
            MonadError::new(
                ErrorPhase::DraftEdit,
                ErrorCode::DraftCapacity,
                MAX_DRAFT_VIEWS as u64,
            ),
        )
        &&& after == before
    }
    &&& forall|k: int| #[trigger]
        is_first_draft(before.drafts, k) ==> {
            let slot = before.drafts[k];
            if slot.generation == u64::MAX {
                &&& result == Err::<DraftId, MonadError>(
                    MonadError::new(
                        ErrorPhase::DraftEdit,
                        ErrorCode::GenerationOverflow,
                        u64::MAX,
                    ),
                )
                &&& after == (ManagerModel {
                    drafts: before.drafts.update(k, DraftSlotModel { retired: true, ..slot }),
                    ..before
                })
            } else {
                match before.find_published(source) {
                    Err(error) => {
                        &&& result == Err::<DraftId, MonadError>(error)
                        &&& after == before
                    },
                    Ok(p) => match result {
                        Ok(id) => {
                            let draft = after.draft_at(k);
                            &&& id == (DraftId {
                                slot: k as u16,
                                reserved: 0,
                                generation: (slot.generation + 1) as u64,
                                session_nonce: before.session_nonce,
                            })
                            &&& draft.id == id
                            &&& draft.source == source
                            &&& is_clone(before.view_at(p).model, draft.model)
                            &&& after == before.with_draft(
                                k,
                                DraftSlotModel {
                                    generation: (slot.generation + 1) as u64,
                                    retired: false,
                                    draft: Some(draft),
                                },
                            )
                        },
                        Err(error) => {
                            &&& page::shortage::<A>(error)
                            &&& after == before
                        },
                    },
                }
            }
        }
}

/// Cloning a publication publishes nothing.
pub proof fn lemma_create_publishes_nothing<A: EptPageAllocator>(
    before: ManagerModel,
    after: ManagerModel,
    source: ViewId,
    result: MonadResult<DraftId>,
)
    requires
        before.wf(),
        create_effect::<A>(before, after, source, result),
    ensures
        after.published == before.published,
{
    if can_draft(before.drafts[0]) {
        assert(is_first_draft(before.drafts, 0));
    } else if can_draft(before.drafts[1]) {
        assert(is_first_draft(before.drafts, 1));
    }
}

/// What dropping a draft comes to.
pub open spec fn discard_effect(
    before: ManagerModel,
    after: ManagerModel,
    id: DraftId,
    result: MonadResult<()>,
) -> bool {
    match before.find_draft(id) {
        Err(error) => {
            &&& result == Err::<(), MonadError>(error)
            &&& after == before
        },
        Ok(k) => {
            &&& after == before.with_draft(
                k,
                DraftSlotModel { draft: None, ..before.drafts[k] },
            )
            &&& result matches Err(error) ==> error == view::memory_fault(before.draft_at(k).model)
        },
    }
}

/// What allocating a backing comes to.
pub open spec fn allocate_effect<A: EptPageAllocator>(
    before: ManagerModel,
    after: ManagerModel,
    page_count: u32,
    immutable: bool,
    result: MonadResult<BackingId>,
) -> bool {
    let slots = before.backings;
    let slots_after = after.backings;
    let fits = page_count != 0 && backing::held_pages(slots) + page_count
        <= MAX_BACKING_PAGES;
    &&& after == (ManagerModel { backings: after.backings, ..before })
    &&& !fits ==> {
        &&& result == Err::<BackingId, MonadError>(
            MonadError::new(
                ErrorPhase::DraftEdit,
                ErrorCode::BackingCapacity,
                page_count as u64,
            ),
        )
        &&& slots_after == slots
    }
    &&& fits && (forall|k: int|
        0 <= k < slots.len() ==> !backing::is_free(#[trigger] slots[k])) ==> {
        &&& result == Err::<BackingId, MonadError>(
            MonadError::new(
                ErrorPhase::DraftEdit,
                ErrorCode::BackingCapacity,
                page_count as u64,
            ),
        )
        &&& slots_after == slots
    }
    &&& forall|i: int|
        fits && #[trigger] backing::is_first_free(slots, i) ==> if slots[i].generation
            == u64::MAX {
            &&& result == Err::<BackingId, MonadError>(
                MonadError::new(
                    ErrorPhase::DraftEdit,
                    ErrorCode::GenerationOverflow,
                    u64::MAX,
                ),
            )
            &&& slots_after == slots.update(i, SlotModel { retired: true, ..slots[i] })
        } else {
            match result {
                Ok(id) => {
                    &&& id == (BackingId {
                        slot: i as u32,
                        generation: (slots[i].generation + 1) as u64,
                        session_nonce: before.session_nonce,
                    })
                    &&& slots_after[i].generation == id.generation
                    &&& !slots_after[i].retired
                    &&& slots_after[i].object is Some
                    &&& backing::fresh_object(
                        slots_after[i].object.unwrap(),
                        id,
                        page_count,
                        immutable,
                    )
                    &&& slots_after == slots.update(i, slots_after[i])
                },
                Err(error) => {
                    &&& page::shortage::<A>(error)
                    &&& slots_after == slots
                },
            }
        }
}

/// What writing to a backing comes to.
pub open spec fn write_effect(
    before: ManagerModel,
    after: ManagerModel,
    id: BackingId,
    offset: usize,
    data: Seq<u8>,
    result: MonadResult<()>,
) -> bool {
    match backing::lookup(before.backings, id, before.session_nonce) {
        Err(error) => {
            &&& result == Err::<(), MonadError>(error)
            &&& after == before
        },
        Ok(i) => {
            let object = backing::object_at(before.backings, i);
            match backing::write_fault(object, offset, data.len()) {
                Some(error) => {
                    &&& result == Err::<(), MonadError>(error)
                    &&& after == before
                },
                None => {
                    &&& result == Ok::<(), MonadError>(())
                    &&& after == (ManagerModel {
                        backings: backing::with_object(
                            before.backings,
                            i,
                            ObjectModel {
                                contents: backing::overwritten(
                                    object.contents,
                                    offset as int,
                                    data,
                                ),
                                ..object
                            },
                        ),
                        ..before
                    })
                },
            }
        },
    }
}

/// What freeing a backing comes to.
pub open spec fn free_effect(
    before: ManagerModel,
    after: ManagerModel,
    id: BackingId,
    result: MonadResult<()>,
) -> bool {
    match backing::lookup(before.backings, id, before.session_nonce) {
        Err(error) => {
            &&& result == Err::<(), MonadError>(error)
            &&& after == before
        },
        Ok(i) => {
            let object = backing::object_at(before.backings, i);
            if object.target_pinned || object.draft_refs != 0 || object.published_refs
                != 0 {
                &&& result == Err::<(), MonadError>(
                    MonadError::new(
                        ErrorPhase::DraftEdit,
                        ErrorCode::BackingStillReferenced,
                        object.draft_refs as u64 | ((object.published_refs as u64)
                            << 32),
                    ),
                )
                &&& after == before
            } else {
                &&& result == Ok::<(), MonadError>(())
                &&& after == (ManagerModel {
                    backings: before.backings.update(
                        i,
                        SlotModel { object: None, ..before.backings[i] },
                    ),
                    ..before
                })
            }
        },
    }
}

/// What registering a page of a backing as a target comes to: the backing stays
/// from then on.
pub open spec fn register_effect(
    before: ManagerModel,
    after: ManagerModel,
    backing: BackingId,
    page_index: u32,
    result: MonadResult<GuestPhysicalAddress>,
) -> bool {
    let reference = BackingPageReference { backing_id: backing, page_index };
    let i = backing.slot as int;
    match register_fault(before, reference) {
        Some(error) => {
            &&& result == Err::<GuestPhysicalAddress, MonadError>(error)
            &&& after == before
        },
        None => {
            let hpa = backing::page_address(
                before.backings,
                reference,
                before.session_nonce,
            ).unwrap();
            match result {
                Ok(gpa) => {
                    &&& gpa.get() == hpa.get()
                    &&& after == if is_target(before.targets, hpa.get()) {
                        before
                    } else {
                        ManagerModel {
                            targets: before.targets.push((hpa, reference)),
                            backings: backing::with_object(
                                before.backings,
                                i,
                                ObjectModel {
                                    target_pinned: true,
                                    ..backing::object_at(before.backings, i)
                                },
                            ),
                            ..before
                        }
                    }
                },
                Err(error) => {
                    &&& error == MonadError::new(
                        ErrorPhase::DraftEdit,
                        ErrorCode::AllocationFailure,
                        1,
                    )
                    &&& !is_target(before.targets, hpa.get())
                    &&& after == before
                },
            }
        },
    }
}

/// What applying edits to a draft comes to: all of them, or none.
pub open spec fn batch_effect<A: EptPageAllocator>(
    before: ManagerModel,
    after: ManagerModel,
    id: DraftId,
    edits: Seq<DraftEdit>,
    result: MonadResult<()>,
) -> bool {
    &&& result is Err ==> after == before
    &&& if edits.len() == 0 || edits.len() > MAX_BATCH_EDITS {
        result == Err::<(), MonadError>(
            MonadError::new(ErrorPhase::DraftEdit, ErrorCode::InvalidRange, edits.len() as u64),
        )
    } else {
        match before.find_draft(id) {
            Err(error) => result == Err::<(), MonadError>(error),
            Ok(k) => match batch_target_fault(before, edits) {
                Some(error) => result == Err::<(), MonadError>(error),
                None => match result {
                    Ok(_) => {
                        let draft = before.draft_at(k);
                        let model = after.draft_at(k).model;
                        &&& batch_result(
                            before.backings,
                            before.session_nonce,
                            draft.model,
                            edits,
                            model,
                        )
                        &&& after == before.with_draft(
                            k,
                            DraftSlotModel {
                                draft: Some(DraftModel { model, ..draft }),
                                ..before.drafts[k]
                            },
                        )
                    },
                    Err(error) => {
                        ||| page::shortage::<A>(error)
                        ||| batch_refusal(
                            before.backings,
                            before.session_nonce,
                            before.draft_at(k).model,
                            edits,
                            error,
                        )
                    },
                },
            },
        }
    }
}

/// What publishing a draft comes to.
pub open spec fn publish_effect(
    before: ManagerModel,
    after: ManagerModel,
    id: DraftId,
    result: MonadResult<ViewId>,
) -> bool {
    match before.find_draft(id) {
        Err(error) => {
            &&& result == Err::<ViewId, MonadError>(error)
            &&& after == before
        },
        Ok(k) => if before.next_publish_slot >= MAX_PUBLISHED_VIEWS {
            &&& result == Err::<ViewId, MonadError>(
                MonadError::new(
                    ErrorPhase::Publish,
                    ErrorCode::PublishedViewCapacity,
                    before.next_publish_slot as u64,
                ),
            )
            &&& after == before
        } else {
            match result {
                Ok(view_id) => publishes(before, k, after, view_id),
                Err(error) => {
                    &&& after == before
                    &&& {
                        ||| view::figures_fault(before.draft_at(k).model, error)
                        ||| error == view::memory_fault(before.draft_at(k).model)
                    }
                    &&& view::beyond_figures(before.draft_at(k).model.hierarchy) ==> error
                        == MonadError::new(
                        ErrorPhase::DraftEdit,
                        ErrorCode::AddressOverflow,
                        u32::MAX as u64,
                    )
                },
            }
        },
    }
}

/// The targets among the first `n` that lie in a range.
spec fn targets_in(
    targets: Seq<(HostPhysicalAddress, BackingPageReference)>,
    n: int,
    start: int,
    end: int,
) -> Set<u64> {
    Set::new(
        |page: u64| view::in_range(start, end, page) && is_target(targets.take(n), page),
    )
}

/// A view that a batch leaves backed.
proof fn lemma_edit_backed(
    slots: Seq<SlotModel>,
    nonce: u64,
    model: ViewModel,
    edit: DraftEdit,
    hpa: HostPhysicalAddress,
)
    requires
        account::backed(slots, model.overrides, nonce),
        edit matches DraftEdit::MapBacking4K { gpa, backing, permissions, memory_type }
            ==> backing::page_address(slots, backing, nonce) == Ok::<
            HostPhysicalAddress,
            MonadError,
        >(hpa),
    ensures
        account::backed(slots, view::edited(model.overrides, model.types, edit, hpa), nonce),
{
    let after = view::edited(model.overrides, model.types, edit, hpa);
    assert forall|page: u64| #[trigger] after.contains_key(page) implies (
    after[page].backing matches Some(reference) ==> backing::page_address(slots, reference, nonce)
        == Ok::<HostPhysicalAddress, MonadError>(HostPhysicalAddress::at(after[page].hpa))) by {
        if model.overrides.contains_key(page) {
            assert(model.overrides[page].backing matches Some(reference) ==> backing::page_address(
                slots,
                reference,
                nonce,
            ) == Ok::<HostPhysicalAddress, MonadError>(
                HostPhysicalAddress::at(model.overrides[page].hpa),
            ));
        }
    }
}

/// The backing pages that an edited draft adds, and those that it drops.
fn changed_refs<A: EptPageAllocator + Clone>(
    image: &ViewImage<A>,
    old_refs: &[BackingPageReference],
) -> (result: MonadResult<(Vec<BackingPageReference>, Vec<BackingPageReference>)>)
    requires
        image.wf(),
        view::ordered_references(old_refs@),
        old_refs@.no_duplicates(),
    ensures
        match result {
            Ok((added, removed)) => {
                let refs = view::references(image.model().overrides);
                &&& added@.no_duplicates()
                &&& removed@.no_duplicates()
                &&& added@.to_set() == refs.difference(old_refs@.to_set())
                &&& removed@.to_set() == old_refs@.to_set().difference(refs)
            },
            Err(error) => page::shortage::<A>(error),
        },
{
    let new_refs = image.backing_refs()?;
    let added = difference(new_refs.as_slice(), old_refs)?;
    let removed = difference(old_refs, new_refs.as_slice())?;
    Ok((added, removed))
}

impl<A: EptPageAllocator + Clone> EptViewManager<A> {
    /// Whether an edit may be made.
    fn validate_target_edit(&self, edit: DraftEdit) -> (result: MonadResult<()>)
        requires
            self.wf(),
        ensures
            match target_fault(self.model(), edit) {
                Some(error) => result == Err::<(), MonadError>(error),
                None => result == Ok::<(), MonadError>(()),
            },
    {
        if self.unrestricted_edits {
            return Ok(());
        }
        let (start, end) = match edit {
            DraftEdit::SetPermissions { range, permissions: _ } => {
                let _ = range.length();
                (range.start().get(), range.end()?)
            },
            DraftEdit::RestoreFromBase { range } => {
                let _ = range.length();
                (range.start().get(), range.end()?)
            },
            DraftEdit::MapBacking4K { gpa, backing: _, permissions: _, memory_type: _ } => {
                let start: u64 = gpa.get();
                match start.checked_add(PAGE_SIZE_4K) {
                    Some(end) => (start, end),
                    None => {
                        return Err(
                            MonadError::new(
                                ErrorPhase::DraftEdit,
                                ErrorCode::AddressOverflow,
                                start,
                            ),
                        );
                    },
                }
            },
        };
        let ghost targets = self.targets@;
        let ghost pages = (end - start) / 0x1000;
        proof {
            assert(start + 0x1000 * pages == end);
            view::lemma_range_pages(start as int, pages);
            assert(targets_in(targets, 0, start as int, end as int) =~= Set::<u64>::empty());
        }
        let mut covered: u64 = 0;
        let mut k: usize = 0;
        while k < self.targets.len()
            invariant
                self.wf(),
                targets == self.targets@,
                k <= targets.len(),
                covered <= k,
                targets_in(targets, k as int, start as int, end as int).finite(),
                targets_in(targets, k as int, start as int, end as int).len() == covered,
            decreases targets.len() - k,
        {
            let hpa: u64 = self.targets[k].0.get();
            proof {
                let before = targets_in(targets, k as int, start as int, end as int);
                let after = targets_in(targets, k + 1, start as int, end as int);
                assert(account::targets_ok(
                    self.model().backings,
                    targets,
                    self.model().session_nonce,
                ));
                assert(targets[k as int].0.get() == hpa);
                assert(hpa % 0x1000 == 0) by {
                    let i = targets[k as int].1.backing_id.slot as int;
                    assert(backing::page_address(
                        self.model().backings,
                        targets[k as int].1,
                        self.model().session_nonce,
                    ) == Ok::<HostPhysicalAddress, MonadError>(targets[k as int].0));
                    assert(backing::slot_ok(self.model().backings[i], i));
                }
                assert(!is_target(targets.take(k as int), hpa)) by {
                    if is_target(targets.take(k as int), hpa) {
                        let j = choose|j: int|
                            0 <= j < targets.take(k as int).len() && (#[trigger] targets.take(
                                k as int,
                            )[j]).0.get() == hpa;
                        assert(targets[j].0 != targets[k as int].0);
                    }
                }
                assert forall|page: u64| #[trigger] is_target(targets.take(k + 1), page) == (
                is_target(targets.take(k as int), page) || page == hpa) by {
                    if is_target(targets.take(k + 1), page) {
                        let j = choose|j: int|
                            0 <= j < targets.take(k + 1).len() && (#[trigger] targets.take(
                                k + 1,
                            )[j]).0.get() == page;
                        if j < k {
                            assert(targets.take(k as int)[j].0.get() == page);
                        }
                    }
                    if is_target(targets.take(k as int), page) {
                        let j = choose|j: int|
                            0 <= j < targets.take(k as int).len() && (#[trigger] targets.take(
                                k as int,
                            )[j]).0.get() == page;
                        assert(targets.take(k + 1)[j].0.get() == page);
                    }
                    if page == hpa {
                        assert(targets.take(k + 1)[k as int].0.get() == page);
                    }
                }
                if start <= hpa < end {
                    assert(after =~= before.insert(hpa));
                } else {
                    assert(after =~= before);
                }
            }
            if hpa >= start && hpa < end {
                covered += 1;
            }
            k += 1;
        }
        proof {
            let found = targets_in(targets, k as int, start as int, end as int);
            let all = view::range_pages(start as int, pages);
            assert(targets.take(k as int) =~= targets);
            assert(found.subset_of(all));
            let gap = exists|page: u64|
                view::in_range(start as int, end as int, page) && !#[trigger] is_target(
                    targets,
                    page,
                );
            if covered == pages {
                vstd::set_lib::lemma_subset_equality(found, all);
                assert forall|page: u64| view::in_range(
                    start as int,
                    end as int,
                    page,
                ) implies #[trigger] is_target(targets, page) by {
                    assert(all.contains(page));
                    assert(found.contains(page));
                }
                assert(!gap);
            } else if !gap {
                assert forall|page: u64| #[trigger] all.contains(page) implies found.contains(
                    page,
                ) by {
                    assert(view::in_range(start as int, end as int, page));
                    assert(is_target(targets, page));
                }
                assert(found =~= all);
            }
        }
        if covered != (end - start) / PAGE_SIZE_4K {
            return Err(MonadError::new(ErrorPhase::DraftEdit, ErrorCode::AccessDenied, start));
        }
        Ok(())
    }

    /// Whether every edit of a batch may be made.
    fn validate_targets(&self, edits: &[DraftEdit]) -> (result: MonadResult<()>)
        requires
            self.wf(),
            edits@.len() <= MAX_BATCH_EDITS,
        ensures
            match batch_target_fault(self.model(), edits@) {
                Some(error) => result == Err::<(), MonadError>(error),
                None => result == Ok::<(), MonadError>(()),
            },
    {
        let mut k: usize = 0;
        while k < edits.len()
            invariant
                self.wf(),
                k <= edits@.len() <= MAX_BATCH_EDITS,
                batch_target_fault(self.model(), edits@.take(k as int)) is None,
            decreases edits@.len() - k,
        {
            proof {
                assert(edits@.take(k + 1).drop_last() =~= edits@.take(k as int));
                assert(edits@.take(k + 1).last() == edits@[k as int]);
            }
            match self.validate_target_edit(edits[k]) {
                Ok(_) => {},
                Err(error) => {
                    proof {
                        lemma_target_fault_stays(self.model(), edits@, k + 1);
                    }
                    return Err(error.at_operation(k as u32));
                },
            }
            k += 1;
        }
        assert(edits@.take(k as int) =~= edits@);
        Ok(())
    }

    /// Applies a batch to an image that is not yet anyone's.
    fn edit_candidate(&self, image: ViewImage<A>, edits: &[DraftEdit]) -> (result: MonadResult<
        ViewImage<A>,
    >)
        requires
            self.wf(),
            image.wf(),
            account::backed(
                self.model().backings,
                image.model().overrides,
                self.model().session_nonce,
            ),
            edits@.len() <= MAX_BATCH_EDITS,
        ensures
            result matches Ok(candidate) ==> {
                let slots = self.model().backings;
                let nonce = self.model().session_nonce;
                &&& candidate.wf()
                &&& view::same_view(image.model(), candidate.model())
                &&& batch_applies(slots, nonce, image.model(), edits@)
                &&& candidate.model().overrides == after_batch(slots, nonce, image.model(), edits@)
                &&& candidate.model().edit_count == image.model().edit_count + edits@.len()
                &&& account::backed(slots, candidate.model().overrides, nonce)
            },
            result matches Err(error) ==> page::shortage::<A>(error) || exists|k: int| #[trigger]
                fails_at(
                    self.model().backings,
                    self.model().session_nonce,
                    image.model(),
                    edits@,
                    k,
                    error,
                ),
    {
        let ghost slots = self.model().backings;
        let ghost start = image.model();
        let nonce: u64 = self.session_nonce;
        let mut candidate = image;
        proof {
            assert(edits@.take(0) =~= Seq::<DraftEdit>::empty());
        }
        let mut k: usize = 0;
        while k < edits.len()
            invariant
                k <= edits@.len() <= MAX_BATCH_EDITS,
                self.wf(),
                slots == self.backings.view(),
                nonce == self.session_nonce,
                start == image.model(),
                candidate.wf(),
                view::same_view(start, candidate.model()),
                candidate.model().overrides == after_batch(
                    slots,
                    nonce,
                    start,
                    edits@.take(k as int),
                ),
                candidate.model().edit_count == start.edit_count + k,
                account::backed(slots, candidate.model().overrides, nonce),
                forall|j: int|
                    0 <= j < k ==> #[trigger] applies_at(slots, nonce, start, edits@, j),
            decreases edits@.len() - k,
        {
            let edit = edits[k];
            let ghost before = candidate.model();
            let backings = &self.backings;
            let resolve = |reference: BackingPageReference| -> (found: MonadResult<
                HostPhysicalAddress,
            >)
                ensures
                    found == backing::page_address(backings.view(), reference, nonce),
                { backings.page_hpa(reference, nonce) };
            match candidate.apply_edit(edit, resolve) {
                Ok(_) => {},
                Err(error) => {
                    proof {
                        if page::shortage::<A>(error) {
                            page::lemma_shortage_during::<A>(error, k as u32);
                        } else {
                            let found = choose|found: MonadResult<HostPhysicalAddress>|
                                {
                                    &&& #[trigger] view::edit_fault(before, edit, found) == Some(
                                        error,
                                    )
                                    &&& view::seeks_page(before, edit) ==> call_ensures(
                                        resolve,
                                        (edit->backing,),
                                        found,
                                    )
                                };
                            assert(view::edit_fault(before, edit, page_found(slots, nonce, edit))
                                == view::edit_fault(before, edit, found));
                            assert(fault_at(slots, nonce, start, edits@, k as int) == Some(error));
                            assert(fails_at(
                                slots,
                                nonce,
                                start,
                                edits@,
                                k as int,
                                MonadError { operation_index: k as u32, ..error },
                            ));
                        }
                    }
                    let _ = candidate.release();
                    return Err(error.at_operation(k as u32));
                },
            }
            proof {
                let hpa = choose|hpa: HostPhysicalAddress|
                    {
                        &&& #[trigger] view::edit_applies(before, edit, hpa)
                        &&& candidate.model().overrides == view::edited(
                            before.overrides,
                            before.types,
                            edit,
                            hpa,
                        )
                        &&& edit matches DraftEdit::MapBacking4K {
                            gpa,
                            backing,
                            permissions,
                            memory_type,
                        } ==> call_ensures(resolve, (backing,), Ok(hpa))
                    };
                let page = edit_page(slots, nonce, edit);
                assert(edits@.take(k + 1).drop_last() =~= edits@.take(k as int));
                assert(edits@.take(k + 1).last() == edit);
                if edit is MapBacking4K {
                    assert(page == hpa);
                }
                assert(view::edited(before.overrides, before.types, edit, hpa) == view::edited(
                    before.overrides,
                    before.types,
                    edit,
                    page,
                ));
                lemma_edit_backed(slots, nonce, before, edit, page);
                assert(applies_at(slots, nonce, start, edits@, k as int));
            }
            k += 1;
        }
        assert(edits@.take(k as int) =~= edits@);
        Ok(candidate)
    }

    /// Applies a batch of edits to a draft: all of them, or none.
    pub fn apply_batch(&mut self, id: DraftId, edits: &[DraftEdit]) -> (result: MonadResult<()>)
        requires
            old(self).wf(),
        ensures
            final(self).wf(),
            batch_effect::<A>(old(self).model(), final(self).model(), id, edits@, result),
    {
        let ghost before = self.model();
        if edits.len() == 0 || edits.len() > MAX_BATCH_EDITS {
            return Err(
                MonadError::new(
                    ErrorPhase::DraftEdit,
                    ErrorCode::InvalidRange,
                    edits.len() as u64,
                ),
            );
        }
        let index: usize = self.draft_index(id)?;
        self.validate_targets(edits)?;
        let (draft_id, source, old_refs, image) = match &self.drafts[index].draft {
            Some(draft) => {
                let old_refs = draft.image.backing_refs()?;
                let image = draft.image.try_clone_as(EptPageOwner::Draft)?;
                (draft.id, draft.source, old_refs, image)
            },
            None => {
                return Err(stale(id.generation));
            },
        };
        let ghost from = before.draft_at(index as int);
        let ghost maps = draft_maps(before.drafts);
        let ghost published = published_maps(before.published);
        let ghost start = image.model();
        proof {
            assert(maps[index as int] == Some(from.model.overrides));
            image.lemma_wf();
        }
        let candidate = match self.edit_candidate(image, edits) {
            Ok(candidate) => candidate,
            Err(error) => {
                proof {
                    lemma_refusal_start::<A>(before, start, from.model, edits@, error);
                }
                return Err(error);
            },
        };
        proof {
            lemma_applies_start(
                before.backings,
                before.session_nonce,
                start,
                from.model,
                edits@,
                edits@.len() as int,
            );
            assert(edits@.take(edits@.len() as int) =~= edits@);
            candidate.lemma_wf();
        }
        match candidate.verify() {
            Ok(_) => {},
            Err(error) => {
                proof {
                    let told = MonadError { operation_index: edits@.len() as u32, ..error };
                    let edited = ViewModel {
                        overrides: after_batch(
                            before.backings,
                            before.session_nonce,
                            from.model,
                            edits@,
                        ),
                        ..from.model
                    };
                    assert(candidate.model().overrides == edited.overrides);
                    if !candidate.model().all_supported() {
                        let page = choose|page: u64| #[trigger]
                            candidate.model().overrides.contains_key(page) && view::refused(
                                candidate.model().overrides[page].permissions,
                                candidate.model().hierarchy.execute_only,
                            );
                        assert(edited.overrides.contains_key(page));
                    }
                    assert(batch_result(
                        before.backings,
                        before.session_nonce,
                        from.model,
                        edits@,
                        candidate.model(),
                    ));
                    assert(page::shortage::<A>(told) || batch_refusal(
                        before.backings,
                        before.session_nonce,
                        from.model,
                        edits@,
                        told,
                    ));
                }
                let _ = candidate.release();
                return Err(error.at_operation(edits.len() as u32));
            },
        }
        let (added, removed) = match changed_refs(&candidate, old_refs.as_slice()) {
            Ok(changed) => changed,
            Err(error) => {
                let _ = candidate.release();
                return Err(error);
            },
        };
        proof {
            candidate.lemma_wf();
            account::lemma_redraft(
                before.backings,
                maps,
                published,
                before.targets,
                before.session_nonce,
                index as int,
                Some(candidate.model().overrides),
                added@,
                removed@,
            );
        }
        self.backings.adjust_draft_refs(added.as_slice(), self.session_nonce, true)?;
        self.backings.adjust_draft_refs(removed.as_slice(), self.session_nonce, false)?;
        let ghost model = candidate.model();
        let replaced = self.drafts[index].draft.take();
        self.drafts[index].draft = Some(DraftView { id: draft_id, source, image: candidate });
        if let Some(replaced) = replaced {
            let _ = replaced.image.release();
        }
        proof {
            let slot = DraftSlotModel {
                draft: Some(DraftModel { model, ..from }),
                ..before.drafts[index as int]
            };
            assert(self.model().drafts =~= before.drafts.update(index as int, slot));
            assert(self.model().published =~= before.published);
            lemma_draft_maps(before.drafts, index as int, slot);
            assert(self.model() == before.with_draft(index as int, slot));
        }
        Ok(())
    }
}

/// A batch gives the same overrides whatever tables a view has.
proof fn lemma_batch_start(
    slots: Seq<SlotModel>,
    nonce: u64,
    left: ViewModel,
    right: ViewModel,
    edits: Seq<DraftEdit>,
    k: int,
)
    requires
        left.overrides == right.overrides,
        left.types == right.types,
        0 <= k <= edits.len(),
    ensures
        after_batch(slots, nonce, left, edits.take(k)) == after_batch(
            slots,
            nonce,
            right,
            edits.take(k),
        ),
    decreases k,
{
    if k > 0 {
        lemma_batch_start(slots, nonce, left, right, edits, k - 1);
        assert(edits.take(k).drop_last() =~= edits.take(k - 1));
    }
}

/// A view can take the edits of a batch, whatever tables it has.
proof fn lemma_applies_start(
    slots: Seq<SlotModel>,
    nonce: u64,
    left: ViewModel,
    right: ViewModel,
    edits: Seq<DraftEdit>,
    n: int,
)
    requires
        left == (ViewModel { hierarchy: left.hierarchy, ..right }),
        left.hierarchy.bits == right.hierarchy.bits,
        0 <= n <= edits.len(),
        forall|k: int| 0 <= k < n ==> #[trigger] applies_at(slots, nonce, left, edits, k),
    ensures
        forall|k: int| 0 <= k < n ==> #[trigger] applies_at(slots, nonce, right, edits, k),
        after_batch(slots, nonce, left, edits.take(n)) == after_batch(
            slots,
            nonce,
            right,
            edits.take(n),
        ),
{
    assert forall|k: int| 0 <= k < n implies #[trigger] applies_at(
        slots,
        nonce,
        right,
        edits,
        k,
    ) by {
        assert(applies_at(slots, nonce, left, edits, k));
        lemma_batch_start(slots, nonce, left, right, edits, k);
    }
    lemma_batch_start(slots, nonce, left, right, edits, n);
}

/// A view refuses a batch, whatever tables it has.
proof fn lemma_refusal_start<A: EptPageAllocator>(
    manager: ManagerModel,
    left: ViewModel,
    right: ViewModel,
    edits: Seq<DraftEdit>,
    error: MonadError,
)
    requires
        left == (ViewModel { hierarchy: left.hierarchy, ..right }),
        left.hierarchy.bits == right.hierarchy.bits,
        page::shortage::<A>(error) || exists|k: int| #[trigger]
            fails_at(manager.backings, manager.session_nonce, left, edits, k, error),
    ensures
        page::shortage::<A>(error) || batch_refusal(
            manager.backings,
            manager.session_nonce,
            right,
            edits,
            error,
        ),
{
    let slots = manager.backings;
    let nonce = manager.session_nonce;
    if !page::shortage::<A>(error) {
        let k = choose|k: int| #[trigger] fails_at(slots, nonce, left, edits, k, error);
        lemma_applies_start(slots, nonce, left, right, edits, k);
        assert(fault_at(slots, nonce, right, edits, k) == fault_at(slots, nonce, left, edits, k));
        assert(fails_at(slots, nonce, right, edits, k, error));
    }
}

/// What is wrong with the beginning of a batch is wrong with the batch.
proof fn lemma_target_fault_stays(model: ManagerModel, edits: Seq<DraftEdit>, n: int)
    requires
        0 <= n <= edits.len(),
        batch_target_fault(model, edits.take(n)) is Some,
    ensures
        batch_target_fault(model, edits) == batch_target_fault(model, edits.take(n)),
    decreases edits.len() - n,
{
    if n == edits.len() {
        assert(edits.take(n) =~= edits);
    } else {
        assert(edits.take(n + 1).drop_last() =~= edits.take(n));
        lemma_target_fault_stays(model, edits, n + 1);
    }
}

/// What registering a target needs, and the error for what is wanting: a live
/// backing page whose guest page the base view maps write-back.
pub open spec fn register_fault(model: ManagerModel, reference: BackingPageReference) -> Option<
    MonadError,
> {
    match backing::page_address(model.backings, reference, model.session_nonce) {
        Err(error) => Some(error),
        Ok(hpa) => match model.view_at(0).model.walk(GuestPhysicalAddress::at(hpa.get())) {
            WalkResult::Mapping(mapping) => if mapping.memory_type == EptMemoryType::WriteBack {
                None
            } else {
                Some(
                    MonadError::new(
                        ErrorPhase::DraftEdit,
                        ErrorCode::UnsupportedMtrrCombination,
                        hpa.get(),
                    ),
                )
            },
            _ => Some(
                MonadError::new(
                    ErrorPhase::DraftEdit,
                    ErrorCode::UnsupportedMtrrCombination,
                    hpa.get(),
                ),
            ),
        },
    }
}

impl<A: EptPageAllocator + Clone> EptViewManager<A> {
    /// Whether a page is a registered target.
    fn registered(&self, hpa: HostPhysicalAddress) -> (found: bool)
        ensures
            found == is_target(self.model().targets, hpa.get()),
    {
        let mut k: usize = 0;
        while k < self.targets.len()
            invariant
                k <= self.targets@.len(),
                forall|j: int| 0 <= j < k ==> (#[trigger] self.targets@[j]).0.get() != hpa.get(),
            decreases self.targets@.len() - k,
        {
            if self.targets[k].0 == hpa {
                assert(self.targets@[k as int].0.get() == hpa.get());
                return true;
            }
            k += 1;
        }
        false
    }

    /// Registers a backing page as a target that restricted edits may touch.
    /// Its object is kept from then on; a page that is registered stays so.
    pub fn register_target(&mut self, backing: BackingId, page_index: u32) -> (result: MonadResult<
        GuestPhysicalAddress,
    >)
        requires
            old(self).wf(),
        ensures
            final(self).wf(),
            register_effect(old(self).model(), final(self).model(), backing, page_index, result),
    {
        let ghost before = self.model();
        let reference = BackingPageReference { backing_id: backing, page_index };
        let hpa = self.backings.page_hpa(reference, self.session_nonce)?;
        proof {
            let i = backing.slot as int;
            assert(backing::slot_ok(before.backings[i], i));
            super::address::lemma_gpa_at(hpa.get());
        }
        let gpa = GuestPhysicalAddress::from_page_aligned(hpa.get())?;
        proof {
            super::address::lemma_gpa_is_its_number(gpa, GuestPhysicalAddress::at(hpa.get()));
            assert(before.published[0] is Some);
        }
        let base = self.base_id();
        let cached: bool = match self.walk(base, gpa)? {
            WalkResult::Mapping(mapping) => mapping.memory_type == EptMemoryType::WriteBack,
            _ => false,
        };
        if !cached {
            return Err(
                MonadError::new(
                    ErrorPhase::DraftEdit,
                    ErrorCode::UnsupportedMtrrCombination,
                    hpa.get(),
                ),
            );
        }
        if !self.registered(hpa) {
            let reserved = self.targets.try_reserve(1);
            if reserved.is_err() {
                return Err(
                    MonadError::new(ErrorPhase::DraftEdit, ErrorCode::AllocationFailure, 1),
                );
            }
            self.backings.pin_target(backing, self.session_nonce)?;
            self.targets.push((hpa, reference));
            proof {
                let after = self.model();
                let i = backing.slot as int;
                let object = ObjectModel {
                    target_pinned: true,
                    ..backing::object_at(before.backings, i)
                };
                self.backings.lemma_wf();
                account::lemma_same_object(
                    before.backings,
                    draft_maps(before.drafts),
                    published_maps(before.published),
                    before.targets,
                    before.session_nonce,
                    i,
                    object,
                );
                assert(after.drafts =~= before.drafts);
                assert(after.published =~= before.published);
                assert forall|j: int| 0 <= j < after.targets.len() implies {
                    &&& backing::page_address(
                        after.backings,
                        (#[trigger] after.targets[j]).1,
                        after.session_nonce,
                    ) == Ok::<HostPhysicalAddress, MonadError>(after.targets[j].0)
                    &&& backing::object_at(
                        after.backings,
                        after.targets[j].1.backing_id.slot as int,
                    ).target_pinned
                } by {
                    if j < before.targets.len() {
                        assert(after.targets[j] == before.targets[j]);
                    }
                }
                assert forall|j: int, k: int| 0 <= j < k < after.targets.len() implies (
                #[trigger] after.targets[j]).0 != (#[trigger] after.targets[k]).0 by {
                    assert(after.targets[j] == before.targets[j]);
                    if k < before.targets.len() {
                        assert(after.targets[k] == before.targets[k]);
                    }
                }
                assert forall|j: int| 0 <= j < after.backings.len() implies ((
                #[trigger] after.backings[j]).object matches Some(found) ==> found.target_pinned
                    ==> account::holds_target(after.targets, found.id)) by {
                    if j == i {
                        assert(after.targets[before.targets.len() as int].1.backing_id == backing);
                    } else if let Some(found) = before.backings[j].object {
                        assert(after.backings[j] == before.backings[j]);
                        if found.target_pinned {
                            let k = choose|k: int|
                                0 <= k < before.targets.len() && (
                                #[trigger] before.targets[k]).1.backing_id == found.id;
                            assert(after.targets[k] == before.targets[k]);
                        }
                    }
                }
            }
        }
        Ok(gpa)
    }

    /// Allocates a backing object of zeroed pages. Where that fails, the source
    /// of pages has back all that it gave.
    pub fn allocate_backing(&mut self, page_count: u32, immutable: bool) -> (result: MonadResult<
        BackingId,
    >)
        requires
            old(self).wf(),
        ensures
            final(self).wf(),
            allocate_effect::<A>(old(self).model(), final(self).model(), page_count, immutable, result),
            result matches Err(error) ==> final(self).registry().asked() == old(
                self,
            ).registry().asked() && final(self).registry().returned() == old(
                self,
            ).registry().returned() || backing::allocation_refused(
                old(self).registry(),
                final(self).registry(),
                page_count as u64,
                error,
            ),
            result is Ok ==> final(self).registry().returned() == old(self).registry().returned(),
    {
        let ghost before = self.model();
        proof {
            if forall|i: int| !(#[trigger] backing::is_first_free(before.backings, i)) {
                assert forall|k: int| 0 <= k < before.backings.len() implies !backing::is_free(
                    #[trigger] before.backings[k],
                ) by {
                    lemma_none_free(before.backings, k);
                }
            }
        }
        let result = self.backings.allocate(
            page_count,
            self.session_nonce,
            self.max_physical_bits,
            immutable,
        );
        proof {
            let after = self.model();
            let slots = before.backings;
            self.backings.lemma_wf();
            assert(after.drafts =~= before.drafts);
            assert(after.published =~= before.published);
            if after.backings != slots {
                assert(exists|i: int| #[trigger] backing::is_first_free(slots, i)) by {
                    if forall|i: int| !(#[trigger] backing::is_first_free(slots, i)) {
                        assert forall|k: int| 0 <= k < slots.len() implies !backing::is_free(
                            #[trigger] slots[k],
                        ) by {
                            lemma_none_free(slots, k);
                        }
                    }
                }
                let i = choose|i: int| #[trigger] backing::is_first_free(slots, i);
                assert(after.backings =~= slots.update(i, after.backings[i]));
                account::lemma_unused_slot(
                    slots,
                    after.backings,
                    draft_maps(before.drafts),
                    published_maps(before.published),
                    before.targets,
                    before.session_nonce,
                    i,
                );
            }
        }
        result
    }

    /// Overwrites bytes of a backing object that is still mutable.
    pub fn write_backing(&mut self, id: BackingId, offset: usize, data: &[u8]) -> (result:
        MonadResult<()>)
        requires
            old(self).wf(),
        ensures
            final(self).wf(),
            write_effect(old(self).model(), final(self).model(), id, offset, data@, result),
    {
        let ghost before = self.model();
        let result = self.backings.write(id, self.session_nonce, offset, data);
        proof {
            self.backings.lemma_wf();
            assert(self.model().drafts =~= before.drafts);
            assert(self.model().published =~= before.published);
            if let Ok(i) = backing::lookup(before.backings, id, before.session_nonce) {
                let object = backing::object_at(before.backings, i);
                if backing::write_fault(object, offset, data@.len()) is None {
                    account::lemma_same_object(
                        before.backings,
                        draft_maps(before.drafts),
                        published_maps(before.published),
                        before.targets,
                        before.session_nonce,
                        i,
                        ObjectModel {
                            contents: backing::overwritten(object.contents, offset as int, data@),
                            ..object
                        },
                    );
                }
            }
        }
        result
    }

    /// Frees a backing object that no view uses and that is no target.
    pub fn free_backing(&mut self, id: BackingId) -> (result: MonadResult<()>)
        requires
            old(self).wf(),
        ensures
            final(self).wf(),
            free_effect(old(self).model(), final(self).model(), id, result),
    {
        let ghost before = self.model();
        let result = self.backings.free(id, self.session_nonce);
        proof {
            self.backings.lemma_wf();
            assert(self.model().drafts =~= before.drafts);
            assert(self.model().published =~= before.published);
            if let Ok(i) = backing::lookup(before.backings, id, before.session_nonce) {
                let object = backing::object_at(before.backings, i);
                if !object.target_pinned && object.draft_refs == 0 && object.published_refs == 0 {
                    account::lemma_unused_slot(
                        before.backings,
                        self.model().backings,
                        draft_maps(before.drafts),
                        published_maps(before.published),
                        before.targets,
                        before.session_nonce,
                        i,
                    );
                }
            }
        }
        result
    }

    /// What may still be done to a backing object.
    pub fn backing_state(&self, id: BackingId) -> (result: MonadResult<BackingState>)
        requires
            self.wf(),
        ensures
            result == match backing::lookup(
                self.model().backings,
                id,
                self.model().session_nonce,
            ) {
                Err(error) => Err::<BackingState, MonadError>(error),
                Ok(i) => Ok(backing::object_at(self.model().backings, i).state),
            },
    {
        self.backings.state(id, self.session_nonce)
    }

    /// The counts and the state of the object in a slot.
    pub fn backing_counts(&self, id: BackingId) -> (counts: Option<(u32, u32, BackingState)>)
        requires
            self.wf(),
        ensures
            counts == if id.slot < MAX_BACKING_PAGES {
                match self.model().backings[id.slot as int].object {
                    Some(object) => Some(
                        (object.draft_refs, object.published_refs, object.state),
                    ),
                    None => None,
                }
            } else {
                None
            },
    {
        proof {
            self.backings.lemma_wf();
        }
        self.backings.counts(id)
    }

    /// The bytes of one page of a backing object.
    pub fn backing_page(&self, id: BackingId, page: u32) -> (result: MonadResult<&[u8; 4096]>)
        requires
            self.wf(),
        ensures
            match backing::lookup(self.model().backings, id, self.model().session_nonce) {
                Err(error) => result == Err::<&[u8; 4096], MonadError>(error),
                Ok(i) => {
                    let object = backing::object_at(self.model().backings, i);
                    match result {
                        Ok(bytes) => {
                            &&& page < object.hpas.len()
                            &&& bytes@ == object.contents.subrange(4096 * page, 4096 * (page + 1))
                        },
                        Err(error) => {
                            &&& page >= object.hpas.len()
                            &&& error == MonadError::new(
                                ErrorPhase::DraftEdit,
                                ErrorCode::InvalidRange,
                                page as u64,
                            )
                        },
                    }
                },
            },
    {
        self.backings.snapshot_page(id, self.session_nonce, page)
    }
}

/// Where no slot is the first that is free, none is free.
pub proof fn lemma_none_free(slots: Seq<SlotModel>, k: int)
    requires
        0 <= k < slots.len(),
        forall|i: int| !(#[trigger] backing::is_first_free(slots, i)),
    ensures
        !backing::is_free(slots[k]),
    decreases k,
{
    assert forall|j: int| 0 <= j < k implies !backing::is_free(#[trigger] slots[j]) by {
        lemma_none_free(slots, j);
    }
    assert(!backing::is_first_free(slots, k));
}

/// Publications stay as they are when a draft is published.
pub proof fn law_publications_stay(before: ManagerModel, k: int, after: ManagerModel, view_id: ViewId)
    requires
        before.wf(),
        before.next_publish_slot < MAX_PUBLISHED_VIEWS,
        publishes(before, k, after, view_id),
    ensures
        forall|p: int|
            0 <= p < before.published.len() && before.published[p] is Some
                ==> #[trigger] after.published[p] == before.published[p],
{
    assert(before.published[before.next_publish_slot as int] is None);
}

/// A page that no edit of a batch touches stays as it is.
pub proof fn law_batch_touches_its_pages(
    slots: Seq<SlotModel>,
    nonce: u64,
    before: ViewModel,
    edits: Seq<DraftEdit>,
    after: ViewModel,
    page: u64,
)
    requires
        batch_result(slots, nonce, before, edits, after),
        page % 0x1000 == 0,
        forall|k: int|
            0 <= k < edits.len() ==> !view::in_range(
                edit_span(#[trigger] edits[k]).0,
                edit_span(edits[k]).1,
                page,
            ),
    ensures
        after.state(page) == before.state(page),
{
    lemma_untouched(slots, nonce, before, edits, page);
}

proof fn lemma_untouched(
    slots: Seq<SlotModel>,
    nonce: u64,
    before: ViewModel,
    edits: Seq<DraftEdit>,
    page: u64,
)
    requires
        page % 0x1000 == 0,
        forall|k: int|
            0 <= k < edits.len() ==> !view::in_range(
                edit_span(#[trigger] edits[k]).0,
                edit_span(edits[k]).1,
                page,
            ),
    ensures
        view::state_at(after_batch(slots, nonce, before, edits), before.types, page)
            == before.state(page),
    decreases edits.len(),
{
    if edits.len() > 0 {
        let rest = edits.drop_last();
        assert forall|k: int| 0 <= k < rest.len() implies !view::in_range(
            edit_span(#[trigger] rest[k]).0,
            edit_span(rest[k]).1,
            page,
        ) by {
            assert(rest[k] == edits[k]);
        }
        lemma_untouched(slots, nonce, before, rest, page);
        let last = edits.last();
        assert(edits[edits.len() - 1] == last);
        assert(!view::in_range(edit_span(last).0, edit_span(last).1, page));
    }
}

/// What a permission edit leaves of a page: all but its permissions.
pub proof fn law_permissions_keep_the_page(
    model: ViewModel,
    edit: DraftEdit,
    hpa: HostPhysicalAddress,
    page: u64,
)
    requires
        edit matches DraftEdit::SetPermissions { range, permissions },
        view::in_range(edit_span(edit).0, edit_span(edit).1, page),
    ensures
        view::state_at(
            view::edited(model.overrides, model.types, edit, hpa),
            model.types,
            page,
        ) == (PageState { permissions: edit->SetPermissions_permissions, ..model.state(page) }),
{
}

/// A restored page is the base view's, whatever was done to it before.
pub proof fn law_restore_undoes(
    model: ViewModel,
    edit: DraftEdit,
    hpa: HostPhysicalAddress,
    page: u64,
)
    requires
        edit is RestoreFromBase,
        view::in_range(edit_span(edit).0, edit_span(edit).1, page),
    ensures
        view::state_at(
            view::edited(model.overrides, model.types, edit, hpa),
            model.types,
            page,
        ) == view::base_state(model.types, page),
{
}

/// A backing page that a view maps is alive, and its object is counted, so
/// that it is not freed.
pub proof fn law_mapped_backing_is_kept(model: ManagerModel, k: int, published: bool, page: u64)
    requires
        model.wf(),
        ({
            let views = if published {
                published_maps(model.published)
            } else {
                draft_maps(model.drafts)
            };
            &&& 0 <= k < views.len()
            &&& views[k] is Some
            &&& views[k].unwrap().contains_key(page)
            &&& views[k].unwrap()[page].backing is Some
        }),
    ensures
        ({
            let views = if published {
                published_maps(model.published)
            } else {
                draft_maps(model.drafts)
            };
            let state = views[k].unwrap()[page];
            let reference = state.backing.unwrap();
            let object = backing::object_at(model.backings, reference.backing_id.slot as int);
            &&& backing::page_address(model.backings, reference, model.session_nonce) == Ok::<
                HostPhysicalAddress,
                MonadError,
            >(HostPhysicalAddress::at(state.hpa))
            &&& backing::lookup(model.backings, reference.backing_id, model.session_nonce) is Ok
            &&& backing::count_of(object, published) > 0
        }),
{
    let views = if published {
        published_maps(model.published)
    } else {
        draft_maps(model.drafts)
    };
    let overrides = views[k].unwrap();
    let reference = overrides[page].backing.unwrap();
    let i = reference.backing_id.slot as int;
    assert(account::backed(model.backings, overrides, model.session_nonce));
    assert(overrides.contains_key(page));
    account::lemma_uses_update(views, k, None, i);
    account::lemma_used_bound(model.backings, overrides, model.session_nonce, i);
    let used = account::used_pages(overrides, i);
    assert(view::references(overrides).contains(reference));
    assert(used.contains(reference));
    if used.len() == 0 {
        used.lemma_len0_is_empty();
    }
    assert(model.backings[i].object is Some);
}

/// What a publication maps cannot be written any more.
pub proof fn law_published_backing_is_immutable(
    model: ManagerModel,
    k: int,
    page: u64,
    offset: usize,
    len: nat,
)
    requires
        model.wf(),
        0 <= k < model.published.len(),
        model.published[k] is Some,
        model.view_at(k).model.overrides.contains_key(page),
        model.view_at(k).model.overrides[page].backing is Some,
    ensures
        ({
            let reference = model.view_at(k).model.overrides[page].backing.unwrap();
            let object = backing::object_at(model.backings, reference.backing_id.slot as int);
            backing::write_fault(object, offset, len) is Some
        }),
{
    let reference = model.view_at(k).model.overrides[page].backing.unwrap();
    let i = reference.backing_id.slot as int;
    assert(published_maps(model.published)[k] == Some(model.view_at(k).model.overrides));
    law_mapped_backing_is_kept(model, k, true, page);
    assert(model.backings[i].object is Some);
}

/// Names from another instance name nothing here.
pub proof fn law_foreign_names_are_refused(
    model: ManagerModel,
    view: ViewId,
    draft: DraftId,
    backing: BackingId,
)
    requires
        model.wf(),
        view.generation != model.session_nonce,
        draft.session_nonce != model.session_nonce,
        backing.session_nonce != model.session_nonce,
    ensures
        model.find_published(view) is Err,
        model.find_draft(draft) is Err,
        backing::lookup(model.backings, backing, model.session_nonce) is Err,
{
    if view.slot < model.published.len() {
        assert(model.published[view.slot as int] matches Some(found) ==> found.id.generation
            == model.session_nonce);
    }
}

/// A registered target is not freed.
pub proof fn law_target_is_kept(model: ManagerModel, k: int)
    requires
        model.wf(),
        0 <= k < model.targets.len(),
    ensures
        backing::page_address(model.backings, model.targets[k].1, model.session_nonce) == Ok::<
            HostPhysicalAddress,
            MonadError,
        >(model.targets[k].0),
        backing::object_at(
            model.backings,
            model.targets[k].1.backing_id.slot as int,
        ).target_pinned,
{
    assert(account::targets_ok(model.backings, model.targets, model.session_nonce));
}

} // verus!
