//! Pages that back mappings, and the registry that counts who uses them.

use vstd::prelude::*;

use super::address::HostPhysicalAddress;
use super::page;
use super::page::EptPageAllocator;
use super::view::{next_generation, validate_generation};
use crate::bits;
use crate::error::{ErrorCode, ErrorPhase, MonadError, MonadResult};

verus! {

broadcast use super::address::group_host_addresses;

pub const MAX_BACKING_PAGES: usize = 4096;

/// Names one backing object of one session.
#[derive(Debug, Clone, Copy, PartialEq, Eq, PartialOrd, Ord, Structural)]
pub struct BackingId {
    pub slot: u32,
    pub generation: u64,
    pub session_nonce: u64,
}

/// Names one page of a backing object.
#[derive(Debug, Clone, Copy, PartialEq, Eq, PartialOrd, Ord, Structural)]
pub struct BackingPageReference {
    pub backing_id: BackingId,
    pub page_index: u32,
}

/// What may still be done to a backing object.
#[derive(Debug, Clone, Copy, PartialEq, Eq, Structural)]
pub enum BackingState {
    Mutable,
    Immutable,
    PublishedPinned,
}

impl BackingState {
    pub open spec fn spec_code(self) -> u8 {
        match self {
            BackingState::Mutable => 1,
            BackingState::Immutable => 2,
            BackingState::PublishedPinned => 3,
        }
    }

    #[verifier::when_used_as_spec(spec_code)]
    pub fn code(self) -> (code: u8)
        ensures
            code == self.spec_code(),
    {
        match self {
            BackingState::Mutable => 1,
            BackingState::Immutable => 2,
            BackingState::PublishedPinned => 3,
        }
    }
}

/// What makes a backing's name unusable in a session.
pub open spec fn backing_id_fault(id: BackingId, session_nonce: u64) -> Option<MonadError> {
    if id.generation == 0 {
        Some(MonadError::new(ErrorPhase::DraftEdit, ErrorCode::StaleHandle, 0))
    } else if id.session_nonce != session_nonce {
        Some(MonadError::new(ErrorPhase::DraftEdit, ErrorCode::WrongSession, id.session_nonce))
    } else {
        None
    }
}

impl BackingId {
    pub fn validate(self, active_session_nonce: u64) -> (result: MonadResult<()>)
        ensures
            match backing_id_fault(self, active_session_nonce) {
                Some(error) => result == Err::<(), MonadError>(error),
                None => result == Ok::<(), MonadError>(()),
            },
    {
        validate_generation(self.generation, ErrorPhase::DraftEdit)?;
        if self.session_nonce != active_session_nonce {
            return Err(backing_error(ErrorCode::WrongSession, self.session_nonce));
        }
        Ok(())
    }
}

fn backing_error(code: ErrorCode, detail: u64) -> (error: MonadError)
    ensures
        error == MonadError::new(ErrorPhase::DraftEdit, code, detail),
{
    MonadError::new(ErrorPhase::DraftEdit, code, detail)
}

struct BackingPage<T> {
    allocation: T,
    hpa: HostPhysicalAddress,
}

struct BackingObject<A: EptPageAllocator> {
    id: BackingId,
    pages: Vec<BackingPage<A::Allocation>>,
    state: BackingState,
    draft_refs: u32,
    published_refs: u32,
    target_pinned: bool,
}

struct BackingSlot<A: EptPageAllocator> {
    generation: u64,
    retired: bool,
    object: Option<BackingObject<A>>,
}

/// A backing object as contracts see it: its pages' addresses, and their
/// bytes one after the other.
pub struct ObjectModel {
    pub id: BackingId,
    pub hpas: Seq<u64>,
    pub contents: Seq<u8>,
    pub state: BackingState,
    pub draft_refs: u32,
    pub published_refs: u32,
    pub target_pinned: bool,
}

/// A slot of the registry as contracts see it.
pub struct SlotModel {
    pub generation: u64,
    pub retired: bool,
    pub object: Option<ObjectModel>,
}

impl<A: EptPageAllocator> BackingObject<A> {
    spec fn hpas(&self) -> Seq<u64> {
        self.pages@.map_values(|page: BackingPage<A::Allocation>| page.hpa.get())
    }

    spec fn contents(&self) -> Seq<u8> {
        Seq::new(
            4096 * self.pages@.len(),
            |k: int| A::octets(self.pages@[k / 4096].allocation)@[k % 4096],
        )
    }

    spec fn model(&self) -> ObjectModel {
        ObjectModel {
            id: self.id,
            hpas: self.hpas(),
            contents: self.contents(),
            state: self.state,
            draft_refs: self.draft_refs,
            published_refs: self.published_refs,
            target_pinned: self.target_pinned,
        }
    }
}

spec fn slot_model<A: EptPageAllocator>(slot: BackingSlot<A>) -> SlotModel {
    SlotModel {
        generation: slot.generation,
        retired: slot.retired,
        object: match slot.object {
            Some(object) => Some(object.model()),
            None => None,
        },
    }
}

/// The pages that a slot holds.
pub open spec fn slot_pages(slot: SlotModel) -> nat {
    match slot.object {
        Some(object) => object.hpas.len(),
        None => 0,
    }
}

/// The pages that slots hold.
pub open spec fn held_pages(slots: Seq<SlotModel>) -> nat
    decreases slots.len(),
{
    if slots.len() == 0 {
        0
    } else {
        held_pages(slots.drop_last()) + slot_pages(slots.last())
    }
}

/// An object stands in the slot and the generation that its name says, and
/// has a page or more.
pub open spec fn slot_ok(slot: SlotModel, index: int) -> bool {
    slot.object matches Some(object) ==> {
        &&& object.id.slot == index
        &&& object.id.generation == slot.generation
        &&& slot.generation != 0
        &&& 0 < object.hpas.len() <= MAX_BACKING_PAGES
        &&& object.contents.len() == 4096 * object.hpas.len()
        &&& forall|k: int| 0 <= k < object.hpas.len() ==> #[trigger] object.hpas[k] % 0x1000 == 0
    }
}

/// What holds of a registry's slots.
pub open spec fn slots_ok(slots: Seq<SlotModel>) -> bool {
    &&& slots.len() == MAX_BACKING_PAGES
    &&& held_pages(slots) <= MAX_BACKING_PAGES
    &&& forall|i: int| 0 <= i < slots.len() ==> slot_ok(#[trigger] slots[i], i)
}

/// One slot more or less.
proof fn lemma_held_update(slots: Seq<SlotModel>, i: int, slot: SlotModel)
    requires
        0 <= i < slots.len(),
    ensures
        held_pages(slots.update(i, slot)) == held_pages(slots) - slot_pages(slots[i]) + slot_pages(
            slot,
        ),
    decreases slots.len(),
{
    let after = slots.update(i, slot);
    if i == slots.len() - 1 {
        assert(after.drop_last() =~= slots.drop_last());
    } else {
        lemma_held_update(slots.drop_last(), i, slot);
        assert(after.drop_last() =~= slots.drop_last().update(i, slot));
    }
}

/// A slot holds no more than all do.
proof fn lemma_held_bound(slots: Seq<SlotModel>, i: int)
    requires
        0 <= i < slots.len(),
    ensures
        slot_pages(slots[i]) <= held_pages(slots),
    decreases slots.len(),
{
    if i < slots.len() - 1 {
        lemma_held_bound(slots.drop_last(), i);
    }
}

/// Empty slots hold nothing.
proof fn lemma_held_none(slots: Seq<SlotModel>)
    requires
        forall|i: int| 0 <= i < slots.len() ==> (#[trigger] slots[i]).object is None,
    ensures
        held_pages(slots) == 0,
    decreases slots.len(),
{
    if slots.len() > 0 {
        lemma_held_none(slots.drop_last());
    }
}

/// A slot that can take an object.
pub open spec fn is_free(slot: SlotModel) -> bool {
    slot.object is None && !slot.retired
}

/// The first slot that can take an object.
pub open spec fn is_first_free(slots: Seq<SlotModel>, i: int) -> bool {
    &&& 0 <= i < slots.len()
    &&& is_free(slots[i])
    &&& forall|k: int| 0 <= k < i ==> !is_free(#[trigger] slots[k])
}

/// The slot that a name stands for, or what is wrong with the name.
pub open spec fn lookup(slots: Seq<SlotModel>, id: BackingId, session_nonce: u64) -> Result<
    int,
    MonadError,
> {
    match backing_id_fault(id, session_nonce) {
        Some(error) => Err(error),
        None => if id.slot >= slots.len() {
            Err(MonadError::new(ErrorPhase::DraftEdit, ErrorCode::StaleHandle, id.slot as u64))
        } else if slots[id.slot as int].generation != id.generation
            || slots[id.slot as int].object is None {
            Err(MonadError::new(ErrorPhase::DraftEdit, ErrorCode::StaleHandle, id.generation))
        } else {
            Ok(id.slot as int)
        },
    }
}

/// The object that a name stands for.
pub open spec fn object_at(slots: Seq<SlotModel>, i: int) -> ObjectModel {
    slots[i].object.unwrap()
}

/// Slots in which one object is another.
pub open spec fn with_object(slots: Seq<SlotModel>, i: int, object: ObjectModel) -> Seq<SlotModel> {
    slots.update(i, SlotModel { object: Some(object), ..slots[i] })
}

/// Bytes after some of them were overwritten.
pub open spec fn overwritten(contents: Seq<u8>, offset: int, data: Seq<u8>) -> Seq<u8> {
    Seq::new(
        contents.len(),
        |k: int|
            if offset <= k < offset + data.len() {
                data[k - offset]
            } else {
                contents[k]
            },
    )
}

/// Zero bytes.
pub open spec fn zeroes(len: nat) -> Seq<u8> {
    Seq::new(len, |k: int| 0u8)
}

/// The address behind a reference, or what is wrong with the reference.
pub open spec fn page_address(
    slots: Seq<SlotModel>,
    reference: BackingPageReference,
    session_nonce: u64,
) -> MonadResult<HostPhysicalAddress> {
    match lookup(slots, reference.backing_id, session_nonce) {
        Err(error) => Err(error),
        Ok(i) => if object_at(slots, i).id != reference.backing_id {
            Err(
                MonadError::new(
                    ErrorPhase::DraftEdit,
                    ErrorCode::StaleHandle,
                    reference.backing_id.generation,
                ),
            )
        } else if reference.page_index >= object_at(slots, i).hpas.len() {
            Err(
                MonadError::new(
                    ErrorPhase::DraftEdit,
                    ErrorCode::InvalidRange,
                    reference.page_index as u64,
                ),
            )
        } else {
            Ok(HostPhysicalAddress::at(object_at(slots, i).hpas[reference.page_index as int]))
        },
    }
}

/// What stands in the way of a write, if anything.
pub open spec fn write_fault(object: ObjectModel, offset: usize, len: nat) -> Option<MonadError> {
    if object.state != BackingState::Mutable {
        Some(
            MonadError::new(
                ErrorPhase::DraftEdit,
                ErrorCode::WrongObjectState,
                object.state.spec_code() as u64,
            ),
        )
    } else if offset + len > usize::MAX {
        Some(MonadError::new(ErrorPhase::DraftEdit, ErrorCode::AddressOverflow, offset as u64))
    } else if offset + len > object.contents.len() {
        Some(
            MonadError::new(ErrorPhase::DraftEdit, ErrorCode::InvalidRange, (offset + len) as u64),
        )
    } else {
        None
    }
}

impl<A: EptPageAllocator> BackingObject<A> {
    /// Overwrites bytes of the object.
    fn write(&mut self, offset: usize, data: &[u8])
        requires
            offset + data@.len() <= old(self).contents().len(),
            offset + data@.len() <= usize::MAX,
        ensures
            final(self).model() == (ObjectModel {
                contents: overwritten(old(self).contents(), offset as int, data@),
                ..old(self).model()
            }),
    {
        let ghost first = self.contents();
        proof {
            assert(overwritten(first, offset as int, data@.take(0)) =~= first);
        }
        let mut copied: usize = 0;
        while copied < data.len()
            invariant
                copied <= data@.len(),
                first == old(self).contents(),
                first.len() == 4096 * self.pages@.len(),
                offset + data@.len() <= first.len(),
                offset + data@.len() <= usize::MAX,
                self.contents() == overwritten(first, offset as int, data@.take(copied as int)),
                self.hpas() == old(self).hpas(),
                self.id == old(self).id,
                self.state == old(self).state,
                self.draft_refs == old(self).draft_refs,
                self.published_refs == old(self).published_refs,
                self.target_pinned == old(self).target_pinned,
            decreases data@.len() - copied,
        {
            let absolute: usize = offset + copied;
            let page: usize = absolute / 4096;
            let inside: usize = absolute % 4096;
            let byte: u8 = data[copied];
            let ghost before = self.contents();
            let ghost pages = self.pages@;
            let bytes = A::bytes_mut(&mut self.pages[page].allocation);
            bytes[inside] = byte;
            proof {
                assert forall|k: int| 0 <= k < before.len() implies #[trigger] self.contents()[k]
                    == (if k == absolute {
                    byte
                } else {
                    before[k]
                }) by {
                    if k / 4096 == page {
                        if k % 4096 == inside {
                            assert(k == absolute);
                        }
                    }
                }
                assert(self.contents() =~= overwritten(
                    first,
                    offset as int,
                    data@.take(copied + 1),
                ));
                assert(self.hpas() =~= old(self).hpas());
            }
            copied += 1;
        }
        assert(data@.take(copied as int) =~= data@);
    }
}

/// The backing objects of one manager.
pub struct BackingRegistry<A: EptPageAllocator + Clone> {
    allocator: A,
    slots: Vec<BackingSlot<A>>,
    live_pages: usize,
}

/// The allocations behind pages, the last first.
spec fn last_first<T>(pages: Seq<BackingPage<T>>) -> Seq<T> {
    pages.reverse().map_values(|page: BackingPage<T>| page.allocation)
}

/// The addresses of pages, as their source gave them.
spec fn addresses<T>(pages: Seq<BackingPage<T>>) -> Seq<MonadResult<u64>> {
    pages.map_values(|page: BackingPage<T>| Ok::<u64, MonadError>(page.hpa.get()))
}

/// An allocation that failed: there was no memory to keep track of its pages,
/// and none was taken; or the source refused one, and has all back.
pub open spec fn allocation_refused<A: EptPageAllocator + Clone>(
    before: BackingRegistry<A>,
    after: BackingRegistry<A>,
    requested: u64,
    error: MonadError,
) -> bool {
    ||| {
        &&& error == MonadError::new(
            ErrorPhase::DraftEdit,
            ErrorCode::AllocationFailure,
            requested,
        )
        &&& after.asked() == before.asked()
        &&& after.returned() == before.returned()
    }
    ||| {
        &&& A::refuses(error)
        &&& page::all_given_back::<A>(
            before.asked(),
            after.asked(),
            before.returned(),
            after.returned(),
            error,
        )
    }
}

/// The allocations that slots hold, slot by slot, and in each the last first.
spec fn slot_by_slot<A: EptPageAllocator>(slots: Seq<BackingSlot<A>>) -> Seq<A::Allocation>
    decreases slots.len(),
{
    if slots.len() == 0 {
        Seq::empty()
    } else {
        slot_by_slot(slots.drop_last()) + in_slot(slots.last())
    }
}

/// The allocations that a slot holds, the last first.
spec fn in_slot<A: EptPageAllocator>(slot: BackingSlot<A>) -> Seq<A::Allocation> {
    match slot.object {
        Some(object) => last_first(object.pages@),
        None => Seq::empty(),
    }
}

impl<A: EptPageAllocator + Clone> BackingRegistry<A> {
    /// What the source of pages was asked for, and gave.
    pub closed spec fn asked(&self) -> Seq<MonadResult<u64>> {
        self.allocator.asked()
    }

    /// The pages that went back to their source.
    pub closed spec fn returned(&self) -> Seq<A::Allocation> {
        self.allocator.returned()
    }

    /// The allocations behind the object in a slot, the last page first.
    pub closed spec fn held_in(&self, slot: int) -> Seq<A::Allocation> {
        in_slot(self.slots@[slot])
    }

    /// All allocations, slot by slot, and in each the last page first.
    pub closed spec fn held(&self) -> Seq<A::Allocation> {
        slot_by_slot(self.slots@)
    }

    /// The slots.
    pub closed spec fn view(&self) -> Seq<SlotModel> {
        self.slots@.map_values(|slot: BackingSlot<A>| slot_model(slot))
    }

    /// The registry's invariant.
    pub closed spec fn wf(&self) -> bool {
        &&& slots_ok(self.view())
        &&& self.live_pages == held_pages(self.view())
    }

    /// What the invariant says of the slots.
    pub proof fn lemma_wf(&self)
        requires
            self.wf(),
        ensures
            slots_ok(self.view()),
    {
    }

    /// A registry that holds nothing.
    pub fn new(allocator: A) -> (result: MonadResult<Self>)
        ensures
            match result {
                Ok(registry) => {
                    &&& registry.wf()
                    &&& forall|i: int|
                        0 <= i < MAX_BACKING_PAGES ==> #[trigger] registry.view()[i] == (SlotModel {
                            generation: 0,
                            retired: false,
                            object: None,
                        })
                },
                Err(error) => error == MonadError::new(
                    ErrorPhase::DraftEdit,
                    ErrorCode::AllocationFailure,
                    MAX_BACKING_PAGES as u64,
                ),
            },
    {
        let mut slots: Vec<BackingSlot<A>> = Vec::new();
        let reserved = slots.try_reserve(MAX_BACKING_PAGES);
        if reserved.is_err() {
            return Err(backing_error(ErrorCode::AllocationFailure, MAX_BACKING_PAGES as u64));
        }
        let mut i: usize = 0;
        while i < MAX_BACKING_PAGES
            invariant
                i <= MAX_BACKING_PAGES,
                slots@.len() == i,
                forall|k: int|
                    0 <= k < i ==> slot_model(#[trigger] slots@[k]) == (SlotModel {
                        generation: 0,
                        retired: false,
                        object: None,
                    }),
            decreases MAX_BACKING_PAGES - i,
        {
            slots.push(BackingSlot { generation: 0, retired: false, object: None });
            i += 1;
        }
        let registry = BackingRegistry { allocator, slots, live_pages: 0 };
        proof {
            assert forall|k: int| 0 <= k < MAX_BACKING_PAGES implies #[trigger] registry.view()[k]
                == (SlotModel { generation: 0, retired: false, object: None }) by {
                assert(slot_model(registry.slots@[k]) == registry.view()[k]);
            }
            lemma_held_none(registry.view());
        }
        Ok(registry)
    }

    /// The slot that a name stands for.
    fn find(&self, id: BackingId, nonce: u64) -> (result: MonadResult<usize>)
        requires
            self.wf(),
        ensures
            match lookup(self.view(), id, nonce) {
                Ok(i) => {
                    &&& result == Ok::<usize, MonadError>(i as usize)
                    &&& i == id.slot
                    &&& i < self.slots@.len()
                    &&& self.slots@[i].object is Some
                    &&& self.view()[i] == slot_model(self.slots@[i])
                },
                Err(error) => result == Err::<usize, MonadError>(error),
            },
    {
        id.validate(nonce)?;
        let index: usize = id.slot as usize;
        if index >= self.slots.len() {
            return Err(backing_error(ErrorCode::StaleHandle, id.slot as u64));
        }
        let slot = &self.slots[index];
        assert(self.view()[index as int] == slot_model(*slot));
        if slot.generation != id.generation || slot.object.is_none() {
            return Err(backing_error(ErrorCode::StaleHandle, id.generation));
        }
        Ok(index)
    }
}

/// A new object of zeroed pages.
pub open spec fn fresh_object(object: ObjectModel, id: BackingId, page_count: u32, immutable: bool) -> bool {
    &&& object.id == id
    &&& object.hpas.len() == page_count
    &&& object.contents == zeroes((4096 * page_count) as nat)
    &&& object.state == if immutable {
        BackingState::Immutable
    } else {
        BackingState::Mutable
    }
    &&& object.draft_refs == 0
    &&& object.published_refs == 0
    &&& !object.target_pinned
}

impl<A: EptPageAllocator + Clone> BackingRegistry<A> {
    /// The first slot that can take an object.
    fn first_free(&self) -> (found: Option<usize>)
        ensures
            match found {
                Some(i) => is_first_free(self.view(), i as int),
                None => forall|k: int|
                    0 <= k < self.view().len() ==> !is_free(#[trigger] self.view()[k]),
            },
    {
        let mut i: usize = 0;
        while i < self.slots.len()
            invariant
                i <= self.slots@.len(),
                forall|k: int| 0 <= k < i ==> !is_free(#[trigger] self.view()[k]),
            decreases self.slots@.len() - i,
        {
            assert(self.view()[i as int] == slot_model(self.slots@[i as int]));
            if self.slots[i].object.is_none() && !self.slots[i].retired {
                return Some(i);
            }
            i += 1;
        }
        None
    }

    /// Gives pages back to their source, the last first.
    fn free_pages(&mut self, pages: Vec<BackingPage<A::Allocation>>)
        ensures
            final(self).slots == old(self).slots,
            final(self).live_pages == old(self).live_pages,
            final(self).returned() == old(self).returned() + last_first(pages@),
            final(self).asked() == old(self).asked(),
    {
        let ghost all = pages@;
        let mut pages = pages;
        assert(self.returned() + last_first(all).take(0) =~= self.returned());
        while pages.len() > 0
            invariant
                self.slots == old(self).slots,
                self.live_pages == old(self).live_pages,
                self.asked() == old(self).asked(),
                pages@.len() <= all.len(),
                pages@ == all.take(pages@.len() as int),
                self.returned() == old(self).returned() + last_first(all).take(
                    all.len() - pages@.len(),
                ),
            decreases pages@.len(),
        {
            let ghost left = pages@.len() - 1;
            if let Some(page) = pages.pop() {
                self.allocator.free_page(page.allocation);
                proof {
                    assert(page == all[left]);
                    assert(pages@ =~= all.take(left));
                    assert(last_first(all).take(all.len() - left) =~= last_first(all).take(
                        all.len() - left - 1,
                    ).push(page.allocation));
                    assert(self.returned() =~= old(self).returned() + last_first(all).take(
                        all.len() - left,
                    ));
                }
            }
        }
        assert(last_first(all).take(all.len() as int) =~= last_first(all));
    }

    /// Allocates zeroed pages, or none: what was taken before a refusal goes back.
    fn make_pages(&mut self, requested: usize, max_physical_bits: u8) -> (result: MonadResult<
        Vec<BackingPage<A::Allocation>>,
    >)
        ensures
            final(self).slots == old(self).slots,
            final(self).live_pages == old(self).live_pages,
            result matches Ok(pages) ==> {
                &&& pages@.len() == requested
                &&& final(self).returned() == old(self).returned()
                &&& final(self).asked() == old(self).asked() + addresses(pages@)
                &&& forall|k: int|
                    0 <= k < requested ==> {
                        &&& A::octets((#[trigger] pages@[k]).allocation)@ =~= zeroes(4096)
                        &&& pages@[k].hpa.get() % 0x1000 == 0
                    }
            },
            result matches Err(error) ==> {
                &&& page::shortage::<A>(error)
                &&& allocation_refused(*old(self), *final(self), requested as u64, error)
            },
    {
        let mut pages: Vec<BackingPage<A::Allocation>> = Vec::new();
        let reserved = pages.try_reserve(requested);
        if reserved.is_err() {
            return Err(backing_error(ErrorCode::AllocationFailure, requested as u64));
        }
        let mut made: usize = 0;
        assert(self.asked() =~= old(self).asked() + addresses(pages@));
        while made < requested
            invariant
                made <= requested,
                pages@.len() == made,
                self.slots == old(self).slots,
                self.live_pages == old(self).live_pages,
                self.returned() == old(self).returned(),
                self.asked() == old(self).asked() + addresses(pages@),
                forall|k: int|
                    0 <= k < made ==> A::lies_at((#[trigger] pages@[k]).allocation)
                        == pages@[k].hpa.get(),
                forall|k: int|
                    0 <= k < made ==> {
                        &&& A::octets((#[trigger] pages@[k]).allocation)@ =~= zeroes(4096)
                        &&& pages@[k].hpa.get() % 0x1000 == 0
                    },
            decreases requested - made,
        {
            let ghost taken = pages@;
            let (mut allocation, hpa) = match self.allocator.allocate_page(max_physical_bits) {
                Ok(page) => page,
                Err(error) => {
                    proof {
                        page::lemma_refusal::<A>(error);
                    }
                    self.free_pages(pages);
                    proof {
                        let before = old(self).returned();
                        assert forall|k: int| 0 <= k < taken.len() implies #[trigger] self.asked()[old(
                            self,
                        ).asked().len() + k] == Ok::<u64, MonadError>(
                            A::lies_at(self.returned()[before.len() + taken.len() - 1 - k]),
                        ) by {
                            assert(self.returned()[before.len() + taken.len() - 1 - k]
                                == taken[k].allocation);
                        }
                        assert(page::all_given_back::<A>(
                            old(self).asked(),
                            self.asked(),
                            before,
                            self.returned(),
                            error,
                        ));
                    }
                    return Err(error);
                },
            };
            proof {
                bits::lemma_low_masks(hpa.get());
            }
            let bytes = A::bytes_mut(&mut allocation);
            *bytes = [0;4096];
            assert(A::octets(allocation)@ =~= zeroes(4096));
            pages.push(BackingPage { allocation, hpa });
            assert(addresses(pages@) =~= addresses(taken).push(Ok(hpa.get())));
            assert(self.asked() =~= old(self).asked() + addresses(pages@));
            made += 1;
        }
        Ok(pages)
    }

    /// Allocates an object of zeroed pages in the first slot that can take
    /// one. A slot whose generations are used up retires.
    pub fn allocate(
        &mut self,
        page_count: u32,
        nonce: u64,
        max_physical_bits: u8,
        immutable: bool,
    ) -> (result: MonadResult<BackingId>)
        requires
            old(self).wf(),
        ensures
            final(self).wf(),
            page_count == 0 || held_pages(old(self).view()) + page_count > MAX_BACKING_PAGES ==> {
                &&& result == Err::<BackingId, MonadError>(
                    MonadError::new(
                        ErrorPhase::DraftEdit,
                        ErrorCode::BackingCapacity,
                        page_count as u64,
                    ),
                )
                &&& final(self).view() == old(self).view()
                &&& final(self).returned() == old(self).returned()
                &&& final(self).asked() == old(self).asked()
            },
            page_count != 0 && held_pages(old(self).view()) + page_count <= MAX_BACKING_PAGES && (
            forall|k: int|
                0 <= k < old(self).view().len() ==> !is_free(#[trigger] old(self).view()[k])) ==> {
                &&& result == Err::<BackingId, MonadError>(
                    MonadError::new(
                        ErrorPhase::DraftEdit,
                        ErrorCode::BackingCapacity,
                        page_count as u64,
                    ),
                )
                &&& final(self).view() == old(self).view()
                &&& final(self).returned() == old(self).returned()
                &&& final(self).asked() == old(self).asked()
            },
            forall|i: int|
                page_count != 0 && held_pages(old(self).view()) + page_count <= MAX_BACKING_PAGES
                    && #[trigger] is_first_free(old(self).view(), i) ==> {
                    let generation = old(self).view()[i].generation;
                    if generation == u64::MAX {
                        &&& result == Err::<BackingId, MonadError>(
                            MonadError::new(
                                ErrorPhase::DraftEdit,
                                ErrorCode::GenerationOverflow,
                                generation,
                            ),
                        )
                        &&& final(self).view() == old(self).view().update(
                            i,
                            SlotModel { retired: true, ..old(self).view()[i] },
                        )
                        &&& final(self).returned() == old(self).returned()
                        &&& final(self).asked() == old(self).asked()
                    } else {
                        match result {
                            Ok(id) => {
                                let slot = final(self).view()[i];
                                &&& id == (BackingId {
                                    slot: i as u32,
                                    generation: (generation + 1) as u64,
                                    session_nonce: nonce,
                                })
                                &&& slot.generation == generation + 1
                                &&& !slot.retired
                                &&& slot.object is Some
                                &&& fresh_object(slot.object.unwrap(), id, page_count, immutable)
                                &&& final(self).view() == old(self).view().update(i, slot)
                                &&& final(self).returned() == old(self).returned()
                                &&& final(self).asked() == old(self).asked()
                                    + slot.object.unwrap().hpas.map_values(
                                    |hpa: u64| Ok::<u64, MonadError>(hpa),
                                )
                            },
                            Err(error) => {
                                &&& page::shortage::<A>(error)
                                &&& allocation_refused(
                                    *old(self),
                                    *final(self),
                                    page_count as u64,
                                    error,
                                )
                                &&& final(self).view() == old(self).view()
                            },
                        }
                    }
                },
    {
        let requested: usize = page_count as usize;
        if requested == 0 || requested > MAX_BACKING_PAGES || requested > MAX_BACKING_PAGES
            - self.live_pages {
            return Err(backing_error(ErrorCode::BackingCapacity, page_count as u64));
        }
        let index: usize = match self.first_free() {
            Some(index) => index,
            None => {
                return Err(backing_error(ErrorCode::BackingCapacity, page_count as u64));
            },
        };
        let ghost before = self.view();
        proof {
            assert forall|i: int| #[trigger] is_first_free(before, i) implies i == index by {
                if i < index {
                    assert(!is_free(before[i]));
                } else if index < i {
                    assert(!is_free(before[index as int]));
                }
            }
            assert(before[index as int] == slot_model(self.slots@[index as int]));
        }
        let generation: u64 = match next_generation(
            self.slots[index].generation,
            ErrorPhase::DraftEdit,
        ) {
            Ok(generation) => generation,
            Err(error) => {
                self.slots[index].retired = true;
                proof {
                    let slot = SlotModel { retired: true, ..before[index as int] };
                    assert(self.view() =~= before.update(index as int, slot));
                    lemma_held_update(before, index as int, slot);
                }
                return Err(error);
            },
        };
        let id = BackingId { slot: index as u32, generation, session_nonce: nonce };
        let pages = match self.make_pages(requested, max_physical_bits) {
            Ok(pages) => pages,
            Err(error) => {
                assert(self.view() =~= old(self).view());
                return Err(error);
            },
        };
        assert(self.view() =~= old(self).view());
        self.live_pages = self.live_pages + requested;
        let object = BackingObject::<A> {
            id,
            pages,
            state: if immutable {
                BackingState::Immutable
            } else {
                BackingState::Mutable
            },
            draft_refs: 0,
            published_refs: 0,
            target_pinned: false,
        };
        let ghost made_object = object.model();
        proof {
            assert(made_object.contents =~= zeroes((4096 * page_count) as nat)) by {
                assert forall|k: int| 0 <= k < 4096 * page_count implies #[trigger]
                made_object.contents[k] == 0 by {
                    assert(A::octets(object.pages@[k / 4096].allocation)@ =~= zeroes(4096));
                }
            }
        }
        self.slots[index].generation = generation;
        self.slots[index].object = Some(object);
        proof {
            let slot = SlotModel {
                generation,
                retired: before[index as int].retired,
                object: Some(made_object),
            };
            assert(self.view() =~= before.update(index as int, slot));
            lemma_held_update(before, index as int, slot);
        }
        Ok(id)
    }

    /// The address behind a reference.
    pub fn page_hpa(&self, reference: BackingPageReference, nonce: u64) -> (result: MonadResult<
        HostPhysicalAddress,
    >)
        requires
            self.wf(),
        ensures
            result == page_address(self.view(), reference, nonce),
    {
        let index: usize = self.find(reference.backing_id, nonce)?;
        match &self.slots[index].object {
            Some(object) => {
                if object.id != reference.backing_id {
                    return Err(
                        backing_error(
                            ErrorCode::StaleHandle,
                            reference.backing_id.generation,
                        ),
                    );
                }
                if reference.page_index as usize >= object.pages.len() {
                    return Err(
                        backing_error(ErrorCode::InvalidRange, reference.page_index as u64),
                    );
                }
                Ok(object.pages[reference.page_index as usize].hpa)
            },
            None => Err(
                backing_error(ErrorCode::StaleHandle, reference.backing_id.generation),
            ),
        }
    }

    /// Overwrites bytes of an object that is still mutable.
    pub fn write(&mut self, id: BackingId, nonce: u64, offset: usize, data: &[u8]) -> (result:
        MonadResult<()>)
        requires
            old(self).wf(),
        ensures
            final(self).wf(),
            match lookup(old(self).view(), id, nonce) {
                Err(error) => {
                    &&& result == Err::<(), MonadError>(error)
                    &&& final(self).view() == old(self).view()
                },
                Ok(i) => {
                    let object = object_at(old(self).view(), i);
                    match write_fault(object, offset, data@.len()) {
                        Some(error) => {
                            &&& result == Err::<(), MonadError>(error)
                            &&& final(self).view() == old(self).view()
                        },
                        None => {
                            &&& result == Ok::<(), MonadError>(())
                            &&& final(self).view() == with_object(
                                old(self).view(),
                                i,
                                ObjectModel {
                                    contents: overwritten(object.contents, offset as int, data@),
                                    ..object
                                },
                            )
                        },
                    }
                },
            },
    {
        let ghost before = self.view();
        let index: usize = self.find(id, nonce)?;
        assert(slot_ok(before[index as int], index as int));
        let (state, total) = match &self.slots[index].object {
            Some(object) => (object.state, object.pages.len()),
            None => {
                return Err(backing_error(ErrorCode::StaleHandle, id.generation));
            },
        };
        if state != BackingState::Mutable {
            return Err(backing_error(ErrorCode::WrongObjectState, state.code() as u64));
        }
        let end: usize = match offset.checked_add(data.len()) {
            Some(end) => end,
            None => {
                return Err(backing_error(ErrorCode::AddressOverflow, offset as u64));
            },
        };
        if end > total * 4096 {
            return Err(backing_error(ErrorCode::InvalidRange, end as u64));
        }
        if let Some(mut object) = self.slots[index].object.take() {
            let ghost model = object.model();
            object.write(offset, data);
            let ghost after = object.model();
            self.slots[index].object = Some(object);
            proof {
                assert(model == object_at(before, index as int));
                assert(self.view() =~= with_object(before, index as int, after));
                lemma_held_update(
                    before,
                    index as int,
                    SlotModel { object: Some(after), ..before[index as int] },
                );
            }
        }
        Ok(())
    }

    /// The bytes of one page of an object.
    pub fn snapshot_page(&self, id: BackingId, nonce: u64, page_index: u32) -> (result: MonadResult<
        &[u8; 4096],
    >)
        requires
            self.wf(),
        ensures
            match lookup(self.view(), id, nonce) {
                Err(error) => result == Err::<&[u8; 4096], MonadError>(error),
                Ok(i) => {
                    let object = object_at(self.view(), i);
                    match result {
                        Ok(bytes) => {
                            &&& page_index < object.hpas.len()
                            &&& bytes@ == object.contents.subrange(
                                4096 * page_index,
                                4096 * (page_index + 1),
                            )
                        },
                        Err(error) => {
                            &&& page_index >= object.hpas.len()
                            &&& error == MonadError::new(
                                ErrorPhase::DraftEdit,
                                ErrorCode::InvalidRange,
                                page_index as u64,
                            )
                        },
                    }
                },
            },
    {
        let index: usize = self.find(id, nonce)?;
        match &self.slots[index].object {
            Some(object) => {
                if page_index as usize >= object.pages.len() {
                    return Err(backing_error(ErrorCode::InvalidRange, page_index as u64));
                }
                let bytes = A::bytes(&object.pages[page_index as usize].allocation);
                proof {
                    let contents = object.contents();
                    assert forall|k: int| 0 <= k < 4096 implies #[trigger] bytes@[k] == contents[4096
                        * page_index + k] by {
                        assert((4096 * page_index + k) / 4096 == page_index);
                        assert((4096 * page_index + k) % 4096 == k);
                    }
                    assert(bytes@ =~= contents.subrange(
                        4096 * page_index,
                        4096 * (page_index + 1),
                    ));
                }
                Ok(bytes)
            },
            None => Err(backing_error(ErrorCode::StaleHandle, 0)),
        }
    }

    /// Marks an object as a target, which is not freed any more.
    pub fn pin_target(&mut self, id: BackingId, nonce: u64) -> (result: MonadResult<()>)
        requires
            old(self).wf(),
        ensures
            final(self).wf(),
            match lookup(old(self).view(), id, nonce) {
                Err(error) => {
                    &&& result == Err::<(), MonadError>(error)
                    &&& final(self).view() == old(self).view()
                },
                Ok(i) => {
                    &&& result == Ok::<(), MonadError>(())
                    &&& final(self).view() == with_object(
                        old(self).view(),
                        i,
                        ObjectModel { target_pinned: true, ..object_at(old(self).view(), i) },
                    )
                },
            },
    {
        let ghost before = self.view();
        let index: usize = self.find(id, nonce)?;
        assert(slot_ok(before[index as int], index as int));
        if let Some(mut object) = self.slots[index].object.take() {
            let ghost model = object.model();
            object.target_pinned = true;
            let ghost after = object.model();
            self.slots[index].object = Some(object);
            proof {
                assert(model == object_at(before, index as int));
                assert(self.view() =~= with_object(before, index as int, after));
                lemma_held_update(
                    before,
                    index as int,
                    SlotModel { object: Some(after), ..before[index as int] },
                );
            }
        }
        Ok(())
    }

    /// Frees an object that nothing refers to: its pages go back to their
    /// source.
    pub fn free(&mut self, id: BackingId, nonce: u64) -> (result: MonadResult<()>)
        requires
            old(self).wf(),
        ensures
            final(self).wf(),
            match lookup(old(self).view(), id, nonce) {
                Err(error) => {
                    &&& result == Err::<(), MonadError>(error)
                    &&& final(self).view() == old(self).view()
                    &&& final(self).returned() == old(self).returned()
                },
                Ok(i) => {
                    let object = object_at(old(self).view(), i);
                    if object.target_pinned || object.draft_refs != 0 || object.published_refs
                        != 0 {
                        &&& result == Err::<(), MonadError>(
                            MonadError::new(
                                ErrorPhase::DraftEdit,
                                ErrorCode::BackingStillReferenced,
                                object.draft_refs as u64 | ((object.published_refs as u64) << 32),
                            ),
                        )
                        &&& final(self).view() == old(self).view()
                        &&& final(self).returned() == old(self).returned()
                    } else {
                        &&& result == Ok::<(), MonadError>(())
                        &&& final(self).returned() == old(self).returned() + old(self).held_in(i)
                        &&& final(self).view() == old(self).view().update(
                            i,
                            SlotModel { object: None, ..old(self).view()[i] },
                        )
                    }
                },
            },
    {
        let ghost before = self.view();
        let index: usize = self.find(id, nonce)?;
        let (pinned, draft_refs, published_refs) = match &self.slots[index].object {
            Some(object) => (object.target_pinned, object.draft_refs, object.published_refs),
            None => {
                return Err(backing_error(ErrorCode::StaleHandle, id.generation));
            },
        };
        if pinned || draft_refs != 0 || published_refs != 0 {
            return Err(
                backing_error(
                    ErrorCode::BackingStillReferenced,
                    draft_refs as u64 | ((published_refs as u64) << 32),
                ),
            );
        }
        if let Some(object) = self.slots[index].object.take() {
            proof {
                let slot = SlotModel { object: None, ..before[index as int] };
                assert(self.view() =~= before.update(index as int, slot));
                lemma_held_update(before, index as int, slot);
                lemma_held_bound(before, index as int);
                assert(object.model().hpas.len() == object.pages@.len());
            }
            self.live_pages = self.live_pages - object.pages.len();
            let ghost after = self.view();
            self.free_pages(object.pages);
            assert(self.view() =~= after);
        }
        Ok(())
    }

    pub fn state(&self, id: BackingId, nonce: u64) -> (result: MonadResult<BackingState>)
        requires
            self.wf(),
        ensures
            result == match lookup(self.view(), id, nonce) {
                Err(error) => Err::<BackingState, MonadError>(error),
                Ok(i) => Ok(object_at(self.view(), i).state),
            },
    {
        let index: usize = self.find(id, nonce)?;
        match &self.slots[index].object {
            Some(object) => Ok(object.state),
            None => Err(backing_error(ErrorCode::StaleHandle, id.generation)),
        }
    }

    /// The counts and the state of the object in a slot.
    pub fn counts(&self, id: BackingId) -> (counts: Option<(u32, u32, BackingState)>)
        ensures
            counts == if id.slot < self.view().len() {
                match self.view()[id.slot as int].object {
                    Some(object) => Some(
                        (object.draft_refs, object.published_refs, object.state),
                    ),
                    None => None,
                }
            } else {
                None
            },
    {
        let index: usize = id.slot as usize;
        if index >= self.slots.len() {
            return None;
        }
        assert(self.view()[index as int] == slot_model(self.slots@[index as int]));
        match &self.slots[index].object {
            Some(object) => Some((object.draft_refs, object.published_refs, object.state)),
            None => None,
        }
    }

    /// Frees everything, whoever refers to it: all pages go back to their source.
    pub fn release_all(&mut self)
        ensures
            old(self).wf() ==> final(self).wf(),
            final(self).view().len() == old(self).view().len(),
            forall|i: int|
                0 <= i < final(self).view().len() ==> #[trigger] final(self).view()[i] == (
                SlotModel { object: None, ..old(self).view()[i] }),
            final(self).returned() == old(self).returned() + old(self).held(),
            final(self).asked() == old(self).asked(),
    {
        let ghost before = self.view();
        let ghost slots = self.slots@;
        let mut i: usize = 0;
        assert(self.returned() + slot_by_slot(slots.take(0)) =~= self.returned());
        while i < self.slots.len()
            invariant
                i <= self.slots@.len(),
                self.slots@.len() == slots.len(),
                self.asked() == old(self).asked(),
                slots == old(self).slots@,
                forall|k: int| i <= k < slots.len() ==> #[trigger] self.slots@[k] == slots[k],
                self.returned() == old(self).returned() + slot_by_slot(slots.take(i as int)),
                before == old(self).view(),
                self.view().len() == before.len(),
                forall|k: int|
                    0 <= k < i ==> #[trigger] self.view()[k] == (SlotModel {
                        object: None,
                        ..before[k]
                    }),
                forall|k: int| i <= k < before.len() ==> #[trigger] self.view()[k] == before[k],
            decreases self.slots@.len() - i,
        {
            let ghost here = self.view();
            let ghost back = self.returned();
            proof {
                assert(self.slots@[i as int] == slots[i as int]);
                assert(slots.take(i + 1).drop_last() =~= slots.take(i as int));
                assert(slots.take(i + 1).last() == slots[i as int]);
            }
            if let Some(object) = self.slots[i].object.take() {
                self.free_pages(object.pages);
            }
            assert(self.returned() =~= back + in_slot(slots[i as int]));
            assert(self.returned() =~= old(self).returned() + slot_by_slot(slots.take(i + 1)));
            assert(self.view() =~= here.update(
                i as int,
                SlotModel { object: None, ..here[i as int] },
            ));
            i += 1;
        }
        self.live_pages = 0;
        assert(slots.take(i as int) =~= slots);
        proof {
            lemma_held_none(self.view());
            assert forall|k: int| 0 <= k < self.view().len() implies slot_ok(
                #[trigger] self.view()[k],
                k,
            ) by {}
        }
    }
}

/// How many references name a slot.
pub open spec fn tally(refs: Seq<BackingPageReference>, slot: int) -> nat
    decreases refs.len(),
{
    if refs.len() == 0 {
        0
    } else {
        tally(refs.drop_last(), slot) + if refs.last().backing_id.slot == slot {
            1nat
        } else {
            0nat
        }
    }
}

/// One of an object's two counts.
pub open spec fn count_of(object: ObjectModel, published: bool) -> u32 {
    if published {
        object.published_refs
    } else {
        object.draft_refs
    }
}

/// What is wrong with a reference that is to be counted, if anything.
pub open spec fn reference_fault(
    slots: Seq<SlotModel>,
    reference: BackingPageReference,
    nonce: u64,
    add: bool,
    published: bool,
) -> Option<MonadError> {
    match lookup(slots, reference.backing_id, nonce) {
        Err(error) => Some(error),
        Ok(i) => {
            let object = object_at(slots, i);
            let count = count_of(object, published);
            if reference.page_index >= object.hpas.len() {
                Some(
                    MonadError::new(
                        ErrorPhase::DraftEdit,
                        ErrorCode::InvalidRange,
                        reference.page_index as u64,
                    ),
                )
            } else if (add && count == u32::MAX) || (!add && count == 0) {
                Some(
                    MonadError::new(
                        ErrorPhase::DraftEdit,
                        ErrorCode::EptVerificationFailure,
                        count as u64,
                    ),
                )
            } else {
                None
            }
        },
    }
}

/// What is wrong with the first reference that has something wrong.
pub open spec fn refs_fault(
    slots: Seq<SlotModel>,
    refs: Seq<BackingPageReference>,
    nonce: u64,
    add: bool,
    published: bool,
) -> Option<MonadError>
    decreases refs.len(),
{
    if refs.len() == 0 {
        None
    } else {
        match refs_fault(slots, refs.drop_last(), nonce, add, published) {
            Some(error) => Some(error),
            None => reference_fault(slots, refs.last(), nonce, add, published),
        }
    }
}

/// An object after some of its references came or went; what a publication
/// refers to is pinned.
pub open spec fn adjusted_object(object: ObjectModel, n: nat, add: bool, published: bool) -> ObjectModel {
    let count = count_of(object, published);
    let next = if add {
        (count + n) as u32
    } else {
        (count - n) as u32
    };
    if n == 0 {
        object
    } else if published {
        ObjectModel {
            published_refs: next,
            state: if add {
                BackingState::PublishedPinned
            } else {
                object.state
            },
            ..object
        }
    } else {
        ObjectModel { draft_refs: next, ..object }
    }
}

/// A slot after references came or went.
pub open spec fn adjusted_slot(slot: SlotModel, n: nat, add: bool, published: bool) -> SlotModel {
    SlotModel {
        object: match slot.object {
            Some(object) => Some(adjusted_object(object, n, add, published)),
            None => None,
        },
        ..slot
    }
}

/// Slots after references came or went.
pub open spec fn adjusted(
    slots: Seq<SlotModel>,
    refs: Seq<BackingPageReference>,
    add: bool,
    published: bool,
) -> Seq<SlotModel> {
    Seq::new(slots.len(), |i: int| adjusted_slot(slots[i], tally(refs, i), add, published))
}

/// Whether no count leaves its range.
pub open spec fn counts_fit(
    slots: Seq<SlotModel>,
    refs: Seq<BackingPageReference>,
    add: bool,
    published: bool,
) -> bool {
    forall|i: int|
        0 <= i < slots.len() ==> ((#[trigger] slots[i]).object matches Some(object) ==> if add {
            count_of(object, published) + tally(refs, i) <= u32::MAX
        } else {
            tally(refs, i) <= count_of(object, published)
        })
}

/// What a count that would leave its range is refused with.
pub open spec fn count_fault(add: bool) -> MonadError {
    if add {
        MonadError::new(ErrorPhase::DraftEdit, ErrorCode::BackingCapacity, u32::MAX as u64)
    } else {
        MonadError::new(ErrorPhase::DraftEdit, ErrorCode::EptVerificationFailure, 0)
    }
}

/// Whether a reference is the first to take a count out of its range.
pub open spec fn stops_at(
    slots: Seq<SlotModel>,
    refs: Seq<BackingPageReference>,
    add: bool,
    published: bool,
    k: int,
) -> bool {
    &&& 0 <= k < refs.len()
    &&& counts_fit(slots, refs.take(k), add, published)
    &&& !counts_fit(slots, refs.take(k + 1), add, published)
}

proof fn lemma_tally_grows(refs: Seq<BackingPageReference>, n: int, slot: int)
    requires
        0 <= n <= refs.len(),
    ensures
        tally(refs.take(n), slot) <= tally(refs, slot),
    decreases refs.len() - n,
{
    if n == refs.len() {
        assert(refs.take(n) =~= refs);
    } else {
        lemma_tally_grows(refs, n + 1, slot);
        assert(refs.take(n + 1).drop_last() =~= refs.take(n));
    }
}

/// Counting references keeps the registry in order.
pub proof fn lemma_adjusted(
    slots: Seq<SlotModel>,
    refs: Seq<BackingPageReference>,
    add: bool,
    published: bool,
)
    ensures
        held_pages(adjusted(slots, refs, add, published)) == held_pages(slots),
        slots_ok(slots) ==> slots_ok(adjusted(slots, refs, add, published)),
    decreases slots.len(),
{
    lemma_adjusted_pages(slots, refs, add, published);
    let after = adjusted(slots, refs, add, published);
    if slots_ok(slots) {
        assert forall|i: int| 0 <= i < after.len() implies slot_ok(#[trigger] after[i], i) by {
            assert(slot_ok(slots[i], i));
        }
    }
}

proof fn lemma_adjusted_pages(
    slots: Seq<SlotModel>,
    refs: Seq<BackingPageReference>,
    add: bool,
    published: bool,
)
    ensures
        held_pages(adjusted(slots, refs, add, published)) == held_pages(slots),
    decreases slots.len(),
{
    let after = adjusted(slots, refs, add, published);
    if slots.len() > 0 {
        lemma_adjusted_pages(slots.drop_last(), refs, add, published);
        assert(after.drop_last() =~= adjusted(slots.drop_last(), refs, add, published));
    }
}

impl<A: EptPageAllocator + Clone> BackingRegistry<A> {
    /// Counts or discounts the references of a draft. Where a count would leave
    /// its range, those before stay counted.
    pub fn adjust_draft_refs(&mut self, refs: &[BackingPageReference], nonce: u64, add: bool) -> (result:
        MonadResult<()>)
        requires
            old(self).wf(),
        ensures
            final(self).wf(),
            match refs_fault(old(self).view(), refs@, nonce, add, false) {
                Some(error) => {
                    &&& result == Err::<(), MonadError>(error)
                    &&& final(self).view() == old(self).view()
                },
                None => if counts_fit(old(self).view(), refs@, add, false) {
                    &&& result == Ok::<(), MonadError>(())
                    &&& final(self).view() == adjusted(old(self).view(), refs@, add, false)
                } else {
                    &&& result == Err::<(), MonadError>(count_fault(add))
                    &&& exists|k: int| #[trigger]
                        stops_at(old(self).view(), refs@, add, false, k) && final(self).view()
                            == adjusted(old(self).view(), refs@.take(k), add, false)
                },
            },
    {
        self.adjust_refs(refs, nonce, add, false)
    }

    /// Counts or discounts the references of a publication. Where a count would
    /// leave its range, those before stay counted.
    pub fn adjust_published_refs(&mut self, refs: &[BackingPageReference], nonce: u64, add: bool) -> (result:
        MonadResult<()>)
        requires
            old(self).wf(),
        ensures
            final(self).wf(),
            match refs_fault(old(self).view(), refs@, nonce, add, true) {
                Some(error) => {
                    &&& result == Err::<(), MonadError>(error)
                    &&& final(self).view() == old(self).view()
                },
                None => if counts_fit(old(self).view(), refs@, add, true) {
                    &&& result == Ok::<(), MonadError>(())
                    &&& final(self).view() == adjusted(old(self).view(), refs@, add, true)
                } else {
                    &&& result == Err::<(), MonadError>(count_fault(add))
                    &&& exists|k: int| #[trigger]
                        stops_at(old(self).view(), refs@, add, true, k) && final(self).view()
                            == adjusted(old(self).view(), refs@.take(k), add, true)
                },
            },
    {
        self.adjust_refs(refs, nonce, add, true)
    }

    /// Checks a reference that is to be counted.
    fn check_reference(
        &self,
        reference: BackingPageReference,
        nonce: u64,
        add: bool,
        published: bool,
    ) -> (result: MonadResult<()>)
        requires
            self.wf(),
        ensures
            match reference_fault(self.view(), reference, nonce, add, published) {
                Some(error) => result == Err::<(), MonadError>(error),
                None => result == Ok::<(), MonadError>(()),
            },
    {
        let index: usize = self.find(reference.backing_id, nonce)?;
        match &self.slots[index].object {
            Some(object) => {
                if reference.page_index as usize >= object.pages.len() {
                    return Err(
                        backing_error(ErrorCode::InvalidRange, reference.page_index as u64),
                    );
                }
                let count: u32 = if published {
                    object.published_refs
                } else {
                    object.draft_refs
                };
                let valid: bool = if add {
                    count < u32::MAX
                } else {
                    count > 0
                };
                if !valid {
                    return Err(backing_error(ErrorCode::EptVerificationFailure, count as u64));
                }
                Ok(())
            },
            None => Err(backing_error(ErrorCode::StaleHandle, 0)),
        }
    }

    /// Counts or discounts one reference.
    pub(super) fn count_reference(
        &mut self,
        reference: BackingPageReference,
        nonce: u64,
        add: bool,
        published: bool,
    ) -> (result: MonadResult<()>)
        requires
            old(self).wf(),
            lookup(old(self).view(), reference.backing_id, nonce) is Ok,
        ensures
            final(self).wf(),
            ({
                let i = reference.backing_id.slot as int;
                let object = object_at(old(self).view(), i);
                let count = count_of(object, published);
                if (add && count == u32::MAX) || (!add && count == 0) {
                    &&& result == Err::<(), MonadError>(count_fault(add))
                    &&& final(self).view() == old(self).view()
                } else {
                    &&& result == Ok::<(), MonadError>(())
                    &&& final(self).view() == with_object(
                        old(self).view(),
                        i,
                        adjusted_object(object, 1, add, published),
                    )
                }
            }),
    {
        let ghost before = self.view();
        let index: usize = self.find(reference.backing_id, nonce)?;
        assert(slot_ok(before[index as int], index as int));
        let count: u32 = match &self.slots[index].object {
            Some(object) => if published {
                object.published_refs
            } else {
                object.draft_refs
            },
            None => {
                return Err(backing_error(ErrorCode::StaleHandle, 0));
            },
        };
        let next: u32 = if add {
            match count.checked_add(1) {
                Some(next) => next,
                None => {
                    return Err(backing_error(ErrorCode::BackingCapacity, count as u64));
                },
            }
        } else {
            match count.checked_sub(1) {
                Some(next) => next,
                None => {
                    return Err(backing_error(ErrorCode::EptVerificationFailure, count as u64));
                },
            }
        };
        if let Some(mut object) = self.slots[index].object.take() {
            let ghost model = object.model();
            if published {
                object.published_refs = next;
            } else {
                object.draft_refs = next;
            }
            if published && add {
                object.state = BackingState::PublishedPinned;
            }
            let ghost after = object.model();
            self.slots[index].object = Some(object);
            proof {
                assert(model == object_at(before, index as int));
                assert(after == adjusted_object(model, 1, add, published));
                assert(self.view() =~= with_object(before, index as int, after));
                lemma_held_update(
                    before,
                    index as int,
                    SlotModel { object: Some(after), ..before[index as int] },
                );
            }
        }
        Ok(())
    }

    fn adjust_refs(
        &mut self,
        refs: &[BackingPageReference],
        nonce: u64,
        add: bool,
        published: bool,
    ) -> (result: MonadResult<()>)
        requires
            old(self).wf(),
        ensures
            final(self).wf(),
            match refs_fault(old(self).view(), refs@, nonce, add, published) {
                Some(error) => {
                    &&& result == Err::<(), MonadError>(error)
                    &&& final(self).view() == old(self).view()
                },
                None => if counts_fit(old(self).view(), refs@, add, published) {
                    &&& result == Ok::<(), MonadError>(())
                    &&& final(self).view() == adjusted(old(self).view(), refs@, add, published)
                } else {
                    &&& result == Err::<(), MonadError>(count_fault(add))
                    &&& exists|k: int| #[trigger]
                        stops_at(old(self).view(), refs@, add, published, k) && final(self).view()
                            == adjusted(old(self).view(), refs@.take(k), add, published)
                },
            },
    {
        let ghost before = self.view();
        let mut i: usize = 0;
        while i < refs.len()
            invariant
                i <= refs@.len(),
                self.wf(),
                before == self.view(),
                before == old(self).view(),
                refs_fault(before, refs@.take(i as int), nonce, add, published) is None,
                forall|k: int|
                    0 <= k < i ==> lookup(before, (#[trigger] refs@[k]).backing_id, nonce) is Ok,
            decreases refs@.len() - i,
        {
            proof {
                assert(refs@.take(i + 1).drop_last() =~= refs@.take(i as int));
                assert(refs@.take(i + 1).last() == refs@[i as int]);
            }
            match self.check_reference(refs[i], nonce, add, published) {
                Ok(_) => {},
                Err(error) => {
                    proof {
                        lemma_fault_stays(before, refs@, i + 1, nonce, add, published);
                    }
                    return Err(error);
                },
            }
            i += 1;
        }
        proof {
            assert(refs@.take(i as int) =~= refs@);
            assert(adjusted(before, refs@.take(0), add, published) =~= before);
        }
        let mut i: usize = 0;
        while i < refs.len()
            invariant
                i <= refs@.len(),
                self.wf(),
                before == old(self).view(),
                slots_ok(before),
                refs_fault(before, refs@, nonce, add, published) is None,
                self.view() == adjusted(before, refs@.take(i as int), add, published),
                counts_fit(before, refs@.take(i as int), add, published),
                forall|k: int|
                    0 <= k < refs@.len() ==> lookup(
                        before,
                        (#[trigger] refs@[k]).backing_id,
                        nonce,
                    ) is Ok,
            decreases refs@.len() - i,
        {
            let ghost here = self.view();
            let ghost slot = refs@[i as int].backing_id.slot as int;
            let ghost next = refs@.take(i + 1);
            proof {
                assert(next.drop_last() =~= refs@.take(i as int));
                assert(next.last() == refs@[i as int]);
                assert(lookup(before, refs@[i as int].backing_id, nonce) is Ok);
                assert(here[slot] == adjusted_slot(
                    before[slot],
                    tally(refs@.take(i as int), slot),
                    add,
                    published,
                ));
                lemma_tally_grows(refs@, i + 1, slot);
            }
            match self.count_reference(refs[i], nonce, add, published) {
                Ok(_) => {},
                Err(error) => {
                    proof {
                        assert(before[slot].object is Some);
                        assert(!counts_fit(before, refs@, add, published));
                        assert(!counts_fit(before, next, add, published));
                        assert(stops_at(before, refs@, add, published, i as int));
                    }
                    return Err(error);
                },
            }
            proof {
                assert(counts_fit(before, next, add, published)) by {
                    assert forall|k: int| 0 <= k < before.len() implies ((
                    #[trigger] before[k]).object matches Some(object) ==> if add {
                        count_of(object, published) + tally(next, k) <= u32::MAX
                    } else {
                        tally(next, k) <= count_of(object, published)
                    }) by {}
                }
                assert(self.view() =~= adjusted(before, next, add, published)) by {
                    assert forall|k: int| 0 <= k < before.len() implies #[trigger] self.view()[k]
                        == adjusted_slot(before[k], tally(next, k), add, published) by {
                        assert(here[k] == adjusted_slot(
                            before[k],
                            tally(refs@.take(i as int), k),
                            add,
                            published,
                        ));
                    }
                }
            }
            i += 1;
        }
        assert(refs@.take(i as int) =~= refs@);
        Ok(())
    }
}

/// What is wrong with a prefix is wrong with the whole.
proof fn lemma_fault_stays(
    slots: Seq<SlotModel>,
    refs: Seq<BackingPageReference>,
    n: int,
    nonce: u64,
    add: bool,
    published: bool,
)
    requires
        0 <= n <= refs.len(),
        refs_fault(slots, refs.take(n), nonce, add, published) is Some,
    ensures
        refs_fault(slots, refs, nonce, add, published) == refs_fault(
            slots,
            refs.take(n),
            nonce,
            add,
            published,
        ),
    decreases refs.len() - n,
{
    if n == refs.len() {
        assert(refs.take(n) =~= refs);
    } else {
        assert(refs.take(n + 1).drop_last() =~= refs.take(n));
        lemma_fault_stays(slots, refs, n + 1, nonce, add, published);
    }
}

} // verus!
