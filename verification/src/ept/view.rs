//! Views: private drafts, immutable publications, and the edits between them.

use vstd::prelude::*;

use super::address::{
    EptPermissions, GpaRange, GuestPhysicalAddress, HostPhysicalAddress, PAGE_SIZE_4K,
};
use super::backing::BackingPageReference;
use super::builder::{encode_link, BaseViewCandidate, VerifiedBaseView};
use super::entry;
use super::entry::{
    decode_entry, leaf_entry, DecodedEptEntry, EptEntryError, EptLeafSize, EptLevel, EptMemoryType,
};
use super::inventory::PhysicalInventory;
use super::mtrr;
use super::mtrr::{MemoryTypeInterval, NormalizedMemoryMap};
use super::page;
use super::page::{EptPageAllocator, EptPageOwner, EptPageStore, TablePage};
use super::scan;
use super::tree;
use super::tree::{Miss, PageTarget, Split, TableMap};
use super::walker;
use super::walker::{walk_view, Hierarchy, MappingSource, ResolvedMapping, WalkResult};
use crate::bits;
use crate::error::{ErrorCode, ErrorPhase, MonadError, MonadResult};

verus! {

broadcast use super::address::group_host_addresses;

pub const MAX_PUBLISHED_VIEWS: usize = 8;

pub const MAX_DRAFT_VIEWS: usize = 2;

pub const MAX_BATCH_EDITS: usize = 64;

/// Names one view of one instance.
#[derive(Debug, Clone, Copy, PartialEq, Eq, PartialOrd, Ord, Structural)]
pub struct ViewId {
    pub slot: u16,
    pub reserved: u16,
    pub generation: u64,
}

/// Names one draft of one session.
#[derive(Debug, Clone, Copy, PartialEq, Eq, PartialOrd, Ord, Structural)]
pub struct DraftId {
    pub slot: u16,
    pub reserved: u16,
    pub generation: u64,
    pub session_nonce: u64,
}

/// What makes a view's name unusable.
pub open spec fn view_id_fault(id: ViewId) -> Option<MonadError> {
    if id.reserved != 0 {
        Some(
            MonadError::new(
                ErrorPhase::DraftEdit,
                ErrorCode::UnsupportedFlags,
                id.reserved as u64,
            ),
        )
    } else if id.generation == 0 {
        Some(MonadError::new(ErrorPhase::DraftEdit, ErrorCode::StaleHandle, 0))
    } else {
        None
    }
}

/// What makes a draft's name unusable in a session.
pub open spec fn draft_id_fault(id: DraftId, session_nonce: u64) -> Option<MonadError> {
    if id.reserved != 0 {
        Some(
            MonadError::new(
                ErrorPhase::DraftEdit,
                ErrorCode::UnsupportedFlags,
                id.reserved as u64,
            ),
        )
    } else if id.generation == 0 {
        Some(MonadError::new(ErrorPhase::DraftEdit, ErrorCode::StaleHandle, 0))
    } else if id.session_nonce != session_nonce {
        Some(MonadError::new(ErrorPhase::DraftEdit, ErrorCode::WrongSession, id.session_nonce))
    } else {
        None
    }
}

impl ViewId {
    pub fn validate(self) -> (result: MonadResult<()>)
        ensures
            match view_id_fault(self) {
                Some(error) => result == Err::<(), MonadError>(error),
                None => result == Ok::<(), MonadError>(()),
            },
    {
        if self.reserved != 0 {
            return Err(
                MonadError::new(
                    ErrorPhase::DraftEdit,
                    ErrorCode::UnsupportedFlags,
                    self.reserved as u64,
                ),
            );
        }
        validate_generation(self.generation, ErrorPhase::DraftEdit)
    }
}

impl DraftId {
    pub fn validate(self, active_session_nonce: u64) -> (result: MonadResult<()>)
        ensures
            match draft_id_fault(self, active_session_nonce) {
                Some(error) => result == Err::<(), MonadError>(error),
                None => result == Ok::<(), MonadError>(()),
            },
    {
        if self.reserved != 0 {
            return Err(
                MonadError::new(
                    ErrorPhase::DraftEdit,
                    ErrorCode::UnsupportedFlags,
                    self.reserved as u64,
                ),
            );
        }
        validate_generation(self.generation, ErrorPhase::DraftEdit)?;
        if self.session_nonce != active_session_nonce {
            return Err(
                MonadError::new(
                    ErrorPhase::DraftEdit,
                    ErrorCode::WrongSession,
                    self.session_nonce,
                ),
            );
        }
        Ok(())
    }
}

/// Generation zero names nothing.
pub fn validate_generation(generation: u64, phase: ErrorPhase) -> (result: MonadResult<()>)
    ensures
        result == if generation == 0 {
            Err::<(), MonadError>(MonadError::new(phase, ErrorCode::StaleHandle, 0))
        } else {
            Ok(())
        },
{
    if generation == 0 {
        return Err(MonadError::new(phase, ErrorCode::StaleHandle, 0));
    }
    Ok(())
}

/// The generation after another, if there is one.
pub fn next_generation(current: u64, phase: ErrorPhase) -> (result: MonadResult<u64>)
    ensures
        result == if current == u64::MAX {
            Err::<u64, MonadError>(MonadError::new(phase, ErrorCode::GenerationOverflow, current))
        } else {
            Ok((current + 1) as u64)
        },
{
    match current.checked_add(1) {
        Some(next) => Ok(next),
        None => Err(MonadError::new(phase, ErrorCode::GenerationOverflow, current)),
    }
}

/// The memory types that a backing page can have.
#[derive(Debug, Clone, Copy, PartialEq, Eq, Structural)]
pub enum BackingMemoryType {
    WriteBack,
    Uncacheable,
}

impl BackingMemoryType {
    pub open spec fn spec_memory_type(self) -> EptMemoryType {
        match self {
            BackingMemoryType::WriteBack => EptMemoryType::WriteBack,
            BackingMemoryType::Uncacheable => EptMemoryType::Uncacheable,
        }
    }

    /// The type as an entry carries it.
    #[verifier::when_used_as_spec(spec_memory_type)]
    pub fn memory_type(self) -> (memory_type: EptMemoryType)
        ensures
            memory_type == self.spec_memory_type(),
    {
        match self {
            BackingMemoryType::WriteBack => EptMemoryType::WriteBack,
            BackingMemoryType::Uncacheable => EptMemoryType::Uncacheable,
        }
    }
}

/// One change of a draft.
#[derive(Debug, Clone, Copy, PartialEq, Eq, Structural)]
pub enum DraftEdit {
    SetPermissions { range: GpaRange, permissions: EptPermissions },
    MapBacking4K {
        gpa: GuestPhysicalAddress,
        backing: BackingPageReference,
        permissions: EptPermissions,
        memory_type: BackingMemoryType,
    },
    RestoreFromBase { range: GpaRange },
}

/// A page that differs from the base view.
#[derive(Debug, Clone, Copy, PartialEq, Eq, Structural)]
pub struct PageOverride {
    pub gpa: GuestPhysicalAddress,
    pub hpa: HostPhysicalAddress,
    pub permissions: EptPermissions,
    pub memory_type: EptMemoryType,
    pub backing: Option<BackingPageReference>,
}

/// The figures of a view.
#[derive(Debug, Clone, Copy, PartialEq, Eq, Structural)]
pub struct ViewMetadata {
    pub source: ViewId,
    pub edit_count: u32,
    pub table_pages: u32,
    pub leaf_1g: u32,
    pub leaf_2m: u32,
    pub leaf_4k: u32,
    pub backing_pages: u32,
    pub readable_pages: u64,
    pub writable_pages: u64,
    pub executable_pages: u64,
}

/// What a page of a view is.
pub struct PageState {
    pub hpa: u64,
    pub permissions: EptPermissions,
    pub memory_type: EptMemoryType,
    pub backing: Option<BackingPageReference>,
}

/// The state that an override gives its page.
pub open spec fn state_of(entry: PageOverride) -> PageState {
    PageState {
        hpa: entry.hpa.get(),
        permissions: entry.permissions,
        memory_type: entry.memory_type,
        backing: entry.backing,
    }
}

/// Overrides in ascending order of their pages.
pub open spec fn by_page(overrides: Seq<PageOverride>) -> bool {
    forall|i: int, j: int|
        0 <= i < j < overrides.len() ==> (#[trigger] overrides[i]).gpa.get() < (
        #[trigger] overrides[j]).gpa.get()
}

/// Whether a page is overridden.
pub open spec fn has_override(overrides: Seq<PageOverride>, page: u64) -> bool {
    exists|i: int| 0 <= i < overrides.len() && (#[trigger] overrides[i]).gpa.get() == page
}

/// The override of a page.
pub open spec fn override_of(overrides: Seq<PageOverride>, page: u64) -> PageOverride {
    overrides[choose|i: int|
        0 <= i < overrides.len() && (#[trigger] overrides[i]).gpa.get() == page]
}

/// The overridden pages and their states.
pub open spec fn override_map(overrides: Seq<PageOverride>) -> Map<u64, PageState> {
    Map::new(
        |page: u64| has_override(overrides, page),
        |page: u64| state_of(override_of(overrides, page)),
    )
}

/// A view as contracts see it.
pub struct ViewModel {
    pub overrides: Map<u64, PageState>,
    pub types: Seq<MemoryTypeInterval>,
    pub aperture_end: u64,
    pub source: ViewId,
    pub edit_count: u32,
    pub hierarchy: Hierarchy,
}

/// The state of a page that nothing overrides.
pub open spec fn base_state(types: Seq<MemoryTypeInterval>, page: u64) -> PageState {
    PageState {
        hpa: page,
        permissions: EptPermissions::full(),
        memory_type: mtrr::type_at(types, page as int).unwrap(),
        backing: None,
    }
}

/// The state of a page under overrides.
pub open spec fn state_at(
    overrides: Map<u64, PageState>,
    types: Seq<MemoryTypeInterval>,
    page: u64,
) -> PageState {
    if overrides.contains_key(page) {
        overrides[page]
    } else {
        base_state(types, page)
    }
}

/// Whether the processor refuses permissions.
pub open spec fn refused(permissions: EptPermissions, execute_only: bool) -> bool {
    super::address::permission_fault(
        permissions.read,
        permissions.write,
        permissions.execute,
        execute_only,
    ) is Some
}

/// What a page in a state resolves to.
pub open spec fn state_result(state: PageState, execute_only: bool) -> Result<PageTarget, Miss> {
    if !state.permissions.is_present() {
        Err(Miss::Absent(EptLevel::Pt))
    } else if refused(state.permissions, execute_only) {
        Err(Miss::Broken(EptLevel::Pt, EptEntryError::UnsupportedPermissions))
    } else {
        Ok(
            PageTarget {
                hpa: state.hpa,
                size: EptLeafSize::Size4K,
                permissions: state.permissions,
                memory_type: state.memory_type,
            },
        )
    }
}

/// The tables say of every page what its state says, and map nothing beyond
/// the aperture.
pub open spec fn tables_agree(
    h: Hierarchy,
    overrides: Map<u64, PageState>,
    types: Seq<MemoryTypeInterval>,
    aperture_end: u64,
) -> bool {
    forall|page: u64|
        page < 0x1_0000_0000_0000 && page % 0x1000 == 0 ==> if page < aperture_end {
            tree::same_target(
                state_result(state_at(overrides, types, page), h.execute_only),
                #[trigger] tree::resolved(h, page),
            )
        } else {
            tree::resolved(h, page) matches Err(Miss::Absent(_))
        }
}

/// An override stands on a page of the aperture, keeps the page's type, and
/// can be encoded.
pub open spec fn state_ok(
    page: u64,
    state: PageState,
    types: Seq<MemoryTypeInterval>,
    aperture_end: u64,
    max_physical_bits: u8,
) -> bool {
    &&& page % 0x1000 == 0
    &&& page < aperture_end
    &&& mtrr::type_at(types, page as int) == Some(state.memory_type)
    &&& entry::leaf_fault(
        HostPhysicalAddress::at(state.hpa),
        EptLeafSize::Size4K,
        state.permissions,
        max_physical_bits,
    ) is None
}

impl ViewModel {
    /// The state of a page.
    pub open spec fn state(self, page: u64) -> PageState {
        state_at(self.overrides, self.types, page)
    }

    /// Whether every page's permissions are ones that the processor has.
    pub open spec fn all_supported(self) -> bool {
        forall|page: u64| #[trigger]
            self.overrides.contains_key(page) ==> !refused(
                self.overrides[page].permissions,
                self.hierarchy.execute_only,
            )
    }

    /// What holds of every view.
    pub open spec fn wf(self) -> bool {
        &&& mtrr::exact_cover(self.types, self.aperture_end)
        &&& self.aperture_end <= bits::width_limit(self.hierarchy.bits)
        &&& entry::supported_width(self.hierarchy.bits)
        &&& tables_agree(self.hierarchy, self.overrides, self.types, self.aperture_end)
        &&& forall|page: u64| #[trigger]
            self.overrides.contains_key(page) ==> state_ok(
                page,
                self.overrides[page],
                self.types,
                self.aperture_end,
                self.hierarchy.bits,
            )
    }

    /// What a walk of a guest page finds, with the backing page where one
    /// stands behind it.
    pub open spec fn walk(self, gpa: GuestPhysicalAddress) -> WalkResult {
        match walker::walked(self.hierarchy, gpa) {
            WalkResult::Mapping(mapping) => WalkResult::Mapping(
                ResolvedMapping {
                    source: if self.overrides.contains_key(gpa.get()) {
                        match self.overrides[gpa.get()].backing {
                            Some(reference) => MappingSource::Backing(reference),
                            None => MappingSource::Identity,
                        }
                    } else {
                        MappingSource::Identity
                    },
                    ..mapping
                },
            ),
            other => other,
        }
    }

    /// The pointer that selects the view's tables.
    pub open spec fn eptp(self) -> u64 {
        6u64 | (3u64 << 3) | ((self.hierarchy.root >> 12) << 12)
    }
}

/// The tables of a view, and what it was made from.
pub struct ViewImage<A: EptPageAllocator + Clone> {
    root: HostPhysicalAddress,
    pages: EptPageStore<A>,
    inventory: PhysicalInventory,
    memory_types: NormalizedMemoryMap,
    max_physical_bits: u8,
    execute_only_supported: bool,
    owner: EptPageOwner,
    overrides: Vec<PageOverride>,
    source: ViewId,
    edit_count: u32,
    tables: Ghost<TableMap>,
}

fn edit_error(code: ErrorCode, detail: u64) -> (error: MonadError)
    ensures
        error == MonadError::new(ErrorPhase::DraftEdit, code, detail),
{
    MonadError::new(ErrorPhase::DraftEdit, code, detail)
}

impl<A: EptPageAllocator + Clone> ViewImage<A> {
    /// The view's tables.
    pub closed spec fn hierarchy(&self) -> Hierarchy {
        walker::hierarchy_of(
            &self.pages,
            self.root,
            self.max_physical_bits,
            self.execute_only_supported,
            self.owner,
        )
    }

    /// Where each table stands.
    pub closed spec fn tables(&self) -> TableMap {
        self.tables@
    }

    /// The view as contracts see it.
    pub closed spec fn model(&self) -> ViewModel {
        ViewModel {
            overrides: override_map(self.overrides@),
            types: self.memory_types.view(),
            aperture_end: self.inventory.spec_aperture_end(),
            source: self.source,
            edit_count: self.edit_count,
            hierarchy: self.hierarchy(),
        }
    }

    /// How often each page was handed out by the source of the view's tables, did
    /// not come back, and is not a table of the view.
    pub closed spec fn missing(&self) -> Map<u64, int> {
        self.pages.missing()
    }

    /// Whether a page has an entry of its own: nothing needs to be split to write
    /// it.
    pub open spec fn has_entry(&self, page: u64) -> bool {
        self.tables().contains_key(
            (EptLevel::Pt, tree::region_start(EptLevel::Pt, page as int)),
        )
    }

    /// The pages are as wide as the view.
    pub closed spec fn pages_ok(&self) -> bool {
        &&& self.pages.wf()
        &&& self.pages.width() == self.max_physical_bits
    }

    /// The tables are arranged.
    pub closed spec fn tables_ok(&self) -> bool {
        &&& self.pages_ok()
        &&& tree::arranged(self.hierarchy(), self.tables@)
        &&& tree::all_in(self.pages.view(), self.tables@)
        &&& self.memory_types.spec_aperture_end() == self.inventory.spec_aperture_end()
    }

    /// What holds of every view image.
    pub closed spec fn wf(&self) -> bool {
        &&& self.tables_ok()
        &&& by_page(self.overrides@)
        &&& self.model().wf()
    }

    /// All but the tables is as it was.
    pub closed spec fn same_frame(&self, before: &Self) -> bool {
        &&& self.missing() == before.missing()
        &&& self.root == before.root
        &&& self.inventory == before.inventory
        &&& self.memory_types == before.memory_types
        &&& self.max_physical_bits == before.max_physical_bits
        &&& self.execute_only_supported == before.execute_only_supported
        &&& self.owner == before.owner
        &&& self.overrides@ == before.overrides@
        &&& self.source == before.source
        &&& self.edit_count == before.edit_count
    }

    /// What an image's invariant says of its model.
    pub proof fn lemma_wf(&self)
        requires
            self.wf(),
        ensures
            self.model().wf(),
            self.model().hierarchy == self.hierarchy(),
            tree::arranged(self.hierarchy(), self.tables()),
            tree::all_in(self.hierarchy().pages, self.tables()),
            page::distinct_pages(self.hierarchy().pages, self.hierarchy().bits),
            self.tables_ok(),
    {
    }
}

/// An override is found at its place.
proof fn lemma_override(overrides: Seq<PageOverride>, i: int)
    requires
        by_page(overrides),
        0 <= i < overrides.len(),
    ensures
        has_override(overrides, overrides[i].gpa.get()),
        override_of(overrides, overrides[i].gpa.get()) == overrides[i],
        override_map(overrides).contains_key(overrides[i].gpa.get()),
        override_map(overrides)[overrides[i].gpa.get()] == state_of(overrides[i]),
{
    let page = overrides[i].gpa.get();
    let k = choose|k: int|
        0 <= k < overrides.len() && (#[trigger] overrides[k]).gpa.get() == page;
    assert(0 <= k < overrides.len() && overrides[k].gpa.get() == page);
    if k < i {
        assert(overrides[k].gpa.get() < overrides[i].gpa.get());
    } else if i < k {
        assert(overrides[i].gpa.get() < overrides[k].gpa.get());
    }
}

/// An override that takes the place of one of the same page.
proof fn lemma_override_update(overrides: Seq<PageOverride>, i: int, entry: PageOverride)
    requires
        by_page(overrides),
        0 <= i < overrides.len(),
        overrides[i].gpa.get() == entry.gpa.get(),
    ensures
        by_page(overrides.update(i, entry)),
        override_map(overrides.update(i, entry)) == override_map(overrides).insert(
            entry.gpa.get(),
            state_of(entry),
        ),
{
    let after = overrides.update(i, entry);
    assert forall|a: int, b: int| 0 <= a < b < after.len() implies (#[trigger] after[a]).gpa.get()
        < (#[trigger] after[b]).gpa.get() by {
        assert(overrides[a].gpa.get() < overrides[b].gpa.get());
    }
    let left = override_map(after);
    let right = override_map(overrides).insert(entry.gpa.get(), state_of(entry));
    assert forall|page: u64| #[trigger] left.contains_key(page) == right.contains_key(page) by {
        if has_override(after, page) {
            let k = choose|k: int|
                0 <= k < after.len() && (#[trigger] after[k]).gpa.get() == page;
            assert(overrides[k].gpa.get() == page);
        }
        if has_override(overrides, page) {
            let k = choose|k: int|
                0 <= k < overrides.len() && (#[trigger] overrides[k]).gpa.get() == page;
            assert(after[k].gpa.get() == page);
        }
        if page == entry.gpa.get() {
            assert(after[i].gpa.get() == page);
        }
    }
    assert forall|page: u64| #[trigger] left.contains_key(page) implies left[page]
        == right[page] by {
        let k = choose|k: int| 0 <= k < after.len() && (#[trigger] after[k]).gpa.get() == page;
        lemma_override(after, k);
        if k != i {
            lemma_override(overrides, k);
            if k < i {
                assert(overrides[k].gpa.get() < overrides[i].gpa.get());
            } else {
                assert(overrides[i].gpa.get() < overrides[k].gpa.get());
            }
        }
    }
    assert(left =~= right);
}

/// An override of a page that had none.
proof fn lemma_override_insert(overrides: Seq<PageOverride>, i: int, entry: PageOverride)
    requires
        by_page(overrides),
        0 <= i <= overrides.len(),
        forall|k: int|
            0 <= k < i ==> (#[trigger] overrides[k]).gpa.get() < entry.gpa.get(),
        forall|k: int|
            i <= k < overrides.len() ==> (#[trigger] overrides[k]).gpa.get() > entry.gpa.get(),
    ensures
        by_page(overrides.insert(i, entry)),
        override_map(overrides.insert(i, entry)) == override_map(overrides).insert(
            entry.gpa.get(),
            state_of(entry),
        ),
{
    let after = overrides.insert(i, entry);
    assert(after[i] == entry);
    assert forall|k: int| 0 <= k < after.len() && k != i implies #[trigger] after[k]
        == overrides[if k < i {
        k
    } else {
        k - 1
    }] by {}
    assert forall|a: int, b: int| 0 <= a < b < after.len() implies (#[trigger] after[a]).gpa.get()
        < (#[trigger] after[b]).gpa.get() by {
        let sa = if a < i {
            a
        } else {
            a - 1
        };
        let sb = if b < i {
            b
        } else {
            b - 1
        };
        if a != i && b != i {
            assert(overrides[sa].gpa.get() < overrides[sb].gpa.get());
        } else if a != i {
            assert(after[a] == overrides[sa]);
        } else {
            assert(after[b] == overrides[sb]);
        }
    }
    let left = override_map(after);
    let right = override_map(overrides).insert(entry.gpa.get(), state_of(entry));
    assert forall|page: u64| #[trigger] left.contains_key(page) == right.contains_key(page) by {
        if has_override(after, page) {
            let k = choose|k: int|
                0 <= k < after.len() && (#[trigger] after[k]).gpa.get() == page;
            if k != i {
                let sk = if k < i {
                    k
                } else {
                    k - 1
                };
                assert(overrides[sk].gpa.get() == page);
            }
        }
        if has_override(overrides, page) {
            let k = choose|k: int|
                0 <= k < overrides.len() && (#[trigger] overrides[k]).gpa.get() == page;
            let ak = if k < i {
                k
            } else {
                k + 1
            };
            assert(after[ak].gpa.get() == page);
        }
    }
    assert forall|page: u64| #[trigger] left.contains_key(page) implies left[page]
        == right[page] by {
        let k = choose|k: int| 0 <= k < after.len() && (#[trigger] after[k]).gpa.get() == page;
        lemma_override(after, k);
        if k != i {
            let sk = if k < i {
                k
            } else {
                k - 1
            };
            assert(after[k] == overrides[sk]);
            lemma_override(overrides, sk);
        }
    }
    assert(left =~= right);
}

/// One override less.
proof fn lemma_override_remove(overrides: Seq<PageOverride>, i: int)
    requires
        by_page(overrides),
        0 <= i < overrides.len(),
    ensures
        by_page(overrides.remove(i)),
        override_map(overrides.remove(i)) == override_map(overrides).remove(
            overrides[i].gpa.get(),
        ),
{
    let after = overrides.remove(i);
    let gone = overrides[i].gpa.get();
    assert forall|k: int| 0 <= k < after.len() implies #[trigger] after[k] == overrides[if k < i {
        k
    } else {
        k + 1
    }] by {}
    assert forall|a: int, b: int| 0 <= a < b < after.len() implies (#[trigger] after[a]).gpa.get()
        < (#[trigger] after[b]).gpa.get() by {
        let sa = if a < i {
            a
        } else {
            a + 1
        };
        let sb = if b < i {
            b
        } else {
            b + 1
        };
        assert(overrides[sa].gpa.get() < overrides[sb].gpa.get());
    }
    let left = override_map(after);
    let right = override_map(overrides).remove(gone);
    assert forall|page: u64| #[trigger] left.contains_key(page) == right.contains_key(page) by {
        if has_override(after, page) {
            let k = choose|k: int|
                0 <= k < after.len() && (#[trigger] after[k]).gpa.get() == page;
            let sk = if k < i {
                k
            } else {
                k + 1
            };
            assert(overrides[sk].gpa.get() == page);
            if sk < i {
                assert(overrides[sk].gpa.get() < overrides[i].gpa.get());
            } else {
                assert(overrides[i].gpa.get() < overrides[sk].gpa.get());
            }
        }
        if has_override(overrides, page) && page != gone {
            let k = choose|k: int|
                0 <= k < overrides.len() && (#[trigger] overrides[k]).gpa.get() == page;
            let ak = if k < i {
                k
            } else {
                k - 1
            };
            assert(after[ak].gpa.get() == page);
        }
    }
    assert forall|page: u64| #[trigger] left.contains_key(page) implies left[page]
        == right[page] by {
        let k = choose|k: int| 0 <= k < after.len() && (#[trigger] after[k]).gpa.get() == page;
        lemma_override(after, k);
        let sk = if k < i {
            k
        } else {
            k + 1
        };
        assert(after[k] == overrides[sk]);
        lemma_override(overrides, sk);
    }
    assert(left =~= right);
}

/// The view that a built and proved base is published as: nothing is edited, and
/// the tables are the publication's.
pub open spec fn base_model<A: EptPageAllocator>(
    candidate: BaseViewCandidate<A>,
    session_nonce: u64,
) -> ViewModel {
    ViewModel {
        overrides: Map::empty(),
        types: candidate.memory_types.view(),
        aperture_end: candidate.inventory.spec_aperture_end(),
        source: ViewId { slot: 0, reserved: 0, generation: session_nonce },
        edit_count: 0,
        hierarchy: Hierarchy {
            pages: page::with_owner(candidate.pages.view(), EptPageOwner::Published),
            owner: EptPageOwner::Published,
            ..candidate.hierarchy()
        },
    }
}

impl<A: EptPageAllocator + Clone> ViewImage<A> {
    /// The base view, published under its instance's generation.
    pub fn from_base(base: VerifiedBaseView<A>, session_nonce: u64) -> (image: Self)
        requires
            base.wf(),
        ensures
            image.wf(),
            image.model() == base_model(base.spec_candidate(), session_nonce),
            image.missing() == base.spec_candidate().pages.missing(),
            forall|address: u64|
                address < 0x1_0000_0000_0000 ==> #[trigger] tree::resolved(
                    image.model().hierarchy,
                    address,
                ) == tree::resolved(base.spec_candidate().hierarchy(), address),
    {
        let ghost h = base.spec_candidate().hierarchy();
        let (candidate, tables) = base.into_candidate();
        let _ = candidate.memory_types.intervals();
        let _ = candidate.inventory.aperture_end();
        proof {
            scan::lemma_aperture_fits(h, candidate.shape());
            page::lemma_with_owner(
                candidate.pages.view(),
                candidate.max_physical_bits,
                EptPageOwner::Published,
            );
        }
        let mut pages = candidate.pages;
        pages.set_owner_all(EptPageOwner::Published);
        let image = ViewImage {
            root: candidate.root,
            pages,
            inventory: candidate.inventory,
            memory_types: candidate.memory_types,
            max_physical_bits: candidate.max_physical_bits,
            execute_only_supported: candidate.execute_only_supported,
            owner: EptPageOwner::Published,
            overrides: Vec::new(),
            source: ViewId { slot: 0, reserved: 0, generation: session_nonce },
            edit_count: 0,
            tables,
        };
        proof {
            let after = image.hierarchy();
            tree::lemma_new_owner(h, after, tables@);
            assert(override_map(image.overrides@) =~= Map::<u64, PageState>::empty());
            assert(image.model().wf()) by {
                assert forall|page: u64| page < 0x1_0000_0000_0000 && page % 0x1000
                    == 0 implies if page < image.model().aperture_end {
                    tree::same_target(
                        state_result(
                            state_at(image.model().overrides, image.model().types, page),
                            after.execute_only,
                        ),
                        #[trigger] tree::resolved(after, page),
                    )
                } else {
                    tree::resolved(after, page) matches Err(Miss::Absent(_))
                } by {
                    assert(tree::resolved(after, page) == tree::resolved(h, page));
                }
            }
        }
        image
    }

    /// The entry of a table that governs an address, decoded.
    fn table_child(&self, table: HostPhysicalAddress, level: EptLevel, address: u64) -> (result:
        MonadResult<DecodedEptEntry>)
        requires
            self.pages.wf(),
            page::has_page(self.pages.view(), table.get()),
        ensures
            result == match self.hierarchy().decoded(level, table.get(), level.spec_index(address)) {
                Ok(decoded) => Ok::<DecodedEptEntry, MonadError>(decoded),
                Err(error) => Err(
                    MonadError::new(
                        ErrorPhase::DraftEdit,
                        ErrorCode::EptVerificationFailure,
                        error.spec_code(),
                    ),
                ),
            },
    {
        let index: usize = level.index(address);
        let raw: u64 = self.pages.read_entry(table, index)?;
        match decode_entry(level, raw, self.max_physical_bits, self.execute_only_supported) {
            Ok(decoded) => Ok(decoded),
            Err(error) => Err(edit_error(ErrorCode::EptVerificationFailure, error.code())),
        }
    }

    /// Puts a table of its parts in the place of a large leaf.
    fn split_leaf(
        &mut self,
        table: HostPhysicalAddress,
        level: EptLevel,
        index: usize,
        hpa: HostPhysicalAddress,
        permissions: EptPermissions,
        memory_type: EptMemoryType,
        Ghost(base): Ghost<int>,
    ) -> (result: MonadResult<HostPhysicalAddress>)
        requires
            old(self).tables_ok(),
            old(self).tables@.contains_key((level, base)),
            old(self).tables@[(level, base)] == table.get(),
            index < 512,
            level is Pdpt || level is Pd,
            old(self).hierarchy().decoded(level, table.get(), index as int) == Ok::<
                DecodedEptEntry,
                EptEntryError,
            >(
                DecodedEptEntry::Leaf {
                    hpa,
                    size: if level is Pdpt {
                        EptLeafSize::Size1G
                    } else {
                        EptLeafSize::Size2M
                    },
                    permissions,
                    memory_type,
                },
            ),
        ensures
            final(self).pages.wf(),
            final(self).pages.width() == old(self).pages.width(),
            final(self).same_frame(old(self)),
            result matches Ok(child) ==> {
                let below = tree::child_place(level, base, index as int);
                &&& final(self).tables_ok()
                &&& final(self).tables@ == old(self).tables@.insert(below, child.get())
                &&& forall|address: u64|
                    address < 0x1_0000_0000_0000 ==> tree::same_target(
                        tree::resolved(old(self).hierarchy(), address),
                        #[trigger] tree::resolved(final(self).hierarchy(), address),
                    )
                &&& forall|address: u64|
                    address < 0x1_0000_0000_0000 && !tree::governs(
                        level,
                        base,
                        index as int,
                        address as int,
                    ) ==> #[trigger] tree::resolved(final(self).hierarchy(), address)
                        == tree::resolved(old(self).hierarchy(), address)
            },
            result matches Err(error) ==> page::shortage::<A>(error),
    {
        let ghost h = self.hierarchy();
        let ghost tables = self.tables@;
        let child_level = match level.next() {
            Some(child_level) => child_level,
            None => {
                return Err(edit_error(ErrorCode::EptVerificationFailure, hpa.get()));
            },
        };
        let size = match level {
            EptLevel::Pdpt => EptLeafSize::Size2M,
            _ => EptLeafSize::Size4K,
        };
        let child = self.pages.allocate(child_level.kind(), self.owner)?;
        let ghost fresh_page = TablePage {
            hpa: child.get(),
            kind: child_level.spec_kind(),
            owner: self.owner,
            entries: page::zero_entries(),
        };
        let ghost start = self.pages.view();
        let ghost words = tree::split_entries(level, hpa.get(), permissions, memory_type);
        proof {
            page::lemma_push_page(h.pages, h.bits, fresh_page);
            assert(start == h.pages.push(fresh_page));
            assert(tree::place_fits(h, tables, level, base));
            tree::lemma_large_leaf_present(h, level, table.get(), index as int);
        }
        let mut part: usize = 0;
        while part < 512
            invariant
                part <= 512,
                self.pages.wf(),
                self.pages.width() == self.max_physical_bits,
                old(self).pages.width() == self.max_physical_bits,
                self.same_frame(old(self)),
                self.tables@ == tables,
                h == old(self).hierarchy(),
                h.bits == self.max_physical_bits,
                h.execute_only == self.execute_only_supported,
                entry::supported_width(h.bits),
                level is Pdpt || level is Pd,
                size == tree::smaller(level),
                hpa.get() % level.spec_span() == 0,
                hpa.get() + level.spec_span() <= bits::width_limit(h.bits),
                permissions.is_present(),
                !refused(permissions, h.execute_only),
                words == tree::split_entries(level, hpa.get(), permissions, memory_type),
                !page::has_page(h.pages, child.get()),
                forall|x: u64| #[trigger]
                    page::has_page(self.pages.view(), x) == (page::has_page(h.pages, x) || x
                        == child.get()),
                forall|x: u64|
                    page::has_page(h.pages, x) ==> #[trigger] page::page_of(self.pages.view(), x)
                        == page::page_of(h.pages, x),
                page::page_of(self.pages.view(), child.get()).kind == fresh_page.kind,
                page::page_of(self.pages.view(), child.get()).owner == fresh_page.owner,
                page::page_of(self.pages.view(), child.get()).entries.len() == 512,
                forall|i: int|
                    0 <= i < part ==> page::page_of(self.pages.view(), child.get()).entries[i]
                        == #[trigger] words[i],
            decreases 512 - part,
        {
            proof {
                tree::lemma_split_entry(
                    level,
                    hpa.get(),
                    permissions,
                    memory_type,
                    h.bits,
                    h.execute_only,
                    part as int,
                );
                bits::lemma_width_limit(h.bits);
                assert(part * size.bytes() <= 511 * size.bytes()) by (nonlinear_arith)
                    requires
                        part <= 511,
                ;
                entry::lemma_leaf_fits(
                    (hpa.get() + part * size.bytes()) as u64,
                    size,
                    h.bits,
                );
            }
            let offset: u64 = part as u64 * size.bytes();
            let child_hpa = HostPhysicalAddress::for_mapping(
                hpa.get() + offset,
                size.bytes(),
                size.bytes(),
                self.max_physical_bits,
            )?;
            let raw: u64 = leaf_entry(
                size,
                child_hpa,
                permissions,
                memory_type,
                self.max_physical_bits,
            )?;
            let ghost before = self.pages.view();
            proof {
                assert(page::has_page(before, child.get()));
                page::lemma_page_index(
                    before,
                    h.bits,
                    page::page_index(before, child.get()),
                );
                page::lemma_with_entry(
                    before,
                    h.bits,
                    page::page_index(before, child.get()),
                    part as int,
                    raw,
                );
            }
            self.pages.write_entry(child, part, raw)?;
            part += 1;
        }
        let ghost middle = self.pages.view();
        let raw: u64 = encode_link(level, child, self.max_physical_bits)?;
        proof {
            assert(page::has_page(h.pages, table.get()));
            assert(page::has_page(middle, table.get()));
        }
        self.pages.write_entry(table, index, raw)?;
        proof {
            let split = Split {
                level,
                base,
                index: index as int,
                fresh: child.get(),
                hpa: hpa.get(),
                permissions,
                memory_type,
            };
            assert(page::page_of(middle, child.get()).entries =~= words);
            let after = self.hierarchy();
            assert(tree::is_split(h, middle, after, tables, split));
            tree::lemma_split(h, middle, after, tables, split);
            self.tables = Ghost(tables.insert(tree::child_place(level, base, index as int), child.get()));
        }
        Ok(child)
    }
}

/// Outside the gibibytes that a range lies in every address resolves as before,
/// to a leaf of the same size.
#[verifier::opaque]
pub open spec fn kept_elsewhere(before: Hierarchy, after: Hierarchy, start: int, end: int) -> bool {
    forall|other: u64|
        other < 0x1_0000_0000_0000 && (other / 0x4000_0000 < start / 0x4000_0000 || (end - 1)
            / 0x4000_0000 < other / 0x4000_0000) ==> #[trigger] tree::resolved(after, other)
            == tree::resolved(before, other)
}

proof fn lemma_kept_step(
    first: Hierarchy,
    middle: Hierarchy,
    after: Hierarchy,
    start: int,
    end: int,
    address: int,
)
    requires
        kept_elsewhere(first, middle, start, end),
        kept_elsewhere(middle, after, address, address + 0x1000),
        start <= address,
        address + 0x1000 <= end,
    ensures
        kept_elsewhere(first, after, start, end),
{
    reveal(kept_elsewhere);
    assert(start / 0x4000_0000 <= address / 0x4000_0000);
    assert((address + 0x1000 - 1) / 0x4000_0000 <= (end - 1) / 0x4000_0000);
    assert forall|other: u64|
        other < 0x1_0000_0000_0000 && (other / 0x4000_0000 < start / 0x4000_0000 || (end - 1)
            / 0x4000_0000 < other / 0x4000_0000) implies #[trigger] tree::resolved(after, other)
        == tree::resolved(first, other) by {
        assert(tree::resolved(middle, other) == tree::resolved(first, other));
    }
}

/// The errors that finding or making a page entry reports, where the tables
/// alone decide.
pub open spec fn no_entry(address: u64) -> MonadError {
    MonadError::new(ErrorPhase::DraftEdit, ErrorCode::EptVerificationFailure, address)
}

/// The entries on the way to a page govern nothing outside its gibibyte.
proof fn lemma_other_block(
    pdpt_base: int,
    pdpt_index: int,
    pd_base: int,
    pd_index: int,
    address: u64,
    other: u64,
)
    requires
        pdpt_base % 0x80_0000_0000 == 0,
        0 <= pdpt_index < 512,
        pd_base == pdpt_base + pdpt_index * 0x4000_0000,
        0 <= pd_index < 512,
        pd_base <= address < pd_base + 0x4000_0000,
        other / 0x4000_0000 != address / 0x4000_0000,
    ensures
        !tree::governs(EptLevel::Pdpt, pdpt_base, pdpt_index, other as int),
        !tree::governs(EptLevel::Pd, pd_base, pd_index, other as int),
{
    let pdpt_span = EptLevel::Pdpt.spec_span() as int;
    let pd_span = EptLevel::Pd.spec_span() as int;
    assert(pdpt_span == 0x4000_0000 && pd_span == 0x20_0000);
    assert(pdpt_index * pdpt_span == pdpt_index * 0x4000_0000);
    assert((pdpt_index + 1) * pdpt_span == pdpt_index * 0x4000_0000 + 0x4000_0000);
    assert(pd_index * pd_span == pd_index * 0x20_0000);
    assert((pd_index + 1) * pd_span == pd_index * 0x20_0000 + 0x20_0000);
    assert(pd_base % 0x4000_0000 == 0);
    if pd_base <= other < pd_base + 0x4000_0000 {
        assert(other / 0x4000_0000 == pd_base / 0x4000_0000);
        assert(address / 0x4000_0000 == pd_base / 0x4000_0000);
    }
}

/// Whether two walks differ at most in the size of the leaf that they find.
pub open spec fn same_but_size(before: WalkResult, after: WalkResult) -> bool {
    match (before, after) {
        (WalkResult::Mapping(found), WalkResult::Mapping(now)) => now == (ResolvedMapping {
            leaf_size: now.leaf_size,
            ..found
        }),
        _ => after == before,
    }
}

/// Above a placed page table the directories are placed too.
proof fn lemma_placed_path(h: Hierarchy, tables: TableMap, address: u64)
    requires
        tree::arranged(h, tables),
        address < 0x1_0000_0000_0000,
        tables.contains_key((EptLevel::Pt, tree::region_start(EptLevel::Pt, address as int))),
    ensures
        tables.contains_key((EptLevel::Pd, tree::region_start(EptLevel::Pd, address as int))),
        tables.contains_key((EptLevel::Pdpt, tree::region_start(EptLevel::Pdpt, address as int))),
{
    let pt = tree::region_start(EptLevel::Pt, address as int);
    assert(tree::place_fits(h, tables, EptLevel::Pt, pt));
    assert(tree::region(EptLevel::Pt) == 0x20_0000);
    assert(pt <= address < pt + tree::region(EptLevel::Pt));
    tree::lemma_parent(EptLevel::Pt, EptLevel::Pd, pt, address);
    let pd = tree::region_start(EptLevel::Pd, pt);
    tree::lemma_regions(EptLevel::Pd, pd, address);
    assert(tree::place_fits(h, tables, EptLevel::Pd, pd));
    tree::lemma_parent(EptLevel::Pd, EptLevel::Pdpt, pd, address);
    let pdpt = tree::region_start(EptLevel::Pdpt, pd);
    tree::lemma_regions(EptLevel::Pdpt, pdpt, address);
}

impl<A: EptPageAllocator + Clone> ViewImage<A> {
    /// Tables that differ from others in the size of leaves in one gibibyte are
    /// walked alike, and serve the same view.
    proof fn lemma_split_walks(&self, before: &Self, address: u64)
        requires
            before.tables_ok(),
            self.tables_ok(),
            self.same_frame(before),
            forall|other: u64|
                other < 0x1_0000_0000_0000 ==> tree::same_target(
                    tree::resolved(before.hierarchy(), other),
                    #[trigger] tree::resolved(self.hierarchy(), other),
                ),
            forall|other: u64|
                other < 0x1_0000_0000_0000 && other / 0x4000_0000 != address / 0x4000_0000
                    ==> #[trigger] tree::resolved(self.hierarchy(), other) == tree::resolved(
                    before.hierarchy(),
                    other,
                ),
        ensures
            forall|gpa: GuestPhysicalAddress|
                gpa.get() % 0x1000 == 0 ==> same_but_size(
                    walker::walked(before.hierarchy(), gpa),
                    #[trigger] walker::walked(self.hierarchy(), gpa),
                ),
            forall|gpa: GuestPhysicalAddress|
                gpa.get() % 0x1000 == 0 && gpa.get() / 0x4000_0000 != address / 0x4000_0000
                    ==> #[trigger] walker::walked(self.hierarchy(), gpa) == walker::walked(
                    before.hierarchy(),
                    gpa,
                ),
            before.wf() ==> self.wf(),
    {
        let h = before.hierarchy();
        let after = self.hierarchy();
        assert forall|gpa: GuestPhysicalAddress| gpa.get() % 0x1000 == 0 implies same_but_size(
            walker::walked(h, gpa),
            #[trigger] walker::walked(after, gpa),
        ) && (gpa.get() / 0x4000_0000 != address / 0x4000_0000 ==> walker::walked(after, gpa)
            == walker::walked(h, gpa)) by {
            bits::lemma_width_limit(h.bits);
            if gpa.get() < bits::width_limit(h.bits) {
                tree::lemma_walked(h, before.tables@, gpa);
                tree::lemma_walked(after, self.tables@, gpa);
                assert(tree::same_target(
                    tree::resolved(h, gpa.get()),
                    tree::resolved(after, gpa.get()),
                ));
            }
        }
        if before.wf() {
            let model = self.model();
            assert(tables_agree(after, model.overrides, model.types, model.aperture_end)) by {
                assert forall|page: u64| page < 0x1_0000_0000_0000 && page % 0x1000
                    == 0 implies if page < model.aperture_end {
                    tree::same_target(
                        state_result(
                            state_at(model.overrides, model.types, page),
                            after.execute_only,
                        ),
                        #[trigger] tree::resolved(after, page),
                    )
                } else {
                    tree::resolved(after, page) matches Err(Miss::Absent(_))
                } by {
                    assert(tree::same_target(
                        tree::resolved(h, page),
                        tree::resolved(after, page),
                    ));
                }
            }
        }
    }
}

impl<A: EptPageAllocator + Clone> ViewImage<A> {
    /// Finds the entry of a page, splitting the large leaves above it; no page
    /// gets another target by that, and no leaf outside the gibibyte that holds
    /// the page is touched. Where the page has an entry already, nothing is asked
    /// for and nothing changes.
    pub fn ensure_4k(&mut self, address: u64) -> (result: MonadResult<(HostPhysicalAddress, usize)>)
        requires
            old(self).tables_ok(),
            address < 0x1_0000_0000_0000,
        ensures
            final(self).pages_ok(),
            final(self).same_frame(old(self)),
            result matches Ok((pt, index)) ==> {
                let base = tree::region_start(EptLevel::Pt, address as int);
                &&& final(self).tables_ok()
                &&& final(self).tables().contains_key((EptLevel::Pt, base))
                &&& final(self).tables()[(EptLevel::Pt, base)] == pt.get()
                &&& tree::is_place(EptLevel::Pt, base)
                &&& index == EptLevel::Pt.spec_index(address)
                &&& index < 512
                &&& base + index * 0x1000 <= address < base + (index + 1) * 0x1000
                &&& forall|other: u64|
                    other < 0x1_0000_0000_0000 ==> tree::same_target(
                        tree::resolved(old(self).hierarchy(), other),
                        #[trigger] tree::resolved(final(self).hierarchy(), other),
                    )
                &&& forall|other: u64|
                    other < 0x1_0000_0000_0000 && other / 0x4000_0000 != address / 0x4000_0000
                        ==> #[trigger] tree::resolved(final(self).hierarchy(), other)
                        == tree::resolved(old(self).hierarchy(), other)
                &&& page::has_page(final(self).hierarchy().pages, pt.get())
                &&& page::page_of(final(self).hierarchy().pages, pt.get()).kind
                    == EptLevel::Pt.spec_kind()
                &&& forall|gpa: GuestPhysicalAddress|
                    gpa.get() % 0x1000 == 0 ==> same_but_size(
                        walker::walked(old(self).hierarchy(), gpa),
                        #[trigger] walker::walked(final(self).hierarchy(), gpa),
                    )
                &&& forall|gpa: GuestPhysicalAddress|
                    gpa.get() % 0x1000 == 0 && gpa.get() / 0x4000_0000 != address / 0x4000_0000
                        ==> #[trigger] walker::walked(final(self).hierarchy(), gpa)
                        == walker::walked(old(self).hierarchy(), gpa)
                &&& old(self).wf() ==> final(self).wf()
            },
            final(self).missing() == old(self).missing(),
            final(self).model() == (ViewModel {
                hierarchy: final(self).hierarchy(),
                ..old(self).model()
            }),
            old(self).has_entry(address) ==> result is Ok && *final(self) == *old(self),
            match tree::resolved(old(self).hierarchy(), address) {
                Err(Miss::Absent(level)) => level !is Pt ==> result == Err::<
                    (HostPhysicalAddress, usize),
                    MonadError,
                >(no_entry(address)),
                _ => true,
            },
            result matches Err(error) ==> page::shortage::<A>(error) || (tree::resolved(
                old(self).hierarchy(),
                address,
            ) matches Err(Miss::Absent(level)) && level !is Pt),
    {
        let ghost first = self.hierarchy();
        let ghost tables = self.tables@;
        proof {
            assert(tables.contains_key((EptLevel::Pml4, 0)));
            assert(tree::place_fits(first, tables, EptLevel::Pml4, 0));
            tree::lemma_regions(EptLevel::Pml4, 0, address);
            tree::lemma_regions(
                EptLevel::Pdpt,
                EptLevel::Pml4.spec_index(address) * EptLevel::Pml4.spec_span(),
                address,
            );
            if self.has_entry(address) {
                lemma_placed_path(first, tables, address);
            }
            assert(tree::slot_fits(
                first,
                tables,
                EptLevel::Pml4,
                0,
                EptLevel::Pml4.spec_index(address),
            ));
        }
        let root = self.root;
        let pdpt = match self.table_child(root, EptLevel::Pml4, address)? {
            DecodedEptEntry::Table { hpa, .. } => hpa,
            _ => {
                return Err(edit_error(ErrorCode::EptVerificationFailure, address));
            },
        };
        let pdpt_index: usize = EptLevel::Pdpt.index(address);
        let ghost pdpt_base = EptLevel::Pml4.spec_index(address) * EptLevel::Pml4.spec_span();
        proof {
            assert(tree::child_place(EptLevel::Pml4, 0, EptLevel::Pml4.spec_index(address)) == (
                EptLevel::Pdpt,
                pdpt_base,
            ));
            assert(tree::place_fits(first, tables, EptLevel::Pdpt, pdpt_base));
            tree::lemma_regions(EptLevel::Pdpt, pdpt_base, address);
            tree::lemma_reach(first, tables, EptLevel::Pdpt, pdpt_base, address);
            assert(tree::slot_fits(
                first,
                tables,
                EptLevel::Pdpt,
                pdpt_base,
                pdpt_index as int,
            ));
        }
        let ghost pd_base = pdpt_base + pdpt_index * EptLevel::Pdpt.spec_span();
        proof {
            tree::lemma_regions(EptLevel::Pd, pd_base, address);
        }
        assert(tree::child_place(EptLevel::Pdpt, pdpt_base, pdpt_index as int) == (
            EptLevel::Pd,
            pd_base,
        ));
        let pd = match self.table_child(pdpt, EptLevel::Pdpt, address)? {
            DecodedEptEntry::Table { hpa, .. } => hpa,
            DecodedEptEntry::Leaf { hpa, size: _, permissions, memory_type } => {
                self.split_leaf(
                    pdpt,
                    EptLevel::Pdpt,
                    pdpt_index,
                    hpa,
                    permissions,
                    memory_type,
                    Ghost(pdpt_base),
                )?
            },
            _ => {
                return Err(edit_error(ErrorCode::EptVerificationFailure, address));
            },
        };
        let ghost second = self.hierarchy();
        let ghost tables = self.tables@;
        let pd_index: usize = EptLevel::Pd.index(address);
        proof {
            assert(tables.contains_key((EptLevel::Pd, pd_base)));
            assert(tree::place_fits(second, tables, EptLevel::Pd, pd_base));
            tree::lemma_regions(EptLevel::Pd, pd_base, address);
            assert(tree::slot_fits(second, tables, EptLevel::Pd, pd_base, pd_index as int));
            tree::lemma_reach(second, tables, EptLevel::Pd, pd_base, address);
            assert(tree::same_target(
                tree::resolved(first, address),
                tree::resolved(second, address),
            ));
        }
        let ghost pt_base = pd_base + pd_index * EptLevel::Pd.spec_span();
        proof {
            tree::lemma_regions(EptLevel::Pt, pt_base, address);
        }
        assert(tree::child_place(EptLevel::Pd, pd_base, pd_index as int) == (
            EptLevel::Pt,
            pt_base,
        ));
        let pt = match self.table_child(pd, EptLevel::Pd, address)? {
            DecodedEptEntry::Table { hpa, .. } => hpa,
            DecodedEptEntry::Leaf { hpa, size: _, permissions, memory_type } => {
                self.split_leaf(
                    pd,
                    EptLevel::Pd,
                    pd_index,
                    hpa,
                    permissions,
                    memory_type,
                    Ghost(pd_base),
                )?
            },
            _ => {
                return Err(edit_error(ErrorCode::EptVerificationFailure, address));
            },
        };
        let ghost third = self.hierarchy();
        let ghost tables = self.tables@;
        let index: usize = EptLevel::Pt.index(address);
        proof {
            assert(tables.contains_key((EptLevel::Pt, pt_base)));
            assert(tree::place_fits(third, tables, EptLevel::Pt, pt_base));
            tree::lemma_regions(EptLevel::Pt, pt_base, address);
            tree::lemma_reach(third, tables, EptLevel::Pt, pt_base, address);
            assert forall|other: u64|
                other < 0x1_0000_0000_0000 && other / 0x4000_0000 != address
                    / 0x4000_0000 implies #[trigger] tree::resolved(third, other)
                == tree::resolved(first, other) by {
                lemma_other_block(pdpt_base, pdpt_index as int, pd_base, pd_index as int, address, other);
                assert(tree::resolved(second, other) == tree::resolved(first, other));
            }
            assert forall|other: u64| other < 0x1_0000_0000_0000 implies tree::same_target(
                tree::resolved(first, other),
                #[trigger] tree::resolved(third, other),
            ) by {
                assert(tree::same_target(
                    tree::resolved(first, other),
                    tree::resolved(second, other),
                ));
            }
            assert(tree::same_target(
                tree::resolved(first, address),
                tree::resolved(third, address),
            ));
            self.lemma_split_walks(old(self), address);
        }
        Ok((pt, index))
    }

    /// The place of a page among the overrides, or where it would stand.
    fn override_index(&self, gpa: GuestPhysicalAddress) -> (found: Result<usize, usize>)
        requires
            by_page(self.overrides@),
        ensures
            match found {
                Ok(i) => {
                    &&& i < self.overrides@.len()
                    &&& self.overrides@[i as int].gpa.get() == gpa.get()
                    &&& has_override(self.overrides@, gpa.get())
                    &&& override_map(self.overrides@).contains_key(gpa.get())
                    &&& override_map(self.overrides@)[gpa.get()] == state_of(
                        self.overrides@[i as int],
                    )
                },
                Err(i) => {
                    &&& i <= self.overrides@.len()
                    &&& !override_map(self.overrides@).contains_key(gpa.get())
                    &&& forall|k: int|
                        0 <= k < i ==> (#[trigger] self.overrides@[k]).gpa.get() < gpa.get()
                    &&& forall|k: int|
                        i <= k < self.overrides@.len() ==> (#[trigger] self.overrides@[k]).gpa.get()
                            > gpa.get()
                },
            },
    {
        let mut low: usize = 0;
        let mut high: usize = self.overrides.len();
        while low < high
            invariant
                low <= high <= self.overrides@.len(),
                by_page(self.overrides@),
                forall|k: int|
                    0 <= k < low ==> (#[trigger] self.overrides@[k]).gpa.get() < gpa.get(),
                forall|k: int|
                    high <= k < self.overrides@.len() ==> (#[trigger] self.overrides@[k]).gpa.get()
                        > gpa.get(),
            decreases high - low,
        {
            let middle: usize = low + (high - low) / 2;
            let found: u64 = self.overrides[middle].gpa.get();
            let wanted: u64 = gpa.get();
            if found == wanted {
                proof {
                    lemma_override(self.overrides@, middle as int);
                }
                return Ok(middle);
            }
            if found < wanted {
                assert forall|k: int| 0 <= k < middle + 1 implies (
                #[trigger] self.overrides@[k]).gpa.get() < gpa.get() by {
                    if k < middle {
                        assert(self.overrides@[k].gpa.get() < self.overrides@[middle as int].gpa.get());
                    }
                }
                low = middle + 1;
            } else {
                assert forall|k: int| middle <= k < self.overrides@.len() implies (
                #[trigger] self.overrides@[k]).gpa.get() > gpa.get() by {
                    if middle < k {
                        assert(self.overrides@[middle as int].gpa.get() < self.overrides@[k].gpa.get());
                    }
                }
                high = middle;
            }
        }
        Err(low)
    }

    /// Walks a guest page, through tables alone.
    fn walk_tables(&self, gpa: GuestPhysicalAddress) -> (result: WalkResult)
        requires
            self.tables_ok(),
        ensures
            result == walker::walked(self.hierarchy(), gpa),
    {
        walk_view(
            &self.pages,
            self.root,
            self.max_physical_bits,
            self.execute_only_supported,
            self.owner,
            gpa,
        )
    }

    /// The state of a page: that of its override, or what the tables map it to.
    fn logical_mapping(&self, gpa: GuestPhysicalAddress) -> (result: MonadResult<PageOverride>)
        requires
            self.wf(),
        ensures
            match result {
                Ok(mapping) => {
                    &&& gpa.get() < self.model().aperture_end
                    &&& mapping.gpa.get() == gpa.get()
                    &&& state_of(mapping) == self.model().state(gpa.get())
                },
                Err(error) => {
                    &&& gpa.get() >= self.model().aperture_end
                    &&& error == no_mapping(self.model(), gpa.get())
                },
            },
    {
        let page: u64 = gpa.get();
        match self.override_index(gpa) {
            Ok(index) => {
                let found = self.overrides[index];
                assert(self.model().overrides.contains_key(page));
                return Ok(found);
            },
            Err(_) => {},
        }
        proof {
            bits::lemma_width_limit(self.hierarchy().bits);
            if page < bits::width_limit(self.hierarchy().bits) {
                tree::lemma_walked(self.hierarchy(), self.tables@, gpa);
            }
            if page < self.model().aperture_end {
                let target = tree::resolved(self.hierarchy(), page);
                assert(tree::same_target(
                    state_result(self.model().state(page), self.hierarchy().execute_only),
                    target,
                ));
            } else if page < 0x1_0000_0000_0000 {
                assert(tree::resolved(self.hierarchy(), page) matches Err(Miss::Absent(_)));
            }
        }
        match self.walk_tables(gpa) {
            WalkResult::Mapping(mapping) => Ok(
                PageOverride {
                    gpa,
                    hpa: mapping.hpa_page,
                    permissions: mapping.permissions,
                    memory_type: mapping.memory_type,
                    backing: None,
                },
            ),
            WalkResult::NotPresent { .. } => Err(
                edit_error(ErrorCode::EptVerificationFailure, page),
            ),
            WalkResult::Invalid(error) => Err(
                edit_error(ErrorCode::EptVerificationFailure, error.detail),
            ),
        }
    }

    /// Records the state of a page.
    fn put_override(&mut self, entry: PageOverride) -> (result: MonadResult<()>)
        requires
            by_page(old(self).overrides@),
        ensures
            by_page(final(self).overrides@),
            final(self).root == old(self).root,
            final(self).pages == old(self).pages,
            final(self).inventory == old(self).inventory,
            final(self).memory_types == old(self).memory_types,
            final(self).max_physical_bits == old(self).max_physical_bits,
            final(self).execute_only_supported == old(self).execute_only_supported,
            final(self).owner == old(self).owner,
            final(self).source == old(self).source,
            final(self).edit_count == old(self).edit_count,
            final(self).tables == old(self).tables,
            override_map(old(self).overrides@).contains_key(entry.gpa.get()) ==> result is Ok,
            match result {
                Ok(_) => override_map(final(self).overrides@) == override_map(
                    old(self).overrides@,
                ).insert(entry.gpa.get(), state_of(entry)),
                Err(error) => {
                    &&& final(self).overrides@ == old(self).overrides@
                    &&& error == MonadError::new(
                        ErrorPhase::DraftEdit,
                        ErrorCode::AllocationFailure,
                        old(self).overrides@.len() as u64,
                    )
                },
            },
    {
        match self.override_index(entry.gpa) {
            Ok(index) => {
                proof {
                    lemma_override_update(self.overrides@, index as int, entry);
                }
                self.overrides.set(index, entry);
            },
            Err(index) => {
                let reserved = self.overrides.try_reserve(1);
                if reserved.is_err() {
                    return Err(
                        edit_error(ErrorCode::AllocationFailure, self.overrides.len() as u64),
                    );
                }
                proof {
                    lemma_override_insert(self.overrides@, index as int, entry);
                }
                self.overrides.insert(index, entry);
            },
        }
        Ok(())
    }

    /// Forgets the state of a page.
    fn remove_override(&mut self, gpa: GuestPhysicalAddress)
        requires
            by_page(old(self).overrides@),
        ensures
            by_page(final(self).overrides@),
            final(self).root == old(self).root,
            final(self).pages == old(self).pages,
            final(self).inventory == old(self).inventory,
            final(self).memory_types == old(self).memory_types,
            final(self).max_physical_bits == old(self).max_physical_bits,
            final(self).execute_only_supported == old(self).execute_only_supported,
            final(self).owner == old(self).owner,
            final(self).source == old(self).source,
            final(self).edit_count == old(self).edit_count,
            final(self).tables == old(self).tables,
            override_map(final(self).overrides@) == override_map(old(self).overrides@).remove(
                gpa.get(),
            ),
    {
        match self.override_index(gpa) {
            Ok(index) => {
                proof {
                    lemma_override_remove(self.overrides@, index as int);
                }
                let _ = self.overrides.remove(index);
            },
            Err(_) => {
                assert(override_map(self.overrides@).remove(gpa.get()) =~= override_map(
                    self.overrides@,
                ));
            },
        }
    }

    /// Writes the entry of a page: the page gets the state's target, and no
    /// other page another one.
    fn write_4k(&mut self, entry: PageOverride) -> (result: MonadResult<()>)
        requires
            old(self).tables_ok(),
            entry.gpa.get() < 0x1_0000_0000_0000,
        ensures
            final(self).pages.wf(),
            final(self).pages.width() == old(self).pages.width(),
            final(self).same_frame(old(self)),
            result is Ok ==> {
                let h = final(self).hierarchy();
                &&& final(self).tables_ok()
                &&& entry::leaf_fault(
                    entry.hpa,
                    EptLeafSize::Size4K,
                    entry.permissions,
                    old(self).max_physical_bits,
                ) is None
                &&& forall|page: u64|
                    page < 0x1_0000_0000_0000 && page % 0x1000 == 0 ==> tree::same_target(
                        if page == entry.gpa.get() {
                            state_result(state_of(entry), h.execute_only)
                        } else {
                            tree::resolved(old(self).hierarchy(), page)
                        },
                        #[trigger] tree::resolved(h, page),
                    )
                &&& kept_elsewhere(
                    old(self).hierarchy(),
                    h,
                    entry.gpa.get() as int,
                    entry.gpa.get() + 0x1000,
                )
            },
            entry::leaf_fault(
                entry.hpa,
                EptLeafSize::Size4K,
                entry.permissions,
                old(self).max_physical_bits,
            ) is Some ==> result is Err,
            old(self).has_entry(entry.gpa.get()) ==> {
                &&& final(self).tables() == old(self).tables()
                &&& result == match entry::leaf_fault(
                    entry.hpa,
                    EptLeafSize::Size4K,
                    entry.permissions,
                    old(self).max_physical_bits,
                ) {
                    None => Ok::<(), MonadError>(()),
                    Some(fault) => Err(fault.spec_error()),
                }
            },
            result matches Err(error) ==> {
                ||| page::shortage::<A>(error)
                ||| tree::resolved(old(self).hierarchy(), entry.gpa.get()) matches Err(
                    Miss::Absent(level),
                ) && level !is Pt
                ||| entry::leaf_fault(
                    entry.hpa,
                    EptLeafSize::Size4K,
                    entry.permissions,
                    old(self).max_physical_bits,
                ) matches Some(fault) && error == fault.spec_error()
            },
    {
        let ghost h = self.hierarchy();
        let address: u64 = entry.gpa.get();
        let (pt, index) = self.ensure_4k(address)?;
        let raw: u64 = leaf_entry(
            EptLeafSize::Size4K,
            entry.hpa,
            entry.permissions,
            entry.memory_type,
            self.max_physical_bits,
        )?;
        let ghost ready = self.hierarchy();
        let ghost tables = self.tables@;
        let ghost base = tree::region_start(EptLevel::Pt, address as int);
        proof {
            assert(tree::place_fits(ready, tables, EptLevel::Pt, base));
        }
        self.pages.write_entry(pt, index, raw)?;
        proof {
            let after = self.hierarchy();
            tree::lemma_set_page(ready, after, tables, base, index as int, raw);
            assert(kept_elsewhere(h, after, address as int, address + 0x1000)) by {
                reveal(kept_elsewhere);
                assert forall|other: u64|
                    other < 0x1_0000_0000_0000 && (other / 0x4000_0000 < address as int
                        / 0x4000_0000 || (address + 0x1000 - 1) / 0x4000_0000 < other
                        / 0x4000_0000) implies #[trigger] tree::resolved(after, other)
                    == tree::resolved(h, other) by {
                    assert(other / 0x4000_0000 != address / 0x4000_0000);
                    assert(tree::resolved(ready, other) == tree::resolved(h, other));
                    lemma_other_page(base, index as int, address, other);
                }
            }
            if refused(entry.permissions, h.execute_only) && entry.permissions.is_present() {
                entry::lemma_unsupported_leaf(
                    entry.hpa,
                    EptLeafSize::Size4K,
                    entry.permissions,
                    entry.memory_type,
                    h.bits,
                    h.execute_only,
                );
            } else {
                entry::law_leaf_round_trip(
                    entry.hpa,
                    EptLeafSize::Size4K,
                    entry.permissions,
                    entry.memory_type,
                    h.bits,
                    h.execute_only,
                );
            }
            assert forall|page: u64| page < 0x1_0000_0000_0000 && page % 0x1000
                == 0 implies tree::same_target(
                if page == address {
                    state_result(state_of(entry), after.execute_only)
                } else {
                    tree::resolved(h, page)
                },
                #[trigger] tree::resolved(after, page),
            ) by {
                assert(tree::same_target(
                    tree::resolved(h, page),
                    tree::resolved(ready, page),
                ));
                lemma_governed_page(base, index as int, page, address);
            }
        }
        Ok(())
    }
}

/// The entry of a page governs nothing outside its gibibyte.
proof fn lemma_other_page(base: int, index: int, address: u64, other: u64)
    requires
        tree::is_place(EptLevel::Pt, base),
        0 <= index < 512,
        base + index * 0x1000 <= address < base + (index + 1) * 0x1000,
        other / 0x4000_0000 != address / 0x4000_0000,
    ensures
        !tree::governs(EptLevel::Pt, base, index, other as int),
{
    let span = EptLevel::Pt.spec_span() as int;
    assert(span == 0x1000);
    assert(index * span == index * 0x1000 && (index + 1) * span == (index + 1) * 0x1000);
    assert(tree::region(EptLevel::Pt) == 0x20_0000);
    assert(base % 0x20_0000 == 0);
    if tree::governs(EptLevel::Pt, base, index, other as int) {
        lemma_one_block(base, address as int);
        lemma_one_block(base, other as int);
    }
}

/// The bytes of a 2 MiB region lie in one gibibyte.
proof fn lemma_one_block(base: int, address: int)
    requires
        base % 0x20_0000 == 0,
        base <= address < base + 0x20_0000,
    ensures
        address / 0x4000_0000 == base / 0x4000_0000,
{
    let k = base / 0x20_0000;
    let q = k / 512;
    let r = k % 512;
    assert(base == 0x20_0000 * k);
    assert(k == 512 * q + r);
    assert(0x4000_0000 * q <= base);
    assert(address < 0x4000_0000 * (q + 1));
}

/// An entry of the lowest level governs one page.
proof fn lemma_governed_page(base: int, index: int, page: u64, address: u64)
    requires
        tree::is_place(EptLevel::Pt, base),
        0 <= index < 512,
        page % 0x1000 == 0,
        address % 0x1000 == 0,
        base + index * 0x1000 <= address < base + (index + 1) * 0x1000,
    ensures
        tree::governs(EptLevel::Pt, base, index, page as int) <==> page == address,
{
    let q = base / 0x20_0000;
    assert(base == 0x20_0000 * q);
    assert(address == base + index * 0x1000);
}

/// The error for a page that the tables do not map.
pub open spec fn no_mapping(model: ViewModel, page: u64) -> MonadError {
    MonadError::new(
        ErrorPhase::DraftEdit,
        ErrorCode::EptVerificationFailure,
        if page < bits::width_limit(model.hierarchy.bits) {
            page
        } else {
            model.hierarchy.bits as u64
        },
    )
}

/// A page of a range.
pub open spec fn in_range(start: int, end: int, page: u64) -> bool {
    start <= page < end && page % 0x1000 == 0
}

/// Overrides after every page of a range got other permissions.
pub open spec fn with_permissions(
    overrides: Map<u64, PageState>,
    types: Seq<MemoryTypeInterval>,
    start: int,
    end: int,
    permissions: EptPermissions,
) -> Map<u64, PageState> {
    Map::new(
        |page: u64| overrides.contains_key(page) || in_range(start, end, page),
        |page: u64|
            if in_range(start, end, page) {
                PageState { permissions, ..state_at(overrides, types, page) }
            } else {
                overrides[page]
            },
    )
}

/// Overrides after every page of a range went back to the base view.
pub open spec fn restored(
    overrides: Map<u64, PageState>,
    start: int,
    end: int,
) -> Map<u64, PageState> {
    Map::new(
        |page: u64| overrides.contains_key(page) && !in_range(start, end, page),
        |page: u64| overrides[page],
    )
}

/// Overrides after an edit; `hpa` is the page behind a backing reference.
pub open spec fn edited(
    overrides: Map<u64, PageState>,
    types: Seq<MemoryTypeInterval>,
    edit: DraftEdit,
    hpa: HostPhysicalAddress,
) -> Map<u64, PageState> {
    match edit {
        DraftEdit::SetPermissions { range, permissions } => with_permissions(
            overrides,
            types,
            range.spec_start().get() as int,
            range.spec_end(),
            permissions,
        ),
        DraftEdit::MapBacking4K { gpa, backing, permissions, memory_type } => overrides.insert(
            gpa.get(),
            PageState {
                hpa: hpa.get(),
                permissions,
                memory_type: memory_type.spec_memory_type(),
                backing: Some(backing),
            },
        ),
        DraftEdit::RestoreFromBase { range } => restored(
            overrides,
            range.spec_start().get() as int,
            range.spec_end(),
        ),
    }
}

/// Whether a view can take an edit, memory aside: it stays inside the
/// aperture, its permissions can be encoded, and both the guest page and the
/// backing page have the memory type that the edit names.
pub open spec fn edit_applies(model: ViewModel, edit: DraftEdit, hpa: HostPhysicalAddress) -> bool {
    &&& model.edit_count < u32::MAX
    &&& match edit {
        DraftEdit::SetPermissions { range, permissions } => {
            &&& range.spec_end() <= model.aperture_end
            &&& permissions.write ==> permissions.read
        },
        DraftEdit::MapBacking4K { gpa, backing, permissions, memory_type } => {
            &&& gpa.get() < model.aperture_end
            &&& mtrr::type_at(model.types, gpa.get() as int) == Some(memory_type.spec_memory_type())
            &&& mtrr::type_at(model.types, hpa.get() as int) == Some(memory_type.spec_memory_type())
            &&& entry::leaf_fault(
                hpa,
                EptLeafSize::Size4K,
                permissions,
                model.hierarchy.bits,
            ) is None
        },
        DraftEdit::RestoreFromBase { range } => range.spec_end() <= model.aperture_end,
    }
}

/// The error for a page that cannot be taken back to the base view, because
/// there it is not.
pub open spec fn no_base(model: ViewModel, page: u64) -> MonadError {
    match super::address::host_mapping_fault(page, 0x1000, 0x1000, model.hierarchy.bits) {
        Some(error) => error,
        None => MonadError::new(ErrorPhase::DraftEdit, ErrorCode::InvalidRange, page),
    }
}

/// Why a view cannot take an edit, if it cannot, the count of edits aside.
pub open spec fn content_fault(
    model: ViewModel,
    edit: DraftEdit,
    found: MonadResult<HostPhysicalAddress>,
) -> Option<MonadError> {
    match edit {
        DraftEdit::SetPermissions { range, permissions } => {
            let start = range.spec_start().get();
            if start >= model.aperture_end {
                Some(no_mapping(model, start))
            } else if permissions.write && !permissions.read {
                Some(EptEntryError::UnsupportedPermissions.spec_error())
            } else if range.spec_end() > model.aperture_end {
                Some(no_mapping(model, model.aperture_end))
            } else {
                None
            }
        },
        DraftEdit::RestoreFromBase { range } => {
            let start = range.spec_start().get();
            if start >= model.aperture_end {
                Some(no_base(model, start))
            } else if range.spec_end() > model.aperture_end {
                Some(no_base(model, model.aperture_end))
            } else {
                None
            }
        },
        DraftEdit::MapBacking4K { gpa, backing, permissions, memory_type } => {
            let wanted = memory_type.spec_memory_type();
            if gpa.get() >= model.aperture_end {
                Some(MonadError::new(ErrorPhase::DraftEdit, ErrorCode::InvalidRange, gpa.get()))
            } else if mtrr::type_at(model.types, gpa.get() as int) != Some(wanted) {
                Some(
                    MonadError::new(
                        ErrorPhase::DraftEdit,
                        ErrorCode::UnsupportedMtrrCombination,
                        mtrr::type_at(model.types, gpa.get() as int).unwrap().spec_code() as u64,
                    ),
                )
            } else {
                match found {
                    Err(error) => Some(error),
                    Ok(hpa) => if mtrr::type_at(model.types, hpa.get() as int) != Some(wanted) {
                        Some(
                            MonadError::new(
                                ErrorPhase::DraftEdit,
                                ErrorCode::UnsupportedMtrrCombination,
                                hpa.get(),
                            ),
                        )
                    } else {
                        match entry::leaf_fault(
                            hpa,
                            EptLeafSize::Size4K,
                            permissions,
                            model.hierarchy.bits,
                        ) {
                            Some(fault) => Some(fault.spec_error()),
                            None => None,
                        }
                    },
                }
            }
        },
    }
}

/// Why a view cannot take an edit, memory aside, if it cannot. `found` is what
/// looking for the edit's backing page came to.
pub open spec fn edit_fault(
    model: ViewModel,
    edit: DraftEdit,
    found: MonadResult<HostPhysicalAddress>,
) -> Option<MonadError> {
    match content_fault(model, edit, found) {
        Some(error) => Some(error),
        None => if model.edit_count == u32::MAX {
            Some(
                MonadError::new(
                    ErrorPhase::DraftEdit,
                    ErrorCode::AddressOverflow,
                    u32::MAX as u64,
                ),
            )
        } else {
            None
        },
    }
}

/// Whether an edit goes as far as looking for its backing page.
pub open spec fn seeks_page(model: ViewModel, edit: DraftEdit) -> bool {
    edit matches DraftEdit::MapBacking4K { gpa, backing, permissions, memory_type } && gpa.get()
        < model.aperture_end && mtrr::type_at(model.types, gpa.get() as int) == Some(
        memory_type.spec_memory_type(),
    )
}

/// Whether what looking for a backing page came to bars the edit: there is no
/// such page, or it does not have the type that is asked for.
pub open spec fn bars(
    model: ViewModel,
    edit: DraftEdit,
    found: MonadResult<HostPhysicalAddress>,
) -> bool {
    match (edit, found) {
        (DraftEdit::MapBacking4K { memory_type, .. }, Ok(hpa)) => mtrr::type_at(
            model.types,
            hpa.get() as int,
        ) != Some(memory_type.spec_memory_type()),
        (DraftEdit::MapBacking4K { .. }, Err(_)) => true,
        _ => false,
    }
}

/// Every page of the aperture has a memory type, and no other page has one.
proof fn lemma_typed(model: ViewModel)
    requires
        model.wf(),
    ensures
        forall|page: u64|
            (#[trigger] mtrr::type_at(model.types, page as int) is Some) == (page
                < model.aperture_end),
{
    assert forall|page: u64|
        (#[trigger] mtrr::type_at(model.types, page as int) is Some) == (page
            < model.aperture_end) by {
        let types = model.types;
        if page < model.aperture_end {
            let i = mtrr::lemma_cover_find(
                types,
                model.aperture_end,
                page as int,
                types.len() - 1,
            );
            mtrr::lemma_cover_type_at(types, model.aperture_end, i, page as int);
        } else if mtrr::type_at(types, page as int) is Some {
            let i = choose|i: int|
                0 <= i < types.len() && mtrr::in_interval(#[trigger] types[i], page as int);
            mtrr::lemma_cover_type_at(types, model.aperture_end, i, page as int);
        }
    }
}

/// A view takes an edit exactly when nothing is wrong with it.
pub proof fn law_edit_applies_without_fault(
    model: ViewModel,
    edit: DraftEdit,
    hpa: HostPhysicalAddress,
)
    requires
        model.wf(),
        edit matches DraftEdit::SetPermissions { range, permissions } ==> range.spec_length() > 0,
        edit matches DraftEdit::RestoreFromBase { range } ==> range.spec_length() > 0,
    ensures
        edit_applies(model, edit, hpa) <==> edit_fault(model, edit, Ok(hpa)) is None,
{
}

/// All but the overrides, the tables' pages and the number of edits is as it
/// was.
pub open spec fn same_view(before: ViewModel, after: ViewModel) -> bool {
    &&& after.types == before.types
    &&& after.aperture_end == before.aperture_end
    &&& after.source == before.source
    &&& after.hierarchy.root == before.hierarchy.root
    &&& after.hierarchy.bits == before.hierarchy.bits
    &&& after.hierarchy.execute_only == before.hierarchy.execute_only
    &&& after.hierarchy.owner == before.hierarchy.owner
}

proof fn lemma_permissions_step(
    overrides: Map<u64, PageState>,
    types: Seq<MemoryTypeInterval>,
    start: int,
    address: u64,
    permissions: EptPermissions,
)
    requires
        start <= address,
        address % 0x1000 == 0,
    ensures
        ({
            let before = with_permissions(overrides, types, start, address as int, permissions);
            with_permissions(overrides, types, start, address + 0x1000, permissions)
                == before.insert(
                address,
                PageState { permissions, ..state_at(before, types, address) },
            )
        }),
{
    let before = with_permissions(overrides, types, start, address as int, permissions);
    let after = with_permissions(overrides, types, start, address + 0x1000, permissions);
    let step = before.insert(
        address,
        PageState { permissions, ..state_at(before, types, address) },
    );
    assert forall|page: u64| #[trigger]
        in_range(start, address + 0x1000, page) == (in_range(start, address as int, page) || page
            == address) by {}
    assert(state_at(before, types, address) == state_at(overrides, types, address));
    assert forall|page: u64| #[trigger] after.contains_key(page) == step.contains_key(page) by {
        assert(in_range(start, address + 0x1000, page) == (in_range(start, address as int, page)
            || page == address));
    }
    assert forall|page: u64| #[trigger] after.contains_key(page) implies after[page]
        == step[page] by {
        assert(in_range(start, address + 0x1000, page) == (in_range(start, address as int, page)
            || page == address));
    }
    assert(after =~= step);
}

proof fn lemma_restored_step(overrides: Map<u64, PageState>, start: int, address: u64)
    requires
        start <= address,
        address % 0x1000 == 0,
    ensures
        restored(overrides, start, address + 0x1000) == restored(
            overrides,
            start,
            address as int,
        ).remove(address),
{
    let after = restored(overrides, start, address + 0x1000);
    let step = restored(overrides, start, address as int).remove(address);
    assert forall|page: u64| #[trigger] after.contains_key(page) == step.contains_key(page) by {
        assert(in_range(start, address + 0x1000, page) == (in_range(start, address as int, page)
            || page == address));
    }
    assert(after =~= step);
}

/// Where the pages of an edit begin.
pub open spec fn edit_start(edit: DraftEdit) -> int {
    match edit {
        DraftEdit::SetPermissions { range, .. } => range.spec_start().get() as int,
        DraftEdit::MapBacking4K { gpa, .. } => gpa.get() as int,
        DraftEdit::RestoreFromBase { range } => range.spec_start().get() as int,
    }
}

/// Where the pages of an edit end.
pub open spec fn edit_end(edit: DraftEdit) -> int {
    match edit {
        DraftEdit::SetPermissions { range, .. } => range.spec_end(),
        DraftEdit::MapBacking4K { gpa, .. } => gpa.get() + 0x1000,
        DraftEdit::RestoreFromBase { range } => range.spec_end(),
    }
}

impl<A: EptPageAllocator + Clone> ViewImage<A> {
    /// Whether an edit needs neither pages nor memory: each of its pages has an
    /// entry of its own, and, unless it goes back to the base view, an override.
    pub open spec fn ready(&self, edit: DraftEdit) -> bool {
        forall|page: u64|
            in_range(edit_start(edit), edit_end(edit), page) && page < self.model().aperture_end
                ==> #[trigger] self.has_entry(page) && (edit is RestoreFromBase
                || self.model().overrides.contains_key(page))
    }
}

impl<A: EptPageAllocator + Clone> ViewImage<A> {
    /// Gives a page of the aperture another state.
    fn set_page(&mut self, entry: PageOverride) -> (result: MonadResult<()>)
        requires
            old(self).wf(),
            entry.gpa.get() < old(self).model().aperture_end,
            mtrr::type_at(old(self).model().types, entry.gpa.get() as int) == Some(
                entry.memory_type,
            ),
        ensures
            same_view(old(self).model(), final(self).model()),
            final(self).missing() == old(self).missing(),
            final(self).model().edit_count == old(self).model().edit_count,
            result is Ok ==> {
                &&& final(self).wf()
                &&& kept_elsewhere(
                    old(self).model().hierarchy,
                    final(self).model().hierarchy,
                    entry.gpa.get() as int,
                    entry.gpa.get() + 0x1000,
                )
                &&& final(self).model().overrides == old(self).model().overrides.insert(
                    entry.gpa.get(),
                    state_of(entry),
                )
                &&& entry::leaf_fault(
                    entry.hpa,
                    EptLeafSize::Size4K,
                    entry.permissions,
                    old(self).model().hierarchy.bits,
                ) is None
            },
            entry::leaf_fault(
                entry.hpa,
                EptLeafSize::Size4K,
                entry.permissions,
                old(self).model().hierarchy.bits,
            ) is Some ==> result is Err,
            old(self).has_entry(entry.gpa.get()) ==> {
                &&& final(self).tables() == old(self).tables()
                &&& match entry::leaf_fault(
                    entry.hpa,
                    EptLeafSize::Size4K,
                    entry.permissions,
                    old(self).model().hierarchy.bits,
                ) {
                    None => old(self).model().overrides.contains_key(entry.gpa.get()) ==> result
                        == Ok::<(), MonadError>(()),
                    Some(fault) => result == Err::<(), MonadError>(fault.spec_error()),
                }
            },
            result matches Err(error) ==> page::shortage::<A>(error) || (entry::leaf_fault(
                entry.hpa,
                EptLeafSize::Size4K,
                entry.permissions,
                old(self).model().hierarchy.bits,
            ) matches Some(fault) && error == fault.spec_error()),
    {
        let ghost before = self.model();
        let page: u64 = entry.gpa.get();
        proof {
            bits::lemma_width_limit(before.hierarchy.bits);
            assert(tree::same_target(
                state_result(
                    state_at(before.overrides, before.types, page),
                    before.hierarchy.execute_only,
                ),
                tree::resolved(before.hierarchy, page),
            ));
        }
        self.write_4k(entry)?;
        self.put_override(entry)?;
        proof {
            let after = self.model();
            assert forall|other: u64| other < 0x1_0000_0000_0000 && other % 0x1000 == 0 implies if other
                < after.aperture_end {
                tree::same_target(
                    state_result(
                        state_at(after.overrides, after.types, other),
                        after.hierarchy.execute_only,
                    ),
                    #[trigger] tree::resolved(after.hierarchy, other),
                )
            } else {
                tree::resolved(after.hierarchy, other) matches Err(Miss::Absent(_))
            } by {
                if other != page {
                    assert(tree::same_target(
                        tree::resolved(before.hierarchy, other),
                        tree::resolved(after.hierarchy, other),
                    ));
                    if other < before.aperture_end {
                        assert(tree::same_target(
                            state_result(
                                state_at(before.overrides, before.types, other),
                                before.hierarchy.execute_only,
                            ),
                            tree::resolved(before.hierarchy, other),
                        ));
                        assert(state_at(after.overrides, after.types, other) == state_at(
                            before.overrides,
                            before.types,
                            other,
                        ));
                    }
                }
            }
            assert forall|other: u64| #[trigger] after.overrides.contains_key(other) implies state_ok(
                other,
                after.overrides[other],
                after.types,
                after.aperture_end,
                after.hierarchy.bits,
            ) by {
                if other != page {
                    assert(before.overrides.contains_key(other));
                }
            }
        }
        Ok(())
    }

    /// Takes a page of the aperture back to the base view.
    fn reset_page(&mut self, entry: PageOverride) -> (result: MonadResult<()>)
        requires
            old(self).wf(),
            entry.gpa.get() < old(self).model().aperture_end,
            state_of(entry) == base_state(old(self).model().types, entry.gpa.get()),
        ensures
            same_view(old(self).model(), final(self).model()),
            final(self).missing() == old(self).missing(),
            final(self).model().edit_count == old(self).model().edit_count,
            result is Ok ==> {
                &&& final(self).wf()
                &&& kept_elsewhere(
                    old(self).model().hierarchy,
                    final(self).model().hierarchy,
                    entry.gpa.get() as int,
                    entry.gpa.get() + 0x1000,
                )
                &&& final(self).model().overrides == old(self).model().overrides.remove(
                    entry.gpa.get(),
                )
            },
            result matches Err(error) ==> page::shortage::<A>(error),
            old(self).has_entry(entry.gpa.get()) ==> result is Ok && final(self).tables() == old(
                self,
            ).tables(),
    {
        let ghost before = self.model();
        let page: u64 = entry.gpa.get();
        proof {
            bits::lemma_width_limit(before.hierarchy.bits);
            entry::lemma_leaf_fits(page, EptLeafSize::Size4K, before.hierarchy.bits);
            assert(tree::same_target(
                state_result(
                    state_at(before.overrides, before.types, page),
                    before.hierarchy.execute_only,
                ),
                tree::resolved(before.hierarchy, page),
            ));
        }
        self.write_4k(entry)?;
        self.remove_override(entry.gpa);
        proof {
            let after = self.model();
            assert forall|other: u64| other < 0x1_0000_0000_0000 && other % 0x1000 == 0 implies if other
                < after.aperture_end {
                tree::same_target(
                    state_result(
                        state_at(after.overrides, after.types, other),
                        after.hierarchy.execute_only,
                    ),
                    #[trigger] tree::resolved(after.hierarchy, other),
                )
            } else {
                tree::resolved(after.hierarchy, other) matches Err(Miss::Absent(_))
            } by {
                if other != page {
                    assert(tree::same_target(
                        tree::resolved(before.hierarchy, other),
                        tree::resolved(after.hierarchy, other),
                    ));
                    if other < before.aperture_end {
                        assert(tree::same_target(
                            state_result(
                                state_at(before.overrides, before.types, other),
                                before.hierarchy.execute_only,
                            ),
                            tree::resolved(before.hierarchy, other),
                        ));
                        assert(state_at(after.overrides, after.types, other) == state_at(
                            before.overrides,
                            before.types,
                            other,
                        ));
                    }
                }
            }
            assert forall|other: u64| #[trigger] after.overrides.contains_key(other) implies state_ok(
                other,
                after.overrides[other],
                after.types,
                after.aperture_end,
                after.hierarchy.bits,
            ) by {
                assert(before.overrides.contains_key(other));
            }
        }
        Ok(())
    }

    /// Gives every page of a range other permissions.
    #[verifier::rlimit(60)]
    #[verifier::spinoff_prover]
    fn set_permissions(&mut self, range: GpaRange, permissions: EptPermissions) -> (result:
        MonadResult<()>)
        requires
            old(self).wf(),
        ensures
            same_view(old(self).model(), final(self).model()),
            final(self).missing() == old(self).missing(),
            final(self).model().edit_count == old(self).model().edit_count,
            result is Ok ==> {
                &&& final(self).wf()
                &&& kept_elsewhere(
                    old(self).model().hierarchy,
                    final(self).model().hierarchy,
                    range.spec_start().get() as int,
                    range.spec_end(),
                )
                &&& range.spec_start().get() < range.spec_end() <= old(self).model().aperture_end
                &&& permissions.write ==> permissions.read
                &&& final(self).model().overrides == with_permissions(
                    old(self).model().overrides,
                    old(self).model().types,
                    range.spec_start().get() as int,
                    range.spec_end(),
                    permissions,
                )
            },
            result matches Err(error) ==> page::shortage::<A>(error) || content_fault(
                old(self).model(),
                DraftEdit::SetPermissions { range, permissions },
                Ok(HostPhysicalAddress::at(0)),
            ) == Some(error),
            old(self).ready(DraftEdit::SetPermissions { range, permissions }) ==> result == match content_fault(
                old(self).model(),
                DraftEdit::SetPermissions { range, permissions },
                Ok(HostPhysicalAddress::at(0)),
            ) {
                None => Ok::<(), MonadError>(()),
                Some(error) => Err(error),
            },
            range.spec_start().get() >= old(self).model().aperture_end ==> result is Err
                && content_fault(
                old(self).model(),
                DraftEdit::SetPermissions { range, permissions },
                Ok(HostPhysicalAddress::at(0)),
            ) == Some(result->Err_0),
    {
        let ghost first = self.model();
        let _ = range.length();
        let start: u64 = range.start().get();
        let end: u64 = range.end()?;
        let mut address: u64 = start;
        proof {
            assert(with_permissions(
                first.overrides,
                first.types,
                start as int,
                start as int,
                permissions,
            ) =~= first.overrides);
        }
        proof {
            reveal(kept_elsewhere);
            assert(kept_elsewhere(
                first.hierarchy,
                self.model().hierarchy,
                start as int,
                end as int,
            ));
        }
        while address < end
            invariant
                kept_elsewhere(
                    first.hierarchy,
                    self.model().hierarchy,
                    start as int,
                    end as int,
                ),
                start <= address <= end,
                start < end,
                end == range.spec_end(),
                start == range.spec_start().get(),
                address % 0x1000 == 0,
                end % 0x1000 == 0,
                self.wf(),
                first == old(self).model(),
                same_view(first, self.model()),
                self.missing() == old(self).missing(),
                old(self).ready(DraftEdit::SetPermissions { range, permissions }) ==> self.tables() == old(self).tables(),
                self.model().edit_count == first.edit_count,
                self.model().overrides == with_permissions(
                    first.overrides,
                    first.types,
                    start as int,
                    address as int,
                    permissions,
                ),
                address > start ==> {
                    &&& address <= first.aperture_end
                    &&& permissions.write ==> permissions.read
                },
            decreases end - address,
        {
            let ghost here = self.model().hierarchy;
            proof {
                if old(self).ready(DraftEdit::SetPermissions { range, permissions }) && address < first.aperture_end {
                    assert(in_range(start as int, end as int, address));
                    assert(old(self).has_entry(address));
                    assert(self.has_entry(address));
                }
            }
            let gpa = GuestPhysicalAddress::from_page_aligned(address)?;
            let mut mapping = self.logical_mapping(gpa)?;
            proof {
                let model = self.model();
                lemma_permissions_step(
                    first.overrides,
                    first.types,
                    start as int,
                    address,
                    permissions,
                );
                if model.overrides.contains_key(address) {
                    assert(state_ok(
                        address,
                        model.overrides[address],
                        model.types,
                        model.aperture_end,
                        model.hierarchy.bits,
                    ));
                } else {
                    let i = mtrr::lemma_cover_find(
                        model.types,
                        model.aperture_end,
                        address as int,
                        model.types.len() - 1,
                    );
                    mtrr::lemma_cover_type_at(
                        model.types,
                        model.aperture_end,
                        i,
                        address as int,
                    );
                }
            }
            mapping.permissions = permissions;
            self.set_page(mapping)?;
            proof {
                lemma_kept_step(
                    first.hierarchy,
                    here,
                    self.model().hierarchy,
                    start as int,
                    end as int,
                    address as int,
                );
            }
            address = address + PAGE_SIZE_4K;
        }
        Ok(())
    }

    /// Takes every page of a range back to the base view.
    #[verifier::rlimit(60)]
    #[verifier::spinoff_prover]
    fn restore_from_base(&mut self, range: GpaRange) -> (result: MonadResult<()>)
        requires
            old(self).wf(),
        ensures
            same_view(old(self).model(), final(self).model()),
            final(self).missing() == old(self).missing(),
            final(self).model().edit_count == old(self).model().edit_count,
            result is Ok ==> {
                &&& final(self).wf()
                &&& kept_elsewhere(
                    old(self).model().hierarchy,
                    final(self).model().hierarchy,
                    range.spec_start().get() as int,
                    range.spec_end(),
                )
                &&& range.spec_start().get() < range.spec_end() <= old(self).model().aperture_end
                &&& final(self).model().overrides == restored(
                    old(self).model().overrides,
                    range.spec_start().get() as int,
                    range.spec_end(),
                )
            },
            result matches Err(error) ==> page::shortage::<A>(error) || content_fault(
                old(self).model(),
                DraftEdit::RestoreFromBase { range },
                Ok(HostPhysicalAddress::at(0)),
            ) == Some(error),
            old(self).ready(DraftEdit::RestoreFromBase { range }) ==> result == match content_fault(
                old(self).model(),
                DraftEdit::RestoreFromBase { range },
                Ok(HostPhysicalAddress::at(0)),
            ) {
                None => Ok::<(), MonadError>(()),
                Some(error) => Err(error),
            },
            range.spec_start().get() >= old(self).model().aperture_end ==> result is Err
                && content_fault(
                old(self).model(),
                DraftEdit::RestoreFromBase { range },
                Ok(HostPhysicalAddress::at(0)),
            ) == Some(result->Err_0),
    {
        let ghost first = self.model();
        let _ = range.length();
        let start: u64 = range.start().get();
        let end: u64 = range.end()?;
        let mut address: u64 = start;
        proof {
            assert(restored(first.overrides, start as int, start as int) =~= first.overrides);
        }
        proof {
            reveal(kept_elsewhere);
            assert(kept_elsewhere(
                first.hierarchy,
                self.model().hierarchy,
                start as int,
                end as int,
            ));
        }
        while address < end
            invariant
                kept_elsewhere(
                    first.hierarchy,
                    self.model().hierarchy,
                    start as int,
                    end as int,
                ),
                start <= address <= end,
                start < end,
                end == range.spec_end(),
                start == range.spec_start().get(),
                address % 0x1000 == 0,
                end % 0x1000 == 0,
                self.wf(),
                first == old(self).model(),
                same_view(first, self.model()),
                self.missing() == old(self).missing(),
                old(self).ready(DraftEdit::RestoreFromBase { range }) ==> self.tables() == old(self).tables(),
                self.model().edit_count == first.edit_count,
                self.model().overrides == restored(
                    first.overrides,
                    start as int,
                    address as int,
                ),
                address > start ==> address <= first.aperture_end,
            decreases end - address,
        {
            let ghost here = self.model().hierarchy;
            proof {
                if old(self).ready(DraftEdit::RestoreFromBase { range }) && address < first.aperture_end {
                    assert(in_range(start as int, end as int, address));
                    assert(old(self).has_entry(address));
                    assert(self.has_entry(address));
                }
            }
            let gpa = GuestPhysicalAddress::from_page_aligned(address)?;
            proof {
                bits::lemma_width_limit(first.hierarchy.bits);
                entry::lemma_leaf_fits(address, EptLeafSize::Size4K, first.hierarchy.bits);
                self.lemma_wf();
                lemma_typed(self.model());
            }
            let hpa = HostPhysicalAddress::for_mapping(
                address,
                PAGE_SIZE_4K,
                PAGE_SIZE_4K,
                self.max_physical_bits,
            )?;
            let permissions = EptPermissions::new(true, true, true, self.execute_only_supported)?;
            let memory_type = match self.memory_types.memory_type_at(address) {
                Some(memory_type) => memory_type,
                None => {
                    return Err(edit_error(ErrorCode::InvalidRange, address));
                },
            };
            proof {
                lemma_restored_step(first.overrides, start as int, address);
            }
            self.reset_page(
                PageOverride { gpa, hpa, permissions, memory_type, backing: None },
            )?;
            proof {
                lemma_kept_step(
                    first.hierarchy,
                    here,
                    self.model().hierarchy,
                    start as int,
                    end as int,
                    address as int,
                );
            }
            address = address + PAGE_SIZE_4K;
        }
        Ok(())
    }

    /// Puts a resolved backing page behind a guest page.
    fn map_backing(
        &mut self,
        gpa: GuestPhysicalAddress,
        backing: BackingPageReference,
        permissions: EptPermissions,
        base_type: EptMemoryType,
        hpa: HostPhysicalAddress,
    ) -> (result: MonadResult<()>)
        requires
            old(self).wf(),
            gpa.get() < old(self).model().aperture_end,
            mtrr::type_at(old(self).model().types, gpa.get() as int) == Some(base_type),
        ensures
            same_view(old(self).model(), final(self).model()),
            final(self).missing() == old(self).missing(),
            final(self).model().edit_count == old(self).model().edit_count,
            result is Ok ==> {
                &&& final(self).wf()
                &&& kept_elsewhere(
                    old(self).model().hierarchy,
                    final(self).model().hierarchy,
                    gpa.get() as int,
                    gpa.get() + 0x1000,
                )
                &&& mtrr::type_at(old(self).model().types, hpa.get() as int) == Some(base_type)
                &&& entry::leaf_fault(
                    hpa,
                    EptLeafSize::Size4K,
                    permissions,
                    old(self).model().hierarchy.bits,
                ) is None
                &&& final(self).model().overrides == old(self).model().overrides.insert(
                    gpa.get(),
                    PageState {
                        hpa: hpa.get(),
                        permissions,
                        memory_type: base_type,
                        backing: Some(backing),
                    },
                )
            },
            result matches Err(error) ==> {
                ||| page::shortage::<A>(error)
                ||| mtrr::type_at(old(self).model().types, hpa.get() as int) != Some(base_type)
                    && error == MonadError::new(
                    ErrorPhase::DraftEdit,
                    ErrorCode::UnsupportedMtrrCombination,
                    hpa.get(),
                )
                ||| mtrr::type_at(old(self).model().types, hpa.get() as int) == Some(base_type) && (
                entry::leaf_fault(
                    hpa,
                    EptLeafSize::Size4K,
                    permissions,
                    old(self).model().hierarchy.bits,
                ) matches Some(fault) && error == fault.spec_error())
            },
            old(self).has_entry(gpa.get()) && old(self).model().overrides.contains_key(gpa.get())
                && mtrr::type_at(old(self).model().types, hpa.get() as int) == Some(base_type)
                ==> result == match entry::leaf_fault(
                hpa,
                EptLeafSize::Size4K,
                permissions,
                old(self).model().hierarchy.bits,
            ) {
                None => Ok::<(), MonadError>(()),
                Some(fault) => Err(fault.spec_error()),
            },
            mtrr::type_at(old(self).model().types, hpa.get() as int) != Some(base_type) ==> result
                == Err::<(), MonadError>(
                MonadError::new(
                    ErrorPhase::DraftEdit,
                    ErrorCode::UnsupportedMtrrCombination,
                    hpa.get(),
                ),
            ),
    {
        let physical = self.memory_types.memory_type_at(hpa.get());
        let agrees: bool = match physical {
            Some(memory_type) => memory_type == base_type,
            None => false,
        };
        if !agrees {
            return Err(edit_error(ErrorCode::UnsupportedMtrrCombination, hpa.get()));
        }
        self.set_page(
            PageOverride {
                gpa,
                hpa,
                permissions,
                memory_type: base_type,
                backing: Some(backing),
            },
        )
    }

    /// Applies one edit; `resolve_backing` finds the page behind a reference.
    /// What is wrong with the edit's first page is reported whether or not there
    /// is memory, and where every page has its entry and its place among the
    /// overrides, none is asked for. An image to which an edit could not be applied is of no further use.
    #[verifier::rlimit(40)]
    #[verifier::spinoff_prover]
    pub fn apply_edit<F: Fn(BackingPageReference) -> MonadResult<HostPhysicalAddress>>(
        &mut self,
        edit: DraftEdit,
        resolve_backing: F,
    ) -> (result: MonadResult<()>)
        requires
            old(self).wf(),
            forall|reference: BackingPageReference| call_requires(resolve_backing, (reference,)),
        ensures
            same_view(old(self).model(), final(self).model()),
            final(self).missing() == old(self).missing(),
            result is Err ==> final(self).model().edit_count == old(self).model().edit_count,
            result is Ok ==> {
                &&& final(self).wf()
                &&& kept_elsewhere(
                    old(self).model().hierarchy,
                    final(self).model().hierarchy,
                    edit_start(edit),
                    edit_end(edit),
                )
                &&& final(self).model().edit_count == old(self).model().edit_count + 1
                &&& exists|hpa: HostPhysicalAddress|
                    {
                        &&& #[trigger] edit_applies(old(self).model(), edit, hpa)
                        &&& final(self).model().overrides == edited(
                            old(self).model().overrides,
                            old(self).model().types,
                            edit,
                            hpa,
                        )
                        &&& edit matches DraftEdit::MapBacking4K {
                            gpa,
                            backing,
                            permissions,
                            memory_type,
                        } ==> call_ensures(resolve_backing, (backing,), Ok(hpa))
                    }
            },
            result matches Err(error) ==> page::shortage::<A>(error) || exists|
                found: MonadResult<HostPhysicalAddress>,
            |
                {
                    &&& #[trigger] edit_fault(old(self).model(), edit, found) == Some(error)
                    &&& seeks_page(old(self).model(), edit) ==> call_ensures(
                        resolve_backing,
                        (edit->backing,),
                        found,
                    )
                },
            old(self).ready(edit) && edit !is MapBacking4K ==> result == match edit_fault(
                old(self).model(),
                edit,
                Ok(HostPhysicalAddress::at(0)),
            ) {
                None => Ok::<(), MonadError>(()),
                Some(error) => Err(error),
            },
            old(self).ready(edit) && seeks_page(old(self).model(), edit) ==> exists|
                found: MonadResult<HostPhysicalAddress>,
            |
                {
                    &&& call_ensures(resolve_backing, (edit->backing,), found)
                    &&& result == match #[trigger] edit_fault(old(self).model(), edit, found) {
                        None => Ok::<(), MonadError>(()),
                        Some(error) => Err(error),
                    }
                },
            edit is MapBacking4K && !seeks_page(old(self).model(), edit) ==> result is Err
                && edit_fault(old(self).model(), edit, Ok(HostPhysicalAddress::at(0))) == Some(
                result->Err_0,
            ),
            edit !is MapBacking4K && edit_start(edit) >= old(self).model().aperture_end ==> result
                is Err && edit_fault(old(self).model(), edit, Ok(HostPhysicalAddress::at(0))) == Some(
                result->Err_0,
            ),
            seeks_page(old(self).model(), edit) && (forall|found: MonadResult<HostPhysicalAddress>|
                call_ensures(resolve_backing, (edit->backing,), found) ==> bars(
                    old(self).model(),
                    edit,
                    found,
                )) ==> result is Err && exists|found: MonadResult<HostPhysicalAddress>|
                {
                    &&& call_ensures(resolve_backing, (edit->backing,), found)
                    &&& #[trigger] edit_fault(old(self).model(), edit, found) == Some(
                        result->Err_0,
                    )
                },
    {
        let ghost first = self.model();
        let ghost mut target = HostPhysicalAddress::at(0);
        let ghost unsought = Ok::<HostPhysicalAddress, MonadError>(target);
        proof {
            lemma_typed(first);
        }
        match edit {
            DraftEdit::SetPermissions { range, permissions } => {
                match self.set_permissions(range, permissions) {
                    Ok(_) => {},
                    Err(error) => {
                        assert(page::shortage::<A>(error) || edit_fault(first, edit, unsought)
                            == Some(error));
                        return Err(error);
                    },
                }
            },
            DraftEdit::MapBacking4K { gpa, backing, permissions, memory_type } => {
                if gpa.get() >= self.inventory.aperture_end() {
                    assert(edit_fault(first, edit, unsought) is Some);
                    return Err(edit_error(ErrorCode::InvalidRange, gpa.get()));
                }
                let base_type = match self.memory_types.memory_type_at(gpa.get()) {
                    Some(base_type) => base_type,
                    None => {
                        return Err(edit_error(ErrorCode::InvalidRange, gpa.get()));
                    },
                };
                if memory_type.memory_type() != base_type {
                    assert(edit_fault(first, edit, unsought) is Some);
                    return Err(
                        edit_error(
                            ErrorCode::UnsupportedMtrrCombination,
                            base_type.code() as u64,
                        ),
                    );
                }
                let found = resolve_backing(backing);
                assert(call_ensures(resolve_backing, (edit->backing,), found));
                let hpa = match found {
                    Ok(hpa) => hpa,
                    Err(error) => {
                        assert(edit_fault(first, edit, found) == Some(error));
                        return Err(error);
                    },
                };
                proof {
                    if self.ready(edit) {
                        assert(in_range(edit_start(edit), edit_end(edit), gpa.get()));
                        assert(self.has_entry(gpa.get()));
                    }
                }
                match self.map_backing(gpa, backing, permissions, base_type, hpa) {
                    Ok(_) => {},
                    Err(error) => {
                        assert(page::shortage::<A>(error) || edit_fault(first, edit, found)
                            == Some(error));
                        assert(bars(first, edit, found) ==> edit_fault(first, edit, found) == Some(
                            error,
                        ));
                        return Err(error);
                    },
                }
                proof {
                    target = hpa;
                    assert(!bars(first, edit, found));
                }
            },
            DraftEdit::RestoreFromBase { range } => {
                match self.restore_from_base(range) {
                    Ok(_) => {},
                    Err(error) => {
                        assert(page::shortage::<A>(error) || edit_fault(first, edit, unsought)
                            == Some(error));
                        return Err(error);
                    },
                }
            },
        }
        self.edit_count = match self.edit_count.checked_add(1) {
            Some(edit_count) => edit_count,
            None => {
                assert(content_fault(first, edit, Ok(target)) is None);
                assert(edit_fault(first, edit, Ok(target)) is Some);
                return Err(edit_error(ErrorCode::AddressOverflow, self.edit_count as u64));
            },
        };
        proof {
            assert(edit_applies(first, edit, target));
        }
        Ok(())
    }
}

impl<A: EptPageAllocator + Clone> ViewImage<A> {
    /// An edit splits leaves in the gibibytes that its pages lie in only: a page
    /// of any other finds the leaf that it found before, of the same size.
    pub proof fn law_edit_leaves_other_leaves(
        &self,
        after: &Self,
        edit: DraftEdit,
        gpa: GuestPhysicalAddress,
    )
        requires
            self.wf(),
            after.wf(),
            same_view(self.model(), after.model()),
            kept_elsewhere(
                self.model().hierarchy,
                after.model().hierarchy,
                edit_start(edit),
                edit_end(edit),
            ),
            gpa.get() % 0x1000 == 0,
            gpa.get() / 0x4000_0000 < edit_start(edit) / 0x4000_0000 || (edit_end(edit) - 1)
                / 0x4000_0000 < gpa.get() / 0x4000_0000,
        ensures
            walker::walked(after.model().hierarchy, gpa) == walker::walked(
                self.model().hierarchy,
                gpa,
            ),
    {
        reveal(kept_elsewhere);
        let h = self.model().hierarchy;
        self.lemma_wf();
        after.lemma_wf();
        bits::lemma_width_limit(h.bits);
        if gpa.get() < bits::width_limit(h.bits) {
            tree::lemma_walked(h, self.tables(), gpa);
            tree::lemma_walked(after.model().hierarchy, after.tables(), gpa);
        }
    }
}

/// The order of references: by backing, then by page.
pub open spec fn reference_before(left: BackingPageReference, right: BackingPageReference) -> bool {
    let a = left.backing_id;
    let b = right.backing_id;
    ||| a.slot < b.slot
    ||| a.slot == b.slot && a.generation < b.generation
    ||| a.slot == b.slot && a.generation == b.generation && a.session_nonce < b.session_nonce
    ||| a == b && left.page_index < right.page_index
}

/// References in strict order, so that none occurs twice.
pub open spec fn ordered_references(refs: Seq<BackingPageReference>) -> bool {
    forall|i: int, j: int|
        0 <= i < j < refs.len() ==> reference_before(#[trigger] refs[i], #[trigger] refs[j])
}

/// The backing pages behind a view.
pub open spec fn references(overrides: Map<u64, PageState>) -> Set<BackingPageReference> {
    Set::new(
        |reference: BackingPageReference|
            exists|page: u64| #[trigger]
                overrides.contains_key(page) && overrides[page].backing == Some(reference),
    )
}

/// Whether a reference stands before another.
pub fn precedes(left: BackingPageReference, right: BackingPageReference) -> (before: bool)
    ensures
        before == reference_before(left, right),
{
    if left.backing_id.slot != right.backing_id.slot {
        return left.backing_id.slot < right.backing_id.slot;
    }
    if left.backing_id.generation != right.backing_id.generation {
        return left.backing_id.generation < right.backing_id.generation;
    }
    if left.backing_id.session_nonce != right.backing_id.session_nonce {
        return left.backing_id.session_nonce < right.backing_id.session_nonce;
    }
    left.page_index < right.page_index
}

/// The place of a reference, or where it would stand.
pub fn reference_index(refs: &[BackingPageReference], wanted: BackingPageReference) -> (found: Result<
    usize,
    usize,
>)
    requires
        ordered_references(refs@),
    ensures
        match found {
            Ok(i) => i < refs@.len() && refs@[i as int] == wanted,
            Err(i) => {
                &&& i <= refs@.len()
                &&& !refs@.contains(wanted)
                &&& forall|k: int| 0 <= k < i ==> reference_before(#[trigger] refs@[k], wanted)
                &&& forall|k: int|
                    i <= k < refs@.len() ==> reference_before(wanted, #[trigger] refs@[k])
            },
        },
{
    let mut low: usize = 0;
    let mut high: usize = refs.len();
    while low < high
        invariant
            low <= high <= refs@.len(),
            ordered_references(refs@),
            forall|k: int| 0 <= k < low ==> reference_before(#[trigger] refs@[k], wanted),
            forall|k: int|
                high <= k < refs@.len() ==> reference_before(wanted, #[trigger] refs@[k]),
        decreases high - low,
    {
        let middle: usize = low + (high - low) / 2;
        let found = refs[middle];
        if found == wanted {
            return Ok(middle);
        }
        if precedes(found, wanted) {
            assert forall|k: int| 0 <= k < middle + 1 implies reference_before(
                #[trigger] refs@[k],
                wanted,
            ) by {
                if k < middle {
                    assert(reference_before(refs@[k], refs@[middle as int]));
                }
            }
            low = middle + 1;
        } else {
            assert forall|k: int| middle <= k < refs@.len() implies reference_before(
                wanted,
                #[trigger] refs@[k],
            ) by {
                if middle < k {
                    assert(reference_before(refs@[middle as int], refs@[k]));
                }
            }
            high = middle;
        }
    }
    Err(low)
}

/// Puts a reference in its place, unless it is there.
fn insert_reference(refs: &mut Vec<BackingPageReference>, reference: BackingPageReference)
    requires
        ordered_references(old(refs)@),
    ensures
        ordered_references(final(refs)@),
        final(refs)@.to_set() == old(refs)@.to_set().insert(reference),
{
    let ghost before = refs@;
    match reference_index(refs.as_slice(), reference) {
        Ok(i) => {
            assert(before.to_set().insert(reference) =~= before.to_set());
        },
        Err(i) => {
            refs.insert(i, reference);
            let ghost after = refs@;
            proof {
                assert(after == before.insert(i as int, reference));
                assert forall|a: int, b: int| 0 <= a < b < after.len() implies reference_before(
                    #[trigger] after[a],
                    #[trigger] after[b],
                ) by {
                    let sa = if a < i {
                        a
                    } else {
                        a - 1
                    };
                    let sb = if b < i {
                        b
                    } else {
                        b - 1
                    };
                    if a != i && b != i {
                        assert(reference_before(before[sa], before[sb]));
                    } else if a != i {
                        assert(after[a] == before[sa]);
                    } else {
                        assert(after[b] == before[sb]);
                    }
                }
                assert forall|r: BackingPageReference| #[trigger]
                    after.contains(r) == (before.contains(r) || r == reference) by {
                    if before.contains(r) {
                        let k = choose|k: int| 0 <= k < before.len() && before[k] == r;
                        let ak = if k < i {
                            k
                        } else {
                            k + 1
                        };
                        assert(after[ak] == r);
                    }
                    if r == reference {
                        assert(after[i as int] == r);
                    }
                    if after.contains(r) {
                        let k = choose|k: int| 0 <= k < after.len() && after[k] == r;
                        if k != i {
                            let sk = if k < i {
                                k
                            } else {
                                k - 1
                            };
                            assert(before[sk] == r);
                        }
                    }
                }
                assert(after.to_set() =~= before.to_set().insert(reference));
            }
        },
    }
}

/// The overrides up to one more.
proof fn lemma_override_prefix(overrides: Seq<PageOverride>, n: int)
    requires
        by_page(overrides),
        0 <= n < overrides.len(),
    ensures
        by_page(overrides.take(n)),
        by_page(overrides.take(n + 1)),
        !override_map(overrides.take(n)).contains_key(overrides[n].gpa.get()),
        override_map(overrides.take(n + 1)) == override_map(overrides.take(n)).insert(
            overrides[n].gpa.get(),
            state_of(overrides[n]),
        ),
{
    let before = overrides.take(n);
    let after = overrides.take(n + 1);
    assert forall|i: int, j: int| 0 <= i < j < before.len() implies (#[trigger] before[i]).gpa.get()
        < (#[trigger] before[j]).gpa.get() by {
        assert(overrides[i].gpa.get() < overrides[j].gpa.get());
    }
    assert forall|k: int| 0 <= k < n implies (#[trigger] before[k]).gpa.get()
        < overrides[n].gpa.get() by {
        assert(overrides[k].gpa.get() < overrides[n].gpa.get());
    }
    lemma_override_insert(before, n, overrides[n]);
    assert(after =~= before.insert(n, overrides[n]));
}

/// There are as many overrides as pages that have one.
proof fn lemma_override_count(overrides: Seq<PageOverride>)
    requires
        by_page(overrides),
    ensures
        override_map(overrides).dom().finite(),
        override_map(overrides).dom().len() == overrides.len(),
    decreases overrides.len(),
{
    if overrides.len() == 0 {
        assert(override_map(overrides).dom() =~= Set::<u64>::empty());
    } else {
        let n = overrides.len() - 1;
        lemma_override_prefix(overrides, n);
        lemma_override_count(overrides.take(n));
        assert(overrides.take(n + 1) =~= overrides);
        assert(override_map(overrides).dom() =~= override_map(overrides.take(n)).dom().insert(
            overrides[n].gpa.get(),
        ));
    }
}

/// Whether one of the first overrides maps a backing page.
pub open spec fn listed(
    overrides: Seq<PageOverride>,
    n: int,
    reference: BackingPageReference,
) -> bool {
    exists|j: int| 0 <= j < n && (#[trigger] overrides[j]).backing == Some(reference)
}

/// The backing pages of a view are those that its overrides list.
pub proof fn lemma_listed(overrides: Seq<PageOverride>, reference: BackingPageReference)
    requires
        by_page(overrides),
    ensures
        listed(overrides, overrides.len() as int, reference) == references(
            override_map(overrides),
        ).contains(reference),
{
    let map = override_map(overrides);
    if listed(overrides, overrides.len() as int, reference) {
        let j = choose|j: int|
            0 <= j < overrides.len() && (#[trigger] overrides[j]).backing == Some(reference);
        lemma_override(overrides, j);
        let page = overrides[j].gpa.get();
        assert(map.contains_key(page) && map[page].backing == Some(reference));
    }
    if references(map).contains(reference) {
        let page = choose|page: u64| #[trigger]
            map.contains_key(page) && map[page].backing == Some(reference);
        let j = choose|j: int|
            0 <= j < overrides.len() && (#[trigger] overrides[j]).gpa.get() == page;
        lemma_override(overrides, j);
        assert(overrides[j].backing == Some(reference));
    }
}

/// Whether one of the first overrides maps a backing page.
pub fn is_listed(overrides: &[PageOverride], n: usize, reference: BackingPageReference) -> (found:
    bool)
    requires
        n <= overrides@.len(),
    ensures
        found == listed(overrides@, n as int, reference),
{
    let mut j: usize = 0;
    while j < n
        invariant
            j <= n <= overrides@.len(),
            !listed(overrides@, j as int, reference),
        decreases n - j,
    {
        if let Some(other) = overrides[j].backing {
            if other == reference {
                assert(overrides@[j as int].backing == Some(reference));
                return true;
            }
        }
        j += 1;
    }
    false
}

/// What a view is refused with for want of memory to look at its overrides.
pub open spec fn memory_fault(model: ViewModel) -> MonadError {
    MonadError::new(
        ErrorPhase::DraftEdit,
        ErrorCode::AllocationFailure,
        model.overrides.dom().len() as u64,
    )
}

impl<A: EptPageAllocator + Clone> ViewImage<A> {
    /// The backing pages behind the view, each once, in order.
    pub fn backing_refs(&self) -> (result: MonadResult<Vec<BackingPageReference>>)
        requires
            self.wf(),
        ensures
            match result {
                Ok(refs) => {
                    &&& ordered_references(refs@)
                    &&& refs@.to_set() == references(self.model().overrides)
                    &&& refs@.no_duplicates()
                },
                Err(error) => error == memory_fault(self.model()),
            },
    {
        proof {
            lemma_override_count(self.overrides@);
        }
        let mut refs: Vec<BackingPageReference> = Vec::new();
        let reserved = refs.try_reserve(self.overrides.len());
        if reserved.is_err() {
            return Err(edit_error(ErrorCode::AllocationFailure, self.overrides.len() as u64));
        }
        proof {
            assert(self.overrides@.take(0) =~= Seq::<PageOverride>::empty());
            assert(refs@.to_set() =~= references(override_map(self.overrides@.take(0))));
        }
        let mut i: usize = 0;
        while i < self.overrides.len()
            invariant
                i <= self.overrides@.len(),
                by_page(self.overrides@),
                ordered_references(refs@),
                refs@.to_set() == references(override_map(self.overrides@.take(i as int))),
            decreases self.overrides@.len() - i,
        {
            let entry = self.overrides[i];
            let ghost before = override_map(self.overrides@.take(i as int));
            let ghost after = override_map(self.overrides@.take(i + 1));
            proof {
                lemma_override_prefix(self.overrides@, i as int);
                assert forall|r: BackingPageReference| #[trigger]
                    references(after).contains(r) == (references(before).contains(r)
                        || entry.backing == Some(r)) by {
                    if references(before).contains(r) {
                        let page = choose|page: u64| #[trigger]
                            before.contains_key(page) && before[page].backing == Some(r);
                        assert(after.contains_key(page) && after[page].backing == Some(r));
                    }
                    if entry.backing == Some(r) {
                        let page = entry.gpa.get();
                        assert(after.contains_key(page) && after[page].backing == Some(r));
                    }
                    if references(after).contains(r) {
                        let page = choose|page: u64| #[trigger]
                            after.contains_key(page) && after[page].backing == Some(r);
                        if page != entry.gpa.get() {
                            assert(before.contains_key(page) && before[page].backing == Some(r));
                        }
                    }
                }
            }
            match entry.backing {
                Some(reference) => {
                    insert_reference(&mut refs, reference);
                    assert(refs@.to_set() =~= references(after));
                },
                None => {
                    assert(references(before) =~= references(after));
                },
            }
            i += 1;
        }
        assert(self.overrides@.take(i as int) =~= self.overrides@);
        assert forall|a: int, b: int| 0 <= a < refs@.len() && 0 <= b < refs@.len() && a
            != b implies refs@[a] != refs@[b] by {
            if a < b {
                assert(reference_before(refs@[a], refs@[b]));
            } else {
                assert(reference_before(refs@[b], refs@[a]));
            }
        }
        Ok(refs)
    }
}

/// The pages of a range, as many as its length holds.
pub open spec fn range_pages(start: int, pages: int) -> Set<u64> {
    Set::new(|page: u64| in_range(start, start + 0x1000 * pages, page))
}

/// A range has as many pages as its length holds.
pub proof fn lemma_range_pages(start: int, pages: int)
    requires
        0 <= start,
        start % 0x1000 == 0,
        0 <= pages,
        start + 0x1000 * pages <= 0x1_0000_0000_0000_0000,
    ensures
        range_pages(start, pages).finite(),
        range_pages(start, pages).len() == pages,
    decreases pages,
{
    if pages == 0 {
        assert(range_pages(start, pages) =~= Set::<u64>::empty());
    } else {
        lemma_range_pages(start, pages - 1);
        let last = (start + 0x1000 * (pages - 1)) as u64;
        assert(last % 0x1000 == 0);
        assert(range_pages(start, pages) =~= range_pages(start, pages - 1).insert(last)) by {
            assert forall|page: u64| #[trigger] range_pages(start, pages).contains(page)
                == range_pages(start, pages - 1).insert(last).contains(page) by {}
        }
    }
}

/// The leaves of one size among the entries of a table.
pub open spec fn leaves_among(
    words: Seq<u64>,
    level: EptLevel,
    max_physical_bits: u8,
    execute_only: bool,
    size: EptLeafSize,
) -> nat
    decreases words.len(),
{
    if words.len() == 0 {
        0
    } else {
        leaves_among(words.drop_last(), level, max_physical_bits, execute_only, size) + (
        match entry::decoded(level, words.last(), max_physical_bits, execute_only) {
            Ok(DecodedEptEntry::Leaf { hpa, size: found, permissions, memory_type }) => if found
                == size {
                1nat
            } else {
                0nat
            },
            _ => 0nat,
        })
    }
}

/// The leaves of one size in table pages.
pub open spec fn leaves_of(
    pages: Seq<TablePage>,
    max_physical_bits: u8,
    execute_only: bool,
    size: EptLeafSize,
) -> nat
    decreases pages.len(),
{
    if pages.len() == 0 {
        0
    } else {
        leaves_of(pages.drop_last(), max_physical_bits, execute_only, size) + leaves_among(
            pages.last().entries,
            walker::level_of_kind(pages.last().kind),
            max_physical_bits,
            execute_only,
            size,
        )
    }
}

/// The leaves of one size of a hierarchy.
pub open spec fn leaves(h: Hierarchy, size: EptLeafSize) -> nat {
    leaves_of(h.pages, h.bits, h.execute_only, size)
}

/// The overridden pages whose permissions lack something.
pub open spec fn lacking(
    overrides: Map<u64, PageState>,
    grants: spec_fn(EptPermissions) -> bool,
) -> Set<u64> {
    Set::new(|page: u64| overrides.contains_key(page) && !grants(overrides[page].permissions))
}

/// The pages of a view whose permissions grant something.
pub open spec fn granting(model: ViewModel, grants: spec_fn(EptPermissions) -> bool) -> int {
    model.aperture_end as int / 0x1000 - lacking(model.overrides, grants).len()
}

/// Whether figures are those of a view.
pub open spec fn describes(model: ViewModel, metadata: ViewMetadata) -> bool {
    &&& metadata.source == model.source
    &&& metadata.edit_count == model.edit_count
    &&& metadata.table_pages == model.hierarchy.pages.len()
    &&& metadata.leaf_1g == leaves(model.hierarchy, EptLeafSize::Size1G)
    &&& metadata.leaf_2m == leaves(model.hierarchy, EptLeafSize::Size2M)
    &&& metadata.leaf_4k == leaves(model.hierarchy, EptLeafSize::Size4K)
    &&& metadata.backing_pages == references(model.overrides).len()
    &&& metadata.readable_pages == granting(model, |p: EptPermissions| p.read)
    &&& metadata.writable_pages == granting(model, |p: EptPermissions| p.write)
    &&& metadata.executable_pages == granting(model, |p: EptPermissions| p.execute)
}

/// Whether tables are, or hold leaves, more than figures can say.
pub open spec fn beyond_figures(h: Hierarchy) -> bool {
    ||| h.pages.len() > u32::MAX
    ||| leaves(h, EptLeafSize::Size1G) > u32::MAX
    ||| leaves(h, EptLeafSize::Size2M) > u32::MAX
    ||| leaves(h, EptLeafSize::Size4K) > u32::MAX
}

/// What a view is refused with that has more of something than its figures can
/// say: the last number that fits, or, for backing pages, the number of its
/// overrides.
pub open spec fn figures_fault(model: ViewModel, error: MonadError) -> bool {
    ||| beyond_figures(model.hierarchy) && error == MonadError::new(
        ErrorPhase::DraftEdit,
        ErrorCode::AddressOverflow,
        u32::MAX as u64,
    )
    ||| references(model.overrides).len() > u32::MAX && error == MonadError::new(
        ErrorPhase::DraftEdit,
        ErrorCode::AddressOverflow,
        model.overrides.dom().len() as u64,
    )
}

/// Tables that all belong to a publication.
pub open spec fn published_tables(h: Hierarchy) -> Hierarchy {
    Hierarchy {
        pages: page::with_owner(h.pages, EptPageOwner::Published),
        owner: EptPageOwner::Published,
        ..h
    }
}

proof fn lemma_owner_leaves(
    pages: Seq<TablePage>,
    owner: EptPageOwner,
    max_physical_bits: u8,
    execute_only: bool,
    size: EptLeafSize,
)
    ensures
        leaves_of(page::with_owner(pages, owner), max_physical_bits, execute_only, size)
            == leaves_of(pages, max_physical_bits, execute_only, size),
    decreases pages.len(),
{
    if pages.len() > 0 {
        lemma_owner_leaves(pages.drop_last(), owner, max_physical_bits, execute_only, size);
        assert(page::with_owner(pages, owner).drop_last() =~= page::with_owner(
            pages.drop_last(),
            owner,
        ));
    }
}

/// Publishing changes no figure but the source.
pub proof fn lemma_published_figures(before: ViewModel, after: ViewModel)
    requires
        after == (ViewModel {
            source: after.source,
            hierarchy: published_tables(before.hierarchy),
            ..before
        }),
    ensures
        forall|metadata: ViewMetadata| #[trigger]
            describes(before, metadata) ==> describes(
                after,
                ViewMetadata { source: after.source, ..metadata },
            ),
{
    let h = before.hierarchy;
    let owner = EptPageOwner::Published;
    lemma_owner_leaves(h.pages, owner, h.bits, h.execute_only, EptLeafSize::Size1G);
    lemma_owner_leaves(h.pages, owner, h.bits, h.execute_only, EptLeafSize::Size2M);
    lemma_owner_leaves(h.pages, owner, h.bits, h.execute_only, EptLeafSize::Size4K);
    assert forall|metadata: ViewMetadata| #[trigger] describes(
        before,
        metadata,
    ) implies describes(after, ViewMetadata { source: after.source, ..metadata }) by {
        let reads = |p: EptPermissions| p.read;
        assert(lacking(after.overrides, reads) == lacking(before.overrides, reads));
    }
}

/// The error for permissions that the processor does not have.
pub open spec fn unsupported_view() -> MonadError {
    MonadError::new(
        ErrorPhase::DraftEdit,
        ErrorCode::EptVerificationFailure,
        EptEntryError::UnsupportedPermissions.spec_code(),
    )
}

/// Leaves by size.
#[derive(Clone, Copy)]
struct LeafCounts {
    leaf_1g: u32,
    leaf_2m: u32,
    leaf_4k: u32,
}

impl LeafCounts {
    spec fn of(self, size: EptLeafSize) -> u32 {
        match size {
            EptLeafSize::Size1G => self.leaf_1g,
            EptLeafSize::Size2M => self.leaf_2m,
            EptLeafSize::Size4K => self.leaf_4k,
        }
    }

    /// One leaf more of a size.
    fn counted(self, size: EptLeafSize) -> (result: MonadResult<LeafCounts>)
        ensures
            match result {
                Ok(counts) => forall|other: EptLeafSize| #[trigger]
                    counts.of(other) == self.of(other) + if other == size {
                        1int
                    } else {
                        0
                    },
                Err(error) => {
                    &&& self.of(size) == u32::MAX
                    &&& error == MonadError::new(
                        ErrorPhase::DraftEdit,
                        ErrorCode::AddressOverflow,
                        u32::MAX as u64,
                    )
                },
            },
    {
        let count: u32 = match size {
            EptLeafSize::Size1G => self.leaf_1g,
            EptLeafSize::Size2M => self.leaf_2m,
            EptLeafSize::Size4K => self.leaf_4k,
        };
        let next: u32 = match count.checked_add(1) {
            Some(next) => next,
            None => {
                return Err(edit_error(ErrorCode::AddressOverflow, count as u64));
            },
        };
        let mut counts = self;
        match size {
            EptLeafSize::Size1G => {
                counts.leaf_1g = next;
            },
            EptLeafSize::Size2M => {
                counts.leaf_2m = next;
            },
            EptLeafSize::Size4K => {
                counts.leaf_4k = next;
            },
        }
        Ok(counts)
    }
}

proof fn lemma_leaves_grow(
    words: Seq<u64>,
    n: int,
    level: EptLevel,
    max_physical_bits: u8,
    execute_only: bool,
    size: EptLeafSize,
)
    requires
        0 <= n <= words.len(),
    ensures
        leaves_among(words.take(n), level, max_physical_bits, execute_only, size)
            <= leaves_among(words, level, max_physical_bits, execute_only, size),
    decreases words.len() - n,
{
    if n == words.len() {
        assert(words.take(n) =~= words);
    } else {
        lemma_leaves_grow(words, n + 1, level, max_physical_bits, execute_only, size);
        assert(words.take(n + 1).drop_last() =~= words.take(n));
    }
}

proof fn lemma_page_leaves_grow(
    pages: Seq<TablePage>,
    n: int,
    max_physical_bits: u8,
    execute_only: bool,
    size: EptLeafSize,
)
    requires
        0 <= n <= pages.len(),
    ensures
        leaves_of(pages.take(n), max_physical_bits, execute_only, size) <= leaves_of(
            pages,
            max_physical_bits,
            execute_only,
            size,
        ),
    decreases pages.len() - n,
{
    if n == pages.len() {
        assert(pages.take(n) =~= pages);
    } else {
        lemma_page_leaves_grow(pages, n + 1, max_physical_bits, execute_only, size);
        assert(pages.take(n + 1).drop_last() =~= pages.take(n));
    }
}

/// A page among overrides in order stands no lower than its position.
proof fn lemma_override_position(overrides: Seq<PageOverride>, i: int)
    requires
        by_page(overrides),
        0 <= i < overrides.len(),
        forall|k: int|
            0 <= k < overrides.len() ==> (#[trigger] overrides[k]).gpa.get() % 0x1000 == 0,
    ensures
        overrides[i].gpa.get() >= 0x1000 * i,
    decreases i,
{
    if i > 0 {
        lemma_override_position(overrides, i - 1);
        assert(overrides[i - 1].gpa.get() < overrides[i].gpa.get());
    }
}

/// One more override lacks what its permissions do not grant.
proof fn lemma_lacking_step(
    before: Map<u64, PageState>,
    page: u64,
    state: PageState,
    grants: spec_fn(EptPermissions) -> bool,
)
    requires
        !before.contains_key(page),
        lacking(before, grants).finite(),
    ensures
        lacking(before.insert(page, state), grants).finite(),
        lacking(before.insert(page, state), grants).len() == lacking(before, grants).len() + if grants(
            state.permissions,
        ) {
            0int
        } else {
            1
        },
{
    let after = before.insert(page, state);
    if grants(state.permissions) {
        assert(lacking(after, grants) =~= lacking(before, grants));
    } else {
        assert(lacking(after, grants) =~= lacking(before, grants).insert(page));
    }
}

impl<A: EptPageAllocator + Clone> ViewImage<A> {
    /// Checks the entries of one table page and counts its leaves.
    fn verify_entries(&self, entries: &[u64; 512], level: EptLevel, counts: LeafCounts) -> (result:
        MonadResult<LeafCounts>)
        requires
            self.tables_ok(),
            forall|i: int|
                0 <= i < 512 ==> (entry::decoded(
                    level,
                    #[trigger] entries@[i],
                    self.max_physical_bits,
                    self.execute_only_supported,
                ) matches Ok(DecodedEptEntry::Table { hpa, permissions }) ==> permissions
                    == EptPermissions::full() && page::has_page(self.pages.view(), hpa.get())),
        ensures
            match result {
                Ok(after) => {
                    &&& forall|size: EptLeafSize| #[trigger]
                        after.of(size) == counts.of(size) + leaves_among(
                            entries@,
                            level,
                            self.max_physical_bits,
                            self.execute_only_supported,
                            size,
                        )
                    &&& forall|i: int|
                        0 <= i < 512 ==> entry::decoded(
                            level,
                            #[trigger] entries@[i],
                            self.max_physical_bits,
                            self.execute_only_supported,
                        ) is Ok
                },
                Err(error) => {
                    ||| exists|i: int|
                        0 <= i < 512 && (entry::decoded(
                            level,
                            #[trigger] entries@[i],
                            self.max_physical_bits,
                            self.execute_only_supported,
                        ) matches Err(reason) && error == MonadError::new(
                            ErrorPhase::DraftEdit,
                            ErrorCode::EptVerificationFailure,
                            reason.spec_code(),
                        ))
                    ||| error == MonadError::new(
                        ErrorPhase::DraftEdit,
                        ErrorCode::AddressOverflow,
                        u32::MAX as u64,
                    ) && exists|size: EptLeafSize|
                        counts.of(size) + #[trigger] leaves_among(
                            entries@,
                            level,
                            self.max_physical_bits,
                            self.execute_only_supported,
                            size,
                        ) > u32::MAX
                },
            },
    {
        let mut tally = counts;
        let ghost bits = self.max_physical_bits;
        let ghost xo = self.execute_only_supported;
        proof {
            assert(entries@.take(0) =~= Seq::<u64>::empty());
        }
        let mut i: usize = 0;
        while i < 512
            invariant
                i <= 512,
                entries@.len() == 512,
                self.tables_ok(),
                bits == self.max_physical_bits,
                xo == self.execute_only_supported,
                forall|k: int|
                    0 <= k < 512 ==> (entry::decoded(
                        level,
                        #[trigger] entries@[k],
                        self.max_physical_bits,
                        self.execute_only_supported,
                    ) matches Ok(DecodedEptEntry::Table { hpa, permissions }) ==> permissions
                        == EptPermissions::full() && page::has_page(self.pages.view(), hpa.get())),
                forall|k: int|
                    0 <= k < i ==> entry::decoded(level, #[trigger] entries@[k], bits, xo) is Ok,
                forall|size: EptLeafSize| #[trigger]
                    tally.of(size) == counts.of(size) + leaves_among(
                        entries@.take(i as int),
                        level,
                        bits,
                        xo,
                        size,
                    ),
            decreases 512 - i,
        {
            let raw: u64 = entries[i];
            let ghost here = entries@.take(i as int);
            let ghost next = entries@.take(i + 1);
            proof {
                assert(next.drop_last() =~= here);
                assert(next.last() == raw);
                assert(entries@[i as int] == raw);
            }
            match decode_entry(level, raw, self.max_physical_bits, self.execute_only_supported) {
                Ok(DecodedEptEntry::Table { hpa, permissions }) => {
                    if !permissions.read() || !permissions.write() || !permissions.execute()
                        || self.pages.page(hpa).is_none() {
                        return Err(edit_error(ErrorCode::EptVerificationFailure, hpa.get()));
                    }
                },
                Ok(DecodedEptEntry::Leaf { hpa: _, size, permissions: _, memory_type: _ }) => {
                    let ghost previous = tally;
                    tally = match tally.counted(size) {
                        Ok(tally) => tally,
                        Err(error) => {
                            proof {
                                lemma_leaves_grow(entries@, i + 1, level, bits, xo, size);
                                assert(previous.of(size) == counts.of(size) + leaves_among(
                                    here,
                                    level,
                                    bits,
                                    xo,
                                    size,
                                ));
                                assert(leaves_among(next, level, bits, xo, size) == leaves_among(
                                    here,
                                    level,
                                    bits,
                                    xo,
                                    size,
                                ) + 1);
                                assert(counts.of(size) + leaves_among(
                                    entries@,
                                    level,
                                    self.max_physical_bits,
                                    self.execute_only_supported,
                                    size,
                                ) > u32::MAX);
                            }
                            return Err(error);
                        },
                    };
                    assert forall|other: EptLeafSize| #[trigger]
                        tally.of(other) == counts.of(other) + leaves_among(
                            next,
                            level,
                            bits,
                            xo,
                            other,
                        ) by {
                        assert(previous.of(other) == counts.of(other) + leaves_among(
                            here,
                            level,
                            bits,
                            xo,
                            other,
                        ));
                    }
                },
                Ok(DecodedEptEntry::NotPresent) => {},
                Err(error) => {
                    return Err(edit_error(ErrorCode::EptVerificationFailure, error.code()));
                },
            }
            i += 1;
        }
        assert(entries@.take(i as int) =~= entries@);
        Ok(tally)
    }

    /// Where no entry is refused, every page's permissions are ones that the
    /// processor has.
    proof fn lemma_all_supported(&self)
        requires
            self.wf(),
            forall|i: int, j: int|
                0 <= i < self.hierarchy().pages.len() && 0 <= j < 512 ==> entry::decoded(
                    walker::level_of_kind(self.hierarchy().pages[i].kind),
                    #[trigger] self.hierarchy().pages[i].entries[j],
                    self.hierarchy().bits,
                    self.hierarchy().execute_only,
                ) is Ok,
        ensures
            self.model().all_supported(),
    {
        let h = self.hierarchy();
        let model = self.model();
        assert forall|page: u64| #[trigger] model.overrides.contains_key(page) implies !refused(
            model.overrides[page].permissions,
            h.execute_only,
        ) by {
            if refused(model.overrides[page].permissions, h.execute_only) {
                bits::lemma_width_limit(h.bits);
                assert(state_ok(
                    page,
                    model.overrides[page],
                    model.types,
                    model.aperture_end,
                    h.bits,
                ));
                assert(tree::same_target(
                    state_result(model.state(page), h.execute_only),
                    tree::resolved(h, page),
                ));
                assert(self.tables@.contains_key((EptLevel::Pml4, 0)));
                let place = tree::lemma_broken_entry(h, self.tables@, EptLevel::Pml4, 0, page);
                let index = place.0.spec_index(page);
                assert(self.tables@.contains_key((place.0, place.1)));
                assert(tree::place_fits(h, self.tables@, place.0, place.1));
                let position = page::page_index(h.pages, self.tables@[place]);
                assert(h.pages[position].entries[index] == h.entry(self.tables@[place], index));
                assert(walker::level_of_kind(h.pages[position].kind) == place.0);
            }
        }
    }

    /// A page of the store is a table at its place, whose entries lead to
    /// other tables; an entry that is refused stands for an unsupported page.
    proof fn lemma_stored_page(&self, i: int) -> (place: (EptLevel, int))
        requires
            self.wf(),
            0 <= i < self.hierarchy().pages.len(),
        ensures
            walker::level_of_kind(self.hierarchy().pages[i].kind) == place.0,
            self.hierarchy().pages[i].owner == self.hierarchy().owner,
            forall|j: int|
                0 <= j < 512 ==> match entry::decoded(
                    place.0,
                    #[trigger] self.hierarchy().pages[i].entries[j],
                    self.hierarchy().bits,
                    self.hierarchy().execute_only,
                ) {
                    Ok(DecodedEptEntry::Table { hpa, permissions }) => permissions
                        == EptPermissions::full() && page::has_page(
                        self.hierarchy().pages,
                        hpa.get(),
                    ),
                    Ok(_) => true,
                    Err(error) => {
                        &&& error == EptEntryError::UnsupportedPermissions
                        &&& !self.model().all_supported()
                    },
                },
    {
        let h = self.hierarchy();
        let model = self.model();
        let tables = self.tables@;
        page::lemma_page_index(h.pages, h.bits, i);
        assert(tree::placed(tables, h.pages[i].hpa));
        let place = choose|place: (EptLevel, int)| #[trigger]
            tables.contains_key(place) && tables[place] == h.pages[i].hpa;
        assert(tables.contains_key((place.0, place.1)));
        assert(tree::place_fits(h, tables, place.0, place.1));
        assert forall|j: int| 0 <= j < 512 implies match entry::decoded(
            place.0,
            #[trigger] h.pages[i].entries[j],
            h.bits,
            h.execute_only,
        ) {
            Ok(DecodedEptEntry::Table { hpa, permissions }) => permissions == EptPermissions::full()
                && page::has_page(h.pages, hpa.get()),
            Ok(_) => true,
            Err(error) => {
                &&& error == EptEntryError::UnsupportedPermissions
                &&& !model.all_supported()
            },
        } by {
            assert(tree::slot_fits(h, tables, place.0, place.1, j));
            assert(h.entry(tables[place], j) == h.pages[i].entries[j]);
            match entry::decoded(place.0, h.pages[i].entries[j], h.bits, h.execute_only) {
                Ok(DecodedEptEntry::Table { hpa, permissions }) => {
                    let below = tree::child_place(place.0, place.1, j);
                    assert(tables.contains_key((below.0, below.1)));
                    assert(tree::place_fits(h, tables, below.0, below.1));
                },
                Ok(_) => {},
                Err(error) => {
                    let page = (place.1 + j * 0x1000) as u64;
                    let q = place.1 / 0x20_0000;
                    assert(place.1 == 0x20_0000 * q);
                    tree::lemma_regions(EptLevel::Pt, place.1, page);
                    scan::lemma_index_in_region(EptLevel::Pt, place.1, j, page);
                    tree::lemma_reach(h, tables, EptLevel::Pt, place.1, page);
                    assert(page % 0x1000 == 0);
                    assert(tree::resolved(h, page) == Err::<PageTarget, Miss>(
                        Miss::Broken(EptLevel::Pt, error),
                    ));
                    assert(page < model.aperture_end);
                    assert(model.overrides.contains_key(page));
                },
            }
        }
        place
    }

    /// Checks every table page and counts them and their leaves.
    fn verify_pages(&self) -> (result: MonadResult<(u32, LeafCounts)>)
        requires
            self.wf(),
        ensures
            match result {
                Ok((table_pages, counts)) => {
                    &&& self.model().all_supported()
                    &&& table_pages == self.hierarchy().pages.len()
                    &&& forall|size: EptLeafSize| #[trigger]
                        counts.of(size) == leaves(self.hierarchy(), size)
                },
                Err(error) => {
                    ||| !self.model().all_supported() && error == unsupported_view()
                    ||| beyond_figures(self.model().hierarchy) && error == MonadError::new(
                        ErrorPhase::DraftEdit,
                        ErrorCode::AddressOverflow,
                        u32::MAX as u64,
                    )
                },
            },
    {
        let ghost h = self.hierarchy();
        let mut table_pages: u32 = 0;
        let mut counts = LeafCounts { leaf_1g: 0, leaf_2m: 0, leaf_4k: 0 };
        proof {
            assert(h.pages.take(0) =~= Seq::<TablePage>::empty());
        }
        let mut index: usize = 0;
        while index < self.pages.len()
            invariant
                self.wf(),
                h == self.hierarchy(),
                index <= h.pages.len(),
                h.pages == self.pages.view(),
                table_pages == index,
                forall|size: EptLeafSize| #[trigger]
                    counts.of(size) == leaves_of(
                        h.pages.take(index as int),
                        h.bits,
                        h.execute_only,
                        size,
                    ),
                forall|i: int, j: int|
                    0 <= i < index && 0 <= j < 512 ==> entry::decoded(
                        walker::level_of_kind(h.pages[i].kind),
                        #[trigger] h.pages[i].entries[j],
                        h.bits,
                        h.execute_only,
                    ) is Ok,
            decreases h.pages.len() - index,
        {
            let ghost place = self.lemma_stored_page(index as int);
            let (hpa, kind, owner, entries) = match self.pages.page_at(index) {
                Some(page) => page,
                None => {
                    return Err(edit_error(ErrorCode::EptVerificationFailure, index as u64));
                },
            };
            if owner != self.owner {
                return Err(edit_error(ErrorCode::EptVerificationFailure, hpa.get()));
            }
            table_pages = match table_pages.checked_add(1) {
                Some(table_pages) => table_pages,
                None => {
                    return Err(edit_error(ErrorCode::AddressOverflow, table_pages as u64));
                },
            };
            let level = walker::level_for_kind(kind);
            assert(entries@ == h.pages[index as int].entries);
            let ghost previous = counts;
            let ghost next = h.pages.take(index + 1);
            proof {
                assert(next.drop_last() =~= h.pages.take(index as int));
                assert(next.last() == h.pages[index as int]);
                assert forall|size: EptLeafSize| true implies #[trigger] leaves_of(
                    next,
                    h.bits,
                    h.execute_only,
                    size,
                ) == previous.of(size) + leaves_among(
                    entries@,
                    level,
                    h.bits,
                    h.execute_only,
                    size,
                ) by {}
            }
            counts = match self.verify_entries(entries, level, counts) {
                Ok(counts) => counts,
                Err(error) => {
                    proof {
                        if error.code == ErrorCode::AddressOverflow {
                            let size = choose|size: EptLeafSize|
                                previous.of(size) + #[trigger] leaves_among(
                                    entries@,
                                    level,
                                    h.bits,
                                    h.execute_only,
                                    size,
                                ) > u32::MAX;
                            lemma_page_leaves_grow(
                                h.pages,
                                index + 1,
                                h.bits,
                                h.execute_only,
                                size,
                            );
                            assert(leaves_of(next, h.bits, h.execute_only, size) > u32::MAX);
                            assert(leaves(h, size) > u32::MAX);
                            match size {
                                EptLeafSize::Size1G => {},
                                EptLeafSize::Size2M => {},
                                EptLeafSize::Size4K => {},
                            }
                        }
                    }
                    return Err(error);
                },
            };
            assert forall|size: EptLeafSize| #[trigger]
                counts.of(size) == leaves_of(next, h.bits, h.execute_only, size) by {}
            assert forall|i: int, j: int|
                0 <= i < index + 1 && 0 <= j < 512 implies entry::decoded(
                walker::level_of_kind(h.pages[i].kind),
                #[trigger] h.pages[i].entries[j],
                h.bits,
                h.execute_only,
            ) is Ok by {
                if i == index {
                    assert(entries@[j] == h.pages[i].entries[j]);
                }
            }
            index += 1;
        }
        proof {
            assert(h.pages.take(index as int) =~= h.pages);
            self.lemma_all_supported();
        }
        Ok((table_pages, counts))
    }
}

/// Whether the override of a page is what the tables say: it lies in the
/// aperture, has the type that the memory map gives the page, and a walk finds
/// what it maps, or nothing where it grants nothing.
pub open spec fn override_stands(model: ViewModel, page: u64) -> bool {
    let state = model.overrides[page];
    &&& page < model.aperture_end
    &&& mtrr::type_at(model.types, page as int) == Some(state.memory_type)
    &&& match walker::walked(model.hierarchy, GuestPhysicalAddress::at(page)) {
        WalkResult::Mapping(mapping) => {
            &&& state.permissions.is_present()
            &&& mapping.hpa_page.get() == state.hpa
            &&& mapping.permissions == state.permissions
            &&& mapping.memory_type == state.memory_type
        },
        WalkResult::NotPresent { level, raw_entry } => level is Pt
            && !state.permissions.is_present(),
        WalkResult::Invalid(_) => false,
    }
}

/// Whether a page is the lowest whose override does not stand.
pub open spec fn first_fallen(model: ViewModel, page: u64) -> bool {
    &&& model.overrides.contains_key(page)
    &&& !override_stands(model, page)
    &&& forall|other: u64| #[trigger]
        model.overrides.contains_key(other) && other < page ==> override_stands(model, other)
}

impl<A: EptPageAllocator + Clone> ViewImage<A> {
    /// What a walk of a page finds: the page's state, where permissions grant
    /// anything that the processor has.
    pub proof fn law_walk_finds_state(&self, gpa: GuestPhysicalAddress)
        requires
            self.wf(),
            gpa.get() % 0x1000 == 0,
            gpa.get() < bits::width_limit(self.model().hierarchy.bits),
        ensures
            ({
                let model = self.model();
                let state = model.state(gpa.get());
                if gpa.get() >= model.aperture_end {
                    model.walk(gpa) is NotPresent
                } else if !state.permissions.is_present() {
                    model.walk(gpa) == (WalkResult::NotPresent {
                        level: EptLevel::Pt,
                        raw_entry: 0,
                    })
                } else if refused(state.permissions, model.hierarchy.execute_only) {
                    model.walk(gpa) is Invalid
                } else {
                    model.walk(gpa) matches WalkResult::Mapping(mapping) && {
                        &&& mapping.gpa_page == gpa
                        &&& mapping.hpa_page.get() == state.hpa
                        &&& mapping.permissions == state.permissions
                        &&& mapping.memory_type == state.memory_type
                        &&& mapping.source == match state.backing {
                            Some(reference) => MappingSource::Backing(reference),
                            None => MappingSource::Identity,
                        }
                    }
                }
            }),
    {
        let model = self.model();
        let page = gpa.get();
        bits::lemma_width_limit(model.hierarchy.bits);
        tree::lemma_walked(model.hierarchy, self.tables@, gpa);
        if page < model.aperture_end {
            assert(tree::same_target(
                state_result(model.state(page), model.hierarchy.execute_only),
                tree::resolved(model.hierarchy, page),
            ));
        } else {
            assert(tree::resolved(model.hierarchy, page) matches Err(Miss::Absent(_)));
        }
    }

    /// The overrides of a view that asks for nothing that the processor does not
    /// have stand.
    proof fn lemma_overrides_stand(&self)
        requires
            self.wf(),
            self.model().all_supported(),
        ensures
            forall|page: u64| #[trigger]
                self.model().overrides.contains_key(page) ==> override_stands(self.model(), page),
    {
        let model = self.model();
        assert forall|page: u64| #[trigger] model.overrides.contains_key(page) implies override_stands(
            model,
            page,
        ) by {
            assert(state_ok(
                page,
                model.overrides[page],
                model.types,
                model.aperture_end,
                model.hierarchy.bits,
            ));
            super::address::lemma_gpa_at(page);
            self.law_walk_finds_state(GuestPhysicalAddress::at(page));
        }
    }

    /// Checks that every override is what its page resolves to, from the lowest
    /// page up.
    fn verify_overrides(&self) -> (result: MonadResult<()>)
        requires
            self.tables_ok(),
            by_page(self.overrides@),
        ensures
            match result {
                Ok(_) => forall|page: u64| #[trigger]
                    self.model().overrides.contains_key(page) ==> override_stands(
                        self.model(),
                        page,
                    ),
                Err(error) => exists|page: u64| #[trigger]
                    first_fallen(self.model(), page) && error == MonadError::new(
                        ErrorPhase::DraftEdit,
                        ErrorCode::EptVerificationFailure,
                        page,
                    ),
            },
    {
        let ghost model = self.model();
        let mut i: usize = 0;
        while i < self.overrides.len()
            invariant
                self.tables_ok(),
                by_page(self.overrides@),
                model == self.model(),
                i <= self.overrides@.len(),
                forall|k: int|
                    0 <= k < i ==> override_stands(
                        model,
                        (#[trigger] self.overrides@[k]).gpa.get(),
                    ),
            decreases self.overrides@.len() - i,
        {
            let entry = self.overrides[i];
            let page: u64 = entry.gpa.get();
            proof {
                lemma_override(self.overrides@, i as int);
                super::address::lemma_gpa_at(page);
                super::address::lemma_gpa_is_its_number(
                    entry.gpa,
                    GuestPhysicalAddress::at(page),
                );
                assert forall|other: u64| #[trigger]
                    model.overrides.contains_key(other) && other < page implies override_stands(
                    model,
                    other,
                ) by {
                    let k = choose|k: int|
                        0 <= k < self.overrides@.len() && (
                        #[trigger] self.overrides@[k]).gpa.get() == other;
                    assert(has_override(self.overrides@, other));
                    if k > i {
                        assert(self.overrides@[i as int].gpa.get() < self.overrides@[k].gpa.get());
                    }
                }
            }
            let typed: bool = match self.memory_types.memory_type_at(page) {
                Some(memory_type) => memory_type == entry.memory_type,
                None => false,
            };
            if page >= self.inventory.aperture_end() || !typed {
                assert(first_fallen(model, page));
                return Err(edit_error(ErrorCode::EptVerificationFailure, page));
            }
            let agrees: bool = match self.walk_tables(entry.gpa) {
                WalkResult::Mapping(mapping) => entry.permissions.is_present() && mapping.hpa_page
                    == entry.hpa && mapping.permissions == entry.permissions
                    && mapping.memory_type == entry.memory_type,
                WalkResult::NotPresent { level, raw_entry: _ } => level == EptLevel::Pt
                    && !entry.permissions.is_present(),
                WalkResult::Invalid(_) => false,
            };
            if !agrees {
                assert(first_fallen(model, page));
                return Err(edit_error(ErrorCode::EptVerificationFailure, page));
            }
            i += 1;
        }
        proof {
            assert forall|page: u64| #[trigger]
                model.overrides.contains_key(page) implies override_stands(model, page) by {
                assert(has_override(self.overrides@, page));
                let k = choose|k: int|
                    0 <= k < self.overrides@.len() && (#[trigger] self.overrides@[k]).gpa.get()
                        == page;
                assert(override_stands(model, self.overrides@[k].gpa.get()));
            }
        }
        Ok(())
    }

    /// The pages that grant reading, writing and execution.
    fn permission_totals(&self) -> (totals: (u64, u64, u64))
        requires
            self.wf(),
        ensures
            totals.0 == granting(self.model(), |p: EptPermissions| p.read),
            totals.1 == granting(self.model(), |p: EptPermissions| p.write),
            totals.2 == granting(self.model(), |p: EptPermissions| p.execute),
    {
        let ghost model = self.model();
        let ghost reads = |p: EptPermissions| p.read;
        let ghost writes = |p: EptPermissions| p.write;
        let ghost executes = |p: EptPermissions| p.execute;
        let total: u64 = self.inventory.aperture_end() / PAGE_SIZE_4K;
        let mut readable: u64 = total;
        let mut writable: u64 = total;
        let mut executable: u64 = total;
        proof {
            let none = override_map(self.overrides@.take(0));
            assert(none =~= Map::<u64, PageState>::empty());
            assert(lacking(none, reads) =~= Set::<u64>::empty());
            assert(lacking(none, writes) =~= Set::<u64>::empty());
            assert(lacking(none, executes) =~= Set::<u64>::empty());
        }
        let mut i: usize = 0;
        while i < self.overrides.len()
            invariant
                self.wf(),
                model == self.model(),
                i <= self.overrides@.len(),
                total == model.aperture_end / 0x1000,
                model.aperture_end % 0x1000 == 0,
                ({
                    let seen = override_map(self.overrides@.take(i as int));
                    &&& lacking(seen, reads).finite() && lacking(seen, reads).len() <= i
                    &&& lacking(seen, writes).finite() && lacking(seen, writes).len() <= i
                    &&& lacking(seen, executes).finite() && lacking(seen, executes).len() <= i
                    &&& readable == total - lacking(seen, reads).len()
                    &&& writable == total - lacking(seen, writes).len()
                    &&& executable == total - lacking(seen, executes).len()
                }),
                reads == |p: EptPermissions| p.read,
                writes == |p: EptPermissions| p.write,
                executes == |p: EptPermissions| p.execute,
            decreases self.overrides@.len() - i,
        {
            let entry = self.overrides[i];
            proof {
                let seen = override_map(self.overrides@.take(i as int));
                let page = entry.gpa.get();
                let state = state_of(entry);
                lemma_override_prefix(self.overrides@, i as int);
                lemma_lacking_step(seen, page, state, reads);
                lemma_lacking_step(seen, page, state, writes);
                lemma_lacking_step(seen, page, state, executes);
                assert forall|k: int| 0 <= k < self.overrides@.len() implies (
                #[trigger] self.overrides@[k]).gpa.get() % 0x1000 == 0 by {
                    lemma_override(self.overrides@, k);
                    let other = self.overrides@[k].gpa.get();
                    assert(model.overrides.contains_key(other));
                }
                lemma_override_position(self.overrides@, i as int);
                lemma_override(self.overrides@, i as int);
                assert(model.overrides.contains_key(page));
                assert(page < model.aperture_end);
                assert(i < total);
            }
            if !entry.permissions.read() {
                readable -= 1;
            }
            if !entry.permissions.write() {
                writable -= 1;
            }
            if !entry.permissions.execute() {
                executable -= 1;
            }
            i += 1;
        }
        assert(self.overrides@.take(i as int) =~= self.overrides@);
        (readable, writable, executable)
    }

    /// Checks a view and gives its figures. Only permissions that the
    /// processor does not have, figures that do not fit and want of memory
    /// stand in the way.
    pub fn verify(&self) -> (result: MonadResult<ViewMetadata>)
        requires
            self.wf(),
        ensures
            match result {
                Ok(metadata) => {
                    &&& self.model().all_supported()
                    &&& describes(self.model(), metadata)
                },
                Err(error) => {
                    ||| !self.model().all_supported() && error == unsupported_view()
                    ||| figures_fault(self.model(), error)
                    ||| error == memory_fault(self.model())
                },
            },
            !self.model().all_supported() && !beyond_figures(self.model().hierarchy) ==> result
                == Err::<ViewMetadata, MonadError>(unsupported_view()),
            self.model().all_supported() && beyond_figures(self.model().hierarchy) ==> result
                == Err::<ViewMetadata, MonadError>(
                MonadError::new(
                    ErrorPhase::DraftEdit,
                    ErrorCode::AddressOverflow,
                    u32::MAX as u64,
                ),
            ),
            !self.model().all_supported() ==> result is Err && (result->Err_0 == unsupported_view()
                || result->Err_0 == MonadError::new(
                ErrorPhase::DraftEdit,
                ErrorCode::AddressOverflow,
                u32::MAX as u64,
            )),
    {
        let (table_pages, counts) = self.verify_pages()?;
        proof {
            assert(counts.of(EptLeafSize::Size1G) == leaves(self.hierarchy(), EptLeafSize::Size1G));
            assert(counts.of(EptLeafSize::Size2M) == leaves(self.hierarchy(), EptLeafSize::Size2M));
            assert(counts.of(EptLeafSize::Size4K) == leaves(self.hierarchy(), EptLeafSize::Size4K));
            self.lemma_overrides_stand();
        }
        self.verify_overrides()?;
        let refs = self.backing_refs()?;
        proof {
            refs@.unique_seq_to_set();
            lemma_override_count(self.overrides@);
        }
        if refs.len() > u32::MAX as usize {
            return Err(edit_error(ErrorCode::AddressOverflow, self.overrides.len() as u64));
        }
        let backing_pages: u32 = refs.len() as u32;
        let (readable_pages, writable_pages, executable_pages) = self.permission_totals();
        Ok(
            ViewMetadata {
                source: self.source,
                edit_count: self.edit_count,
                table_pages,
                leaf_1g: counts.leaf_1g,
                leaf_2m: counts.leaf_2m,
                leaf_4k: counts.leaf_4k,
                backing_pages,
                readable_pages,
                writable_pages,
                executable_pages,
            },
        )
    }

    /// The view published, as made from `source`.
    pub fn mark_published(self, source: ViewId, metadata: ViewMetadata) -> (published: (
        Self,
        ViewMetadata,
    ))
        requires
            self.wf(),
        ensures
            published.0.wf(),
            published.0.model() == (ViewModel {
                source,
                hierarchy: published_tables(self.model().hierarchy),
                ..self.model()
            }),
            forall|address: u64|
                address < 0x1_0000_0000_0000 ==> #[trigger] tree::resolved(
                    published.0.model().hierarchy,
                    address,
                ) == tree::resolved(self.model().hierarchy, address),
            published.1 == (ViewMetadata { source, ..metadata }),
            published.0.missing() == self.missing(),
    {
        let ghost before = self.model();
        let mut image = self;
        let mut metadata = metadata;
        image.source = source;
        metadata.source = source;
        image.owner = EptPageOwner::Published;
        image.pages.set_owner_all(EptPageOwner::Published);
        proof {
            let after = image.hierarchy();
            page::lemma_with_owner(
                before.hierarchy.pages,
                before.hierarchy.bits,
                EptPageOwner::Published,
            );
            tree::lemma_new_owner(before.hierarchy, after, self.tables@);
            assert(image.model().wf()) by {
                assert forall|page: u64| page < 0x1_0000_0000_0000 && page % 0x1000
                    == 0 implies if page < image.model().aperture_end {
                    tree::same_target(
                        state_result(
                            state_at(image.model().overrides, image.model().types, page),
                            after.execute_only,
                        ),
                        #[trigger] tree::resolved(after, page),
                    )
                } else {
                    tree::resolved(after, page) matches Err(Miss::Absent(_))
                } by {
                    assert(tree::resolved(after, page) == tree::resolved(before.hierarchy, page));
                }
            }
        }
        (image, metadata)
    }

    /// The source of the view's tables.
    pub closed spec fn table_source(&self) -> A {
        self.pages.source()
    }

    /// Gives all tables back to their source. The image is of no further use.
    pub fn give_back(&mut self)
        ensures
            page::at_large(final(self).table_source()) == old(self).missing(),
            final(self).hierarchy().pages.len() == 0,
    {
        self.pages.give_back();
    }

    /// Gives all tables back to their source, and hands it over.
    pub fn release(self) -> (source: A)
        ensures
            page::at_large(source) == self.missing(),
    {
        self.pages.release()
    }

    /// The pointer that selects the view's tables.
    pub fn eptp(&self) -> (pointer: u64)
        ensures
            pointer == self.model().eptp(),
    {
        6u64 | (3u64 << 3) | ((self.root.get() >> 12) << 12)
    }

    /// The root table.
    pub fn root(&self) -> (root: HostPhysicalAddress)
        ensures
            root.get() == self.model().hierarchy.root,
    {
        self.root
    }

    /// The tables.
    pub fn pages(&self) -> (pages: &EptPageStore<A>)
        ensures
            pages.view() == self.model().hierarchy.pages,
    {
        &self.pages
    }

    /// Whose tables they are.
    pub fn owner(&self) -> (owner: EptPageOwner)
        ensures
            owner == self.model().hierarchy.owner,
    {
        self.owner
    }

    pub fn max_physical_bits(&self) -> (bits: u8)
        ensures
            bits == self.model().hierarchy.bits,
    {
        self.max_physical_bits
    }

    pub fn execute_only_supported(&self) -> (supported: bool)
        ensures
            supported == self.model().hierarchy.execute_only,
    {
        self.execute_only_supported
    }

    /// The pages that differ from the base view.
    pub fn overrides(&self) -> (overrides: &[PageOverride])
        ensures
            override_map(overrides@) == self.model().overrides,
            self.wf() ==> by_page(overrides@),
    {
        self.overrides.as_slice()
    }

    /// How often the view was edited.
    pub fn edit_count(&self) -> (count: u32)
        ensures
            count == self.model().edit_count,
    {
        self.edit_count
    }

    /// Where the memory that the view maps ends.
    pub fn aperture_end(&self) -> (aperture_end: u64)
        ensures
            aperture_end == self.model().aperture_end,
    {
        self.inventory.aperture_end()
    }

    /// Walks a guest page; a page with a backing names it.
    pub fn walk(&self, gpa: GuestPhysicalAddress) -> (result: WalkResult)
        requires
            self.wf(),
        ensures
            result == self.model().walk(gpa),
    {
        match self.walk_tables(gpa) {
            WalkResult::Mapping(mapping) => {
                let mut mapping = mapping;
                mapping.source = match self.override_index(gpa) {
                    Ok(index) => match self.overrides[index].backing {
                        Some(reference) => MappingSource::Backing(reference),
                        None => MappingSource::Identity,
                    },
                    Err(_) => MappingSource::Identity,
                };
                WalkResult::Mapping(mapping)
            },
            other => other,
        }
    }
}

/// An entry as it stands in a copy whose pages have other addresses.
spec fn moved_entry(h: Hierarchy, hpas: Seq<u64>, level: EptLevel, raw: u64) -> u64 {
    match entry::decoded(level, raw, h.bits, h.execute_only) {
        Ok(DecodedEptEntry::Table { hpa, permissions }) => entry::table_word(
            HostPhysicalAddress::at(hpas[page::page_index(h.pages, hpa.get())]),
        ),
        _ => raw,
    }
}

/// An entry that the processor takes, and its copy.
spec fn copied_entry(
    h: Hierarchy,
    hpas: Seq<u64>,
    from: TablePage,
    to: TablePage,
    j: int,
) -> bool {
    let level = walker::level_of_kind(from.kind);
    &&& to.entries[j] == moved_entry(h, hpas, level, from.entries[j])
    &&& entry::decoded(level, from.entries[j], h.bits, h.execute_only) is Ok
}

/// The addresses of the pages of a copy beside those of what is copied.
spec fn pairs(
    remap: Seq<(HostPhysicalAddress, HostPhysicalAddress)>,
    from: Seq<TablePage>,
    to: Seq<TablePage>,
) -> bool {
    &&& remap.len() == to.len()
    &&& to.len() <= from.len()
    &&& forall|k: int|
        0 <= k < remap.len() ==> (#[trigger] remap[k]).0.get() == from[k].hpa && remap[k].1.get()
            == to[k].hpa
}

/// The addresses of the pages of a copy.
spec fn new_addresses(remap: Seq<(HostPhysicalAddress, HostPhysicalAddress)>) -> Seq<u64> {
    remap.map_values(|pair: (HostPhysicalAddress, HostPhysicalAddress)| pair.1.get())
}

/// The new address of a page.
fn remapped(
    remap: &Vec<(HostPhysicalAddress, HostPhysicalAddress)>,
    hpa: HostPhysicalAddress,
    Ghost(from): Ghost<Seq<TablePage>>,
    Ghost(to): Ghost<Seq<TablePage>>,
    Ghost(width): Ghost<u8>,
) -> (found: Option<HostPhysicalAddress>)
    requires
        pairs(remap@, from, to),
        remap@.len() == from.len(),
        page::distinct_pages(from, width),
    ensures
        match found {
            Some(twin) => page::has_page(from, hpa.get()) && twin.get() == to[page::page_index(
                from,
                hpa.get(),
            )].hpa,
            None => !page::has_page(from, hpa.get()),
        },
{
    let mut i: usize = 0;
    while i < remap.len()
        invariant
            i <= remap@.len(),
            pairs(remap@, from, to),
            remap@.len() == from.len(),
            page::distinct_pages(from, width),
            forall|k: int| 0 <= k < i ==> (#[trigger] from[k]).hpa != hpa.get(),
        decreases remap@.len() - i,
    {
        let pair = remap[i];
        assert(remap@[i as int].0.get() == from[i as int].hpa);
        if pair.0 == hpa {
            proof {
                page::lemma_page_index(from, width, i as int);
            }
            return Some(pair.1);
        }
        i += 1;
    }
    None
}

/// Whether a walk finds a mapping whose permissions grant something.
pub open spec fn walk_grants(walk: WalkResult, grants: spec_fn(EptPermissions) -> bool) -> bool {
    match walk {
        WalkResult::Mapping(mapping) => grants(mapping.permissions),
        _ => false,
    }
}

/// The pages of a view whose walk finds a mapping that grants something.
pub open spec fn pages_granting(
    model: ViewModel,
    grants: spec_fn(EptPermissions) -> bool,
) -> Set<u64> {
    Set::new(
        |page: u64|
            page % 0x1000 == 0 && walk_grants(model.walk(GuestPhysicalAddress::at(page)), grants),
    )
}

impl<A: EptPageAllocator + Clone> ViewImage<A> {
    /// The pages whose walk grants something are those of the aperture but for
    /// the overrides that lack it.
    proof fn lemma_granting(&self, grants: spec_fn(EptPermissions) -> bool)
        requires
            self.wf(),
            self.model().all_supported(),
            grants(EptPermissions::full()),
            forall|p: EptPermissions| #[trigger] grants(p) ==> p.is_present(),
        ensures
            pages_granting(self.model(), grants).finite(),
            pages_granting(self.model(), grants).len() == granting(self.model(), grants),
    {
        let model = self.model();
        let pages = model.aperture_end as int / 0x1000;
        let all = range_pages(0, pages);
        let lack = lacking(model.overrides, grants);
        let granted = pages_granting(model, grants);
        assert(model.aperture_end % 0x1000 == 0);
        assert(0x1000 * pages == model.aperture_end);
        lemma_range_pages(0, pages);
        bits::lemma_width_limit(model.hierarchy.bits);
        assert forall|page: u64| #[trigger] granted.contains(page) == all.difference(
            lack,
        ).contains(page) by {
            if page % 0x1000 == 0 {
                super::address::lemma_gpa_at(page);
                if page < bits::width_limit(model.hierarchy.bits) {
                    self.law_walk_finds_state(GuestPhysicalAddress::at(page));
                }
            }
        }
        assert(granted =~= all.difference(lack));
        assert(lack.subset_of(all)) by {
            assert forall|page: u64| #[trigger] lack.contains(page) implies all.contains(page) by {
                assert(model.overrides.contains_key(page));
            }
        }
        assert(all.intersect(lack) =~= lack);
        vstd::set_lib::lemma_set_intersect_union_lens(all, lack);
        vstd::set_lib::lemma_len_subset(lack, all);
        vstd::set_lib::lemma_set_disjoint_lens(all.difference(lack), lack);
        assert(all.difference(lack) + lack =~= all);
    }

    /// Each permission figure of a view is the number of pages whose walk finds
    /// a mapping with that permission.
    pub proof fn law_figures_count_what_walks_grant(&self, metadata: ViewMetadata)
        requires
            self.wf(),
            self.model().all_supported(),
            describes(self.model(), metadata),
        ensures
            ({
                let readable = pages_granting(self.model(), |p: EptPermissions| p.read);
                let writable = pages_granting(self.model(), |p: EptPermissions| p.write);
                let executable = pages_granting(self.model(), |p: EptPermissions| p.execute);
                &&& readable.finite() && metadata.readable_pages == readable.len()
                &&& writable.finite() && metadata.writable_pages == writable.len()
                &&& executable.finite() && metadata.executable_pages == executable.len()
            }),
    {
        self.lemma_granting(|p: EptPermissions| p.read);
        self.lemma_granting(|p: EptPermissions| p.write);
        self.lemma_granting(|p: EptPermissions| p.execute);
    }
}

impl<A: EptPageAllocator + Clone> ViewImage<A> {
    /// Copies the entries of one page.
    fn copy_entries(
        &self,
        pages: &mut EptPageStore<A>,
        remap: &Vec<(HostPhysicalAddress, HostPhysicalAddress)>,
        index: usize,
    ) -> (result: MonadResult<()>)
        requires
            self.wf(),
            old(pages).wf(),
            old(pages).width() == self.hierarchy().bits,
            old(pages).view().len() == self.hierarchy().pages.len(),
            pairs(remap@, self.hierarchy().pages, old(pages).view()),
            index < old(pages).view().len(),
        ensures
            final(pages).wf(),
            final(pages).width() == old(pages).width(),
            final(pages).missing() == old(pages).missing(),
            final(pages).view().len() == old(pages).view().len(),
            forall|k: int|
                0 <= k < old(pages).view().len() ==> {
                    &&& (#[trigger] final(pages).view()[k]).hpa == old(pages).view()[k].hpa
                    &&& final(pages).view()[k].kind == old(pages).view()[k].kind
                    &&& final(pages).view()[k].owner == old(pages).view()[k].owner
                    &&& k != index ==> final(pages).view()[k].entries == old(
                        pages,
                    ).view()[k].entries
                },
            result is Ok ==> forall|j: int|
                0 <= j < 512 ==> #[trigger] copied_entry(
                    self.hierarchy(),
                    new_addresses(remap@),
                    self.hierarchy().pages[index as int],
                    final(pages).view()[index as int],
                    j,
                ),
            result matches Err(error) ==> !self.model().all_supported() && error
                == unsupported_view(),
    {
        let ghost h = self.hierarchy();
        let ghost start = pages.view();
        let ghost hpas = new_addresses(remap@);
        let ghost place = self.lemma_stored_page(index as int);
        let (_, kind, _, entries) = match self.pages.page_at(index) {
            Some(page) => page,
            None => {
                return Err(edit_error(ErrorCode::EptVerificationFailure, index as u64));
            },
        };
        let twin = remap[index].1;
        let level = walker::level_for_kind(kind);
        assert(entries@ == h.pages[index as int].entries);
        assert(twin.get() == start[index as int].hpa);
        let mut j: usize = 0;
        while j < 512
            invariant
                j <= 512,
                self.wf(),
                h == self.hierarchy(),
                level == walker::level_of_kind(h.pages[index as int].kind),
                level == place.0,
                entries@ == h.pages[index as int].entries,
                entries@.len() == 512,
                hpas == new_addresses(remap@),
                pages.wf(),
                pages.width() == h.bits,
                old(pages).width() == h.bits,
                pages.missing() == old(pages).missing(),
                pairs(remap@, h.pages, start),
                start == old(pages).view(),
                start.len() == h.pages.len(),
                index < start.len(),
                twin.get() == start[index as int].hpa,
                pages.view().len() == start.len(),
                forall|k: int|
                    0 <= k < start.len() ==> {
                        &&& (#[trigger] pages.view()[k]).hpa == start[k].hpa
                        &&& pages.view()[k].kind == start[k].kind
                        &&& pages.view()[k].owner == start[k].owner
                        &&& k != index ==> pages.view()[k].entries == start[k].entries
                    },
                forall|i: int|
                    0 <= i < 512 ==> match entry::decoded(
                        place.0,
                        #[trigger] h.pages[index as int].entries[i],
                        h.bits,
                        h.execute_only,
                    ) {
                        Ok(DecodedEptEntry::Table { hpa, permissions }) => page::has_page(
                            h.pages,
                            hpa.get(),
                        ),
                        Ok(_) => true,
                        Err(error) => error == EptEntryError::UnsupportedPermissions
                            && !self.model().all_supported(),
                    },
                forall|i: int|
                    0 <= i < j ==> #[trigger] copied_entry(
                        h,
                        hpas,
                        h.pages[index as int],
                        pages.view()[index as int],
                        i,
                    ),
            decreases 512 - j,
        {
            let raw: u64 = entries[j];
            assert(h.pages[index as int].entries[j as int] == raw);
            let copied: u64 = match decode_entry(
                level,
                raw,
                self.max_physical_bits,
                self.execute_only_supported,
            ) {
                Ok(DecodedEptEntry::Table { hpa, permissions: _ }) => {
                    let child = match remapped(
                        remap,
                        hpa,
                        Ghost(h.pages),
                        Ghost(start),
                        Ghost(h.bits),
                    ) {
                        Some(child) => child,
                        None => {
                            return Err(edit_error(ErrorCode::EptVerificationFailure, hpa.get()));
                        },
                    };
                    proof {
                        let position = page::page_index(h.pages, hpa.get());
                        assert(remap@[position].1.get() == start[position].hpa);
                        assert(pages.view()[position].hpa == start[position].hpa);
                    }
                    encode_link(level, child, self.max_physical_bits)?
                },
                Ok(_) => raw,
                Err(error) => {
                    return Err(edit_error(ErrorCode::EptVerificationFailure, error.code()));
                },
            };
            proof {
                assert(pages.view()[index as int].hpa == twin.get());
                page::lemma_page_index(pages.view(), h.bits, index as int);
            }
            let ghost before = pages.view();
            pages.write_entry(twin, j, copied)?;
            proof {
                assert(pages.view() == page::with_entry(
                    before,
                    index as int,
                    j as int,
                    copied,
                ));
                assert(before[index as int].entries.len() == 512);
                assert forall|i: int| 0 <= i < j + 1 implies #[trigger] copied_entry(
                    h,
                    hpas,
                    h.pages[index as int],
                    pages.view()[index as int],
                    i,
                ) by {
                    if i < j {
                        assert(copied_entry(
                            h,
                            hpas,
                            h.pages[index as int],
                            before[index as int],
                            i,
                        ));
                    }
                }
            }
            j += 1;
        }
        Ok(())
    }

    /// Copies the tables into an empty store, and the overrides.
    fn copy_tables(&self, pages: &mut EptPageStore<A>, owner: EptPageOwner) -> (result: MonadResult<
        (HostPhysicalAddress, Vec<PageOverride>),
    >)
        requires
            self.wf(),
            old(pages).wf(),
            old(pages).width() == self.hierarchy().bits,
            old(pages).view().len() == 0,
        ensures
            final(pages).wf(),
            final(pages).width() == old(pages).width(),
            final(pages).missing() == old(pages).missing(),
            result matches Ok((root, overrides)) ==> {
                &&& self.model().all_supported()
                &&& overrides@ == self.overrides@
                &&& tree::is_copy(
                    self.hierarchy(),
                    Hierarchy { pages: final(pages).view(), root: root.get(), owner, ..self.hierarchy() },
                )
            },
            !self.model().all_supported() ==> result is Err,
            result matches Err(error) ==> page::shortage::<A>(error)
                || !self.model().all_supported() && error == unsupported_view(),
    {
        let ghost h = self.hierarchy();
        let mut remap: Vec<(HostPhysicalAddress, HostPhysicalAddress)> = Vec::new();
        let reserved = remap.try_reserve(self.pages.len());
        if reserved.is_err() {
            return Err(edit_error(ErrorCode::AllocationFailure, self.pages.len() as u64));
        }
        let mut index: usize = 0;
        while index < self.pages.len()
            invariant
                self.wf(),
                h == self.hierarchy(),
                h.pages == self.pages.view(),
                index <= h.pages.len(),
                pages.wf(),
                pages.width() == h.bits,
                old(pages).width() == h.bits,
                pages.missing() == old(pages).missing(),
                pages.view().len() == index,
                pairs(remap@, h.pages, pages.view()),
                forall|k: int|
                    0 <= k < index ==> (#[trigger] pages.view()[k]).kind == h.pages[k].kind
                        && pages.view()[k].owner == owner,
            decreases h.pages.len() - index,
        {
            let (hpa, kind, _, _) = match self.pages.page_at(index) {
                Some(page) => page,
                None => {
                    return Err(edit_error(ErrorCode::EptVerificationFailure, index as u64));
                },
            };
            let twin = pages.allocate(kind, owner)?;
            remap.push((hpa, twin));
            index += 1;
        }
        let ghost hpas = new_addresses(remap@);
        let mut index: usize = 0;
        while index < self.pages.len()
            invariant
                self.wf(),
                h == self.hierarchy(),
                h.pages == self.pages.view(),
                index <= h.pages.len(),
                pages.wf(),
                pages.width() == h.bits,
                old(pages).width() == h.bits,
                pages.missing() == old(pages).missing(),
                pages.view().len() == h.pages.len(),
                pairs(remap@, h.pages, pages.view()),
                hpas == new_addresses(remap@),
                forall|k: int|
                    0 <= k < h.pages.len() ==> (#[trigger] pages.view()[k]).kind == h.pages[k].kind
                        && pages.view()[k].owner == owner,
                forall|i: int, j: int|
                    0 <= i < index && 0 <= j < 512 ==> #[trigger] copied_entry(
                        h,
                        hpas,
                        h.pages[i],
                        pages.view()[i],
                        j,
                    ),
            decreases h.pages.len() - index,
        {
            let ghost before = pages.view();
            let ghost place = self.lemma_stored_page(index as int);
            self.copy_entries(pages, &remap, index)?;
            proof {
                let after = pages.view();
                assert forall|i: int, j: int|
                    0 <= i < index + 1 && 0 <= j < 512 implies #[trigger] copied_entry(
                    h,
                    hpas,
                    h.pages[i],
                    after[i],
                    j,
                ) by {
                    assert(after[i].hpa == before[i].hpa);
                    if i < index {
                        assert(copied_entry(h, hpas, h.pages[i], before[i], j));
                    }
                }
                assert(pairs(remap@, h.pages, after)) by {
                    assert forall|k: int| 0 <= k < remap@.len() implies (#[trigger] remap@[k]).0.get()
                        == h.pages[k].hpa && remap@[k].1.get() == after[k].hpa by {
                        assert(after[k].hpa == before[k].hpa);
                    }
                }
                assert forall|k: int| 0 <= k < h.pages.len() implies (#[trigger] after[k]).kind
                    == h.pages[k].kind && after[k].owner == owner by {
                    assert(before[k].kind == h.pages[k].kind);
                }
            }
            index += 1;
        }
        proof {
            assert forall|i: int, j: int|
                0 <= i < h.pages.len() && 0 <= j < 512 implies entry::decoded(
                walker::level_of_kind(h.pages[i].kind),
                #[trigger] h.pages[i].entries[j],
                h.bits,
                h.execute_only,
            ) is Ok by {
                assert(copied_entry(h, hpas, h.pages[i], pages.view()[i], j));
            }
            self.lemma_all_supported();
            assert(self.tables@.contains_key((EptLevel::Pml4, 0)));
            assert(tree::place_fits(h, self.tables@, EptLevel::Pml4, 0));
        }
        let root = match remapped(
            &remap,
            self.root,
            Ghost(h.pages),
            Ghost(pages.view()),
            Ghost(h.bits),
        ) {
            Some(root) => root,
            None => {
                return Err(edit_error(ErrorCode::EptVerificationFailure, self.root.get()));
            },
        };
        let mut overrides: Vec<PageOverride> = Vec::new();
        let reserved = overrides.try_reserve(self.overrides.len());
        if reserved.is_err() {
            return Err(edit_error(ErrorCode::AllocationFailure, self.overrides.len() as u64));
        }
        let mut position: usize = 0;
        while position < self.overrides.len()
            invariant
                position <= self.overrides@.len(),
                overrides@ == self.overrides@.take(position as int),
            decreases self.overrides@.len() - position,
        {
            overrides.push(self.overrides[position]);
            position += 1;
            assert(overrides@ =~= self.overrides@.take(position as int));
        }
        assert(overrides@ =~= self.overrides@);
        let ghost hierarchy = Hierarchy { pages: pages.view(), root: root.get(), owner, ..h };
        proof {
            assert forall|i: int, j: int|
                0 <= i < h.pages.len() && 0 <= j < 512 implies #[trigger]
            hierarchy.pages[i].entries[j] == tree::relinked(
                h,
                hierarchy,
                walker::level_of_kind(h.pages[i].kind),
                h.pages[i].entries[j],
            ) by {
                assert(copied_entry(h, hpas, h.pages[i], hierarchy.pages[i], j));
                if let Ok(DecodedEptEntry::Table { hpa, permissions }) = entry::decoded(
                    walker::level_of_kind(h.pages[i].kind),
                    h.pages[i].entries[j],
                    h.bits,
                    h.execute_only,
                ) {
                    let place = self.lemma_stored_page(i);
                    let k = page::page_index(h.pages, hpa.get());
                    assert(page::has_page(h.pages, hpa.get()));
                    assert(remap@[k].1.get() == pages.view()[k].hpa);
                }
            }
            assert(tree::is_copy(h, hierarchy));
        }
        Ok((root, overrides))
    }

    /// Another image of the view, in pages of its own.
    pub fn try_clone_as(&self, owner: EptPageOwner) -> (result: MonadResult<Self>)
        requires
            self.wf(),
        ensures
            result matches Ok(copy) ==> {
                &&& copy.wf()
                &&& self.model().all_supported()
                &&& copy.model() == (ViewModel {
                    hierarchy: copy.model().hierarchy,
                    ..self.model()
                })
                &&& copy.model().hierarchy.owner == owner
                &&& tree::is_copy(self.model().hierarchy, copy.model().hierarchy)
                &&& forall|address: u64|
                    address < 0x1_0000_0000_0000 ==> #[trigger] tree::resolved(
                        copy.model().hierarchy,
                        address,
                    ) == tree::resolved(self.model().hierarchy, address)
            },
            !self.model().all_supported() ==> result is Err,
            result matches Err(error) ==> page::shortage::<A>(error)
                || !self.model().all_supported() && error == unsupported_view(),
    {
        let ghost h = self.hierarchy();
        let mut pages = EptPageStore::new(self.pages.allocator_clone(), self.max_physical_bits)?;
        let (root, overrides) = match self.copy_tables(&mut pages, owner) {
            Ok(parts) => parts,
            Err(error) => {
                let _ = pages.release();
                return Err(error);
            },
        };
        let ghost hierarchy = Hierarchy { pages: pages.view(), root: root.get(), owner, ..h };
        proof {
            tree::lemma_copy(h, hierarchy, self.tables@);
        }
        let copy = ViewImage {
            root,
            pages,
            inventory: self.inventory.clone(),
            memory_types: self.memory_types.clone(),
            max_physical_bits: self.max_physical_bits,
            execute_only_supported: self.execute_only_supported,
            owner,
            overrides,
            source: self.source,
            edit_count: self.edit_count,
            tables: Ghost(tree::copied_tables(h, hierarchy, self.tables@)),
        };
        proof {
            assert(copy.hierarchy() == hierarchy);
            assert forall|page: u64| page < 0x1_0000_0000_0000 && page % 0x1000 == 0 implies if page
                < copy.model().aperture_end {
                tree::same_target(
                    state_result(
                        state_at(copy.model().overrides, copy.model().types, page),
                        hierarchy.execute_only,
                    ),
                    #[trigger] tree::resolved(hierarchy, page),
                )
            } else {
                tree::resolved(hierarchy, page) matches Err(Miss::Absent(_))
            } by {
                assert(tree::resolved(hierarchy, page) == tree::resolved(h, page));
            }
        }
        Ok(copy)
    }
}

/// A draft: a view under change.
pub struct DraftView<A: EptPageAllocator + Clone> {
    pub id: DraftId,
    pub source: ViewId,
    pub image: ViewImage<A>,
}

/// A view that does not change any more.
pub struct PublishedView<A: EptPageAllocator + Clone> {
    id: ViewId,
    image: ViewImage<A>,
    metadata: ViewMetadata,
}

impl<A: EptPageAllocator + Clone> PublishedView<A> {
    /// The view as contracts see it.
    pub closed spec fn model(&self) -> ViewModel {
        self.image.model()
    }

    pub closed spec fn spec_id(&self) -> ViewId {
        self.id
    }

    pub closed spec fn spec_image(&self) -> ViewImage<A> {
        self.image
    }

    pub closed spec fn spec_metadata(&self) -> ViewMetadata {
        self.metadata
    }

    /// What holds of every published view.
    pub open spec fn wf(&self) -> bool {
        &&& self.spec_image().wf()
        &&& self.model() == self.spec_image().model()
        &&& self.model().all_supported()
        &&& describes(self.model(), self.spec_metadata())
    }

    /// Gives all tables back to their source. The view is of no further use.
    pub fn give_back(&mut self)
        ensures
            page::at_large(final(self).spec_image().table_source()) == old(
                self,
            ).spec_image().missing(),
            final(self).spec_image().hierarchy().pages.len() == 0,
    {
        self.image.give_back();
    }

    pub fn new(id: ViewId, image: ViewImage<A>, metadata: ViewMetadata) -> (view: Self)
        requires
            image.wf(),
            image.model().all_supported(),
            describes(image.model(), metadata),
        ensures
            view.wf(),
            view.spec_id() == id,
            view.spec_image() == image,
            view.model() == image.model(),
            view.spec_metadata() == metadata,
    {
        PublishedView { id, image, metadata }
    }

    #[verifier::when_used_as_spec(spec_id)]
    pub fn id(&self) -> (id: ViewId)
        ensures
            id == self.spec_id(),
    {
        self.id
    }

    #[verifier::when_used_as_spec(spec_metadata)]
    pub fn metadata(&self) -> (metadata: ViewMetadata)
        ensures
            metadata == self.spec_metadata(),
    {
        self.metadata
    }

    pub fn walk(&self, gpa: GuestPhysicalAddress) -> (result: WalkResult)
        requires
            self.wf(),
        ensures
            result == self.model().walk(gpa),
    {
        self.image.walk(gpa)
    }

    pub fn eptp(&self) -> (pointer: u64)
        ensures
            pointer == self.model().eptp(),
    {
        self.image.eptp()
    }

    pub fn aperture_end(&self) -> (aperture_end: u64)
        ensures
            aperture_end == self.model().aperture_end,
    {
        self.image.aperture_end()
    }

    pub fn image(&self) -> (image: &ViewImage<A>)
        ensures
            *image == self.spec_image(),
    {
        &self.image
    }
}

} // verus!
