//! Extended page tables: construction, validation and view management.

use vstd::prelude::*;

pub mod account;
pub mod address;
pub mod apart;
pub mod backing;
pub mod builder;
pub mod entry;
pub mod handles;
pub mod inventory;
pub mod manager;
pub mod mtrr;
pub mod page;
pub mod passing;
pub mod permanence;
pub mod registers;
pub mod scan;
pub mod tree;
pub mod view;
pub mod walker;
pub mod words;

pub use address::{
    AddressErrorDetail, EptPermissions, GpaRange, GuestPhysicalAddress, HostPhysicalAddress,
    PageCount, PageOffset, PAGE_SIZE_4K,
};
pub use backing::{
    BackingId, BackingPageReference, BackingRegistry, BackingState, MAX_BACKING_PAGES,
};
pub use builder::{build_base_view, BaseViewCandidate, VerifiedBaseView};
pub use entry::{
    DecodedEptEntry, EptEntryError, EptLeafSize, EptLevel, EptMemoryType, EptPdEntry, EptPdptEntry,
    EptPml4Entry, EptPtEntry,
};
pub use inventory::{
    InventoryInterval, PhysicalInventory, PhysicalRange, PhysicalRangeKind, RequiredPhysicalRange,
};
pub use manager::EptViewManager;
pub use mtrr::{
    collect_raw_mtrr_state, normalize_mtrrs, MemoryTypeInterval, NormalizedMemoryMap, RawMtrrState,
    RawVariableMtrr,
};
pub use page::{EptPageAllocator, EptPageKind, EptPageOwner, EptPageStore, EptTablePage};
pub use view::{
    BackingMemoryType, DraftEdit, DraftId, PublishedView, ViewId, ViewImage, ViewMetadata,
    MAX_BATCH_EDITS, MAX_DRAFT_VIEWS, MAX_PUBLISHED_VIEWS,
};
pub use walker::{walk_view, MappingSource, ResolvedMapping, WalkResult};

verus! {

} // verus!
