//! Pages that hold tables, and the store that owns them.

use vstd::prelude::*;

use super::address;
use super::address::HostPhysicalAddress;
use crate::bits;
use crate::error::{ErrorCode, ErrorPhase, MonadError, MonadResult};

verus! {

broadcast use super::address::group_host_addresses;

/// The level of the hierarchy that a table page serves.
#[derive(Debug, Clone, Copy, PartialEq, Eq, Structural)]
pub enum EptPageKind {
    Pml4,
    Pdpt,
    Pd,
    Pt,
}

impl EptPageKind {
    pub open spec fn spec_code(self) -> u8 {
        match self {
            EptPageKind::Pml4 => 1,
            EptPageKind::Pdpt => 2,
            EptPageKind::Pd => 3,
            EptPageKind::Pt => 4,
        }
    }

    #[verifier::when_used_as_spec(spec_code)]
    pub fn code(self) -> (code: u8)
        ensures
            code == self.spec_code(),
    {
        match self {
            EptPageKind::Pml4 => 1,
            EptPageKind::Pdpt => 2,
            EptPageKind::Pd => 3,
            EptPageKind::Pt => 4,
        }
    }
}

/// What a table page belongs to.
#[derive(Debug, Clone, Copy, PartialEq, Eq, Structural)]
pub enum EptPageOwner {
    BaseBuild,
    Draft,
    Published,
}

impl EptPageOwner {
    pub open spec fn spec_code(self) -> u8 {
        match self {
            EptPageOwner::BaseBuild => 1,
            EptPageOwner::Draft => 2,
            EptPageOwner::Published => 3,
        }
    }

    #[verifier::when_used_as_spec(spec_code)]
    pub fn code(self) -> (code: u8)
        ensures
            code == self.spec_code(),
    {
        match self {
            EptPageOwner::BaseBuild => 1,
            EptPageOwner::Draft => 2,
            EptPageOwner::Published => 3,
        }
    }
}

/// The contents of one table page.
pub struct EptTablePage {
    pub entries: [u64; 512],
}

impl EptTablePage {
    /// The page in which every entry is absent.
    pub fn zeroed() -> (page: Self)
        ensures
            page.entries@ == zero_entries(),
    {
        let page = EptTablePage { entries: [0;512] };
        assert(page.entries@ =~= zero_entries());
        page
    }
}

/// The entries of a table in which nothing is mapped.
pub open spec fn zero_entries() -> Seq<u64> {
    Seq::new(512, |i: int| 0u64)
}

/// What went to a source of pages or came from it, in order.
pub type PageLog<T> = Seq<T>;

/// A source of physical pages.
///
/// An allocation owns its page: it is one table of 512 entries, or one run of
/// 4096 bytes, and the page goes back to its source when the allocation is
/// handed to `free_page`.
pub trait EptPageAllocator: Sized {
    type Allocation;

    /// The entries in an allocated page.
    spec fn table(allocation: Self::Allocation) -> [u64; 512];

    /// The bytes in an allocated page.
    spec fn octets(allocation: Self::Allocation) -> [u8; 4096];

    /// The errors with which the source may refuse a page.
    spec fn refuses(error: MonadError) -> bool;

    /// The address of an allocated page.
    spec fn lies_at(allocation: Self::Allocation) -> u64;

    /// What `allocate_page` came to so far: the address of a page, or a refusal.
    spec fn asked(&self) -> PageLog<MonadResult<u64>>;

    /// The pages that were handed to `free_page` so far.
    spec fn returned(&self) -> PageLog<Self::Allocation>;

    /// Hands out a zeroed page that lies below the physical width, or refuses.
    fn allocate_page(&mut self, max_physical_bits: u8) -> (result: MonadResult<
        (Self::Allocation, HostPhysicalAddress),
    >)
        ensures
            result matches Ok(page) ==> {
                &&& Self::table(page.0)@ == zero_entries()
                &&& Self::lies_at(page.0) == page.1.get()
                &&& address::host_mapping_fault(page.1.get(), 0x1000, 0x1000, max_physical_bits)
                    is None
            },
            result matches Err(error) ==> Self::refuses(error),
            final(self).returned() == old(self).returned(),
            final(self).asked() == old(self).asked().push(
                match result {
                    Ok(page) => Ok(page.1.get()),
                    Err(error) => Err(error),
                },
            ),
    ;

    fn entries(allocation: &Self::Allocation) -> (entries: &[u64; 512])
        ensures
            *entries == Self::table(*allocation),
    ;

    fn entries_mut(allocation: &mut Self::Allocation) -> (entries: &mut [u64; 512])
        ensures
            *entries == Self::table(*old(allocation)),
            *final(entries) == Self::table(*final(allocation)),
            Self::lies_at(*final(allocation)) == Self::lies_at(*old(allocation)),
    ;

    fn bytes(allocation: &Self::Allocation) -> (bytes: &[u8; 4096])
        ensures
            *bytes == Self::octets(*allocation),
    ;

    fn bytes_mut(allocation: &mut Self::Allocation) -> (bytes: &mut [u8; 4096])
        ensures
            *bytes == Self::octets(*old(allocation)),
            *final(bytes) == Self::octets(*final(allocation)),
            Self::lies_at(*final(allocation)) == Self::lies_at(*old(allocation)),
    ;

    /// Takes a page back.
    fn free_page(&mut self, allocation: Self::Allocation)
        ensures
            final(self).returned() == old(self).returned().push(allocation),
            final(self).asked() == old(self).asked(),
    ;
}

/// How often a number stands in a sequence.
pub open spec fn times(numbers: Seq<u64>, number: u64) -> nat
    decreases numbers.len(),
{
    if numbers.len() == 0 {
        0
    } else {
        times(numbers.drop_last(), number) + if numbers.last() == number {
            1nat
        } else {
            0nat
        }
    }
}

/// How often a source handed out the page at an address.
pub open spec fn times_given(asked: PageLog<MonadResult<u64>>, address: u64) -> nat
    decreases asked.len(),
{
    if asked.len() == 0 {
        0
    } else {
        times_given(asked.drop_last(), address) + if asked.last() == Ok::<u64, MonadError>(
            address,
        ) {
            1nat
        } else {
            0nat
        }
    }
}

/// The addresses of allocated pages.
pub open spec fn places<A: EptPageAllocator>(pages: Seq<A::Allocation>) -> Seq<u64> {
    pages.map_values(|page: A::Allocation| A::lies_at(page))
}

/// How often each page was handed out by a source and did not come back.
pub open spec fn at_large<A: EptPageAllocator>(source: A) -> Map<u64, int> {
    Map::new(
        |address: u64| true,
        |address: u64|
            times_given(source.asked(), address) - times(places::<A>(source.returned()), address),
    )
}

/// One number more in a sequence.
proof fn lemma_times_push(numbers: Seq<u64>, last: u64)
    ensures
        forall|number: u64| #[trigger]
            times(numbers.push(last), number) == times(numbers, number) + if last == number {
                1int
            } else {
                0
            },
{
    assert(numbers.push(last).drop_last() =~= numbers);
}

/// One answer more from a source.
proof fn lemma_given_push(asked: PageLog<MonadResult<u64>>, last: MonadResult<u64>)
    ensures
        forall|address: u64| #[trigger]
            times_given(asked.push(last), address) == times_given(asked, address) + if last == Ok::<
                u64,
                MonadError,
            >(address) {
                1int
            } else {
                0
            },
{
    assert(asked.push(last).drop_last() =~= asked);
}

/// One page more that came back.
proof fn lemma_places_push<A: EptPageAllocator>(pages: Seq<A::Allocation>, last: A::Allocation)
    ensures
        places::<A>(pages.push(last)) == places::<A>(pages).push(A::lies_at(last)),
{
    assert(places::<A>(pages.push(last)) =~= places::<A>(pages).push(A::lies_at(last)));
}

/// Whether a source was asked for pages until it refused one, and then got back
/// all that it had given, the last first.
pub open spec fn all_given_back<A: EptPageAllocator>(
    asked: PageLog<MonadResult<u64>>,
    asked_after: PageLog<MonadResult<u64>>,
    returned: PageLog<A::Allocation>,
    returned_after: PageLog<A::Allocation>,
    error: MonadError,
) -> bool {
    let taken = asked_after.len() - asked.len() - 1;
    &&& taken >= 0
    &&& asked.is_prefix_of(asked_after)
    &&& asked_after.last() == Err::<u64, MonadError>(error)
    &&& returned.is_prefix_of(returned_after)
    &&& returned_after.len() == returned.len() + taken
    &&& forall|k: int|
        0 <= k < taken ==> #[trigger] asked_after[asked.len() + k] == Ok::<u64, MonadError>(
            A::lies_at(returned_after[returned.len() + taken - 1 - k]),
        )
}

/// Whether an error says that pages, or memory to keep track of them, were not
/// to be had: the source refused, or handed out a page twice, or memory was
/// short. During which operation of a batch makes no difference.
pub open spec fn shortage<A: EptPageAllocator>(error: MonadError) -> bool {
    ||| exists|index: u32| #[trigger] refused_at::<A>(error, index)
    ||| seen_as(error, ErrorPhase::DraftEdit, ErrorCode::AllocationFailure)
    ||| seen_as(error, ErrorPhase::EptBuild, ErrorCode::EptAllocationFailure) && exists|
        kind: EptPageKind,
    |
        error.detail == #[trigger] kind.spec_code()
    ||| seen_as(error, ErrorPhase::EptBuild, ErrorCode::EptVerificationFailure) && error.detail
        % 0x1000 == 0
}

/// Whether an error has a phase and a code, and was seen on no processor.
pub open spec fn seen_as(error: MonadError, phase: ErrorPhase, code: ErrorCode) -> bool {
    error == (MonadError {
        operation_index: error.operation_index,
        ..MonadError::new(phase, code, error.detail)
    })
}

/// Whether the source may refuse with an error, seen during an operation.
pub open spec fn refused_at<A: EptPageAllocator>(error: MonadError, index: u32) -> bool {
    A::refuses(MonadError { operation_index: index, ..error })
}

/// What the source refuses with is a shortage.
pub proof fn lemma_refusal<A: EptPageAllocator>(error: MonadError)
    requires
        A::refuses(error),
    ensures
        shortage::<A>(error),
{
    assert(refused_at::<A>(error, error.operation_index));
}

/// A shortage is one during every operation.
pub proof fn lemma_shortage_during<A: EptPageAllocator>(error: MonadError, index: u32)
    requires
        shortage::<A>(error),
    ensures
        shortage::<A>(MonadError { operation_index: index, ..error }),
{
    if exists|seen: u32| #[trigger] refused_at::<A>(error, seen) {
        let seen = choose|seen: u32| #[trigger] refused_at::<A>(error, seen);
        assert(refused_at::<A>(MonadError { operation_index: index, ..error }, seen));
    }
}

/// The last byte that a page may hold, where pages may be asked for: only at
/// the lowest level, and below a width that page tables can reach.
pub fn page_ceiling(irql: u8, max_physical_bits: u8) -> (result: MonadResult<u64>)
    ensures
        result == if irql != 0 {
            Err::<u64, MonadError>(
                MonadError::new(ErrorPhase::EptBuild, ErrorCode::InvalidLifecycleState, 0),
            )
        } else if !(12 <= max_physical_bits <= 48) {
            Err(
                MonadError::new(
                    ErrorPhase::EptBuild,
                    ErrorCode::PhysicalAddressTooWide,
                    max_physical_bits as u64,
                ),
            )
        } else {
            Ok((bits::width_limit(max_physical_bits) - 1) as u64)
        },
{
    if irql != 0 {
        return Err(MonadError::new(ErrorPhase::EptBuild, ErrorCode::InvalidLifecycleState, 0));
    }
    if max_physical_bits < 12 || max_physical_bits > 48 {
        return Err(
            MonadError::new(
                ErrorPhase::EptBuild,
                ErrorCode::PhysicalAddressTooWide,
                max_physical_bits as u64,
            ),
        );
    }
    proof {
        bits::lemma_width_limit(max_physical_bits);
    }
    let limit: u64 = 1u64 << (max_physical_bits as u64);
    Ok(limit - 1)
}

/// The address of a page that the operating system handed out, where the page
/// lies on a page boundary and below the width.
pub fn admit_page(virtual_address: usize, physical: u64, max_physical_bits: u8) -> (result:
    MonadResult<HostPhysicalAddress>)
    ensures
        result == if virtual_address % 0x1000 == 0 && address::host_mapping_fault(
            physical,
            0x1000,
            0x1000,
            max_physical_bits,
        ) is None {
            Ok::<HostPhysicalAddress, MonadError>(HostPhysicalAddress::at(physical))
        } else {
            Err(MonadError::new(ErrorPhase::EptBuild, ErrorCode::MisalignedAddress, physical))
        },
{
    match HostPhysicalAddress::for_mapping(physical, 0x1000, 0x1000, max_physical_bits) {
        Ok(hpa) => {
            if virtual_address % 0x1000 == 0 {
                return Ok(hpa);
            }
        },
        Err(_) => {},
    }
    Err(MonadError::new(ErrorPhase::EptBuild, ErrorCode::MisalignedAddress, physical))
}

struct OwnedTablePage<T> {
    allocation: T,
    hpa: HostPhysicalAddress,
    kind: EptPageKind,
    owner: EptPageOwner,
}

/// One table page as contracts see it.
pub struct TablePage {
    pub hpa: u64,
    pub kind: EptPageKind,
    pub owner: EptPageOwner,
    pub entries: Seq<u64>,
}

/// Whether a page stands at `hpa`.
pub open spec fn has_page(pages: Seq<TablePage>, hpa: u64) -> bool {
    exists|i: int| 0 <= i < pages.len() && #[trigger] pages[i].hpa == hpa
}

/// The position of the page at `hpa`.
pub open spec fn page_index(pages: Seq<TablePage>, hpa: u64) -> int {
    choose|i: int| 0 <= i < pages.len() && #[trigger] pages[i].hpa == hpa
}

/// The page at `hpa`.
pub open spec fn page_of(pages: Seq<TablePage>, hpa: u64) -> TablePage {
    pages[page_index(pages, hpa)]
}

/// No two pages share an address, each can be pointed to, and each is whole.
pub open spec fn distinct_pages(pages: Seq<TablePage>, max_physical_bits: u8) -> bool {
    &&& forall|i: int, j: int|
        0 <= i < j < pages.len() ==> (#[trigger] pages[i]).hpa != (#[trigger] pages[j]).hpa
    &&& forall|i: int|
        0 <= i < pages.len() ==> {
            &&& (#[trigger] pages[i]).entries.len() == 512
            &&& super::entry::table_fault(HostPhysicalAddress::at(pages[i].hpa), max_physical_bits)
                is None
        }
}

/// The pages after one entry of the page at position `i` was written.
pub open spec fn with_entry(pages: Seq<TablePage>, i: int, index: int, raw: u64) -> Seq<TablePage> {
    pages.update(i, TablePage { entries: pages[i].entries.update(index, raw), ..pages[i] })
}

/// The pages after every page got a new owner.
pub open spec fn with_owner(pages: Seq<TablePage>, owner: EptPageOwner) -> Seq<TablePage> {
    pages.map_values(|page: TablePage| TablePage { owner, ..page })
}

/// A page is found at the one position that holds its address.
pub proof fn lemma_page_index(pages: Seq<TablePage>, max_physical_bits: u8, i: int)
    requires
        distinct_pages(pages, max_physical_bits),
        0 <= i < pages.len(),
    ensures
        has_page(pages, pages[i].hpa),
        page_index(pages, pages[i].hpa) == i,
        page_of(pages, pages[i].hpa) == pages[i],
{
    let k = page_index(pages, pages[i].hpa);
    assert(0 <= k < pages.len() && pages[k].hpa == pages[i].hpa);
    if k < i {
        assert(pages[k].hpa != pages[i].hpa);
    } else if i < k {
        assert(pages[i].hpa != pages[k].hpa);
    }
}

/// Writing an entry changes that entry of that page and nothing else.
pub proof fn lemma_with_entry(
    pages: Seq<TablePage>,
    max_physical_bits: u8,
    i: int,
    index: int,
    raw: u64,
)
    requires
        distinct_pages(pages, max_physical_bits),
        0 <= i < pages.len(),
        0 <= index < 512,
    ensures
        distinct_pages(with_entry(pages, i, index, raw), max_physical_bits),
        forall|hpa: u64| #[trigger]
            has_page(with_entry(pages, i, index, raw), hpa) == has_page(pages, hpa),
        forall|hpa: u64|
            has_page(pages, hpa) ==> #[trigger] page_of(with_entry(pages, i, index, raw), hpa) == (
            if hpa == pages[i].hpa {
                TablePage { entries: pages[i].entries.update(index, raw), ..pages[i] }
            } else {
                page_of(pages, hpa)
            }),
{
    let after = with_entry(pages, i, index, raw);
    assert forall|a: int, b: int| 0 <= a < b < after.len() implies (#[trigger] after[a]).hpa != (
    #[trigger] after[b]).hpa by {
        assert(pages[a].hpa != pages[b].hpa);
    }
    assert forall|a: int| 0 <= a < after.len() implies {
        &&& (#[trigger] after[a]).entries.len() == 512
        &&& super::entry::table_fault(HostPhysicalAddress::at(after[a].hpa), max_physical_bits) is None
    } by {
        assert(pages[a].entries.len() == 512);
    }
    assert forall|hpa: u64| #[trigger] has_page(after, hpa) == has_page(pages, hpa) by {
        if has_page(pages, hpa) {
            let k = page_index(pages, hpa);
            assert(after[k].hpa == hpa);
        }
        if has_page(after, hpa) {
            let k = page_index(after, hpa);
            assert(pages[k].hpa == hpa);
        }
    }
    assert forall|hpa: u64| has_page(pages, hpa) implies #[trigger] page_of(after, hpa) == (if hpa
        == pages[i].hpa {
        TablePage { entries: pages[i].entries.update(index, raw), ..pages[i] }
    } else {
        page_of(pages, hpa)
    }) by {
        let k = page_index(pages, hpa);
        assert(pages[k].hpa == hpa);
        assert(after[k].hpa == hpa);
        lemma_page_index(after, max_physical_bits, k);
        lemma_page_index(pages, max_physical_bits, i);
    }
}

/// Adding a page at a new address leaves the other pages as they were.
pub proof fn lemma_push_page(pages: Seq<TablePage>, max_physical_bits: u8, page: TablePage)
    requires
        distinct_pages(pages, max_physical_bits),
        !has_page(pages, page.hpa),
        page.entries.len() == 512,
        super::entry::table_fault(HostPhysicalAddress::at(page.hpa), max_physical_bits) is None,
    ensures
        distinct_pages(pages.push(page), max_physical_bits),
        forall|hpa: u64| #[trigger]
            has_page(pages.push(page), hpa) == (has_page(pages, hpa) || hpa == page.hpa),
        forall|hpa: u64|
            has_page(pages, hpa) ==> #[trigger] page_of(pages.push(page), hpa) == page_of(
                pages,
                hpa,
            ),
        page_of(pages.push(page), page.hpa) == page,
{
    let after = pages.push(page);
    assert forall|a: int, b: int| 0 <= a < b < after.len() implies (#[trigger] after[a]).hpa != (
    #[trigger] after[b]).hpa by {
        assert(after[a] == pages[a]);
        if b < pages.len() {
            assert(after[b] == pages[b]);
        }
    }
    assert forall|hpa: u64| #[trigger] has_page(after, hpa) == (has_page(pages, hpa) || hpa
        == page.hpa) by {
        if has_page(pages, hpa) {
            let k = page_index(pages, hpa);
            assert(after[k].hpa == hpa);
        }
        if hpa == page.hpa {
            assert(after[pages.len() as int].hpa == hpa);
        }
        if has_page(after, hpa) {
            let k = page_index(after, hpa);
            if k < pages.len() {
                assert(pages[k].hpa == hpa);
            }
        }
    }
    assert forall|hpa: u64| has_page(pages, hpa) implies #[trigger] page_of(after, hpa) == page_of(
        pages,
        hpa,
    ) by {
        let k = page_index(pages, hpa);
        assert(after[k].hpa == hpa);
        lemma_page_index(after, max_physical_bits, k);
    }
    lemma_page_index(after, max_physical_bits, pages.len() as int);
}

/// A new owner changes nothing but the owner.
pub proof fn lemma_with_owner(pages: Seq<TablePage>, max_physical_bits: u8, owner: EptPageOwner)
    requires
        distinct_pages(pages, max_physical_bits),
    ensures
        distinct_pages(with_owner(pages, owner), max_physical_bits),
        forall|hpa: u64| #[trigger] has_page(with_owner(pages, owner), hpa) == has_page(pages, hpa),
        forall|hpa: u64|
            has_page(pages, hpa) ==> #[trigger] page_of(with_owner(pages, owner), hpa) == (
            TablePage { owner, ..page_of(pages, hpa) }),
{
    let after = with_owner(pages, owner);
    assert forall|a: int, b: int| 0 <= a < b < after.len() implies (#[trigger] after[a]).hpa != (
    #[trigger] after[b]).hpa by {
        assert(pages[a].hpa != pages[b].hpa);
    }
    assert forall|a: int| 0 <= a < after.len() implies {
        &&& (#[trigger] after[a]).entries.len() == 512
        &&& super::entry::table_fault(HostPhysicalAddress::at(after[a].hpa), max_physical_bits) is None
    } by {
        assert(pages[a].entries.len() == 512);
    }
    assert forall|hpa: u64| #[trigger] has_page(after, hpa) == has_page(pages, hpa) by {
        if has_page(pages, hpa) {
            let k = page_index(pages, hpa);
            assert(after[k].hpa == hpa);
        }
        if has_page(after, hpa) {
            let k = page_index(after, hpa);
            assert(pages[k].hpa == hpa);
        }
    }
    assert forall|hpa: u64| has_page(pages, hpa) implies #[trigger] page_of(after, hpa) == (
    TablePage { owner, ..page_of(pages, hpa) }) by {
        let k = page_index(pages, hpa);
        assert(after[k].hpa == hpa);
        lemma_page_index(after, max_physical_bits, k);
    }
}

/// Where table pages lie.
spec fn held_places<A: EptPageAllocator>(pages: Seq<OwnedTablePage<A::Allocation>>) -> Seq<u64> {
    pages.map_values(|page: OwnedTablePage<A::Allocation>| A::lies_at(page.allocation))
}

/// The table pages of one view.
///
/// A store that is not needed any more is released, so that its pages go back
/// to their source.
pub struct EptPageStore<A: EptPageAllocator> {
    allocator: A,
    pages: Vec<OwnedTablePage<A::Allocation>>,
    max_physical_bits: u8,
}

impl<A: EptPageAllocator> EptPageStore<A> {
    /// The pages, in the order in which they were allocated.
    pub closed spec fn view(&self) -> Seq<TablePage> {
        self.pages@.map_values(
            |page: OwnedTablePage<A::Allocation>|
                TablePage {
                    hpa: page.hpa.get(),
                    kind: page.kind,
                    owner: page.owner,
                    entries: A::table(page.allocation)@,
                },
        )
    }

    /// Where the pages of the store lie, in the order of their allocation.
    spec fn holds(&self) -> Seq<u64> {
        held_places::<A>(self.pages@)
    }

    /// How often each page was handed out by the store's source, did not come
    /// back, and is not held by the store.
    pub closed spec fn missing(&self) -> Map<u64, int> {
        Map::new(
            |address: u64| true,
            |address: u64| at_large(self.allocator)[address] - times(self.holds(), address),
        )
    }

    /// The physical width for which the store allocates.
    pub closed spec fn width(&self) -> u8 {
        self.max_physical_bits
    }

    /// The store's invariant.
    pub open spec fn wf(&self) -> bool {
        &&& super::entry::supported_width(self.width())
        &&& distinct_pages(self.view(), self.width())
    }

    /// An empty store; only supported physical widths have one.
    pub fn new(allocator: A, max_physical_bits: u8) -> (result: MonadResult<Self>)
        ensures
            match result {
                Ok(store) => {
                    &&& super::entry::supported_width(max_physical_bits)
                    &&& store.wf()
                    &&& store.width() == max_physical_bits
                    &&& store.view() == Seq::<TablePage>::empty()
                    &&& store.source() == allocator
                    &&& store.missing() == at_large(allocator)
                },
                Err(error) => {
                    &&& !super::entry::supported_width(max_physical_bits)
                    &&& error == MonadError::new(
                        ErrorPhase::EptBuild,
                        ErrorCode::PhysicalAddressTooWide,
                        max_physical_bits as u64,
                    )
                },
            },
    {
        if max_physical_bits < 12 || max_physical_bits > 48 {
            return Err(
                MonadError::new(
                    ErrorPhase::EptBuild,
                    ErrorCode::PhysicalAddressTooWide,
                    max_physical_bits as u64,
                ),
            );
        }
        let store = Self { allocator, pages: Vec::new(), max_physical_bits };
        assert(store.view() =~= Seq::<TablePage>::empty());
        assert(store.missing() =~= at_large(allocator));
        Ok(store)
    }

    /// Adds one zeroed table page. On failure the pages stay as they were; a
    /// page that the source hands out twice is refused.
    pub fn allocate(&mut self, kind: EptPageKind, owner: EptPageOwner) -> (result: MonadResult<
        HostPhysicalAddress,
    >)
        requires
            old(self).wf(),
        ensures
            final(self).wf(),
            final(self).width() == old(self).width(),
            final(self).missing() == old(self).missing(),
            match result {
                Ok(hpa) => {
                    &&& !has_page(old(self).view(), hpa.get())
                    &&& super::entry::table_fault(hpa, old(self).width()) is None
                    &&& final(self).view() == old(self).view().push(
                        TablePage { hpa: hpa.get(), kind, owner, entries: zero_entries() },
                    )
                },
                Err(error) => {
                    &&& final(self).view() == old(self).view()
                    &&& shortage::<A>(error)
                    &&& {
                        ||| A::refuses(error)
                        ||| error == MonadError::new(
                            ErrorPhase::EptBuild,
                            ErrorCode::EptAllocationFailure,
                            kind.spec_code() as u64,
                        )
                        ||| has_page(old(self).view(), error.detail) && error == MonadError::new(
                            ErrorPhase::EptBuild,
                            ErrorCode::EptVerificationFailure,
                            error.detail,
                        )
                    }
                },
            },
    {
        let reserved = self.pages.try_reserve(1);
        if reserved.is_err() {
            return Err(
                MonadError::new(
                    ErrorPhase::EptBuild,
                    ErrorCode::EptAllocationFailure,
                    kind.code() as u64,
                ),
            );
        }
        let (allocation, hpa) = match self.allocator.allocate_page(self.max_physical_bits) {
            Ok(page) => page,
            Err(error) => {
                proof {
                    lemma_refusal::<A>(error);
                    lemma_given_push(old(self).allocator.asked(), Err(error));
                    assert(self.missing() =~= old(self).missing());
                }
                assert(self.view() =~= old(self).view());
                return Err(error);
            },
        };
        assert(self.view() =~= old(self).view());
        proof {
            lemma_given_push(old(self).allocator.asked(), Ok(hpa.get()));
        }
        match self.find_index(hpa) {
            Some(_) => {
                proof {
                    crate::bits::lemma_low_masks(hpa.get());
                }
                let ghost back = self.allocator.returned();
                self.allocator.free_page(allocation);
                assert(self.view() =~= old(self).view());
                proof {
                    lemma_places_push::<A>(back, allocation);
                    lemma_times_push(places::<A>(back), hpa.get());
                    assert(self.missing() =~= old(self).missing());
                }
                Err(
                    MonadError::new(
                        ErrorPhase::EptBuild,
                        ErrorCode::EptVerificationFailure,
                        hpa.get(),
                    ),
                )
            },
            None => {
                proof {
                    crate::bits::lemma_low_masks(hpa.get());
                    crate::bits::lemma_width_limit(self.max_physical_bits);
                    lemma_push_page(
                        self.view(),
                        self.max_physical_bits,
                        TablePage { hpa: hpa.get(), kind, owner, entries: zero_entries() },
                    );
                }
                self.pages.push(OwnedTablePage { allocation, hpa, kind, owner });
                proof {
                    assert(self.holds() =~= old(self).holds().push(hpa.get()));
                    lemma_times_push(old(self).holds(), hpa.get());
                    assert(self.missing() =~= old(self).missing());
                }
                assert(self.view() =~= old(self).view().push(
                    TablePage { hpa: hpa.get(), kind, owner, entries: zero_entries() },
                ));
                Ok(hpa)
            },
        }
    }

    fn find_index(&self, hpa: HostPhysicalAddress) -> (found: Option<usize>)
        requires
            self.wf(),
        ensures
            match found {
                Some(i) => {
                    &&& i < self.view().len()
                    &&& self.view()[i as int].hpa == hpa.get()
                    &&& has_page(self.view(), hpa.get())
                    &&& page_index(self.view(), hpa.get()) == i
                },
                None => !has_page(self.view(), hpa.get()),
            },
    {
        let mut i: usize = 0;
        while i < self.pages.len()
            invariant
                i <= self.pages@.len(),
                self.wf(),
                forall|k: int| 0 <= k < i ==> (#[trigger] self.view()[k]).hpa != hpa.get(),
            decreases self.pages@.len() - i,
        {
            if self.pages[i].hpa == hpa {
                proof {
                    assert(self.view()[i as int].hpa == hpa.get());
                    lemma_page_index(self.view(), self.max_physical_bits, i as int);
                }
                return Some(i);
            }
            i += 1;
        }
        None
    }

    /// The page at an address.
    pub fn page(&self, hpa: HostPhysicalAddress) -> (found: Option<
        (EptPageKind, EptPageOwner, &[u64; 512]),
    >)
        requires
            self.wf(),
        ensures
            match found {
                Some((kind, owner, entries)) => {
                    &&& has_page(self.view(), hpa.get())
                    &&& page_of(self.view(), hpa.get()) == (TablePage {
                        hpa: hpa.get(),
                        kind,
                        owner,
                        entries: entries@,
                    })
                },
                None => !has_page(self.view(), hpa.get()),
            },
    {
        match self.find_index(hpa) {
            Some(i) => {
                let page = &self.pages[i];
                assert(self.view()[i as int] == page_of(self.view(), hpa.get()));
                Some((page.kind, page.owner, A::entries(&page.allocation)))
            },
            None => None,
        }
    }

    /// One entry of the page at an address.
    pub fn read_entry(&self, hpa: HostPhysicalAddress, index: usize) -> (result: MonadResult<u64>)
        requires
            self.wf(),
        ensures
            result == if !has_page(self.view(), hpa.get()) {
                Err::<u64, MonadError>(
                    MonadError::new(
                        ErrorPhase::EptBuild,
                        ErrorCode::EptVerificationFailure,
                        hpa.get(),
                    ),
                )
            } else if index >= 512 {
                Err(MonadError::new(ErrorPhase::EptBuild, ErrorCode::InvalidRange, index as u64))
            } else {
                Ok(page_of(self.view(), hpa.get()).entries[index as int])
            },
    {
        match self.page(hpa) {
            Some((_, _, entries)) => {
                if index >= 512 {
                    return Err(
                        MonadError::new(
                            ErrorPhase::EptBuild,
                            ErrorCode::InvalidRange,
                            index as u64,
                        ),
                    );
                }
                Ok(entries[index])
            },
            None => Err(
                MonadError::new(
                    ErrorPhase::EptBuild,
                    ErrorCode::EptVerificationFailure,
                    hpa.get(),
                ),
            ),
        }
    }

    /// Replaces one entry of the page at an address.
    pub fn write_entry(&mut self, hpa: HostPhysicalAddress, index: usize, raw: u64) -> (result:
        MonadResult<()>)
        requires
            old(self).wf(),
        ensures
            final(self).wf(),
            final(self).width() == old(self).width(),
            final(self).missing() == old(self).missing(),
            result == if !has_page(old(self).view(), hpa.get()) {
                Err::<(), MonadError>(
                    MonadError::new(
                        ErrorPhase::EptBuild,
                        ErrorCode::EptVerificationFailure,
                        hpa.get(),
                    ),
                )
            } else if index >= 512 {
                Err(MonadError::new(ErrorPhase::EptBuild, ErrorCode::InvalidRange, index as u64))
            } else {
                Ok(())
            },
            final(self).view() == if result is Ok {
                with_entry(
                    old(self).view(),
                    page_index(old(self).view(), hpa.get()),
                    index as int,
                    raw,
                )
            } else {
                old(self).view()
            },
    {
        match self.find_index(hpa) {
            Some(i) => {
                if index >= 512 {
                    return Err(
                        MonadError::new(
                            ErrorPhase::EptBuild,
                            ErrorCode::InvalidRange,
                            index as u64,
                        ),
                    );
                }
                proof {
                    lemma_with_entry(
                        self.view(),
                        self.max_physical_bits,
                        i as int,
                        index as int,
                        raw,
                    );
                }
                let entries = A::entries_mut(&mut self.pages[i].allocation);
                entries[index] = raw;
                assert(self.holds() =~= old(self).holds());
                assert(self.view() =~= with_entry(
                    old(self).view(),
                    i as int,
                    index as int,
                    raw,
                ));
                Ok(())
            },
            None => Err(
                MonadError::new(
                    ErrorPhase::EptBuild,
                    ErrorCode::EptVerificationFailure,
                    hpa.get(),
                ),
            ),
        }
    }

    pub fn len(&self) -> (len: usize)
        ensures
            len == self.view().len(),
    {
        self.pages.len()
    }

    /// The page that was allocated `index` pages after the first.
    pub fn page_at(&self, index: usize) -> (found: Option<
        (HostPhysicalAddress, EptPageKind, EptPageOwner, &[u64; 512]),
    >)
        ensures
            match found {
                Some((hpa, kind, owner, entries)) => {
                    &&& index < self.view().len()
                    &&& self.view()[index as int] == (TablePage {
                        hpa: hpa.get(),
                        kind,
                        owner,
                        entries: entries@,
                    })
                },
                None => index >= self.view().len(),
            },
    {
        if index >= self.pages.len() {
            return None;
        }
        let page = &self.pages[index];
        Some((page.hpa, page.kind, page.owner, A::entries(&page.allocation)))
    }

    /// Hands every page to one owner.
    pub fn set_owner_all(&mut self, owner: EptPageOwner)
        requires
            old(self).wf(),
        ensures
            final(self).wf(),
            final(self).width() == old(self).width(),
            final(self).missing() == old(self).missing(),
            final(self).view() == with_owner(old(self).view(), owner),
    {
        proof {
            lemma_with_owner(self.view(), self.max_physical_bits, owner);
        }
        let ghost before = self.view();
        let mut i: usize = 0;
        while i < self.pages.len()
            invariant
                i <= self.pages@.len(),
                self.max_physical_bits == old(self).max_physical_bits,
                self.allocator == old(self).allocator,
                self.holds() == old(self).holds(),
                self.view().len() == before.len(),
                before == old(self).view(),
                forall|k: int|
                    0 <= k < i ==> #[trigger] self.view()[k] == (TablePage { owner, ..before[k] }),
                forall|k: int| i <= k < before.len() ==> #[trigger] self.view()[k] == before[k],
            decreases self.pages@.len() - i,
        {
            let ghost previous = self.view();
            self.pages[i].owner = owner;
            assert(self.holds() =~= old(self).holds());
            assert(self.view() =~= previous.update(
                i as int,
                TablePage { owner, ..previous[i as int] },
            ));
            i += 1;
        }
        assert(self.view() =~= with_owner(before, owner));
    }

    /// Gives all pages back to their source, the last first.
    pub fn give_back(&mut self)
        ensures
            final(self).view().len() == 0,
            final(self).width() == old(self).width(),
            final(self).missing() == old(self).missing(),
            at_large(final(self).source()) == old(self).missing(),
            final(self).source().asked() == old(self).source().asked(),
    {
        while self.pages.len() > 0
            invariant
                self.max_physical_bits == old(self).max_physical_bits,
                self.allocator.asked() == old(self).allocator.asked(),
                self.missing() == old(self).missing(),
            decreases self.pages@.len(),
        {
            let ghost held = self.holds();
            let ghost back = self.allocator.returned();
            if let Some(page) = self.pages.pop() {
                let ghost place = A::lies_at(page.allocation);
                let ghost allocation = page.allocation;
                self.allocator.free_page(page.allocation);
                proof {
                    assert(held =~= self.holds().push(place));
                    lemma_times_push(self.holds(), place);
                    lemma_places_push::<A>(back, allocation);
                    lemma_times_push(places::<A>(back), place);
                    assert(self.missing() =~= old(self).missing());
                }
            }
        }
        assert(at_large(self.allocator) =~= self.missing());
    }

    /// Gives all pages back to their source, the last first, and hands the
    /// source over.
    pub fn release(self) -> (source: A)
        ensures
            at_large(source) == self.missing(),
            source.asked() == self.source().asked(),
    {
        let mut store = self;
        store.give_back();
        store.allocator
    }
}

impl<A: EptPageAllocator + Clone> EptPageStore<A> {
    /// Another handle to the store's source of pages.
    pub fn allocator_clone(&self) -> (allocator: A)
        ensures
            call_ensures(A::clone, (&self.source(),), allocator),
    {
        self.allocator.clone()
    }
}

impl<A: EptPageAllocator> EptPageStore<A> {
    /// The store's source of pages.
    pub closed spec fn source(&self) -> A {
        self.allocator
    }
}

} // verus!
