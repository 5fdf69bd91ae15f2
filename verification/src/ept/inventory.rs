//! The physical memory that a view must cover, and the aperture around it.

use vstd::prelude::*;

use super::address::PAGE_SIZE_4K;
use crate::bits;
use crate::error::{ErrorCode, ErrorPhase, MonadError, MonadResult};

verus! {

/// What stands behind a physical range.
#[derive(Debug, Clone, Copy, PartialEq, Eq, Structural)]
pub enum PhysicalRangeKind {
    Memory,
    Device,
}

impl PhysicalRangeKind {
    pub open spec fn spec_code(self) -> u8 {
        match self {
            PhysicalRangeKind::Memory => 1,
            PhysicalRangeKind::Device => 2,
        }
    }

    #[verifier::when_used_as_spec(spec_code)]
    pub fn code(self) -> (code: u8)
        ensures
            code == self.spec_code(),
    {
        match self {
            PhysicalRangeKind::Memory => 1,
            PhysicalRangeKind::Device => 2,
        }
    }
}

/// One range that the platform reports.
#[derive(Debug, Clone, Copy, PartialEq, Eq, Structural)]
pub struct PhysicalRange {
    pub start: u64,
    pub length: u64,
    pub kind: PhysicalRangeKind,
}

/// One range that the platform's report must contain.
#[derive(Debug, Clone, Copy, PartialEq, Eq, Structural)]
pub struct RequiredPhysicalRange {
    pub start: u64,
    pub length: u64,
}

/// One run of reported addresses.
#[derive(Debug, Clone, Copy, PartialEq, Eq, Structural)]
pub struct InventoryInterval {
    pub start: u64,
    pub end_exclusive: u64,
}

/// Why an inventory was refused.
#[derive(Debug, Clone, Copy, PartialEq, Eq, Structural)]
pub enum ApertureErrorDetail {
    EmptyInventory,
    ZeroLength,
    RangeOverflow,
    InvalidConfiguredLimit,
    MissingRequiredRange,
    RequiredRangeBeyondLimit,
    RoundingOverflow,
    AllocationFailure,
}

impl ApertureErrorDetail {
    pub open spec fn spec_code(self) -> u64 {
        match self {
            ApertureErrorDetail::EmptyInventory => 1,
            ApertureErrorDetail::ZeroLength => 2,
            ApertureErrorDetail::RangeOverflow => 3,
            ApertureErrorDetail::InvalidConfiguredLimit => 4,
            ApertureErrorDetail::MissingRequiredRange => 5,
            ApertureErrorDetail::RequiredRangeBeyondLimit => 6,
            ApertureErrorDetail::RoundingOverflow => 7,
            ApertureErrorDetail::AllocationFailure => 8,
        }
    }

    #[verifier::when_used_as_spec(spec_code)]
    pub fn code(self) -> (code: u64)
        ensures
            code == self.spec_code(),
    {
        match self {
            ApertureErrorDetail::EmptyInventory => 1,
            ApertureErrorDetail::ZeroLength => 2,
            ApertureErrorDetail::RangeOverflow => 3,
            ApertureErrorDetail::InvalidConfiguredLimit => 4,
            ApertureErrorDetail::MissingRequiredRange => 5,
            ApertureErrorDetail::RequiredRangeBeyondLimit => 6,
            ApertureErrorDetail::RoundingOverflow => 7,
            ApertureErrorDetail::AllocationFailure => 8,
        }
    }
}

/// The error that reports a refused inventory.
pub open spec fn aperture_fault(code: ErrorCode, detail: ApertureErrorDetail) -> MonadError {
    MonadError::new(ErrorPhase::EptBuild, code, detail.spec_code())
}

fn aperture_error(code: ErrorCode, detail: ApertureErrorDetail) -> (error: MonadError)
    ensures
        error == aperture_fault(code, detail),
{
    MonadError::new(ErrorPhase::EptBuild, code, detail.code())
}

/// Whether an interval holds an address.
pub open spec fn holds(interval: InventoryInterval, address: int) -> bool {
    interval.start <= address < interval.end_exclusive
}

/// Whether some interval holds an address.
pub open spec fn held(intervals: Seq<InventoryInterval>, address: int) -> bool {
    exists|i: int| 0 <= i < intervals.len() && holds(#[trigger] intervals[i], address)
}

/// Whether the platform reports an address.
pub open spec fn reported(inventory: Seq<PhysicalRange>, address: int) -> bool {
    exists|i: int|
        0 <= i < inventory.len() && (#[trigger] inventory[i]).start <= address < inventory[i].start
            + inventory[i].length
}

/// Nonempty intervals in ascending order that do not touch.
pub open spec fn separated(intervals: Seq<InventoryInterval>) -> bool {
    &&& forall|i: int|
        0 <= i < intervals.len() ==> (#[trigger] intervals[i]).start < intervals[i].end_exclusive
    &&& forall|i: int, j: int|
        0 <= i < j < intervals.len() ==> (#[trigger] intervals[i]).end_exclusive < (
        #[trigger] intervals[j]).start
}

/// What is wrong with a range in itself.
pub open spec fn range_fault(start: u64, length: u64) -> Option<MonadError> {
    if length == 0 {
        Some(aperture_fault(ErrorCode::InvalidRange, ApertureErrorDetail::ZeroLength))
    } else if start + length > u64::MAX {
        Some(aperture_fault(ErrorCode::AddressOverflow, ApertureErrorDetail::RangeOverflow))
    } else {
        None
    }
}

/// What is wrong with a required range: itself, or that not all of it is
/// reported.
pub open spec fn required_fault(
    inventory: Seq<PhysicalRange>,
    wanted: RequiredPhysicalRange,
) -> Option<MonadError> {
    if range_fault(wanted.start, wanted.length) is Some {
        range_fault(wanted.start, wanted.length)
    } else if exists|address: int|
        wanted.start <= address < wanted.start + wanted.length && !(#[trigger] reported(
            inventory,
            address,
        )) {
        Some(aperture_fault(ErrorCode::InvalidRange, ApertureErrorDetail::MissingRequiredRange))
    } else {
        None
    }
}

/// The inventory's first faulty range stands at `i`.
pub open spec fn first_bad_range(inventory: Seq<PhysicalRange>, i: int) -> bool {
    &&& 0 <= i < inventory.len()
    &&& range_fault(inventory[i].start, inventory[i].length) is Some
    &&& forall|j: int|
        0 <= j < i ==> range_fault((#[trigger] inventory[j]).start, inventory[j].length) is None
}

/// The first faulty required range stands at `i`.
pub open spec fn first_bad_required(
    inventory: Seq<PhysicalRange>,
    required: Seq<RequiredPhysicalRange>,
    i: int,
) -> bool {
    &&& 0 <= i < required.len()
    &&& required_fault(inventory, required[i]) is Some
    &&& forall|j: int| 0 <= j < i ==> required_fault(inventory, #[trigger] required[j]) is None
}

/// The reported range with the highest end ends at `end`.
pub open spec fn highest_end(inventory: Seq<PhysicalRange>, end: int) -> bool {
    &&& exists|i: int|
        0 <= i < inventory.len() && (#[trigger] inventory[i]).start + inventory[i].length == end
    &&& forall|i: int|
        0 <= i < inventory.len() ==> (#[trigger] inventory[i]).start + inventory[i].length <= end
}

/// The first address that tables of this width cannot reach.
pub open spec fn architectural_limit_of(max_physical_bits: u8) -> u64 {
    bits::width_limit(
        if max_physical_bits < 48 {
            max_physical_bits
        } else {
            48
        },
    )
}

/// The limit in force: the configured one, or else the architectural one.
pub open spec fn limit_in_force(max_physical_bits: u8, configured_limit: Option<u64>) -> u64 {
    match configured_limit {
        Some(limit) => limit,
        None => architectural_limit_of(max_physical_bits),
    }
}

/// Whether a limit can end an aperture.
pub open spec fn usable_limit(limit: u64, max_physical_bits: u8) -> bool {
    &&& limit != 0
    &&& limit % 0x1000 == 0
    &&& limit <= architectural_limit_of(max_physical_bits)
}

/// The aperture around memory that ends at `highest`: rounded up to a
/// gigabyte, but never beyond the limit.
pub open spec fn aperture_of(highest: int, limit: u64) -> int {
    let rounded = (highest + 0x3fff_ffff) / 0x4000_0000 * 0x4000_0000;
    if rounded < limit {
        rounded
    } else {
        limit as int
    }
}

/// Whether an error says that there was no memory to join ranges. That shows
/// only once there are ranges, and a width and a limit that can be used.
pub open spec fn inventory_short(
    inventory: Seq<PhysicalRange>,
    max_physical_bits: u8,
    configured_limit: Option<u64>,
    error: MonadError,
) -> bool {
    &&& error == aperture_fault(
        ErrorCode::AllocationFailure,
        ApertureErrorDetail::AllocationFailure,
    )
    &&& inventory.len() > 0
    &&& 0 < max_physical_bits < 64
    &&& usable_limit(limit_in_force(max_physical_bits, configured_limit), max_physical_bits)
}

/// Whether an inventory is refused, and with which error; memory aside.
pub open spec fn inventory_refusal(
    inventory: Seq<PhysicalRange>,
    required: Seq<RequiredPhysicalRange>,
    max_physical_bits: u8,
    configured_limit: Option<u64>,
    error: MonadError,
) -> bool {
    let limit = limit_in_force(max_physical_bits, configured_limit);
    if inventory.len() == 0 {
        error == aperture_fault(ErrorCode::InvalidRange, ApertureErrorDetail::EmptyInventory)
    } else if max_physical_bits == 0 || max_physical_bits >= 64 {
        error == aperture_fault(
            ErrorCode::PhysicalAddressTooWide,
            ApertureErrorDetail::InvalidConfiguredLimit,
        )
    } else if !usable_limit(limit, max_physical_bits) {
        error == aperture_fault(
            ErrorCode::InvalidRange,
            ApertureErrorDetail::InvalidConfiguredLimit,
        )
    } else if exists|i: int| #[trigger] first_bad_range(inventory, i) {
        exists|i: int| #[trigger]
            first_bad_range(inventory, i) && range_fault(inventory[i].start, inventory[i].length)
                == Some(error)
    } else if exists|i: int| #[trigger] first_bad_required(inventory, required, i) {
        exists|i: int| #[trigger]
            first_bad_required(inventory, required, i) && required_fault(inventory, required[i])
                == Some(error)
    } else if exists|end: int| #[trigger] highest_end(inventory, end) && end > limit {
        error == aperture_fault(
            ErrorCode::PhysicalAddressTooWide,
            ApertureErrorDetail::RequiredRangeBeyondLimit,
        )
    } else {
        false
    }
}

/// The physical memory that a view covers.
#[derive(Debug, PartialEq, Eq)]
pub struct PhysicalInventory {
    ranges: Vec<InventoryInterval>,
    aperture_end: u64,
    architectural_limit: u64,
}

impl Clone for PhysicalInventory {
    fn clone(&self) -> (copy: Self)
        ensures
            copy.view() == self.view(),
            copy.spec_aperture_end() == self.spec_aperture_end(),
            copy.spec_architectural_limit() == self.spec_architectural_limit(),
    {
        proof {
            use_type_invariant(self);
        }
        let mut ranges: Vec<InventoryInterval> = Vec::new();
        let mut i: usize = 0;
        while i < self.ranges.len()
            invariant
                i <= self.ranges@.len(),
                ranges@ == self.ranges@.take(i as int),
            decreases self.ranges@.len() - i,
        {
            ranges.push(self.ranges[i]);
            assert(ranges@ =~= self.ranges@.take(i + 1));
            i += 1;
        }
        assert(self.ranges@.take(i as int) =~= self.ranges@);
        PhysicalInventory {
            ranges,
            aperture_end: self.aperture_end,
            architectural_limit: self.architectural_limit,
        }
    }
}

/// The interval that a faultless range fills.
pub open spec fn interval_of(range: PhysicalRange) -> InventoryInterval {
    InventoryInterval {
        start: range.start,
        end_exclusive: (range.start + range.length) as u64,
    }
}

/// Whether an interval is that of one reported range.
pub open spec fn fills_one(inventory: Seq<PhysicalRange>, interval: InventoryInterval) -> bool {
    exists|i: int| 0 <= i < inventory.len() && interval == interval_of(#[trigger] inventory[i])
}

/// Ascending starts.
pub open spec fn by_start(intervals: Seq<InventoryInterval>) -> bool {
    forall|i: int, j: int|
        0 <= i < j < intervals.len() ==> (#[trigger] intervals[i]).start <= (
        #[trigger] intervals[j]).start
}

fn insert_by_start(intervals: &mut Vec<InventoryInterval>, interval: InventoryInterval)
    requires
        by_start(old(intervals)@),
    ensures
        by_start(final(intervals)@),
        forall|x: InventoryInterval| #[trigger]
            final(intervals)@.contains(x) <==> (old(intervals)@.contains(x) || x == interval),
        final(intervals)@.len() == old(intervals)@.len() + 1,
{
    let ghost before = intervals@;
    let mut position: usize = intervals.len();
    while position > 0 && intervals[position - 1].start > interval.start
        invariant
            position <= intervals@.len(),
            intervals@ == before,
            forall|k: int|
                position <= k < intervals@.len() ==> (#[trigger] intervals@[k]).start
                    > interval.start,
        decreases position,
    {
        position -= 1;
    }
    intervals.insert(position, interval);
    let ghost after = intervals@;
    proof {
        assert(after[position as int] == interval);
        assert forall|i: int, j: int| 0 <= i < j < after.len() implies (#[trigger] after[i]).start
            <= (#[trigger] after[j]).start by {
            let si = if i < position {
                i
            } else {
                i - 1
            };
            let sj = if j < position {
                j
            } else {
                j - 1
            };
            if i != position {
                assert(after[i] == before[si]);
            }
            if j != position {
                assert(after[j] == before[sj]);
            }
            if i < position {
                assert(before[i].start <= before[position - 1].start);
            }
        }
        assert forall|x: InventoryInterval| #[trigger]
            after.contains(x) <==> (before.contains(x) || x == interval) by {
            if before.contains(x) {
                let k = choose|k: int| 0 <= k < before.len() && before[k] == x;
                if k < position {
                    assert(after[k] == x);
                } else {
                    assert(after[k + 1] == x);
                }
            }
            if after.contains(x) {
                let k = choose|k: int| 0 <= k < after.len() && after[k] == x;
                if k < position {
                    assert(before[k] == x);
                } else if k > position {
                    assert(before[k - 1] == x);
                }
            }
        }
    }
}

/// The reported ranges as intervals in ascending order of their starts.
fn collect_ranges(inventory: &[PhysicalRange]) -> (result: MonadResult<Vec<InventoryInterval>>)
    ensures
        match result {
            Ok(ranges) => {
                &&& forall|i: int| !(#[trigger] first_bad_range(inventory@, i))
                &&& forall|i: int|
                    0 <= i < inventory@.len() ==> range_fault(
                        (#[trigger] inventory@[i]).start,
                        inventory@[i].length,
                    ) is None
                &&& ranges@.len() == inventory@.len()
                &&& by_start(ranges@)
                &&& forall|i: int|
                    0 <= i < ranges@.len() ==> (#[trigger] ranges@[i]).start
                        < ranges@[i].end_exclusive
                &&& forall|address: int|
                    held(ranges@, address) <==> #[trigger] reported(inventory@, address)
                &&& forall|i: int|
                    0 <= i < inventory@.len() ==> ranges@.contains(
                        interval_of(#[trigger] inventory@[i]),
                    )
                &&& forall|k: int|
                    0 <= k < ranges@.len() ==> fills_one(inventory@, #[trigger] ranges@[k])
            },
            Err(error) => {
                ||| error == aperture_fault(
                    ErrorCode::AllocationFailure,
                    ApertureErrorDetail::AllocationFailure,
                )
                ||| exists|i: int| #[trigger]
                    first_bad_range(inventory@, i) && range_fault(
                        inventory@[i].start,
                        inventory@[i].length,
                    ) == Some(error)
            },
        },
{
    let mut ranges: Vec<InventoryInterval> = Vec::new();
    let reserved = ranges.try_reserve(inventory.len());
    if reserved.is_err() {
        return Err(
            aperture_error(ErrorCode::AllocationFailure, ApertureErrorDetail::AllocationFailure),
        );
    }
    let mut i: usize = 0;
    while i < inventory.len()
        invariant
            i <= inventory@.len(),
            ranges@.len() == i,
            by_start(ranges@),
            forall|j: int|
                0 <= j < i ==> range_fault(
                    (#[trigger] inventory@[j]).start,
                    inventory@[j].length,
                ) is None,
            forall|j: int|
                0 <= j < i ==> ranges@.contains(interval_of(#[trigger] inventory@[j])),
            forall|x: InventoryInterval| #[trigger]
                ranges@.contains(x) ==> exists|j: int|
                    0 <= j < i && x == interval_of(#[trigger] inventory@[j]),
        decreases inventory@.len() - i,
    {
        let range = inventory[i];
        if range.length == 0 {
            assert(first_bad_range(inventory@, i as int));
            return Err(aperture_error(ErrorCode::InvalidRange, ApertureErrorDetail::ZeroLength));
        }
        let end_exclusive: u64 = match range.start.checked_add(range.length) {
            Some(end) => end,
            None => {
                assert(first_bad_range(inventory@, i as int));
                return Err(
                    aperture_error(ErrorCode::AddressOverflow, ApertureErrorDetail::RangeOverflow),
                );
            },
        };
        let interval = InventoryInterval { start: range.start, end_exclusive };
        assert(interval == interval_of(inventory@[i as int]));
        insert_by_start(&mut ranges, interval);
        i += 1;
    }
    proof {
        assert forall|k: int| 0 <= k < ranges@.len() implies fills_one(
            inventory@,
            #[trigger] ranges@[k],
        ) by {
            assert(ranges@.contains(ranges@[k]));
        }
        assert forall|address: int|
            held(ranges@, address) <==> #[trigger] reported(inventory@, address) by {
            if held(ranges@, address) {
                let k = choose|k: int|
                    0 <= k < ranges@.len() && holds(#[trigger] ranges@[k], address);
                assert(ranges@.contains(ranges@[k]));
            }
            if reported(inventory@, address) {
                let j = choose|j: int|
                    0 <= j < inventory@.len() && (#[trigger] inventory@[j]).start <= address
                        < inventory@[j].start + inventory@[j].length;
                assert(ranges@.contains(interval_of(inventory@[j])));
                let k = choose|k: int|
                    0 <= k < ranges@.len() && ranges@[k] == interval_of(inventory@[j]);
                assert(holds(ranges@[k], address));
            }
        }
    }
    Ok(ranges)
}

/// Joins intervals that touch or overlap.
fn merge_ranges(ranges: &[InventoryInterval]) -> (result: MonadResult<Vec<InventoryInterval>>)
    requires
        ranges@.len() > 0,
        by_start(ranges@),
        forall|i: int|
            0 <= i < ranges@.len() ==> (#[trigger] ranges@[i]).start < ranges@[i].end_exclusive,
    ensures
        match result {
            Ok(merged) => {
                &&& separated(merged@)
                &&& merged@.len() > 0
                &&& forall|address: int|
                    #[trigger] held(merged@, address) <==> held(ranges@, address)
                &&& exists|i: int|
                    0 <= i < ranges@.len() && (#[trigger] ranges@[i]).end_exclusive
                        == merged@.last().end_exclusive
                &&& forall|i: int|
                    0 <= i < ranges@.len() ==> (#[trigger] ranges@[i]).end_exclusive
                        <= merged@.last().end_exclusive
            },
            Err(error) => error == aperture_fault(
                ErrorCode::AllocationFailure,
                ApertureErrorDetail::AllocationFailure,
            ),
        },
{
    let mut merged: Vec<InventoryInterval> = Vec::new();
    let reserved = merged.try_reserve(ranges.len());
    if reserved.is_err() {
        return Err(
            aperture_error(ErrorCode::AllocationFailure, ApertureErrorDetail::AllocationFailure),
        );
    }
    let mut k: usize = 0;
    while k < ranges.len()
        invariant
            k <= ranges@.len(),
            by_start(ranges@),
            forall|i: int|
                0 <= i < ranges@.len() ==> (#[trigger] ranges@[i]).start < ranges@[i].end_exclusive,
            separated(merged@),
            k == 0 <==> merged@.len() == 0,
            k > 0 ==> merged@.last().start <= ranges@[k - 1].start,
            forall|address: int| #[trigger]
                held(merged@, address) <==> held(ranges@.take(k as int), address),
            k > 0 ==> exists|i: int|
                0 <= i < k && (#[trigger] ranges@[i]).end_exclusive == merged@.last().end_exclusive,
            forall|i: int|
                0 <= i < k ==> (#[trigger] ranges@[i]).end_exclusive
                    <= merged@.last().end_exclusive,
        decreases ranges@.len() - k,
    {
        let range = ranges[k];
        let count: usize = merged.len();
        let ghost before = merged@;
        let ghost seen = ranges@.take(k as int);
        let ghost next = ranges@.take(k + 1);
        proof {
            assert(next =~= seen.push(range));
            assert forall|address: int| #[trigger]
                held(next, address) <==> (held(seen, address) || holds(range, address)) by {
                if held(seen, address) {
                    let i = choose|i: int|
                        0 <= i < seen.len() && holds(#[trigger] seen[i], address);
                    assert(holds(next[i], address));
                }
                if holds(range, address) {
                    assert(holds(next[k as int], address));
                }
                if held(next, address) {
                    let i = choose|i: int|
                        0 <= i < next.len() && holds(#[trigger] next[i], address);
                    if i < k {
                        assert(holds(seen[i], address));
                    }
                }
            }
            assert(range == ranges@[k as int]);
            if k > 0 {
                assert(ranges@[k - 1].start <= ranges@[k as int].start);
            }
        }
        if count > 0 && range.start <= merged[count - 1].end_exclusive {
            let last = merged[count - 1];
            let end_exclusive: u64 = if last.end_exclusive >= range.end_exclusive {
                last.end_exclusive
            } else {
                range.end_exclusive
            };
            merged.set(count - 1, InventoryInterval { start: last.start, end_exclusive });
            proof {
                let after = merged@;
                let l = count - 1;
                assert forall|i: int, j: int| 0 <= i < j < after.len() implies (
                #[trigger] after[i]).end_exclusive < (#[trigger] after[j]).start by {
                    assert(before[i].end_exclusive < before[j].start);
                }
                assert forall|address: int| #[trigger]
                    held(after, address) <==> held(next, address) by {
                    if held(before, address) {
                        let i = choose|i: int|
                            0 <= i < before.len() && holds(#[trigger] before[i], address);
                        assert(holds(after[i], address));
                    }
                    if holds(range, address) {
                        assert(before[l].start <= range.start);
                        assert(holds(after[l], address));
                    }
                    if held(after, address) {
                        let i = choose|i: int|
                            0 <= i < after.len() && holds(#[trigger] after[i], address);
                        if i < l {
                            assert(holds(before[i], address));
                        } else if address < before[l].end_exclusive {
                            assert(holds(before[l], address));
                        } else {
                            assert(holds(range, address));
                        }
                    }
                }
                assert(exists|i: int|
                    0 <= i < k + 1 && (#[trigger] ranges@[i]).end_exclusive
                        == after.last().end_exclusive) by {
                    if last.end_exclusive < range.end_exclusive {
                        assert(ranges@[k as int].end_exclusive == after.last().end_exclusive);
                    } else {
                        let i = choose|i: int|
                            0 <= i < k && (#[trigger] ranges@[i]).end_exclusive
                                == before.last().end_exclusive;
                        assert(ranges@[i].end_exclusive == after.last().end_exclusive);
                    }
                }
            }
        } else {
            merged.push(range);
            proof {
                let after = merged@;
                assert forall|i: int, j: int| 0 <= i < j < after.len() implies (
                #[trigger] after[i]).end_exclusive < (#[trigger] after[j]).start by {
                    if j < before.len() {
                        assert(before[i].end_exclusive < before[j].start);
                    } else if i < before.len() - 1 {
                        assert(before[i].end_exclusive < before[before.len() - 1].start);
                    }
                }
                assert forall|address: int| #[trigger]
                    held(after, address) <==> held(next, address) by {
                    if held(before, address) {
                        let i = choose|i: int|
                            0 <= i < before.len() && holds(#[trigger] before[i], address);
                        assert(holds(after[i], address));
                    }
                    if holds(range, address) {
                        assert(holds(after[before.len() as int], address));
                    }
                    if held(after, address) {
                        let i = choose|i: int|
                            0 <= i < after.len() && holds(#[trigger] after[i], address);
                        if i < before.len() {
                            assert(holds(before[i], address));
                        }
                    }
                }
                assert(ranges@[k as int].end_exclusive == after.last().end_exclusive);
            }
        }
        k += 1;
    }
    assert(ranges@.take(k as int) =~= ranges@);
    Ok(merged)
}

/// A run whose addresses all lie in separated intervals lies in one of them.
proof fn lemma_held_run(intervals: Seq<InventoryInterval>, start: int, end: int)
    requires
        separated(intervals),
        start < end,
    ensures
        (forall|address: int| start <= address < end ==> #[trigger] held(intervals, address)) <==> (
        exists|i: int|
            0 <= i < intervals.len() && (#[trigger] intervals[i]).start <= start && end
                <= intervals[i].end_exclusive),
{
    if forall|address: int| start <= address < end ==> #[trigger] held(intervals, address) {
        assert(held(intervals, start));
        let i = choose|i: int| 0 <= i < intervals.len() && holds(#[trigger] intervals[i], start);
        let stop = intervals[i].end_exclusive as int;
        if stop < end {
            assert(held(intervals, stop));
            let j = choose|j: int| 0 <= j < intervals.len() && holds(#[trigger] intervals[j], stop);
            if i < j {
                assert(intervals[i].end_exclusive < intervals[j].start);
            } else if j < i {
                assert(intervals[j].end_exclusive < intervals[i].start);
            }
        }
        assert(intervals[i].start <= start && end <= intervals[i].end_exclusive);
    }
    if exists|i: int|
        0 <= i < intervals.len() && (#[trigger] intervals[i]).start <= start && end
            <= intervals[i].end_exclusive {
        let i = choose|i: int|
            0 <= i < intervals.len() && (#[trigger] intervals[i]).start <= start && end
                <= intervals[i].end_exclusive;
        assert forall|address: int| start <= address < end implies #[trigger] held(
            intervals,
            address,
        ) by {
            assert(holds(intervals[i], address));
        }
    }
}

/// Checks that every required range is reported.
fn check_required(
    merged: &[InventoryInterval],
    required: &[RequiredPhysicalRange],
    Ghost(inventory): Ghost<Seq<PhysicalRange>>,
) -> (result: MonadResult<()>)
    requires
        separated(merged@),
        forall|address: int|
            held(merged@, address) <==> #[trigger] reported(inventory, address),
    ensures
        match result {
            Ok(_) => forall|i: int| !(#[trigger] first_bad_required(inventory, required@, i)),
            Err(error) => exists|i: int| #[trigger]
                first_bad_required(inventory, required@, i) && required_fault(
                    inventory,
                    required@[i],
                ) == Some(error),
        },
{
    let mut i: usize = 0;
    while i < required.len()
        invariant
            i <= required@.len(),
            separated(merged@),
            forall|address: int|
                held(merged@, address) <==> #[trigger] reported(inventory, address),
            forall|j: int|
                0 <= j < i ==> required_fault(inventory, #[trigger] required@[j]) is None,
        decreases required@.len() - i,
    {
        let wanted = required[i];
        if wanted.length == 0 {
            assert(first_bad_required(inventory, required@, i as int));
            return Err(aperture_error(ErrorCode::InvalidRange, ApertureErrorDetail::ZeroLength));
        }
        let wanted_end: u64 = match wanted.start.checked_add(wanted.length) {
            Some(end) => end,
            None => {
                assert(first_bad_required(inventory, required@, i as int));
                return Err(
                    aperture_error(ErrorCode::AddressOverflow, ApertureErrorDetail::RangeOverflow),
                );
            },
        };
        let mut contained: bool = false;
        let mut k: usize = 0;
        while k < merged.len()
            invariant
                k <= merged@.len(),
                contained == exists|j: int|
                    0 <= j < k && (#[trigger] merged@[j]).start <= wanted.start && wanted_end
                        <= merged@[j].end_exclusive,
            decreases merged@.len() - k,
        {
            if merged[k].start <= wanted.start && wanted_end <= merged[k].end_exclusive {
                assert(merged@[k as int].start <= wanted.start);
                contained = true;
            }
            k += 1;
        }
        proof {
            lemma_held_run(merged@, wanted.start as int, wanted_end as int);
        }
        if !contained {
            proof {
                let address = choose|address: int|
                    wanted.start <= address < wanted_end && !(#[trigger] held(merged@, address));
                assert(!reported(inventory, address));
                assert(first_bad_required(inventory, required@, i as int));
            }
            return Err(
                aperture_error(ErrorCode::InvalidRange, ApertureErrorDetail::MissingRequiredRange),
            );
        }
        assert(required_fault(inventory, required@[i as int]) is None) by {
            assert forall|address: int| wanted.start <= address < wanted_end implies #[trigger] reported(
                inventory,
                address,
            ) by {
                assert(held(merged@, address));
            }
        }
        i += 1;
    }
    Ok(())
}

proof fn lemma_gigabyte_round(x: u64)
    ensures
        x & !0x3fff_ffffu64 == (x / 0x4000_0000) * 0x4000_0000,
{
    crate::bits::lemma_word(x);
}

/// Joins the reported ranges to intervals that do not touch, the last of which
/// ends where the highest range does.
fn join_ranges(inventory: &[PhysicalRange]) -> (result: MonadResult<Vec<InventoryInterval>>)
    requires
        inventory@.len() > 0,
    ensures
        match result {
            Ok(merged) => {
                &&& forall|i: int| !(#[trigger] first_bad_range(inventory@, i))
                &&& separated(merged@)
                &&& merged@.len() > 0
                &&& forall|address: int|
                    held(merged@, address) <==> #[trigger] reported(inventory@, address)
                &&& highest_end(inventory@, merged@.last().end_exclusive as int)
                &&& forall|end: int| #[trigger]
                    highest_end(inventory@, end) ==> end == merged@.last().end_exclusive
                &&& merged@.last().end_exclusive > 0
            },
            Err(error) => {
                ||| error == aperture_fault(
                    ErrorCode::AllocationFailure,
                    ApertureErrorDetail::AllocationFailure,
                )
                ||| exists|i: int| #[trigger]
                    first_bad_range(inventory@, i) && range_fault(
                        inventory@[i].start,
                        inventory@[i].length,
                    ) == Some(error)
            },
        },
{
    let ranges = collect_ranges(inventory)?;
    let merged = merge_ranges(ranges.as_slice())?;
    let ghost highest = merged@.last().end_exclusive;
    proof {
        assert forall|address: int| held(merged@, address) <==> #[trigger] reported(
            inventory@,
            address,
        ) by {
            assert(held(merged@, address) <==> held(ranges@, address));
        }
        let i = choose|i: int|
            0 <= i < ranges@.len() && (#[trigger] ranges@[i]).end_exclusive == highest;
        assert(fills_one(inventory@, ranges@[i]));
        let j = choose|j: int|
            0 <= j < inventory@.len() && ranges@[i] == interval_of(#[trigger] inventory@[j]);
        assert(inventory@[j].start + inventory@[j].length == highest);
        assert forall|j: int| 0 <= j < inventory@.len() implies (#[trigger] inventory@[j]).start
            + inventory@[j].length <= highest by {
            assert(ranges@.contains(interval_of(inventory@[j])));
            let k = choose|k: int|
                0 <= k < ranges@.len() && ranges@[k] == interval_of(inventory@[j]);
            assert(ranges@[k].end_exclusive <= highest);
        }
        assert(highest_end(inventory@, highest as int));
        assert forall|end: int| #[trigger] highest_end(inventory@, end) implies end == highest by {
            let other = choose|i: int|
                0 <= i < inventory@.len() && (#[trigger] inventory@[i]).start
                    + inventory@[i].length == end;
            assert(inventory@[other].start + inventory@[other].length == end);
        }
        assert(merged@[merged@.len() - 1].start < highest);
    }
    Ok(merged)
}

impl PhysicalInventory {
    #[verifier::type_invariant]
    pub closed spec fn well_formed(self) -> bool {
        &&& separated(self.ranges@)
        &&& 0 < self.aperture_end <= self.architectural_limit <= 0x1_0000_0000_0000
        &&& self.aperture_end % 0x1000 == 0
    }

    /// The reported runs of addresses.
    pub closed spec fn view(&self) -> Seq<InventoryInterval> {
        self.ranges@
    }

    pub closed spec fn spec_aperture_end(&self) -> u64 {
        self.aperture_end
    }

    pub closed spec fn spec_architectural_limit(&self) -> u64 {
        self.architectural_limit
    }

    /// Joins the reported ranges and fits an aperture around them.
    #[verifier::rlimit(40)]
    #[verifier::spinoff_prover]
    pub fn ingest(
        inventory: &[PhysicalRange],
        required: &[RequiredPhysicalRange],
        max_physical_bits: u8,
        configured_limit: Option<u64>,
    ) -> (result: MonadResult<Self>)
        ensures
            match result {
                Ok(memory) => {
                    let limit = limit_in_force(max_physical_bits, configured_limit);
                    &&& forall|error: MonadError|
                        !(#[trigger] inventory_refusal(
                            inventory@,
                            required@,
                            max_physical_bits,
                            configured_limit,
                            error,
                        ))
                    &&& separated(memory.view())
                    &&& forall|address: int|
                        #[trigger] held(memory.view(), address) <==> reported(inventory@, address)
                    &&& forall|end: int| #[trigger]
                        highest_end(inventory@, end) ==> memory.spec_aperture_end() == aperture_of(
                            end,
                            limit,
                        )
                    &&& exists|end: int| #[trigger] highest_end(inventory@, end)
                    &&& memory.spec_architectural_limit() == architectural_limit_of(
                        max_physical_bits,
                    )
                },
                Err(error) => {
                    ||| inventory_refusal(
                        inventory@,
                        required@,
                        max_physical_bits,
                        configured_limit,
                        error,
                    )
                    ||| inventory_short(inventory@, max_physical_bits, configured_limit, error)
                },
            },
    {
        if inventory.len() == 0 {
            return Err(aperture_error(ErrorCode::InvalidRange, ApertureErrorDetail::EmptyInventory));
        }
        if max_physical_bits == 0 || max_physical_bits >= 64 {
            return Err(
                aperture_error(
                    ErrorCode::PhysicalAddressTooWide,
                    ApertureErrorDetail::InvalidConfiguredLimit,
                ),
            );
        }
        let table_bits: u8 = if max_physical_bits < 48 {
            max_physical_bits
        } else {
            48
        };
        proof {
            bits::lemma_width_limit(table_bits);
        }
        let architectural_limit: u64 = 1u64 << (table_bits as u64);
        let limit: u64 = match configured_limit {
            Some(limit) => limit,
            None => architectural_limit,
        };
        assert(limit & 0xfffu64 == limit % 0x1000) by {
            bits::lemma_low_masks(limit);
        }
        if limit == 0 || limit & (PAGE_SIZE_4K - 1) != 0 || limit > architectural_limit {
            return Err(
                aperture_error(
                    ErrorCode::InvalidRange,
                    ApertureErrorDetail::InvalidConfiguredLimit,
                ),
            );
        }
        let merged = match join_ranges(inventory) {
            Ok(merged) => merged,
            Err(error) => {
                return Err(error);
            },
        };
        match check_required(merged.as_slice(), required, Ghost(inventory@)) {
            Ok(_) => {},
            Err(error) => {
                return Err(error);
            },
        }
        let highest: u64 = merged[merged.len() - 1].end_exclusive;
        assert(highest_end(inventory@, highest as int));
        if highest > limit {
            return Err(
                aperture_error(
                    ErrorCode::PhysicalAddressTooWide,
                    ApertureErrorDetail::RequiredRangeBeyondLimit,
                ),
            );
        }
        let sum: u64 = highest + 0x3fff_ffff;
        let rounded: u64 = sum & !0x3fff_ffffu64;
        proof {
            lemma_gigabyte_round(sum);
        }
        let aperture_end: u64 = if rounded < limit {
            rounded
        } else {
            limit
        };
        Ok(Self { ranges: merged, aperture_end, architectural_limit })
    }

    pub fn ranges(&self) -> (ranges: &[InventoryInterval])
        ensures
            ranges@ == self.view(),
            separated(ranges@),
    {
        proof {
            use_type_invariant(self);
        }
        self.ranges.as_slice()
    }

    /// The end of the aperture: a page bound that tables can reach.
    #[verifier::when_used_as_spec(spec_aperture_end)]
    pub fn aperture_end(&self) -> (aperture_end: u64)
        ensures
            aperture_end == self.spec_aperture_end(),
            0 < aperture_end <= self.spec_architectural_limit() <= 0x1_0000_0000_0000,
            aperture_end % 0x1000 == 0,
    {
        proof {
            use_type_invariant(self);
        }
        self.aperture_end
    }

    #[verifier::when_used_as_spec(spec_architectural_limit)]
    pub fn architectural_limit(&self) -> (limit: u64)
        ensures
            limit == self.spec_architectural_limit(),
    {
        self.architectural_limit
    }
}

} // verus!
