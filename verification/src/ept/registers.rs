//! What the range registers mean, by the architecture: which type an address
//! has by the bytes of the fixed registers and by the pairs of the variable
//! ones, and which registers describe no map.

use vstd::prelude::*;

use super::entry::EptMemoryType;
use super::mtrr;
use super::mtrr::{normalize_mtrrs, NormalizedMemoryMap, RawMtrrState, RawVariableMtrr};
use crate::bits;
use crate::error::{ErrorCode, ErrorPhase, MonadError, MonadResult};

verus! {

/// The number by which the architecture knows a memory type.
pub open spec fn type_number(memory_type: EptMemoryType) -> int {
    match memory_type {
        EptMemoryType::Uncacheable => 0,
        EptMemoryType::WriteCombining => 1,
        EptMemoryType::WriteThrough => 4,
        EptMemoryType::WriteProtected => 5,
        EptMemoryType::WriteBack => 6,
    }
}

/// Whether a number names a memory type.
pub open spec fn names_type(number: int) -> bool {
    number == 0 || number == 1 || number == 4 || number == 5 || number == 6
}

/// What a byte of a word counts.
pub open spec fn byte_weight(i: int) -> int {
    if i == 0 {
        1
    } else if i == 1 {
        0x100
    } else if i == 2 {
        0x1_0000
    } else if i == 3 {
        0x100_0000
    } else if i == 4 {
        0x1_0000_0000
    } else if i == 5 {
        0x100_0000_0000
    } else if i == 6 {
        0x1_0000_0000_0000
    } else {
        0x100_0000_0000_0000
    }
}

/// The first address below a byte of a fixed register: eight runs of 64K under
/// the first register, of 16K under the next two, of 4K under all others.
pub open spec fn first_address(r: int, i: int) -> int {
    if r == 0 {
        i * 0x1_0000
    } else if r <= 2 {
        0x8_0000 + (r - 1) * 0x2_0000 + i * 0x4000
    } else {
        0xc_0000 + (r - 3) * 0x8000 + i * 0x1000
    }
}

/// How many addresses lie below a byte of a fixed register.
pub open spec fn run_length(r: int) -> int {
    if r == 0 {
        0x1_0000
    } else if r <= 2 {
        0x4000
    } else {
        0x1000
    }
}

/// Whether a pair of variable registers is in use and selects an address: the
/// address and the base agree in every bit that the mask holds.
pub open spec fn selects(pair: RawVariableMtrr, address: u64) -> bool {
    &&& (pair.mask / 0x800) % 2 == 1
    &&& address & (pair.mask & 0xffff_ffff_f000u64) == pair.base & (pair.mask
        & 0xffff_ffff_f000u64)
}

/// Whether a pair of this type selects an address.
pub open spec fn touched(raw: RawMtrrState, address: u64, number: int) -> bool {
    exists|k: int|
        0 <= k < raw.variable@.len() && selects(#[trigger] raw.variable@[k], address)
            && raw.variable@[k].base % 0x100 == number
}

proof fn lemma_register_bytes(x: u64)
    ensures
        (x >> 0u64) & 0xff == x % 0x100,
        (x >> 8u64) & 0xff == (x / 0x100) % 0x100,
        (x >> 16u64) & 0xff == (x / 0x1_0000) % 0x100,
        (x >> 24u64) & 0xff == (x / 0x100_0000) % 0x100,
        (x >> 32u64) & 0xff == (x / 0x1_0000_0000) % 0x100,
        (x >> 40u64) & 0xff == (x / 0x100_0000_0000) % 0x100,
        (x >> 48u64) & 0xff == (x / 0x1_0000_0000_0000) % 0x100,
        (x >> 56u64) & 0xff == (x / 0x100_0000_0000_0000) % 0x100,
        x & 0xff == x % 0x100,
        (x & !0xcffu64 != 0) == (x / 0x1000 != 0 || (x / 0x100) % 4 != 0),
{
    crate::bits::lemma_word(x);
}

proof fn lemma_byte(value: u64, i: int)
    requires
        0 <= i < 8,
    ensures
        mtrr::register_byte(value, i as u64) == (value as int / byte_weight(i)) % 0x100,
{
    lemma_register_bytes(value);
    if i == 0 {
        assert(mtrr::register_byte(value, 0) == value % 0x100);
    } else if i == 1 {
        assert(mtrr::register_byte(value, 1) == (value / 0x100) % 0x100);
    } else if i == 2 {
        assert(mtrr::register_byte(value, 2) == (value / 0x1_0000) % 0x100);
    } else if i == 3 {
        assert(mtrr::register_byte(value, 3) == (value / 0x100_0000) % 0x100);
    } else if i == 4 {
        assert(mtrr::register_byte(value, 4) == (value / 0x1_0000_0000) % 0x100);
    } else if i == 5 {
        assert(mtrr::register_byte(value, 5) == (value / 0x100_0000_0000) % 0x100);
    } else if i == 6 {
        assert(mtrr::register_byte(value, 6) == (value / 0x1_0000_0000_0000) % 0x100);
    } else {
        assert(mtrr::register_byte(value, 7) == (value / 0x100_0000_0000_0000) % 0x100);
    }
}

proof fn lemma_place(r: int, i: int)
    requires
        0 <= r < 11,
        0 <= i < 8,
    ensures
        (8 * r + i) / 8 == r,
        (8 * r + i) % 8 == i,
        mtrr::fixed_start(8 * r + i) == first_address(r, i),
        mtrr::fixed_length(8 * r + i) == run_length(r),
{
    let k = 8 * r + i;
    assert(k / 8 == r && k % 8 == i);
    if r == 0 {
    } else if r <= 2 {
        assert((k - 8) * 0x4000 == (r - 1) * 0x2_0000 + i * 0x4000);
    } else {
        assert((k - 24) * 0x1000 == (r - 3) * 0x8000 + i * 0x1000);
    }
}

/// With fixed ranges on, each byte of a fixed register gives its type to the run
/// of addresses that stands at its place, counted upward from the register's
/// first address; the lowest byte comes first.
pub proof fn law_fixed_register_bytes_rise(
    raw: RawMtrrState,
    aperture_end: u64,
    map: NormalizedMemoryMap,
    r: int,
    i: int,
    address: u64,
    answer: Option<EptMemoryType>,
)
    requires
        call_ensures(
            normalize_mtrrs,
            (&raw, aperture_end),
            Ok::<NormalizedMemoryMap, MonadError>(map),
        ),
        call_ensures(NormalizedMemoryMap::memory_type_at, (&map, address), answer),
        (raw.default_type / 0x400) % 2 == 1,
        0 <= r < 11,
        0 <= i < 8,
        first_address(r, i) <= address < first_address(r, i) + run_length(r),
        address < aperture_end,
    ensures
        answer is Some,
        type_number(answer.unwrap()) == (raw.fixed@[r] as int / byte_weight(i)) % 0x100,
{
    bits::lemma_single_bits(raw.default_type);
    let k = 8 * r + i;
    lemma_place(r, i);
    lemma_byte(raw.fixed@[r], i);
    let ranges = raw.ranges();
    assert(mtrr::fixed_known(raw.fixed@, 88));
    assert(mtrr::fixed_range(raw.fixed@, k) is Some);
    assert(ranges[k] == mtrr::fixed_range(raw.fixed@, k).unwrap());
    assert(mtrr::covers(ranges[k], address as int));
    assert forall|j: int| 0 <= j < k implies !((#[trigger] ranges[j]).fixed && mtrr::covers(
        ranges[j],
        address as int,
    )) by {
        assert(mtrr::fixed_range(raw.fixed@, j) is Some);
        assert(ranges[j] == mtrr::fixed_range(raw.fixed@, j).unwrap());
        assert(mtrr::fixed_start(j) + mtrr::fixed_length(j) <= mtrr::fixed_start(k));
    }
    assert(mtrr::first_fixed(ranges, address as int, k));
    let first = choose|n: int| #[trigger] mtrr::first_fixed(ranges, address as int, n);
    mtrr::lemma_first_fixed_unique(ranges, address as int, k, first);
    assert(raw.memory_type_of(address as int) == Some(ranges[k].memory_type));
}

/// A pair without a fault covers the addresses that it selects.
proof fn lemma_selected(mask: u64, base: u64, width: u8, address: u64)
    by (bit_vector)
    requires
        12 <= width <= 48,
        address < 1u64 << (width as u64),
        ({
            let low = ((1u64 << (width as u64)) - 1) as u64;
            let page = low & !0xfffu64;
            let rest = !(mask & page) & low;
            &&& base & !(page | 0xff) == 0
            &&& mask & !(page | 0x800) == 0
            &&& ((rest + 1) as u64) & rest == 0
            &&& mask & page == page & !rest
            &&& (base & page) & rest == 0
        }),
    ensures
        ({
            let low = ((1u64 << (width as u64)) - 1) as u64;
            let page = low & !0xfffu64;
            let rest = !(mask & page) & low;
            (base & page <= address && address <= (base & page) + rest) == (address & (mask
                & 0xffff_ffff_f000u64) == base & (mask & 0xffff_ffff_f000u64))
        }),
        (mask & 0x800 != 0) == ((mask / 0x800) % 2 == 1),
        base & 0xff == base % 0x100,
{
}

/// The variable ranges that cover an address are those of the pairs that select
/// it.
proof fn lemma_touched(
    variable: Seq<RawVariableMtrr>,
    width: u8,
    address: u64,
    memory_type: EptMemoryType,
)
    requires
        12 <= width <= 48,
        address < 1u64 << (width as u64),
        mtrr::variables_fault(variable, width) is None,
    ensures
        (exists|i: int|
            {
                &&& 0 <= i < mtrr::variable_ranges(variable, width).len()
                &&& (#[trigger] mtrr::variable_ranges(variable, width)[i]).memory_type
                    == memory_type
                &&& mtrr::covers(mtrr::variable_ranges(variable, width)[i], address as int)
            }) <==> (exists|k: int|
            0 <= k < variable.len() && selects(#[trigger] variable[k], address) && variable[k].base
                % 0x100 == type_number(memory_type)),
        forall|i: int|
            0 <= i < mtrr::variable_ranges(variable, width).len() ==> !(
            #[trigger] mtrr::variable_ranges(variable, width)[i]).fixed,
    decreases variable.len(),
{
    let ranges = mtrr::variable_ranges(variable, width);
    if variable.len() > 0 {
        let fewer = variable.drop_last();
        let before = mtrr::variable_ranges(fewer, width);
        let pair = variable.last();
        lemma_touched(fewer, width, address, memory_type);
        lemma_pair(pair, width, address);
        assert forall|k: int| 0 <= k < fewer.len() implies #[trigger] fewer[k] == variable[k] by {}
        if exists|i: int|
            0 <= i < ranges.len() && (#[trigger] ranges[i]).memory_type == memory_type
                && mtrr::covers(ranges[i], address as int) {
            let i = choose|i: int|
                0 <= i < ranges.len() && (#[trigger] ranges[i]).memory_type == memory_type
                    && mtrr::covers(ranges[i], address as int);
            if i < before.len() {
                assert(before[i] == ranges[i]);
                let k = choose|k: int|
                    0 <= k < fewer.len() && selects(#[trigger] fewer[k], address) && fewer[k].base
                        % 0x100 == type_number(memory_type);
                assert(selects(variable[k], address));
            } else {
                assert(selects(variable[variable.len() - 1], address));
            }
        }
        if exists|k: int|
            0 <= k < variable.len() && selects(#[trigger] variable[k], address) && variable[k].base
                % 0x100 == type_number(memory_type) {
            let k = choose|k: int|
                0 <= k < variable.len() && selects(#[trigger] variable[k], address)
                    && variable[k].base % 0x100 == type_number(memory_type);
            if k < fewer.len() {
                assert(selects(fewer[k], address));
                let i = choose|i: int|
                    0 <= i < before.len() && (#[trigger] before[i]).memory_type == memory_type
                        && mtrr::covers(before[i], address as int);
                assert(ranges[i] == before[i]);
            } else {
                assert(ranges[before.len() as int].memory_type == memory_type);
            }
        }
        assert forall|i: int| 0 <= i < ranges.len() implies !(#[trigger] ranges[i]).fixed by {
            if i < before.len() {
                assert(ranges[i] == before[i]);
            }
        }
    }
}

/// One pair in use, as a range and as a selection.
proof fn lemma_pair(pair: RawVariableMtrr, width: u8, address: u64)
    requires
        12 <= width <= 48,
        address < 1u64 << (width as u64),
        mtrr::variable_in_use(pair) ==> mtrr::variable_fault(pair, width) is None,
    ensures
        mtrr::variable_in_use(pair) == ((pair.mask / 0x800) % 2 == 1),
        mtrr::variable_in_use(pair) ==> {
            let range = mtrr::variable_range(pair, width);
            &&& mtrr::covers(range, address as int) == selects(pair, address)
            &&& type_number(range.memory_type) == pair.base % 0x100
            &&& !range.fixed
        },
{
    bits::lemma_single_bits(pair.mask);
    if mtrr::variable_in_use(pair) {
        let size = mtrr::variable_size(pair.mask, width);
        mtrr::lemma_variable_bits(pair.mask, pair.base, width);
        lemma_selected(pair.mask, pair.base, width, address);
        lemma_register_bytes(pair.base);
        let range = mtrr::variable_range(pair, width);
        assert(range.start == pair.base & mtrr::address_mask(width));
        assert(range.end_exclusive == range.start + size);
    }
}

/// Where no fixed range stands, the pairs that select an address give it its
/// type: uncacheable wins, write-through wins over write-back, any other two
/// types have no map, and without a pair the default type holds.
pub proof fn law_selecting_pairs_give_the_type(
    raw: RawMtrrState,
    aperture_end: u64,
    map: NormalizedMemoryMap,
    address: u64,
    answer: Option<EptMemoryType>,
)
    requires
        call_ensures(
            normalize_mtrrs,
            (&raw, aperture_end),
            Ok::<NormalizedMemoryMap, MonadError>(map),
        ),
        call_ensures(NormalizedMemoryMap::memory_type_at, (&map, address), answer),
        (raw.default_type / 0x400) % 2 == 0 || address >= 0x10_0000,
        address < aperture_end,
    ensures
        answer is Some,
        ({
            let number = type_number(answer.unwrap());
            let uc = touched(raw, address, 0);
            let wc = touched(raw, address, 1);
            let wt = touched(raw, address, 4);
            let wp = touched(raw, address, 5);
            let wb = touched(raw, address, 6);
            &&& uc ==> number == 0
            &&& !uc && wc ==> number == 1 && !wt && !wp && !wb
            &&& !uc && wp ==> number == 5 && !wc && !wt && !wb
            &&& !uc && wt ==> number == 4 && !wc && !wp
            &&& !uc && wb && !wt ==> number == 6 && !wc && !wp
            &&& !uc && !wc && !wt && !wp && !wb ==> number == raw.default_type % 0x100
        }),
{
    bits::lemma_single_bits(raw.default_type);
    lemma_register_bytes(raw.default_type);
    let ranges = raw.ranges();
    let pairs = mtrr::variable_ranges(raw.variable@, raw.max_physical_bits);
    let skipped: int = if raw.fixed_enabled() {
        88
    } else {
        0
    };
    assert(address < 1u64 << (raw.max_physical_bits as u64));
    assert forall|i: int| 0 <= i < skipped implies (#[trigger] ranges[i]).fixed && !mtrr::covers(
        ranges[i],
        address as int,
    ) by {
        assert(mtrr::fixed_range(raw.fixed@, i) is Some);
        assert(ranges[i] == mtrr::fixed_range(raw.fixed@, i).unwrap());
        assert(mtrr::fixed_start(i) + mtrr::fixed_length(i) <= 0x10_0000);
    }
    assert forall|i: int| 0 <= i < pairs.len() implies ranges[skipped + i] == #[trigger] pairs[i]
        by {}
    lemma_covers_as_touched(raw, address, skipped, EptMemoryType::Uncacheable);
    lemma_covers_as_touched(raw, address, skipped, EptMemoryType::WriteCombining);
    lemma_covers_as_touched(raw, address, skipped, EptMemoryType::WriteThrough);
    lemma_covers_as_touched(raw, address, skipped, EptMemoryType::WriteProtected);
    lemma_covers_as_touched(raw, address, skipped, EptMemoryType::WriteBack);
    assert forall|i: int| !(#[trigger] mtrr::first_fixed(ranges, address as int, i)) by {
        if mtrr::first_fixed(ranges, address as int, i) {
            if i >= skipped {
                assert(ranges[i] == pairs[i - skipped]);
            }
        }
    }
    assert(raw.memory_type_of(address as int) == mtrr::variable_type(
        ranges,
        address as int,
        raw.default_memory_type(),
    ));
}

proof fn lemma_covers_as_touched(
    raw: RawMtrrState,
    address: u64,
    skipped: int,
    memory_type: EptMemoryType,
)
    requires
        12 <= raw.max_physical_bits <= 48,
        address < 1u64 << (raw.max_physical_bits as u64),
        mtrr::variables_fault(raw.variable@, raw.max_physical_bits) is None,
        skipped == if raw.fixed_enabled() {
            88int
        } else {
            0
        },
        forall|i: int| 0 <= i < skipped ==> (#[trigger] raw.ranges()[i]).fixed,
    ensures
        mtrr::variable_covers(raw.ranges(), address as int, memory_type) == touched(
            raw,
            address,
            type_number(memory_type),
        ),
        forall|i: int|
            skipped <= i < raw.ranges().len() ==> !(#[trigger] raw.ranges()[i]).fixed,
{
    let ranges = raw.ranges();
    let pairs = mtrr::variable_ranges(raw.variable@, raw.max_physical_bits);
    lemma_touched(raw.variable@, raw.max_physical_bits, address, memory_type);
    assert forall|i: int| skipped <= i < ranges.len() implies !(#[trigger] ranges[i]).fixed by {
        assert(ranges[i] == pairs[i - skipped]);
    }
    if mtrr::variable_covers(ranges, address as int, memory_type) {
        let i = choose|i: int|
            0 <= i < ranges.len() && !(#[trigger] ranges[i]).fixed && ranges[i].memory_type
                == memory_type && mtrr::covers(ranges[i], address as int);
        assert(ranges[i] == pairs[i - skipped]);
        assert(pairs[i - skipped].memory_type == memory_type);
    }
    if touched(raw, address, type_number(memory_type)) {
        let i = choose|i: int|
            0 <= i < pairs.len() && (#[trigger] pairs[i]).memory_type == memory_type
                && mtrr::covers(pairs[i], address as int);
        assert(ranges[skipped + i] == pairs[i]);
    }
}

/// Registers that are off, that hold an unknown type or reserved bits, whose
/// pairs are not as many as announced, or that turn fixed ranges on where there
/// are none, describe no map; each is told by its number.
pub proof fn law_refused_registers_are_told(
    raw: RawMtrrState,
    aperture_end: u64,
    result: MonadResult<NormalizedMemoryMap>,
)
    requires
        call_ensures(normalize_mtrrs, (&raw, aperture_end), result),
        12 <= raw.max_physical_bits <= 48,
        0 < aperture_end <= 1u64 << (raw.max_physical_bits as u64),
        aperture_end % 0x1000 == 0,
    ensures
        ({
            let told = |number: u64|
                result == Err::<NormalizedMemoryMap, MonadError>(
                    MonadError::new(
                        ErrorPhase::Mtrr,
                        ErrorCode::UnsupportedMtrrCombination,
                        number,
                    ),
                );
            if (raw.default_type / 0x800) % 2 == 0 {
                told(1)
            } else if raw.default_type / 0x1000 != 0 || (raw.default_type / 0x100) % 4 != 0
                || !names_type(raw.default_type as int % 0x100) {
                told(2)
            } else if raw.variable@.len() != raw.capability % 0x100 {
                told(3)
            } else if (raw.default_type / 0x400) % 2 == 1 && (raw.capability / 0x100) % 2 == 0 {
                told(4)
            } else {
                true
            }
        }),
{
    bits::lemma_single_bits(raw.default_type);
    bits::lemma_single_bits(raw.capability);
    lemma_register_bytes(raw.default_type);
    lemma_register_bytes(raw.capability);
    bits::lemma_width_limit(raw.max_physical_bits);
}

} // verus!
