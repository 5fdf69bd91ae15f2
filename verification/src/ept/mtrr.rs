//! Memory types: from the raw range registers to a map of the physical
//! aperture in which every address has one type.

use vstd::prelude::*;

use super::address::PAGE_SIZE_4K;
use super::entry::EptMemoryType;
use crate::bits;
use crate::error::{ErrorCode, ErrorPhase, MonadError, MonadResult};
use crate::sorted;

verus! {

/// Range registers are on.
pub const MTRR_ENABLE: u64 = 0x800;

/// Fixed ranges are on.
pub const FIXED_ENABLE: u64 = 0x400;

/// The processor has fixed ranges.
pub const FIXED_SUPPORTED: u64 = 0x100;

/// A variable range is in use.
pub const VARIABLE_VALID: u64 = 0x800;

/// The most variable ranges that leave the fixed registers alone.
pub const MAX_VARIABLE_MTRRS: u8 = 40;

/// The number of fixed-range registers.
pub const FIXED_REGISTER_COUNT: usize = 11;

pub const IA32_MTRRCAP: u32 = 0xfe;

pub const IA32_MTRR_DEF_TYPE: u32 = 0x2ff;

pub const IA32_MTRR_PHYSBASE0: u32 = 0x200;

pub const IA32_MTRR_PHYSMASK0: u32 = 0x201;

/// Why the range registers cannot be turned into a map.
#[derive(Debug, Clone, Copy, PartialEq, Eq, Structural)]
pub enum MtrrErrorDetail {
    Disabled,
    InvalidDefaultType,
    InvalidVariableCount,
    FixedUnsupported,
    InvalidFixedType,
    InvalidVariableType,
    InvalidVariableMask,
    MisalignedVariableRange,
    VariableRangeOverflow,
    UnsupportedOverlap,
    IncompleteCover,
    InvalidAperture,
    AllocationFailure,
}

impl MtrrErrorDetail {
    pub open spec fn spec_code(self) -> u64 {
        match self {
            MtrrErrorDetail::Disabled => 1,
            MtrrErrorDetail::InvalidDefaultType => 2,
            MtrrErrorDetail::InvalidVariableCount => 3,
            MtrrErrorDetail::FixedUnsupported => 4,
            MtrrErrorDetail::InvalidFixedType => 5,
            MtrrErrorDetail::InvalidVariableType => 6,
            MtrrErrorDetail::InvalidVariableMask => 7,
            MtrrErrorDetail::MisalignedVariableRange => 8,
            MtrrErrorDetail::VariableRangeOverflow => 9,
            MtrrErrorDetail::UnsupportedOverlap => 10,
            MtrrErrorDetail::IncompleteCover => 11,
            MtrrErrorDetail::InvalidAperture => 12,
            MtrrErrorDetail::AllocationFailure => 13,
        }
    }

    #[verifier::when_used_as_spec(spec_code)]
    pub fn code(self) -> (code: u64)
        ensures
            code == self.spec_code(),
    {
        match self {
            MtrrErrorDetail::Disabled => 1,
            MtrrErrorDetail::InvalidDefaultType => 2,
            MtrrErrorDetail::InvalidVariableCount => 3,
            MtrrErrorDetail::FixedUnsupported => 4,
            MtrrErrorDetail::InvalidFixedType => 5,
            MtrrErrorDetail::InvalidVariableType => 6,
            MtrrErrorDetail::InvalidVariableMask => 7,
            MtrrErrorDetail::MisalignedVariableRange => 8,
            MtrrErrorDetail::VariableRangeOverflow => 9,
            MtrrErrorDetail::UnsupportedOverlap => 10,
            MtrrErrorDetail::IncompleteCover => 11,
            MtrrErrorDetail::InvalidAperture => 12,
            MtrrErrorDetail::AllocationFailure => 13,
        }
    }

    /// The error that reports this detail.
    pub open spec fn spec_error(self) -> MonadError {
        MonadError::new(
            ErrorPhase::Mtrr,
            if self is AllocationFailure {
                ErrorCode::AllocationFailure
            } else {
                ErrorCode::UnsupportedMtrrCombination
            },
            self.spec_code(),
        )
    }
}

fn mtrr_error(detail: MtrrErrorDetail) -> (error: MonadError)
    ensures
        error == detail.spec_error(),
{
    let code = if detail == MtrrErrorDetail::AllocationFailure {
        ErrorCode::AllocationFailure
    } else {
        ErrorCode::UnsupportedMtrrCombination
    };
    MonadError::new(ErrorPhase::Mtrr, code, detail.code())
}

/// One pair of variable-range registers.
#[derive(Debug, Clone, Copy, PartialEq, Eq, Structural)]
pub struct RawVariableMtrr {
    pub base: u64,
    pub mask: u64,
}

/// The range registers of one processor.
#[derive(Debug, Clone, PartialEq, Eq)]
pub struct RawMtrrState {
    pub capability: u64,
    pub default_type: u64,
    pub fixed: [u64; 11],
    pub variable: Vec<RawVariableMtrr>,
    pub max_physical_bits: u8,
}

/// The number of the fixed-range register at position `i`.
pub open spec fn fixed_register(i: int) -> u32 {
    if i == 0 {
        0x250
    } else if i == 1 {
        0x258
    } else if i == 2 {
        0x259
    } else {
        (0x268 + i - 3) as u32
    }
}

fn fixed_register_number(i: usize) -> (register: u32)
    requires
        i < 11,
    ensures
        register == fixed_register(i as int),
{
    if i == 0 {
        0x250
    } else if i == 1 {
        0x258
    } else if i == 2 {
        0x259
    } else {
        0x268 + (i as u32 - 3)
    }
}

impl RawMtrrState {
    /// Every register that the state holds, with its value, by position: the
    /// capability, the default type, the fixed ranges, and each variable
    /// range's base and mask.
    pub open spec fn register_count(self) -> nat {
        13 + 2 * self.variable@.len()
    }

    pub open spec fn register(self, i: int) -> u32 {
        if i == 0 {
            IA32_MTRRCAP
        } else if i == 1 {
            IA32_MTRR_DEF_TYPE
        } else if i < 13 {
            fixed_register(i - 2)
        } else {
            (0x200 + (i - 13)) as u32
        }
    }

    pub open spec fn register_value(self, i: int) -> u64 {
        if i == 0 {
            self.capability
        } else if i == 1 {
            self.default_type
        } else if i < 13 {
            self.fixed@[i - 2]
        } else if (i - 13) % 2 == 0 {
            self.variable@[(i - 13) / 2].base
        } else {
            self.variable@[(i - 13) / 2].mask
        }
    }

    /// Compares the state with the registers that `read` gives; it stops at
    /// the first difference and allocates nothing. Every register must have a
    /// number.
    pub fn matches_registers<F: Fn(u32) -> u64>(&self, read: F) -> (same: bool)
        requires
            forall|register: u32| call_requires(read, (register,)),
            0x200 + 2 * self.variable@.len() <= 0x1_0000_0000,
        ensures
            same ==> forall|i: int|
                0 <= i < self.register_count() ==> call_ensures(
                    read,
                    (#[trigger] self.register(i),),
                    self.register_value(i),
                ),
            !same ==> exists|i: int, value: u64|
                0 <= i < self.register_count() && call_ensures(
                    read,
                    (#[trigger] self.register(i),),
                    value,
                ) && #[trigger] differs(value, self.register_value(i)),
    {
        let capability: u64 = read(IA32_MTRRCAP);
        if capability != self.capability {
            proof {
                assert(self.register(0) == IA32_MTRRCAP);
                assert(differs(capability, self.register_value(0)));
            }
            return false;
        }
        let default_type: u64 = read(IA32_MTRR_DEF_TYPE);
        if default_type != self.default_type {
            proof {
                assert(self.register(1) == IA32_MTRR_DEF_TYPE);
                assert(differs(default_type, self.register_value(1)));
            }
            return false;
        }
        let mut fixed: usize = 0;
        while fixed < 11
            invariant
                fixed <= 11,
                forall|register: u32| call_requires(read, (register,)),
                forall|i: int|
                    0 <= i < 2 + fixed ==> call_ensures(
                        read,
                        (#[trigger] self.register(i),),
                        self.register_value(i),
                    ),
            decreases 11 - fixed,
        {
            let value: u64 = read(fixed_register_number(fixed));
            if value != self.fixed[fixed] {
                proof {
                    assert(self.register(fixed + 2) == fixed_register(fixed as int));
                    assert(differs(value, self.register_value(fixed + 2)));
                }
                return false;
            }
            fixed += 1;
        }
        let mut index: usize = 0;
        while index < self.variable.len()
            invariant
                index <= self.variable@.len(),
                0x200 + 2 * self.variable@.len() <= 0x1_0000_0000,
                forall|register: u32| call_requires(read, (register,)),
                forall|i: int|
                    0 <= i < 13 + 2 * index ==> call_ensures(
                        read,
                        (#[trigger] self.register(i),),
                        self.register_value(i),
                    ),
            decreases self.variable@.len() - index,
        {
            let value = self.variable[index];
            let base: u64 = read(IA32_MTRR_PHYSBASE0 + index as u32 * 2);
            proof {
                assert(self.register(13 + 2 * index) == 0x200 + 2 * index);
                assert(self.register(14 + 2 * index) == 0x201 + 2 * index);
            }
            if base != value.base {
                assert(differs(base, self.register_value(13 + 2 * index)));
                return false;
            }
            let mask: u64 = read(IA32_MTRR_PHYSMASK0 + index as u32 * 2);
            if mask != value.mask {
                assert(differs(mask, self.register_value(14 + 2 * index)));
                return false;
            }
            index += 1;
        }
        true
    }
}

/// Two register values are not the same.
pub open spec fn differs(left: u64, right: u64) -> bool {
    left != right
}

/// The number of variable ranges that a capability register announces, where
/// that number and the fixed ranges are supported.
pub open spec fn admitted_variable_count(capability: u64) -> Option<int> {
    if capability & 0xff > MAX_VARIABLE_MTRRS || capability & FIXED_SUPPORTED == 0 {
        None
    } else {
        Some((capability & 0xff) as int)
    }
}

/// Reads every range register through `read`.
///
/// Fails with `InvalidVariableCount` exactly when the capability register
/// announces too many variable ranges or no fixed ones, and otherwise only
/// when memory for the variable ranges cannot be reserved.
pub fn collect_raw_mtrr_state<F: Fn(u32) -> u64>(max_physical_bits: u8, read: F) -> (result:
    MonadResult<RawMtrrState>)
    requires
        forall|register: u32| call_requires(read, (register,)),
    ensures
        match result {
            Ok(state) => {
                &&& state.max_physical_bits == max_physical_bits
                &&& admitted_variable_count(state.capability) == Some(state.variable@.len() as int)
                &&& forall|i: int|
                    0 <= i < state.register_count() ==> call_ensures(
                        read,
                        (#[trigger] state.register(i),),
                        state.register_value(i),
                    )
            },
            Err(error) => exists|capability: u64|
                #![trigger admitted_variable_count(capability)]
                call_ensures(read, (IA32_MTRRCAP,), capability) && error == match admitted_variable_count(
                    capability,
                ) {
                    None => MtrrErrorDetail::InvalidVariableCount.spec_error(),
                    Some(count) => MonadError::new(
                        ErrorPhase::Mtrr,
                        ErrorCode::AllocationFailure,
                        count as u64,
                    ),
                },
        },
{
    let capability: u64 = read(IA32_MTRRCAP);
    let ghost admitted = admitted_variable_count(capability);
    if (capability & 0xff) > MAX_VARIABLE_MTRRS as u64 || capability & FIXED_SUPPORTED == 0 {
        return Err(mtrr_error(MtrrErrorDetail::InvalidVariableCount));
    }
    let variable_count: usize = (capability & 0xff) as usize;
    let mut variable: Vec<RawVariableMtrr> = Vec::new();
    let reserved = variable.try_reserve(variable_count);
    if reserved.is_err() {
        return Err(
            MonadError::new(ErrorPhase::Mtrr, ErrorCode::AllocationFailure, variable_count as u64),
        );
    }
    let mut index: usize = 0;
    while index < variable_count
        invariant
            index <= variable_count <= 40,
            variable@.len() == index,
            forall|register: u32| call_requires(read, (register,)),
            forall|i: int|
                0 <= i < index ==> call_ensures(
                    read,
                    ((0x200 + 2 * i) as u32,),
                    (#[trigger] variable@[i]).base,
                ),
            forall|i: int|
                0 <= i < index ==> call_ensures(
                    read,
                    ((0x201 + 2 * i) as u32,),
                    (#[trigger] variable@[i]).mask,
                ),
        decreases variable_count - index,
    {
        let base: u64 = read(IA32_MTRR_PHYSBASE0 + index as u32 * 2);
        let mask: u64 = read(IA32_MTRR_PHYSMASK0 + index as u32 * 2);
        variable.push(RawVariableMtrr { base, mask });
        index += 1;
    }
    let mut fixed: [u64; 11] = [0;11];
    let mut position: usize = 0;
    while position < 11
        invariant
            position <= 11,
            forall|register: u32| call_requires(read, (register,)),
            forall|i: int|
                0 <= i < position ==> call_ensures(
                    read,
                    (fixed_register(i),),
                    #[trigger] fixed@[i],
                ),
        decreases 11 - position,
    {
        fixed[position] = read(fixed_register_number(position));
        position += 1;
    }
    let default_type: u64 = read(IA32_MTRR_DEF_TYPE);
    let state = RawMtrrState { capability, default_type, fixed, variable, max_physical_bits };
    proof {
        assert forall|i: int| 0 <= i < state.register_count() implies call_ensures(
            read,
            (#[trigger] state.register(i),),
            state.register_value(i),
        ) by {
            if 2 <= i < 13 {
                assert(state.fixed@[i - 2] == fixed@[i - 2]);
            } else if i >= 13 {
                let k = (i - 13) / 2;
                let entry = variable@[k];
                assert(entry == state.variable@[k]);
                if (i - 13) % 2 == 0 {
                    assert(i - 13 == 2 * k);
                } else {
                    assert(i - 13 == 2 * k + 1);
                }
            }
        }
    }
    Ok(state)
}

/// A run of addresses with one memory type.
#[derive(Debug, Clone, Copy, PartialEq, Eq, Structural)]
pub struct MemoryTypeInterval {
    pub start: u64,
    pub end_exclusive: u64,
    pub memory_type: EptMemoryType,
}

/// Whether an interval holds an address.
pub open spec fn in_interval(interval: MemoryTypeInterval, address: int) -> bool {
    interval.start <= address < interval.end_exclusive
}

/// The intervals follow each other from zero to the end of the aperture
/// without gap or overlap, on page bounds, and neighbours differ in type.
pub open spec fn exact_cover(intervals: Seq<MemoryTypeInterval>, aperture_end: u64) -> bool {
    &&& aperture_end != 0
    &&& aperture_end % 0x1000 == 0
    &&& intervals.len() > 0
    &&& intervals[0].start == 0
    &&& intervals.last().end_exclusive == aperture_end
    &&& forall|i: int|
        0 <= i < intervals.len() ==> {
            &&& (#[trigger] intervals[i]).start < intervals[i].end_exclusive
            &&& intervals[i].start % 0x1000 == 0
            &&& intervals[i].end_exclusive % 0x1000 == 0
        }
    &&& forall|i: int, j: int|
        #![trigger intervals[i], intervals[j]]
        0 <= i && j == i + 1 && j < intervals.len() ==> {
            &&& intervals[i].end_exclusive == intervals[j].start
            &&& intervals[i].memory_type != intervals[j].memory_type
        }
}

/// The type of the first interval that holds an address.
pub open spec fn type_at(intervals: Seq<MemoryTypeInterval>, address: int) -> Option<
    EptMemoryType,
> {
    if exists|i: int| 0 <= i < intervals.len() && in_interval(#[trigger] intervals[i], address) {
        let i = choose|i: int|
            0 <= i < intervals.len() && in_interval(#[trigger] intervals[i], address);
        Some(intervals[i].memory_type)
    } else {
        None
    }
}

/// Intervals of an exact cover lie in order.
pub proof fn lemma_cover_ordered(
    intervals: Seq<MemoryTypeInterval>,
    aperture_end: u64,
    i: int,
    j: int,
)
    requires
        exact_cover(intervals, aperture_end),
        0 <= i < j < intervals.len(),
    ensures
        intervals[i].end_exclusive <= intervals[j].start,
    decreases j - i,
{
    if i + 1 == j {
        assert(intervals[i].end_exclusive == intervals[i + 1].start);
    } else {
        lemma_cover_ordered(intervals, aperture_end, i, j - 1);
        assert(intervals[j - 1].end_exclusive == intervals[j - 1 + 1].start);
    }
}

/// One interval of an exact cover holds each address of the aperture.
pub proof fn lemma_cover_type_at(
    intervals: Seq<MemoryTypeInterval>,
    aperture_end: u64,
    i: int,
    address: int,
)
    requires
        exact_cover(intervals, aperture_end),
        0 <= i < intervals.len(),
        in_interval(intervals[i], address),
    ensures
        type_at(intervals, address) == Some(intervals[i].memory_type),
        address < aperture_end,
{
    let k = choose|k: int|
        0 <= k < intervals.len() && in_interval(#[trigger] intervals[k], address);
    assert(0 <= k < intervals.len() && in_interval(intervals[k], address));
    if k < i {
        lemma_cover_ordered(intervals, aperture_end, k, i);
    } else if i < k {
        lemma_cover_ordered(intervals, aperture_end, i, k);
    }
    let last = intervals.len() - 1;
    if i < last {
        lemma_cover_ordered(intervals, aperture_end, i, last);
    }
}

/// The interval of an exact cover that holds an address of the aperture.
pub proof fn lemma_cover_find(
    intervals: Seq<MemoryTypeInterval>,
    aperture_end: u64,
    address: int,
    bound: int,
) -> (i: int)
    requires
        exact_cover(intervals, aperture_end),
        0 <= bound < intervals.len(),
        0 <= address < intervals[bound].end_exclusive,
    ensures
        0 <= i <= bound,
        in_interval(intervals[i], address),
    decreases bound,
{
    if intervals[bound].start <= address {
        bound
    } else {
        assert(bound > 0);
        assert(intervals[bound - 1].end_exclusive == intervals[bound - 1 + 1].start);
        lemma_cover_find(intervals, aperture_end, address, bound - 1)
    }
}

/// A map of the aperture in which every address has one memory type.
#[derive(Debug, PartialEq, Eq)]
pub struct NormalizedMemoryMap {
    intervals: Vec<MemoryTypeInterval>,
    aperture_end: u64,
}

impl Clone for NormalizedMemoryMap {
    fn clone(&self) -> (copy: Self)
        ensures
            copy.view() == self.view(),
            copy.spec_aperture_end() == self.spec_aperture_end(),
    {
        proof {
            use_type_invariant(self);
        }
        let intervals = copy_intervals(self.intervals.as_slice());
        NormalizedMemoryMap { intervals, aperture_end: self.aperture_end }
    }
}

fn copy_intervals(intervals: &[MemoryTypeInterval]) -> (copy: Vec<MemoryTypeInterval>)
    ensures
        copy@ == intervals@,
{
    let mut copy: Vec<MemoryTypeInterval> = Vec::new();
    let mut i: usize = 0;
    while i < intervals.len()
        invariant
            i <= intervals@.len(),
            copy@ == intervals@.take(i as int),
        decreases intervals@.len() - i,
    {
        copy.push(intervals[i]);
        assert(copy@ =~= intervals@.take(i + 1));
        i += 1;
    }
    assert(intervals@.take(i as int) =~= intervals@);
    copy
}

fn is_exact_cover(intervals: &[MemoryTypeInterval], aperture_end: u64) -> (exact: bool)
    ensures
        exact == exact_cover(intervals@, aperture_end),
{
    proof {
        bits::lemma_low_masks(aperture_end);
    }
    if aperture_end == 0 || aperture_end & (PAGE_SIZE_4K - 1) != 0 {
        return false;
    }
    let count: usize = intervals.len();
    if count == 0 || intervals[0].start != 0 || intervals[count - 1].end_exclusive != aperture_end {
        return false;
    }
    let mut i: usize = 0;
    while i < count
        invariant
            i <= count == intervals@.len(),
            forall|k: int|
                0 <= k < i ==> {
                    &&& (#[trigger] intervals@[k]).start < intervals@[k].end_exclusive
                    &&& intervals@[k].start % 0x1000 == 0
                    &&& intervals@[k].end_exclusive % 0x1000 == 0
                },
            forall|k: int, j: int|
                #![trigger intervals@[k], intervals@[j]]
                0 <= k < i && j == k + 1 && j < count ==> {
                    &&& intervals@[k].end_exclusive == intervals@[j].start
                    &&& intervals@[k].memory_type != intervals@[j].memory_type
                },
        decreases count - i,
    {
        let interval = intervals[i];
        proof {
            bits::lemma_low_masks(interval.start);
            bits::lemma_low_masks(interval.end_exclusive);
        }
        if interval.start >= interval.end_exclusive || interval.start & (PAGE_SIZE_4K - 1) != 0
            || interval.end_exclusive & (PAGE_SIZE_4K - 1) != 0 {
            assert(!exact_cover(intervals@, aperture_end)) by {
                assert(intervals@[i as int] == interval);
            }
            return false;
        }
        if i + 1 < count && (interval.end_exclusive != intervals[i + 1].start
            || interval.memory_type == intervals[i + 1].memory_type) {
            assert(!exact_cover(intervals@, aperture_end)) by {
                assert(intervals@[i as int] == interval);
            }
            return false;
        }
        i += 1;
    }
    true
}

impl NormalizedMemoryMap {
    #[verifier::type_invariant]
    pub closed spec fn covers_aperture(self) -> bool {
        exact_cover(self.intervals@, self.aperture_end)
    }

    /// The intervals of the map.
    pub closed spec fn view(&self) -> Seq<MemoryTypeInterval> {
        self.intervals@
    }

    pub closed spec fn spec_aperture_end(&self) -> u64 {
        self.aperture_end
    }

    /// Accepts exactly the intervals that cover the aperture; the copy can
    /// still fail for want of memory.
    pub fn from_intervals(intervals: &[MemoryTypeInterval], aperture_end: u64) -> (result:
        MonadResult<Self>)
        ensures
            match result {
                Ok(map) => {
                    &&& exact_cover(intervals@, aperture_end)
                    &&& map.view() == intervals@
                    &&& map.spec_aperture_end() == aperture_end
                },
                Err(error) => error == if exact_cover(intervals@, aperture_end) {
                    MtrrErrorDetail::AllocationFailure.spec_error()
                } else {
                    MtrrErrorDetail::IncompleteCover.spec_error()
                },
            },
    {
        if !is_exact_cover(intervals, aperture_end) {
            return Err(mtrr_error(MtrrErrorDetail::IncompleteCover));
        }
        let mut owned: Vec<MemoryTypeInterval> = Vec::new();
        let reserved = owned.try_reserve(intervals.len());
        if reserved.is_err() {
            return Err(mtrr_error(MtrrErrorDetail::AllocationFailure));
        }
        let mut i: usize = 0;
        while i < intervals.len()
            invariant
                i <= intervals@.len(),
                owned@ == intervals@.take(i as int),
            decreases intervals@.len() - i,
        {
            owned.push(intervals[i]);
            assert(owned@ =~= intervals@.take(i + 1));
            i += 1;
        }
        assert(intervals@.take(i as int) =~= intervals@);
        Ok(Self { intervals: owned, aperture_end })
    }

    pub fn intervals(&self) -> (intervals: &[MemoryTypeInterval])
        ensures
            intervals@ == self.view(),
            exact_cover(intervals@, self.spec_aperture_end()),
    {
        proof {
            use_type_invariant(self);
        }
        self.intervals.as_slice()
    }

    #[verifier::when_used_as_spec(spec_aperture_end)]
    pub fn aperture_end(&self) -> (aperture_end: u64)
        ensures
            aperture_end == self.spec_aperture_end(),
    {
        self.aperture_end
    }

    /// The type of an address: one for each address of the aperture, none
    /// outside.
    pub fn memory_type_at(&self, address: u64) -> (memory_type: Option<EptMemoryType>)
        ensures
            memory_type == type_at(self.view(), address as int),
            memory_type is Some <==> address < self.spec_aperture_end(),
    {
        proof {
            use_type_invariant(self);
            if address < self.aperture_end {
                let k = lemma_cover_find(
                    self.intervals@,
                    self.aperture_end,
                    address as int,
                    self.intervals@.len() - 1,
                );
                lemma_cover_type_at(self.intervals@, self.aperture_end, k, address as int);
            }
            if type_at(self.intervals@, address as int) is Some {
                let k = choose|k: int|
                    0 <= k < self.intervals@.len() && in_interval(
                        #[trigger] self.intervals@[k],
                        address as int,
                    );
                lemma_cover_type_at(self.intervals@, self.aperture_end, k, address as int);
            }
        }
        let mut i: usize = 0;
        while i < self.intervals.len()
            invariant
                i <= self.intervals@.len(),
                exact_cover(self.intervals@, self.aperture_end),
                forall|k: int|
                    0 <= k < i ==> !in_interval(#[trigger] self.intervals@[k], address as int),
            decreases self.intervals@.len() - i,
        {
            let interval = self.intervals[i];
            if interval.start <= address && address < interval.end_exclusive {
                proof {
                    lemma_cover_type_at(
                        self.intervals@,
                        self.aperture_end,
                        i as int,
                        address as int,
                    );
                }
                return Some(interval.memory_type);
            }
            i += 1;
        }
        None
    }

    /// The one type of a whole run of addresses, if it has one.
    pub fn uniform_type(&self, start: u64, end_exclusive: u64) -> (memory_type: Option<
        EptMemoryType,
    >)
        ensures
            memory_type == uniform_over(self.view(), start as int, end_exclusive as int),
    {
        proof {
            use_type_invariant(self);
        }
        if start >= end_exclusive {
            return None;
        }
        let mut i: usize = 0;
        while i < self.intervals.len()
            invariant
                i <= self.intervals@.len(),
                exact_cover(self.intervals@, self.aperture_end),
                start < end_exclusive,
                forall|k: int|
                    0 <= k < i ==> !spans(
                        #[trigger] self.intervals@[k],
                        start as int,
                        end_exclusive as int,
                    ),
            decreases self.intervals@.len() - i,
        {
            let interval = self.intervals[i];
            if interval.start <= start && end_exclusive <= interval.end_exclusive {
                proof {
                    lemma_uniform_over(
                        self.intervals@,
                        self.aperture_end,
                        i as int,
                        start as int,
                        end_exclusive as int,
                    );
                }
                return Some(interval.memory_type);
            }
            i += 1;
        }
        None
    }
}

/// Whether an interval holds a whole run of addresses.
pub open spec fn spans(interval: MemoryTypeInterval, start: int, end_exclusive: int) -> bool {
    interval.start <= start && end_exclusive <= interval.end_exclusive
}

/// The type of the interval that holds a whole nonempty run.
pub open spec fn uniform_over(
    intervals: Seq<MemoryTypeInterval>,
    start: int,
    end_exclusive: int,
) -> Option<EptMemoryType> {
    if start < end_exclusive && exists|i: int|
        0 <= i < intervals.len() && spans(#[trigger] intervals[i], start, end_exclusive) {
        let i = choose|i: int|
            0 <= i < intervals.len() && spans(#[trigger] intervals[i], start, end_exclusive);
        Some(intervals[i].memory_type)
    } else {
        None
    }
}

/// A run inside one interval of an exact cover has that interval's type.
pub proof fn lemma_uniform_over(
    intervals: Seq<MemoryTypeInterval>,
    aperture_end: u64,
    i: int,
    start: int,
    end_exclusive: int,
)
    requires
        exact_cover(intervals, aperture_end),
        0 <= i < intervals.len(),
        start < end_exclusive,
        spans(intervals[i], start, end_exclusive),
    ensures
        uniform_over(intervals, start, end_exclusive) == Some(intervals[i].memory_type),
        forall|address: int|
            start <= address < end_exclusive ==> #[trigger] type_at(intervals, address) == Some(
                intervals[i].memory_type,
            ),
{
    let k = choose|k: int|
        0 <= k < intervals.len() && spans(#[trigger] intervals[k], start, end_exclusive);
    assert(0 <= k < intervals.len() && spans(intervals[k], start, end_exclusive));
    lemma_cover_type_at(intervals, aperture_end, k, start);
    lemma_cover_type_at(intervals, aperture_end, i, start);
    assert forall|address: int| start <= address < end_exclusive implies #[trigger] type_at(
        intervals,
        address,
    ) == Some(intervals[i].memory_type) by {
        lemma_cover_type_at(intervals, aperture_end, i, address);
    }
}

/// A page of the aperture has one type.
pub proof fn lemma_page_is_uniform(
    intervals: Seq<MemoryTypeInterval>,
    aperture_end: u64,
    start: int,
)
    requires
        exact_cover(intervals, aperture_end),
        0 <= start < aperture_end,
        start % 0x1000 == 0,
    ensures
        uniform_over(intervals, start, start + 0x1000) is Some,
        start + 0x1000 <= aperture_end,
{
    let i = lemma_cover_find(intervals, aperture_end, start, intervals.len() - 1);
    assert(spans(intervals[i], start, start + 0x1000));
}

/// A run with one type gives that type to each of its addresses.
pub proof fn lemma_uniform_type_at(
    intervals: Seq<MemoryTypeInterval>,
    aperture_end: u64,
    start: int,
    end_exclusive: int,
    address: int,
)
    requires
        exact_cover(intervals, aperture_end),
        uniform_over(intervals, start, end_exclusive) is Some,
        start <= address < end_exclusive,
    ensures
        type_at(intervals, address) == uniform_over(intervals, start, end_exclusive),
{
    let i = choose|i: int|
        0 <= i < intervals.len() && spans(#[trigger] intervals[i], start, end_exclusive);
    lemma_uniform_over(intervals, aperture_end, i, start, end_exclusive);
}

/// One range of the registers, decoded.
#[derive(Debug, Clone, Copy, PartialEq, Eq, Structural)]
pub struct DecodedRange {
    pub start: u64,
    pub end_exclusive: u64,
    pub memory_type: EptMemoryType,
    pub fixed: bool,
}

/// Whether a range holds an address.
pub open spec fn covers(range: DecodedRange, address: int) -> bool {
    range.start <= address < range.end_exclusive
}

/// Whether a range starts and ends on page bounds and holds something.
pub open spec fn page_range(range: DecodedRange) -> bool {
    &&& range.start < range.end_exclusive
    &&& range.start % 0x1000 == 0
    &&& range.end_exclusive % 0x1000 == 0
}

/// The first address of the fixed range at position `k`.
pub open spec fn fixed_start(k: int) -> int {
    if k < 8 {
        k * 0x1_0000
    } else if k < 24 {
        0x8_0000 + (k - 8) * 0x4000
    } else {
        0xc_0000 + (k - 24) * 0x1000
    }
}

/// The length of the fixed range at position `k`.
pub open spec fn fixed_length(k: int) -> int {
    if k < 8 {
        0x1_0000
    } else if k < 24 {
        0x4000
    } else {
        0x1000
    }
}

/// One byte of a fixed-range register.
pub open spec fn register_byte(value: u64, index: u64) -> u8 {
    ((value >> (index * 8) as u64) & 0xff) as u8
}

/// The type number of the fixed range at position `k`.
pub open spec fn fixed_code(fixed: Seq<u64>, k: int) -> u8 {
    register_byte(fixed[k / 8], (k % 8) as u64)
}

/// The fixed range at position `k`, if its type is known.
pub open spec fn fixed_range(fixed: Seq<u64>, k: int) -> Option<DecodedRange> {
    match EptMemoryType::from_code(fixed_code(fixed, k)) {
        Some(memory_type) => Some(
            DecodedRange {
                start: fixed_start(k) as u64,
                end_exclusive: (fixed_start(k) + fixed_length(k)) as u64,
                memory_type,
                fixed: true,
            },
        ),
        None => None,
    }
}

/// The first `count` fixed ranges.
pub open spec fn fixed_ranges(fixed: Seq<u64>, count: nat) -> Seq<DecodedRange> {
    Seq::new(count, |k: int| fixed_range(fixed, k).unwrap())
}

/// Whether the first `count` fixed ranges have known types.
pub open spec fn fixed_known(fixed: Seq<u64>, count: int) -> bool {
    forall|k: int| 0 <= k < count ==> (#[trigger] fixed_range(fixed, k)) is Some
}

/// The page-address bits below a physical width.
pub open spec fn address_mask(max_physical_bits: u8) -> u64 {
    ((bits::width_limit(max_physical_bits) - 1) as u64) & !0xfffu64
}

/// The number of bytes that a variable range's mask selects.
pub open spec fn variable_size(mask: u64, max_physical_bits: u8) -> int {
    ((!(mask & address_mask(max_physical_bits))) & ((bits::width_limit(max_physical_bits)
        - 1) as u64)) + 1
}

/// Whether a variable range is in use.
pub open spec fn variable_in_use(value: RawVariableMtrr) -> bool {
    value.mask & VARIABLE_VALID != 0
}

/// The first rule that a variable range in use breaks.
pub open spec fn variable_fault(value: RawVariableMtrr, max_physical_bits: u8) -> Option<
    MtrrErrorDetail,
> {
    let selected = address_mask(max_physical_bits);
    let size = variable_size(value.mask, max_physical_bits);
    let start = value.base & selected;
    if value.base & !(selected | 0xff) != 0 || value.base & 0xf00 != 0 || value.mask & !(selected
        | VARIABLE_VALID) != 0 {
        Some(MtrrErrorDetail::InvalidVariableMask)
    } else if EptMemoryType::from_code((value.base & 0xff) as u8) is None {
        Some(MtrrErrorDetail::InvalidVariableType)
    } else if size < 0x1000 || !bits::one_bit(size as u64) || value.mask & selected != selected
        & !((size - 1) as u64) {
        Some(MtrrErrorDetail::InvalidVariableMask)
    } else if start & ((size - 1) as u64) != 0 {
        Some(MtrrErrorDetail::MisalignedVariableRange)
    } else if start + size > bits::width_limit(max_physical_bits) {
        Some(MtrrErrorDetail::VariableRangeOverflow)
    } else {
        None
    }
}

/// The range that a faultless variable range in use selects.
pub open spec fn variable_range(value: RawVariableMtrr, max_physical_bits: u8) -> DecodedRange {
    let start = value.base & address_mask(max_physical_bits);
    DecodedRange {
        start,
        end_exclusive: (start + variable_size(value.mask, max_physical_bits)) as u64,
        memory_type: EptMemoryType::from_code((value.base & 0xff) as u8).unwrap(),
        fixed: false,
    }
}

/// The fault of the first faulty variable range in use.
pub open spec fn variables_fault(
    variable: Seq<RawVariableMtrr>,
    max_physical_bits: u8,
) -> Option<MtrrErrorDetail>
    decreases variable.len(),
{
    if variable.len() == 0 {
        None
    } else {
        match variables_fault(variable.drop_last(), max_physical_bits) {
            Some(fault) => Some(fault),
            None => if variable_in_use(variable.last()) {
                variable_fault(variable.last(), max_physical_bits)
            } else {
                None
            },
        }
    }
}

/// The variable ranges in use, in order.
pub open spec fn variable_ranges(
    variable: Seq<RawVariableMtrr>,
    max_physical_bits: u8,
) -> Seq<DecodedRange>
    decreases variable.len(),
{
    if variable.len() == 0 {
        Seq::empty()
    } else if variable_in_use(variable.last()) {
        variable_ranges(variable.drop_last(), max_physical_bits).push(
            variable_range(variable.last(), max_physical_bits),
        )
    } else {
        variable_ranges(variable.drop_last(), max_physical_bits)
    }
}

impl RawMtrrState {
    /// Whether the fixed ranges are on.
    pub open spec fn fixed_enabled(self) -> bool {
        self.default_type & FIXED_ENABLE != 0
    }

    /// Why the registers cannot be decoded.
    pub open spec fn decode_fault(self) -> Option<MtrrErrorDetail> {
        if self.default_type & MTRR_ENABLE == 0 {
            Some(MtrrErrorDetail::Disabled)
        } else if self.default_type & !(0xcffu64) != 0 || EptMemoryType::from_code(
            (self.default_type & 0xff) as u8,
        ) is None {
            Some(MtrrErrorDetail::InvalidDefaultType)
        } else if self.variable@.len() != self.capability & 0xff {
            Some(MtrrErrorDetail::InvalidVariableCount)
        } else if self.fixed_enabled() && self.capability & FIXED_SUPPORTED == 0 {
            Some(MtrrErrorDetail::FixedUnsupported)
        } else if self.fixed_enabled() && !fixed_known(self.fixed@, 88) {
            Some(MtrrErrorDetail::InvalidFixedType)
        } else if !super::entry::supported_width(self.max_physical_bits) {
            Some(MtrrErrorDetail::InvalidVariableMask)
        } else {
            variables_fault(self.variable@, self.max_physical_bits)
        }
    }

    /// The type of memory that no range covers.
    pub open spec fn default_memory_type(self) -> EptMemoryType {
        EptMemoryType::from_code((self.default_type & 0xff) as u8).unwrap()
    }

    /// The ranges that the registers describe.
    pub open spec fn ranges(self) -> Seq<DecodedRange> {
        (if self.fixed_enabled() {
            fixed_ranges(self.fixed@, 88)
        } else {
            Seq::empty()
        }) + variable_ranges(self.variable@, self.max_physical_bits)
    }
}

/// Whether a fault shows before any memory is asked for.
pub open spec fn found_early(fault: MtrrErrorDetail) -> bool {
    ||| fault == MtrrErrorDetail::InvalidAperture
    ||| fault == MtrrErrorDetail::Disabled
    ||| fault == MtrrErrorDetail::InvalidDefaultType
    ||| fault == MtrrErrorDetail::InvalidVariableCount
    ||| fault == MtrrErrorDetail::FixedUnsupported
}

/// The fault of a variable range shows later.
proof fn lemma_variables_late(variable: Seq<RawVariableMtrr>, max_physical_bits: u8)
    ensures
        variables_fault(variable, max_physical_bits) matches Some(fault) ==> !found_early(fault),
    decreases variable.len(),
{
    if variable.len() > 0 {
        lemma_variables_late(variable.drop_last(), max_physical_bits);
    }
}

fn reserve(ranges: &mut Vec<DecodedRange>, additional: usize) -> (result: MonadResult<()>)
    ensures
        final(ranges)@ == old(ranges)@,
        result matches Err(error) ==> error == MtrrErrorDetail::AllocationFailure.spec_error(),
{
    let reserved = ranges.try_reserve(additional);
    if reserved.is_err() {
        return Err(mtrr_error(MtrrErrorDetail::AllocationFailure));
    }
    Ok(())
}

proof fn lemma_low_byte(x: u64)
    ensures
        x & 0xffu64 < 0x100,
{
    crate::bits::lemma_word(x);
}

/// Decodes the eight ranges of one fixed register.
fn push_fixed_register(
    ranges: &mut Vec<DecodedRange>,
    value: u64,
    start: u64,
    length: u64,
    Ghost(fixed): Ghost<Seq<u64>>,
    Ghost(register): Ghost<int>,
) -> (result: MonadResult<()>)
    requires
        0 <= register < 11,
        fixed.len() == 11,
        value == fixed[register],
        start == fixed_start(8 * register),
        length == fixed_length(8 * register),
        old(ranges)@ == fixed_ranges(fixed, (8 * register) as nat),
        fixed_known(fixed, 8 * register),
    ensures
        match result {
            Ok(_) => {
                &&& fixed_known(fixed, 8 * register + 8)
                &&& final(ranges)@ == fixed_ranges(fixed, (8 * register + 8) as nat)
            },
            Err(error) => {
                ||| error == MtrrErrorDetail::AllocationFailure.spec_error()
                ||| !fixed_known(fixed, 88) && error
                    == MtrrErrorDetail::InvalidFixedType.spec_error()
            },
        },
{
    reserve(ranges, 8)?;
    let mut index: u64 = 0;
    while index < 8
        invariant
            index <= 8,
            0 <= register < 11,
            fixed.len() == 11,
            value == fixed[register],
            start == fixed_start(8 * register),
            length == fixed_length(8 * register),
            ranges@ == fixed_ranges(fixed, (8 * register + index) as nat),
            fixed_known(fixed, 8 * register + index),
        decreases 8 - index,
    {
        let ghost k = 8 * register + index;
        proof {
            lemma_low_byte(value >> (index * 8) as u64);
            assert(k / 8 == register && k % 8 == index);
            assert(fixed_start(k) == start + index * length);
            assert(fixed_length(k) == length);
            assert(fixed_code(fixed, k) == register_byte(value, index));
        }
        let code: u8 = ((value >> (index * 8)) & 0xff) as u8;
        match EptMemoryType::from_code(code) {
            Some(memory_type) => {
                ranges.push(
                    DecodedRange {
                        start: start + index * length,
                        end_exclusive: start + (index + 1) * length,
                        memory_type,
                        fixed: true,
                    },
                );
                assert(start + (index + 1) * length == fixed_start(k) + fixed_length(k))
                    by (nonlinear_arith)
                    requires
                        fixed_start(k) == start + index * length,
                        fixed_length(k) == length,
                ;
                assert(ranges@ =~= fixed_ranges(fixed, (k + 1) as nat));
                assert(fixed_known(fixed, k + 1));
            },
            None => {
                assert(fixed_range(fixed, k) is None);
                return Err(mtrr_error(MtrrErrorDetail::InvalidFixedType));
            },
        }
        index += 1;
    }
    Ok(())
}

fn decode_ranges(raw: &RawMtrrState) -> (result: MonadResult<(EptMemoryType, Vec<DecodedRange>)>)
    ensures
        match result {
            Ok((default_type, ranges)) => {
                &&& raw.decode_fault() is None
                &&& default_type == raw.default_memory_type()
                &&& ranges@ == raw.ranges()
                &&& ranges@.len() <= 343
            },
            Err(error) => {
                ||| raw.decode_fault() matches Some(fault) && error == fault.spec_error()
                ||| error == MtrrErrorDetail::AllocationFailure.spec_error()
            },
        },
        raw.decode_fault() is Some && found_early(raw.decode_fault().unwrap()) ==> result is Err
            && result->Err_0 == raw.decode_fault().unwrap().spec_error(),
{
    proof {
        lemma_variables_late(raw.variable@, raw.max_physical_bits);
    }
    if raw.default_type & MTRR_ENABLE == 0 {
        return Err(mtrr_error(MtrrErrorDetail::Disabled));
    }
    if raw.default_type & !0xcffu64 != 0 {
        return Err(mtrr_error(MtrrErrorDetail::InvalidDefaultType));
    }
    let default_type = match EptMemoryType::from_code((raw.default_type & 0xff) as u8) {
        Some(memory_type) => memory_type,
        None => {
            return Err(mtrr_error(MtrrErrorDetail::InvalidDefaultType));
        },
    };
    proof {
        lemma_low_byte(raw.capability);
    }
    let variable_count: usize = (raw.capability & 0xff) as usize;
    if raw.variable.len() != variable_count {
        return Err(mtrr_error(MtrrErrorDetail::InvalidVariableCount));
    }
    let fixed_enabled: bool = raw.default_type & FIXED_ENABLE != 0;
    if fixed_enabled && raw.capability & FIXED_SUPPORTED == 0 {
        return Err(mtrr_error(MtrrErrorDetail::FixedUnsupported));
    }
    let mut ranges: Vec<DecodedRange> = Vec::new();
    reserve(
        &mut ranges,
        variable_count + if fixed_enabled {
            88
        } else {
            0
        },
    )?;
    if fixed_enabled {
        let mut register: usize = 0;
        assert(ranges@ =~= fixed_ranges(raw.fixed@, 0));
        while register < 11
            invariant
                register <= 11,
                raw.decode_fault() matches Some(fault) ==> !found_early(fault),
                ranges@ == fixed_ranges(raw.fixed@, (8 * register) as nat),
                fixed_known(raw.fixed@, 8 * register),
                raw.fixed_enabled(),
                raw.default_type & MTRR_ENABLE != 0,
                raw.default_type & !0xcffu64 == 0,
                EptMemoryType::from_code((raw.default_type & 0xff) as u8) is Some,
                raw.variable@.len() == raw.capability & 0xff,
                raw.capability & FIXED_SUPPORTED != 0,
            decreases 11 - register,
        {
            let start: u64 = if register == 0 {
                0
            } else if register == 1 {
                0x8_0000
            } else if register == 2 {
                0xa_0000
            } else {
                0xc_0000 + (register as u64 - 3) * 0x8000
            };
            let length: u64 = if register == 0 {
                0x1_0000
            } else if register < 3 {
                0x4000
            } else {
                0x1000
            };
            push_fixed_register(
                &mut ranges,
                raw.fixed[register],
                start,
                length,
                Ghost(raw.fixed@),
                Ghost(register as int),
            )?;
            register += 1;
        }
    }
    let ghost fixed_part = ranges@;
    let max_physical_bits: u8 = raw.max_physical_bits;
    if max_physical_bits < 12 || max_physical_bits > 48 {
        return Err(mtrr_error(MtrrErrorDetail::InvalidVariableMask));
    }
    proof {
        bits::lemma_width_limit(max_physical_bits);
    }
    let architectural_limit: u64 = 1u64 << (max_physical_bits as u64);
    let width_mask: u64 = architectural_limit - 1;
    let selected: u64 = width_mask & !(PAGE_SIZE_4K - 1);
    let mut index: usize = 0;
    while index < raw.variable.len()
        invariant
            index <= raw.variable@.len() <= 255,
            raw.decode_fault() matches Some(fault) ==> !found_early(fault),
            max_physical_bits == raw.max_physical_bits,
            12 <= max_physical_bits <= 48,
            architectural_limit == bits::width_limit(max_physical_bits),
            architectural_limit <= 0x1_0000_0000_0000,
            width_mask == architectural_limit - 1,
            selected == address_mask(max_physical_bits),
            variables_fault(raw.variable@.take(index as int), max_physical_bits) is None,
            ranges@ == fixed_part + variable_ranges(
                raw.variable@.take(index as int),
                max_physical_bits,
            ),
            ranges@.len() <= 88 + index,
            fixed_part == if raw.fixed_enabled() {
                fixed_ranges(raw.fixed@, 88)
            } else {
                Seq::empty()
            },
            raw.decode_fault() == variables_fault(raw.variable@, max_physical_bits),
        decreases raw.variable@.len() - index,
    {
        let value = raw.variable[index];
        let ghost seen = raw.variable@.take(index + 1);
        proof {
            assert(seen.drop_last() =~= raw.variable@.take(index as int));
            assert(seen.last() == value);
        }
        if value.mask & VARIABLE_VALID == 0 {
            index += 1;
            continue;
        }
        proof {
            if variable_fault(value, max_physical_bits) is Some {
                lemma_variables_fault_prefix(
                    raw.variable@,
                    max_physical_bits,
                    index + 1,
                );
            }
            lemma_variable_bits(value.mask, value.base, max_physical_bits);
        }
        if value.base & !(selected | 0xff) != 0 || value.base & 0xf00 != 0 || value.mask & !(
        selected | VARIABLE_VALID) != 0 {
            return Err(mtrr_error(MtrrErrorDetail::InvalidVariableMask));
        }
        let memory_type = match EptMemoryType::from_code((value.base & 0xff) as u8) {
            Some(memory_type) => memory_type,
            None => {
                return Err(mtrr_error(MtrrErrorDetail::InvalidVariableType));
            },
        };
        let mask: u64 = value.mask & selected;
        let size: u64 = ((!mask) & width_mask) + 1;
        if size < PAGE_SIZE_4K || size & (size - 1) != 0 || mask != selected & !(size - 1) {
            return Err(mtrr_error(MtrrErrorDetail::InvalidVariableMask));
        }
        let start: u64 = value.base & selected;
        if start & (size - 1) != 0 {
            return Err(mtrr_error(MtrrErrorDetail::MisalignedVariableRange));
        }
        let end_exclusive: u64 = start + size;
        if end_exclusive > architectural_limit {
            return Err(mtrr_error(MtrrErrorDetail::VariableRangeOverflow));
        }
        ranges.push(DecodedRange { start, end_exclusive, memory_type, fixed: false });
        proof {
            assert(ranges@ =~= fixed_part + variable_ranges(seen, max_physical_bits));
        }
        index += 1;
    }
    proof {
        assert(raw.variable@.take(index as int) =~= raw.variable@);
    }
    Ok((default_type, ranges))
}

proof fn lemma_variables_fault_prefix(
    variable: Seq<RawVariableMtrr>,
    max_physical_bits: u8,
    count: int,
)
    requires
        0 <= count <= variable.len(),
        variables_fault(variable.take(count), max_physical_bits) is Some,
    ensures
        variables_fault(variable, max_physical_bits) == variables_fault(
            variable.take(count),
            max_physical_bits,
        ),
    decreases variable.len() - count,
{
    if count == variable.len() {
        assert(variable.take(count) =~= variable);
    } else {
        let next = variable.take(count + 1);
        assert(next.drop_last() =~= variable.take(count));
        lemma_variables_fault_prefix(variable, max_physical_bits, count + 1);
    }
}

pub proof fn lemma_variable_bits(mask: u64, base: u64, max_physical_bits: u8)
    by (bit_vector)
    requires
        12 <= max_physical_bits <= 48,
    ensures
        (!(mask & ((((1u64 << (max_physical_bits as u64)) - 1) as u64) & !0xfffu64))) & (((1u64 << (
        max_physical_bits as u64)) - 1) as u64) < 0x1_0000_0000_0000,
        base & ((((1u64 << (max_physical_bits as u64)) - 1) as u64) & !0xfffu64)
            < 0x1_0000_0000_0000,
        (base & ((((1u64 << (max_physical_bits as u64)) - 1) as u64) & !0xfffu64)) % 0x1000 == 0,
{
}

/// Whether a variable range of this type holds an address.
pub open spec fn variable_covers(
    ranges: Seq<DecodedRange>,
    address: int,
    memory_type: EptMemoryType,
) -> bool {
    exists|i: int|
        0 <= i < ranges.len() && !(#[trigger] ranges[i]).fixed && ranges[i].memory_type
            == memory_type && covers(ranges[i], address)
}

/// The type that the variable ranges give an address: the default where none
/// holds it, uncacheable where one says so, the common type where all agree,
/// write-through where write-back and write-through meet; other mixes have no
/// defined type.
pub open spec fn variable_type(
    ranges: Seq<DecodedRange>,
    address: int,
    default_type: EptMemoryType,
) -> Option<EptMemoryType> {
    let uc = variable_covers(ranges, address, EptMemoryType::Uncacheable);
    let wc = variable_covers(ranges, address, EptMemoryType::WriteCombining);
    let wt = variable_covers(ranges, address, EptMemoryType::WriteThrough);
    let wp = variable_covers(ranges, address, EptMemoryType::WriteProtected);
    let wb = variable_covers(ranges, address, EptMemoryType::WriteBack);
    if uc {
        Some(EptMemoryType::Uncacheable)
    } else if !wc && !wt && !wp && !wb {
        Some(default_type)
    } else if wc && !wt && !wp && !wb {
        Some(EptMemoryType::WriteCombining)
    } else if wp && !wc && !wt && !wb {
        Some(EptMemoryType::WriteProtected)
    } else if wb && !wc && !wt && !wp {
        Some(EptMemoryType::WriteBack)
    } else if wt && !wc && !wp {
        Some(EptMemoryType::WriteThrough)
    } else {
        None
    }
}

/// Whether the range at position `i` is the first fixed one to hold an address.
pub open spec fn first_fixed(ranges: Seq<DecodedRange>, address: int, i: int) -> bool {
    &&& 0 <= i < ranges.len()
    &&& ranges[i].fixed
    &&& covers(ranges[i], address)
    &&& forall|j: int| 0 <= j < i ==> !((#[trigger] ranges[j]).fixed && covers(ranges[j], address))
}

/// The type that the registers give an address; fixed ranges come before
/// variable ones. `None` is an overlap without a defined type.
pub open spec fn effective_type(
    ranges: Seq<DecodedRange>,
    address: int,
    default_type: EptMemoryType,
) -> Option<EptMemoryType> {
    if exists|i: int| #[trigger] first_fixed(ranges, address, i) {
        let i = choose|i: int| #[trigger] first_fixed(ranges, address, i);
        Some(ranges[i].memory_type)
    } else {
        variable_type(ranges, address, default_type)
    }
}

impl RawMtrrState {
    /// The memory type of an address under these registers.
    pub open spec fn memory_type_of(self, address: int) -> Option<EptMemoryType> {
        effective_type(self.ranges(), address, self.default_memory_type())
    }

    /// Why the registers do not give the aperture a map.
    pub open spec fn map_fault(self, aperture_end: u64) -> Option<MtrrErrorDetail> {
        if self.max_physical_bits >= 64 || aperture_end == 0 || aperture_end % 0x1000 != 0
            || aperture_end > bits::width_limit(self.max_physical_bits) {
            Some(MtrrErrorDetail::InvalidAperture)
        } else if self.decode_fault() is Some {
            self.decode_fault()
        } else if exists|address: int|
            0 <= address < aperture_end && (#[trigger] self.memory_type_of(address)) is None {
            Some(MtrrErrorDetail::UnsupportedOverlap)
        } else {
            None
        }
    }
}

/// A range holds all of a run of addresses or none of it.
pub open spec fn undivided(range: DecodedRange, start: int, end_exclusive: int) -> bool {
    ||| range.start <= start && end_exclusive <= range.end_exclusive
    ||| range.end_exclusive <= start
    ||| end_exclusive <= range.start
}

/// Where no range divides a run, its addresses have one type.
proof fn lemma_effective_uniform(
    ranges: Seq<DecodedRange>,
    start: int,
    end_exclusive: int,
    address: int,
    default_type: EptMemoryType,
)
    requires
        start <= address < end_exclusive,
        forall|i: int|
            0 <= i < ranges.len() ==> undivided(#[trigger] ranges[i], start, end_exclusive),
    ensures
        effective_type(ranges, address, default_type) == effective_type(
            ranges,
            start,
            default_type,
        ),
{
    assert forall|i: int| 0 <= i < ranges.len() implies covers(#[trigger] ranges[i], address)
        == covers(ranges[i], start) by {
        assert(undivided(ranges[i], start, end_exclusive));
    }
    assert forall|i: int| #[trigger]
        first_fixed(ranges, address, i) == first_fixed(ranges, start, i) by {
        assert forall|j: int| 0 <= j < i && i < ranges.len() implies covers(
            #[trigger] ranges[j],
            address,
        ) == covers(ranges[j], start) by {}
    }
    assert forall|t: EptMemoryType| #[trigger]
        variable_covers(ranges, address, t) == variable_covers(ranges, start, t) by {
        if variable_covers(ranges, address, t) {
            let i = choose|i: int|
                0 <= i < ranges.len() && !(#[trigger] ranges[i]).fixed && ranges[i].memory_type == t
                    && covers(ranges[i], address);
            assert(covers(ranges[i], start));
        }
        if variable_covers(ranges, start, t) {
            let i = choose|i: int|
                0 <= i < ranges.len() && !(#[trigger] ranges[i]).fixed && ranges[i].memory_type == t
                    && covers(ranges[i], start);
            assert(covers(ranges[i], address));
        }
    }
    assert((exists|i: int| #[trigger] first_fixed(ranges, address, i)) == (exists|i: int| #[trigger]
        first_fixed(ranges, start, i))) by {
        if exists|i: int| #[trigger] first_fixed(ranges, address, i) {
            let i = choose|i: int| #[trigger] first_fixed(ranges, address, i);
            assert(first_fixed(ranges, start, i));
        }
        if exists|i: int| #[trigger] first_fixed(ranges, start, i) {
            let i = choose|i: int| #[trigger] first_fixed(ranges, start, i);
            assert(first_fixed(ranges, address, i));
        }
    }
    if exists|i: int| #[trigger] first_fixed(ranges, address, i) {
        let i = choose|i: int| #[trigger] first_fixed(ranges, address, i);
        let k = choose|k: int| #[trigger] first_fixed(ranges, start, k);
        assert(first_fixed(ranges, start, i));
        assert(first_fixed(ranges, start, k));
        lemma_first_fixed_unique(ranges, start, i, k);
    }
}

pub proof fn lemma_first_fixed_unique(ranges: Seq<DecodedRange>, address: int, i: int, k: int)
    requires
        first_fixed(ranges, address, i),
        first_fixed(ranges, address, k),
    ensures
        i == k,
{
    if i < k {
        assert(!(ranges[i].fixed && covers(ranges[i], address)));
    } else if k < i {
        assert(!(ranges[k].fixed && covers(ranges[k], address)));
    }
}

/// The type that the variable ranges give an undivided run.
fn resolve_variable_type(
    ranges: &[DecodedRange],
    start: u64,
    end_exclusive: u64,
    default_type: EptMemoryType,
) -> (result: MonadResult<EptMemoryType>)
    requires
        start < end_exclusive,
        forall|i: int|
            0 <= i < ranges@.len() ==> undivided(
                #[trigger] ranges@[i],
                start as int,
                end_exclusive as int,
            ),
    ensures
        match variable_type(ranges@, start as int, default_type) {
            Some(memory_type) => result == Ok::<EptMemoryType, MonadError>(memory_type),
            None => result == Err::<EptMemoryType, MonadError>(
                MtrrErrorDetail::UnsupportedOverlap.spec_error(),
            ),
        },
{
    let mut uc: bool = false;
    let mut wc: bool = false;
    let mut wt: bool = false;
    let mut wp: bool = false;
    let mut wb: bool = false;
    let mut i: usize = 0;
    let ghost a = start as int;
    while i < ranges.len()
        invariant
            i <= ranges@.len(),
            start < end_exclusive,
            a == start,
            forall|k: int|
                0 <= k < ranges@.len() ==> undivided(
                    #[trigger] ranges@[k],
                    start as int,
                    end_exclusive as int,
                ),
            uc == variable_covers(ranges@.take(i as int), a, EptMemoryType::Uncacheable),
            wc == variable_covers(ranges@.take(i as int), a, EptMemoryType::WriteCombining),
            wt == variable_covers(ranges@.take(i as int), a, EptMemoryType::WriteThrough),
            wp == variable_covers(ranges@.take(i as int), a, EptMemoryType::WriteProtected),
            wb == variable_covers(ranges@.take(i as int), a, EptMemoryType::WriteBack),
        decreases ranges@.len() - i,
    {
        let range = ranges[i];
        proof {
            lemma_variable_covers_step(ranges@, a, i as int, EptMemoryType::Uncacheable);
            lemma_variable_covers_step(ranges@, a, i as int, EptMemoryType::WriteCombining);
            lemma_variable_covers_step(ranges@, a, i as int, EptMemoryType::WriteThrough);
            lemma_variable_covers_step(ranges@, a, i as int, EptMemoryType::WriteProtected);
            lemma_variable_covers_step(ranges@, a, i as int, EptMemoryType::WriteBack);
            assert(undivided(ranges@[i as int], start as int, end_exclusive as int));
        }
        if !range.fixed && range.start <= start && end_exclusive <= range.end_exclusive {
            match range.memory_type {
                EptMemoryType::Uncacheable => {
                    uc = true;
                },
                EptMemoryType::WriteCombining => {
                    wc = true;
                },
                EptMemoryType::WriteThrough => {
                    wt = true;
                },
                EptMemoryType::WriteProtected => {
                    wp = true;
                },
                EptMemoryType::WriteBack => {
                    wb = true;
                },
            }
        }
        i += 1;
    }
    proof {
        assert(ranges@.take(i as int) =~= ranges@);
    }
    if uc {
        return Ok(EptMemoryType::Uncacheable);
    }
    if !wc && !wt && !wp && !wb {
        return Ok(default_type);
    }
    if wc && !wt && !wp && !wb {
        return Ok(EptMemoryType::WriteCombining);
    }
    if wp && !wc && !wt && !wb {
        return Ok(EptMemoryType::WriteProtected);
    }
    if wb && !wc && !wt && !wp {
        return Ok(EptMemoryType::WriteBack);
    }
    if wt && !wc && !wp {
        return Ok(EptMemoryType::WriteThrough);
    }
    Err(mtrr_error(MtrrErrorDetail::UnsupportedOverlap))
}

proof fn lemma_variable_covers_step(
    ranges: Seq<DecodedRange>,
    address: int,
    count: int,
    memory_type: EptMemoryType,
)
    requires
        0 <= count < ranges.len(),
    ensures
        variable_covers(ranges.take(count + 1), address, memory_type) == (variable_covers(
            ranges.take(count),
            address,
            memory_type,
        ) || (!ranges[count].fixed && ranges[count].memory_type == memory_type && covers(
            ranges[count],
            address,
        ))),
{
    let before = ranges.take(count);
    let after = ranges.take(count + 1);
    if variable_covers(before, address, memory_type) {
        let i = choose|i: int|
            0 <= i < before.len() && !(#[trigger] before[i]).fixed && before[i].memory_type
                == memory_type && covers(before[i], address);
        assert(after[i] == before[i]);
    }
    assert(after[count] == ranges[count]);
    if variable_covers(after, address, memory_type) {
        let i = choose|i: int|
            0 <= i < after.len() && !(#[trigger] after[i]).fixed && after[i].memory_type
                == memory_type && covers(after[i], address);
        if i < count {
            assert(before[i] == after[i]);
        }
    }
}

/// The type that the registers give an undivided run.
fn resolve_type(
    ranges: &[DecodedRange],
    start: u64,
    end_exclusive: u64,
    default_type: EptMemoryType,
) -> (result: MonadResult<EptMemoryType>)
    requires
        start < end_exclusive,
        forall|i: int|
            0 <= i < ranges@.len() ==> undivided(
                #[trigger] ranges@[i],
                start as int,
                end_exclusive as int,
            ),
    ensures
        match effective_type(ranges@, start as int, default_type) {
            Some(memory_type) => result == Ok::<EptMemoryType, MonadError>(memory_type),
            None => result == Err::<EptMemoryType, MonadError>(
                MtrrErrorDetail::UnsupportedOverlap.spec_error(),
            ),
        },
{
    let mut i: usize = 0;
    while i < ranges.len()
        invariant
            i <= ranges@.len(),
            start < end_exclusive,
            forall|k: int|
                0 <= k < ranges@.len() ==> undivided(
                    #[trigger] ranges@[k],
                    start as int,
                    end_exclusive as int,
                ),
            forall|k: int|
                0 <= k < i ==> !((#[trigger] ranges@[k]).fixed && covers(ranges@[k], start as int)),
        decreases ranges@.len() - i,
    {
        let range = ranges[i];
        assert(undivided(ranges@[i as int], start as int, end_exclusive as int));
        if range.fixed && range.start <= start && end_exclusive <= range.end_exclusive {
            proof {
                assert(first_fixed(ranges@, start as int, i as int));
                let k = choose|k: int| #[trigger] first_fixed(ranges@, start as int, k);
                lemma_first_fixed_unique(ranges@, start as int, i as int, k);
            }
            return Ok(range.memory_type);
        }
        i += 1;
    }
    resolve_variable_type(ranges, start, end_exclusive, default_type)
}

proof fn lemma_page_multiple(size: u64)
    by (bit_vector)
    requires
        size != 0,
        size & ((size - 1) as u64) == 0,
        size >= 0x1000,
    ensures
        size % 0x1000 == 0,
{
}

/// Every decoded variable range is made of whole pages.
proof fn lemma_variable_ranges_are_pages(variable: Seq<RawVariableMtrr>, max_physical_bits: u8)
    requires
        12 <= max_physical_bits <= 48,
        variables_fault(variable, max_physical_bits) is None,
    ensures
        forall|i: int|
            0 <= i < variable_ranges(variable, max_physical_bits).len() ==> page_range(
                #[trigger] variable_ranges(variable, max_physical_bits)[i],
            ),
    decreases variable.len(),
{
    if variable.len() > 0 {
        lemma_variable_ranges_are_pages(variable.drop_last(), max_physical_bits);
        let value = variable.last();
        if variable_in_use(value) {
            lemma_variable_bits(value.mask, value.base, max_physical_bits);
            bits::lemma_width_limit(max_physical_bits);
            let size = variable_size(value.mask, max_physical_bits);
            lemma_page_multiple(size as u64);
            let before = variable_ranges(variable.drop_last(), max_physical_bits);
            let after = variable_ranges(variable, max_physical_bits);
            let added = variable_range(value, max_physical_bits);
            assert(after == before.push(added));
            assert(page_range(added));
            assert forall|i: int| 0 <= i < after.len() implies page_range(#[trigger] after[i]) by {
                if i < before.len() {
                    assert(after[i] == before[i]);
                }
            }
        } else {
            assert(variable_ranges(variable, max_physical_bits) == variable_ranges(
                variable.drop_last(),
                max_physical_bits,
            ));
        }
    }
}

/// Every decoded range is made of whole pages.
proof fn lemma_ranges_are_pages(raw: RawMtrrState)
    requires
        raw.decode_fault() is None,
    ensures
        forall|i: int| 0 <= i < raw.ranges().len() ==> page_range(#[trigger] raw.ranges()[i]),
{
    lemma_variable_ranges_are_pages(raw.variable@, raw.max_physical_bits);
    let variable = variable_ranges(raw.variable@, raw.max_physical_bits);
    let ranges = raw.ranges();
    assert forall|i: int| 0 <= i < ranges.len() implies page_range(#[trigger] ranges[i]) by {
        if raw.fixed_enabled() {
            if i < 88 {
                assert(fixed_range(raw.fixed@, i) is Some);
                assert(ranges[i] == fixed_range(raw.fixed@, i).unwrap());
            } else {
                assert(ranges[i] == variable[i - 88]);
            }
        } else {
            assert(ranges[i] == variable[i]);
        }
    }
}

/// A cover that is extended by one more run of addresses.
pub open spec fn extended(
    intervals: Seq<MemoryTypeInterval>,
    start: u64,
    end_exclusive: u64,
    memory_type: EptMemoryType,
) -> Seq<MemoryTypeInterval> {
    if intervals.len() > 0 && intervals.last().memory_type == memory_type {
        intervals.update(
            intervals.len() - 1,
            MemoryTypeInterval { end_exclusive, ..intervals.last() },
        )
    } else {
        intervals.push(MemoryTypeInterval { start, end_exclusive, memory_type })
    }
}

/// Whether intervals cover everything below `end`; nothing covers nothing.
pub open spec fn covers_below(intervals: Seq<MemoryTypeInterval>, end: u64) -> bool {
    if end == 0 {
        intervals.len() == 0
    } else {
        exact_cover(intervals, end)
    }
}

proof fn lemma_extended(
    intervals: Seq<MemoryTypeInterval>,
    start: u64,
    end_exclusive: u64,
    memory_type: EptMemoryType,
)
    requires
        covers_below(intervals, start),
        start < end_exclusive,
        start % 0x1000 == 0,
        end_exclusive % 0x1000 == 0,
    ensures
        exact_cover(extended(intervals, start, end_exclusive, memory_type), end_exclusive),
        forall|address: int|
            0 <= address < start ==> #[trigger] type_at(
                extended(intervals, start, end_exclusive, memory_type),
                address,
            ) == type_at(intervals, address),
        forall|address: int|
            start <= address < end_exclusive ==> #[trigger] type_at(
                extended(intervals, start, end_exclusive, memory_type),
                address,
            ) == Some(memory_type),
{
    let after = extended(intervals, start, end_exclusive, memory_type);
    let last = after.len() - 1;
    assert(exact_cover(after, end_exclusive)) by {
        assert forall|i: int| 0 <= i < after.len() implies {
            &&& (#[trigger] after[i]).start < after[i].end_exclusive
            &&& after[i].start % 0x1000 == 0
            &&& after[i].end_exclusive % 0x1000 == 0
        } by {
            if i < intervals.len() {
                assert(intervals[i].start < intervals[i].end_exclusive);
            }
        }
        assert forall|i: int, j: int|
            #![trigger after[i], after[j]]
            0 <= i && j == i + 1 && j < after.len() implies {
            &&& after[i].end_exclusive == after[j].start
            &&& after[i].memory_type != after[j].memory_type
        } by {
            if j < intervals.len() {
                assert(intervals[i].end_exclusive == intervals[j].start);
                assert(intervals[i].memory_type != intervals[j].memory_type);
            }
        }
        if intervals.len() > 0 {
            assert(after[0].start == intervals[0].start);
        }
    }
    assert forall|address: int| 0 <= address < start implies #[trigger] type_at(after, address)
        == type_at(intervals, address) by {
        let i = lemma_cover_find(intervals, start, address, intervals.len() - 1);
        lemma_cover_type_at(intervals, start, i, address);
        assert(in_interval(after[i], address));
        lemma_cover_type_at(after, end_exclusive, i, address);
    }
    assert forall|address: int| start <= address < end_exclusive implies #[trigger] type_at(
        after,
        address,
    ) == Some(memory_type) by {
        assert(in_interval(after[last], address)) by {
            if after.len() == intervals.len() {
                assert(intervals[last].end_exclusive == start);
                assert(intervals[last].start < intervals[last].end_exclusive);
            }
        }
        lemma_cover_type_at(after, end_exclusive, last, address);
    }
}

/// The places at which the type may change: zero, the end of the aperture,
/// and the bounds of every range that reaches into it.
fn collect_boundaries(ranges: &[DecodedRange], aperture_end: u64) -> (result: MonadResult<Vec<u64>>)
    requires
        ranges@.len() <= 343,
        aperture_end > 0,
        aperture_end % 0x1000 == 0,
        forall|i: int| 0 <= i < ranges@.len() ==> page_range(#[trigger] ranges@[i]),
    ensures
        match result {
            Ok(boundaries) => {
                &&& sorted::ascending(boundaries@)
                &&& boundaries@.len() >= 2
                &&& boundaries@[0] == 0
                &&& boundaries@.last() == aperture_end
                &&& forall|k: int|
                    0 <= k < boundaries@.len() ==> (#[trigger] boundaries@[k]) % 0x1000 == 0
                &&& forall|k: int, i: int|
                    0 <= k < boundaries@.len() - 1 && 0 <= i < ranges@.len()
                        ==> #[trigger] undivided(
                        ranges@[i],
                        boundaries@[k] as int,
                        boundaries@[k + 1] as int,
                    )
            },
            Err(error) => error == MtrrErrorDetail::AllocationFailure.spec_error(),
        },
{
    let mut boundaries: Vec<u64> = Vec::new();
    let reserved = boundaries.try_reserve(2 + ranges.len() * 2);
    if reserved.is_err() {
        return Err(mtrr_error(MtrrErrorDetail::AllocationFailure));
    }
    sorted::insert_ascending(&mut boundaries, 0);
    sorted::insert_ascending(&mut boundaries, aperture_end);
    let mut i: usize = 0;
    while i < ranges.len()
        invariant
            i <= ranges@.len(),
            aperture_end > 0,
            aperture_end % 0x1000 == 0,
            forall|k: int| 0 <= k < ranges@.len() ==> page_range(#[trigger] ranges@[k]),
            sorted::ascending(boundaries@),
            boundaries@.contains(0),
            boundaries@.contains(aperture_end),
            forall|x: u64| #[trigger]
                boundaries@.contains(x) ==> x <= aperture_end && x % 0x1000 == 0,
            forall|k: int|
                0 <= k < i ==> (#[trigger] ranges@[k]).start < aperture_end ==> {
                    &&& boundaries@.contains(ranges@[k].start)
                    &&& ranges@[k].end_exclusive < aperture_end ==> boundaries@.contains(
                        ranges@[k].end_exclusive,
                    )
                },
        decreases ranges@.len() - i,
    {
        let range = ranges[i];
        assert(page_range(ranges@[i as int]));
        let start: u64 = if range.start < aperture_end {
            range.start
        } else {
            aperture_end
        };
        let end: u64 = if range.end_exclusive < aperture_end {
            range.end_exclusive
        } else {
            aperture_end
        };
        if start < end {
            sorted::insert_ascending(&mut boundaries, start);
            sorted::insert_ascending(&mut boundaries, end);
        }
        i += 1;
    }
    proof {
        let b = boundaries@;
        let zero = choose|k: int| 0 <= k < b.len() && b[k] == 0;
        let end = choose|k: int| 0 <= k < b.len() && b[k] == aperture_end;
        assert(b[zero] == 0 && b[end] == aperture_end);
        assert(b.contains(b[0]));
        assert(b.contains(b.last()));
        if zero > 0 {
            assert(b[0] < b[zero]);
        }
        if end < b.len() - 1 {
            assert(b[end] < b[b.len() - 1]);
        }
        assert forall|k: int| 0 <= k < b.len() implies (#[trigger] b[k]) % 0x1000 == 0 by {
            assert(b.contains(b[k]));
        }
        assert forall|k: int, i: int|
            0 <= k < b.len() - 1 && 0 <= i < ranges@.len() implies #[trigger] undivided(
            ranges@[i],
            b[k] as int,
            b[k + 1] as int,
        ) by {
            let range = ranges@[i];
            assert(b.contains(b[k + 1]));
            if range.start < aperture_end {
                assert(b.contains(range.start));
                let s = choose|s: int| 0 <= s < b.len() && b[s] == range.start;
                if s <= k {
                    assert(b[s] <= b[k]);
                    if range.end_exclusive < aperture_end {
                        assert(b.contains(range.end_exclusive));
                        let e = choose|e: int| 0 <= e < b.len() && b[e] == range.end_exclusive;
                        if e <= k {
                            assert(b[e] <= b[k]);
                        } else {
                            assert(b[k + 1] <= b[e]);
                        }
                    }
                } else {
                    assert(b[k + 1] <= b[s]);
                }
            }
        }
    }
    Ok(boundaries)
}

/// Turns range registers into a map of the aperture. The map gives every
/// address the type that the registers give it; where they give it none, or
/// cannot be decoded, there is no map. A fault that shows at first sight is
/// reported whether or not there is memory.
pub fn normalize_mtrrs(raw: &RawMtrrState, aperture_end: u64) -> (result: MonadResult<
    NormalizedMemoryMap,
>)
    ensures
        match result {
            Ok(map) => {
                &&& raw.map_fault(aperture_end) is None
                &&& map.spec_aperture_end() == aperture_end
                &&& exact_cover(map.view(), aperture_end)
                &&& forall|address: int|
                    0 <= address < aperture_end ==> #[trigger] type_at(map.view(), address)
                        == raw.memory_type_of(address)
            },
            Err(error) => {
                ||| raw.map_fault(aperture_end) matches Some(fault) && error == fault.spec_error()
                ||| error == MtrrErrorDetail::AllocationFailure.spec_error()
            },
        },
        raw.map_fault(aperture_end) is Some && found_early(raw.map_fault(aperture_end).unwrap())
            ==> result is Err && result->Err_0 == raw.map_fault(
            aperture_end,
        ).unwrap().spec_error(),
{
    if raw.max_physical_bits >= 64 {
        return Err(mtrr_error(MtrrErrorDetail::InvalidAperture));
    }
    let architectural_limit: u64 = 1u64 << (raw.max_physical_bits as u64);
    proof {
        bits::lemma_low_masks(aperture_end);
    }
    if aperture_end == 0 || aperture_end & (PAGE_SIZE_4K - 1) != 0 || aperture_end
        > architectural_limit {
        return Err(mtrr_error(MtrrErrorDetail::InvalidAperture));
    }
    let (default_type, ranges) = decode_ranges(raw)?;
    proof {
        lemma_ranges_are_pages(*raw);
    }
    let boundaries = collect_boundaries(ranges.as_slice(), aperture_end)?;
    let mut intervals: Vec<MemoryTypeInterval> = Vec::new();
    let reserved = intervals.try_reserve(boundaries.len() - 1);
    if reserved.is_err() {
        return Err(mtrr_error(MtrrErrorDetail::AllocationFailure));
    }
    let mut k: usize = 0;
    while k + 1 < boundaries.len()
        invariant
            k < boundaries@.len(),
            ranges@ == raw.ranges(),
            default_type == raw.default_memory_type(),
            raw.decode_fault() is None,
            raw.max_physical_bits < 64,
            aperture_end != 0,
            aperture_end % 0x1000 == 0,
            aperture_end <= bits::width_limit(raw.max_physical_bits),
            sorted::ascending(boundaries@),
            boundaries@[0] == 0,
            boundaries@.last() == aperture_end,
            forall|j: int| 0 <= j < boundaries@.len() ==> (#[trigger] boundaries@[j]) % 0x1000 == 0,
            forall|j: int, i: int|
                0 <= j < boundaries@.len() - 1 && 0 <= i < ranges@.len() ==> #[trigger] undivided(
                    ranges@[i],
                    boundaries@[j] as int,
                    boundaries@[j + 1] as int,
                ),
            covers_below(intervals@, boundaries@[k as int]),
            forall|address: int|
                0 <= address < boundaries@[k as int] ==> {
                    &&& #[trigger] type_at(intervals@, address) == raw.memory_type_of(address)
                    &&& raw.memory_type_of(address) is Some
                },
        decreases boundaries@.len() - k,
    {
        let start: u64 = boundaries[k];
        let end_exclusive: u64 = boundaries[k + 1];
        proof {
            assert(boundaries@[k as int] < boundaries@[k + 1]);
            assert(boundaries@[k + 1] <= boundaries@[boundaries@.len() - 1]);
            assert forall|i: int| 0 <= i < ranges@.len() implies undivided(
                #[trigger] ranges@[i],
                start as int,
                end_exclusive as int,
            ) by {
                assert(undivided(
                    ranges@[i],
                    boundaries@[k as int] as int,
                    boundaries@[k as int + 1] as int,
                ));
            }
        }
        let memory_type = match resolve_type(
            ranges.as_slice(),
            start,
            end_exclusive,
            default_type,
        ) {
            Ok(memory_type) => memory_type,
            Err(error) => {
                assert(raw.memory_type_of(start as int) is None);
                return Err(error);
            },
        };
        let ghost before = intervals@;
        let count: usize = intervals.len();
        if count > 0 && intervals[count - 1].memory_type == memory_type {
            let last = intervals[count - 1];
            intervals.set(count - 1, MemoryTypeInterval { end_exclusive, ..last });
        } else {
            intervals.push(MemoryTypeInterval { start, end_exclusive, memory_type });
        }
        proof {
            assert(intervals@ =~= extended(before, start, end_exclusive, memory_type));
            lemma_extended(before, start, end_exclusive, memory_type);
            assert forall|address: int| 0 <= address < end_exclusive implies {
                &&& #[trigger] type_at(intervals@, address) == raw.memory_type_of(address)
                &&& raw.memory_type_of(address) is Some
            } by {
                if address < start {
                    assert(type_at(before, address) == raw.memory_type_of(address));
                } else {
                    lemma_effective_uniform(
                        ranges@,
                        start as int,
                        end_exclusive as int,
                        address,
                        default_type,
                    );
                }
            }
        }
        k += 1;
    }
    let result = NormalizedMemoryMap::from_intervals(intervals.as_slice(), aperture_end);
    proof {
        assert forall|address: int| 0 <= address < aperture_end implies (
        #[trigger] raw.memory_type_of(address)) is Some by {
            assert(type_at(intervals@, address) == raw.memory_type_of(address));
        }
    }
    result
}

} // verus!
