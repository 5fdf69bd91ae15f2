//! Memory with a stricter alignment than the kernel's pool gives.

use vstd::prelude::*;

verus! {

/// What the pool aligns to by itself.
pub const POOL_ALIGNMENT: usize = 16;

/// The bytes below an aligned block that hold the pool's own pointer.
pub const PREFIX: usize = 8;

/// A power of two.
pub open spec fn is_alignment(alignment: usize) -> bool {
    alignment > 0 && alignment & ((alignment - 1) as usize) == 0
}

/// How many bytes to ask the pool for.
pub open spec fn spec_allocation_size(size: usize, alignment: usize) -> Option<usize> {
    if alignment <= POOL_ALIGNMENT {
        Some(size)
    } else if size + alignment - 1 + PREFIX > usize::MAX {
        None
    } else {
        Some((size + alignment - 1 + PREFIX) as usize)
    }
}

/// How many bytes to ask the pool for.
#[verifier::when_used_as_spec(spec_allocation_size)]
pub fn allocation_size(size: usize, alignment: usize) -> (bytes: Option<usize>)
    ensures
        bytes == spec_allocation_size(size, alignment),
{
    if alignment <= POOL_ALIGNMENT {
        return Some(size);
    }
    match size.checked_add(alignment - 1) {
        Some(padded) => padded.checked_add(PREFIX),
        None => None,
    }
}

/// Where the aligned block of an allocation begins: at the first aligned place
/// that leaves room for the pool's own pointer.
pub fn aligned_address(base: usize, alignment: usize) -> (address: Option<usize>)
    requires
        is_alignment(alignment),
    ensures
        match address {
            None => base + PREFIX + alignment - 1 > usize::MAX,
            Some(address) => {
                &&& base + PREFIX + alignment - 1 <= usize::MAX
                &&& address & ((alignment - 1) as usize) == 0
                &&& base + PREFIX <= address < base + PREFIX + alignment
            },
        },
{
    let start: usize = match base.checked_add(PREFIX) {
        Some(start) => start,
        None => {
            return None;
        },
    };
    let low: usize = alignment - 1;
    match start.checked_add(low) {
        Some(value) => {
            proof {
                lemma_aligned(value, low);
            }
            Some(value & !low)
        },
        None => None,
    }
}

proof fn lemma_aligned(value: usize, low: usize)
    by (bit_vector)
    ensures
        (value & !low) & low == 0,
        value & !low <= value,
        value - (value & !low) <= low,
{
}

/// An aligned block, and the pool's own pointer below it, lie inside what was
/// asked of the pool.
pub proof fn law_block_fits(size: usize, alignment: usize, base: usize, address: usize)
    requires
        alignment > POOL_ALIGNMENT,
        spec_allocation_size(size, alignment) is Some,
        base + PREFIX <= address < base + PREFIX + alignment,
    ensures
        address - PREFIX >= base,
        address + size <= base + spec_allocation_size(size, alignment).unwrap(),
{
}

} // verus!
