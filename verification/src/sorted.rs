//! Sets of numbers kept as strictly ascending vectors.

use vstd::prelude::*;

verus! {

/// Each number is below the next.
pub open spec fn ascending(values: Seq<u64>) -> bool {
    forall|i: int, j: int| 0 <= i < j < values.len() ==> values[i] < values[j]
}

/// Adds a number to the set; one that is already there changes nothing.
pub fn insert_ascending(values: &mut Vec<u64>, value: u64)
    requires
        ascending(old(values)@),
    ensures
        ascending(final(values)@),
        forall|x: u64| #[trigger]
            final(values)@.contains(x) <==> (old(values)@.contains(x) || x == value),
        final(values)@.len() <= old(values)@.len() + 1,
{
    let ghost before = values@;
    let mut position: usize = values.len();
    while position > 0 && values[position - 1] > value
        invariant
            position <= values@.len(),
            values@ == before,
            forall|k: int| position <= k < values@.len() ==> values@[k] > value,
        decreases position,
    {
        position -= 1;
    }
    if position > 0 && values[position - 1] == value {
        assert(values@[position - 1] == value);
        return;
    }
    values.insert(position, value);
    let ghost after = values@;
    assert(after[position as int] == value);
    assert(ascending(after)) by {
        assert forall|i: int, j: int| 0 <= i < j < after.len() implies after[i] < after[j] by {
            let si = if i < position {
                i
            } else {
                i - 1
            };
            let sj = if j < position {
                j
            } else {
                j - 1
            };
            if i != position {
                assert(after[i] == before[si]);
            }
            if j != position {
                assert(after[j] == before[sj]);
            }
            if i < position && position > 0 {
                assert(before[i] <= before[position - 1]);
            }
        }
    }
    assert forall|x: u64| #[trigger] after.contains(x) <==> (before.contains(x) || x == value) by {
        if before.contains(x) {
            let k = choose|k: int| 0 <= k < before.len() && before[k] == x;
            if k < position {
                assert(after[k] == x);
            } else {
                assert(after[k + 1] == x);
            }
        }
        if after.contains(x) {
            let k = choose|k: int| 0 <= k < after.len() && after[k] == x;
            if k < position {
                assert(before[k] == x);
            } else if k > position {
                assert(before[k - 1] == x);
            }
        }
    }
}

} // verus!
