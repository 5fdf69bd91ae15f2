//! Counting how many processors have come as far as a rank.

use vstd::prelude::*;

verus! {

/// How many of the ranks are at least as high as another.
pub open spec fn tally(ranks: Seq<int>, least: int) -> int
    decreases ranks.len(),
{
    if ranks.len() == 0 {
        0
    } else {
        tally(ranks.drop_last(), least) + if ranks.last() >= least {
            1int
        } else {
            0int
        }
    }
}

/// All have come as far as a rank when as many have as there are.
pub proof fn lemma_tally_bounds(ranks: Seq<int>, least: int)
    ensures
        0 <= tally(ranks, least) <= ranks.len(),
        tally(ranks, least) == ranks.len() ==> forall|k: int|
            0 <= k < ranks.len() ==> #[trigger] ranks[k] >= least,
    decreases ranks.len(),
{
    if ranks.len() > 0 {
        lemma_tally_bounds(ranks.drop_last(), least);
        if tally(ranks, least) == ranks.len() {
            assert forall|k: int| 0 <= k < ranks.len() implies #[trigger] ranks[k] >= least by {
                if k < ranks.len() - 1 {
                    assert(ranks.drop_last()[k] == ranks[k]);
                }
            }
        }
    }
}

pub proof fn lemma_tally_update(ranks: Seq<int>, least: int, k: int, rank: int)
    requires
        0 <= k < ranks.len(),
    ensures
        tally(ranks.update(k, rank), least) == tally(ranks, least) - (if ranks[k] >= least {
            1int
        } else {
            0int
        }) + (if rank >= least {
            1int
        } else {
            0int
        }),
    decreases ranks.len(),
{
    let after = ranks.update(k, rank);
    if k == ranks.len() - 1 {
        assert(after.drop_last() =~= ranks.drop_last());
    } else {
        assert(after.drop_last() =~= ranks.drop_last().update(k, rank));
        lemma_tally_update(ranks.drop_last(), least, k, rank);
    }
}

pub proof fn lemma_tally_none(ranks: Seq<int>, least: int)
    requires
        forall|k: int| 0 <= k < ranks.len() ==> #[trigger] ranks[k] < least,
    ensures
        tally(ranks, least) == 0,
    decreases ranks.len(),
{
    if ranks.len() > 0 {
        assert forall|k: int| 0 <= k < ranks.len() - 1 implies #[trigger] ranks.drop_last()[k]
            < least by {
            assert(ranks.drop_last()[k] == ranks[k]);
        }
        lemma_tally_none(ranks.drop_last(), least);
    }
}

} // verus!
