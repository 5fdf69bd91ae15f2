//! All processors together during their launch: whatever the order of their
//! steps, they launch all or none.

use vstd::prelude::*;

use super::launch::{LaunchContext, LaunchStage};
use super::tally;
use super::vcpu::VcpuModel;
use crate::topology::MAX_LOGICAL_CPUS;

verus! {

/// A launch, the processors, and how far each has come; those that have not
/// tried yet have no stage.
pub struct Muster {
    pub launch: LaunchContext,
    pub vcpus: Seq<VcpuModel>,
    pub stages: Seq<Option<LaunchStage>>,
}

/// A launch that nobody has tried yet.
pub open spec fn begins(all: Muster) -> bool {
    let count = all.vcpus.len();
    &&& 0 < count <= MAX_LOGICAL_CPUS
    &&& all.stages.len() == count
    &&& all.launch.participant_count == count
    &&& all.launch.arrived == 0
    &&& all.launch.rollback_finished == 0
    &&& !all.launch.failed
    &&& !all.launch.fatal
    &&& forall|k: int| 0 <= k < count ==> (#[trigger] all.stages[k]) is None
}

/// One processor has tried to launch, and tells whether it runs the guest.
pub open spec fn tries(before: Muster, after: Muster, k: int) -> bool {
    &&& 0 <= k < before.vcpus.len()
    &&& before.stages[k] is None
    &&& after.launch == before.launch.one_arrived(!after.vcpus[k].active)
    &&& after.vcpus == before.vcpus.update(k, after.vcpus[k])
    &&& after.stages == before.stages.update(k, Some(LaunchStage::Gathering))
}

/// One processor takes a step.
pub open spec fn steps(before: Muster, after: Muster, k: int, now: u64) -> bool {
    &&& 0 <= k < before.vcpus.len()
    &&& before.stages[k] is Some
    &&& {
        let next = before.launch.stepped(before.vcpus[k], before.stages[k].unwrap(), now);
        &&& after.launch == next.0
        &&& after.vcpus == before.vcpus.update(k, next.1)
        &&& after.stages == before.stages.update(k, Some(next.2))
    }
}

/// The monitor answers the call of a processor that is to stop: it stops, or
/// does not.
pub open spec fn answers(before: Muster, after: Muster, k: int) -> bool {
    &&& 0 <= k < before.vcpus.len()
    &&& before.stages[k] == Some(LaunchStage::RollingBack)
    &&& after.launch == before.launch
    &&& after.stages == before.stages
    &&& after.vcpus == before.vcpus.update(k, after.vcpus[k])
}

/// Something happens to one of the processors.
pub open spec fn moves(before: Muster, after: Muster) -> bool {
    ||| exists|k: int| #[trigger] tries(before, after, k)
    ||| exists|k: int, now: u64| #[trigger] steps(before, after, k, now)
    ||| exists|k: int| #[trigger] answers(before, after, k)
}

/// A course of events.
pub open spec fn is_course(course: Seq<Muster>) -> bool {
    &&& course.len() > 0
    &&& begins(course[0])
    &&& forall|t: int| 0 < t < course.len() ==> moves(course[t - 1], #[trigger] course[t])
}

/// How far a stage is.
spec fn rank(stage: Option<LaunchStage>) -> int {
    match stage {
        None => 0,
        Some(LaunchStage::Gathering) => 1,
        Some(LaunchStage::RollingBack) => 2,
        Some(LaunchStage::Leaving) => 3,
        Some(LaunchStage::Left) => 4,
        Some(LaunchStage::Lost) => 5,
    }
}

/// How far all are.
spec fn ranks(stages: Seq<Option<LaunchStage>>) -> Seq<int> {
    Seq::new(stages.len(), |k: int| rank(stages[k]))
}

/// What can be of one processor, by how far it has come.
spec fn in_place(launch: LaunchContext, vcpu: VcpuModel, stage: Option<LaunchStage>) -> bool {
    match stage {
        None => true,
        Some(LaunchStage::Gathering) => vcpu.active || launch.failed,
        Some(LaunchStage::RollingBack) => launch.failed,
        _ => vcpu.active == !launch.failed,
    }
}

/// What holds of all processors throughout a launch that is not lost.
spec fn in_order(all: Muster) -> bool {
    let count = all.vcpus.len();
    &&& 0 < count <= MAX_LOGICAL_CPUS
    &&& all.stages.len() == count
    &&& all.launch.participant_count == count
    &&& !all.launch.fatal ==> {
        &&& all.launch.arrived == tally::tally(ranks(all.stages), 1)
        &&& all.launch.rollback_finished == tally::tally(ranks(all.stages), 3)
        &&& forall|k: int|
            0 <= k < count ==> {
                let far = rank(#[trigger] all.stages[k]);
                &&& far < 5
                &&& far >= 2 ==> all.launch.arrived == count
                &&& far >= 4 ==> all.launch.rollback_finished == count
            }
        &&& forall|k: int|
            0 <= k < count ==> in_place(all.launch, #[trigger] all.vcpus[k], all.stages[k])
    }
    // Once somebody has left, the launch is not lost any more.
    &&& forall|k: int|
        0 <= k < count && (#[trigger] all.stages[k]) == Some(LaunchStage::Left)
            ==> !all.launch.fatal
}

proof fn lemma_begins(all: Muster)
    requires
        begins(all),
    ensures
        in_order(all),
{
    assert forall|k: int| 0 <= k < all.stages.len() implies #[trigger] ranks(all.stages)[k] == 0 by {
        assert(all.stages[k] is None);
    }
    tally::lemma_tally_none(ranks(all.stages), 1);
    tally::lemma_tally_none(ranks(all.stages), 3);
}

/// What follows for all from what one processor came to.
proof fn lemma_one_changes(before: Muster, after: Muster, k: int, stage: Option<LaunchStage>)
    requires
        in_order(before),
        0 <= k < before.vcpus.len(),
        after.stages == before.stages.update(k, stage),
    ensures
        forall|least: int| #[trigger]
            tally::tally(ranks(after.stages), least) == tally::tally(ranks(before.stages), least) - (
            if rank(before.stages[k]) >= least {
                1int
            } else {
                0int
            }) + (if rank(stage) >= least {
                1int
            } else {
                0int
            }),
        forall|least: int|
            0 <= (#[trigger] tally::tally(ranks(before.stages), least)) <= before.stages.len(),
        forall|least: int, j: int|
            #![trigger tally::tally(ranks(before.stages), least), before.stages[j]]
            tally::tally(ranks(before.stages), least) == before.stages.len() && 0 <= j
                < before.stages.len() ==> rank(before.stages[j]) >= least,
{
    let all = ranks(before.stages);
    assert(ranks(after.stages) =~= all.update(k, rank(stage)));
    assert forall|least: int| #[trigger]
        tally::tally(ranks(after.stages), least) == tally::tally(all, least) - (if rank(
            before.stages[k],
        ) >= least {
            1int
        } else {
            0int
        }) + (if rank(stage) >= least {
            1int
        } else {
            0int
        }) by {
        tally::lemma_tally_update(all, least, k, rank(stage));
    }
    assert forall|least: int| 0 <= (#[trigger] tally::tally(all, least)) <= all.len() by {
        tally::lemma_tally_bounds(all, least);
    }
    assert forall|least: int, j: int|
        #![trigger tally::tally(all, least), before.stages[j]]
        tally::tally(all, least) == all.len() && 0 <= j < all.len() implies rank(before.stages[j])
        >= least by {
        tally::lemma_tally_bounds(all, least);
        assert(all[j] >= least);
    }
}

proof fn lemma_tries(before: Muster, after: Muster, k: int)
    requires
        in_order(before),
        tries(before, after, k),
    ensures
        in_order(after),
{
    lemma_one_changes(before, after, k, Some(LaunchStage::Gathering));
    if !after.launch.fatal {
        assert forall|j: int| 0 <= j < after.vcpus.len() implies in_place(
            after.launch,
            #[trigger] after.vcpus[j],
            after.stages[j],
        ) by {
            assert(in_place(before.launch, before.vcpus[j], before.stages[j]));
            assert(rank(before.stages[k]) == 0);
        }
    }
    assert forall|j: int| 0 <= j < after.vcpus.len() && (#[trigger] after.stages[j]) == Some(
        LaunchStage::Left,
    ) implies !after.launch.fatal by {
        assert(before.stages[j] == Some(LaunchStage::Left));
    }
}

proof fn lemma_steps(before: Muster, after: Muster, k: int, now: u64)
    requires
        in_order(before),
        steps(before, after, k, now),
    ensures
        in_order(after),
{
    let stage = before.stages[k].unwrap();
    let next = before.launch.stepped(before.vcpus[k], stage, now);
    lemma_one_changes(before, after, k, Some(next.2));
    if !before.launch.fatal {
        assert(in_place(before.launch, before.vcpus[k], before.stages[k]));
        if !after.launch.fatal {
            assert forall|j: int| 0 <= j < after.vcpus.len() implies in_place(
                after.launch,
                #[trigger] after.vcpus[j],
                after.stages[j],
            ) by {
                assert(in_place(before.launch, before.vcpus[j], before.stages[j]));
            }
        }
    }
    assert forall|j: int| 0 <= j < after.vcpus.len() && (#[trigger] after.stages[j]) == Some(
        LaunchStage::Left,
    ) implies !after.launch.fatal by {
        assert(j == k || before.stages[j] == Some(LaunchStage::Left));
    }
}

proof fn lemma_answers(before: Muster, after: Muster, k: int)
    requires
        in_order(before),
        answers(before, after, k),
    ensures
        in_order(after),
{
    if !before.launch.fatal {
        assert forall|j: int| 0 <= j < after.vcpus.len() implies in_place(
            after.launch,
            #[trigger] after.vcpus[j],
            after.stages[j],
        ) by {
            assert(in_place(before.launch, before.vcpus[j], before.stages[j]));
        }
    }
}

proof fn lemma_course(course: Seq<Muster>, t: int)
    requires
        is_course(course),
        0 <= t < course.len(),
    ensures
        in_order(course[t]),
    decreases t,
{
    if t == 0 {
        lemma_begins(course[0]);
    } else {
        lemma_course(course, t - 1);
        let before = course[t - 1];
        let after = course[t];
        assert(moves(before, after));
        if exists|k: int| #[trigger] tries(before, after, k) {
            let k = choose|k: int| #[trigger] tries(before, after, k);
            lemma_tries(before, after, k);
        } else if exists|k: int, now: u64| #[trigger] steps(before, after, k, now) {
            let (k, now) = choose|k: int, now: u64| #[trigger] steps(before, after, k, now);
            lemma_steps(before, after, k, now);
        } else {
            let k = choose|k: int| #[trigger] answers(before, after, k);
            lemma_answers(before, after, k);
        }
    }
}

/// A launch is all or nothing. Whatever the order in which the processors try,
/// take their steps and are answered, when one of them leaves the launch, all
/// of them have settled: either nobody has failed and all run the guest, or
/// somebody has and none does.
pub proof fn law_launch_is_all_or_nothing(course: Seq<Muster>, k: int)
    requires
        is_course(course),
        0 <= k < course.last().stages.len(),
        course.last().stages[k] == Some(LaunchStage::Left),
    ensures
        !course.last().launch.fatal,
        forall|j: int|
            0 <= j < course.last().vcpus.len() ==> (#[trigger] course.last().vcpus[j]).active
                == !course.last().launch.failed,
{
    let all = course.last();
    lemma_course(course, course.len() - 1);
    tally::lemma_tally_bounds(ranks(all.stages), 3);
    assert(rank(all.stages[k]) == 4);
    assert forall|j: int| 0 <= j < all.vcpus.len() implies (#[trigger] all.vcpus[j]).active
        == !all.launch.failed by {
        assert(in_place(all.launch, all.vcpus[j], all.stages[j]));
        assert(ranks(all.stages)[j] >= 3);
    }
}

/// A new launch is one that nobody has tried yet.
pub proof fn law_new_launch_begins(epoch: u64, vcpus: Seq<VcpuModel>, deadline_tsc: u64)
    requires
        0 < vcpus.len() <= MAX_LOGICAL_CPUS,
    ensures
        begins(
            Muster {
                launch: LaunchContext::spec_new(epoch, vcpus.len() as u32, deadline_tsc),
                vcpus,
                stages: Seq::new(vcpus.len(), |k: int| None::<LaunchStage>),
            },
        ),
{
}

} // verus!
