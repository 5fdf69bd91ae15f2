//! All processors together during a change of views: whatever the order of
//! their steps, they change all or none.

use vstd::prelude::*;

use super::activation;
use super::activation::{ChangeModel, CpuStage};
use super::confined;
use super::machine;
use super::machine::Vmm;
use super::tally;
use super::vcpu::VcpuModel;
use crate::ept::EptPageAllocator;
use crate::error::{ErrorPhase, MonadError, MonadResult};
use crate::exit::disposition::ExitDisposition;
use crate::exit::vmcall;
use crate::rendezvous::mailbox;
use crate::rendezvous::mailbox::{MailboxModel, PublishedViewDirectory};
use crate::rendezvous::transaction;
use crate::rendezvous::transaction::{ActiveViewState, SwitchCall, SwitchFailure};
use crate::topology::{CpuId, MAX_LOGICAL_CPUS};

verus! {

/// A change, the processors that take part in it, and how far each has come.
pub struct Assembly {
    pub change: ChangeModel,
    pub vcpus: Seq<VcpuModel>,
    pub stages: Seq<CpuStage>,
}

/// The view that a mailbox asks for.
pub open spec fn asked(mailbox: MailboxModel) -> ActiveViewState {
    ActiveViewState { id: mailbox.target_view(), eptp: mailbox.target_eptp }
}

/// What a call of the monitor may do to a processor: it stays with its view,
/// or gets the one that its mailbox asks for.
pub open spec fn answered(before: VcpuModel, after: VcpuModel) -> bool {
    &&& after.cpu == before.cpu
    &&& asked(after.mailbox) == asked(before.mailbox)
    &&& after.active_view == before.active_view || after.active_view == asked(before.mailbox)
}

/// A change that all are armed for and nobody has joined yet.
pub open spec fn begins(all: Assembly) -> bool {
    let count = all.vcpus.len();
    &&& 0 < count <= MAX_LOGICAL_CPUS
    &&& all.stages.len() == count
    &&& all.change.old_views.len() == count
    &&& all.change.participant_count == count
    &&& all.change.arrived == 0
    &&& all.change.finished == 0
    &&& all.change.rollback_finished == 0
    &&& !all.change.failed
    &&& !all.change.fatal
    &&& forall|k: int| 0 <= k < count ==> (#[trigger] all.stages[k]) is Arriving
    &&& forall|k: int| 0 <= k < count ==> ready(all.change, #[trigger] all.vcpus[k], k)
}

/// A processor that is armed for a change: it runs the view that the change
/// remembers, and a target is asked for the view to come.
pub open spec fn ready(change: ChangeModel, vcpu: VcpuModel, k: int) -> bool {
    &&& vcpu.cpu.dense_index == k
    &&& vcpu.active_view == change.old_views[k]
    &&& vcpu.active_view.id.reserved == 0
    &&& change.aims_at(k as u16) ==> asked(vcpu.mailbox) == change.target
}

/// One processor takes a step.
pub open spec fn steps(before: Assembly, after: Assembly, k: int, now: u64) -> bool {
    let next = before.change.stepped(before.vcpus[k], before.stages[k], now);
    &&& 0 <= k < before.vcpus.len()
    &&& after.change == next.0
    &&& after.vcpus == before.vcpus.update(k, next.1)
    &&& after.stages == before.stages.update(k, next.2)
}

/// The monitor answers the call of one processor.
pub open spec fn answers(before: Assembly, after: Assembly, k: int) -> bool {
    &&& 0 <= k < before.vcpus.len()
    &&& before.stages[k] is Switching || before.stages[k] is RollingBack
    &&& answered(before.vcpus[k], after.vcpus[k])
    &&& after.change == before.change
    &&& after.stages == before.stages
    &&& after.vcpus == before.vcpus.update(k, after.vcpus[k])
}

/// Something happens to one of the processors.
pub open spec fn moves(before: Assembly, after: Assembly) -> bool {
    ||| exists|k: int, now: u64| #[trigger] steps(before, after, k, now)
    ||| exists|k: int| #[trigger] answers(before, after, k)
}

/// A course of events.
pub open spec fn is_course(course: Seq<Assembly>) -> bool {
    &&& course.len() > 0
    &&& begins(course[0])
    &&& forall|t: int| 0 < t < course.len() ==> moves(course[t - 1], #[trigger] course[t])
}

/// Every target runs the target view, or every processor runs the view that it
/// had, by whether anybody has failed.
pub open spec fn all_or_none(all: Assembly) -> bool {
    forall|k: int|
        0 <= k < all.vcpus.len() ==> (#[trigger] all.vcpus[k]).active_view == if !all.change.failed
            && all.change.aims_at(k as u16) {
            all.change.target
        } else {
            all.change.old_views[k]
        }
}

/// How far a stage is.
spec fn rank(stage: CpuStage) -> int {
    match stage {
        CpuStage::Arriving => 0,
        CpuStage::Gathering => 1,
        CpuStage::Switching => 2,
        CpuStage::Comparing => 3,
        CpuStage::RollingBack => 4,
        CpuStage::Leaving => 5,
        CpuStage::Left => 6,
        CpuStage::Lost => 7,
    }
}

/// How far all are.
spec fn ranks(stages: Seq<CpuStage>) -> Seq<int> {
    Seq::new(stages.len(), |k: int| rank(stages[k]))
}

/// What the view of one processor can be, by how far it has come.
spec fn in_place(change: ChangeModel, vcpu: VcpuModel, stage: CpuStage, k: int) -> bool {
    let before = change.old_views[k];
    &&& vcpu.cpu.dense_index == k
    &&& before.id.reserved == 0
    &&& if change.aims_at(k as u16) {
        match stage {
            CpuStage::Arriving | CpuStage::Gathering => {
                &&& vcpu.active_view == before
                &&& asked(vcpu.mailbox) == change.target
            },
            CpuStage::Switching => {
                &&& vcpu.active_view == before || vcpu.active_view == change.target
                &&& asked(vcpu.mailbox) == change.target
            },
            CpuStage::Comparing => {
                ||| vcpu.active_view == change.target
                ||| change.failed && vcpu.active_view == before
            },
            CpuStage::RollingBack => {
                &&& change.failed
                &&& vcpu.active_view == before || vcpu.active_view == change.target
                &&& asked(vcpu.mailbox) == before
            },
            _ => vcpu.active_view == if change.failed {
                before
            } else {
                change.target
            },
        }
    } else {
        &&& stage !is Switching
        &&& stage !is RollingBack
        &&& vcpu.active_view == before
    }
}

/// What holds of all processors throughout a change that is not lost.
spec fn in_order(all: Assembly) -> bool {
    let count = all.vcpus.len();
    &&& 0 < count <= MAX_LOGICAL_CPUS
    &&& all.stages.len() == count
    &&& all.change.old_views.len() == count
    &&& all.change.participant_count == count
    &&& !all.change.fatal ==> {
        &&& all.change.arrived == tally::tally(ranks(all.stages), 1)
        &&& all.change.finished == tally::tally(ranks(all.stages), 3)
        &&& all.change.rollback_finished == tally::tally(ranks(all.stages), 5)
        &&& forall|k: int|
            0 <= k < count ==> {
                let far = rank(#[trigger] all.stages[k]);
                &&& far < 7
                &&& far >= 2 ==> all.change.arrived == count
                &&& far >= 4 ==> all.change.finished == count
                &&& far >= 6 ==> all.change.rollback_finished == count
            }
        &&& forall|k: int|
            0 <= k < count ==> in_place(all.change, #[trigger] all.vcpus[k], all.stages[k], k)
    }
    // Once somebody has left, the change is not lost any more.
    &&& forall|k: int| 0 <= k < count && (#[trigger] all.stages[k]) is Left ==> !all.change.fatal
}

proof fn lemma_begins(all: Assembly)
    requires
        begins(all),
    ensures
        in_order(all),
{
    assert forall|k: int| 0 <= k < all.stages.len() implies #[trigger] ranks(all.stages)[k] == 0 by {
        assert(all.stages[k] is Arriving);
    }
    tally::lemma_tally_none(ranks(all.stages), 1);
    tally::lemma_tally_none(ranks(all.stages), 3);
    tally::lemma_tally_none(ranks(all.stages), 5);
    assert forall|k: int| 0 <= k < all.vcpus.len() implies in_place(
        all.change,
        #[trigger] all.vcpus[k],
        all.stages[k],
        k,
    ) by {
        assert(ready(all.change, all.vcpus[k], k));
        assert(all.stages[k] is Arriving);
    }
}

proof fn lemma_answers(before: Assembly, after: Assembly, k: int)
    requires
        in_order(before),
        answers(before, after, k),
    ensures
        in_order(after),
{
    if !before.change.fatal {
        assert forall|j: int| 0 <= j < after.vcpus.len() implies in_place(
            after.change,
            #[trigger] after.vcpus[j],
            after.stages[j],
            j,
        ) by {
            assert(in_place(before.change, before.vcpus[j], before.stages[j], j));
        }
    }
}

proof fn lemma_steps(before: Assembly, after: Assembly, k: int, now: u64)
    requires
        in_order(before),
        steps(before, after, k, now),
    ensures
        in_order(after),
{
    let stages = before.stages;
    let stage = stages[k];
    let next = before.change.stepped(before.vcpus[k], stage, now);
    let all = ranks(stages);
    assert(ranks(after.stages) =~= all.update(k, rank(next.2)));
    tally::lemma_tally_update(all, 1, k, rank(next.2));
    tally::lemma_tally_update(all, 3, k, rank(next.2));
    tally::lemma_tally_update(all, 5, k, rank(next.2));
    tally::lemma_tally_bounds(all, 1);
    tally::lemma_tally_bounds(all, 3);
    tally::lemma_tally_bounds(all, 5);
    assert forall|j: int| 0 <= j < stages.len() implies rank(#[trigger] stages[j]) == all[j] by {}
    if !before.change.fatal {
        assert(in_place(before.change, before.vcpus[k], stage, k));
        if !after.change.fatal {
            assert forall|j: int| 0 <= j < after.vcpus.len() implies in_place(
                after.change,
                #[trigger] after.vcpus[j],
                after.stages[j],
                j,
            ) by {
                assert(in_place(before.change, before.vcpus[j], stages[j], j));
            }
        }
    }
    assert forall|j: int| 0 <= j < after.vcpus.len() && (
    #[trigger] after.stages[j]) is Left implies !after.change.fatal by {
        assert(j == k || stages[j] is Left);
    }
}

proof fn lemma_course(course: Seq<Assembly>, t: int)
    requires
        is_course(course),
        0 <= t < course.len(),
    ensures
        in_order(course[t]),
    decreases t,
{
    if t == 0 {
        lemma_begins(course[0]);
    } else {
        lemma_course(course, t - 1);
        let before = course[t - 1];
        let after = course[t];
        assert(moves(before, after));
        if exists|k: int, now: u64| #[trigger] steps(before, after, k, now) {
            let (k, now) = choose|k: int, now: u64| #[trigger] steps(before, after, k, now);
            lemma_steps(before, after, k, now);
        } else {
            let k = choose|k: int| #[trigger] answers(before, after, k);
            lemma_answers(before, after, k);
        }
    }
}

/// A change is all or nothing. Whatever the order in which the processors take
/// their steps and the monitor answers them, when one of them leaves the
/// change, all of them have settled: either nobody has failed, and every target
/// runs the target view, or somebody has, and every processor runs the view
/// that it had before. The others keep their views, and the outcome says which
/// it was.
pub proof fn law_change_is_all_or_nothing(course: Seq<Assembly>, k: int)
    requires
        is_course(course),
        0 <= k < course.last().stages.len(),
        course.last().stages[k] is Left,
    ensures
        all_or_none(course.last()),
        course.last().change.outcome() is Ok <==> !course.last().change.failed,
        forall|j: int|
            0 <= j < course.last().stages.len() ==> (#[trigger] course.last().stages[j]) is Leaving
                || course.last().stages[j] is Left,
{
    let all = course.last();
    lemma_course(course, course.len() - 1);
    tally::lemma_tally_bounds(ranks(all.stages), 5);
    assert(rank(all.stages[k]) == 6);
    assert forall|j: int| 0 <= j < all.stages.len() implies rank(#[trigger] all.stages[j])
        == ranks(all.stages)[j] by {}
    assert forall|j: int| 0 <= j < all.vcpus.len() implies (#[trigger] all.vcpus[j]).active_view
        == if !all.change.failed && all.change.aims_at(j as u16) {
        all.change.target
    } else {
        all.change.old_views[j]
    } by {
        assert(in_place(all.change, all.vcpus[j], all.stages[j], j));
        assert(rank(all.stages[j]) >= 5);
    }
    assert forall|j: int| 0 <= j < all.stages.len() implies (#[trigger] all.stages[j]) is Leaving
        || all.stages[j] is Left by {
        assert(rank(all.stages[j]) >= 5);
    }
}

/// Nobody switches before all have arrived, and nobody takes a switch back
/// before all have switched or failed to.
pub proof fn law_barriers_part_the_stages(course: Seq<Assembly>, j: int, k: int)
    requires
        is_course(course),
        !course.last().change.fatal,
        0 <= j < course.last().stages.len(),
        0 <= k < course.last().stages.len(),
    ensures
        ({
            let stages = course.last().stages;
            &&& stages[j] is Switching ==> stages[k] !is Arriving
            &&& stages[j] is RollingBack ==> !(stages[k] is Arriving || stages[k] is Gathering
                || stages[k] is Switching)
        }),
{
    let all = course.last();
    lemma_course(course, course.len() - 1);
    tally::lemma_tally_bounds(ranks(all.stages), 1);
    tally::lemma_tally_bounds(ranks(all.stages), 3);
    assert(rank(all.stages[j]) == ranks(all.stages)[j]);
    assert(rank(all.stages[k]) == ranks(all.stages)[k]);
}

/// The handler of calls answers as a change needs it, whatever the hardware
/// says.
pub proof fn law_monitor_answers(
    before: VcpuModel,
    after: VcpuModel,
    cs: MonadResult<u64>,
    current_cpu: CpuId,
    directory: Option<&PublishedViewDirectory>,
    calls: Seq<SwitchCall>,
    calls_after: Seq<SwitchCall>,
    disposition: ExitDisposition,
)
    requires
        vmcall::call_effect(
            before,
            after,
            cs,
            current_cpu,
            directory,
            calls,
            calls_after,
            disposition,
        ),
    ensures
        answered(before, after),
{
    if let Ok(selector) = cs {
        let validation = vmcall::validation_of(before, selector as u16, current_cpu, directory);
        let taken = mailbox::after_consume(before.mailbox, validation);
        let request = vmcall::request_of(before.mailbox);
        if mailbox::consume_fault(before.mailbox, validation) is None && !(
        request.operation is Shutdown) {
            let result = choose|result: Result<(), SwitchFailure>|
                {
                    &&& #[trigger] transaction::switch_effect(
                        before.cpu.dense_index,
                        before.active_view,
                        after.active_view,
                        request,
                        taken,
                        after.mailbox,
                        calls,
                        calls_after,
                        result,
                    )
                    &&& disposition == vmcall::spec_switch_disposition(request.operation, result)
                };
            if before.active_view.eptp == request.expected_old_eptp {
                let made = calls_after.skip(calls.len() as int);
                let forward = choose|forward: int| #[trigger]
                    transaction::switch_result(
                        before.cpu.dense_index,
                        before.active_view,
                        after.active_view,
                        request,
                        taken,
                        after.mailbox,
                        made,
                        forward,
                        result,
                    );
                assert(transaction::switch_result(
                    before.cpu.dense_index,
                    before.active_view,
                    after.active_view,
                    request,
                    taken,
                    after.mailbox,
                    made,
                    forward,
                    result,
                ));
            }
        }
    }
}

/// A change that was prepared begins as it must, where every processor reports
/// the view that it runs and is known by its place. Processors are put together
/// so, and stay so.
pub proof fn law_prepared_change_begins<A: EptPageAllocator + Clone>(
    before: Vmm<A>,
    after: Vmm<A>,
    target: ActiveViewState,
    selected: Seq<bool>,
    expected: u64,
    phase: ErrorPhase,
    now: u64,
    prepared: activation::Activation,
)
    requires
        activation::switch_prepared(
            before,
            after,
            target,
            selected,
            expected,
            phase,
            now,
            Ok::<activation::Activation, MonadError>(prepared),
        ),
        selected.len() == before.vcpus@.len(),
        0 < before.vcpus@.len() <= MAX_LOGICAL_CPUS,
        target.id.reserved == 0,
        forall|k: int|
            0 <= k < before.vcpus@.len() ==> confined::reported(
                #[trigger] machine::models(before.vcpus@)[k],
                k,
            ),
    ensures
        begins(
            Assembly {
                change: prepared@,
                vcpus: machine::models(after.vcpus@),
                stages: Seq::new(after.vcpus@.len(), |k: int| CpuStage::Arriving),
            },
        ),
{
    let models = machine::models(before.vcpus@);
    let models_after = machine::models(after.vcpus@);
    let change = prepared@;
    let chosen = |k: int| selected[k];
    let epoch = activation::epoch_after(before.epoch);
    assert forall|k: int| 0 <= k < models_after.len() implies ready(
        change,
        #[trigger] models_after[k],
        k,
    ) by {
        assert(models_after[k] == activation::armed(models[k], epoch, target, chosen(k), phase).0);
        assert(activation::armed(models[k], epoch, target, chosen(k), phase).1 is Ok);
        assert(Ok::<ActiveViewState, MonadError>(prepared.old@[k])
            == models[k].active_report.snapped());
        assert(change.targets[k] == selected[k]);
    }
}

} // verus!
