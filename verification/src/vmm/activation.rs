//! Switching the views of several processors as one change.

use vstd::prelude::*;

use super::machine;
use super::machine::Vmm;
use super::vcpu::{Vcpu, VcpuModel};
use crate::ept::page::EptPageAllocator;
use crate::ept::view::ViewId;
use crate::error::{ErrorCode, ErrorPhase, MonadError, MonadResult};
use crate::rendezvous::mailbox::{
    MailboxModel, MailboxRequest, MailboxState, MailboxStatus, RendezvousOperation,
};
use crate::rendezvous::transaction;
use crate::rendezvous::transaction::{
    ActiveViewState, CpuResultState, RendezvousCpuResult, RendezvousTransaction,
};
use crate::topology;
use crate::topology::{CpuId, CpuSetWord, MAX_LOGICAL_CPUS};

verus! {

/// A request for one processor.
pub open spec fn request_for(
    epoch: u64,
    operation: RendezvousOperation,
    target: ActiveViewState,
    old_eptp: u64,
) -> MailboxRequest {
    MailboxRequest {
        epoch,
        operation,
        target_view: target.id,
        target_eptp: target.eptp,
        expected_old_eptp: old_eptp,
    }
}

/// A mailbox with a request in it.
pub open spec fn holding(mailbox: MailboxModel, request: MailboxRequest) -> MailboxModel {
    MailboxModel {
        state: MailboxState::Prepared,
        epoch: request.epoch,
        operation: request.operation.spec_code(),
        target_eptp: request.target_eptp,
        target_view_slot: request.target_view.slot,
        target_view_generation: request.target_view.generation,
        expected_old_eptp: request.expected_old_eptp,
        status: MailboxStatus::Pending,
    }
}

/// Whether a mailbox can be cleared for another request, if it must be.
pub open spec fn clearable(mailbox: MailboxModel) -> bool {
    mailbox.state is Idle || mailbox.state is Completed || mailbox.state is Failed
}

/// What arming one processor for a switch does: it takes part in the epoch,
/// and where it is a target its mailbox holds the request. A mailbox in use
/// cannot be armed.
pub open spec fn armed(
    vcpu: VcpuModel,
    epoch: u64,
    target: ActiveViewState,
    selected: bool,
    phase: ErrorPhase,
) -> (VcpuModel, MonadResult<ActiveViewState>) {
    match vcpu.active_report.snapped() {
        Err(error) => (vcpu, Err(error)),
        Ok(old) => {
            let joined = VcpuModel { rendezvous_epoch: epoch, ..vcpu };
            if !selected {
                (joined, Ok(old))
            } else if !clearable(vcpu.mailbox) {
                (
                    joined,
                    Err(
                        MonadError::new(
                            phase,
                            ErrorCode::WrongObjectState,
                            MailboxStatus::WrongState.spec_code() as u64,
                        ),
                    ),
                )
            } else {
                (
                    VcpuModel {
                        mailbox: holding(
                            vcpu.mailbox,
                            request_for(epoch, RendezvousOperation::SwitchView, target, old.eptp),
                        ),
                        ..joined
                    },
                    Ok(old),
                )
            }
        },
    }
}

/// Arms one processor for a switch.
fn arm_vcpu(
    vcpu: &mut Vcpu,
    epoch: u64,
    target: ActiveViewState,
    selected: bool,
    phase: ErrorPhase,
    index: u16,
) -> (result: MonadResult<ActiveViewState>)
    ensures
        (final(vcpu)@, result) == armed(old(vcpu)@, epoch, target, selected, phase),
{
    let old_view = vcpu.active_report.snapshot()?;
    vcpu.rendezvous_epoch = epoch;
    if selected {
        let idle: bool = match vcpu.mailbox.state() {
            Some(state) => state == MailboxState::Idle,
            None => true,
        };
        if !idle {
            if let Err(status) = vcpu.mailbox.reset() {
                return Err(
                    MonadError::new(phase, ErrorCode::WrongObjectState, status.code() as u64),
                );
            }
        }
        let request = MailboxRequest {
            epoch,
            operation: RendezvousOperation::SwitchView,
            target_view: target.id,
            target_eptp: target.eptp,
            expected_old_eptp: old_view.eptp,
        };
        if let Err(status) = vcpu.mailbox.prepare(request) {
            return Err(
                MonadError::new(phase, ErrorCode::WrongObjectState, status.code() as u64).on_cpu(
                    index,
                ),
            );
        }
    }
    Ok(old_view)
}

/// A change of view that all processors are armed for.
pub struct Activation {
    pub transaction: RendezvousTransaction,
    pub target: ActiveViewState,
    /// The view of each processor before.
    pub old: Vec<ActiveViewState>,
}

/// Arms processors in order, up to the first that cannot be armed.
pub open spec fn armed_up_to(
    before: Seq<VcpuModel>,
    after: Seq<VcpuModel>,
    epoch: u64,
    target: ActiveViewState,
    selected: spec_fn(int) -> bool,
    phase: ErrorPhase,
    count: int,
) -> bool {
    &&& after.len() == before.len()
    &&& forall|k: int|
        0 <= k < before.len() ==> #[trigger] after[k] == if k < count {
            armed(before[k], epoch, target, selected(k), phase).0
        } else {
            before[k]
        }
    &&& forall|k: int|
        0 <= k < count ==> (#[trigger] armed(before[k], epoch, target, selected(k), phase)).1 is Ok
}

/// What arming processors comes to: all are armed, or those before the first
/// that cannot be.
pub open spec fn arming(
    before: Seq<VcpuModel>,
    after: Seq<VcpuModel>,
    epoch: u64,
    target: ActiveViewState,
    selected: Seq<bool>,
    phase: ErrorPhase,
    result: MonadResult<Vec<ActiveViewState>>,
) -> bool {
    let chosen = |k: int| selected[k];
    match result {
        Ok(views) => {
            &&& armed_up_to(before, after, epoch, target, chosen, phase, before.len() as int)
            &&& views@.len() == before.len()
            &&& forall|k: int|
                0 <= k < before.len() ==> Ok::<ActiveViewState, MonadError>(#[trigger] views@[k])
                    == before[k].active_report.snapped()
        },
        Err(error) => exists|stop: int|
            {
                let last = #[trigger] armed(before[stop], epoch, target, selected[stop], phase);
                &&& 0 <= stop < before.len()
                &&& last.1 == Err::<ActiveViewState, MonadError>(error)
                &&& armed_up_to(
                    before,
                    after.update(stop, before[stop]),
                    epoch,
                    target,
                    chosen,
                    phase,
                    stop,
                )
                &&& after[stop] == last.0
            },
    }
}

/// Arms all processors. The first that cannot be armed ends it.
fn arm_vcpus(
    vcpus: &mut Vec<Vcpu>,
    epoch: u64,
    target: ActiveViewState,
    selected: &Vec<bool>,
    phase: ErrorPhase,
) -> (result: MonadResult<Vec<ActiveViewState>>)
    requires
        selected@.len() == old(vcpus)@.len(),
        old(vcpus)@.len() <= 256,
        forall|k: int| 0 <= k < old(vcpus)@.len() ==> (#[trigger] machine::models(old(vcpus)@)[k]).wf(),
    ensures
        final(vcpus)@.len() == old(vcpus)@.len(),
        forall|k: int| 0 <= k < old(vcpus)@.len() ==> (#[trigger] machine::models(final(vcpus)@)[k]).wf(),
        arming(
            machine::models(old(vcpus)@),
            machine::models(final(vcpus)@),
            epoch,
            target,
            selected@,
            phase,
            result,
        ),
{
    let ghost before = machine::models(vcpus@);
    let ghost chosen = |k: int| selected@[k];
    let mut views: Vec<ActiveViewState> = Vec::new();
    let mut index: usize = 0;
    while index < vcpus.len()
        invariant
            index <= vcpus@.len() <= 256,
            before == machine::models(old(vcpus)@),
            before.len() == vcpus@.len(),
            selected@.len() == vcpus@.len(),
            chosen == |k: int| selected@[k],
            forall|k: int| 0 <= k < before.len() ==> (#[trigger] before[k]).wf(),
            forall|k: int| 0 <= k < before.len() ==> (#[trigger] machine::models(vcpus@)[k]).wf(),
            armed_up_to(before, machine::models(vcpus@), epoch, target, chosen, phase, index as int),
            views@.len() == index,
            forall|k: int|
                0 <= k < index ==> Ok::<ActiveViewState, MonadError>(#[trigger] views@[k])
                    == before[k].active_report.snapped(),
        decreases vcpus@.len() - index,
    {
        let ghost now = machine::models(vcpus@);
        let is_selected: bool = selected[index];
        let result = arm_vcpu(
            &mut vcpus[index],
            epoch,
            target,
            is_selected,
            phase,
            index as u16,
        );
        proof {
            assert(now[index as int] == before[index as int]);
            assert(machine::models(vcpus@) =~= now.update(index as int, vcpus@[index as int]@));
        }
        match result {
            Ok(old_view) => {
                views.push(old_view);
                proof {
                    assert(armed(before[index as int], epoch, target, chosen(index as int), phase).1
                        is Ok);
                }
            },
            Err(error) => {
                proof {
                    let after = machine::models(vcpus@);
                    let stop = index as int;
                    assert(after.update(stop, before[stop]) =~= now);
                    let last = armed(before[stop], epoch, target, selected@[stop], phase);
                    assert(last.1 == Err::<ActiveViewState, MonadError>(error));
                }
                return Err(error);
            },
        }
        index = index + 1;
    }
    Ok(views)
}

/// Lists the processors that are selected.
fn list_targets(selected: &Vec<bool>, expected: u64, phase: ErrorPhase) -> (result: MonadResult<
    Vec<u16>,
>)
    requires
        selected@.len() <= MAX_LOGICAL_CPUS,
    ensures
        match result {
            Ok(targets) => {
                &&& forall|i: int|
                    0 <= i < targets@.len() ==> #[trigger] transaction::target_ok(
                        targets@,
                        selected@.len() as u16,
                        i,
                    )
                &&& forall|cpu: u16| #[trigger]
                    targets@.contains(cpu) <==> cpu < selected@.len() && selected@[cpu as int]
            },
            Err(error) => error == MonadError::new(phase, ErrorCode::AllocationFailure, expected),
        },
{
    let mut targets: Vec<u16> = Vec::new();
    if targets.try_reserve(selected.len()).is_err() {
        return Err(MonadError::new(phase, ErrorCode::AllocationFailure, expected));
    }
    let mut index: usize = 0;
    while index < selected.len()
        invariant
            index <= selected@.len() <= MAX_LOGICAL_CPUS,
            forall|i: int| 0 <= i < targets@.len() ==> (#[trigger] targets@[i]) < index,
            forall|i: int|
                0 <= i < targets@.len() ==> #[trigger] transaction::target_ok(
                    targets@,
                    selected@.len() as u16,
                    i,
                ),
            forall|cpu: u16| #[trigger]
                targets@.contains(cpu) <==> cpu < index && selected@[cpu as int],
        decreases selected@.len() - index,
    {
        let ghost before = targets@;
        if selected[index] {
            targets.push(index as u16);
            proof {
                assert forall|i: int| 0 <= i < targets@.len() implies #[trigger]
                transaction::target_ok(targets@, selected@.len() as u16, i) by {
                    if i < before.len() {
                        assert(transaction::target_ok(before, selected@.len() as u16, i));
                    }
                }
            }
        }
        proof {
            assert forall|cpu: u16| #[trigger] targets@.contains(cpu) <==> cpu < index + 1
                && selected@[cpu as int] by {
                if before.contains(cpu) {
                    let i = choose|i: int| 0 <= i < before.len() && before[i] == cpu;
                    assert(targets@[i] == cpu);
                }
                if cpu == index && selected@[index as int] {
                    assert(targets@[before.len() as int] == cpu);
                }
                if targets@.contains(cpu) {
                    let i = choose|i: int| 0 <= i < targets@.len() && targets@[i] == cpu;
                    if i < before.len() {
                        assert(before[i] == cpu);
                    }
                }
            }
        }
        index = index + 1;
    }
    Ok(targets)
}

/// A change as contracts see it.
#[verifier::ext_equal]
pub struct ChangeModel {
    pub epoch: u64,
    pub targets: Seq<bool>,
    pub participant_count: u32,
    pub arrived: u32,
    pub finished: u32,
    pub rollback_finished: u32,
    pub failed: bool,
    pub fatal: bool,
    pub release: bool,
    pub per_cpu: Seq<RendezvousCpuResult>,
    pub deadline_tsc: u64,
    pub target: ActiveViewState,
    pub old_views: Seq<ActiveViewState>,
}

impl Activation {
    /// The change as contracts see it.
    pub open spec fn view(&self) -> ChangeModel {
        ChangeModel {
            epoch: self.transaction.epoch,
            targets: self.transaction.target_mask@,
            participant_count: self.transaction.participant_count,
            arrived: self.transaction.arrived,
            finished: self.transaction.finished,
            rollback_finished: self.transaction.rollback_finished,
            failed: self.transaction.failed,
            fatal: self.transaction.fatal,
            release: self.transaction.release,
            per_cpu: self.transaction.per_cpu@,
            deadline_tsc: self.transaction.deadline_tsc,
            target: self.target,
            old_views: self.old@,
        }
    }
}

/// A change that nobody has taken part in yet.
pub open spec fn fresh(
    change: ChangeModel,
    epoch: u64,
    participants: int,
    selected: Seq<bool>,
    target: ActiveViewState,
    deadline: u64,
) -> bool {
    &&& change.epoch == epoch
    &&& change.participant_count == participants
    &&& change.targets.len() == MAX_LOGICAL_CPUS
    &&& forall|cpu: int|
        0 <= cpu < MAX_LOGICAL_CPUS ==> #[trigger] change.targets[cpu] == (cpu < selected.len()
            && selected[cpu])
    &&& change.arrived == 0
    &&& change.finished == 0
    &&& change.rollback_finished == 0
    &&& !change.failed
    &&& !change.fatal
    &&& !change.release
    &&& change.per_cpu.len() == MAX_LOGICAL_CPUS
    &&& forall|cpu: int|
        0 <= cpu < MAX_LOGICAL_CPUS ==> #[trigger] change.per_cpu[cpu] == (RendezvousCpuResult {
            state: CpuResultState::Waiting,
            status: 0,
        })
    &&& change.deadline_tsc == deadline
    &&& change.target == target
}

/// The next epoch, around the end of the word.
pub open spec fn epoch_after(epoch: u64) -> u64 {
    if epoch == u64::MAX {
        0
    } else {
        (epoch + 1) as u64
    }
}

/// What a change of processors and epoch leaves alone.
pub open spec fn same_but_vcpus<A: EptPageAllocator + Clone>(before: Vmm<A>, after: Vmm<A>) -> bool {
    &&& after.manager == before.manager
    &&& after.topology == before.topology
    &&& after.rendezvous_tsc_budget == before.rendezvous_tsc_budget
    &&& after.aperture_end == before.aperture_end
    &&& after.published_views == before.published_views
    &&& after.vcpus@.len() == before.vcpus@.len()
}

/// What preparing a switch of some processors comes to.
pub open spec fn switch_prepared<A: EptPageAllocator + Clone>(
    before: Vmm<A>,
    after: Vmm<A>,
    target: ActiveViewState,
    selected: Seq<bool>,
    expected: u64,
    phase: ErrorPhase,
    now: u64,
    result: MonadResult<Activation>,
) -> bool {
    let epoch = epoch_after(before.epoch);
    let models = machine::models(before.vcpus@);
    let models_after = machine::models(after.vcpus@);
    &&& same_but_vcpus(before, after)
    &&& if result == Err::<Activation, MonadError>(
        MonadError::new(phase, ErrorCode::AllocationFailure, expected),
    ) && after.epoch == before.epoch {
        models_after == models
    } else if epoch == 0 {
        &&& result == Err::<Activation, MonadError>(
            MonadError::new(phase, ErrorCode::GenerationOverflow, u64::MAX),
        )
        &&& after.epoch == 0
        &&& models_after == models
    } else if now + before.rendezvous_tsc_budget > u64::MAX {
        &&& result == Err::<Activation, MonadError>(
            MonadError::new(phase, ErrorCode::AddressOverflow, now),
        )
        &&& after.epoch == epoch
        &&& models_after == models
    } else {
        &&& after.epoch == epoch
        &&& match result {
            Ok(activation) => {
                &&& arming(
                    models,
                    models_after,
                    epoch,
                    target,
                    selected,
                    phase,
                    Ok(activation.old),
                )
                &&& fresh(
                    activation@,
                    epoch,
                    models.len() as int,
                    selected,
                    target,
                    (now + before.rendezvous_tsc_budget) as u64,
                )
            },
            Err(error) => arming(models, models_after, epoch, target, selected, phase, Err(error)),
        }
    }
}

impl<A: EptPageAllocator + Clone> Vmm<A> {
    /// Begins another epoch, if there is one.
    pub(crate) fn next_epoch(&mut self) -> (epoch: Option<u64>)
        ensures
            epoch == if old(self).epoch == u64::MAX {
                None
            } else {
                Some((old(self).epoch + 1) as u64)
            },
            *final(self) == (Vmm { epoch: epoch_after(old(self).epoch), ..*old(self) }),
    {
        if self.epoch == u64::MAX {
            self.epoch = 0;
            return None;
        }
        self.epoch = self.epoch + 1;
        Some(self.epoch)
    }

    /// Arms the processors for a switch in a new epoch.
    fn prepare_switch(
        &mut self,
        target: ActiveViewState,
        selected: &Vec<bool>,
        expected: u64,
        phase: ErrorPhase,
        now: u64,
    ) -> (result: MonadResult<Activation>)
        requires
            old(self).wf(),
            selected@.len() == old(self).vcpus@.len(),
            exists|k: int| 0 <= k < selected@.len() && #[trigger] selected@[k],
        ensures
            final(self).wf(),
            switch_prepared(
                *old(self),
                *final(self),
                target,
                selected@,
                expected,
                phase,
                now,
                result,
            ),
    {
        let count: u16 = self.topology.len();
        let targets = list_targets(selected, expected, phase)?;
        let epoch: u64 = match self.next_epoch() {
            Some(epoch) => epoch,
            None => {
                return Err(MonadError::new(phase, ErrorCode::GenerationOverflow, u64::MAX));
            },
        };
        let deadline: u64 = match now.checked_add(self.rendezvous_tsc_budget) {
            Some(deadline) => deadline,
            None => {
                return Err(MonadError::new(phase, ErrorCode::AddressOverflow, now));
            },
        };
        proof {
            let k = choose|k: int| 0 <= k < selected@.len() && #[trigger] selected@[k];
            assert(targets@.contains(k as u16));
            assert(targets@.len() > 0);
            assert(selected@.len() == count);
            assert(selected@.len() as u16 == count);
        }
        let change = RendezvousTransaction::new(epoch, count, targets.as_slice(), deadline)?;
        let old_views = arm_vcpus(&mut self.vcpus, epoch, target, selected, phase)?;
        Ok(Activation { transaction: change, target, old: old_views })
    }
}

/// Which processors run the guest.
pub open spec fn virtualized(vcpus: Seq<Vcpu>) -> Seq<bool> {
    Seq::new(MAX_LOGICAL_CPUS as nat, |k: int| k < vcpus.len() && vcpus[k].active)
}

/// Which of the processors a set names.
pub open spec fn named(ids: Seq<CpuId>, words: Seq<CpuSetWord>) -> Seq<bool> {
    Seq::new(ids.len(), |k: int| topology::chosen(words, words.len() as int, ids[k]))
}

/// How many of the processors a set names.
pub open spec fn named_count(ids: Seq<CpuId>, words: Seq<CpuSetWord>) -> nat {
    topology::flags_set(
        Seq::new(
            MAX_LOGICAL_CPUS as nat,
            |k: int| k < ids.len() && topology::chosen(words, words.len() as int, ids[k]),
        ),
    )
}

/// Whether a set names processors that are all there and all run the guest.
pub open spec fn set_accepted(
    ids: Seq<CpuId>,
    words: Seq<CpuSetWord>,
    virtualized: Seq<bool>,
) -> bool {
    &&& words.len() > 0
    &&& forall|k: int|
        0 <= k < words.len() ==> #[trigger] topology::word_ok(ids, words, virtualized, k)
    &&& exists|i: int|
        0 <= i < ids.len() && topology::chosen(words, words.len() as int, #[trigger] ids[i])
}

/// What preparing the switch of a set of processors to a publication comes to.
pub open spec fn activation_prepared<A: EptPageAllocator + Clone>(
    before: Vmm<A>,
    after: Vmm<A>,
    id: ViewId,
    words: Seq<CpuSetWord>,
    now: u64,
    result: MonadResult<Activation>,
) -> bool {
    let manager = before.manager.model();
    let ids = before.topology.view();
    match manager.find_published(id) {
        Err(error) => result == Err::<Activation, MonadError>(error) && after == before,
        Ok(k) => {
            ||| {
                &&& result is Err
                &&& topology::set_refusal(
                    ids,
                    words,
                    virtualized(before.vcpus@),
                    result->Err_0,
                )
                &&& after == before
            }
            ||| {
                &&& set_accepted(ids, words, virtualized(before.vcpus@))
                &&& switch_prepared(
                    before,
                    after,
                    ActiveViewState { id, eptp: manager.view_at(k).model.eptp() },
                    named(ids, words),
                    named_count(ids, words) as u64,
                    ErrorPhase::Activation,
                    now,
                    result,
                )
            }
        },
    }
}

/// What preparing the switch of all processors to the base view comes to.
pub open spec fn base_prepared<A: EptPageAllocator + Clone>(
    before: Vmm<A>,
    after: Vmm<A>,
    now: u64,
    result: MonadResult<Activation>,
) -> bool {
    let manager = before.manager.model();
    let count = before.vcpus@.len();
    switch_prepared(
        before,
        after,
        ActiveViewState { id: manager.spec_base_id(), eptp: manager.view_at(0).model.eptp() },
        Seq::new(count, |k: int| true),
        count as u64,
        ErrorPhase::Shutdown,
        now,
        result,
    )
}

proof fn lemma_some_flag(flags: Seq<bool>)
    requires
        topology::flags_set(flags) > 0,
    ensures
        exists|k: int| 0 <= k < flags.len() && #[trigger] flags[k],
    decreases flags.len(),
{
    if flags.len() > 0 && !flags.last() {
        lemma_some_flag(flags.drop_last());
        let k = choose|k: int| 0 <= k < flags.drop_last().len() && #[trigger] flags.drop_last()[k];
        assert(flags[k]);
    } else if flags.len() > 0 {
        assert(flags[flags.len() - 1]);
    }
}

impl<A: EptPageAllocator + Clone> Vmm<A> {
    /// Which processors run the guest.
    fn virtualized_flags(&self) -> (flags: Vec<bool>)
        requires
            self.vcpus@.len() <= MAX_LOGICAL_CPUS,
        ensures
            flags@ == virtualized(self.vcpus@),
    {
        let mut flags: Vec<bool> = Vec::new();
        while flags.len() < MAX_LOGICAL_CPUS
            invariant
                flags@.len() <= MAX_LOGICAL_CPUS,
                self.vcpus@.len() <= MAX_LOGICAL_CPUS,
                forall|k: int|
                    0 <= k < flags@.len() ==> #[trigger] flags@[k] == virtualized(self.vcpus@)[k],
            decreases MAX_LOGICAL_CPUS - flags@.len(),
        {
            let index: usize = flags.len();
            if index < self.vcpus.len() {
                flags.push(self.vcpus[index].active);
            } else {
                flags.push(false);
            }
        }
        assert(flags@ =~= virtualized(self.vcpus@));
        flags
    }

    /// Arms a set of processors for a publication.
    pub fn activate_published_view(&mut self, id: ViewId, cpu_set: &[CpuSetWord], now: u64) -> (result:
        MonadResult<Activation>)
        requires
            old(self).wf(),
        ensures
            final(self).wf(),
            activation_prepared(*old(self), *final(self), id, cpu_set@, now, result),
    {
        let eptp: u64 = self.manager.published_eptp(id)?;
        let count: u16 = self.topology.len();
        let flags = self.virtualized_flags();
        let selection = self.topology.validate_cpu_set(cpu_set, flags.as_slice())?;
        let ghost ids = self.topology.view();
        let mut selected: Vec<bool> = Vec::new();
        let mut index: u16 = 0;
        while index < count
            invariant
                index <= count,
                count == ids.len(),
                selection.view().len() == MAX_LOGICAL_CPUS,
                count <= MAX_LOGICAL_CPUS,
                forall|i: int|
                    0 <= i < ids.len() ==> #[trigger] selection.view()[i] == topology::chosen(
                        cpu_set@,
                        cpu_set@.len() as int,
                        ids[i],
                    ),
                selected@.len() == index,
                forall|i: int| 0 <= i < index ==> #[trigger] selected@[i] == named(ids, cpu_set@)[i],
            decreases count - index,
        {
            let chosen: bool = selection.contains(index);
            assert(selection.view()[index as int] == chosen);
            selected.push(chosen);
            index = index + 1;
        }
        proof {
            assert(selected@ =~= named(ids, cpu_set@));
            let padded = Seq::new(
                MAX_LOGICAL_CPUS as nat,
                |k: int|
                    k < ids.len() && topology::chosen(cpu_set@, cpu_set@.len() as int, ids[k]),
            );
            assert(selection.view() =~= padded);
            lemma_some_flag(padded);
            let k = choose|k: int| 0 <= k < padded.len() && #[trigger] padded[k];
            assert(selected@[k]);
            assert(topology::chosen(cpu_set@, cpu_set@.len() as int, ids[k]));
        }
        let target = ActiveViewState { id, eptp };
        self.prepare_switch(
            target,
            &selected,
            selection.len() as u64,
            ErrorPhase::Activation,
            now,
        )
    }

    /// Arms all processors for the base view.
    pub fn activate_base(&mut self, now: u64) -> (result: MonadResult<Activation>)
        requires
            old(self).wf(),
        ensures
            final(self).wf(),
            base_prepared(*old(self), *final(self), now, result),
    {
        proof {
            self.manager.lemma_wf();
            assert(self.manager.model().published[0] is Some);
            assert(self.published_views@[0] == (
                self.manager.model().view_at(0).id.generation,
                self.manager.model().view_at(0).model.eptp(),
            ));
        }
        let count: u16 = self.topology.len();
        let id = self.manager.base_id();
        let eptp: u64 = match self.published_views.resolve(id) {
            Some(eptp) => eptp,
            None => {
                return Err(
                    MonadError::new(ErrorPhase::Shutdown, ErrorCode::EptVerificationFailure, 0),
                );
            },
        };
        let mut selected: Vec<bool> = Vec::new();
        while selected.len() < count as usize
            invariant
                selected@.len() <= count,
                forall|k: int| 0 <= k < selected@.len() ==> #[trigger] selected@[k],
            decreases count - selected@.len(),
        {
            selected.push(true);
        }
        proof {
            assert(selected@ =~= Seq::new(count as nat, |k: int| true));
            assert(selected@[0]);
        }
        self.prepare_switch(
            ActiveViewState { id, eptp },
            &selected,
            count as u64,
            ErrorPhase::Shutdown,
            now,
        )
    }
}

/// How far one processor has come with a change.
#[derive(Debug, Clone, Copy, PartialEq, Eq, Structural)]
pub enum CpuStage {
    Arriving,
    /// Waits until all have arrived.
    Gathering,
    Switching,
    /// Waits until all have switched, or failed to.
    Comparing,
    RollingBack,
    /// Waits until all have taken back what was to be taken back.
    Leaving,
    Left,
    Lost,
}

/// What a processor does next.
#[derive(Debug, Clone, Copy, PartialEq, Eq, Structural)]
pub enum CpuAction {
    /// Take the next step.
    Proceed,
    /// Take the same step again a moment later.
    Spin,
    /// Call the monitor, which carries out what the mailbox asks for.
    CallMonitor,
    /// The change is over.
    Leave,
    /// The machine cannot go on, at the numbered barrier.
    Halt(u64),
}

/// Counts up, around the end of the word.
pub open spec fn counted(value: u32) -> u32 {
    if value == u32::MAX {
        0
    } else {
        (value + 1) as u32
    }
}

pub(crate) fn count_up(value: u32) -> (after: u32)
    ensures
        after == counted(value),
{
    if value == u32::MAX {
        0
    } else {
        value + 1
    }
}

impl ChangeModel {
    /// Whether a processor is to switch.
    pub open spec fn aims_at(self, cpu: u16) -> bool {
        cpu < self.targets.len() && self.targets[cpu as int]
    }

    /// One look at a barrier.
    pub open spec fn look(self, counter: u32, now: u64) -> Option<bool> {
        if counter == self.participant_count {
            Some(true)
        } else if now >= self.deadline_tsc {
            Some(false)
        } else {
            None
        }
    }

    /// The change with the report of one processor.
    pub open spec fn reported(self, cpu: u16, state: CpuResultState, status: u32) -> ChangeModel {
        ChangeModel {
            per_cpu: if cpu < self.per_cpu.len() {
                self.per_cpu.update(cpu as int, RendezvousCpuResult { state, status })
            } else {
                self.per_cpu
            },
            ..self
        }
    }

    /// One processor more has switched, or failed to.
    pub open spec fn one_finished(self) -> ChangeModel {
        ChangeModel { finished: counted(self.finished), ..self }
    }

    /// One processor more has nothing to take back.
    pub open spec fn one_settled(self) -> ChangeModel {
        ChangeModel { rollback_finished: counted(self.rollback_finished), ..self }
    }

    /// What follows the first barrier.
    pub open spec fn start_switch(self, vcpu: VcpuModel) -> (
        ChangeModel,
        VcpuModel,
        CpuStage,
        CpuAction,
    ) {
        if self.aims_at(vcpu.cpu.dense_index) {
            (self, vcpu, CpuStage::Switching, CpuAction::CallMonitor)
        } else {
            (
                self.reported(
                    vcpu.cpu.dense_index,
                    CpuResultState::NotTarget,
                    0,
                ).one_finished(),
                vcpu,
                CpuStage::Comparing,
                CpuAction::Proceed,
            )
        }
    }

    /// What follows the call that was to switch the processor.
    pub open spec fn after_switch(self, vcpu: VcpuModel) -> ChangeModel {
        let status = vcpu.mailbox.status.spec_code();
        let cpu = vcpu.cpu.dense_index;
        if vcpu.active_view == self.target {
            self.reported(cpu, CpuResultState::Switched, status).one_finished()
        } else {
            let told = self.reported(cpu, CpuResultState::Failed, status);
            ChangeModel { failed: true, ..told }.one_finished()
        }
    }

    /// What follows the second barrier: a processor that has switched takes
    /// that back where another has failed.
    pub open spec fn compare(self, vcpu: VcpuModel) -> (
        ChangeModel,
        VcpuModel,
        CpuStage,
        CpuAction,
    ) {
        let cpu = vcpu.cpu.dense_index;
        if self.failed && self.aims_at(cpu) && vcpu.active_view == self.target {
            if vcpu.mailbox.state is Completed || vcpu.mailbox.state is Failed {
                let before = self.old_views[cpu as int];
                (
                    self,
                    VcpuModel {
                        mailbox: holding(
                            vcpu.mailbox,
                            request_for(
                                self.epoch,
                                RendezvousOperation::RollbackView,
                                before,
                                self.target.eptp,
                            ),
                        ),
                        ..vcpu
                    },
                    CpuStage::RollingBack,
                    CpuAction::CallMonitor,
                )
            } else {
                (
                    ChangeModel { fatal: true, ..self }.one_settled(),
                    vcpu,
                    CpuStage::Leaving,
                    CpuAction::Proceed,
                )
            }
        } else {
            (self.one_settled(), vcpu, CpuStage::Leaving, CpuAction::Proceed)
        }
    }

    /// What follows the call that was to take the switch back.
    pub open spec fn after_rollback(self, vcpu: VcpuModel) -> ChangeModel {
        let cpu = vcpu.cpu.dense_index;
        if vcpu.active_view != self.old_views[cpu as int] {
            ChangeModel { fatal: true, ..self }.reported(
                cpu,
                CpuResultState::Fatal,
                0,
            ).one_settled()
        } else {
            self.reported(cpu, CpuResultState::RolledBack, 0).one_settled()
        }
    }

    /// One step of one processor.
    pub open spec fn stepped(self, vcpu: VcpuModel, stage: CpuStage, now: u64) -> (
        ChangeModel,
        VcpuModel,
        CpuStage,
        CpuAction,
    ) {
        match stage {
            CpuStage::Arriving => (
                ChangeModel { arrived: counted(self.arrived), ..self },
                vcpu,
                CpuStage::Gathering,
                CpuAction::Proceed,
            ),
            CpuStage::Gathering => match self.look(self.arrived, now) {
                None => (self, vcpu, stage, CpuAction::Spin),
                Some(false) => (
                    ChangeModel { fatal: true, ..self },
                    vcpu,
                    CpuStage::Lost,
                    CpuAction::Halt(1),
                ),
                Some(true) => self.start_switch(vcpu),
            },
            CpuStage::Switching => (
                self.after_switch(vcpu),
                vcpu,
                CpuStage::Comparing,
                CpuAction::Proceed,
            ),
            CpuStage::Comparing => match self.look(self.finished, now) {
                None => (self, vcpu, stage, CpuAction::Spin),
                Some(false) => (
                    ChangeModel { fatal: true, ..self },
                    vcpu,
                    CpuStage::Lost,
                    CpuAction::Halt(2),
                ),
                Some(true) => self.compare(vcpu),
            },
            CpuStage::RollingBack => (
                self.after_rollback(vcpu),
                vcpu,
                CpuStage::Leaving,
                CpuAction::Proceed,
            ),
            CpuStage::Leaving => match self.look(self.rollback_finished, now) {
                None => (self, vcpu, stage, CpuAction::Spin),
                Some(false) => (
                    ChangeModel { fatal: true, ..self },
                    vcpu,
                    CpuStage::Lost,
                    CpuAction::Halt(3),
                ),
                Some(true) => if self.fatal {
                    (self, vcpu, CpuStage::Lost, CpuAction::Halt(3))
                } else {
                    (
                        ChangeModel { release: true, ..self },
                        vcpu,
                        CpuStage::Left,
                        CpuAction::Leave,
                    )
                },
            },
            CpuStage::Left => (self, vcpu, CpuStage::Left, CpuAction::Leave),
            CpuStage::Lost => (self, vcpu, CpuStage::Lost, CpuAction::Halt(3)),
        }
    }
}

impl ChangeModel {
    /// What a change came to, once all processors have left it.
    pub open spec fn outcome(self) -> MonadResult<()> {
        if self.fatal {
            Err(MonadError::new(ErrorPhase::Activation, ErrorCode::ActivationRolledBack, 1))
        } else if self.failed {
            Err(MonadError::new(ErrorPhase::Activation, ErrorCode::ActivationRolledBack, 0))
        } else {
            Ok(())
        }
    }

    /// What going back to the base view came to.
    pub open spec fn base_outcome(self) -> MonadResult<()> {
        if self.failed || self.fatal {
            Err(MonadError::new(ErrorPhase::Shutdown, ErrorCode::ActivationRolledBack, 0))
        } else {
            Ok(())
        }
    }
}

impl Activation {
    /// Whether the change knows the view that a processor had before.
    pub open spec fn knows(&self, vcpu: &Vcpu) -> bool {
        (vcpu.cpu.dense_index as int) < self.old@.len()
    }

    fn one_finished(&mut self)
        ensures
            final(self)@ == old(self)@.one_finished(),
    {
        self.transaction.finished = count_up(self.transaction.finished);
    }

    fn one_settled(&mut self)
        ensures
            final(self)@ == old(self)@.one_settled(),
    {
        self.transaction.rollback_finished = count_up(self.transaction.rollback_finished);
    }

    fn start_switch(&mut self, vcpu: &Vcpu) -> (next: (CpuStage, CpuAction))
        ensures
            (final(self)@, vcpu@, next.0, next.1) == old(self)@.start_switch(vcpu@),
    {
        let cpu: u16 = vcpu.cpu.dense_index;
        if self.transaction.is_target(cpu) {
            return (CpuStage::Switching, CpuAction::CallMonitor);
        }
        self.transaction.set_result(cpu, CpuResultState::NotTarget, 0);
        self.one_finished();
        (CpuStage::Comparing, CpuAction::Proceed)
    }

    fn after_switch(&mut self, vcpu: &Vcpu)
        ensures
            final(self)@ == old(self)@.after_switch(vcpu@),
    {
        let cpu: u16 = vcpu.cpu.dense_index;
        let status: u32 = vcpu.mailbox.status();
        if vcpu.active_view == self.target {
            self.transaction.set_result(cpu, CpuResultState::Switched, status);
        } else {
            self.transaction.set_result(cpu, CpuResultState::Failed, status);
            self.transaction.failed = true;
        }
        self.one_finished();
    }

    fn compare(&mut self, vcpu: &mut Vcpu) -> (next: (CpuStage, CpuAction))
        requires
            old(self).knows(&*old(vcpu)),
        ensures
            (final(self)@, final(vcpu)@, next.0, next.1) == old(self)@.compare(old(vcpu)@),
    {
        let cpu: u16 = vcpu.cpu.dense_index;
        if self.transaction.failed && self.transaction.is_target(cpu) && vcpu.active_view
            == self.target {
            let before = self.old[cpu as usize];
            if vcpu.mailbox.reset().is_err() {
                self.transaction.fatal = true;
                self.one_settled();
                return (CpuStage::Leaving, CpuAction::Proceed);
            }
            let request = MailboxRequest {
                epoch: self.transaction.epoch,
                operation: RendezvousOperation::RollbackView,
                target_view: before.id,
                target_eptp: before.eptp,
                expected_old_eptp: self.target.eptp,
            };
            if vcpu.mailbox.prepare(request).is_err() {
                self.transaction.fatal = true;
                self.one_settled();
                return (CpuStage::Leaving, CpuAction::Proceed);
            }
            return (CpuStage::RollingBack, CpuAction::CallMonitor);
        }
        self.one_settled();
        (CpuStage::Leaving, CpuAction::Proceed)
    }

    fn after_rollback(&mut self, vcpu: &Vcpu)
        requires
            old(self).knows(vcpu),
        ensures
            final(self)@ == old(self)@.after_rollback(vcpu@),
    {
        let cpu: u16 = vcpu.cpu.dense_index;
        if vcpu.active_view != self.old[cpu as usize] {
            self.transaction.fatal = true;
            self.transaction.set_result(cpu, CpuResultState::Fatal, 0);
        } else {
            self.transaction.set_result(cpu, CpuResultState::RolledBack, 0);
        }
        self.one_settled();
    }

    /// Takes one processor one step further.
    pub fn activate_cpu(&mut self, vcpu: &mut Vcpu, stage: CpuStage, now: u64) -> (next: (
        CpuStage,
        CpuAction,
    ))
        requires
            old(self).knows(&*old(vcpu)),
        ensures
            (final(self)@, final(vcpu)@, next.0, next.1) == old(self)@.stepped(
                old(vcpu)@,
                stage,
                now,
            ),
    {
        match stage {
            CpuStage::Arriving => {
                self.transaction.arrived = count_up(self.transaction.arrived);
                (CpuStage::Gathering, CpuAction::Proceed)
            },
            CpuStage::Gathering => {
                let arrived: u32 = self.transaction.arrived;
                match self.transaction.wait_for(arrived, now) {
                    None => (stage, CpuAction::Spin),
                    Some(false) => (CpuStage::Lost, CpuAction::Halt(1)),
                    Some(true) => self.start_switch(vcpu),
                }
            },
            CpuStage::Switching => {
                self.after_switch(vcpu);
                (CpuStage::Comparing, CpuAction::Proceed)
            },
            CpuStage::Comparing => {
                let finished: u32 = self.transaction.finished;
                match self.transaction.wait_for(finished, now) {
                    None => (stage, CpuAction::Spin),
                    Some(false) => (CpuStage::Lost, CpuAction::Halt(2)),
                    Some(true) => self.compare(vcpu),
                }
            },
            CpuStage::RollingBack => {
                self.after_rollback(vcpu);
                (CpuStage::Leaving, CpuAction::Proceed)
            },
            CpuStage::Leaving => {
                let settled: u32 = self.transaction.rollback_finished;
                match self.transaction.wait_for(settled, now) {
                    None => (stage, CpuAction::Spin),
                    Some(false) => (CpuStage::Lost, CpuAction::Halt(3)),
                    Some(true) => {
                        if self.transaction.fatal {
                            (CpuStage::Lost, CpuAction::Halt(3))
                        } else {
                            self.transaction.release = true;
                            (CpuStage::Left, CpuAction::Leave)
                        }
                    },
                }
            },
            CpuStage::Left => (CpuStage::Left, CpuAction::Leave),
            CpuStage::Lost => (CpuStage::Lost, CpuAction::Halt(3)),
        }
    }

    /// A processor that is not one of the monitor's makes the change fatal.
    pub fn stranger(&mut self)
        ensures
            final(self)@ == (ChangeModel { fatal: true, ..old(self)@ }),
    {
        self.transaction.fatal = true;
    }

    /// What a change came to, once all processors have left it.
    pub fn outcome(&self) -> (result: MonadResult<()>)
        ensures
            result == self@.outcome(),
    {
        if self.transaction.fatal {
            return Err(
                MonadError::new(ErrorPhase::Activation, ErrorCode::ActivationRolledBack, 1),
            );
        }
        if self.transaction.failed {
            return Err(
                MonadError::new(ErrorPhase::Activation, ErrorCode::ActivationRolledBack, 0),
            );
        }
        Ok(())
    }

    /// What going back to the base view came to.
    pub fn base_outcome(&self) -> (result: MonadResult<()>)
        ensures
            result == self@.base_outcome(),
    {
        if self.transaction.failed || self.transaction.fatal {
            return Err(MonadError::new(ErrorPhase::Shutdown, ErrorCode::ActivationRolledBack, 0));
        }
        Ok(())
    }
}

/// A processor that has switched, while another has failed, is sent back to
/// the view that it had; one that is not a target is left alone.
pub proof fn law_failed_change_is_taken_back(change: ChangeModel, vcpu: VcpuModel, now: u64)
    requires
        change.failed,
        change.finished == change.participant_count,
        vcpu.mailbox.state is Completed,
        vcpu.active_view == change.target,
        (vcpu.cpu.dense_index as int) < change.old_views.len(),
    ensures
        ({
            let next = change.stepped(vcpu, CpuStage::Comparing, now);
            let cpu = vcpu.cpu.dense_index;
            if change.aims_at(cpu) {
                &&& next.3 == CpuAction::CallMonitor
                &&& next.1.mailbox.operation == RendezvousOperation::RollbackView.spec_code()
                &&& next.1.mailbox.target_eptp == change.old_views[cpu as int].eptp
                &&& next.1.mailbox.expected_old_eptp == change.target.eptp
            } else {
                next.1 == vcpu
            }
        }),
{
}

/// Nobody leaves a change before all have taken back what was to be taken
/// back, and nobody leaves a change that is fatal.
pub proof fn law_nobody_leaves_early(
    change: ChangeModel,
    vcpu: VcpuModel,
    stage: CpuStage,
    now: u64,
)
    requires
        stage !is Left,
        change.stepped(vcpu, stage, now).3 is Leave,
    ensures
        stage is Leaving,
        change.rollback_finished == change.participant_count,
        !change.fatal,
{
}

/// A barrier does not hold a processor beyond the deadline.
pub proof fn law_barriers_end(change: ChangeModel, vcpu: VcpuModel, stage: CpuStage, now: u64)
    requires
        now >= change.deadline_tsc,
    ensures
        change.stepped(vcpu, stage, now).3 !is Spin,
{
}

} // verus!
