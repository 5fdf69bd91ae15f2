//! Switching the view of one processor, and the barrier of all.

use vstd::prelude::*;

use super::mailbox::{InternalMailbox, MailboxModel, MailboxRequest, MailboxState, MailboxStatus};
use crate::ept::view::ViewId;
use crate::error::{ErrorCode, ErrorPhase, MonadError, MonadResult};
use crate::topology::MAX_LOGICAL_CPUS;

verus! {

/// The view that a processor runs.
#[derive(Debug, Clone, Copy, PartialEq, Eq, Structural)]
pub struct ActiveViewState {
    pub id: ViewId,
    pub eptp: u64,
}

/// One step of a switch, or of its recovery.
#[derive(Debug, Clone, Copy, PartialEq, Eq, Structural)]
pub enum SwitchStep {
    WriteTarget,
    InvalidateOld,
    InvalidateTarget,
    RestoreOld,
    InvalidateFailedTarget,
    InvalidateRestoredOld,
}

impl SwitchStep {
    pub open spec fn spec_code(self) -> u8 {
        match self {
            SwitchStep::WriteTarget => 1,
            SwitchStep::InvalidateOld => 2,
            SwitchStep::InvalidateTarget => 3,
            SwitchStep::RestoreOld => 4,
            SwitchStep::InvalidateFailedTarget => 5,
            SwitchStep::InvalidateRestoredOld => 6,
        }
    }

    #[verifier::when_used_as_spec(spec_code)]
    pub fn code(self) -> (code: u8)
        ensures
            code == self.spec_code(),
    {
        match self {
            SwitchStep::WriteTarget => 1,
            SwitchStep::InvalidateOld => 2,
            SwitchStep::InvalidateTarget => 3,
            SwitchStep::RestoreOld => 4,
            SwitchStep::InvalidateFailedTarget => 5,
            SwitchStep::InvalidateRestoredOld => 6,
        }
    }
}

/// One step that was run, and how it went.
pub struct SwitchCall {
    pub cpu: u16,
    pub step: SwitchStep,
    pub eptp: u64,
    pub result: MonadResult<()>,
}

/// The steps that a backend was asked for, in order.
pub type SwitchLog = Seq<SwitchCall>;

/// What runs the steps of a switch on a processor.
pub trait ViewSwitchBackend {
    /// The steps that were run so far.
    spec fn calls(&self) -> SwitchLog;

    fn run(&mut self, cpu: u16, step: SwitchStep, eptp: u64) -> (result: MonadResult<()>)
        ensures
            final(self).calls() == old(self).calls().push(SwitchCall { cpu, step, eptp, result }),
    ;
}

/// A switch that failed: what went wrong, and what went wrong with taking it
/// back. Only a switch that was taken back may be resumed from.
#[derive(Debug, Clone, Copy, PartialEq, Eq, Structural)]
pub struct SwitchFailure {
    pub forward: MonadError,
    pub recovery: Option<MonadError>,
}

impl SwitchFailure {
    /// A failure after which nothing was to be taken back.
    pub fn harmless(forward: MonadError) -> (failure: Self)
        ensures
            failure == (SwitchFailure { forward, recovery: None }),
    {
        SwitchFailure { forward, recovery: None }
    }
}

/// Steps to run, each with the pointer that it is about.
pub type Plan = Seq<(SwitchStep, u64)>;

/// The steps of a switch.
pub open spec fn switch_plan(old_eptp: u64, target_eptp: u64) -> Plan {
    seq![
        (SwitchStep::WriteTarget, target_eptp),
        (SwitchStep::InvalidateOld, old_eptp),
        (SwitchStep::InvalidateTarget, target_eptp),
    ]
}

/// The steps that take a switch back.
pub open spec fn recovery_plan(old_eptp: u64, target_eptp: u64) -> Plan {
    seq![
        (SwitchStep::RestoreOld, old_eptp),
        (SwitchStep::InvalidateFailedTarget, target_eptp),
        (SwitchStep::InvalidateRestoredOld, old_eptp),
    ]
}

/// Whether calls run a plan on a processor up to its end or its first failure.
pub open spec fn runs(calls: Seq<SwitchCall>, cpu: u16, plan: Plan) -> bool {
    &&& calls.len() <= plan.len()
    &&& forall|i: int|
        0 <= i < calls.len() ==> {
            &&& (#[trigger] calls[i]).cpu == cpu
            &&& calls[i].step == plan[i].0
            &&& calls[i].eptp == plan[i].1
            &&& i < calls.len() - 1 ==> calls[i].result is Ok
        }
    &&& calls.len() < plan.len() ==> calls.len() > 0 && calls.last().result is Err
}

/// How a plan went.
pub open spec fn outcome(calls: Seq<SwitchCall>) -> MonadResult<()> {
    calls.last().result
}

/// An error as one processor reports it.
pub open spec fn seen_on(error: MonadError, cpu: u16) -> MonadError {
    MonadError { cpu_dense_index: cpu, ..error }
}

/// A switch went through: the steps were run, and the target is active. A
/// mailbox that does not take the completion makes the switch a failure that
/// cannot be resumed from.
pub open spec fn switch_done(
    cpu: u16,
    request: MailboxRequest,
    after: ActiveViewState,
    mailbox: MailboxModel,
    mailbox_after: MailboxModel,
    result: Result<(), SwitchFailure>,
) -> bool {
    &&& after == (ActiveViewState { id: request.target_view, eptp: request.target_eptp })
    &&& if mailbox.state is Executing {
        &&& result == Ok::<(), SwitchFailure>(())
        &&& mailbox_after == (MailboxModel {
            state: MailboxState::Completed,
            status: MailboxStatus::Success,
            ..mailbox
        })
    } else {
        let error = seen_on(
            MonadError::new(
                ErrorPhase::Activation,
                ErrorCode::WrongObjectState,
                MailboxStatus::WrongState.spec_code() as u64,
            ),
            cpu,
        );
        &&& result == Err::<(), SwitchFailure>(
            SwitchFailure { forward: error, recovery: Some(error) },
        )
        &&& mailbox_after == mailbox
    }
}

/// A switch failed: the old view stays active, the mailbox says so, and the
/// steps that take the switch back were run.
pub open spec fn switch_undone(
    cpu: u16,
    before: ActiveViewState,
    after: ActiveViewState,
    mailbox: MailboxModel,
    mailbox_after: MailboxModel,
    forward: MonadResult<()>,
    recovery: MonadResult<()>,
    result: Result<(), SwitchFailure>,
) -> bool {
    &&& after == before
    &&& mailbox_after == (MailboxModel {
        state: MailboxState::Failed,
        status: MailboxStatus::SwitchFailed,
        ..mailbox
    })
    &&& forward matches Err(error) && result == Err::<(), SwitchFailure>(
        SwitchFailure {
            forward: seen_on(error, cpu),
            recovery: match recovery {
                Ok(_) => None,
                Err(error) => Some(seen_on(error, cpu)),
            },
        },
    )
}

fn restore_after_failure<B: ViewSwitchBackend>(
    cpu: u16,
    old_eptp: u64,
    target_eptp: u64,
    backend: &mut B,
) -> (result: MonadResult<()>)
    ensures
        ({
            let before = old(backend).calls();
            let after = final(backend).calls();
            let made = after.skip(before.len() as int);
            &&& after.len() > before.len()
            &&& after.take(before.len() as int) == before
            &&& runs(made, cpu, recovery_plan(old_eptp, target_eptp))
            &&& result == outcome(made)
        }),
{
    let ghost before = backend.calls();
    let first = backend.run(cpu, SwitchStep::RestoreOld, old_eptp);
    if first.is_err() {
        proof {
            let made = backend.calls().skip(before.len() as int);
            assert(backend.calls().take(before.len() as int) =~= before);
            assert(made.len() == 1);
        }
        return first;
    }
    let second = backend.run(cpu, SwitchStep::InvalidateFailedTarget, target_eptp);
    if second.is_err() {
        proof {
            let made = backend.calls().skip(before.len() as int);
            assert(backend.calls().take(before.len() as int) =~= before);
            assert(made.len() == 2);
        }
        return second;
    }
    let third = backend.run(cpu, SwitchStep::InvalidateRestoredOld, old_eptp);
    proof {
        let made = backend.calls().skip(before.len() as int);
        assert(backend.calls().take(before.len() as int) =~= before);
        assert(made.len() == 3);
    }
    third
}

/// Runs the steps of a switch up to the first that fails.
fn run_switch<B: ViewSwitchBackend>(
    cpu: u16,
    old_eptp: u64,
    target_eptp: u64,
    backend: &mut B,
) -> (result: MonadResult<()>)
    ensures
        ({
            let before = old(backend).calls();
            let after = final(backend).calls();
            let made = after.skip(before.len() as int);
            &&& after.len() > before.len()
            &&& after.take(before.len() as int) == before
            &&& runs(made, cpu, switch_plan(old_eptp, target_eptp))
            &&& result == outcome(made)
        }),
{
    let ghost before = backend.calls();
    let first = backend.run(cpu, SwitchStep::WriteTarget, target_eptp);
    if first.is_err() {
        proof {
            let made = backend.calls().skip(before.len() as int);
            assert(backend.calls().take(before.len() as int) =~= before);
            assert(made.len() == 1);
        }
        return first;
    }
    let second = backend.run(cpu, SwitchStep::InvalidateOld, old_eptp);
    if second.is_err() {
        proof {
            let made = backend.calls().skip(before.len() as int);
            assert(backend.calls().take(before.len() as int) =~= before);
            assert(made.len() == 2);
        }
        return second;
    }
    let third = backend.run(cpu, SwitchStep::InvalidateTarget, target_eptp);
    proof {
        let made = backend.calls().skip(before.len() as int);
        assert(backend.calls().take(before.len() as int) =~= before);
        assert(made.len() == 3);
    }
    third
}

/// What a switch did, by what its steps came to: `forward` is how many calls
/// ran the switch, the rest took it back.
pub open spec fn switch_result(
    cpu: u16,
    before: ActiveViewState,
    after: ActiveViewState,
    request: MailboxRequest,
    mailbox: MailboxModel,
    mailbox_after: MailboxModel,
    made: Seq<SwitchCall>,
    forward: int,
    result: Result<(), SwitchFailure>,
) -> bool {
    let tried = made.take(forward);
    let back = made.skip(forward);
    &&& 0 < forward <= made.len()
    &&& runs(tried, cpu, switch_plan(before.eptp, request.target_eptp))
    &&& if outcome(tried) is Ok {
        &&& back.len() == 0
        &&& switch_done(cpu, request, after, mailbox, mailbox_after, result)
    } else {
        &&& back.len() > 0
        &&& runs(back, cpu, recovery_plan(before.eptp, request.target_eptp))
        &&& switch_undone(
            cpu,
            before,
            after,
            mailbox,
            mailbox_after,
            outcome(tried),
            outcome(back),
            result,
        )
    }
}

/// What an attempt to switch did: a view that is not the expected one is left
/// alone, and otherwise the steps decide.
pub open spec fn switch_effect(
    cpu: u16,
    before: ActiveViewState,
    after: ActiveViewState,
    request: MailboxRequest,
    mailbox: MailboxModel,
    mailbox_after: MailboxModel,
    calls: Seq<SwitchCall>,
    calls_after: Seq<SwitchCall>,
    result: Result<(), SwitchFailure>,
) -> bool {
    let made = calls_after.skip(calls.len() as int);
    &&& calls_after.len() >= calls.len()
    &&& calls_after.take(calls.len() as int) == calls
    &&& if before.eptp != request.expected_old_eptp {
        &&& made.len() == 0
        &&& after == before
        &&& mailbox_after == (MailboxModel {
            state: MailboxState::Failed,
            status: MailboxStatus::OldViewMismatch,
            ..mailbox
        })
        &&& result == Err::<(), SwitchFailure>(
            SwitchFailure {
                forward: seen_on(
                    MonadError::new(
                        ErrorPhase::Activation,
                        ErrorCode::WrongObjectState,
                        before.eptp,
                    ),
                    cpu,
                ),
                recovery: None,
            },
        )
    } else {
        exists|forward: int| #[trigger]
            switch_result(
                cpu,
                before,
                after,
                request,
                mailbox,
                mailbox_after,
                made,
                forward,
                result,
            )
    }
}

/// Switches a processor to another view. A switch that fails is taken back.
pub fn switch_view<B: ViewSwitchBackend>(
    cpu: u16,
    active: &mut ActiveViewState,
    request: MailboxRequest,
    mailbox: &mut InternalMailbox,
    backend: &mut B,
) -> (result: Result<(), SwitchFailure>)
    ensures
        switch_effect(
            cpu,
            *old(active),
            *final(active),
            request,
            old(mailbox)@,
            final(mailbox)@,
            old(backend).calls(),
            final(backend).calls(),
            result,
        ),
{
    let ghost before = backend.calls();
    let ghost letter = mailbox@;
    if active.eptp != request.expected_old_eptp {
        mailbox.fail(MailboxStatus::OldViewMismatch);
        proof {
            assert(backend.calls().take(before.len() as int) =~= before);
        }
        return Err(
            SwitchFailure::harmless(
                MonadError::new(
                    ErrorPhase::Activation,
                    ErrorCode::WrongObjectState,
                    active.eptp,
                ).on_cpu(cpu),
            ),
        );
    }
    let previous = *active;
    let forward = run_switch(cpu, previous.eptp, request.target_eptp, backend);
    let ghost middle = backend.calls();
    let ghost count = middle.len() - before.len();
    if let Err(error) = forward {
        mailbox.fail(MailboxStatus::SwitchFailed);
        let restored = restore_after_failure(cpu, previous.eptp, request.target_eptp, backend);
        let recovery = match restored {
            Ok(_) => None,
            Err(failed) => Some(failed.on_cpu(cpu)),
        };
        let result = Err(SwitchFailure { forward: error.on_cpu(cpu), recovery });
        proof {
            let calls = backend.calls();
            let made = calls.skip(before.len() as int);
            assert(calls.take(middle.len() as int) == middle);
            assert(middle.take(before.len() as int) == before);
            assert(calls.take(before.len() as int) =~= before) by {
                assert forall|i: int| 0 <= i < before.len() implies calls[i] == before[i] by {
                    assert(calls.take(middle.len() as int)[i] == middle[i]);
                    assert(middle.take(before.len() as int)[i] == before[i]);
                }
            }
            assert(made.take(count) =~= middle.skip(before.len() as int)) by {
                assert forall|i: int| 0 <= i < count implies made[i] == middle.skip(
                    before.len() as int,
                )[i] by {
                    assert(calls.take(middle.len() as int)[before.len() + i] == middle[before.len()
                        + i]);
                }
            }
            assert(made.skip(count) =~= calls.skip(middle.len() as int));
            assert(switch_result(
                cpu,
                previous,
                *active,
                request,
                letter,
                mailbox@,
                made,
                count,
                result,
            ));
        }
        return result;
    }
    active.id = request.target_view;
    active.eptp = request.target_eptp;
    let completed = mailbox.complete();
    let result = match completed {
        Ok(_) => Ok(()),
        Err(status) => {
            let error = MonadError::new(
                ErrorPhase::Activation,
                ErrorCode::WrongObjectState,
                status.code() as u64,
            ).on_cpu(cpu);
            Err(SwitchFailure { forward: error, recovery: Some(error) })
        },
    };
    proof {
        let made = backend.calls().skip(before.len() as int);
        assert(made.take(count) =~= made);
        assert(made.skip(count).len() == 0);
        assert(switch_result(
            cpu,
            previous,
            *active,
            request,
            letter,
            mailbox@,
            made,
            count,
            result,
        ));
    }
    result
}

/// Takes a switch back. Where that fails, the view is not said to have
/// changed.
pub fn rollback_view<B: ViewSwitchBackend>(
    cpu: u16,
    active: &mut ActiveViewState,
    old_view: ActiveViewState,
    backend: &mut B,
) -> (result: MonadResult<()>)
    ensures
        ({
            let before = old(backend).calls();
            let calls = final(backend).calls();
            let made = calls.skip(before.len() as int);
            &&& calls.len() > before.len()
            &&& calls.take(before.len() as int) == before
            &&& runs(made, cpu, recovery_plan(old_view.eptp, old(active).eptp))
            &&& result == outcome(made)
            &&& *final(active) == if result is Ok {
                old_view
            } else {
                *old(active)
            }
        }),
{
    let current = *active;
    let result = restore_after_failure(cpu, old_view.eptp, current.eptp, backend);
    if result.is_ok() {
        *active = old_view;
    }
    result
}

/// How far one processor has come.
#[derive(Debug, Clone, Copy, PartialEq, Eq, Structural)]
pub enum CpuResultState {
    Waiting,
    NotTarget,
    Switched,
    Failed,
    RolledBack,
    Fatal,
}

impl CpuResultState {
    pub open spec fn spec_code(self) -> u32 {
        match self {
            CpuResultState::Waiting => 0,
            CpuResultState::NotTarget => 1,
            CpuResultState::Switched => 2,
            CpuResultState::Failed => 3,
            CpuResultState::RolledBack => 4,
            CpuResultState::Fatal => 5,
        }
    }

    #[verifier::when_used_as_spec(spec_code)]
    pub fn code(self) -> (code: u32)
        ensures
            code == self.spec_code(),
    {
        match self {
            CpuResultState::Waiting => 0,
            CpuResultState::NotTarget => 1,
            CpuResultState::Switched => 2,
            CpuResultState::Failed => 3,
            CpuResultState::RolledBack => 4,
            CpuResultState::Fatal => 5,
        }
    }
}

/// What one processor reports.
#[derive(Debug, Clone, Copy, PartialEq, Eq, Structural)]
pub struct RendezvousCpuResult {
    pub state: CpuResultState,
    pub status: u32,
}

impl RendezvousCpuResult {
    pub fn state(&self) -> (state: u32)
        ensures
            state == self.state.spec_code(),
    {
        self.state.code()
    }

    pub fn status(&self) -> (status: u32)
        ensures
            status == self.status,
    {
        self.status
    }
}

/// One change that all processors make together.
pub struct RendezvousTransaction {
    pub epoch: u64,
    pub target_mask: Vec<bool>,
    pub participant_count: u32,
    pub arrived: u32,
    pub finished: u32,
    pub rollback_finished: u32,
    pub failed: bool,
    pub fatal: bool,
    pub release: bool,
    pub per_cpu: Vec<RendezvousCpuResult>,
    pub deadline_tsc: u64,
}

/// Whether a target can be one: it takes part, and was not named before.
pub open spec fn target_ok(targets: Seq<u16>, participants: u16, i: int) -> bool {
    &&& targets[i] < participants
    &&& forall|j: int| 0 <= j < i ==> #[trigger] targets[j] != targets[i]
}

/// Why there is no such transaction, if there is none.
pub open spec fn transaction_fault(
    epoch: u64,
    participants: u16,
    targets: Seq<u16>,
    error: MonadError,
) -> bool {
    if epoch == 0 || participants == 0 || participants > MAX_LOGICAL_CPUS {
        error == MonadError::new(
            ErrorPhase::Rendezvous,
            ErrorCode::InvalidCpuSet,
            participants as u64,
        )
    } else if targets.len() == 0 {
        error == MonadError::new(ErrorPhase::Rendezvous, ErrorCode::InvalidCpuSet, 0)
    } else {
        exists|i: int|
            {
                &&& 0 <= i < targets.len()
                &&& !#[trigger] target_ok(targets, participants, i)
                &&& forall|j: int|
                    0 <= j < i ==> #[trigger] target_ok(targets, participants, j)
                &&& error == MonadError::new(
                    ErrorPhase::Rendezvous,
                    ErrorCode::InvalidCpuSet,
                    targets[i] as u64,
                )
            }
    }
}

impl RendezvousTransaction {
    /// Which processors are to switch.
    pub open spec fn targets(&self) -> Seq<bool> {
        self.target_mask@
    }

    pub open spec fn spec_deadline(&self) -> u64 {
        self.deadline_tsc
    }

    /// A transaction of processors of which some are targets.
    pub fn new(epoch: u64, participant_count: u16, targets: &[u16], deadline_tsc: u64) -> (result:
        MonadResult<Self>)
        ensures
            match result {
                Ok(transaction) => {
                    &&& epoch != 0
                    &&& 0 < participant_count <= MAX_LOGICAL_CPUS
                    &&& targets@.len() > 0
                    &&& forall|i: int|
                        0 <= i < targets@.len() ==> #[trigger] target_ok(
                            targets@,
                            participant_count,
                            i,
                        )
                    &&& transaction.epoch == epoch
                    &&& transaction.participant_count == participant_count
                    &&& transaction.targets().len() == MAX_LOGICAL_CPUS
                    &&& forall|cpu: u16|
                        cpu < MAX_LOGICAL_CPUS ==> #[trigger] transaction.targets()[cpu as int]
                            == targets@.contains(cpu)
                    &&& transaction.arrived == 0
                    &&& transaction.finished == 0
                    &&& transaction.rollback_finished == 0
                    &&& !transaction.failed
                    &&& !transaction.fatal
                    &&& !transaction.release
                    &&& transaction.per_cpu@.len() == MAX_LOGICAL_CPUS
                    &&& forall|cpu: int|
                        0 <= cpu < MAX_LOGICAL_CPUS ==> #[trigger] transaction.per_cpu@[cpu] == (
                        RendezvousCpuResult { state: CpuResultState::Waiting, status: 0 })
                    &&& transaction.spec_deadline() == deadline_tsc
                },
                Err(error) => transaction_fault(epoch, participant_count, targets@, error),
            },
    {
        if epoch == 0 || participant_count == 0 || participant_count as usize > MAX_LOGICAL_CPUS {
            return Err(
                MonadError::new(
                    ErrorPhase::Rendezvous,
                    ErrorCode::InvalidCpuSet,
                    participant_count as u64,
                ),
            );
        }
        let mut target_mask: Vec<bool> = Vec::new();
        let mut per_cpu: Vec<RendezvousCpuResult> = Vec::new();
        while target_mask.len() < MAX_LOGICAL_CPUS
            invariant
                target_mask@.len() <= MAX_LOGICAL_CPUS,
                per_cpu@.len() == target_mask@.len(),
                forall|i: int| 0 <= i < target_mask@.len() ==> !#[trigger] target_mask@[i],
                forall|i: int|
                    0 <= i < per_cpu@.len() ==> #[trigger] per_cpu@[i] == (RendezvousCpuResult {
                        state: CpuResultState::Waiting,
                        status: 0,
                    }),
            decreases MAX_LOGICAL_CPUS - target_mask@.len(),
        {
            target_mask.push(false);
            per_cpu.push(RendezvousCpuResult { state: CpuResultState::Waiting, status: 0 });
        }
        let mut i: usize = 0;
        while i < targets.len()
            invariant
                i <= targets@.len(),
                epoch != 0,
                0 < participant_count <= MAX_LOGICAL_CPUS,
                target_mask@.len() == MAX_LOGICAL_CPUS,
                forall|j: int| 0 <= j < i ==> #[trigger] target_ok(targets@, participant_count, j),
                forall|cpu: u16|
                    cpu < MAX_LOGICAL_CPUS ==> #[trigger] target_mask@[cpu as int] == targets@.take(
                        i as int,
                    ).contains(cpu),
            decreases targets@.len() - i,
        {
            let target: u16 = targets[i];
            let ghost seen = targets@.take(i as int);
            if target as usize >= target_mask.len() || target_mask[target as usize] || target
                >= participant_count {
                proof {
                    if target < MAX_LOGICAL_CPUS && target_mask@[target as int] {
                        assert(seen.contains(target));
                        let j = choose|j: int| 0 <= j < seen.len() && seen[j] == target;
                        assert(targets@[j] == target);
                    }
                    assert(!target_ok(targets@, participant_count, i as int));
                }
                return Err(
                    MonadError::new(
                        ErrorPhase::Rendezvous,
                        ErrorCode::InvalidCpuSet,
                        target as u64,
                    ),
                );
            }
            let ghost before = target_mask@;
            target_mask.set(target as usize, true);
            proof {
                assert(target_ok(targets@, participant_count, i as int)) by {
                    assert forall|j: int| 0 <= j < i implies #[trigger] targets@[j] != target by {
                        if targets@[j] == target {
                            assert(seen[j] == target);
                            assert(seen.contains(target));
                        }
                    }
                }
                let next = targets@.take(i + 1);
                assert forall|cpu: u16| cpu < MAX_LOGICAL_CPUS implies #[trigger] target_mask@[cpu as int]
                    == next.contains(cpu) by {
                    assert(before[cpu as int] == seen.contains(cpu));
                    if seen.contains(cpu) {
                        let j = choose|j: int| 0 <= j < seen.len() && seen[j] == cpu;
                        assert(next[j] == cpu);
                    }
                    if cpu == target {
                        assert(next[i as int] == cpu);
                    }
                    if next.contains(cpu) {
                        let j = choose|j: int| 0 <= j < next.len() && next[j] == cpu;
                        if j < i {
                            assert(seen[j] == cpu);
                        }
                    }
                }
            }
            i += 1;
        }
        if targets.len() == 0 {
            return Err(MonadError::new(ErrorPhase::Rendezvous, ErrorCode::InvalidCpuSet, 0));
        }
        assert(targets@.take(i as int) =~= targets@);
        Ok(
            RendezvousTransaction {
                epoch,
                target_mask,
                participant_count: participant_count as u32,
                arrived: 0,
                finished: 0,
                rollback_finished: 0,
                failed: false,
                fatal: false,
                release: false,
                per_cpu,
                deadline_tsc,
            },
        )
    }

    /// Whether a processor is to switch.
    pub fn is_target(&self, cpu: u16) -> (target: bool)
        ensures
            target == (cpu < self.targets().len() && self.targets()[cpu as int]),
    {
        if (cpu as usize) < self.target_mask.len() {
            self.target_mask[cpu as usize]
        } else {
            false
        }
    }

    #[verifier::when_used_as_spec(spec_deadline)]
    pub fn deadline_tsc(&self) -> (deadline: u64)
        ensures
            deadline == self.spec_deadline(),
    {
        self.deadline_tsc
    }

    /// One look at a barrier: whether all have come, or time is up, which is
    /// fatal; neither, as long as there is something to wait for.
    pub fn wait_for(&mut self, counter: u32, now: u64) -> (passed: Option<bool>)
        ensures
            passed == if counter == old(self).participant_count {
                Some(true)
            } else if now >= old(self).spec_deadline() {
                Some(false)
            } else {
                None
            },
            *final(self) == (RendezvousTransaction {
                fatal: old(self).fatal || passed == Some(false),
                ..*old(self)
            }),
    {
        if counter == self.participant_count {
            return Some(true);
        }
        if now >= self.deadline_tsc {
            self.fatal = true;
            return Some(false);
        }
        None
    }

    /// Records how far a processor has come.
    pub fn set_result(&mut self, cpu: u16, state: CpuResultState, status: u32)
        ensures
            final(self).per_cpu@ == if cpu < old(self).per_cpu@.len() {
                old(self).per_cpu@.update(cpu as int, RendezvousCpuResult { state, status })
            } else {
                old(self).per_cpu@
            },
            *final(self) == (RendezvousTransaction {
                per_cpu: final(self).per_cpu,
                ..*old(self)
            }),
    {
        if (cpu as usize) < self.per_cpu.len() {
            self.per_cpu.set(cpu as usize, RendezvousCpuResult { state, status });
        }
    }
}

/// A switch that failed and was taken back is not said to need recovery; one
/// that could not be taken back is.
pub proof fn law_recovery_is_reported(
    cpu: u16,
    before: ActiveViewState,
    after: ActiveViewState,
    request: MailboxRequest,
    mailbox: MailboxModel,
    mailbox_after: MailboxModel,
    made: Seq<SwitchCall>,
    forward: int,
    result: Result<(), SwitchFailure>,
)
    requires
        switch_result(
            cpu,
            before,
            after,
            request,
            mailbox,
            mailbox_after,
            made,
            forward,
            result,
        ),
        outcome(made.take(forward)) is Err,
    ensures
        after == before,
        result is Err,
        result->Err_0.recovery is None <==> made.len() == forward + 3 && outcome(made) is Ok,
{
    let back = made.skip(forward);
    assert(back.len() > 0);
    assert(back.last() == made.last());
}

} // verus!
