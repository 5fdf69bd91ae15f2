//! Mailboxes, switches of one processor, and the rendezvous of all of them.

use std::collections::HashSet;

use monad::ept::ViewId;
use monad::error::{ErrorCode, ErrorPhase, MonadError, MonadResult};
use monad::exit::disposition::{ExitDisposition, FatalReason};
use monad::exit::vmcall::switch_disposition;
use monad::rendezvous::{
    rollback_view, switch_view, ActiveViewState, CpuResultState, InternalMailbox, MailboxRequest,
    MailboxState, MailboxStatus, MailboxValidation, PublishedViewDirectory, RendezvousOperation,
    RendezvousTransaction, SwitchStep, ViewSwitchBackend,
};
use monad::rendezvous::transaction::SwitchLog;
use monad::topology::CpuId;

#[derive(Default)]
struct ModelBackend {
    log: Vec<(u16, SwitchStep, u64)>,
    fail_at: Option<usize>,
}

impl ViewSwitchBackend for ModelBackend {
    fn calls(&self) -> SwitchLog {
        unreachable!("a log for proofs")
    }

    fn run(&mut self, cpu: u16, step: SwitchStep, eptp: u64) -> MonadResult<()> {
        let ordinal = self.log.len();
        self.log.push((cpu, step, eptp));
        if self.fail_at == Some(ordinal) {
            return Err(MonadError::new(
                ErrorPhase::Activation,
                ErrorCode::InveptFailure,
                ordinal as u64,
            ));
        }
        Ok(())
    }
}

fn view(slot: u16, eptp: u64) -> ActiveViewState {
    ActiveViewState {
        id: ViewId {
            slot,
            reserved: 0,
            generation: 1,
        },
        eptp,
    }
}

fn request(epoch: u64, old: ActiveViewState, new: ActiveViewState) -> MailboxRequest {
    MailboxRequest {
        epoch,
        operation: RendezvousOperation::SwitchView,
        target_view: new.id,
        target_eptp: new.eptp,
        expected_old_eptp: old.eptp,
    }
}

fn processor(index: u16) -> CpuId {
    CpuId {
        dense_index: index,
        group: 0,
        number: index as u8,
        reserved: [0; 3],
    }
}

#[test]
fn mailbox_transition_table() {
    let mut mailbox = InternalMailbox::new();
    let old = view(0, 0x1000);
    let new = view(1, 0x2000);
    let prepared = request(7, old, new);
    assert_eq!(mailbox.state(), Some(MailboxState::Idle));
    mailbox.prepare(prepared).expect("prepare");
    assert!(mailbox.prepare(prepared).is_err());
    let valid = MailboxValidation {
        cs_selector: 0,
        expected_cpu: processor(0),
        current_cpu: processor(0),
        active_epoch: 7,
        active_view: old.id,
        active_eptp: old.eptp,
        resolved_target_eptp: Some(new.eptp),
    };
    assert_eq!(mailbox.consume(valid).expect("consume"), prepared);
    mailbox.complete().expect("complete");
    mailbox.reset().expect("reset");
    for status in [
        MailboxStatus::WrongCpl,
        MailboxStatus::WrongCpu,
        MailboxStatus::WrongEpoch,
        MailboxStatus::OldViewMismatch,
        MailboxStatus::UnknownView,
        MailboxStatus::TargetEptpMismatch,
    ] {
        mailbox.prepare(prepared).expect("prepare");
        let mut invalid = valid;
        match status {
            MailboxStatus::WrongCpl => invalid.cs_selector = 3,
            MailboxStatus::WrongCpu => invalid.current_cpu = processor(1),
            MailboxStatus::WrongEpoch => invalid.active_epoch = 8,
            MailboxStatus::OldViewMismatch => invalid.active_eptp = 0x3000,
            MailboxStatus::UnknownView => invalid.resolved_target_eptp = None,
            MailboxStatus::TargetEptpMismatch => invalid.resolved_target_eptp = Some(0x4000),
            _ => {}
        }
        assert_eq!(mailbox.consume(invalid), Err(status));
        if mailbox.state() == Some(MailboxState::Prepared) {
            mailbox.fail(status);
        }
        mailbox.reset().expect("reset");
    }
    mailbox.prepare(prepared).expect("prepare");
    mailbox.set_raw_operation(99);
    assert_eq!(mailbox.consume(valid), Err(MailboxStatus::InvalidOperation));
}

#[test]
fn shared_base_eptp() {
    let base = view(0, 0x1234_501e);
    let states = [base; 256];
    assert!(states
        .iter()
        .all(|state| state.id == base.id && state.eptp == base.eptp));
}

#[test]
fn transaction_success() {
    for count in [1u16, 2, 64, 256] {
        let targets: Vec<u16> = (0..count).filter(|cpu| cpu % 2 == 0).collect();
        let mut transaction = RendezvousTransaction::new(1, count, &targets, 100).expect("tx");
        let old = view(0, 0x1000);
        let new = view(1, 0x2000);
        for cpu in 0..count {
            if !transaction.is_target(cpu) {
                transaction.set_result(cpu, CpuResultState::NotTarget, 0);
                continue;
            }
            let mut mailbox = InternalMailbox::new();
            mailbox.prepare(request(1, old, new)).expect("prepare");
            let consumed = mailbox
                .consume(MailboxValidation {
                    cs_selector: 0,
                    expected_cpu: processor(cpu),
                    current_cpu: processor(cpu),
                    active_epoch: 1,
                    active_view: old.id,
                    active_eptp: old.eptp,
                    resolved_target_eptp: Some(new.eptp),
                })
                .expect("consume");
            let mut active = old;
            let mut backend = ModelBackend::default();
            switch_view(cpu, &mut active, consumed, &mut mailbox, &mut backend).expect("switch");
            assert_eq!(active, new);
            assert_eq!(
                backend.log.iter().map(|entry| entry.1).collect::<Vec<_>>(),
                vec![
                    SwitchStep::WriteTarget,
                    SwitchStep::InvalidateOld,
                    SwitchStep::InvalidateTarget
                ]
            );
            transaction.set_result(cpu, CpuResultState::Switched, 0);
        }
    }
}

#[test]
fn failure_each_switch_step_rolls_back() {
    let old = view(0, 0x1000);
    let new = view(1, 0x2000);
    for fail_at in 0..3usize {
        let mut mailbox = InternalMailbox::new();
        mailbox.prepare(request(1, old, new)).expect("prepare");
        let consumed = mailbox
            .consume(MailboxValidation {
                cs_selector: 0,
                expected_cpu: processor(0),
                current_cpu: processor(0),
                active_epoch: 1,
                active_view: old.id,
                active_eptp: old.eptp,
                resolved_target_eptp: Some(new.eptp),
            })
            .expect("consume");
        let mut active = old;
        let mut backend = ModelBackend {
            log: Vec::new(),
            fail_at: Some(fail_at),
        };
        assert!(switch_view(0, &mut active, consumed, &mut mailbox, &mut backend).is_err());
        assert_eq!(active, old);
        assert!(backend
            .log
            .iter()
            .any(|entry| entry.1 == SwitchStep::RestoreOld));
    }
}

#[test]
fn illustrative_rollback_failure_model() {
    let mut transaction = RendezvousTransaction::new(1, 2, &[0, 1], 100).expect("tx");
    let mut active = view(1, 0x2000);
    let mut backend = ModelBackend {
        log: Vec::new(),
        fail_at: Some(0),
    };
    if rollback_view(0, &mut active, view(0, 0x1000), &mut backend).is_err() {
        transaction.fatal = true;
    }
    assert!(transaction.fatal);
    assert_eq!(active, view(1, 0x2000));
}

#[test]
fn barrier_timeout_is_fatal() {
    let mut transaction = RendezvousTransaction::new(1, 3, &[0], 5).expect("tx");
    transaction.arrived = 2;
    let mut tsc = 0u64;
    let arrived = transaction.arrived;
    let passed = loop {
        tsc += 1;
        match transaction.wait_for(arrived, tsc) {
            Some(passed) => break passed,
            None => assert!(!transaction.fatal),
        }
    };
    assert!(!passed);
    assert_eq!(tsc, 5);
    assert!(transaction.fatal);
}

#[test]
fn nontargets_remain_at_barrier() {
    let mut transaction = RendezvousTransaction::new(1, 3, &[0], 100).expect("tx");
    transaction.arrived = 3;
    transaction.finished = 2;
    let mut tsc = 0;
    let finished = transaction.finished;
    let passed = loop {
        tsc += 50;
        if let Some(passed) = transaction.wait_for(finished, tsc) {
            break passed;
        }
    };
    assert!(!passed);
    assert_eq!(
        transaction.per_cpu[1].state(),
        CpuResultState::Waiting.code()
    );
}

#[test]
fn no_active_table_write() {
    let old = view(0, 0x1000);
    let new = view(1, 0x2000);
    let mut active = old;
    let mut mailbox = InternalMailbox::new();
    mailbox.prepare(request(1, old, new)).expect("prepare");
    let consumed = mailbox
        .consume(MailboxValidation {
            cs_selector: 0,
            expected_cpu: processor(0),
            current_cpu: processor(0),
            active_epoch: 1,
            active_view: old.id,
            active_eptp: old.eptp,
            resolved_target_eptp: Some(new.eptp),
        })
        .expect("consume");
    let mut backend = ModelBackend::default();
    switch_view(0, &mut active, consumed, &mut mailbox, &mut backend).expect("switch");
    assert!(backend.log.iter().all(|entry| matches!(
        entry.1,
        SwitchStep::WriteTarget | SwitchStep::InvalidateOld | SwitchStep::InvalidateTarget
    )));
}

#[derive(Debug, Clone, Copy, PartialEq, Eq, Hash)]
enum CpuModel {
    Native,
    WaitingOld,
    SwitchedNew,
    FailedOld,
    RolledBackOld,
    ReleasedOld,
    ReleasedNew,
}

#[derive(Debug, Clone, Copy, PartialEq, Eq, Hash)]
enum Phase {
    Arriving,
    Switching,
    RollingBack,
    ReleaseOld,
    ReleaseNew,
    Complete,
}

#[derive(Debug, Clone, Copy, PartialEq, Eq, Hash)]
struct Model {
    cpus: [CpuModel; 3],
    phase: Phase,
}

fn successors(model: Model, failed_cpu: Option<usize>) -> Vec<Model> {
    let mut next = Vec::new();
    match model.phase {
        Phase::Arriving => {
            for cpu in 0..model.cpus.len() {
                if model.cpus[cpu] == CpuModel::Native {
                    let mut state = model;
                    state.cpus[cpu] = CpuModel::WaitingOld;
                    next.push(state);
                }
            }
            if model.cpus.iter().all(|cpu| *cpu == CpuModel::WaitingOld) {
                let mut state = model;
                state.phase = Phase::Switching;
                next.push(state);
            }
        }
        Phase::Switching => {
            for cpu in 0..model.cpus.len() {
                if model.cpus[cpu] == CpuModel::WaitingOld {
                    let mut state = model;
                    state.cpus[cpu] = if failed_cpu == Some(cpu) {
                        CpuModel::FailedOld
                    } else {
                        CpuModel::SwitchedNew
                    };
                    next.push(state);
                }
            }
            if model
                .cpus
                .iter()
                .all(|cpu| matches!(cpu, CpuModel::SwitchedNew | CpuModel::FailedOld))
            {
                let mut state = model;
                state.phase = if model.cpus.contains(&CpuModel::FailedOld) {
                    Phase::RollingBack
                } else {
                    Phase::ReleaseNew
                };
                next.push(state);
            }
        }
        Phase::RollingBack => {
            for cpu in 0..model.cpus.len() {
                if model.cpus[cpu] == CpuModel::SwitchedNew {
                    let mut state = model;
                    state.cpus[cpu] = CpuModel::RolledBackOld;
                    next.push(state);
                }
            }
            if !model.cpus.contains(&CpuModel::SwitchedNew) {
                let mut state = model;
                state.phase = Phase::ReleaseOld;
                next.push(state);
            }
        }
        Phase::ReleaseOld => {
            for cpu in 0..model.cpus.len() {
                if matches!(
                    model.cpus[cpu],
                    CpuModel::FailedOld | CpuModel::RolledBackOld
                ) {
                    let mut state = model;
                    state.cpus[cpu] = CpuModel::ReleasedOld;
                    next.push(state);
                }
            }
            if model.cpus.iter().all(|cpu| *cpu == CpuModel::ReleasedOld) {
                let mut state = model;
                state.phase = Phase::Complete;
                next.push(state);
            }
        }
        Phase::ReleaseNew => {
            for cpu in 0..model.cpus.len() {
                if model.cpus[cpu] == CpuModel::SwitchedNew {
                    let mut state = model;
                    state.cpus[cpu] = CpuModel::ReleasedNew;
                    next.push(state);
                }
            }
            if model.cpus.iter().all(|cpu| *cpu == CpuModel::ReleasedNew) {
                let mut state = model;
                state.phase = Phase::Complete;
                next.push(state);
            }
        }
        Phase::Complete => {}
    }
    next
}

#[test]
fn interleaving_model() {
    for failed_cpu in [None, Some(0usize), Some(1), Some(2)] {
        let initial = Model {
            cpus: [CpuModel::Native; 3],
            phase: Phase::Arriving,
        };
        let mut pending = vec![initial];
        let mut visited = HashSet::new();
        let mut completed = 0usize;
        while let Some(model) = pending.pop() {
            if !visited.insert(model) {
                continue;
            }

            let released_old = model.cpus.contains(&CpuModel::ReleasedOld);
            let released_new = model.cpus.contains(&CpuModel::ReleasedNew);
            assert!(!(released_old && released_new), "mixed release: {model:?}");
            if released_old {
                assert!(
                    !model.cpus.iter().any(|cpu| {
                        matches!(cpu, CpuModel::SwitchedNew | CpuModel::ReleasedNew)
                    }),
                    "old release while a CPU still has the new EPTP: {model:?}"
                );
            }
            if released_new {
                assert!(
                    model.cpus.iter().all(|cpu| {
                        matches!(cpu, CpuModel::SwitchedNew | CpuModel::ReleasedNew)
                    }),
                    "new release before every CPU switched: {model:?}"
                );
            }
            if matches!(model.phase, Phase::Switching) {
                assert!(
                    model.cpus.iter().all(|cpu| *cpu != CpuModel::Native),
                    "switching began before the arrival barrier: {model:?}"
                );
            }

            if model.phase == Phase::Complete {
                completed += 1;
                if failed_cpu.is_some() {
                    assert_eq!(model.cpus, [CpuModel::ReleasedOld; 3]);
                } else {
                    assert_eq!(model.cpus, [CpuModel::ReleasedNew; 3]);
                }
            } else {
                let next = successors(model, failed_cpu);
                assert!(!next.is_empty(), "deadlocked model state: {model:?}");
                pending.extend(next);
            }
        }
        assert!(
            completed > 0,
            "no terminal state for failure {failed_cpu:?}"
        );
    }
}

struct Hardware {
    eptp: u64,
    fail_forward: SwitchStep,
    fail_recovery: Option<SwitchStep>,
    invalidated: Vec<u64>,
}

impl ViewSwitchBackend for Hardware {
    fn calls(&self) -> SwitchLog {
        unreachable!("a log for proofs")
    }

    fn run(&mut self, cpu: u16, step: SwitchStep, eptp: u64) -> MonadResult<()> {
        if step == self.fail_forward || Some(step) == self.fail_recovery {
            return Err(MonadError::new(
                ErrorPhase::Activation,
                ErrorCode::InveptFailure,
                u64::from(step.code()),
            )
            .on_cpu(cpu));
        }
        match step {
            SwitchStep::WriteTarget | SwitchStep::RestoreOld => self.eptp = eptp,
            _ => self.invalidated.push(eptp),
        }
        Ok(())
    }
}

#[test]
fn recovery_failure_cannot_cross_the_production_resume_boundary() {
    for forward in [
        SwitchStep::WriteTarget,
        SwitchStep::InvalidateOld,
        SwitchStep::InvalidateTarget,
    ] {
        for recovery in [
            None,
            Some(SwitchStep::RestoreOld),
            Some(SwitchStep::InvalidateFailedTarget),
            Some(SwitchStep::InvalidateRestoredOld),
        ] {
            let old = view(0, 0x101e);
            let target = view(1, 0x201e);
            let mut active = old;
            let mut mailbox = InternalMailbox::new();
            let mut hardware = Hardware {
                eptp: old.eptp,
                fail_forward: forward,
                fail_recovery: recovery,
                invalidated: Vec::new(),
            };
            let result = switch_view(
                0,
                &mut active,
                request(1, old, target),
                &mut mailbox,
                &mut hardware,
            );
            let failure = result.expect_err("injected failure");
            assert_eq!(failure.forward.detail, u64::from(forward.code()));
            assert_eq!(
                failure.recovery.map(|error| error.detail),
                recovery.map(|step| u64::from(step.code()))
            );
            assert_eq!(active, old);
            let disposition = switch_disposition(RendezvousOperation::SwitchView, result);
            if recovery.is_some() {
                assert_eq!(
                    disposition,
                    ExitDisposition::Fatal(FatalReason::RendezvousRollbackFailure)
                );
                if recovery == Some(SwitchStep::RestoreOld)
                    && forward != SwitchStep::WriteTarget
                {
                    assert_eq!(hardware.eptp, target.eptp);
                }
            } else {
                assert_eq!(hardware.eptp, old.eptp);
                assert!(hardware.invalidated.ends_with(&[target.eptp, old.eptp]));
                assert_eq!(disposition, ExitDisposition::ResumeAndAdvance);
            }
        }
    }
}

#[test]
fn mailbox_commit_failure_is_terminal_after_hardware_commit() {
    let old = view(0, 0x101e);
    let target = view(1, 0x201e);
    let mut active = old;
    let result = switch_view(
        0,
        &mut active,
        request(1, old, target),
        &mut InternalMailbox::new(),
        &mut ModelBackend::default(),
    );
    assert_eq!(active, target);
    assert!(result.expect_err("unarmed mailbox").recovery.is_some());
}

#[test]
fn transactions_need_participants_and_targets() {
    let refused = |epoch: u64, count: u16, targets: &[u16]| {
        match RendezvousTransaction::new(epoch, count, targets, 1) {
            Ok(_) => panic!("accepted"),
            Err(error) => (error.code, error.detail),
        }
    };
    assert_eq!(refused(0, 1, &[0]), (ErrorCode::InvalidCpuSet, 1));
    assert_eq!(refused(1, 0, &[0]), (ErrorCode::InvalidCpuSet, 0));
    assert_eq!(refused(1, 257, &[0]), (ErrorCode::InvalidCpuSet, 257));
    assert_eq!(refused(1, 2, &[2]), (ErrorCode::InvalidCpuSet, 2));
    assert_eq!(refused(1, 2, &[1, 1]), (ErrorCode::InvalidCpuSet, 1));
    assert_eq!(refused(1, 2, &[300]), (ErrorCode::InvalidCpuSet, 300));
    assert_eq!(refused(1, 2, &[]), (ErrorCode::InvalidCpuSet, 0));
}

#[test]
fn directories_resolve_what_was_published() {
    let mut directory = PublishedViewDirectory::new();
    let id = view(3, 0).id;
    assert_eq!(directory.resolve(id), None);
    directory.publish(id, 0x601e).expect("publish");
    assert_eq!(directory.resolve(id), Some(0x601e));
    assert_eq!(directory.resolve(ViewId { generation: 2, ..id }), None);
    let far = ViewId { slot: 9, reserved: 0, generation: 1 };
    assert!(directory.publish(far, 0x701e).is_err());
}

#[test]
fn a_switch_from_another_view_is_refused_untouched() {
    let old = view(0, 0x1000);
    let new = view(1, 0x2000);
    let mut active = view(2, 0x3000);
    let mut mailbox = InternalMailbox::new();
    let mut backend = ModelBackend::default();
    let failure = switch_view(4, &mut active, request(1, old, new), &mut mailbox, &mut backend)
        .expect_err("another view");
    assert_eq!(failure.forward.code, ErrorCode::WrongObjectState);
    assert_eq!(failure.forward.detail, 0x3000);
    assert_eq!(failure.forward.cpu_dense_index, 4);
    assert_eq!(failure.recovery, None);
    assert_eq!(active, view(2, 0x3000));
    assert!(backend.log.is_empty());
    assert_eq!(mailbox.status(), MailboxStatus::OldViewMismatch.code());
}

#[test]
fn rollback_after_a_switch_restores_the_view() {
    let old = view(0, 0x1000);
    let new = view(1, 0x2000);
    let mut active = old;
    let mut mailbox = InternalMailbox::new();
    let prepared = request(1, old, new);
    mailbox.prepare(prepared).expect("prepare");
    let mut backend = ModelBackend::default();
    let _ = switch_view(0, &mut active, prepared, &mut mailbox, &mut backend);
    assert_eq!(active, new);
    rollback_view(0, &mut active, old, &mut backend).expect("rollback");
    assert_eq!(active, old);
    assert_eq!(
        backend.log[3..],
        [
            (0, SwitchStep::RestoreOld, 0x1000),
            (0, SwitchStep::InvalidateFailedTarget, 0x2000),
            (0, SwitchStep::InvalidateRestoredOld, 0x1000),
        ]
    );
}
