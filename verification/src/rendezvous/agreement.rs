//! What a message between processors is for: what was left is what is taken, by
//! the processor that it is meant for, and what was switched is what was asked.

use vstd::prelude::*;

use super::mailbox;
use super::mailbox::{
    MailboxModel, MailboxRequest, MailboxState, MailboxStatus, MailboxValidation,
    PublishedViewDirectory, RendezvousOperation,
};
use super::transaction;
use super::transaction::{
    ActiveViewState, CpuResultState, RendezvousTransaction, SwitchCall, SwitchFailure, SwitchStep,
};
use crate::arch::intel::takeover;
use crate::ept::view::ViewId;
use crate::error::MonadError;

verus! {

/// The numbers of states, operations, results and steps.
pub proof fn law_numbers_of_messages(
    state: MailboxState,
    operation: RendezvousOperation,
    status: MailboxStatus,
    step: SwitchStep,
    result: CpuResultState,
    state_number: u8,
    operation_number: u8,
    status_number: u32,
    step_number: u8,
    result_number: u32,
)
    requires
        call_ensures(MailboxState::code, (state,), state_number),
        call_ensures(RendezvousOperation::code, (operation,), operation_number),
        call_ensures(MailboxStatus::code, (status,), status_number),
        call_ensures(SwitchStep::code, (step,), step_number),
        call_ensures(CpuResultState::code, (result,), result_number),
    ensures
        state_number == 0 <==> state is Idle,
        state_number == 1 <==> state is Prepared,
        state_number == 2 <==> state is Executing,
        state_number == 3 <==> state is Completed,
        state_number == 4 <==> state is Failed,
        operation_number == 1 <==> operation is SwitchView,
        operation_number == 2 <==> operation is RollbackView,
        operation_number == 3 <==> operation is Shutdown,
        status_number == 0 <==> status is Pending,
        status_number == 1 <==> status is Success,
        status_number == 2 <==> status is WrongCpl,
        status_number == 3 <==> status is WrongCpu,
        status_number == 4 <==> status is WrongState,
        status_number == 5 <==> status is WrongEpoch,
        status_number == 6 <==> status is InvalidOperation,
        status_number == 7 <==> status is OldViewMismatch,
        status_number == 8 <==> status is UnknownView,
        status_number == 9 <==> status is TargetEptpMismatch,
        status_number == 10 <==> status is SwitchFailed,
        step_number == 1 <==> step is WriteTarget,
        step_number == 2 <==> step is InvalidateOld,
        step_number == 3 <==> step is InvalidateTarget,
        step_number == 4 <==> step is RestoreOld,
        step_number == 5 <==> step is InvalidateFailedTarget,
        step_number == 6 <==> step is InvalidateRestoredOld,
        result_number == 0 <==> result is Waiting,
        result_number == 1 <==> result is NotTarget,
        result_number == 2 <==> result is Switched,
        result_number == 3 <==> result is Failed,
        result_number == 4 <==> result is RolledBack,
        result_number == 5 <==> result is Fatal,
{
}

/// A number is read as what it stands for, and no other number as anything.
pub proof fn law_numbers_are_read_back(
    number: u8,
    state: Option<MailboxState>,
    operation: Option<RendezvousOperation>,
)
    requires
        call_ensures(MailboxState::decode, (number,), state),
        call_ensures(RendezvousOperation::decode, (number,), operation),
    ensures
        state is Some <==> number <= 4,
        state == Some(MailboxState::Prepared) <==> number == 1,
        state == Some(MailboxState::Executing) <==> number == 2,
        operation is Some <==> 1 <= number <= 3,
        operation == Some(RendezvousOperation::SwitchView) <==> number == 1,
        operation == Some(RendezvousOperation::RollbackView) <==> number == 2,
        operation == Some(RendezvousOperation::Shutdown) <==> number == 3,
{
}

/// What is taken out of a mailbox is what was left in it, part by part.
pub proof fn law_message_is_taken_as_it_was_left(request: MailboxRequest)
    ensures
        ({
            let taken = MailboxModel::left(request).request();
            &&& MailboxModel::left(request).state is Prepared
            &&& MailboxModel::left(request).status is Pending
            &&& taken.epoch == request.epoch
            &&& taken.operation == request.operation
            &&& taken.target_view.slot == request.target_view.slot
            &&& taken.target_view.generation == request.target_view.generation
            &&& taken.target_view.reserved == 0
            &&& taken.target_eptp == request.target_eptp
            &&& taken.expected_old_eptp == request.expected_old_eptp
        }),
{
}

/// A message is taken exactly by the processor that it is meant for, in the
/// kernel, in its epoch, from the view that it expects, and, unless it asks to
/// stop, for a view that is known under the pointer that it names.
pub proof fn law_message_is_taken_by_whom_it_is_meant(
    request: MailboxRequest,
    validation: MailboxValidation,
)
    ensures
        mailbox::consume_fault(MailboxModel::left(request), validation) is None <==> {
            &&& validation.cs_selector % 4 == 0
            &&& validation.current_cpu.dense_index == validation.expected_cpu.dense_index
            &&& validation.current_cpu.group == validation.expected_cpu.group
            &&& validation.current_cpu.number == validation.expected_cpu.number
            &&& validation.current_cpu.reserved@ == validation.expected_cpu.reserved@
            &&& request.epoch != 0
            &&& request.epoch == validation.active_epoch
            &&& request.expected_old_eptp == validation.active_eptp
            &&& request.operation is Shutdown || {
                &&& validation.resolved_target_eptp == Some(request.target_eptp)
                &&& request.target_view.generation != 0
            }
        },
        mailbox::consume_fault(MailboxModel::left(request), validation) is None
            ==> mailbox::after_consume(MailboxModel::left(request), validation).state is Executing,
{
    takeover::lemma_null_selector(validation.cs_selector);
}

/// What becomes of a message leaves what it says; it ends with its result, and
/// is cleared to none.
pub proof fn law_message_ends_with_its_result(model: MailboxModel, status: MailboxStatus)
    ensures
        model.completed().state is Completed && model.completed().status is Success,
        model.failed(status).state is Failed && model.failed(status).status == status,
        model.cleared().state is Idle && model.cleared().status is Pending,
        model.completed().request() == model.request(),
        model.failed(status).request() == model.request(),
        model.completed().epoch == model.epoch && model.cleared().epoch == model.epoch,
{
}

/// A view that was entered is found under its name, with its pointer, and every
/// other view as before; one that was entered is not entered again.
pub proof fn law_entered_view_is_found(
    slots: Seq<(u64, u64)>,
    id: ViewId,
    eptp: u64,
    other: ViewId,
    again: u64,
)
    requires
        mailbox::directory_fault(slots, id, eptp) is None,
    ensures
        mailbox::pointer_of(mailbox::entered_view(slots, id, eptp), id) == Some(eptp),
        mailbox::pointer_of(slots, id) is None,
        other.slot != id.slot ==> mailbox::pointer_of(mailbox::entered_view(slots, id, eptp), other)
            == mailbox::pointer_of(slots, other),
        other.generation != id.generation && other.slot == id.slot ==> mailbox::pointer_of(
            mailbox::entered_view(slots, id, eptp),
            other,
        ) is None,
        mailbox::directory_fault(mailbox::entered_view(slots, id, eptp), id, again) is Some,
{
}

/// A directory answers with the pointer that it has for the slot and the
/// generation of a name.
pub proof fn law_directory_answers(
    directory: PublishedViewDirectory,
    id: ViewId,
    eptp: Option<u64>,
)
    requires
        call_ensures(PublishedViewDirectory::resolve, (&directory, id), eptp),
    ensures
        eptp is Some <==> {
            &&& id.reserved == 0
            &&& id.generation != 0
            &&& id.slot < directory@.len()
            &&& directory@[id.slot as int].0 == id.generation
        },
        eptp is Some ==> eptp == Some(directory@[id.slot as int].1),
{
}

/// Whether a call was one step on a processor with a pointer, and went well.
pub open spec fn went_well(call: SwitchCall, cpu: u16, step: SwitchStep, eptp: u64) -> bool {
    &&& call.cpu == cpu
    &&& call.step == step
    &&& call.eptp == eptp
    &&& call.result is Ok
}

/// A switch that went through set the pointer that was asked for, dropped what
/// was kept of the old view and then of the new one, and nothing else; the
/// processor is then in the view that was asked for.
pub proof fn law_switch_does_what_was_asked(
    cpu: u16,
    before: ActiveViewState,
    after: ActiveViewState,
    request: MailboxRequest,
    letter: MailboxModel,
    letter_after: MailboxModel,
    calls: Seq<SwitchCall>,
    calls_after: Seq<SwitchCall>,
)
    requires
        transaction::switch_effect(
            cpu,
            before,
            after,
            request,
            letter,
            letter_after,
            calls,
            calls_after,
            Ok::<(), SwitchFailure>(()),
        ),
    ensures
        before.eptp == request.expected_old_eptp,
        after.id == request.target_view,
        after.eptp == request.target_eptp,
        letter_after == letter.completed(),
        calls_after.len() == calls.len() + 3,
        forall|k: int| 0 <= k < calls.len() ==> #[trigger] calls_after[k] == calls[k],
        went_well(
            calls_after[calls.len() as int],
            cpu,
            SwitchStep::WriteTarget,
            request.target_eptp,
        ),
        went_well(
            calls_after[calls.len() as int + 1],
            cpu,
            SwitchStep::InvalidateOld,
            before.eptp,
        ),
        went_well(
            calls_after[calls.len() as int + 2],
            cpu,
            SwitchStep::InvalidateTarget,
            request.target_eptp,
        ),
{
    let made = calls_after.skip(calls.len() as int);
    let forward = choose|forward: int| #[trigger]
        transaction::switch_result(
            cpu,
            before,
            after,
            request,
            letter,
            letter_after,
            made,
            forward,
            Ok::<(), SwitchFailure>(()),
        );
    let tried = made.take(forward);
    assert(made.skip(forward).len() == 0);
    assert(tried =~= made);
    assert(tried.len() == 3);
    assert(tried.last() == tried[2]);
    assert(made[0] == calls_after[calls.len() as int]);
    assert(made[1] == calls_after[calls.len() as int + 1]);
    assert(made[2] == calls_after[calls.len() as int + 2]);
    assert forall|k: int| 0 <= k < calls.len() implies #[trigger] calls_after[k] == calls[k] by {
        assert(calls_after.take(calls.len() as int)[k] == calls_after[k]);
    }
}

/// A switch that failed and was taken back leaves the processor in the view in
/// which it was, and if anything was tried, its last three steps set the old
/// pointer and dropped what was kept of both views.
pub proof fn law_failed_switch_is_taken_back(
    cpu: u16,
    before: ActiveViewState,
    after: ActiveViewState,
    request: MailboxRequest,
    letter: MailboxModel,
    letter_after: MailboxModel,
    calls: Seq<SwitchCall>,
    calls_after: Seq<SwitchCall>,
    failure: SwitchFailure,
)
    requires
        transaction::switch_effect(
            cpu,
            before,
            after,
            request,
            letter,
            letter_after,
            calls,
            calls_after,
            Err::<(), SwitchFailure>(failure),
        ),
        failure.recovery is None,
    ensures
        after == before,
        failure.forward.cpu_dense_index == cpu,
        before.eptp != request.expected_old_eptp ==> calls_after.len() == calls.len() && letter_after
            == letter.failed(MailboxStatus::OldViewMismatch),
        before.eptp == request.expected_old_eptp ==> {
            let end = calls_after.len() as int;
            &&& letter_after == letter.failed(MailboxStatus::SwitchFailed)
            &&& end >= calls.len() + 4
            &&& went_well(calls_after[end - 3], cpu, SwitchStep::RestoreOld, before.eptp)
            &&& went_well(
                calls_after[end - 2],
                cpu,
                SwitchStep::InvalidateFailedTarget,
                request.target_eptp,
            )
            &&& went_well(
                calls_after[end - 1],
                cpu,
                SwitchStep::InvalidateRestoredOld,
                before.eptp,
            )
        },
{
    if before.eptp == request.expected_old_eptp {
        let made = calls_after.skip(calls.len() as int);
        let forward = choose|forward: int| #[trigger]
            transaction::switch_result(
                cpu,
                before,
                after,
                request,
                letter,
                letter_after,
                made,
                forward,
                Err::<(), SwitchFailure>(failure),
            );
        let back = made.skip(forward);
        let end = calls_after.len() as int;
        assert(transaction::outcome(back) is Ok);
        assert(back.len() == 3);
        assert(back.last() == back[2]);
        assert(back[0] == calls_after[end - 3]);
        assert(back[1] == calls_after[end - 2]);
        assert(back[2] == calls_after[end - 1]);
    } else {
        assert(calls_after.skip(calls.len() as int).len() == 0);
    }
}

/// The processors that are to switch are exactly those that were named, each of
/// them taking part and named once, and nobody has come yet.
pub proof fn law_change_concerns_its_targets(
    epoch: u64,
    participants: u16,
    targets: &[u16],
    deadline: u64,
    change: RendezvousTransaction,
    cpu: u16,
    target: bool,
)
    requires
        call_ensures(
            RendezvousTransaction::new,
            (epoch, participants, targets, deadline),
            Ok::<RendezvousTransaction, MonadError>(change),
        ),
        call_ensures(RendezvousTransaction::is_target, (&change, cpu), target),
    ensures
        target == targets@.contains(cpu) || cpu >= 256,
        cpu >= 256 ==> !target,
        target ==> cpu < participants,
        change.epoch == epoch && epoch != 0,
        change.participant_count == participants && 0 < participants <= 256,
        change.deadline_tsc == deadline,
        change.arrived == 0 && change.finished == 0 && change.rollback_finished == 0,
        !change.failed && !change.fatal && !change.release,
{
    if cpu < 256 && targets@.contains(cpu) {
        let i = choose|i: int| 0 <= i < targets@.len() && targets@[i] == cpu;
        assert(transaction::target_ok(targets@, participants, i));
    }
}

} // verus!
