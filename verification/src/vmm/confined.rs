//! Processors run published views, and no others.

use vstd::prelude::*;

use super::activation;
use super::activation::{ChangeModel, CpuStage};
use super::bringup::{BringUp, BringUpReply};
use super::launch;
use super::launch::{LaunchContext, LaunchStage};
use super::machine;
use super::machine::Vmm;
use super::setup::VmmStartConfig;
use super::vcpu::VcpuModel;
use crate::arch::intel::caps::ValidatedPlatform;
use crate::ept::mtrr::RawMtrrState;
use crate::ept::page::EptPageAllocator;
use crate::ept::permanence;
use crate::ept::permanence::Operation;
use crate::ept::view::{ViewId, MAX_PUBLISHED_VIEWS};
use crate::error::{ErrorPhase, MonadError, MonadResult};
use crate::exit::context::ExitContext;
use crate::exit::disposition::{ExitDisposition, FatalReason};
use crate::exit::vmcall;
use crate::exit::vmexit;
use crate::exit::vmexit::{EntryStage, ExitReplies};
use crate::memory::MemoryRange;
use crate::rendezvous::mailbox;
use crate::rendezvous::mailbox::PublishedViewDirectory;
use crate::rendezvous::transaction;
use crate::rendezvous::transaction::{ActiveViewState, SwitchCall, SwitchFailure};
use crate::topology;

verus! {

/// Whether the view that a processor runs is listed, under its name and with
/// the pointer that the processor uses.
pub open spec fn confined(vcpu: VcpuModel, views: &PublishedViewDirectory) -> bool {
    views.resolved(vcpu.active_view.id) == Some(vcpu.active_view.eptp)
}

/// Whether a processor stands at its place, and what it reports is the view that
/// it runs.
pub open spec fn reported(vcpu: VcpuModel, place: int) -> bool {
    &&& vcpu.cpu.dense_index == place
    &&& vcpu.active_report.snapped() == Ok::<ActiveViewState, MonadError>(vcpu.active_view)
}

/// Every processor of a monitor that was just put together stands at its place
/// and reports the view that it runs.
pub proof fn law_new_monitor_is_reported<A: EptPageAllocator + Clone>(
    vmm: Vmm<A>,
    config: VmmStartConfig,
    platform: ValidatedPlatform,
    report: Seq<MemoryRange>,
    raw: RawMtrrState,
    k: int,
)
    requires
        launch::assembled(vmm, config, platform, report, raw),
        0 <= k < vmm.vcpus@.len(),
    ensures
        reported(vmm.vcpus@[k]@, k),
{
    assert(machine::models(vmm.vcpus@)[k] == vmm.vcpus@[k]@);
    assert(topology::id_fault(vmm.topology.view(), k) is None);
}

/// Handling an exit leaves the processor at its place and its report true,
/// whatever the guest did and whatever the hardware answers; and it never asks
/// for a view of the processor's own choice.
pub proof fn law_exit_keeps_reported(
    before: VcpuModel,
    after: VcpuModel,
    context: ExitContext,
    replies: ExitReplies,
    views: &PublishedViewDirectory,
    calls: Seq<SwitchCall>,
    calls_after: Seq<SwitchCall>,
    disposition: ExitDisposition,
    place: int,
)
    requires
        confined(before, views),
        reported(before, place),
        vmexit::dispatched(
            before,
            after,
            context,
            replies,
            Some(views),
            calls,
            calls_after,
            disposition,
        ),
    ensures
        reported(after, place),
        disposition !is SwitchPublishedView,
{
    if vmexit::spec_route_exit_reason(context.basic_reason as u64) is Vmcall {
        lemma_call_keeps_confined(
            before,
            after,
            replies,
            views,
            calls,
            calls_after,
            disposition,
        );
    }
}

/// Acting on what an exit came to leaves the processor at its place and its
/// report true, unless the processor is to change its own view.
pub proof fn law_entry_keeps_reported(
    before: VcpuModel,
    after: VcpuModel,
    context: ExitContext,
    disposition: ExitDisposition,
    views: &PublishedViewDirectory,
    tsc: u64,
    calls: Seq<SwitchCall>,
    calls_after: Seq<SwitchCall>,
    stage: EntryStage,
    reply: MonadResult<u64>,
    place: int,
)
    requires
        reported(before, place),
        disposition !is SwitchPublishedView,
        vmexit::applied(
            before,
            after,
            context,
            disposition,
            Some(views),
            tsc,
            calls,
            calls_after,
            stage,
        ),
    ensures
        reported(after, place),
        reported(vmexit::after_reply(after, context, stage, reply).vcpu, place),
{
}

/// Every processor of a monitor that was just put together runs a published
/// view.
pub proof fn law_new_monitor_is_confined<A: EptPageAllocator + Clone>(
    vmm: Vmm<A>,
    config: VmmStartConfig,
    platform: ValidatedPlatform,
    report: Seq<MemoryRange>,
    raw: RawMtrrState,
    k: int,
)
    requires
        launch::assembled(vmm, config, platform, report, raw),
        0 <= k < vmm.vcpus@.len(),
    ensures
        confined(vmm.vcpus@[k]@, &vmm.published_views),
{
    vmm.manager.lemma_wf();
    let model = vmm.manager.model();
    assert(machine::models(vmm.vcpus@)[k] == vmm.vcpus@[k]@);
    assert(model.published[0] is Some);
    assert(vmm.published_views@[0] == (model.view_at(0).id.generation, model.view_at(0).model.eptp()));
}

/// Handling an exit leaves the processor in a published view, whatever the
/// guest did and whatever the hardware answers.
pub proof fn law_exit_keeps_confined(
    before: VcpuModel,
    after: VcpuModel,
    context: ExitContext,
    replies: ExitReplies,
    views: &PublishedViewDirectory,
    calls: Seq<SwitchCall>,
    calls_after: Seq<SwitchCall>,
    disposition: ExitDisposition,
)
    requires
        confined(before, views),
        vmexit::dispatched(
            before,
            after,
            context,
            replies,
            Some(views),
            calls,
            calls_after,
            disposition,
        ),
    ensures
        confined(after, views),
{
    if vmexit::spec_route_exit_reason(context.basic_reason as u64) is Vmcall {
        lemma_call_keeps_confined(
            before,
            after,
            replies,
            views,
            calls,
            calls_after,
            disposition,
        );
    }
}

proof fn lemma_call_keeps_confined(
    before: VcpuModel,
    after: VcpuModel,
    replies: ExitReplies,
    views: &PublishedViewDirectory,
    calls: Seq<SwitchCall>,
    calls_after: Seq<SwitchCall>,
    disposition: ExitDisposition,
)
    requires
        confined(before, views),
        vmcall::call_effect(
            before,
            after,
            replies.cs,
            replies.current_cpu,
            Some(views),
            calls,
            calls_after,
            disposition,
        ),
    ensures
        confined(after, views),
{
    if let Ok(selector) = replies.cs {
        let validation = vmcall::validation_of(
            before,
            selector as u16,
            replies.current_cpu,
            Some(views),
        );
        let request = vmcall::request_of(before.mailbox);
        if mailbox::consume_fault(before.mailbox, validation) is None && request.operation
            !is Shutdown {
            let taken = mailbox::after_consume(before.mailbox, validation);
            let result = choose|result: Result<(), SwitchFailure>| #[trigger]
                transaction::switch_effect(
                    before.cpu.dense_index,
                    before.active_view,
                    after.active_view,
                    request,
                    taken,
                    after.mailbox,
                    calls,
                    calls_after,
                    result,
                );
            if after.active_view != before.active_view {
                assert(views.resolved(request.target_view) == Some(request.target_eptp));
            }
        }
    }
}

/// Acting on what an exit came to leaves the processor in a published view.
pub proof fn law_entry_keeps_confined(
    before: VcpuModel,
    after: VcpuModel,
    context: ExitContext,
    disposition: ExitDisposition,
    views: &PublishedViewDirectory,
    tsc: u64,
    calls: Seq<SwitchCall>,
    calls_after: Seq<SwitchCall>,
    stage: EntryStage,
    reply: MonadResult<u64>,
)
    requires
        confined(before, views),
        vmexit::applied(
            before,
            after,
            context,
            disposition,
            Some(views),
            tsc,
            calls,
            calls_after,
            stage,
        ),
    ensures
        confined(after, views),
        confined(vmexit::after_reply(after, context, stage, reply).vcpu, views),
{
    if let ExitDisposition::SwitchPublishedView(view) = disposition {
        let (middle, result) = choose|middle: VcpuModel, result: Result<(), FatalReason>|
            {
                &&& #[trigger] vmexit::local_switch(
                    before,
                    middle,
                    view,
                    Some(views),
                    tsc,
                    calls,
                    calls_after,
                    result,
                )
                &&& (vmexit::EntryState { stage, vcpu: after }) == match result {
                    Ok(_) => vmexit::EntryState {
                        stage: EntryStage::Reading(vmexit::EntryPurpose::Reinject),
                        vcpu: middle,
                    },
                    Err(reason) => vmexit::ended(middle, context, reason),
                }
            };
        assert(confined(middle, views));
    }
}

/// A processor's part in a change or a launch moves no view and changes no
/// report: only the monitor that it calls does.
pub proof fn law_steps_move_no_view(
    change: ChangeModel,
    launching: LaunchContext,
    vcpu: VcpuModel,
    stage: CpuStage,
    launch_stage: LaunchStage,
    bring_up: BringUp,
    reply: BringUpReply,
    target: ActiveViewState,
    chosen: bool,
    phase: ErrorPhase,
    epoch: u64,
    now: u64,
    place: int,
)
    ensures
        change.stepped(vcpu, stage, now).1.active_view == vcpu.active_view,
        launching.stepped(vcpu, launch_stage, now).1.active_view == vcpu.active_view,
        bring_up.after(vcpu, reply).1.active_view == vcpu.active_view,
        activation::armed(vcpu, epoch, target, chosen, phase).0.active_view == vcpu.active_view,
        reported(vcpu, place) ==> {
            &&& reported(change.stepped(vcpu, stage, now).1, place)
            &&& reported(launching.stepped(vcpu, launch_stage, now).1, place)
            &&& reported(bring_up.after(vcpu, reply).1, place)
            &&& reported(activation::armed(vcpu, epoch, target, chosen, phase).0, place)
        },
{
}

/// What is listed stays listed, whatever is asked of the views.
pub proof fn law_listed_views_stay_listed<A: EptPageAllocator + Clone>(
    before: Vmm<A>,
    after: Vmm<A>,
    operation: Operation,
    id: ViewId,
)
    requires
        before.wf(),
        after.wf(),
        permanence::carried_out::<A>(before.manager.model(), after.manager.model(), operation),
        before.published_views.resolved(id) is Some,
    ensures
        after.published_views.resolved(id) == before.published_views.resolved(id),
{
    before.manager.lemma_wf();
    let slot = id.slot as int;
    assert(before.published_views@[slot].0 != 0);
    assert(before.manager.model().published[slot] is Some);
    permanence::law_publication_is_immutable::<A>(
        before.manager.model(),
        after.manager.model(),
        operation,
        slot,
        0,
    );
}

/// The view that a confined processor runs is a publication, which was checked
/// before it was published, and the pointer is that of its tables.
pub proof fn law_confined_processor_runs_a_publication<A: EptPageAllocator + Clone>(
    vmm: Vmm<A>,
    vcpu: VcpuModel,
)
    requires
        vmm.wf(),
        confined(vcpu, &vmm.published_views),
    ensures
        ({
            let model = vmm.manager.model();
            let slot = vcpu.active_view.id.slot as int;
            &&& 0 <= slot < MAX_PUBLISHED_VIEWS
            &&& model.published[slot] is Some
            &&& model.view_at(slot).id == vcpu.active_view.id
            &&& model.view_at(slot).model.eptp() == vcpu.active_view.eptp
            &&& model.view_at(slot).model.all_supported()
        }),
{
    vmm.manager.lemma_wf();
    let slot = vcpu.active_view.id.slot as int;
    assert(vmm.published_views@[slot].0 != 0);
    assert(vmm.manager.model().published[slot] is Some);
}

} // verus!
