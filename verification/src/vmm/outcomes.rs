//! What the monitor's work comes to: what it is put together from, which request
//! each processor finds, and with which registers it goes on in the end.

use vstd::prelude::*;

use super::activation;
use super::activation::ChangeModel;
use super::control;
use super::control::{restored_cr4, StopReads};
use super::launch;
use super::machine;
use super::machine::Vmm;
use super::setup::VmmStartConfig;
use super::vcpu::{Vcpu, VcpuModel};
use crate::arch::intel::caps::{IntelCapabilities, ValidatedPlatform};
use crate::bits;
use crate::ept::address::GuestPhysicalAddress;
use crate::ept::inventory::{PhysicalInventory, PhysicalRange, RequiredPhysicalRange};
use crate::ept::mtrr::{collect_raw_mtrr_state, RawMtrrState};
use crate::ept::page::EptPageAllocator;
use crate::ept::walker::WalkResult;
use crate::error::{ErrorPhase, MonadError};
use crate::exit::vmcall;
use crate::memory;
use crate::memory::{collect_physical_inventory, MemoryRange};
use crate::rendezvous::mailbox;
use crate::rendezvous::mailbox::PublishedViewDirectory;
use crate::rendezvous::transaction::ActiveViewState;
use crate::topology::CpuId;

verus! {

/// A processor that is to switch finds a request for the view that was asked
/// for, from the view that it reports, in the epoch of the change; one that is
/// not to switch finds nothing new.
pub proof fn law_processor_is_armed_for_what_was_asked(
    vcpu: VcpuModel,
    epoch: u64,
    target: ActiveViewState,
    selected: bool,
    phase: ErrorPhase,
    old: ActiveViewState,
)
    requires
        activation::armed(vcpu, epoch, target, selected, phase).1 == Ok::<
            ActiveViewState,
            MonadError,
        >(old),
    ensures
        ({
            let ready = activation::armed(vcpu, epoch, target, selected, phase).0;
            &&& old.id.slot == vcpu.active_report.state.id.slot
            &&& old.id.generation == vcpu.active_report.state.id.generation
            &&& old.eptp == vcpu.active_report.state.eptp
            &&& ready.rendezvous_epoch == epoch
            &&& ready.active_view == vcpu.active_view
            &&& ready.active_report == vcpu.active_report
            &&& ready.regs == vcpu.regs && ready.cpu == vcpu.cpu
            &&& !selected ==> ready.mailbox == vcpu.mailbox
            &&& selected ==> {
                &&& ready.mailbox.state is Prepared
                &&& ready.mailbox.status is Pending
                &&& ready.mailbox.epoch == epoch
                &&& ready.mailbox.operation == 1
                &&& ready.mailbox.target_view_slot == target.id.slot
                &&& ready.mailbox.target_view_generation == target.id.generation
                &&& ready.mailbox.target_eptp == target.eptp
                &&& ready.mailbox.expected_old_eptp == vcpu.active_report.state.eptp
            }
        }),
{
}

/// A processor that was armed takes its request when it calls from the kernel,
/// on itself, in the view that it reports, for a view that is published under
/// the pointer asked for; the request is to go to that view.
pub proof fn law_armed_processor_takes_its_request(
    vcpu: VcpuModel,
    epoch: u64,
    target: ActiveViewState,
    phase: ErrorPhase,
    old: ActiveViewState,
    cs: u16,
    current: CpuId,
    directory: PublishedViewDirectory,
)
    requires
        activation::armed(vcpu, epoch, target, true, phase).1 == Ok::<ActiveViewState, MonadError>(
            old,
        ),
        epoch != 0,
        vcpu.active_view.eptp == vcpu.active_report.state.eptp,
        target.id.reserved == 0 && target.id.generation != 0,
        directory.resolved(target.id) == Some(target.eptp),
        cs % 4 == 0,
        current.name() == vcpu.cpu.name(),
    ensures
        ({
            let ready = activation::armed(vcpu, epoch, target, true, phase).0;
            let validation = vmcall::validation_of(ready, cs, current, Some(&directory));
            &&& mailbox::consume_fault(ready.mailbox, validation) is None
            &&& ready.mailbox.request().operation is SwitchView
            &&& ready.mailbox.request().target_view == target.id
            &&& ready.mailbox.request().target_eptp == target.eptp
            &&& ready.mailbox.request().expected_old_eptp == ready.active_view.eptp
            &&& vmcall::request_of(ready.mailbox) == ready.mailbox.request()
        }),
{
    crate::arch::intel::takeover::lemma_null_selector(cs);
}

/// A processor that has to take its switch back finds a request for the view in
/// which it was, from the view to which it went.
pub proof fn law_switch_is_taken_back_to_where_it_was(change: ChangeModel, vcpu: VcpuModel)
    requires
        change.failed,
        change.aims_at(vcpu.cpu.dense_index),
        vcpu.active_view == change.target,
        vcpu.mailbox.state is Completed || vcpu.mailbox.state is Failed,
    ensures
        ({
            let ready = change.compare(vcpu).1;
            let before = change.old_views[vcpu.cpu.dense_index as int];
            &&& ready.mailbox.state is Prepared
            &&& ready.mailbox.epoch == change.epoch
            &&& ready.mailbox.operation == 2
            &&& ready.mailbox.target_view_slot == before.id.slot
            &&& ready.mailbox.target_view_generation == before.id.generation
            &&& ready.mailbox.target_eptp == before.eptp
            &&& ready.mailbox.expected_old_eptp == change.target.eptp
            &&& ready.active_view == vcpu.active_view && ready.regs == vcpu.regs
        }),
{
}

/// A processor that is asked to stop finds the request to, from its own view; one
/// that runs no guest is left alone.
pub proof fn law_processor_is_asked_to_stop(vcpu: VcpuModel, epoch: u64)
    requires
        control::halting(vcpu, epoch).1,
    ensures
        ({
            let asked = control::halting(vcpu, epoch).0;
            &&& !vcpu.active ==> asked == vcpu
            &&& vcpu.active ==> {
                &&& asked.mailbox.state is Prepared
                &&& asked.mailbox.epoch == epoch
                &&& asked.rendezvous_epoch == epoch
                &&& asked.mailbox.operation == 3
                &&& asked.mailbox.expected_old_eptp == vcpu.active_report.state.eptp
                &&& asked.active_view == vcpu.active_view && asked.regs == vcpu.regs
            }
        }),
{
}

/// A processor stops exactly when the kernel asked it to, from the registered
/// code and in the epoch of its request, and goes on right behind, with its own
/// stack and flags and with every other register as it was.
pub proof fn law_stopped_processor_goes_on(vcpu: VcpuModel, reads: StopReads)
    ensures
        control::may_stop(vcpu, reads) <==> {
            &&& reads.guest_cs % 4 == 0
            &&& reads.trampoline_start <= reads.rip < reads.trampoline_end
            &&& reads.rip + reads.instruction_length <= reads.trampoline_end
            &&& vcpu.mailbox.epoch == vcpu.rendezvous_epoch
            &&& vcpu.rendezvous_epoch != 0
        },
        control::may_stop(vcpu, reads) ==> {
            let regs = control::stopped(vcpu, reads).regs;
            &&& regs.rip == reads.rip + reads.instruction_length
            &&& regs.rsp == reads.rsp
            &&& regs.rflags == reads.rflags
            &&& regs.rax == vcpu.regs.rax && regs.rbx == vcpu.regs.rbx && regs.rcx == vcpu.regs.rcx
            &&& regs.rdx == vcpu.regs.rdx && regs.rsi == vcpu.regs.rsi && regs.rdi == vcpu.regs.rdi
            &&& regs.rbp == vcpu.regs.rbp && regs.r8 == vcpu.regs.r8 && regs.r9 == vcpu.regs.r9
            &&& regs.r10 == vcpu.regs.r10 && regs.r11 == vcpu.regs.r11 && regs.r12 == vcpu.regs.r12
            &&& regs.r13 == vcpu.regs.r13 && regs.r14 == vcpu.regs.r14 && regs.r15 == vcpu.regs.r15
        },
{
    lemma_privilege(reads.guest_cs);
}

proof fn lemma_privilege(cs: u64)
    by (bit_vector)
    ensures
        ((cs & 3) as u8 == 0) == (cs % 4 == 0),
{
}

proof fn lemma_restored(guest: u64, original: u64)
    by (bit_vector)
    ensures
        ({
            let restored = (guest & !0x2000u64) | (original & 0x2000);
            &&& restored % 0x2000 == guest % 0x2000
            &&& restored / 0x4000 == guest / 0x4000
            &&& (restored / 0x2000) % 2 == (original / 0x2000) % 2
        }),
{
}

/// A processor goes on with the guest's control register, but for the one bit
/// that says whether it is ready for a monitor, which is as it was before.
pub proof fn law_control_register_is_given_back(guest: u64, original: u64, restored: u64)
    requires
        call_ensures(restored_cr4, (guest, original), restored),
    ensures
        restored % 0x2000 == guest % 0x2000,
        restored / 0x4000 == guest / 0x4000,
        (restored / 0x2000) % 2 == (original / 0x2000) % 2,
{
    lemma_restored(guest, original);
}

/// A new processor is the one that it is made for, in the view that it is made
/// for, with nothing asked of it and nothing seen yet.
pub proof fn law_new_processor_is_what_it_is_made_for(
    cpu: CpuId,
    base: ActiveViewState,
    capabilities: IntelCapabilities,
    run_id: u64,
    variable_mtrrs: u8,
    vcpu: Vcpu,
)
    requires
        call_ensures(
            Vcpu::init_vcpu,
            (cpu, base, capabilities, run_id, variable_mtrrs),
            Ok::<Vcpu, MonadError>(vcpu),
        ),
    ensures
        vcpu@.cpu == cpu,
        vcpu@.active_view == base,
        vcpu@.active_report.state == base && vcpu@.active_report.version == 0,
        vcpu@.capabilities == capabilities,
        vcpu@.run_id == run_id,
        vcpu@.variable_mtrrs == variable_mtrrs,
        vcpu@.mailbox.state is Idle,
        vcpu@.view_epoch == 0 && vcpu@.rendezvous_epoch == 0,
        vcpu@.allowed_fault_views == 0xff,
        vcpu@.events is Some,
        !vcpu@.active && vcpu@.launch_error is None,
{
}

/// In a monitor that was just put together every page below the end of the views
/// leads to itself, with all permissions and with the memory type that the range
/// registers give it, and every processor is in that view.
pub proof fn law_new_monitor_changes_no_page<A: EptPageAllocator + Clone>(
    vmm: Vmm<A>,
    config: VmmStartConfig,
    platform: ValidatedPlatform,
    report: Seq<MemoryRange>,
    raw: RawMtrrState,
    gpa: GuestPhysicalAddress,
    k: int,
)
    requires
        launch::assembled(vmm, config, platform, report, raw),
        gpa.get() % 0x1000 == 0,
        gpa.get() < vmm.aperture_end,
        0 <= k < vmm.vcpus@.len(),
    ensures
        ({
            let base = vmm.manager.model().view_at(0).model;
            &&& base.walk(gpa) matches WalkResult::Mapping(mapping) && {
                &&& mapping.gpa_page == gpa
                &&& mapping.hpa_page.get() == gpa.get()
                &&& mapping.permissions.read && mapping.permissions.write
                    && mapping.permissions.execute
                &&& raw.memory_type_of(gpa.get() as int) is Some ==> Some(mapping.memory_type)
                    == raw.memory_type_of(gpa.get() as int)
                &&& mapping.source is Identity
            }
            &&& machine::models(vmm.vcpus@)[k].active_view.eptp == base.eptp()
            &&& machine::models(vmm.vcpus@)[k].active_view.id.slot == 0
            &&& machine::models(vmm.vcpus@)[k].active_view.id.generation == config.session_nonce
            &&& machine::models(vmm.vcpus@)[k].cpu == vmm.topology.view()[k]
            &&& machine::models(vmm.vcpus@)[k].run_id == config.session_nonce
            &&& vmm.rendezvous_tsc_budget == config.rendezvous_timeout_tsc
        }),
{
    vmm.manager.lemma_wf();
    vmm.manager.law_walk_finds_the_page(true, 0, gpa);
    let base = vmm.manager.model().view_at(0).model;
    assert(crate::ept::mtrr::type_at(base.types, gpa.get() as int) == raw.memory_type_of(
        gpa.get() as int,
    ));
}

/// The ranges of a machine are the memory that was reported, up to the end of
/// the report, and behind it the devices, which are required.
pub proof fn law_machine_is_as_reported(
    report: &[MemoryRange],
    devices: &[PhysicalRange],
    inventory: Vec<PhysicalRange>,
    required: Vec<RequiredPhysicalRange>,
    k: int,
)
    requires
        call_ensures(
            collect_physical_inventory,
            (report, devices),
            Ok::<(Vec<PhysicalRange>, Vec<RequiredPhysicalRange>), MonadError>(
                (inventory, required),
            ),
        ),
    ensures
        ({
            let count = inventory@.len() - devices@.len();
            &&& 0 <= count <= report@.len()
            &&& 0 <= k < count ==> {
                &&& report@[k].base >= 0 && report@[k].bytes > 0
                &&& inventory@[k].start == report@[k].base
                &&& inventory@[k].length == report@[k].bytes
                &&& inventory@[k].kind is Memory
            }
            &&& count < report@.len() ==> report@[count].base == 0 && report@[count].bytes == 0
            &&& 0 <= k < devices@.len() ==> {
                &&& inventory@[count + k] == devices@[k]
                &&& devices@[k].kind is Device
                &&& required@[k].start == devices@[k].start
                &&& required@[k].length == devices@[k].length
            }
            &&& required@.len() == devices@.len()
        }),
{
    lemma_report_ends(report@, 0);
}

/// A report goes up to its end.
proof fn lemma_report_ends(report: Seq<MemoryRange>, from: nat)
    requires
        from <= report.len(),
    ensures
        from <= memory::reported(report, from) <= report.len(),
        memory::reported(report, from) < report.len() ==> report[memory::reported(
            report,
            from,
        ) as int].is_end(),
    decreases report.len() - from,
{
    if from < report.len() && !report[from as int].is_end() {
        lemma_report_ends(report, from + 1);
    }
}

/// The views reach the end of the highest range, up to the next whole gigabyte
/// and not one more, unless the limit comes first.
pub proof fn law_views_reach_around_the_memory(
    ranges: &[PhysicalRange],
    required: &[RequiredPhysicalRange],
    physical_bits: u8,
    limit: u64,
    inventory: PhysicalInventory,
    k: int,
)
    requires
        call_ensures(
            PhysicalInventory::ingest,
            (ranges, required, physical_bits, Some(limit)),
            Ok::<PhysicalInventory, MonadError>(inventory),
        ),
        0 <= k < ranges@.len(),
    ensures
        inventory.spec_aperture_end() <= limit,
        inventory.spec_aperture_end() == limit || ranges@[k].start + ranges@[k].length
            <= inventory.spec_aperture_end(),
        inventory.spec_aperture_end() < limit ==> inventory.spec_aperture_end() % 0x4000_0000 == 0,
        exists|i: int|
            0 <= i < ranges@.len() && inventory.spec_aperture_end() < (#[trigger] ranges@[i]).start
                + ranges@[i].length + 0x4000_0000,
{
    let end = choose|end: int| #[trigger] crate::ept::inventory::highest_end(ranges@, end);
    assert(crate::ept::inventory::highest_end(ranges@, end));
    let i = choose|i: int|
        0 <= i < ranges@.len() && (#[trigger] ranges@[i]).start + ranges@[i].length == end;
    assert(ranges@[i].start + ranges@[i].length == end);
}

/// The range registers are read under the numbers that they have.
pub proof fn law_range_registers_are_read_by_their_numbers<F: Fn(u32) -> u64>(
    physical_bits: u8,
    read: F,
    state: RawMtrrState,
    k: int,
)
    requires
        call_ensures(
            collect_raw_mtrr_state::<F>,
            (physical_bits, read),
            Ok::<RawMtrrState, MonadError>(state),
        ),
    ensures
        state.max_physical_bits == physical_bits,
        call_ensures(read, (0xfeu32,), state.capability),
        call_ensures(read, (0x2ffu32,), state.default_type),
        call_ensures(read, (0x250u32,), state.fixed@[0]),
        call_ensures(read, (0x258u32,), state.fixed@[1]),
        call_ensures(read, (0x259u32,), state.fixed@[2]),
        call_ensures(read, (0x268u32,), state.fixed@[3]),
        call_ensures(read, (0x269u32,), state.fixed@[4]),
        call_ensures(read, (0x26au32,), state.fixed@[5]),
        call_ensures(read, (0x26bu32,), state.fixed@[6]),
        call_ensures(read, (0x26cu32,), state.fixed@[7]),
        call_ensures(read, (0x26du32,), state.fixed@[8]),
        call_ensures(read, (0x26eu32,), state.fixed@[9]),
        call_ensures(read, (0x26fu32,), state.fixed@[10]),
        state.variable@.len() == state.capability % 0x100,
        0 <= k < state.variable@.len() ==> {
            &&& call_ensures(read, ((0x200 + 2 * k) as u32,), state.variable@[k].base)
            &&& call_ensures(read, ((0x201 + 2 * k) as u32,), state.variable@[k].mask)
        },
{
    assert(state.capability & 0xff == state.capability % 0x100) by {
        bits::lemma_word(state.capability);
    }
    assert(state.register(0) == 0xfe);
    assert(state.register(1) == 0x2ff);
    assert(state.register(2) == 0x250);
    assert(state.register(3) == 0x258);
    assert(state.register(4) == 0x259);
    assert(state.register(5) == 0x268);
    assert(state.register(6) == 0x269);
    assert(state.register(7) == 0x26a);
    assert(state.register(8) == 0x26b);
    assert(state.register(9) == 0x26c);
    assert(state.register(10) == 0x26d);
    assert(state.register(11) == 0x26e);
    assert(state.register(12) == 0x26f);
    if 0 <= k < state.variable@.len() {
        assert(state.register(13 + 2 * k) == 0x200 + 2 * k);
        assert(state.register(14 + 2 * k) == 0x201 + 2 * k);
        assert(state.register_value(13 + 2 * k) == state.variable@[k].base);
        assert(state.register_value(14 + 2 * k) == state.variable@[k].mask);
    }
}

} // verus!
