//! What the parts of the monitor promise each other: the ways of its life, the
//! processors that a set names, and where an event belongs.

use vstd::prelude::*;

use super::setup;
use super::setup::{
    configured_limit, encode_capability_bits, inspect_capabilities, msr_bitmap,
    PublicCapabilities, VmmStartConfig,
};
use super::vcpu::{Vcpu, VcpuModel};
use crate::arch::intel::caps::{IntelCapabilities, ValidatedPlatform};
use crate::error::{MonadError, MonadResult};
use crate::lifecycle;
use crate::lifecycle::{validate_shutdown_origin, LifecycleState, ShutdownOrigin};
use crate::telemetry::record::EventRecord;
use crate::topology;
use crate::topology::{
    admit_processor_count, CpuId, CpuSelection, CpuSetErrorDetail, CpuSetWord, CpuTopology,
    NativeProcessor,
};

verus! {

/// Every state of a life has its number, and is read back from it.
pub proof fn law_numbers_of_states(
    state: LifecycleState,
    number: u8,
    value: u8,
    read: Option<LifecycleState>,
)
    requires
        call_ensures(LifecycleState::code, (state,), number),
        call_ensures(LifecycleState::decode, (value,), read),
    ensures
        number == 0 <==> state is Absent,
        number == 1 <==> state is Preparing,
        number == 2 <==> state is Launching,
        number == 3 <==> state is Running,
        number == 4 <==> state is Quiescing,
        number == 5 <==> state is Stopping,
        number == 6 <==> state is Fatal,
        read is Some <==> value <= 6,
        value == number ==> read == Some(state),
{
}

/// The ways between the states of a life, by their numbers.
pub proof fn law_ways_of_a_life(
    from: LifecycleState,
    to: LifecycleState,
    allowed: bool,
    number: u8,
    next: u8,
)
    requires
        call_ensures(LifecycleState::allows, (from, to), allowed),
        call_ensures(LifecycleState::code, (from,), number),
        call_ensures(LifecycleState::code, (to,), next),
    ensures
        allowed == {
            ||| number == 0 && next == 1
            ||| number == 1 && (next == 2 || next == 0)
            ||| number == 2 && (next == 3 || next == 0)
            ||| number == 3 && (next == 4 || next == 6)
            ||| number == 4 && (next == 3 || next == 5)
            ||| number == 5 && (next == 0 || next == 6)
        },
        // A step is taken exactly when there is a way and it begins where it should.
        forall|actual: LifecycleState| #[trigger]
            lifecycle::transition_fault(actual, from, to) is None <==> allowed && actual == from,
{
}

/// A request to stop is taken exactly from the registered code, in the kernel,
/// in its epoch, and on its processor.
pub proof fn law_stop_comes_from_where_it_should(
    origin: ShutdownOrigin,
    result: MonadResult<()>,
)
    requires
        call_ensures(validate_shutdown_origin, (origin,), result),
    ensures
        result is Ok <==> {
            &&& origin.cpl == 0
            &&& origin.trampoline_start <= origin.rip
            &&& origin.rip < origin.trampoline_end
            &&& origin.mailbox_epoch == origin.expected_epoch
            &&& origin.mailbox_epoch != 0
            &&& origin.current_cpu == origin.expected_cpu
        },
        result matches Err(error) ==> error.phase is Shutdown && error.code is AccessDenied
            && error.detail == origin.rip,
{
}

/// The views end where the request says, or at the default, but not beyond what
/// the processor can address, and at the end of a page.
pub proof fn law_views_end_where_asked(
    requested: u64,
    physical_bits: u8,
    result: MonadResult<u64>,
)
    requires
        physical_bits < 64,
        call_ensures(configured_limit, (requested, physical_bits), result),
    ensures
        ({
            let addressable = vstd::arithmetic::power2::pow2(physical_bits as nat);
            &&& requested != 0 ==> {
                &&& result is Ok <==> requested <= addressable && requested % 0x1000 == 0
                &&& result matches Ok(limit) ==> limit == requested
            }
            &&& requested == 0 ==> {
                &&& result matches Ok(limit) ==> limit == if 0x80_0000_0000 < addressable {
                    0x80_0000_0000int
                } else {
                    addressable as int
                }
                &&& physical_bits >= 12 ==> result is Ok
            }
            &&& result matches Err(error) ==> error.phase is EptBuild && error.code is InvalidRange
        }),
{
    lemma_addressable(physical_bits);
}

/// What a processor with a width can address.
proof fn lemma_addressable(physical_bits: u8)
    requires
        physical_bits < 64,
    ensures
        crate::bits::width_limit(physical_bits) == vstd::arithmetic::power2::pow2(
            physical_bits as nat,
        ),
        physical_bits >= 12 ==> crate::bits::width_limit(physical_bits) % 0x1000 == 0,
        crate::bits::width_limit(physical_bits) > 0,
{
    let bits = physical_bits as nat;
    vstd::arithmetic::power2::lemma_pow2_pos(bits);
    if bits < 63 {
        vstd::arithmetic::power2::lemma_pow2_strictly_increases(bits, 63);
    }
    vstd::arithmetic::power2::lemma2_to64();
    vstd::arithmetic::power2::lemma2_to64_rest();
    vstd::bits::lemma_u64_shl_is_mul(1, physical_bits as u64);
    if bits >= 12 {
        vstd::arithmetic::power2::lemma_pow2_adds(12, (bits - 12) as nat);
        vstd::arithmetic::div_mod::lemma_mod_multiples_basic(
            vstd::arithmetic::power2::pow2((bits - 12) as nat) as int,
            0x1000,
        );
    }
}

/// A start needs a session and time; unless told otherwise it has no limit of
/// its own and no ranges.
pub proof fn law_start_needs_a_session(
    nonce: u64,
    fresh: VmmStartConfig,
    config: VmmStartConfig,
    result: MonadResult<()>,
)
    requires
        call_ensures(VmmStartConfig::new, (nonce,), fresh),
        call_ensures(VmmStartConfig::check, (&config,), result),
    ensures
        fresh.session_nonce == nonce,
        fresh.aperture_limit == 0,
        fresh.rendezvous_timeout_tsc == 0x4_0000_0000,
        fresh.device_ranges@.len() == 0,
        result is Ok <==> config.session_nonce != 0 && config.rendezvous_timeout_tsc != 0,
        result matches Err(error) ==> error.phase is Session && error.code is WrongSession,
{
}

proof fn lemma_eight_flags(a: u64, b: u64, c: u64, d: u64, e: u64, f: u64, g: u64, h: u64)
    by (bit_vector)
    requires
        a <= 1,
        b <= 1,
        c <= 1,
        d <= 1,
        e <= 1,
        f <= 1,
        g <= 1,
        h <= 1,
    ensures
        a | (b << 1) | (c << 2) | (d << 3) | (e << 4) | (f << 5) | (g << 6) | (h << 7) == a + 2 * b
            + 4 * c + 8 * d + 16 * e + 32 * f + 64 * g + 128 * h,
{
}

/// A controller is told what the page tables can do, each in its own bit.
pub proof fn law_capabilities_are_told_apart(capabilities: IntelCapabilities, encoded: u64)
    requires
        call_ensures(encode_capability_bits, (&capabilities,), encoded),
    ensures
        encoded < 256,
        (encoded % 2 == 1) == capabilities.ept.four_level_walk,
        ((encoded / 2) % 2 == 1) == capabilities.ept.write_back_walk,
        ((encoded / 4) % 2 == 1) == capabilities.ept.page_2m,
        ((encoded / 8) % 2 == 1) == capabilities.ept.page_1g,
        ((encoded / 16) % 2 == 1) == capabilities.ept.invept_single,
        ((encoded / 32) % 2 == 1) == capabilities.ept.invept_all,
        ((encoded / 64) % 2 == 1) == capabilities.ept.execute_only,
        ((encoded / 128) % 2 == 1) == capabilities.ept.accessed_dirty,
{
    let ept = capabilities.ept;
    lemma_eight_flags(
        setup::one_if(ept.four_level_walk),
        setup::one_if(ept.write_back_walk),
        setup::one_if(ept.page_2m),
        setup::one_if(ept.page_1g),
        setup::one_if(ept.invept_single),
        setup::one_if(ept.invept_all),
        setup::one_if(ept.execute_only),
        setup::one_if(ept.accessed_dirty),
    );
}

/// A controller is told of a platform its width and its processors; where
/// another hypervisor is there already, nothing but that.
pub proof fn law_platform_is_inspected(
    platform: Option<&ValidatedPlatform>,
    found: PublicCapabilities,
    encoded: u64,
)
    requires
        call_ensures(inspect_capabilities, (platform,), found),
        platform matches Some(known) ==> call_ensures(
            encode_capability_bits,
            (&known.spec_capabilities(),),
            encoded,
        ),
    ensures
        platform is None ==> {
            &&& found.hypervisor_present
            &&& found.capability_bits == 0 && found.aperture_end == 0
            &&& found.max_physical_address_bits == 0 && found.cpu_count == 0
        },
        platform matches Some(known) ==> {
            &&& !found.hypervisor_present
            &&& found.capability_bits == encoded
            &&& found.max_physical_address_bits
                == known.spec_capabilities().max_physical_address_bits
            &&& found.aperture_end <= 0x80_0000_0000
            &&& known.spec_topology().view().len() <= 0xffff ==> found.cpu_count
                == known.spec_topology().view().len()
        },
{
}

proof fn lemma_bit_of_byte(byte: u8, bit: u8)
    by (bit_vector)
    requires
        bit < 8,
    ensures
        (byte & (1u8 << bit) != 0) == ((byte >> bit) % 2 == 1),
{
}

/// Writing to a register exits exactly when the register holds memory types:
/// the pairs that are there, the fixed ones and the default. Reading none of
/// them does, nor does any register beyond.
pub proof fn law_bitmap_watches_the_memory_types(
    variable_count: u8,
    bitmap: Vec<u8>,
    msr: u32,
    i: int,
)
    requires
        call_ensures(msr_bitmap, (variable_count,), bitmap),
        msr < 0x2000,
        0 <= i < 0x1000,
    ensures
        bitmap@.len() == 0x1000,
        i < 0x800 || i >= 0xc00 ==> bitmap@[i] == 0,
        ((bitmap@[0x800 + msr as int / 8] >> (msr % 8) as u8) % 2 == 1) == {
            ||| 0x200 <= msr < 0x200 + 2 * variable_count
            ||| msr == 0x250
            ||| msr == 0x258 || msr == 0x259
            ||| 0x268 <= msr < 0x270
            ||| msr == 0x2ff
        },
{
    let at = msr as int / 8;
    let bit = (msr % 8) as u8;
    lemma_bit_of_byte(bitmap@[0x800 + at], bit);
    assert(setup::watches(bitmap@[2048 + at], bit) == crate::exit::msr::spec_is_mtrr_write(
        (at * 8 + bit) as u32,
        variable_count,
    ));
}

/// Every fault of a set of processors has its number.
pub proof fn law_numbers_of_set_faults(detail: CpuSetErrorDetail, number: u64)
    requires
        call_ensures(CpuSetErrorDetail::code, (detail,), number),
    ensures
        number == 1 <==> detail is Empty,
        number == 2 <==> detail is DuplicateGroup,
        number == 3 <==> detail is AbsentGroup,
        number == 4 <==> detail is InactiveBit,
        number == 5 <==> detail is ReservedNonzero,
        number == 6 <==> detail is CpuNotVirtualized,
        number == 7 <==> detail is InvalidDenseIndex,
        number == 8 <==> detail is DuplicateProcessor,
        number == 9 <==> detail is InvalidProcessorNumber,
{
}

/// A set of processors selects exactly those whose bit is set in the word of
/// their group, and all of those are virtualized.
pub proof fn law_set_selects_what_it_names(
    machine: CpuTopology,
    words: &[CpuSetWord],
    virtualized: &[bool],
    selection: CpuSelection,
    cpu: u16,
    selected: bool,
)
    requires
        call_ensures(
            CpuTopology::validate_cpu_set,
            (&machine, words, virtualized),
            Ok::<CpuSelection, MonadError>(selection),
        ),
        call_ensures(CpuSelection::contains, (&selection, cpu), selected),
        cpu < machine.view().len(),
        machine.view().len() <= 256,
        machine.view()[cpu as int].number < 64,
    ensures
        selected <==> exists|k: int|
            0 <= k < words@.len() && (#[trigger] words@[k]).group == machine.view()[cpu as int].group
                && (words@[k].mask as int / vstd::arithmetic::power2::pow2(
                machine.view()[cpu as int].number as nat,
            ) as int) % 2 == 1,
        selected ==> virtualized@[cpu as int],
{
    let id = machine.view()[cpu as int];
    assert forall|k: int| 0 <= k < words@.len() implies topology::word_names(
        #[trigger] words@[k],
        id,
    ) == (words@[k].group == id.group && (words@[k].mask as int / vstd::arithmetic::power2::pow2(
        id.number as nat,
    ) as int) % 2 == 1) by {
        topology::law_mask_names_its_bits(words@[k].mask, id.number);
    }
    assert(selection.view()[cpu as int] == topology::chosen(words@, words@.len() as int, id));
    if selected {
        let k = choose|k: int| 0 <= k < words@.len() && topology::word_names(#[trigger] words@[k], id);
        assert(topology::word_ok(machine.view(), words@, virtualized@, k));
    }
}

/// Code runs where it should exactly when both its group and its number are
/// those of the processor, and a machine is taken that has some processors and
/// not too many.
pub proof fn law_processors_are_confirmed(
    id: CpuId,
    group: u16,
    number: u8,
    confirmed: MonadResult<()>,
    count: u32,
    admitted: MonadResult<()>,
)
    requires
        call_ensures(CpuId::confirm, (&id, group, number), confirmed),
        call_ensures(admit_processor_count, (count,), admitted),
    ensures
        confirmed is Ok <==> group == id.group && number == id.number,
        confirmed matches Err(error) ==> error.code is TopologyChanged && error.cpu_dense_index
            == id.dense_index && error.detail == id.dense_index,
        admitted is Ok <==> 1 <= count <= 256,
        count > 256 ==> (admitted matches Err(error) && error.code is TooManyProcessors
            && error.detail == count),
{
}

/// The processors of a machine are those that were reported, in that order.
pub proof fn law_processors_are_as_reported(
    report: &[Option<NativeProcessor>],
    machine: CpuTopology,
    k: int,
)
    requires
        0 < report@.len() <= 256,
        call_ensures(
            topology::snapshot_active_processors,
            (report,),
            Ok::<CpuTopology, MonadError>(machine),
        ),
        0 <= k < report@.len(),
    ensures
        machine.view().len() == report@.len(),
        report@[k] is Some,
        machine.view()[k].dense_index == k,
        machine.view()[k].group == report@[k].unwrap().group,
        machine.view()[k].number == report@[k].unwrap().number,
        machine.view()[k].number < 64,
{
    let ids = choose|ids: Seq<CpuId>|
        {
            &&& #[trigger] topology::reported_ids(report@, ids)
            &&& topology::ids_ok(ids) && machine.view() == ids
        };
    assert(machine.view() == ids);
    assert(topology::id_fault(ids, k) is None);
    assert(ids[k].dense_index == k);
}

/// An event is marked with the run of its processor, with the epoch of its view,
/// and with the epoch of the last change, and is otherwise as it was.
pub proof fn law_event_is_marked_with_its_place(
    vcpu: Vcpu,
    event: EventRecord,
    stamped: EventRecord,
)
    requires
        call_ensures(Vcpu::stamp_event, (&vcpu, event), stamped),
    ensures
        stamped.run_id == vcpu.run_id,
        stamped.view_epoch == vcpu.view_epoch,
        stamped.attempt_epoch == vcpu.rendezvous_epoch,
        stamped.kind == event.kind && stamped.access == event.access,
        stamped.status == event.status && stamped.detail == event.detail,
        stamped.guest_rip == event.guest_rip && stamped.guest_rsp == event.guest_rsp,
        stamped.guest_physical_address == event.guest_physical_address,
        stamped.guest_linear_address == event.guest_linear_address,
        stamped.qualification == event.qualification && stamped.tsc == event.tsc,
        stamped.cpu_dense_index == event.cpu_dense_index && stamped.view_slot == event.view_slot,
{
}

/// Recording an event puts it in the ring of its processor, under the next
/// number, and changes nothing else there.
pub proof fn law_event_is_put_in_the_ring(vcpu: VcpuModel, event: EventRecord)
    requires
        vcpu.events is Some,
        vcpu.wf(),
    ensures
        ({
            let ring = vcpu.events.unwrap();
            let after = vcpu.recorded(event).events.unwrap();
            let kept = after.record_at(ring.published as int);
            &&& vcpu.recorded(event).events is Some
            &&& kept.sequence == ring.next_sequence
            &&& kept == (EventRecord { sequence: ring.next_sequence, ..event })
            &&& ring.published < u64::MAX ==> after.published == ring.published + 1
            &&& ring.next_sequence < u64::MAX ==> after.next_sequence == ring.next_sequence + 1
            &&& after.reader_ordinal == ring.reader_ordinal
            &&& after.reader_sequence == ring.reader_sequence
            &&& ring.published - ring.reader_ordinal < 1024 ==> after.dropped == ring.dropped
            &&& vcpu.recorded(event).regs == vcpu.regs
            &&& vcpu.recorded(event).active_view == vcpu.active_view
            &&& vcpu.recorded(event).emergency_event == vcpu.emergency_event
        }),
{
}

} // verus!
