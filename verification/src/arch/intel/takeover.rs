//! What a processor goes on with once the control structure is written: each
//! register of the guest out of the register that the processor had.

use vstd::prelude::*;

use super::caps::IntelCapabilities;
use super::state::NormalizedControlState;
use super::vmcs;
use super::vmcs::{
    setup_controls, setup_guest_state, setup_host_state, GuestEnvironment, GuestRegs, SegmentState,
    VmcsField, VmcsWrite,
};
use super::vmx::OriginalControlRegisters;
use crate::bits;
use crate::error::MonadResult;

verus! {

/// A limit that the processor told, zero where it told none.
pub open spec fn told(limit: Option<u32>) -> u64 {
    match limit {
        Some(limit) => limit as u64,
        None => 0,
    }
}

/// The access rights of a segment: bits 8 to 15 and 20 to 23 of what the
/// processor loads, and the mark of an unusable segment for a null selector or
/// one without rights.
pub open spec fn usable_rights(segment: SegmentState) -> u64 {
    if segment.selector < 4 || segment.rights is None {
        0x1_0000
    } else {
        let loaded = segment.rights.unwrap();
        ((loaded / 0x100) % 0x100 + 0x1000 * ((loaded / 0x10_0000) % 0x10)) as u64
    }
}

/// A control register that runs under its fixed bits: it differs from what the
/// processor had only where a fixed bit forces it.
pub open spec fn forced_only(requested: u64, guest: u64, fixed0: u64, fixed1: u64) -> bool {
    &&& fixed0 & !guest == 0
    &&& guest & !fixed1 == 0
    &&& (requested ^ guest) & !(fixed0 | !fixed1) == 0
}

proof fn lemma_rights(segment: SegmentState)
    ensures
        segment.spec_access() as u64 == usable_rights(segment),
{
    lemma_null_selector(segment.selector);
    if segment.rights is Some {
        bits::lemma_fields_u32(segment.rights.unwrap());
    }
}

pub proof fn lemma_null_selector(selector: u16)
    by (bit_vector)
    ensures
        (selector & !0x3u16 == 0) == (selector < 4),
        (selector & 3 != 0) == (selector % 4 != 0),
        selector & !0x7u16 == selector / 8 * 8,
        (selector & !0x7u16 == 0) == (selector < 8),
{
}

proof fn lemma_forced(requested: u64, fixed0: u64, fixed1: u64, flags: u64)
    by (bit_vector)
    ensures
        ({
            let guest = (requested | fixed0) & fixed1;
            &&& fixed0 & !fixed1 == 0 ==> fixed0 & !guest == 0
            &&& guest & !fixed1 == 0
            &&& (requested ^ guest) & !(fixed0 | !fixed1) == 0
            &&& (guest & !(requested ^ guest)) | (requested & (requested ^ guest)) == requested
            &&& requested ^ guest == guest ^ requested
        }),
        ({
            let normal = ((flags & 0x003f_7fd7) & !(0x2_0000u64 | 0x3000)) | 0x2;
            &&& normal & 0x003d_4fd5 == flags & 0x003d_4fd5
            &&& normal & !0x003d_4fd5u64 == 2
        }),
{
}

/// Where each field of the guest stands among the writes.
spec fn guest_place(field: VmcsField) -> int {
    match field {
        VmcsField::GuestCr0 => 0,
        VmcsField::GuestCr3 => 1,
        VmcsField::GuestCr4 => 2,
        VmcsField::GuestDr7 => 3,
        VmcsField::GuestRsp => 4,
        VmcsField::GuestRip => 5,
        VmcsField::GuestRflags => 6,
        VmcsField::GuestCsSelector => 7,
        VmcsField::GuestSsSelector => 8,
        VmcsField::GuestDsSelector => 9,
        VmcsField::GuestEsSelector => 10,
        VmcsField::GuestFsSelector => 11,
        VmcsField::GuestGsSelector => 12,
        VmcsField::GuestLdtrSelector => 13,
        VmcsField::GuestTrSelector => 14,
        VmcsField::GuestCsBase => 15,
        VmcsField::GuestSsBase => 16,
        VmcsField::GuestDsBase => 17,
        VmcsField::GuestEsBase => 18,
        VmcsField::GuestFsBase => 19,
        VmcsField::GuestGsBase => 20,
        VmcsField::GuestSysenterCs => 21,
        VmcsField::GuestSysenterEsp => 22,
        VmcsField::GuestSysenterEip => 23,
        VmcsField::GuestLdtrBase => 24,
        VmcsField::GuestTrBase => 25,
        VmcsField::GuestCsLimit => 26,
        VmcsField::GuestSsLimit => 27,
        VmcsField::GuestDsLimit => 28,
        VmcsField::GuestEsLimit => 29,
        VmcsField::GuestFsLimit => 30,
        VmcsField::GuestGsLimit => 31,
        VmcsField::GuestLdtrLimit => 32,
        VmcsField::GuestTrLimit => 33,
        VmcsField::GuestCsAccessRights => 34,
        VmcsField::GuestSsAccessRights => 35,
        VmcsField::GuestDsAccessRights => 36,
        VmcsField::GuestEsAccessRights => 37,
        VmcsField::GuestFsAccessRights => 38,
        VmcsField::GuestGsAccessRights => 39,
        VmcsField::GuestLdtrAccessRights => 40,
        VmcsField::GuestTrAccessRights => 41,
        VmcsField::GuestGdtrBase => 42,
        VmcsField::GuestIdtrBase => 43,
        VmcsField::GuestGdtrLimit => 44,
        VmcsField::GuestIdtrLimit => 45,
        VmcsField::GuestLinkPointer => 46,
        _ => -1,
    }
}

/// The guest goes on as the processor was. Every selector, base, limit and
/// descriptor table, the page tables, the debug register and the registers of
/// fast system calls that an entry loads are the environment's; stack and place
/// are the caller's; the control registers differ from the processor's only where
/// VMX forces a bit, and of the flags only what an entry cannot have is gone.
pub proof fn law_guest_goes_on_as_the_processor_was(
    environment: GuestEnvironment,
    regs: GuestRegs,
    capabilities: IntelCapabilities,
    original: OriginalControlRegisters,
    result: MonadResult<Vec<VmcsWrite>>,
)
    requires
        call_ensures(setup_guest_state, (&environment, &regs, &capabilities, original), result),
    ensures
        result is Ok <==> capabilities.cr0_fixed0 & !capabilities.cr0_fixed1 == 0
            && capabilities.cr4_fixed0 & !capabilities.cr4_fixed1 == 0,
        result matches Ok(list) ==> {
            let writes = list@;
            &&& writes.len() == 47
            &&& exists|cr0: u64| #[trigger]
                vmcs::loads(writes, VmcsField::GuestCr0, cr0) && forced_only(
                    original.cr0,
                    cr0,
                    capabilities.cr0_fixed0,
                    capabilities.cr0_fixed1,
                )
            &&& exists|cr4: u64| #[trigger]
                vmcs::loads(writes, VmcsField::GuestCr4, cr4) && forced_only(
                    original.cr4,
                    cr4,
                    capabilities.cr4_fixed0,
                    capabilities.cr4_fixed1,
                )
            &&& exists|rflags: u64| #[trigger]
                vmcs::loads(writes, VmcsField::GuestRflags, rflags) && rflags & 0x003d_4fd5
                    == regs.rflags & 0x003d_4fd5 && rflags & !0x003d_4fd5u64 == 2
            &&& vmcs::loads(writes, VmcsField::GuestCr3, environment.cr3)
            &&& vmcs::loads(writes, VmcsField::GuestDr7, environment.dr7)
            &&& vmcs::loads(writes, VmcsField::GuestRsp, regs.rsp)
            &&& vmcs::loads(writes, VmcsField::GuestRip, regs.rip)
            &&& vmcs::loads(writes, VmcsField::GuestCsSelector, environment.cs.selector as u64)
            &&& vmcs::loads(writes, VmcsField::GuestSsSelector, environment.ss.selector as u64)
            &&& vmcs::loads(writes, VmcsField::GuestDsSelector, environment.ds.selector as u64)
            &&& vmcs::loads(writes, VmcsField::GuestEsSelector, environment.es.selector as u64)
            &&& vmcs::loads(writes, VmcsField::GuestFsSelector, environment.fs.selector as u64)
            &&& vmcs::loads(writes, VmcsField::GuestGsSelector, environment.gs.selector as u64)
            &&& vmcs::loads(writes, VmcsField::GuestTrSelector, environment.tr.selector as u64)
            &&& vmcs::loads(writes, VmcsField::GuestLdtrSelector, 0)
            &&& vmcs::loads(writes, VmcsField::GuestCsBase, 0)
            &&& vmcs::loads(writes, VmcsField::GuestSsBase, 0)
            &&& vmcs::loads(writes, VmcsField::GuestDsBase, 0)
            &&& vmcs::loads(writes, VmcsField::GuestEsBase, 0)
            &&& vmcs::loads(writes, VmcsField::GuestFsBase, environment.fs_base)
            &&& vmcs::loads(writes, VmcsField::GuestGsBase, environment.gs_base)
            &&& vmcs::loads(writes, VmcsField::GuestSysenterCs, environment.sysenter_cs)
            &&& vmcs::loads(writes, VmcsField::GuestSysenterEsp, environment.sysenter_esp)
            &&& vmcs::loads(writes, VmcsField::GuestSysenterEip, environment.sysenter_eip)
            &&& vmcs::loads(writes, VmcsField::GuestLdtrBase, 0)
            &&& vmcs::loads(writes, VmcsField::GuestTrBase, environment.tss.base)
            &&& vmcs::loads(writes, VmcsField::GuestCsLimit, told(environment.cs.limit))
            &&& vmcs::loads(writes, VmcsField::GuestSsLimit, told(environment.ss.limit))
            &&& vmcs::loads(writes, VmcsField::GuestDsLimit, told(environment.ds.limit))
            &&& vmcs::loads(writes, VmcsField::GuestEsLimit, told(environment.es.limit))
            &&& vmcs::loads(writes, VmcsField::GuestFsLimit, told(environment.fs.limit))
            &&& vmcs::loads(writes, VmcsField::GuestGsLimit, told(environment.gs.limit))
            &&& vmcs::loads(writes, VmcsField::GuestLdtrLimit, 0)
            &&& vmcs::loads(writes, VmcsField::GuestTrLimit, environment.tss.limit as u64)
            &&& vmcs::loads(writes, VmcsField::GuestCsAccessRights, usable_rights(environment.cs))
            &&& vmcs::loads(writes, VmcsField::GuestSsAccessRights, usable_rights(environment.ss))
            &&& vmcs::loads(writes, VmcsField::GuestDsAccessRights, usable_rights(environment.ds))
            &&& vmcs::loads(writes, VmcsField::GuestEsAccessRights, usable_rights(environment.es))
            &&& vmcs::loads(writes, VmcsField::GuestFsAccessRights, usable_rights(environment.fs))
            &&& vmcs::loads(writes, VmcsField::GuestGsAccessRights, usable_rights(environment.gs))
            &&& vmcs::loads(writes, VmcsField::GuestTrAccessRights, usable_rights(environment.tr))
            &&& vmcs::loads(writes, VmcsField::GuestLdtrAccessRights, 0x1_0000)
            &&& vmcs::loads(writes, VmcsField::GuestGdtrBase, environment.gdtr_base)
            &&& vmcs::loads(writes, VmcsField::GuestIdtrBase, environment.idtr_base)
            &&& vmcs::loads(writes, VmcsField::GuestGdtrLimit, environment.gdtr_limit as u64)
            &&& vmcs::loads(writes, VmcsField::GuestIdtrLimit, environment.idtr_limit as u64)
            &&& vmcs::loads(writes, VmcsField::GuestLinkPointer, 0xffff_ffff_ffff_ffff)
        },
{
    let (low0, high0) = (capabilities.cr0_fixed0, capabilities.cr0_fixed1);
    let (low4, high4) = (capabilities.cr4_fixed0, capabilities.cr4_fixed1);
    if low0 & !high0 == 0 {
        vmcs::law_guest_control_is_consistent(original.cr0, low0, high0);
    }
    if low4 & !high4 == 0 {
        vmcs::law_guest_control_is_consistent(original.cr4, low4, high4);
    }
    if let Ok(list) = result {
        let writes = list@;
        lemma_forced(original.cr0, low0, high0, regs.rflags);
        lemma_forced(original.cr4, low4, high4, regs.rflags);
        lemma_rights(environment.cs);
        lemma_rights(environment.ss);
        lemma_rights(environment.ds);
        lemma_rights(environment.es);
        lemma_rights(environment.fs);
        lemma_rights(environment.gs);
        lemma_rights(environment.tr);
        assert(writes[0].field is GuestCr0);
        assert(writes[1].field is GuestCr3);
        assert(writes[2].field is GuestCr4);
        assert(writes[3].field is GuestDr7);
        assert(writes[4].field is GuestRsp);
        assert(writes[5].field is GuestRip);
        assert(writes[6].field is GuestRflags);
        assert(writes[7].field is GuestCsSelector);
        assert(writes[8].field is GuestSsSelector);
        assert(writes[9].field is GuestDsSelector);
        assert(writes[10].field is GuestEsSelector);
        assert(writes[11].field is GuestFsSelector);
        assert(writes[12].field is GuestGsSelector);
        assert(writes[13].field is GuestLdtrSelector);
        assert(writes[14].field is GuestTrSelector);
        assert(writes[15].field is GuestCsBase);
        assert(writes[16].field is GuestSsBase);
        assert(writes[17].field is GuestDsBase);
        assert(writes[18].field is GuestEsBase);
        assert(writes[19].field is GuestFsBase);
        assert(writes[20].field is GuestGsBase);
        assert(writes[21].field is GuestSysenterCs);
        assert(writes[22].field is GuestSysenterEsp);
        assert(writes[23].field is GuestSysenterEip);
        assert(writes[24].field is GuestLdtrBase);
        assert(writes[25].field is GuestTrBase);
        assert(writes[26].field is GuestCsLimit);
        assert(writes[27].field is GuestSsLimit);
        assert(writes[28].field is GuestDsLimit);
        assert(writes[29].field is GuestEsLimit);
        assert(writes[30].field is GuestFsLimit);
        assert(writes[31].field is GuestGsLimit);
        assert(writes[32].field is GuestLdtrLimit);
        assert(writes[33].field is GuestTrLimit);
        assert(writes[34].field is GuestCsAccessRights);
        assert(writes[35].field is GuestSsAccessRights);
        assert(writes[36].field is GuestDsAccessRights);
        assert(writes[37].field is GuestEsAccessRights);
        assert(writes[38].field is GuestFsAccessRights);
        assert(writes[39].field is GuestGsAccessRights);
        assert(writes[40].field is GuestLdtrAccessRights);
        assert(writes[41].field is GuestTrAccessRights);
        assert(writes[42].field is GuestGdtrBase);
        assert(writes[43].field is GuestIdtrBase);
        assert(writes[44].field is GuestGdtrLimit);
        assert(writes[45].field is GuestIdtrLimit);
        assert(writes[46].field is GuestLinkPointer);
        assert forall|i: int| 0 <= i < writes.len() implies guest_place(
            (#[trigger] writes[i]).field,
        ) == i by {}
        assert(vmcs::loads(writes, VmcsField::GuestCr0, writes[0].value));
        assert(vmcs::loads(writes, VmcsField::GuestCr4, writes[2].value));
        assert(vmcs::loads(writes, VmcsField::GuestRflags, writes[6].value));
    }
}

/// The writes before and behind the bases are those of any processor that differs
/// in bases only.
proof fn lemma_bases_stand_apart(
    environment: GuestEnvironment,
    changed: GuestEnvironment,
    regs: GuestRegs,
    cr0: NormalizedControlState,
    cr4: NormalizedControlState,
)
    requires
        changed == (GuestEnvironment {
            fs_base: changed.fs_base,
            gs_base: changed.gs_base,
            ..environment
        }),
    ensures
        ({
            let one = vmcs::guest_state(environment, regs, cr0, cr4);
            let other = vmcs::guest_state(changed, regs, cr0, cr4);
            &&& one.len() == other.len()
            &&& forall|i: int|
                0 <= i < one.len() && !(15 <= i < 26) ==> {
                    &&& #[trigger] one[i] == other[i]
                    &&& !(one[i].field is GuestFsBase)
                    &&& !(one[i].field is GuestGsBase)
                }
            &&& forall|i: int|
                15 <= i < 26 ==> #[trigger] one[i] == vmcs::guest_bases(environment)[i - 15]
                    && other[i] == vmcs::guest_bases(changed)[i - 15]
        }),
{
    let head = vmcs::guest_registers(environment, regs, cr0, cr4) + vmcs::guest_selectors(
        environment,
    );
    let tail = vmcs::guest_limits(environment) + vmcs::guest_rights(environment)
        + vmcs::guest_tables(environment);
    assert(vmcs::guest_registers(environment, regs, cr0, cr4) =~= vmcs::guest_registers(
        changed,
        regs,
        cr0,
        cr4,
    ));
    assert(vmcs::guest_selectors(environment) =~= vmcs::guest_selectors(changed));
    assert(vmcs::guest_limits(environment) =~= vmcs::guest_limits(changed));
    assert(vmcs::guest_rights(environment) =~= vmcs::guest_rights(changed));
    assert(vmcs::guest_tables(environment) =~= vmcs::guest_tables(changed));
    assert(vmcs::guest_state(environment, regs, cr0, cr4) =~= head + vmcs::guest_bases(environment)
        + tail);
    assert(vmcs::guest_state(changed, regs, cr0, cr4) =~= head + vmcs::guest_bases(changed) + tail);
    assert forall|i: int| 0 <= i < head.len() implies !((#[trigger] head[i]).field is GuestFsBase)
        && !(head[i].field is GuestGsBase) by {
        if i < 7 {
            assert(head[i] == vmcs::guest_registers(environment, regs, cr0, cr4)[i]);
        } else {
            assert(head[i] == vmcs::guest_selectors(environment)[i - 7]);
        }
    }
    assert forall|i: int| 0 <= i < tail.len() implies !((#[trigger] tail[i]).field is GuestFsBase)
        && !(tail[i].field is GuestGsBase) by {
        if i < 8 {
            assert(tail[i] == vmcs::guest_limits(environment)[i]);
        } else if i < 16 {
            assert(tail[i] == vmcs::guest_rights(environment)[i - 8]);
        } else {
            assert(tail[i] == vmcs::guest_tables(environment)[i - 16]);
        }
    }
}

/// Processors that differ in the base of one segment go on with writes that
/// differ in the field of that base, and in no other.
pub proof fn law_segment_base_reaches_its_field_alone(
    environment: GuestEnvironment,
    fs_base: u64,
    gs_base: u64,
    regs: GuestRegs,
    capabilities: IntelCapabilities,
    original: OriginalControlRegisters,
    first: MonadResult<Vec<VmcsWrite>>,
    second: MonadResult<Vec<VmcsWrite>>,
)
    requires
        call_ensures(setup_guest_state, (&environment, &regs, &capabilities, original), first),
        call_ensures(
            setup_guest_state,
            (
                &(GuestEnvironment { fs_base, gs_base, ..environment }),
                &regs,
                &capabilities,
                original,
            ),
            second,
        ),
    ensures
        first is Ok == second is Ok,
        first is Ok ==> {
            let one = first.unwrap()@;
            let other = second.unwrap()@;
            &&& one.len() == other.len()
            &&& forall|i: int|
                0 <= i < one.len() ==> {
                    &&& (#[trigger] one[i]).field == other[i].field
                    &&& one[i].value != other[i].value ==> {
                        ||| one[i].field is GuestFsBase && fs_base != environment.fs_base
                        ||| one[i].field is GuestGsBase && gs_base != environment.gs_base
                    }
                    &&& other[i].field is GuestFsBase ==> other[i].value == fs_base
                    &&& other[i].field is GuestGsBase ==> other[i].value == gs_base
                }
        },
{
    let changed = GuestEnvironment { fs_base, gs_base, ..environment };
    if first is Ok && second is Ok {
        let one = first.unwrap()@;
        let other = second.unwrap()@;
        let cr0 = vmcs::guest_control(
            original.cr0,
            capabilities.cr0_fixed0,
            capabilities.cr0_fixed1,
        ).unwrap();
        let cr4 = vmcs::guest_control(
            original.cr4,
            capabilities.cr4_fixed0,
            capabilities.cr4_fixed1,
        ).unwrap();
        lemma_bases_stand_apart(environment, changed, regs, cr0, cr4);
        assert(one == vmcs::guest_state(environment, regs, cr0, cr4));
        assert(other == vmcs::guest_state(changed, regs, cr0, cr4));
    }
}

/// Where each field of the host stands among the writes.
spec fn host_place(field: VmcsField) -> int {
    match field {
        VmcsField::HostCr0 => 0,
        VmcsField::HostCr3 => 1,
        VmcsField::HostCr4 => 2,
        VmcsField::HostCsSelector => 3,
        VmcsField::HostSsSelector => 4,
        VmcsField::HostDsSelector => 5,
        VmcsField::HostEsSelector => 6,
        VmcsField::HostFsSelector => 7,
        VmcsField::HostGsSelector => 8,
        VmcsField::HostTrSelector => 9,
        VmcsField::HostFsBase => 10,
        VmcsField::HostGsBase => 11,
        VmcsField::HostSysenterCs => 12,
        VmcsField::HostSysenterEsp => 13,
        VmcsField::HostSysenterEip => 14,
        VmcsField::HostTrBase => 15,
        VmcsField::HostGdtrBase => 16,
        VmcsField::HostIdtrBase => 17,
        VmcsField::HostRsp => 18,
        VmcsField::HostRip => 19,
        _ => -1,
    }
}

/// An exit finds the host as the processor was: its control registers, selectors
/// without table and privilege bits, bases and descriptor tables; only the page
/// tables, the stack and the place are the hypervisor's own.
pub proof fn law_exit_finds_the_host(
    environment: GuestEnvironment,
    host_cr3: u64,
    host_rsp: u64,
    host_rip: u64,
    list: Vec<VmcsWrite>,
)
    requires
        call_ensures(setup_host_state, (&environment, host_cr3, host_rsp, host_rip), list),
    ensures
        ({
            let writes = list@;
            &&& writes.len() == 20
            &&& vmcs::loads(writes, VmcsField::HostCr0, environment.cr0)
            &&& vmcs::loads(writes, VmcsField::HostCr3, host_cr3)
            &&& vmcs::loads(writes, VmcsField::HostCr4, environment.cr4)
            &&& vmcs::loads(writes, VmcsField::HostCsSelector, (environment.cs.selector / 8 * 8) as u64)
            &&& vmcs::loads(writes, VmcsField::HostSsSelector, (environment.ss.selector / 8 * 8) as u64)
            &&& vmcs::loads(writes, VmcsField::HostDsSelector, (environment.ds.selector / 8 * 8) as u64)
            &&& vmcs::loads(writes, VmcsField::HostEsSelector, (environment.es.selector / 8 * 8) as u64)
            &&& vmcs::loads(writes, VmcsField::HostFsSelector, (environment.fs.selector / 8 * 8) as u64)
            &&& vmcs::loads(writes, VmcsField::HostGsSelector, (environment.gs.selector / 8 * 8) as u64)
            &&& vmcs::loads(writes, VmcsField::HostTrSelector, (environment.tr.selector / 8 * 8) as u64)
            &&& vmcs::loads(writes, VmcsField::HostFsBase, environment.fs_base)
            &&& vmcs::loads(writes, VmcsField::HostGsBase, environment.gs_base)
            &&& vmcs::loads(writes, VmcsField::HostSysenterCs, environment.sysenter_cs)
            &&& vmcs::loads(writes, VmcsField::HostSysenterEsp, environment.sysenter_esp)
            &&& vmcs::loads(writes, VmcsField::HostSysenterEip, environment.sysenter_eip)
            &&& vmcs::loads(writes, VmcsField::HostTrBase, environment.tss.base)
            &&& vmcs::loads(writes, VmcsField::HostGdtrBase, environment.gdtr_base)
            &&& vmcs::loads(writes, VmcsField::HostIdtrBase, environment.idtr_base)
            &&& vmcs::loads(writes, VmcsField::HostRsp, host_rsp)
            &&& vmcs::loads(writes, VmcsField::HostRip, host_rip)
        }),
{
    let writes = list@;
    lemma_null_selector(environment.cs.selector);
    lemma_null_selector(environment.ss.selector);
    lemma_null_selector(environment.ds.selector);
    lemma_null_selector(environment.es.selector);
    lemma_null_selector(environment.fs.selector);
    lemma_null_selector(environment.gs.selector);
    lemma_null_selector(environment.tr.selector);
    assert(writes[0].field is HostCr0);
    assert(writes[1].field is HostCr3);
    assert(writes[2].field is HostCr4);
    assert(writes[3].field is HostCsSelector);
    assert(writes[4].field is HostSsSelector);
    assert(writes[5].field is HostDsSelector);
    assert(writes[6].field is HostEsSelector);
    assert(writes[7].field is HostFsSelector);
    assert(writes[8].field is HostGsSelector);
    assert(writes[9].field is HostTrSelector);
    assert(writes[10].field is HostFsBase);
    assert(writes[11].field is HostGsBase);
    assert(writes[12].field is HostSysenterCs);
    assert(writes[13].field is HostSysenterEsp);
    assert(writes[14].field is HostSysenterEip);
    assert(writes[15].field is HostTrBase);
    assert(writes[16].field is HostGdtrBase);
    assert(writes[17].field is HostIdtrBase);
    assert(writes[18].field is HostRsp);
    assert(writes[19].field is HostRip);
    assert forall|i: int| 0 <= i < writes.len() implies host_place((#[trigger] writes[i]).field)
        == i by {}
}

/// Where each control stands among the writes.
spec fn control_place(field: VmcsField) -> int {
    match field {
        VmcsField::PinBasedControls => 0,
        VmcsField::PrimaryControls => 1,
        VmcsField::SecondaryControls => 2,
        VmcsField::EntryControls => 3,
        VmcsField::ExitControls => 4,
        VmcsField::MsrBitmapAddress => 5,
        VmcsField::EptPointer => 6,
        VmcsField::Cr0GuestHostMask => 7,
        VmcsField::Cr4GuestHostMask => 8,
        VmcsField::Cr0ReadShadow => 9,
        VmcsField::Cr4ReadShadow => 10,
        VmcsField::ExceptionBitmap => 11,
        VmcsField::PageFaultErrorCodeMask => 12,
        VmcsField::PageFaultErrorCodeMatch => 13,
        VmcsField::Cr3TargetCount => 14,
        VmcsField::EntryInterruptionInfo => 15,
        VmcsField::EntryMsrLoadCount => 16,
        VmcsField::ExitMsrStoreCount => 17,
        VmcsField::ExitMsrLoadCount => 18,
        _ => -1,
    }
}

/// A guest runs with the controls that the processor granted, the bitmap and the
/// view that it was given, and reads its control registers as the processor had
/// them: the mask holds exactly the bits that VMX forces, and for those the guest
/// reads what was there. Nothing else makes it exit. There is no guest without a
/// view.
pub proof fn law_guest_reads_its_own_controls(
    capabilities: IntelCapabilities,
    original: OriginalControlRegisters,
    msr_bitmap: u64,
    eptp: u64,
    result: MonadResult<Vec<VmcsWrite>>,
)
    requires
        call_ensures(setup_controls, (&capabilities, original, msr_bitmap, eptp), result),
    ensures
        result is Ok <==> eptp != 0 && capabilities.cr0_fixed0 & !capabilities.cr0_fixed1 == 0
            && capabilities.cr4_fixed0 & !capabilities.cr4_fixed1 == 0,
        result matches Ok(list) ==> {
            let writes = list@;
            &&& writes.len() == 19
            &&& vmcs::loads(writes, VmcsField::PinBasedControls, capabilities.controls.pinbased as u64)
            &&& vmcs::loads(writes, VmcsField::PrimaryControls, capabilities.controls.primary as u64)
            &&& vmcs::loads(writes, VmcsField::SecondaryControls, capabilities.controls.secondary as u64)
            &&& vmcs::loads(writes, VmcsField::EntryControls, capabilities.controls.vmentry as u64)
            &&& vmcs::loads(writes, VmcsField::ExitControls, capabilities.controls.vmexit as u64)
            &&& vmcs::loads(writes, VmcsField::MsrBitmapAddress, msr_bitmap)
            &&& vmcs::loads(writes, VmcsField::EptPointer, eptp)
            &&& vmcs::loads(writes, VmcsField::ExceptionBitmap, 0)
            &&& vmcs::loads(writes, VmcsField::PageFaultErrorCodeMask, 0)
            &&& vmcs::loads(writes, VmcsField::PageFaultErrorCodeMatch, 0)
            &&& vmcs::loads(writes, VmcsField::Cr3TargetCount, 0)
            &&& vmcs::loads(writes, VmcsField::EntryInterruptionInfo, 0)
            &&& vmcs::loads(writes, VmcsField::EntryMsrLoadCount, 0)
            &&& vmcs::loads(writes, VmcsField::ExitMsrStoreCount, 0)
            &&& vmcs::loads(writes, VmcsField::ExitMsrLoadCount, 0)
            &&& exists|mask: u64, shadow: u64, value: u64|
                {
                    &&& #[trigger] vmcs::loads(writes, VmcsField::Cr0GuestHostMask, mask)
                    &&& #[trigger] vmcs::loads(writes, VmcsField::Cr0ReadShadow, shadow)
                    &&& #[trigger] forced_only(
                        original.cr0,
                        value,
                        capabilities.cr0_fixed0,
                        capabilities.cr0_fixed1,
                    )
                    &&& mask == value ^ original.cr0
                    &&& (value & !mask) | (shadow & mask) == original.cr0
                }
            &&& exists|mask: u64, shadow: u64, value: u64|
                {
                    &&& #[trigger] vmcs::loads(writes, VmcsField::Cr4GuestHostMask, mask)
                    &&& #[trigger] vmcs::loads(writes, VmcsField::Cr4ReadShadow, shadow)
                    &&& #[trigger] forced_only(
                        original.cr4,
                        value,
                        capabilities.cr4_fixed0,
                        capabilities.cr4_fixed1,
                    )
                    &&& mask == value ^ original.cr4
                    &&& (value & !mask) | (shadow & mask) == original.cr4
                }
        },
{
    let (low0, high0) = (capabilities.cr0_fixed0, capabilities.cr0_fixed1);
    let (low4, high4) = (capabilities.cr4_fixed0, capabilities.cr4_fixed1);
    if low0 & !high0 == 0 {
        vmcs::law_guest_control_is_consistent(original.cr0, low0, high0);
    }
    if low4 & !high4 == 0 {
        vmcs::law_guest_control_is_consistent(original.cr4, low4, high4);
    }
    if let Ok(list) = result {
        let writes = list@;
        lemma_forced(original.cr0, low0, high0, 0);
        lemma_forced(original.cr4, low4, high4, 0);
        assert(writes[0].field is PinBasedControls);
        assert(writes[1].field is PrimaryControls);
        assert(writes[2].field is SecondaryControls);
        assert(writes[3].field is EntryControls);
        assert(writes[4].field is ExitControls);
        assert(writes[5].field is MsrBitmapAddress);
        assert(writes[6].field is EptPointer);
        assert(writes[7].field is Cr0GuestHostMask);
        assert(writes[8].field is Cr4GuestHostMask);
        assert(writes[9].field is Cr0ReadShadow);
        assert(writes[10].field is Cr4ReadShadow);
        assert(writes[11].field is ExceptionBitmap);
        assert(writes[12].field is PageFaultErrorCodeMask);
        assert(writes[13].field is PageFaultErrorCodeMatch);
        assert(writes[14].field is Cr3TargetCount);
        assert(writes[15].field is EntryInterruptionInfo);
        assert(writes[16].field is EntryMsrLoadCount);
        assert(writes[17].field is ExitMsrStoreCount);
        assert(writes[18].field is ExitMsrLoadCount);
        assert forall|i: int| 0 <= i < writes.len() implies control_place(
            (#[trigger] writes[i]).field,
        ) == i by {}
        let value0 = (original.cr0 | low0) & high0;
        let value4 = (original.cr4 | low4) & high4;
        assert(forced_only(original.cr0, value0, low0, high0));
        assert(forced_only(original.cr4, value4, low4, high4));
        assert(vmcs::loads(writes, VmcsField::Cr0GuestHostMask, writes[7].value));
        assert(vmcs::loads(writes, VmcsField::Cr4GuestHostMask, writes[8].value));
        assert(vmcs::loads(writes, VmcsField::Cr0ReadShadow, writes[9].value));
        assert(vmcs::loads(writes, VmcsField::Cr4ReadShadow, writes[10].value));
    }
}

} // verus!
