//! The control structure of a virtual processor: which fields are written, with
//! what, in which order.

use vstd::prelude::*;

use super::caps::IntelCapabilities;
use super::control::VmxControls;
use super::state::{
    normalize_control_state, normalize_rflags, segment_access_from_lar, NormalizedControlState,
    TssState,
};
use super::vmx::OriginalControlRegisters;
use super::state;
use crate::error::{ErrorCode, ErrorPhase, MonadError, MonadResult};

verus! {

/// A vector register.
#[derive(Debug, Clone, Copy, PartialEq, Eq, Structural)]
pub struct M128A {
    pub low: u64,
    pub high: i64,
}

impl Default for M128A {
    fn default() -> (value: Self)
        ensures
            value == (M128A { low: 0, high: 0 }),
    {
        M128A { low: 0, high: 0 }
    }
}

/// The registers of a guest.
#[derive(Debug, Clone, Copy, PartialEq, Eq, Structural)]
pub struct GuestRegs {
    pub rax: u64,
    pub rcx: u64,
    pub rdx: u64,
    pub rbx: u64,
    pub rsp: u64,
    pub rbp: u64,
    pub rsi: u64,
    pub rdi: u64,
    pub r8: u64,
    pub r9: u64,
    pub r10: u64,
    pub r11: u64,
    pub r12: u64,
    pub r13: u64,
    pub r14: u64,
    pub r15: u64,
    pub rip: u64,
    pub rflags: u64,
    pub xmm0: M128A,
    pub xmm1: M128A,
    pub xmm2: M128A,
    pub xmm3: M128A,
    pub xmm4: M128A,
    pub xmm5: M128A,
    pub xmm6: M128A,
    pub xmm7: M128A,
    pub xmm8: M128A,
    pub xmm9: M128A,
    pub xmm10: M128A,
    pub xmm11: M128A,
    pub xmm12: M128A,
    pub xmm13: M128A,
    pub xmm14: M128A,
    pub xmm15: M128A,
}

impl GuestRegs {
    /// All registers are zero.
    pub open spec fn spec_zeroed() -> Self {
        let zero = M128A { low: 0, high: 0 };
        GuestRegs {
            rax: 0,
            rcx: 0,
            rdx: 0,
            rbx: 0,
            rsp: 0,
            rbp: 0,
            rsi: 0,
            rdi: 0,
            r8: 0,
            r9: 0,
            r10: 0,
            r11: 0,
            r12: 0,
            r13: 0,
            r14: 0,
            r15: 0,
            rip: 0,
            rflags: 0,
            xmm0: zero,
            xmm1: zero,
            xmm2: zero,
            xmm3: zero,
            xmm4: zero,
            xmm5: zero,
            xmm6: zero,
            xmm7: zero,
            xmm8: zero,
            xmm9: zero,
            xmm10: zero,
            xmm11: zero,
            xmm12: zero,
            xmm13: zero,
            xmm14: zero,
            xmm15: zero,
        }
    }
}

impl Default for GuestRegs {
    fn default() -> (regs: Self)
        ensures
            regs == Self::spec_zeroed(),
    {
        let zero = M128A { low: 0, high: 0 };
        GuestRegs {
            rax: 0,
            rcx: 0,
            rdx: 0,
            rbx: 0,
            rsp: 0,
            rbp: 0,
            rsi: 0,
            rdi: 0,
            r8: 0,
            r9: 0,
            r10: 0,
            r11: 0,
            r12: 0,
            r13: 0,
            r14: 0,
            r15: 0,
            rip: 0,
            rflags: 0,
            xmm0: zero,
            xmm1: zero,
            xmm2: zero,
            xmm3: zero,
            xmm4: zero,
            xmm5: zero,
            xmm6: zero,
            xmm7: zero,
            xmm8: zero,
            xmm9: zero,
            xmm10: zero,
            xmm11: zero,
            xmm12: zero,
            xmm13: zero,
            xmm14: zero,
            xmm15: zero,
        }
    }
}

/// A field of the control structure.
#[derive(Debug, Clone, Copy, PartialEq, Eq, Structural)]
pub enum VmcsField {
    GuestCr0,
    GuestCr3,
    GuestCr4,
    GuestDr7,
    GuestRsp,
    GuestRip,
    GuestRflags,
    GuestCsSelector,
    GuestSsSelector,
    GuestDsSelector,
    GuestEsSelector,
    GuestFsSelector,
    GuestGsSelector,
    GuestLdtrSelector,
    GuestTrSelector,
    GuestCsBase,
    GuestSsBase,
    GuestDsBase,
    GuestEsBase,
    GuestFsBase,
    GuestGsBase,
    GuestSysenterCs,
    GuestSysenterEsp,
    GuestSysenterEip,
    GuestLdtrBase,
    GuestTrBase,
    GuestCsLimit,
    GuestSsLimit,
    GuestDsLimit,
    GuestEsLimit,
    GuestFsLimit,
    GuestGsLimit,
    GuestLdtrLimit,
    GuestTrLimit,
    GuestCsAccessRights,
    GuestSsAccessRights,
    GuestDsAccessRights,
    GuestEsAccessRights,
    GuestFsAccessRights,
    GuestGsAccessRights,
    GuestLdtrAccessRights,
    GuestTrAccessRights,
    GuestGdtrBase,
    GuestIdtrBase,
    GuestGdtrLimit,
    GuestIdtrLimit,
    GuestLinkPointer,
    HostCr0,
    HostCr3,
    HostCr4,
    HostCsSelector,
    HostSsSelector,
    HostDsSelector,
    HostEsSelector,
    HostFsSelector,
    HostGsSelector,
    HostTrSelector,
    HostFsBase,
    HostGsBase,
    HostSysenterCs,
    HostSysenterEsp,
    HostSysenterEip,
    HostTrBase,
    HostGdtrBase,
    HostIdtrBase,
    HostRsp,
    HostRip,
    PinBasedControls,
    PrimaryControls,
    SecondaryControls,
    EntryControls,
    ExitControls,
    MsrBitmapAddress,
    EptPointer,
    Cr0GuestHostMask,
    Cr4GuestHostMask,
    Cr0ReadShadow,
    Cr4ReadShadow,
    ExceptionBitmap,
    PageFaultErrorCodeMask,
    PageFaultErrorCodeMatch,
    Cr3TargetCount,
    EntryInterruptionInfo,
    EntryMsrLoadCount,
    ExitMsrStoreCount,
    ExitMsrLoadCount,
    EntryExceptionErrorCode,
    EntryInstructionLength,
}

/// One write of a field.
#[derive(Debug, Clone, Copy, PartialEq, Eq, Structural)]
pub struct VmcsWrite {
    pub field: VmcsField,
    pub value: u64,
}

/// Whether writes leave a field with a value: one of them writes it, and none of
/// them writes anything else there.
pub open spec fn loads(writes: Seq<VmcsWrite>, field: VmcsField, value: u64) -> bool {
    &&& exists|i: int|
        0 <= i < writes.len() && (#[trigger] writes[i]).field == field && writes[i].value == value
    &&& forall|i: int|
        0 <= i < writes.len() && (#[trigger] writes[i]).field == field ==> writes[i].value == value
}

/// A segment as the processor describes it.
#[derive(Debug, Clone, Copy, PartialEq, Eq, Structural)]
pub struct SegmentState {
    pub selector: u16,
    pub limit: Option<u32>,
    pub rights: Option<u32>,
}

impl SegmentState {
    pub open spec fn spec_limit_or_zero(self) -> u32 {
        match self.limit {
            Some(limit) => limit,
            None => 0,
        }
    }

    /// The limit, zero where the segment has none.
    #[verifier::when_used_as_spec(spec_limit_or_zero)]
    pub fn limit_or_zero(self) -> (limit: u32)
        ensures
            limit == self.spec_limit_or_zero(),
    {
        match self.limit {
            Some(limit) => limit,
            None => 0,
        }
    }

    pub open spec fn spec_access(self) -> u32 {
        state::spec_segment_access_from_lar(self.selector, self.rights)
    }

    /// The access rights as the control structure holds them.
    #[verifier::when_used_as_spec(spec_access)]
    pub fn access(self) -> (rights: u32)
        ensures
            rights == self.spec_access(),
    {
        segment_access_from_lar(self.selector, self.rights)
    }
}

/// A processor's state when the hypervisor takes it over.
#[derive(Debug, Clone, Copy, PartialEq, Eq, Structural)]
pub struct GuestEnvironment {
    pub cs: SegmentState,
    pub ss: SegmentState,
    pub ds: SegmentState,
    pub es: SegmentState,
    pub fs: SegmentState,
    pub gs: SegmentState,
    pub tr: SegmentState,
    pub tss: TssState,
    pub cr0: u64,
    pub cr3: u64,
    pub cr4: u64,
    pub dr7: u64,
    pub fs_base: u64,
    pub gs_base: u64,
    pub sysenter_cs: u64,
    pub sysenter_esp: u64,
    pub sysenter_eip: u64,
    pub gdtr_base: u64,
    pub gdtr_limit: u16,
    pub idtr_base: u64,
    pub idtr_limit: u16,
}

pub open spec fn spec_host_selector(selector: u16) -> u16 {
    selector & !0x7u16
}

/// A selector without its table and privilege bits.
#[verifier::when_used_as_spec(spec_host_selector)]
pub fn host_selector(selector: u16) -> (host: u16)
    ensures
        host == spec_host_selector(selector),
{
    selector & !0x7u16
}

/// A control register of the guest: what the fixed bits force is masked, and
/// reads as it was.
pub open spec fn guest_control(requested: u64, fixed0: u64, fixed1: u64) -> MonadResult<
    NormalizedControlState,
> {
    state::normalized_control(
        requested,
        fixed0,
        fixed1,
        requested ^ ((requested | fixed0) & fixed1),
        requested,
    )
}

fn guest_control_state(requested: u64, fixed0: u64, fixed1: u64) -> (result: MonadResult<
    NormalizedControlState,
>)
    ensures
        result == guest_control(requested, fixed0, fixed1),
{
    let normalized: u64 = (requested | fixed0) & fixed1;
    normalize_control_state(requested, fixed0, fixed1, requested ^ normalized, requested)
}

/// Control registers that meet fixed bits which do not contradict each other
/// can always be given to a guest.
pub proof fn law_guest_control_is_consistent(requested: u64, fixed0: u64, fixed1: u64)
    requires
        fixed0 & !fixed1 == 0,
    ensures
        guest_control(requested, fixed0, fixed1) is Ok,
{
    lemma_forced_is_masked(requested, fixed0, fixed1);
}

proof fn lemma_forced_is_masked(requested: u64, fixed0: u64, fixed1: u64)
    by (bit_vector)
    ensures
        ({
            let forced = requested ^ ((requested | fixed0) & fixed1);
            &&& forced & !forced == 0
            &&& (requested ^ requested) & forced == 0
        }),
{
}

/// The guest's control registers, stack, place and flags.
pub open spec fn guest_registers(environment: GuestEnvironment, regs: GuestRegs, cr0: NormalizedControlState, cr4: NormalizedControlState) -> Seq<VmcsWrite> {
    seq![
        VmcsWrite { field: VmcsField::GuestCr0, value: cr0.guest },
        VmcsWrite { field: VmcsField::GuestCr3, value: environment.cr3 },
        VmcsWrite { field: VmcsField::GuestCr4, value: cr4.guest },
        VmcsWrite { field: VmcsField::GuestDr7, value: environment.dr7 },
        VmcsWrite { field: VmcsField::GuestRsp, value: regs.rsp },
        VmcsWrite { field: VmcsField::GuestRip, value: regs.rip },
        VmcsWrite { field: VmcsField::GuestRflags, value: state::spec_normalize_rflags(regs.rflags) },
    ]
}

fn push_guest_registers(writes: &mut Vec<VmcsWrite>, environment: &GuestEnvironment, regs: &GuestRegs, cr0: NormalizedControlState, cr4: NormalizedControlState)
    ensures
        final(writes)@ == old(writes)@ + guest_registers(*environment, *regs, cr0, cr4),
{
    let ghost before = writes@;
    writes.push(VmcsWrite { field: VmcsField::GuestCr0, value: cr0.guest });
    writes.push(VmcsWrite { field: VmcsField::GuestCr3, value: environment.cr3 });
    writes.push(VmcsWrite { field: VmcsField::GuestCr4, value: cr4.guest });
    writes.push(VmcsWrite { field: VmcsField::GuestDr7, value: environment.dr7 });
    writes.push(VmcsWrite { field: VmcsField::GuestRsp, value: regs.rsp });
    writes.push(VmcsWrite { field: VmcsField::GuestRip, value: regs.rip });
    writes.push(VmcsWrite { field: VmcsField::GuestRflags, value: normalize_rflags(regs.rflags) });
    assert(writes@ =~= before + guest_registers(*environment, *regs, cr0, cr4));
}

/// The guest's selectors.
pub open spec fn guest_selectors(environment: GuestEnvironment) -> Seq<VmcsWrite> {
    seq![
        VmcsWrite { field: VmcsField::GuestCsSelector, value: environment.cs.selector as u64 },
        VmcsWrite { field: VmcsField::GuestSsSelector, value: environment.ss.selector as u64 },
        VmcsWrite { field: VmcsField::GuestDsSelector, value: environment.ds.selector as u64 },
        VmcsWrite { field: VmcsField::GuestEsSelector, value: environment.es.selector as u64 },
        VmcsWrite { field: VmcsField::GuestFsSelector, value: environment.fs.selector as u64 },
        VmcsWrite { field: VmcsField::GuestGsSelector, value: environment.gs.selector as u64 },
        VmcsWrite { field: VmcsField::GuestLdtrSelector, value: 0 },
        VmcsWrite { field: VmcsField::GuestTrSelector, value: environment.tr.selector as u64 },
    ]
}

fn push_guest_selectors(writes: &mut Vec<VmcsWrite>, environment: &GuestEnvironment)
    ensures
        final(writes)@ == old(writes)@ + guest_selectors(*environment),
{
    let ghost before = writes@;
    writes.push(VmcsWrite { field: VmcsField::GuestCsSelector, value: environment.cs.selector as u64 });
    writes.push(VmcsWrite { field: VmcsField::GuestSsSelector, value: environment.ss.selector as u64 });
    writes.push(VmcsWrite { field: VmcsField::GuestDsSelector, value: environment.ds.selector as u64 });
    writes.push(VmcsWrite { field: VmcsField::GuestEsSelector, value: environment.es.selector as u64 });
    writes.push(VmcsWrite { field: VmcsField::GuestFsSelector, value: environment.fs.selector as u64 });
    writes.push(VmcsWrite { field: VmcsField::GuestGsSelector, value: environment.gs.selector as u64 });
    writes.push(VmcsWrite { field: VmcsField::GuestLdtrSelector, value: 0 });
    writes.push(VmcsWrite { field: VmcsField::GuestTrSelector, value: environment.tr.selector as u64 });
    assert(writes@ =~= before + guest_selectors(*environment));
}

/// The guest's segment bases and fast system call registers.
pub open spec fn guest_bases(environment: GuestEnvironment) -> Seq<VmcsWrite> {
    seq![
        VmcsWrite { field: VmcsField::GuestCsBase, value: 0 },
        VmcsWrite { field: VmcsField::GuestSsBase, value: 0 },
        VmcsWrite { field: VmcsField::GuestDsBase, value: 0 },
        VmcsWrite { field: VmcsField::GuestEsBase, value: 0 },
        VmcsWrite { field: VmcsField::GuestFsBase, value: environment.fs_base },
        VmcsWrite { field: VmcsField::GuestGsBase, value: environment.gs_base },
        VmcsWrite { field: VmcsField::GuestSysenterCs, value: environment.sysenter_cs },
        VmcsWrite { field: VmcsField::GuestSysenterEsp, value: environment.sysenter_esp },
        VmcsWrite { field: VmcsField::GuestSysenterEip, value: environment.sysenter_eip },
        VmcsWrite { field: VmcsField::GuestLdtrBase, value: 0 },
        VmcsWrite { field: VmcsField::GuestTrBase, value: environment.tss.base },
    ]
}

fn push_guest_bases(writes: &mut Vec<VmcsWrite>, environment: &GuestEnvironment)
    ensures
        final(writes)@ == old(writes)@ + guest_bases(*environment),
{
    let ghost before = writes@;
    writes.push(VmcsWrite { field: VmcsField::GuestCsBase, value: 0 });
    writes.push(VmcsWrite { field: VmcsField::GuestSsBase, value: 0 });
    writes.push(VmcsWrite { field: VmcsField::GuestDsBase, value: 0 });
    writes.push(VmcsWrite { field: VmcsField::GuestEsBase, value: 0 });
    writes.push(VmcsWrite { field: VmcsField::GuestFsBase, value: environment.fs_base });
    writes.push(VmcsWrite { field: VmcsField::GuestGsBase, value: environment.gs_base });
    writes.push(VmcsWrite { field: VmcsField::GuestSysenterCs, value: environment.sysenter_cs });
    writes.push(VmcsWrite { field: VmcsField::GuestSysenterEsp, value: environment.sysenter_esp });
    writes.push(VmcsWrite { field: VmcsField::GuestSysenterEip, value: environment.sysenter_eip });
    writes.push(VmcsWrite { field: VmcsField::GuestLdtrBase, value: 0 });
    writes.push(VmcsWrite { field: VmcsField::GuestTrBase, value: environment.tss.base });
    assert(writes@ =~= before + guest_bases(*environment));
}

/// The guest's segment limits.
pub open spec fn guest_limits(environment: GuestEnvironment) -> Seq<VmcsWrite> {
    seq![
        VmcsWrite { field: VmcsField::GuestCsLimit, value: environment.cs.spec_limit_or_zero() as u64 },
        VmcsWrite { field: VmcsField::GuestSsLimit, value: environment.ss.spec_limit_or_zero() as u64 },
        VmcsWrite { field: VmcsField::GuestDsLimit, value: environment.ds.spec_limit_or_zero() as u64 },
        VmcsWrite { field: VmcsField::GuestEsLimit, value: environment.es.spec_limit_or_zero() as u64 },
        VmcsWrite { field: VmcsField::GuestFsLimit, value: environment.fs.spec_limit_or_zero() as u64 },
        VmcsWrite { field: VmcsField::GuestGsLimit, value: environment.gs.spec_limit_or_zero() as u64 },
        VmcsWrite { field: VmcsField::GuestLdtrLimit, value: 0 },
        VmcsWrite { field: VmcsField::GuestTrLimit, value: environment.tss.limit as u64 },
    ]
}

fn push_guest_limits(writes: &mut Vec<VmcsWrite>, environment: &GuestEnvironment)
    ensures
        final(writes)@ == old(writes)@ + guest_limits(*environment),
{
    let ghost before = writes@;
    writes.push(VmcsWrite { field: VmcsField::GuestCsLimit, value: environment.cs.limit_or_zero() as u64 });
    writes.push(VmcsWrite { field: VmcsField::GuestSsLimit, value: environment.ss.limit_or_zero() as u64 });
    writes.push(VmcsWrite { field: VmcsField::GuestDsLimit, value: environment.ds.limit_or_zero() as u64 });
    writes.push(VmcsWrite { field: VmcsField::GuestEsLimit, value: environment.es.limit_or_zero() as u64 });
    writes.push(VmcsWrite { field: VmcsField::GuestFsLimit, value: environment.fs.limit_or_zero() as u64 });
    writes.push(VmcsWrite { field: VmcsField::GuestGsLimit, value: environment.gs.limit_or_zero() as u64 });
    writes.push(VmcsWrite { field: VmcsField::GuestLdtrLimit, value: 0 });
    writes.push(VmcsWrite { field: VmcsField::GuestTrLimit, value: environment.tss.limit as u64 });
    assert(writes@ =~= before + guest_limits(*environment));
}

/// The guest's access rights.
pub open spec fn guest_rights(environment: GuestEnvironment) -> Seq<VmcsWrite> {
    seq![
        VmcsWrite { field: VmcsField::GuestCsAccessRights, value: environment.cs.spec_access() as u64 },
        VmcsWrite { field: VmcsField::GuestSsAccessRights, value: environment.ss.spec_access() as u64 },
        VmcsWrite { field: VmcsField::GuestDsAccessRights, value: environment.ds.spec_access() as u64 },
        VmcsWrite { field: VmcsField::GuestEsAccessRights, value: environment.es.spec_access() as u64 },
        VmcsWrite { field: VmcsField::GuestFsAccessRights, value: environment.fs.spec_access() as u64 },
        VmcsWrite { field: VmcsField::GuestGsAccessRights, value: environment.gs.spec_access() as u64 },
        VmcsWrite { field: VmcsField::GuestLdtrAccessRights, value: 0x1_0000 },
        VmcsWrite { field: VmcsField::GuestTrAccessRights, value: environment.tr.spec_access() as u64 },
    ]
}

fn push_guest_rights(writes: &mut Vec<VmcsWrite>, environment: &GuestEnvironment)
    ensures
        final(writes)@ == old(writes)@ + guest_rights(*environment),
{
    let ghost before = writes@;
    writes.push(VmcsWrite { field: VmcsField::GuestCsAccessRights, value: environment.cs.access() as u64 });
    writes.push(VmcsWrite { field: VmcsField::GuestSsAccessRights, value: environment.ss.access() as u64 });
    writes.push(VmcsWrite { field: VmcsField::GuestDsAccessRights, value: environment.ds.access() as u64 });
    writes.push(VmcsWrite { field: VmcsField::GuestEsAccessRights, value: environment.es.access() as u64 });
    writes.push(VmcsWrite { field: VmcsField::GuestFsAccessRights, value: environment.fs.access() as u64 });
    writes.push(VmcsWrite { field: VmcsField::GuestGsAccessRights, value: environment.gs.access() as u64 });
    writes.push(VmcsWrite { field: VmcsField::GuestLdtrAccessRights, value: 0x1_0000 });
    writes.push(VmcsWrite { field: VmcsField::GuestTrAccessRights, value: environment.tr.access() as u64 });
    assert(writes@ =~= before + guest_rights(*environment));
}

/// The guest's descriptor tables. No other structure is linked.
pub open spec fn guest_tables(environment: GuestEnvironment) -> Seq<VmcsWrite> {
    seq![
        VmcsWrite { field: VmcsField::GuestGdtrBase, value: environment.gdtr_base },
        VmcsWrite { field: VmcsField::GuestIdtrBase, value: environment.idtr_base },
        VmcsWrite { field: VmcsField::GuestGdtrLimit, value: environment.gdtr_limit as u64 },
        VmcsWrite { field: VmcsField::GuestIdtrLimit, value: environment.idtr_limit as u64 },
        VmcsWrite { field: VmcsField::GuestLinkPointer, value: u64::MAX },
    ]
}

fn push_guest_tables(writes: &mut Vec<VmcsWrite>, environment: &GuestEnvironment)
    ensures
        final(writes)@ == old(writes)@ + guest_tables(*environment),
{
    let ghost before = writes@;
    writes.push(VmcsWrite { field: VmcsField::GuestGdtrBase, value: environment.gdtr_base });
    writes.push(VmcsWrite { field: VmcsField::GuestIdtrBase, value: environment.idtr_base });
    writes.push(VmcsWrite { field: VmcsField::GuestGdtrLimit, value: environment.gdtr_limit as u64 });
    writes.push(VmcsWrite { field: VmcsField::GuestIdtrLimit, value: environment.idtr_limit as u64 });
    writes.push(VmcsWrite { field: VmcsField::GuestLinkPointer, value: u64::MAX });
    assert(writes@ =~= before + guest_tables(*environment));
}

/// All that is written of the guest's state.
pub open spec fn guest_state(
    environment: GuestEnvironment,
    regs: GuestRegs,
    cr0: NormalizedControlState,
    cr4: NormalizedControlState,
) -> Seq<VmcsWrite> {
    guest_registers(environment, regs, cr0, cr4) + guest_selectors(environment) + guest_bases(
        environment,
    ) + guest_limits(environment) + guest_rights(environment) + guest_tables(environment)
}

/// The writes that make the guest what the processor was.
pub fn setup_guest_state(
    environment: &GuestEnvironment,
    regs: &GuestRegs,
    capabilities: &IntelCapabilities,
    original: OriginalControlRegisters,
) -> (result: MonadResult<Vec<VmcsWrite>>)
    ensures
        match guest_control(original.cr0, capabilities.cr0_fixed0, capabilities.cr0_fixed1) {
            Err(error) => result == Err::<Vec<VmcsWrite>, MonadError>(error),
            Ok(cr0) => match guest_control(
                original.cr4,
                capabilities.cr4_fixed0,
                capabilities.cr4_fixed1,
            ) {
                Err(error) => result == Err::<Vec<VmcsWrite>, MonadError>(error),
                Ok(cr4) => result is Ok && result.unwrap()@ == guest_state(
                    *environment,
                    *regs,
                    cr0,
                    cr4,
                ),
            },
        },
{
    let cr0 = guest_control_state(
        original.cr0,
        capabilities.cr0_fixed0,
        capabilities.cr0_fixed1,
    )?;
    let cr4 = guest_control_state(
        original.cr4,
        capabilities.cr4_fixed0,
        capabilities.cr4_fixed1,
    )?;
    let mut writes: Vec<VmcsWrite> = Vec::new();
    push_guest_registers(&mut writes, environment, regs, cr0, cr4);
    push_guest_selectors(&mut writes, environment);
    push_guest_bases(&mut writes, environment);
    push_guest_limits(&mut writes, environment);
    push_guest_rights(&mut writes, environment);
    push_guest_tables(&mut writes, environment);
    assert(writes@ =~= guest_state(*environment, *regs, cr0, cr4));
    Ok(writes)
}

/// All that is written of the host's state.
pub open spec fn host_state(
    environment: GuestEnvironment,
    host_cr3: u64,
    host_rsp: u64,
    host_rip: u64,
) -> Seq<VmcsWrite> {
    seq![
        VmcsWrite { field: VmcsField::HostCr0, value: environment.cr0 },
        VmcsWrite { field: VmcsField::HostCr3, value: host_cr3 },
        VmcsWrite { field: VmcsField::HostCr4, value: environment.cr4 },
        VmcsWrite { field: VmcsField::HostCsSelector, value: spec_host_selector(environment.cs.selector) as u64 },
        VmcsWrite { field: VmcsField::HostSsSelector, value: spec_host_selector(environment.ss.selector) as u64 },
        VmcsWrite { field: VmcsField::HostDsSelector, value: spec_host_selector(environment.ds.selector) as u64 },
        VmcsWrite { field: VmcsField::HostEsSelector, value: spec_host_selector(environment.es.selector) as u64 },
        VmcsWrite { field: VmcsField::HostFsSelector, value: spec_host_selector(environment.fs.selector) as u64 },
        VmcsWrite { field: VmcsField::HostGsSelector, value: spec_host_selector(environment.gs.selector) as u64 },
        VmcsWrite { field: VmcsField::HostTrSelector, value: spec_host_selector(environment.tr.selector) as u64 },
        VmcsWrite { field: VmcsField::HostFsBase, value: environment.fs_base },
        VmcsWrite { field: VmcsField::HostGsBase, value: environment.gs_base },
        VmcsWrite { field: VmcsField::HostSysenterCs, value: environment.sysenter_cs },
        VmcsWrite { field: VmcsField::HostSysenterEsp, value: environment.sysenter_esp },
        VmcsWrite { field: VmcsField::HostSysenterEip, value: environment.sysenter_eip },
        VmcsWrite { field: VmcsField::HostTrBase, value: environment.tss.base },
        VmcsWrite { field: VmcsField::HostGdtrBase, value: environment.gdtr_base },
        VmcsWrite { field: VmcsField::HostIdtrBase, value: environment.idtr_base },
        VmcsWrite { field: VmcsField::HostRsp, value: host_rsp },
        VmcsWrite { field: VmcsField::HostRip, value: host_rip },
    ]
}

/// The writes that say how the hypervisor is entered.
pub fn setup_host_state(
    environment: &GuestEnvironment,
    host_cr3: u64,
    host_rsp: u64,
    host_rip: u64,
) -> (writes: Vec<VmcsWrite>)
    ensures
        writes@ == host_state(*environment, host_cr3, host_rsp, host_rip),
{
    let mut writes: Vec<VmcsWrite> = Vec::new();
    writes.push(VmcsWrite { field: VmcsField::HostCr0, value: environment.cr0 });
    writes.push(VmcsWrite { field: VmcsField::HostCr3, value: host_cr3 });
    writes.push(VmcsWrite { field: VmcsField::HostCr4, value: environment.cr4 });
    writes.push(VmcsWrite { field: VmcsField::HostCsSelector, value: host_selector(environment.cs.selector) as u64 });
    writes.push(VmcsWrite { field: VmcsField::HostSsSelector, value: host_selector(environment.ss.selector) as u64 });
    writes.push(VmcsWrite { field: VmcsField::HostDsSelector, value: host_selector(environment.ds.selector) as u64 });
    writes.push(VmcsWrite { field: VmcsField::HostEsSelector, value: host_selector(environment.es.selector) as u64 });
    writes.push(VmcsWrite { field: VmcsField::HostFsSelector, value: host_selector(environment.fs.selector) as u64 });
    writes.push(VmcsWrite { field: VmcsField::HostGsSelector, value: host_selector(environment.gs.selector) as u64 });
    writes.push(VmcsWrite { field: VmcsField::HostTrSelector, value: host_selector(environment.tr.selector) as u64 });
    writes.push(VmcsWrite { field: VmcsField::HostFsBase, value: environment.fs_base });
    writes.push(VmcsWrite { field: VmcsField::HostGsBase, value: environment.gs_base });
    writes.push(VmcsWrite { field: VmcsField::HostSysenterCs, value: environment.sysenter_cs });
    writes.push(VmcsWrite { field: VmcsField::HostSysenterEsp, value: environment.sysenter_esp });
    writes.push(VmcsWrite { field: VmcsField::HostSysenterEip, value: environment.sysenter_eip });
    writes.push(VmcsWrite { field: VmcsField::HostTrBase, value: environment.tss.base });
    writes.push(VmcsWrite { field: VmcsField::HostGdtrBase, value: environment.gdtr_base });
    writes.push(VmcsWrite { field: VmcsField::HostIdtrBase, value: environment.idtr_base });
    writes.push(VmcsWrite { field: VmcsField::HostRsp, value: host_rsp });
    writes.push(VmcsWrite { field: VmcsField::HostRip, value: host_rip });
    assert(writes@ =~= host_state(*environment, host_cr3, host_rsp, host_rip));
    writes
}

/// All that is written of the controls.
pub open spec fn control_state(
    controls: VmxControls,
    msr_bitmap: u64,
    eptp: u64,
    cr0: NormalizedControlState,
    cr4: NormalizedControlState,
) -> Seq<VmcsWrite> {
    seq![
        VmcsWrite { field: VmcsField::PinBasedControls, value: controls.pinbased as u64 },
        VmcsWrite { field: VmcsField::PrimaryControls, value: controls.primary as u64 },
        VmcsWrite { field: VmcsField::SecondaryControls, value: controls.secondary as u64 },
        VmcsWrite { field: VmcsField::EntryControls, value: controls.vmentry as u64 },
        VmcsWrite { field: VmcsField::ExitControls, value: controls.vmexit as u64 },
        VmcsWrite { field: VmcsField::MsrBitmapAddress, value: msr_bitmap },
        VmcsWrite { field: VmcsField::EptPointer, value: eptp },
        VmcsWrite { field: VmcsField::Cr0GuestHostMask, value: cr0.mask },
        VmcsWrite { field: VmcsField::Cr4GuestHostMask, value: cr4.mask },
        VmcsWrite { field: VmcsField::Cr0ReadShadow, value: cr0.read_shadow },
        VmcsWrite { field: VmcsField::Cr4ReadShadow, value: cr4.read_shadow },
        VmcsWrite { field: VmcsField::ExceptionBitmap, value: 0 },
        VmcsWrite { field: VmcsField::PageFaultErrorCodeMask, value: 0 },
        VmcsWrite { field: VmcsField::PageFaultErrorCodeMatch, value: 0 },
        VmcsWrite { field: VmcsField::Cr3TargetCount, value: 0 },
        VmcsWrite { field: VmcsField::EntryInterruptionInfo, value: 0 },
        VmcsWrite { field: VmcsField::EntryMsrLoadCount, value: 0 },
        VmcsWrite { field: VmcsField::ExitMsrStoreCount, value: 0 },
        VmcsWrite { field: VmcsField::ExitMsrLoadCount, value: 0 },
    ]
}

fn push_controls(
    controls: VmxControls,
    msr_bitmap: u64,
    eptp: u64,
    cr0: NormalizedControlState,
    cr4: NormalizedControlState,
) -> (writes: Vec<VmcsWrite>)
    ensures
        writes@ == control_state(controls, msr_bitmap, eptp, cr0, cr4),
{
    let mut writes: Vec<VmcsWrite> = Vec::new();
    writes.push(VmcsWrite { field: VmcsField::PinBasedControls, value: controls.pinbased as u64 });
    writes.push(VmcsWrite { field: VmcsField::PrimaryControls, value: controls.primary as u64 });
    writes.push(VmcsWrite { field: VmcsField::SecondaryControls, value: controls.secondary as u64 });
    writes.push(VmcsWrite { field: VmcsField::EntryControls, value: controls.vmentry as u64 });
    writes.push(VmcsWrite { field: VmcsField::ExitControls, value: controls.vmexit as u64 });
    writes.push(VmcsWrite { field: VmcsField::MsrBitmapAddress, value: msr_bitmap });
    writes.push(VmcsWrite { field: VmcsField::EptPointer, value: eptp });
    writes.push(VmcsWrite { field: VmcsField::Cr0GuestHostMask, value: cr0.mask });
    writes.push(VmcsWrite { field: VmcsField::Cr4GuestHostMask, value: cr4.mask });
    writes.push(VmcsWrite { field: VmcsField::Cr0ReadShadow, value: cr0.read_shadow });
    writes.push(VmcsWrite { field: VmcsField::Cr4ReadShadow, value: cr4.read_shadow });
    writes.push(VmcsWrite { field: VmcsField::ExceptionBitmap, value: 0 });
    writes.push(VmcsWrite { field: VmcsField::PageFaultErrorCodeMask, value: 0 });
    writes.push(VmcsWrite { field: VmcsField::PageFaultErrorCodeMatch, value: 0 });
    writes.push(VmcsWrite { field: VmcsField::Cr3TargetCount, value: 0 });
    writes.push(VmcsWrite { field: VmcsField::EntryInterruptionInfo, value: 0 });
    writes.push(VmcsWrite { field: VmcsField::EntryMsrLoadCount, value: 0 });
    writes.push(VmcsWrite { field: VmcsField::ExitMsrStoreCount, value: 0 });
    writes.push(VmcsWrite { field: VmcsField::ExitMsrLoadCount, value: 0 });
    assert(writes@ =~= control_state(controls, msr_bitmap, eptp, cr0, cr4));
    writes
}

/// The writes that say what makes the guest exit. There is no guest without a
/// view.
pub fn setup_controls(
    capabilities: &IntelCapabilities,
    original: OriginalControlRegisters,
    msr_bitmap: u64,
    eptp: u64,
) -> (result: MonadResult<Vec<VmcsWrite>>)
    ensures
        if eptp == 0 {
            result == Err::<Vec<VmcsWrite>, MonadError>(
                MonadError::new(ErrorPhase::Launch, ErrorCode::InvalidLifecycleState, 0),
            )
        } else {
            match guest_control(original.cr0, capabilities.cr0_fixed0, capabilities.cr0_fixed1) {
                Err(error) => result == Err::<Vec<VmcsWrite>, MonadError>(error),
                Ok(cr0) => match guest_control(
                    original.cr4,
                    capabilities.cr4_fixed0,
                    capabilities.cr4_fixed1,
                ) {
                    Err(error) => result == Err::<Vec<VmcsWrite>, MonadError>(error),
                    Ok(cr4) => result is Ok && result.unwrap()@ == control_state(
                        capabilities.controls,
                        msr_bitmap,
                        eptp,
                        cr0,
                        cr4,
                    ),
                },
            }
        },
{
    if eptp == 0 {
        return Err(MonadError::new(ErrorPhase::Launch, ErrorCode::InvalidLifecycleState, 0));
    }
    let cr0 = guest_control_state(
        original.cr0,
        capabilities.cr0_fixed0,
        capabilities.cr0_fixed1,
    )?;
    let cr4 = guest_control_state(
        original.cr4,
        capabilities.cr4_fixed0,
        capabilities.cr4_fixed1,
    )?;
    Ok(push_controls(capabilities.controls, msr_bitmap, eptp, cr0, cr4))
}

/// Where the host's stack begins: at the last place for one pointer below the
/// aligned top.
pub fn host_stack_pointer(stack_base: u64, stack_size: u64) -> (pointer: Option<u64>)
    requires
        stack_size >= 32,
    ensures
        pointer == if stack_base + stack_size > u64::MAX {
            None
        } else {
            Some(((stack_base + stack_size) as u64 / 16 * 16 - 8) as u64)
        },
{
    let top: u64 = match stack_base.checked_add(stack_size) {
        Some(top) => top,
        None => {
            return None;
        },
    };
    assert(top & !0xfu64 == top / 16 * 16) by (bit_vector);
    Some((top & !0xfu64) - 8)
}

} // verus!
