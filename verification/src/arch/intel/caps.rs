//! What a processor must be able to do.

use vstd::prelude::*;

use super::control::{
    ControlCapabilities, ControlCapability, ControlField, VmxControls, ENABLE_EPT, ENABLE_INVPCID,
    ENABLE_RDTSCP, ENABLE_USER_WAIT_PAUSE, ENABLE_XSAVES_XRSTORS,
};
use crate::bits;
use crate::error::{ErrorCode, ErrorPhase, MonadError, MonadResult};
use crate::topology::CpuTopology;

verus! {

/// The registers that a feature query leaves.
#[derive(Debug, Clone, Copy, PartialEq, Eq, Structural)]
pub struct CpuidRegisters {
    pub eax: u32,
    pub ebx: u32,
    pub ecx: u32,
    pub edx: u32,
}

/// The name that the processor was given at reset, by its feature information.
pub fn current_initial_apic_id(leaf1: CpuidRegisters) -> (id: u32)
    ensures
        id == leaf1.ebx / 0x100_0000,
{
    let ebx: u32 = leaf1.ebx;
    proof {
        bits::lemma_short_word(ebx);
    }
    ebx >> 24
}

/// Whether the feature information tells of a hypervisor.
pub fn hypervisor_present(leaf1: CpuidRegisters) -> (present: bool)
    ensures
        present == (leaf1.ecx >= 0x8000_0000),
{
    let ecx: u32 = leaf1.ecx;
    proof {
        bits::lemma_short_word(ecx);
    }
    ecx & 0x8000_0000 != 0
}

pub const MAX_XSAVE_BYTES: usize = 0x1_0000;

pub const IA32_FEATURE_CONTROL: u32 = 0x3a;

pub const IA32_VMX_BASIC: u32 = 0x480;

pub const IA32_VMX_PINBASED_CTLS: u32 = 0x481;

pub const IA32_VMX_PROCBASED_CTLS: u32 = 0x482;

pub const IA32_VMX_EXIT_CTLS: u32 = 0x483;

pub const IA32_VMX_ENTRY_CTLS: u32 = 0x484;

pub const IA32_VMX_CR0_FIXED0: u32 = 0x486;

pub const IA32_VMX_CR0_FIXED1: u32 = 0x487;

pub const IA32_VMX_CR4_FIXED0: u32 = 0x488;

pub const IA32_VMX_CR4_FIXED1: u32 = 0x489;

pub const IA32_VMX_PROCBASED_CTLS2: u32 = 0x48b;

pub const IA32_VMX_EPT_VPID_CAP: u32 = 0x48c;

pub const IA32_VMX_TRUE_PINBASED_CTLS: u32 = 0x48d;

pub const IA32_VMX_TRUE_PROCBASED_CTLS: u32 = 0x48e;

pub const IA32_VMX_TRUE_EXIT_CTLS: u32 = 0x48f;

pub const IA32_VMX_TRUE_ENTRY_CTLS: u32 = 0x490;

pub const FEATURE_CONTROL_LOCK: u64 = 0x1;

pub const FEATURE_CONTROL_VMX_OUTSIDE_SMX: u64 = 0x4;

pub const VMX_BASIC_TRUE_CONTROLS: u64 = 0x80_0000_0000_0000;

pub const VMX_BASIC_MEMORY_TYPE_SHIFT: u32 = 50;

pub const MEMORY_TYPE_WRITE_BACK: u8 = 6;

pub const EPT_EXECUTE_ONLY: u64 = 0x1;

pub const EPT_WALK_LENGTH_4: u64 = 0x40;

pub const EPT_MEMORY_TYPE_WB: u64 = 0x4000;

pub const EPT_PAGE_2M: u64 = 0x1_0000;

pub const EPT_PAGE_1G: u64 = 0x2_0000;

pub const EPT_INVEPT: u64 = 0x10_0000;

pub const EPT_ACCESSED_DIRTY: u64 = 0x20_0000;

pub const EPT_INVEPT_SINGLE: u64 = 0x200_0000;

pub const EPT_INVEPT_ALL: u64 = 0x400_0000;

/// Something that a processor must be able to do.
#[derive(Debug, Clone, Copy, PartialEq, Eq, Structural)]
pub enum RequiredCapability {
    Vmx,
    FeatureControlLocked,
    VmxOutsideSmx,
    VmxRegionWriteBack,
    VmxRevision,
    Cr0FixedMasks,
    Cr4FixedMasks,
    Ept,
    EptFourLevel,
    EptWriteBack,
    EptPage2M,
    Invept,
    InveptSingle,
    InveptAll,
    EptPage1G,
    Xsave,
    Xsaves,
    XsaveLayout,
    PhysicalAddressWidth,
    ProcessorCount,
    ConsistentAcrossProcessors,
    RdtscpControl,
    InvpcidControl,
    XsavesControl,
    WaitpkgControl,
}

/// How many capabilities one processor is asked for.
pub const REQUIRED_CAPABILITIES: usize = 24;

impl RequiredCapability {
    pub open spec fn spec_code(self) -> u64 {
        match self {
            RequiredCapability::Vmx => 0,
            RequiredCapability::FeatureControlLocked => 1,
            RequiredCapability::VmxOutsideSmx => 2,
            RequiredCapability::VmxRegionWriteBack => 3,
            RequiredCapability::VmxRevision => 4,
            RequiredCapability::Cr0FixedMasks => 5,
            RequiredCapability::Cr4FixedMasks => 6,
            RequiredCapability::Ept => 7,
            RequiredCapability::EptFourLevel => 8,
            RequiredCapability::EptWriteBack => 9,
            RequiredCapability::EptPage2M => 10,
            RequiredCapability::Invept => 11,
            RequiredCapability::InveptSingle => 12,
            RequiredCapability::InveptAll => 13,
            RequiredCapability::EptPage1G => 14,
            RequiredCapability::Xsave => 15,
            RequiredCapability::Xsaves => 16,
            RequiredCapability::XsaveLayout => 17,
            RequiredCapability::PhysicalAddressWidth => 18,
            RequiredCapability::ProcessorCount => 19,
            RequiredCapability::ConsistentAcrossProcessors => 20,
            RequiredCapability::RdtscpControl => 21,
            RequiredCapability::InvpcidControl => 22,
            RequiredCapability::XsavesControl => 23,
            RequiredCapability::WaitpkgControl => 24,
        }
    }

    /// The number that stands for the capability in error details.
    #[verifier::when_used_as_spec(spec_code)]
    pub fn code(self) -> (code: u64)
        ensures
            code == self.spec_code(),
    {
        match self {
            RequiredCapability::Vmx => 0,
            RequiredCapability::FeatureControlLocked => 1,
            RequiredCapability::VmxOutsideSmx => 2,
            RequiredCapability::VmxRegionWriteBack => 3,
            RequiredCapability::VmxRevision => 4,
            RequiredCapability::Cr0FixedMasks => 5,
            RequiredCapability::Cr4FixedMasks => 6,
            RequiredCapability::Ept => 7,
            RequiredCapability::EptFourLevel => 8,
            RequiredCapability::EptWriteBack => 9,
            RequiredCapability::EptPage2M => 10,
            RequiredCapability::Invept => 11,
            RequiredCapability::InveptSingle => 12,
            RequiredCapability::InveptAll => 13,
            RequiredCapability::EptPage1G => 14,
            RequiredCapability::Xsave => 15,
            RequiredCapability::Xsaves => 16,
            RequiredCapability::XsaveLayout => 17,
            RequiredCapability::PhysicalAddressWidth => 18,
            RequiredCapability::ProcessorCount => 19,
            RequiredCapability::ConsistentAcrossProcessors => 20,
            RequiredCapability::RdtscpControl => 21,
            RequiredCapability::InvpcidControl => 22,
            RequiredCapability::XsavesControl => 23,
            RequiredCapability::WaitpkgControl => 24,
        }
    }

    /// The capabilities in the order in which one processor is asked for them.
    pub open spec fn spec_ordered(index: usize) -> RequiredCapability {
        match index {
            0 => RequiredCapability::Vmx,
            1 => RequiredCapability::FeatureControlLocked,
            2 => RequiredCapability::VmxOutsideSmx,
            3 => RequiredCapability::VmxRegionWriteBack,
            4 => RequiredCapability::VmxRevision,
            5 => RequiredCapability::Cr0FixedMasks,
            6 => RequiredCapability::Cr4FixedMasks,
            7 => RequiredCapability::Ept,
            8 => RequiredCapability::EptFourLevel,
            9 => RequiredCapability::EptWriteBack,
            10 => RequiredCapability::EptPage2M,
            11 => RequiredCapability::Invept,
            12 => RequiredCapability::InveptSingle,
            13 => RequiredCapability::InveptAll,
            14 => RequiredCapability::EptPage1G,
            15 => RequiredCapability::Xsave,
            16 => RequiredCapability::Xsaves,
            17 => RequiredCapability::XsaveLayout,
            18 => RequiredCapability::PhysicalAddressWidth,
            19 => RequiredCapability::ProcessorCount,
            20 => RequiredCapability::RdtscpControl,
            21 => RequiredCapability::InvpcidControl,
            22 => RequiredCapability::XsavesControl,
            _ => RequiredCapability::WaitpkgControl,
        }
    }

    /// The capabilities in the order in which one processor is asked for them.
    #[verifier::when_used_as_spec(spec_ordered)]
    pub fn ordered(index: usize) -> (capability: RequiredCapability)
        ensures
            capability == Self::spec_ordered(index),
    {
        match index {
            0 => RequiredCapability::Vmx,
            1 => RequiredCapability::FeatureControlLocked,
            2 => RequiredCapability::VmxOutsideSmx,
            3 => RequiredCapability::VmxRegionWriteBack,
            4 => RequiredCapability::VmxRevision,
            5 => RequiredCapability::Cr0FixedMasks,
            6 => RequiredCapability::Cr4FixedMasks,
            7 => RequiredCapability::Ept,
            8 => RequiredCapability::EptFourLevel,
            9 => RequiredCapability::EptWriteBack,
            10 => RequiredCapability::EptPage2M,
            11 => RequiredCapability::Invept,
            12 => RequiredCapability::InveptSingle,
            13 => RequiredCapability::InveptAll,
            14 => RequiredCapability::EptPage1G,
            15 => RequiredCapability::Xsave,
            16 => RequiredCapability::Xsaves,
            17 => RequiredCapability::XsaveLayout,
            18 => RequiredCapability::PhysicalAddressWidth,
            19 => RequiredCapability::ProcessorCount,
            20 => RequiredCapability::RdtscpControl,
            21 => RequiredCapability::InvpcidControl,
            22 => RequiredCapability::XsavesControl,
            _ => RequiredCapability::WaitpkgControl,
        }
    }
}

/// Instructions that the guest finds and must be able to use.
#[derive(Debug, Clone, Copy, PartialEq, Eq, Structural)]
pub struct GuestFeatureContract {
    pub rdtscp: bool,
    pub invpcid: bool,
    pub xsaves: bool,
    pub waitpkg: bool,
}

impl Default for GuestFeatureContract {
    fn default() -> (features: Self)
        ensures
            features == (GuestFeatureContract {
                rdtscp: false,
                invpcid: false,
                xsaves: false,
                waitpkg: false,
            }),
    {
        GuestFeatureContract { rdtscp: false, invpcid: false, xsaves: false, waitpkg: false }
    }
}

impl GuestFeatureContract {
    pub open spec fn spec_requested_secondary_controls(self) -> u32 {
        (if self.rdtscp {
            ENABLE_RDTSCP
        } else {
            0
        }) | (if self.invpcid {
            ENABLE_INVPCID
        } else {
            0
        }) | (if self.xsaves {
            ENABLE_XSAVES_XRSTORS
        } else {
            0
        }) | (if self.waitpkg {
            ENABLE_USER_WAIT_PAUSE
        } else {
            0
        })
    }

    /// The controls without which those instructions fault.
    #[verifier::when_used_as_spec(spec_requested_secondary_controls)]
    pub fn requested_secondary_controls(self) -> (controls: u32)
        ensures
            controls == self.spec_requested_secondary_controls(),
    {
        let rdtscp: u32 = if self.rdtscp {
            ENABLE_RDTSCP
        } else {
            0
        };
        let invpcid: u32 = if self.invpcid {
            ENABLE_INVPCID
        } else {
            0
        };
        let xsaves: u32 = if self.xsaves {
            ENABLE_XSAVES_XRSTORS
        } else {
            0
        };
        let waitpkg: u32 = if self.waitpkg {
            ENABLE_USER_WAIT_PAUSE
        } else {
            0
        };
        rdtscp | invpcid | xsaves | waitpkg
    }
}

/// One component of the extended state.
#[derive(Debug, Clone, Copy, PartialEq, Eq, Structural)]
pub struct XsaveComponent {
    pub size: u32,
    pub standard_offset: u32,
    pub supervisor: bool,
    pub align64: bool,
}

impl Default for XsaveComponent {
    fn default() -> (component: Self)
        ensures
            component == (XsaveComponent {
                size: 0,
                standard_offset: 0,
                supervisor: false,
                align64: false,
            }),
    {
        XsaveComponent { size: 0, standard_offset: 0, supervisor: false, align64: false }
    }
}

impl XsaveComponent {
    /// A component that there is not.
    pub open spec fn spec_absent() -> XsaveComponent {
        XsaveComponent { size: 0, standard_offset: 0, supervisor: false, align64: false }
    }

    pub open spec fn spec_from_cpuid(registers: CpuidRegisters) -> XsaveComponent {
        XsaveComponent {
            size: registers.eax,
            standard_offset: registers.ebx,
            supervisor: registers.ecx & 1 != 0,
            align64: registers.ecx & 2 != 0,
        }
    }

    /// The component that a feature query describes.
    #[verifier::when_used_as_spec(spec_from_cpuid)]
    pub fn from_cpuid(registers: CpuidRegisters) -> (component: Self)
        ensures
            component == Self::spec_from_cpuid(registers),
    {
        XsaveComponent {
            size: registers.eax,
            standard_offset: registers.ebx,
            supervisor: registers.ecx & 1 != 0,
            align64: registers.ecx & 2 != 0,
        }
    }
}

/// How the extended state is saved.
#[derive(Debug, Clone, Copy, PartialEq, Eq, Structural)]
pub struct XsaveLayout {
    pub xcr0_mask: u64,
    pub xss_mask: u64,
    pub state_mask: u64,
    pub xcomp_bv: u64,
    pub maximum_size: u32,
}

/// What a processor can do with extended page tables.
#[derive(Debug, Clone, Copy, PartialEq, Eq, Structural)]
pub struct EptCapabilities {
    pub four_level_walk: bool,
    pub write_back_walk: bool,
    pub page_2m: bool,
    pub page_1g: bool,
    pub invept: bool,
    pub invept_single: bool,
    pub invept_all: bool,
    pub execute_only: bool,
    pub accessed_dirty: bool,
}

/// What a processor says of itself.
#[derive(Clone, Copy)]
pub struct RawCapabilities {
    pub cpuid_1_ecx: u32,
    pub cpuid_7_0_ebx: u32,
    pub cpuid_7_0_ecx: u32,
    pub cpuid_80000001_edx: u32,
    pub cpuid_80000008_eax: u32,
    pub cpuid_d1_eax: u32,
    pub xcr0_supported: u64,
    pub xss_supported: u64,
    pub feature_control: u64,
    pub vmx_basic: u64,
    pub cr0_fixed0: u64,
    pub cr0_fixed1: u64,
    pub cr4_fixed0: u64,
    pub cr4_fixed1: u64,
    pub pinbased_controls: u64,
    pub primary_controls: u64,
    pub secondary_controls: u64,
    pub exit_controls: u64,
    pub entry_controls: u64,
    pub ept_vpid: u64,
    pub processor_count: u16,
    pub xsave_components: [XsaveComponent; 64],
}

impl Default for RawCapabilities {
    fn default() -> (raw: Self)
        ensures
            raw.cpuid_1_ecx == 0,
            raw.cpuid_7_0_ebx == 0,
            raw.cpuid_7_0_ecx == 0,
            raw.cpuid_80000001_edx == 0,
            raw.cpuid_80000008_eax == 0,
            raw.cpuid_d1_eax == 0,
            raw.xcr0_supported == 0,
            raw.xss_supported == 0,
            raw.feature_control == 0,
            raw.vmx_basic == 0,
            raw.cr0_fixed0 == 0,
            raw.cr0_fixed1 == 0,
            raw.cr4_fixed0 == 0,
            raw.cr4_fixed1 == 0,
            raw.pinbased_controls == 0,
            raw.primary_controls == 0,
            raw.secondary_controls == 0,
            raw.exit_controls == 0,
            raw.entry_controls == 0,
            raw.ept_vpid == 0,
            raw.processor_count == 0,
            forall|i: int|
                0 <= i < 64 ==> #[trigger] raw.xsave_components@[i] == (XsaveComponent {
                    size: 0,
                    standard_offset: 0,
                    supervisor: false,
                    align64: false,
                }),
    {
        let component = XsaveComponent {
            size: 0,
            standard_offset: 0,
            supervisor: false,
            align64: false,
        };
        RawCapabilities {
            cpuid_1_ecx: 0,
            cpuid_7_0_ebx: 0,
            cpuid_7_0_ecx: 0,
            cpuid_80000001_edx: 0,
            cpuid_80000008_eax: 0,
            cpuid_d1_eax: 0,
            xcr0_supported: 0,
            xss_supported: 0,
            feature_control: 0,
            vmx_basic: 0,
            cr0_fixed0: 0,
            cr0_fixed1: 0,
            cr4_fixed0: 0,
            cr4_fixed1: 0,
            pinbased_controls: 0,
            primary_controls: 0,
            secondary_controls: 0,
            exit_controls: 0,
            entry_controls: 0,
            ept_vpid: 0,
            processor_count: 0,
            xsave_components: [component;64],
        }
    }
}

/// What the hypervisor builds on.
#[derive(Debug, Clone, Copy, PartialEq, Eq, Structural)]
pub struct IntelCapabilities {
    pub vmx_revision_id: u32,
    pub max_physical_address_bits: u8,
    pub cr0_fixed0: u64,
    pub cr0_fixed1: u64,
    pub cr4_fixed0: u64,
    pub cr4_fixed1: u64,
    pub ept: EptCapabilities,
    pub control_capabilities: ControlCapabilities,
    pub controls: VmxControls,
    pub guest_features: GuestFeatureContract,
    pub xsave: XsaveLayout,
}

pub open spec fn spec_unsupported(detail: RequiredCapability) -> MonadError {
    MonadError::new(ErrorPhase::Capability, ErrorCode::UnsupportedCapability, detail.spec_code())
}

#[verifier::when_used_as_spec(spec_unsupported)]
fn unsupported(detail: RequiredCapability) -> (error: MonadError)
    ensures
        error == spec_unsupported(detail),
{
    MonadError::new(ErrorPhase::Capability, ErrorCode::UnsupportedCapability, detail.code())
}

impl RawCapabilities {
    pub open spec fn spec_component_mask(&self) -> u64 {
        self.xcr0_supported | self.xss_supported
    }

    /// The components of the extended state that there are.
    #[verifier::when_used_as_spec(spec_component_mask)]
    pub fn component_mask(&self) -> (mask: u64)
        ensures
            mask == self.spec_component_mask(),
    {
        self.xcr0_supported | self.xss_supported
    }

    pub open spec fn spec_guest_features(&self) -> GuestFeatureContract {
        GuestFeatureContract {
            rdtscp: self.cpuid_80000001_edx & 0x800_0000 != 0,
            invpcid: self.cpuid_7_0_ebx & 0x400 != 0,
            xsaves: self.cpuid_d1_eax & 0x8 != 0,
            waitpkg: self.cpuid_7_0_ecx & 0x20 != 0,
        }
    }

    /// Whether a secondary control can be had.
    pub open spec fn controllable(&self, control: u32) -> bool {
        ControlCapability::spec_from_msr(self.secondary_controls).adjusted(
            ControlField::SecondaryProcessorBased,
            control,
        ) is Ok
    }
}

fn guest_feature_contract(raw: &RawCapabilities) -> (features: GuestFeatureContract)
    ensures
        features == raw.spec_guest_features(),
{
    GuestFeatureContract {
        rdtscp: raw.cpuid_80000001_edx & 0x800_0000 != 0,
        invpcid: raw.cpuid_7_0_ebx & 0x400 != 0,
        xsaves: raw.cpuid_d1_eax & 0x8 != 0,
        waitpkg: raw.cpuid_7_0_ecx & 0x20 != 0,
    }
}

fn secondary_control_available(raw: &RawCapabilities, control: u32) -> (available: bool)
    ensures
        available == raw.controllable(control),
{
    ControlCapability::from_msr(raw.secondary_controls).adjust(
        ControlField::SecondaryProcessorBased,
        control,
    ).is_ok()
}

/// Whether a mask has a bit.
pub open spec fn has_bit(mask: u64, index: int) -> bool {
    mask & (1u64 << (index as u64)) != 0
}

/// A component with a size, on the side that lists it, inside the area where
/// the user's components lie.
pub open spec fn component_ok(raw: &RawCapabilities, index: int) -> bool {
    let component = raw.xsave_components@[index];
    &&& component.size != 0
    &&& component.supervisor == has_bit(raw.xss_supported, index)
    &&& !component.supervisor ==> component.standard_offset >= 576 && component.standard_offset
        + component.size <= MAX_XSAVE_BYTES
}

/// Whether two components of the user lie over each other.
pub open spec fn components_overlap(raw: &RawCapabilities, left: int, right: int) -> bool {
    let a = raw.xsave_components@[left];
    let b = raw.xsave_components@[right];
    &&& !a.supervisor
    &&& !b.supervisor
    &&& a.standard_offset < b.standard_offset + b.size
    &&& b.standard_offset < a.standard_offset + a.size
}

/// A multiple of 64, no smaller.
pub open spec fn round_up_64(value: int) -> int {
    (value + 63) / 64 * 64
}

/// Where the compacted components below an index end.
pub open spec fn compacted_end(raw: &RawCapabilities, index: int) -> int
    decreases index,
{
    if index <= 2 {
        576
    } else {
        let before = compacted_end(raw, index - 1);
        let component = raw.xsave_components@[index - 1];
        if !has_bit(raw.spec_component_mask(), index - 1) {
            before
        } else if component.align64 {
            round_up_64(before) + component.size
        } else {
            before + component.size
        }
    }
}

/// Whether the components below an index can be saved.
pub open spec fn components_ok(raw: &RawCapabilities, count: int) -> bool {
    let mask = raw.spec_component_mask();
    &&& forall|i: int|
        2 <= i < count && #[trigger] has_bit(mask, i) ==> component_ok(raw, i)
    &&& forall|i: int, j: int|
        2 <= i < j < count && #[trigger] has_bit(mask, i) && #[trigger] has_bit(mask, j)
            ==> !components_overlap(raw, j, i)
}

/// Whether the extended state can be saved: no component is on both sides,
/// the first two are the user's, and all of them fit.
pub open spec fn layout_ok(raw: &RawCapabilities) -> bool {
    &&& raw.xcr0_supported & raw.xss_supported == 0
    &&& raw.xss_supported & 0x3 == 0
    &&& !has_bit(raw.spec_component_mask(), 63)
    &&& components_ok(raw, 64)
    &&& compacted_end(raw, 64) <= MAX_XSAVE_BYTES
}

/// The layout of the extended state.
pub open spec fn layout(raw: &RawCapabilities) -> XsaveLayout {
    XsaveLayout {
        xcr0_mask: raw.xcr0_supported,
        xss_mask: raw.xss_supported,
        state_mask: raw.spec_component_mask(),
        xcomp_bv: raw.spec_component_mask() | 0x8000_0000_0000_0000,
        maximum_size: compacted_end(raw, 64) as u32,
    }
}

proof fn lemma_compacted_grows(raw: &RawCapabilities, low: int, high: int)
    requires
        low <= high,
    ensures
        compacted_end(raw, low) <= compacted_end(raw, high),
        compacted_end(raw, low) >= 576,
    decreases high,
{
    if low < high {
        if high > 2 {
            lemma_compacted_grows(raw, low, high - 1);
        }
    } else if low > 2 {
        lemma_compacted_grows(raw, low - 1, high - 1);
    }
}

proof fn lemma_round_up(value: u32)
    by (bit_vector)
    requires
        value <= 0x1_0000,
    ensures
        ((value + 63) as u32) & !63u32 == (value + 63) / 64 * 64,
{
}

fn align_up(value: u32, alignment: u32) -> (aligned: Option<u32>)
    requires
        alignment == 64,
        value <= MAX_XSAVE_BYTES,
    ensures
        aligned == Some(round_up_64(value as int) as u32),
        round_up_64(value as int) <= MAX_XSAVE_BYTES + 64,
{
    proof {
        lemma_round_up(value);
    }
    Some((value + 63) & !63u32)
}

/// Whether a component lies over an earlier one.
fn overlaps_earlier(raw: &RawCapabilities, index: usize) -> (overlaps: bool)
    requires
        2 <= index < 64,
        components_ok(raw, index as int),
        component_ok(raw, index as int),
        !raw.xsave_components@[index as int].supervisor,
    ensures
        overlaps == exists|i: int|
            2 <= i < index && has_bit(raw.spec_component_mask(), i) && #[trigger]
            components_overlap(raw, index as int, i),
{
    let mask: u64 = raw.component_mask();
    let component = raw.xsave_components[index];
    let end: u32 = component.standard_offset + component.size;
    let mut prior_index: usize = 2;
    while prior_index < index
        invariant
            2 <= prior_index <= index < 64,
            mask == raw.spec_component_mask(),
            component == raw.xsave_components@[index as int],
            !component.supervisor,
            end == component.standard_offset + component.size,
            components_ok(raw, index as int),
            forall|i: int|
                2 <= i < prior_index && has_bit(mask, i) ==> !#[trigger] components_overlap(
                    raw,
                    index as int,
                    i,
                ),
        decreases index - prior_index,
    {
        if mask & (1u64 << (prior_index as u64)) != 0 {
            let prior = raw.xsave_components[prior_index];
            assert(has_bit(mask, prior_index as int));
            assert(component_ok(raw, prior_index as int));
            if !prior.supervisor {
                let prior_end: u32 = prior.standard_offset + prior.size;
                if component.standard_offset < prior_end && prior.standard_offset < end {
                    assert(components_overlap(raw, index as int, prior_index as int));
                    return true;
                }
            }
        } else {
            assert(!has_bit(mask, prior_index as int));
        }
        prior_index = prior_index + 1;
    }
    false
}

/// Lays out the extended state, as far as it can be saved.
pub fn calculate_xsave_layout(raw: &RawCapabilities) -> (result: MonadResult<XsaveLayout>)
    ensures
        result == if layout_ok(raw) {
            Ok::<XsaveLayout, MonadError>(layout(raw))
        } else {
            Err(spec_unsupported(RequiredCapability::XsaveLayout))
        },
{
    if raw.xcr0_supported & raw.xss_supported != 0 || raw.xss_supported & 0x3 != 0 {
        return Err(unsupported(RequiredCapability::XsaveLayout));
    }
    let mask: u64 = raw.component_mask();
    proof {
        bits::lemma_word(mask);
    }
    if mask & 0x8000_0000_0000_0000 != 0 {
        return Err(unsupported(RequiredCapability::XsaveLayout));
    }
    let mut end: u32 = 576;
    let mut index: usize = 2;
    while index < 64
        invariant
            2 <= index <= 64,
            mask == raw.spec_component_mask(),
            components_ok(raw, index as int),
            end == compacted_end(raw, index as int),
            end <= MAX_XSAVE_BYTES,
        decreases 64 - index,
    {
        proof {
            lemma_compacted_grows(raw, index as int + 1, 64);
        }
        if mask & (1u64 << (index as u64)) != 0 {
            assert(has_bit(mask, index as int));
            let component = raw.xsave_components[index];
            if component.size == 0 || component.supervisor != (raw.xss_supported & (1u64 << (
            index as u64)) != 0) {
                assert(!component_ok(raw, index as int));
                return Err(unsupported(RequiredCapability::XsaveLayout));
            }
            if !component.supervisor {
                let standard_end = match component.standard_offset.checked_add(component.size) {
                    Some(value) => value,
                    None => {
                        assert(!component_ok(raw, index as int));
                        return Err(unsupported(RequiredCapability::XsaveLayout));
                    },
                };
                if component.standard_offset < 576 || standard_end as usize > MAX_XSAVE_BYTES {
                    assert(!component_ok(raw, index as int));
                    return Err(unsupported(RequiredCapability::XsaveLayout));
                }
                if overlaps_earlier(raw, index) {
                    proof {
                        let i = choose|i: int|
                            2 <= i < index && has_bit(raw.spec_component_mask(), i) && #[trigger]
                            components_overlap(raw, index as int, i);
                        assert(has_bit(mask, i) && has_bit(mask, index as int));
                    }
                    return Err(unsupported(RequiredCapability::XsaveLayout));
                }
            }
            let ghost start = end;
            if component.align64 {
                match align_up(end, 64) {
                    Some(aligned) => {
                        end = aligned;
                    },
                    None => {
                        return Err(unsupported(RequiredCapability::XsaveLayout));
                    },
                }
            }
            assert(end + component.size == compacted_end(raw, index as int + 1));
            match end.checked_add(component.size) {
                Some(sum) => {
                    end = sum;
                },
                None => {
                    return Err(unsupported(RequiredCapability::XsaveLayout));
                },
            }
            if end as usize > MAX_XSAVE_BYTES {
                return Err(unsupported(RequiredCapability::XsaveLayout));
            }
        } else {
            assert(!has_bit(mask, index as int));
        }
        index = index + 1;
    }
    Ok(
        XsaveLayout {
            xcr0_mask: raw.xcr0_supported,
            xss_mask: raw.xss_supported,
            state_mask: mask,
            xcomp_bv: mask | 0x8000_0000_0000_0000,
            maximum_size: end,
        },
    )
}

/// Whether a processor has a capability.
pub open spec fn spec_has(raw: &RawCapabilities, capability: RequiredCapability) -> bool {
    match capability {
        RequiredCapability::Vmx => raw.cpuid_1_ecx & 0x20 != 0,
        RequiredCapability::FeatureControlLocked => raw.feature_control & FEATURE_CONTROL_LOCK != 0,
        RequiredCapability::VmxOutsideSmx => raw.feature_control & FEATURE_CONTROL_VMX_OUTSIDE_SMX
            != 0,
        RequiredCapability::VmxRegionWriteBack => (raw.vmx_basic >> 50) & 0xf == 6,
        RequiredCapability::VmxRevision => raw.vmx_basic & 0x7fff_ffff != 0,
        RequiredCapability::Cr0FixedMasks => raw.cr0_fixed0 & !raw.cr0_fixed1 == 0,
        RequiredCapability::Cr4FixedMasks => raw.cr4_fixed0 & !raw.cr4_fixed1 == 0,
        RequiredCapability::Ept => raw.controllable(ENABLE_EPT),
        RequiredCapability::EptFourLevel => raw.ept_vpid & EPT_WALK_LENGTH_4 != 0,
        RequiredCapability::EptWriteBack => raw.ept_vpid & EPT_MEMORY_TYPE_WB != 0,
        RequiredCapability::EptPage2M => raw.ept_vpid & EPT_PAGE_2M != 0,
        RequiredCapability::Invept => raw.ept_vpid & EPT_INVEPT != 0,
        RequiredCapability::InveptSingle => raw.ept_vpid & EPT_INVEPT_SINGLE != 0,
        RequiredCapability::InveptAll => raw.ept_vpid & EPT_INVEPT_ALL != 0,
        RequiredCapability::EptPage1G => raw.ept_vpid & EPT_PAGE_1G != 0,
        RequiredCapability::Xsave => raw.cpuid_1_ecx & 0x400_0000 != 0 && raw.xcr0_supported & 0x3
            == 0x3,
        RequiredCapability::Xsaves => raw.cpuid_d1_eax & 0x8 != 0,
        RequiredCapability::XsaveLayout => layout_ok(raw),
        RequiredCapability::PhysicalAddressWidth => 1 <= raw.cpuid_80000008_eax & 0xff <= 48,
        RequiredCapability::ProcessorCount => 1 <= raw.processor_count <= 256,
        RequiredCapability::ConsistentAcrossProcessors => true,
        RequiredCapability::RdtscpControl => raw.spec_guest_features().rdtscp
            ==> raw.controllable(ENABLE_RDTSCP),
        RequiredCapability::InvpcidControl => raw.spec_guest_features().invpcid
            ==> raw.controllable(ENABLE_INVPCID),
        RequiredCapability::XsavesControl => raw.spec_guest_features().xsaves
            ==> raw.controllable(ENABLE_XSAVES_XRSTORS),
        RequiredCapability::WaitpkgControl => raw.spec_guest_features().waitpkg
            ==> raw.controllable(ENABLE_USER_WAIT_PAUSE),
    }
}

fn has(raw: &RawCapabilities, capability: RequiredCapability) -> (present: bool)
    ensures
        present == spec_has(raw, capability),
{
    match capability {
        RequiredCapability::Vmx => raw.cpuid_1_ecx & 0x20 != 0,
        RequiredCapability::FeatureControlLocked => raw.feature_control & FEATURE_CONTROL_LOCK != 0,
        RequiredCapability::VmxOutsideSmx => raw.feature_control & FEATURE_CONTROL_VMX_OUTSIDE_SMX
            != 0,
        RequiredCapability::VmxRegionWriteBack => (raw.vmx_basic >> VMX_BASIC_MEMORY_TYPE_SHIFT)
            & 0xf == MEMORY_TYPE_WRITE_BACK as u64,
        RequiredCapability::VmxRevision => raw.vmx_basic & 0x7fff_ffff != 0,
        RequiredCapability::Cr0FixedMasks => raw.cr0_fixed0 & !raw.cr0_fixed1 == 0,
        RequiredCapability::Cr4FixedMasks => raw.cr4_fixed0 & !raw.cr4_fixed1 == 0,
        RequiredCapability::Ept => secondary_control_available(raw, ENABLE_EPT),
        RequiredCapability::EptFourLevel => raw.ept_vpid & EPT_WALK_LENGTH_4 != 0,
        RequiredCapability::EptWriteBack => raw.ept_vpid & EPT_MEMORY_TYPE_WB != 0,
        RequiredCapability::EptPage2M => raw.ept_vpid & EPT_PAGE_2M != 0,
        RequiredCapability::Invept => raw.ept_vpid & EPT_INVEPT != 0,
        RequiredCapability::InveptSingle => raw.ept_vpid & EPT_INVEPT_SINGLE != 0,
        RequiredCapability::InveptAll => raw.ept_vpid & EPT_INVEPT_ALL != 0,
        RequiredCapability::EptPage1G => raw.ept_vpid & EPT_PAGE_1G != 0,
        RequiredCapability::Xsave => raw.cpuid_1_ecx & 0x400_0000 != 0 && raw.xcr0_supported & 0x3
            == 0x3,
        RequiredCapability::Xsaves => raw.cpuid_d1_eax & 0x8 != 0,
        RequiredCapability::XsaveLayout => calculate_xsave_layout(raw).is_ok(),
        RequiredCapability::PhysicalAddressWidth => {
            let width: u32 = raw.cpuid_80000008_eax & 0xff;
            1 <= width && width <= 48
        },
        RequiredCapability::ProcessorCount => 1 <= raw.processor_count && raw.processor_count
            <= 256,
        RequiredCapability::ConsistentAcrossProcessors => true,
        RequiredCapability::RdtscpControl => !guest_feature_contract(raw).rdtscp
            || secondary_control_available(raw, ENABLE_RDTSCP),
        RequiredCapability::InvpcidControl => !guest_feature_contract(raw).invpcid
            || secondary_control_available(raw, ENABLE_INVPCID),
        RequiredCapability::XsavesControl => !guest_feature_contract(raw).xsaves
            || secondary_control_available(raw, ENABLE_XSAVES_XRSTORS),
        RequiredCapability::WaitpkgControl => !guest_feature_contract(raw).waitpkg
            || secondary_control_available(raw, ENABLE_USER_WAIT_PAUSE),
    }
}

/// The first capability from an index on that a processor lacks.
pub open spec fn first_missing(raw: &RawCapabilities, index: nat) -> Option<RequiredCapability>
    decreases REQUIRED_CAPABILITIES - index,
{
    if index >= REQUIRED_CAPABILITIES {
        None
    } else if !spec_has(raw, RequiredCapability::spec_ordered(index as usize)) {
        Some(RequiredCapability::spec_ordered(index as usize))
    } else {
        first_missing(raw, index + 1)
    }
}

/// The error for a capability that a processor lacks. A width or a count that
/// is too large is told apart.
pub open spec fn missing_error(raw: &RawCapabilities, missing: RequiredCapability) -> MonadError {
    if missing == RequiredCapability::PhysicalAddressWidth && raw.cpuid_80000008_eax & 0xff > 48 {
        MonadError::new(
            ErrorPhase::Capability,
            ErrorCode::PhysicalAddressTooWide,
            (raw.cpuid_80000008_eax & 0xff) as u64,
        )
    } else if missing == RequiredCapability::ProcessorCount && raw.processor_count > 256 {
        MonadError::new(
            ErrorPhase::Capability,
            ErrorCode::TooManyProcessors,
            raw.processor_count as u64,
        )
    } else {
        spec_unsupported(missing)
    }
}

impl RawCapabilities {
    /// What the capability registers say of the controls.
    pub open spec fn control_capabilities(&self) -> ControlCapabilities {
        ControlCapabilities {
            pinbased: ControlCapability::spec_from_msr(self.pinbased_controls),
            primary: ControlCapability::spec_from_msr(self.primary_controls),
            secondary: ControlCapability::spec_from_msr(self.secondary_controls),
            vmexit: ControlCapability::spec_from_msr(self.exit_controls),
            vmentry: ControlCapability::spec_from_msr(self.entry_controls),
        }
    }

    /// The controls that the processor grants.
    pub open spec fn granted(&self) -> MonadResult<VmxControls> {
        self.control_capabilities().controls(
            self.spec_guest_features().spec_requested_secondary_controls(),
        )
    }

    /// What the hypervisor builds on, of a processor that has all it needs.
    pub open spec fn described(&self) -> IntelCapabilities {
        IntelCapabilities {
            vmx_revision_id: (self.vmx_basic & 0x7fff_ffff) as u32,
            max_physical_address_bits: (self.cpuid_80000008_eax & 0xff) as u8,
            cr0_fixed0: self.cr0_fixed0,
            cr0_fixed1: self.cr0_fixed1,
            cr4_fixed0: self.cr4_fixed0,
            cr4_fixed1: self.cr4_fixed1,
            ept: EptCapabilities {
                four_level_walk: self.ept_vpid & EPT_WALK_LENGTH_4 != 0,
                write_back_walk: self.ept_vpid & EPT_MEMORY_TYPE_WB != 0,
                page_2m: self.ept_vpid & EPT_PAGE_2M != 0,
                page_1g: self.ept_vpid & EPT_PAGE_1G != 0,
                invept: self.ept_vpid & EPT_INVEPT != 0,
                invept_single: self.ept_vpid & EPT_INVEPT_SINGLE != 0,
                invept_all: self.ept_vpid & EPT_INVEPT_ALL != 0,
                execute_only: self.ept_vpid & EPT_EXECUTE_ONLY != 0,
                accessed_dirty: self.ept_vpid & EPT_ACCESSED_DIRTY != 0,
            },
            control_capabilities: self.control_capabilities(),
            controls: self.granted().unwrap(),
            guest_features: self.spec_guest_features(),
            xsave: layout(self),
        }
    }

    /// Whether the processor will do.
    pub open spec fn assessed(&self) -> MonadResult<IntelCapabilities> {
        if self.cpuid_1_ecx & 0x8000_0000 != 0 {
            Err(MonadError::new(ErrorPhase::Capability, ErrorCode::CompetingHypervisor, 1))
        } else {
            match first_missing(self, 0) {
                Some(missing) => Err(missing_error(self, missing)),
                None => match self.granted() {
                    Ok(_) => Ok(self.described()),
                    Err(error) => Err(error),
                },
            }
        }
    }
}

proof fn lemma_first_missing(raw: &RawCapabilities, index: nat, from: nat)
    requires
        index <= from < REQUIRED_CAPABILITIES,
        first_missing(raw, index) is None,
    ensures
        spec_has(raw, RequiredCapability::spec_ordered(from as usize)),
    decreases from - index,
{
    if index < from {
        lemma_first_missing(raw, index + 1, from);
    }
}

/// Holds a processor against what the hypervisor needs.
pub fn validate_required_capabilities(raw: &RawCapabilities) -> (result: MonadResult<
    IntelCapabilities,
>)
    ensures
        result == raw.assessed(),
{
    if raw.cpuid_1_ecx & 0x8000_0000 != 0 {
        return Err(MonadError::new(ErrorPhase::Capability, ErrorCode::CompetingHypervisor, 1));
    }
    let mut index: usize = 0;
    while index < REQUIRED_CAPABILITIES
        invariant
            index <= REQUIRED_CAPABILITIES,
            raw.cpuid_1_ecx & 0x8000_0000 == 0,
            first_missing(raw, 0) == first_missing(raw, index as nat),
        decreases REQUIRED_CAPABILITIES - index,
    {
        let capability = RequiredCapability::ordered(index);
        let present: bool = has(raw, capability);
        if !present {
            assert(first_missing(raw, index as nat) == Some(capability));
            let width: u32 = raw.cpuid_80000008_eax & 0xff;
            if capability == RequiredCapability::PhysicalAddressWidth && width > 48 {
                return Err(
                    MonadError::new(
                        ErrorPhase::Capability,
                        ErrorCode::PhysicalAddressTooWide,
                        width as u64,
                    ),
                );
            }
            if capability == RequiredCapability::ProcessorCount && raw.processor_count > 256 {
                return Err(
                    MonadError::new(
                        ErrorPhase::Capability,
                        ErrorCode::TooManyProcessors,
                        raw.processor_count as u64,
                    ),
                );
            }
            return Err(unsupported(capability));
        }
        index = index + 1;
    }
    proof {
        lemma_first_missing(raw, 0, 17);
        lemma_masked(raw.vmx_basic, raw.cpuid_80000008_eax);
    }
    let control_capabilities = ControlCapabilities {
        pinbased: ControlCapability::from_msr(raw.pinbased_controls),
        primary: ControlCapability::from_msr(raw.primary_controls),
        secondary: ControlCapability::from_msr(raw.secondary_controls),
        vmexit: ControlCapability::from_msr(raw.exit_controls),
        vmentry: ControlCapability::from_msr(raw.entry_controls),
    };
    let guest_features = guest_feature_contract(raw);
    let controls = control_capabilities.controls_for(
        guest_features.requested_secondary_controls(),
    )?;
    let xsave = calculate_xsave_layout(raw)?;
    Ok(
        IntelCapabilities {
            vmx_revision_id: (raw.vmx_basic & 0x7fff_ffff) as u32,
            max_physical_address_bits: (raw.cpuid_80000008_eax & 0xff) as u8,
            cr0_fixed0: raw.cr0_fixed0,
            cr0_fixed1: raw.cr0_fixed1,
            cr4_fixed0: raw.cr4_fixed0,
            cr4_fixed1: raw.cr4_fixed1,
            ept: EptCapabilities {
                four_level_walk: raw.ept_vpid & EPT_WALK_LENGTH_4 != 0,
                write_back_walk: raw.ept_vpid & EPT_MEMORY_TYPE_WB != 0,
                page_2m: raw.ept_vpid & EPT_PAGE_2M != 0,
                page_1g: raw.ept_vpid & EPT_PAGE_1G != 0,
                invept: raw.ept_vpid & EPT_INVEPT != 0,
                invept_single: raw.ept_vpid & EPT_INVEPT_SINGLE != 0,
                invept_all: raw.ept_vpid & EPT_INVEPT_ALL != 0,
                execute_only: raw.ept_vpid & EPT_EXECUTE_ONLY != 0,
                accessed_dirty: raw.ept_vpid & EPT_ACCESSED_DIRTY != 0,
            },
            control_capabilities,
            controls,
            guest_features,
            xsave,
        },
    )
}

proof fn lemma_masked(basic: u64, width: u32)
    ensures
        basic & 0x7fff_ffff <= 0x7fff_ffff,
        width & 0xff <= 0xff,
{
    bits::lemma_word(basic);
    bits::lemma_short_word(width);
}

/// The registers that describe four of the control words, by whether the
/// processor has the exact ones.
#[derive(Debug, Clone, Copy, PartialEq, Eq, Structural)]
pub struct ControlRegisters {
    pub pinbased: u32,
    pub primary: u32,
    pub exit: u32,
    pub entry: u32,
}

/// The registers that describe the control words.
pub open spec fn spec_control_registers(vmx_basic: u64) -> ControlRegisters {
    if vmx_basic & VMX_BASIC_TRUE_CONTROLS != 0 {
        ControlRegisters {
            pinbased: IA32_VMX_TRUE_PINBASED_CTLS,
            primary: IA32_VMX_TRUE_PROCBASED_CTLS,
            exit: IA32_VMX_TRUE_EXIT_CTLS,
            entry: IA32_VMX_TRUE_ENTRY_CTLS,
        }
    } else {
        ControlRegisters {
            pinbased: IA32_VMX_PINBASED_CTLS,
            primary: IA32_VMX_PROCBASED_CTLS,
            exit: IA32_VMX_EXIT_CTLS,
            entry: IA32_VMX_ENTRY_CTLS,
        }
    }
}

/// The registers that describe the control words.
#[verifier::when_used_as_spec(spec_control_registers)]
pub fn control_registers(vmx_basic: u64) -> (registers: ControlRegisters)
    ensures
        registers == spec_control_registers(vmx_basic),
{
    if vmx_basic & VMX_BASIC_TRUE_CONTROLS != 0 {
        ControlRegisters {
            pinbased: IA32_VMX_TRUE_PINBASED_CTLS,
            primary: IA32_VMX_TRUE_PROCBASED_CTLS,
            exit: IA32_VMX_TRUE_EXIT_CTLS,
            entry: IA32_VMX_TRUE_ENTRY_CTLS,
        }
    } else {
        ControlRegisters {
            pinbased: IA32_VMX_PINBASED_CTLS,
            primary: IA32_VMX_PROCBASED_CTLS,
            exit: IA32_VMX_EXIT_CTLS,
            entry: IA32_VMX_ENTRY_CTLS,
        }
    }
}

/// Why a processor is not asked for more, if it is not.
pub open spec fn processor_refusal(leaf1: CpuidRegisters, cpu_dense_index: u16) -> Option<
    MonadError,
> {
    if leaf1.ecx & 0x8000_0000 != 0 {
        Some(
            MonadError {
                cpu_dense_index,
                ..MonadError::new(ErrorPhase::Capability, ErrorCode::CompetingHypervisor, 1)
            },
        )
    } else if leaf1.ecx & 0x20 == 0 {
        Some(MonadError { cpu_dense_index, ..spec_unsupported(RequiredCapability::Vmx) })
    } else {
        None
    }
}

/// Whether a processor may be asked for more: no hypervisor is under this one,
/// and there is VMX.
pub fn admit_processor(leaf1: CpuidRegisters, cpu_dense_index: u16) -> (result: MonadResult<()>)
    ensures
        result == match processor_refusal(leaf1, cpu_dense_index) {
            Some(error) => Err::<(), MonadError>(error),
            None => Ok(()),
        },
{
    if leaf1.ecx & 0x8000_0000 != 0 {
        return Err(
            MonadError::new(ErrorPhase::Capability, ErrorCode::CompetingHypervisor, 1).on_cpu(
                cpu_dense_index,
            ),
        );
    }
    if leaf1.ecx & 0x20 == 0 {
        return Err(unsupported(RequiredCapability::Vmx).on_cpu(cpu_dense_index));
    }
    Ok(())
}

/// Capabilities are read at the lowest level only, where code can be moved from
/// processor to processor.
pub fn require_passive(irql: u8) -> (result: MonadResult<()>)
    ensures
        result == if irql == 0 {
            Ok::<(), MonadError>(())
        } else {
            Err(MonadError::new(ErrorPhase::Capability, ErrorCode::InvalidLifecycleState, 0))
        },
{
    if irql != 0 {
        return Err(MonadError::new(ErrorPhase::Capability, ErrorCode::InvalidLifecycleState, 0));
    }
    Ok(())
}

/// A mask that a feature query leaves in two registers.
pub open spec fn spec_cpuid_mask(low: u32, high: u32) -> u64 {
    low as u64 | ((high as u64) << 32)
}

/// A mask that a feature query leaves in two registers.
#[verifier::when_used_as_spec(spec_cpuid_mask)]
pub fn cpuid_mask(low: u32, high: u32) -> (mask: u64)
    ensures
        mask == spec_cpuid_mask(low, high),
{
    low as u64 | ((high as u64) << 32)
}

/// What a processor answers to the feature queries.
pub struct FeatureAnswers {
    pub leaf1: CpuidRegisters,
    pub leaf7: CpuidRegisters,
    pub leaf_d0: CpuidRegisters,
    pub leaf_d1: CpuidRegisters,
    pub extended_features: CpuidRegisters,
    pub extended_width: CpuidRegisters,
}

/// The answers came from the processor.
pub open spec fn answered<C: Fn(u32, u32) -> CpuidRegisters>(
    query: C,
    answers: FeatureAnswers,
) -> bool {
    &&& call_ensures(query, (1u32, 0u32), answers.leaf1)
    &&& call_ensures(query, (7u32, 0u32), answers.leaf7)
    &&& call_ensures(query, (0xdu32, 0u32), answers.leaf_d0)
    &&& call_ensures(query, (0xdu32, 1u32), answers.leaf_d1)
    &&& call_ensures(query, (0x8000_0001u32, 0u32), answers.extended_features)
    &&& call_ensures(query, (0x8000_0008u32, 0u32), answers.extended_width)
}

/// The description holds what the queries answered.
pub open spec fn tells_features(
    raw: RawCapabilities,
    answers: FeatureAnswers,
    processor_count: u16,
) -> bool {
    &&& raw.cpuid_1_ecx == answers.leaf1.ecx
    &&& raw.cpuid_7_0_ebx == answers.leaf7.ebx
    &&& raw.cpuid_7_0_ecx == answers.leaf7.ecx
    &&& raw.cpuid_80000001_edx == answers.extended_features.edx
    &&& raw.cpuid_80000008_eax == answers.extended_width.eax
    &&& raw.cpuid_d1_eax == answers.leaf_d1.eax
    &&& raw.xcr0_supported == spec_cpuid_mask(answers.leaf_d0.eax, answers.leaf_d0.edx)
    &&& raw.xss_supported == spec_cpuid_mask(answers.leaf_d1.ecx, answers.leaf_d1.edx)
    &&& raw.processor_count == processor_count
}

/// The description holds what was read from the capability registers.
pub open spec fn tells_registers<M: Fn(u32) -> u64>(raw: RawCapabilities, read: M) -> bool {
    let controls = spec_control_registers(raw.vmx_basic);
    &&& call_ensures(read, (IA32_FEATURE_CONTROL,), raw.feature_control)
    &&& call_ensures(read, (IA32_VMX_BASIC,), raw.vmx_basic)
    &&& call_ensures(read, (IA32_VMX_CR0_FIXED0,), raw.cr0_fixed0)
    &&& call_ensures(read, (IA32_VMX_CR0_FIXED1,), raw.cr0_fixed1)
    &&& call_ensures(read, (IA32_VMX_CR4_FIXED0,), raw.cr4_fixed0)
    &&& call_ensures(read, (IA32_VMX_CR4_FIXED1,), raw.cr4_fixed1)
    &&& call_ensures(read, (controls.pinbased,), raw.pinbased_controls)
    &&& call_ensures(read, (controls.primary,), raw.primary_controls)
    &&& call_ensures(read, (IA32_VMX_PROCBASED_CTLS2,), raw.secondary_controls)
    &&& call_ensures(read, (controls.exit,), raw.exit_controls)
    &&& call_ensures(read, (controls.entry,), raw.entry_controls)
    &&& call_ensures(read, (IA32_VMX_EPT_VPID_CAP,), raw.ept_vpid)
}

/// A component of the extended state is described where there is one, by what
/// the processor answers for it.
pub open spec fn tells_component<C: Fn(u32, u32) -> CpuidRegisters>(
    raw: RawCapabilities,
    query: C,
    index: int,
) -> bool {
    if index >= 2 && raw.spec_component_mask() & (1u64 << (index as u64)) != 0 {
        exists|answer: CpuidRegisters|
            {
                &&& #[trigger] call_ensures(query, (0xdu32, index as u32), answer)
                &&& raw.xsave_components@[index] == XsaveComponent::spec_from_cpuid(answer)
            }
    } else {
        raw.xsave_components@[index] == XsaveComponent::spec_absent()
    }
}

/// Reads what one processor can do, through its feature queries and its
/// registers. A processor under another hypervisor, or without VMX, is asked for
/// nothing more.
pub fn collect_processor_capabilities<
    C: Fn(u32, u32) -> CpuidRegisters,
    M: Fn(u32) -> u64,
>(query: C, read: M, processor_count: u16, cpu_dense_index: u16) -> (result: MonadResult<
    RawCapabilities,
>)
    requires
        forall|leaf: u32, subleaf: u32| call_requires(query, (leaf, subleaf)),
        forall|register: u32| call_requires(read, (register,)),
    ensures
        match result {
            Err(error) => exists|leaf1: CpuidRegisters|
                {
                    &&& #[trigger] call_ensures(query, (1u32, 0u32), leaf1)
                    &&& processor_refusal(leaf1, cpu_dense_index) == Some(error)
                },
            Ok(raw) => {
                &&& exists|answers: FeatureAnswers|
                    {
                        &&& #[trigger] tells_features(raw, answers, processor_count)
                        &&& answered(query, answers)
                        &&& processor_refusal(answers.leaf1, cpu_dense_index) is None
                    }
                &&& tells_registers(raw, read)
                &&& forall|index: int| 0 <= index < 64 ==> #[trigger] tells_component(raw, query, index)
            },
        },
{
    let leaf1 = query(1, 0);
    if let Err(error) = admit_processor(leaf1, cpu_dense_index) {
        assert(call_ensures(query, (1u32, 0u32), leaf1));
        return Err(error);
    }
    let extended_width = query(0x8000_0008, 0);
    let extended_features = query(0x8000_0001, 0);
    let leaf7 = query(7, 0);
    let leaf_d0 = query(0xd, 0);
    let leaf_d1 = query(0xd, 1);
    let ghost answers = FeatureAnswers {
        leaf1,
        leaf7,
        leaf_d0,
        leaf_d1,
        extended_features,
        extended_width,
    };
    let vmx_basic: u64 = read(IA32_VMX_BASIC);
    let controls = control_registers(vmx_basic);
    let mut raw = RawCapabilities {
        cpuid_1_ecx: leaf1.ecx,
        cpuid_7_0_ebx: leaf7.ebx,
        cpuid_7_0_ecx: leaf7.ecx,
        cpuid_80000001_edx: extended_features.edx,
        cpuid_80000008_eax: extended_width.eax,
        cpuid_d1_eax: leaf_d1.eax,
        xcr0_supported: cpuid_mask(leaf_d0.eax, leaf_d0.edx),
        xss_supported: cpuid_mask(leaf_d1.ecx, leaf_d1.edx),
        feature_control: read(IA32_FEATURE_CONTROL),
        vmx_basic,
        cr0_fixed0: read(IA32_VMX_CR0_FIXED0),
        cr0_fixed1: read(IA32_VMX_CR0_FIXED1),
        cr4_fixed0: read(IA32_VMX_CR4_FIXED0),
        cr4_fixed1: read(IA32_VMX_CR4_FIXED1),
        pinbased_controls: read(controls.pinbased),
        primary_controls: read(controls.primary),
        secondary_controls: read(IA32_VMX_PROCBASED_CTLS2),
        exit_controls: read(controls.exit),
        entry_controls: read(controls.entry),
        ept_vpid: read(IA32_VMX_EPT_VPID_CAP),
        processor_count,
        xsave_components: [XsaveComponent::default();64],
    };
    let ghost blank = raw;
    let supported: u64 = raw.component_mask();
    let mut index: u32 = 2;
    while index < 64
        invariant
            2 <= index <= 64,
            supported == raw.spec_component_mask(),
            forall|leaf: u32, subleaf: u32| call_requires(query, (leaf, subleaf)),
            raw == (RawCapabilities { xsave_components: raw.xsave_components, ..blank }),
            forall|k: int| 0 <= k < index ==> #[trigger] tells_component(raw, query, k),
            forall|k: int|
                index <= k < 64 ==> #[trigger] raw.xsave_components@[k]
                    == XsaveComponent::spec_absent(),
        decreases 64 - index,
    {
        let ghost before = raw;
        if supported & (1u64 << (index as u64)) != 0 {
            let answer = query(0xd, index);
            raw.xsave_components[index as usize] = XsaveComponent::from_cpuid(answer);
            assert(call_ensures(query, (0xdu32, index), answer));
        }
        assert forall|k: int| 0 <= k < index + 1 implies #[trigger] tells_component(
            raw,
            query,
            k,
        ) by {
            if k < index {
                assert(tells_component(before, query, k));
                assert(raw.xsave_components@[k] == before.xsave_components@[k]);
            }
        }
        index = index + 1;
    }
    assert(answered(query, answers));
    assert(tells_features(raw, answers, processor_count));
    assert(tells_registers(raw, read));
    assert(processor_refusal(answers.leaf1, cpu_dense_index) is None);
    Ok(raw)
}

/// The next processor's capabilities must be those of the first.
pub fn accumulate_processor_capabilities(
    platform: &mut Option<IntelCapabilities>,
    capabilities: IntelCapabilities,
    cpu_dense_index: u16,
) -> (result: MonadResult<()>)
    ensures
        match *old(platform) {
            None => {
                &&& *final(platform) == Some(capabilities)
                &&& result == Ok::<(), MonadError>(())
            },
            Some(expected) => {
                &&& *final(platform) == *old(platform)
                &&& result == if capabilities == expected {
                    Ok::<(), MonadError>(())
                } else {
                    Err(
                        MonadError {
                            cpu_dense_index,
                            ..spec_unsupported(RequiredCapability::ConsistentAcrossProcessors)
                        },
                    )
                }
            },
        },
{
    match *platform {
        Some(expected) => {
            if capabilities != expected {
                return Err(
                    unsupported(RequiredCapability::ConsistentAcrossProcessors).on_cpu(
                        cpu_dense_index,
                    ),
                );
            }
        },
        None => {
            *platform = Some(capabilities);
        },
    }
    Ok(())
}

/// Leave to turn VMX on. Only a platform that was held against the needs of the
/// hypervisor has one.
#[derive(Clone, Copy)]
pub struct VmxonPermit {
    granted: (),
}

/// A platform on which the hypervisor can run.
pub struct ValidatedPlatform {
    capabilities: IntelCapabilities,
    topology: CpuTopology,
    permit: VmxonPermit,
}

/// The first processor from an index on that will not do, and why.
pub open spec fn platform_fault(raws: Seq<RawCapabilities>, from: int) -> Option<MonadError>
    decreases raws.len() - from,
{
    if from >= raws.len() {
        None
    } else {
        match raws[from].assessed() {
            Err(error) => Some(MonadError { cpu_dense_index: from as u16, ..error }),
            Ok(capabilities) => if raws[0].assessed() != Ok::<IntelCapabilities, MonadError>(
                capabilities,
            ) {
                Some(
                    MonadError {
                        cpu_dense_index: from as u16,
                        ..spec_unsupported(RequiredCapability::ConsistentAcrossProcessors)
                    },
                )
            } else {
                platform_fault(raws, from + 1)
            },
        }
    }
}

/// Holds all processors, in their dense order, against what the hypervisor
/// needs and against each other.
pub fn collect_capabilities(topology: CpuTopology, raws: &[RawCapabilities]) -> (result:
    MonadResult<ValidatedPlatform>)
    requires
        raws@.len() == topology.view().len(),
    ensures
        match result {
            Ok(platform) => {
                &&& platform_fault(raws@, 0) is None
                &&& platform.spec_topology() == topology
                &&& raws@[0].assessed() == Ok::<IntelCapabilities, MonadError>(
                    platform.spec_capabilities(),
                )
            },
            Err(error) => platform_fault(raws@, 0) == Some(error),
        },
{
    let count: usize = topology.len() as usize;
    let mut platform: Option<IntelCapabilities> = None;
    let mut index: usize = 0;
    while index < count
        invariant
            index <= count,
            count == raws@.len(),
            0 < count <= 256,
            platform_fault(raws@, 0) == platform_fault(raws@, index as int),
            match platform {
                None => index == 0,
                Some(capabilities) => index > 0 && raws@[0].assessed() == Ok::<
                    IntelCapabilities,
                    MonadError,
                >(capabilities),
            },
        decreases count - index,
    {
        match validate_required_capabilities(&raws[index]) {
            Ok(capabilities) => {
                if let Err(error) = accumulate_processor_capabilities(
                    &mut platform,
                    capabilities,
                    index as u16,
                ) {
                    return Err(error);
                }
            },
            Err(error) => {
                return Err(error.on_cpu(index as u16));
            },
        }
        index = index + 1;
    }
    match platform {
        Some(capabilities) => {
            proof {
                lemma_assessed_width(&raws@[0]);
            }
            Ok(ValidatedPlatform { capabilities, topology, permit: VmxonPermit { granted: () } })
        },
        None => Err(MonadError::new(ErrorPhase::Topology, ErrorCode::InvalidCpuSet, 0)),
    }
}

/// A processor that will do has a width that page tables can reach.
proof fn lemma_assessed_width(raw: &RawCapabilities)
    ensures
        raw.assessed() matches Ok(capabilities) ==> 1 <= capabilities.max_physical_address_bits
            <= 48,
{
    if raw.assessed() is Ok {
        lemma_nothing_missing(raw, 0, 18);
        let masked: u32 = raw.cpuid_80000008_eax & 0xff;
        assert(1 <= masked <= 48);
        assert(masked as u8 == masked);
    }
}

/// A processor that lacks nothing from an index on has each capability there.
proof fn lemma_nothing_missing(raw: &RawCapabilities, from: nat, index: nat)
    requires
        first_missing(raw, from) is None,
        from <= index < REQUIRED_CAPABILITIES,
    ensures
        spec_has(raw, RequiredCapability::spec_ordered(index as usize)),
    decreases index - from,
{
    if from < index {
        lemma_nothing_missing(raw, from + 1, index);
    }
}

impl ValidatedPlatform {
    #[verifier::type_invariant]
    spec fn validated(self) -> bool {
        1 <= self.capabilities.max_physical_address_bits <= 48
    }

    pub closed spec fn spec_capabilities(&self) -> IntelCapabilities {
        self.capabilities
    }

    pub closed spec fn spec_topology(&self) -> CpuTopology {
        self.topology
    }

    pub fn capabilities(&self) -> (capabilities: IntelCapabilities)
        ensures
            capabilities == self.spec_capabilities(),
            1 <= capabilities.max_physical_address_bits <= 48,
    {
        proof {
            use_type_invariant(self);
        }
        self.capabilities
    }

    pub fn topology(&self) -> (topology: &CpuTopology)
        ensures
            *topology == self.spec_topology(),
    {
        &self.topology
    }

    pub fn vmxon_permit(&self) -> VmxonPermit {
        self.permit
    }
}

} // verus!
