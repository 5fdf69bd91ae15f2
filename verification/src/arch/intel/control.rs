//! Execution controls, and what a processor allows of them.

use vstd::prelude::*;

use crate::error::{ErrorCode, ErrorPhase, MonadError, MonadResult};

verus! {

/// A word of controls.
#[derive(Debug, Clone, Copy, PartialEq, Eq, Structural)]
pub enum ControlField {
    PinBased,
    PrimaryProcessorBased,
    SecondaryProcessorBased,
    VmExit,
    VmEntry,
}

impl ControlField {
    pub open spec fn spec_code(self) -> u8 {
        match self {
            ControlField::PinBased => 1,
            ControlField::PrimaryProcessorBased => 2,
            ControlField::SecondaryProcessorBased => 3,
            ControlField::VmExit => 4,
            ControlField::VmEntry => 5,
        }
    }

    #[verifier::when_used_as_spec(spec_code)]
    pub fn code(self) -> (code: u8)
        ensures
            code == self.spec_code(),
    {
        match self {
            ControlField::PinBased => 1,
            ControlField::PrimaryProcessorBased => 2,
            ControlField::SecondaryProcessorBased => 3,
            ControlField::VmExit => 4,
            ControlField::VmEntry => 5,
        }
    }
}

/// Which controls of a word must be set, and which may be.
#[derive(Debug, Clone, Copy, PartialEq, Eq, Structural)]
pub struct ControlCapability {
    pub must_be_one: u32,
    pub may_be_one: u32,
}

/// The error for controls that cannot be had.
pub open spec fn control_error(field: ControlField, controls: u32) -> MonadError {
    MonadError::new(
        ErrorPhase::Capability,
        ErrorCode::UnsupportedCapability,
        ((field.spec_code() as u64) << 32) | controls as u64,
    )
}

fn refused(field: ControlField, controls: u32) -> (error: MonadError)
    ensures
        error == control_error(field, controls),
{
    MonadError::new(
        ErrorPhase::Capability,
        ErrorCode::UnsupportedCapability,
        ((field.code() as u64) << 32) | controls as u64,
    )
}

impl ControlCapability {
    pub open spec fn spec_from_msr(value: u64) -> Self {
        ControlCapability { must_be_one: value as u32, may_be_one: (value >> 32) as u32 }
    }

    /// What a capability register says: the low half must be set, the high
    /// half may be.
    #[verifier::when_used_as_spec(spec_from_msr)]
    pub fn from_msr(value: u64) -> (capability: Self)
        ensures
            capability == Self::spec_from_msr(value),
    {
        ControlCapability {
            must_be_one: #[verifier::truncate]
            (value as u32),
            may_be_one: #[verifier::truncate]
            ((value >> 32) as u32),
        }
    }

    /// Anything goes.
    pub fn unrestricted() -> (capability: Self)
        ensures
            capability == (ControlCapability { must_be_one: 0, may_be_one: u32::MAX }),
    {
        ControlCapability { must_be_one: 0, may_be_one: u32::MAX }
    }

    /// The requested controls with those that must be set, unless a control
    /// that must be set or was requested may not be.
    pub open spec fn adjusted(self, field: ControlField, requested: u32) -> MonadResult<u32> {
        if self.must_be_one & !self.may_be_one != 0 {
            Err(control_error(field, self.must_be_one & !self.may_be_one))
        } else if requested & !self.may_be_one != 0 {
            Err(control_error(field, requested & !self.may_be_one))
        } else {
            Ok(requested | self.must_be_one)
        }
    }

    /// The requested controls, as far as the processor allows them.
    pub fn adjust(self, field: ControlField, requested: u32) -> (result: MonadResult<u32>)
        ensures
            result == self.adjusted(field, requested),
    {
        let contradictory: u32 = self.must_be_one & !self.may_be_one;
        if contradictory != 0 {
            return Err(refused(field, contradictory));
        }
        let adjusted: u32 = (requested | self.must_be_one) & self.may_be_one;
        let missing: u32 = requested & !adjusted;
        proof {
            lemma_adjust(requested, self.must_be_one, self.may_be_one);
        }
        if missing != 0 {
            return Err(refused(field, missing));
        }
        Ok(adjusted)
    }
}

proof fn lemma_adjust(requested: u32, must: u32, may: u32)
    by (bit_vector)
    ensures
        requested & !((requested | must) & may) == requested & !may,
        must & !may == 0 && requested & !may == 0 ==> (requested | must) & may == requested | must,
        requested & !(requested | must) == 0,
        must & !(requested | must) == 0,
        must & !may == 0 && requested & !may == 0 ==> (requested | must) & !may == 0,
{
}

/// Controls that were granted hold all that was requested and all that must
/// be set, and nothing that may not be.
pub proof fn law_granted_controls(
    capability: ControlCapability,
    field: ControlField,
    requested: u32,
    granted: u32,
)
    requires
        capability.adjusted(field, requested) == Ok::<u32, MonadError>(granted),
    ensures
        requested & !granted == 0,
        capability.must_be_one & !granted == 0,
        granted & !capability.may_be_one == 0,
{
    lemma_adjust(requested, capability.must_be_one, capability.may_be_one);
}

/// All words of controls.
#[derive(Debug, Clone, Copy, PartialEq, Eq, Structural)]
pub struct VmxControls {
    pub pinbased: u32,
    pub primary: u32,
    pub secondary: u32,
    pub vmexit: u32,
    pub vmentry: u32,
}

pub const REQUIRED_PINBASED: u32 = 0;

/// Secondary controls and the MSR bitmap.
pub const REQUIRED_PRIMARY: u32 = 0x9000_0000;

pub const ENABLE_EPT: u32 = 0x2;

pub const ENABLE_RDTSCP: u32 = 0x8;

pub const ENABLE_INVPCID: u32 = 0x1000;

pub const ENABLE_XSAVES_XRSTORS: u32 = 0x10_0000;

pub const ENABLE_USER_WAIT_PAUSE: u32 = 0x400_0000;

/// Extended page tables and the extended state instructions.
pub const REQUIRED_SECONDARY: u32 = 0x10_0002;

/// A host in long mode.
pub const REQUIRED_VMEXIT: u32 = 0x200;

/// A guest in long mode.
pub const REQUIRED_VMENTRY: u32 = 0x200;

/// What a processor allows of all words.
#[derive(Debug, Clone, Copy, PartialEq, Eq, Structural)]
pub struct ControlCapabilities {
    pub pinbased: ControlCapability,
    pub primary: ControlCapability,
    pub secondary: ControlCapability,
    pub vmexit: ControlCapability,
    pub vmentry: ControlCapability,
}

impl ControlCapabilities {
    /// The controls that the hypervisor runs with, or the first word that
    /// cannot be had.
    pub open spec fn controls(self, requested_secondary: u32) -> MonadResult<VmxControls> {
        match self.pinbased.adjusted(ControlField::PinBased, REQUIRED_PINBASED) {
            Err(error) => Err(error),
            Ok(pinbased) => match self.primary.adjusted(
                ControlField::PrimaryProcessorBased,
                REQUIRED_PRIMARY,
            ) {
                Err(error) => Err(error),
                Ok(primary) => match self.secondary.adjusted(
                    ControlField::SecondaryProcessorBased,
                    requested_secondary | REQUIRED_SECONDARY,
                ) {
                    Err(error) => Err(error),
                    Ok(secondary) => match self.vmexit.adjusted(
                        ControlField::VmExit,
                        REQUIRED_VMEXIT,
                    ) {
                        Err(error) => Err(error),
                        Ok(vmexit) => match self.vmentry.adjusted(
                            ControlField::VmEntry,
                            REQUIRED_VMENTRY,
                        ) {
                            Err(error) => Err(error),
                            Ok(vmentry) => Ok(
                                VmxControls { pinbased, primary, secondary, vmexit, vmentry },
                            ),
                        },
                    },
                },
            },
        }
    }

    /// The controls without which the hypervisor does not run.
    pub fn required_controls(self) -> (result: MonadResult<VmxControls>)
        ensures
            result == self.controls(REQUIRED_SECONDARY),
    {
        self.controls_for(REQUIRED_SECONDARY)
    }

    /// The required controls and the requested secondary ones.
    pub fn controls_for(self, requested_secondary: u32) -> (result: MonadResult<VmxControls>)
        ensures
            result == self.controls(requested_secondary),
    {
        let pinbased = self.pinbased.adjust(ControlField::PinBased, REQUIRED_PINBASED)?;
        let primary = self.primary.adjust(ControlField::PrimaryProcessorBased, REQUIRED_PRIMARY)?;
        let secondary = self.secondary.adjust(
            ControlField::SecondaryProcessorBased,
            requested_secondary | REQUIRED_SECONDARY,
        )?;
        let vmexit = self.vmexit.adjust(ControlField::VmExit, REQUIRED_VMEXIT)?;
        let vmentry = self.vmentry.adjust(ControlField::VmEntry, REQUIRED_VMENTRY)?;
        Ok(VmxControls { pinbased, primary, secondary, vmexit, vmentry })
    }
}

} // verus!
