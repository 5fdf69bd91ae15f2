//! What the VMX instructions report.

use vstd::prelude::*;

use super::caps::{IntelCapabilities, RequiredCapability};
use crate::error::{ErrorCode, ErrorPhase, MonadError, MonadResult};

verus! {

pub const VMX_REGION_SIZE: usize = 0x1000;

const CR4_VMXE: u64 = 0x2000;

/// A VMX instruction.
#[derive(Debug, Clone, Copy, PartialEq, Eq, Structural)]
pub enum VmxOperation {
    Vmxon,
    Vmxoff,
    Vmclear,
    Vmptrld,
    Vmread,
    Vmwrite,
    Vmlaunch,
    Vmresume,
    InveptSingle,
    InveptAll,
}

impl VmxOperation {
    pub open spec fn spec_code(self) -> u8 {
        match self {
            VmxOperation::Vmxon => 1,
            VmxOperation::Vmxoff => 2,
            VmxOperation::Vmclear => 3,
            VmxOperation::Vmptrld => 4,
            VmxOperation::Vmread => 5,
            VmxOperation::Vmwrite => 6,
            VmxOperation::Vmlaunch => 7,
            VmxOperation::Vmresume => 8,
            VmxOperation::InveptSingle => 9,
            VmxOperation::InveptAll => 10,
        }
    }

    #[verifier::when_used_as_spec(spec_code)]
    pub fn code(self) -> (code: u8)
        ensures
            code == self.spec_code(),
    {
        match self {
            VmxOperation::Vmxon => 1,
            VmxOperation::Vmxoff => 2,
            VmxOperation::Vmclear => 3,
            VmxOperation::Vmptrld => 4,
            VmxOperation::Vmread => 5,
            VmxOperation::Vmwrite => 6,
            VmxOperation::Vmlaunch => 7,
            VmxOperation::Vmresume => 8,
            VmxOperation::InveptSingle => 9,
            VmxOperation::InveptAll => 10,
        }
    }
}

/// How an instruction ended.
#[derive(Debug, Clone, Copy, PartialEq, Eq, Structural)]
pub enum VmxStatus {
    Success,
    VmfailInvalid,
    VmfailValid,
}

impl VmxStatus {
    pub open spec fn spec_code(self) -> u8 {
        match self {
            VmxStatus::Success => 0,
            VmxStatus::VmfailInvalid => 1,
            VmxStatus::VmfailValid => 2,
        }
    }

    #[verifier::when_used_as_spec(spec_code)]
    pub fn code(self) -> (code: u8)
        ensures
            code == self.spec_code(),
    {
        match self {
            VmxStatus::Success => 0,
            VmxStatus::VmfailInvalid => 1,
            VmxStatus::VmfailValid => 2,
        }
    }
}

pub open spec fn spec_error_code(operation: VmxOperation) -> ErrorCode {
    match operation {
        VmxOperation::Vmread => ErrorCode::VmreadFailure,
        VmxOperation::Vmwrite => ErrorCode::VmwriteFailure,
        VmxOperation::InveptSingle => ErrorCode::InveptFailure,
        VmxOperation::InveptAll => ErrorCode::InveptFailure,
        _ => ErrorCode::VmxInstructionFailure,
    }
}

#[verifier::when_used_as_spec(spec_error_code)]
fn error_code(operation: VmxOperation) -> (code: ErrorCode)
    ensures
        code == spec_error_code(operation),
{
    match operation {
        VmxOperation::Vmread => ErrorCode::VmreadFailure,
        VmxOperation::Vmwrite => ErrorCode::VmwriteFailure,
        VmxOperation::InveptSingle => ErrorCode::InveptFailure,
        VmxOperation::InveptAll => ErrorCode::InveptFailure,
        _ => ErrorCode::VmxInstructionFailure,
    }
}

/// The error of an instruction: operation, status and instruction error, all
/// ones where there is none.
pub open spec fn spec_vmx_error(
    operation: VmxOperation,
    status: VmxStatus,
    instruction_error: Option<u32>,
) -> MonadError {
    let subcode = match instruction_error {
        Some(value) => value,
        None => u32::MAX,
    };
    MonadError::new(
        ErrorPhase::Launch,
        spec_error_code(operation),
        operation.spec_code() as u64 | ((status.spec_code() as u64) << 8) | ((subcode as u64)
            << 32),
    )
}

/// The error of an instruction.
#[verifier::when_used_as_spec(spec_vmx_error)]
pub fn vmx_error(
    operation: VmxOperation,
    status: VmxStatus,
    instruction_error: Option<u32>,
) -> (error: MonadError)
    ensures
        error == spec_vmx_error(operation, status, instruction_error),
{
    let subcode: u32 = match instruction_error {
        Some(value) => value,
        None => u32::MAX,
    };
    let detail: u64 = operation.code() as u64 | ((status.code() as u64) << 8) | ((subcode as u64)
        << 32);
    MonadError::new(ErrorPhase::Launch, error_code(operation), detail)
}

/// What the flags say of an instruction: the zero flag reports an error with a
/// number, the carry flag one without.
pub open spec fn vmx_status(
    operation: VmxOperation,
    rflags: u64,
    instruction_error: Option<u32>,
) -> MonadResult<()> {
    if rflags & 0x40 != 0 {
        Err(spec_vmx_error(operation, VmxStatus::VmfailValid, instruction_error))
    } else if rflags & 1 != 0 {
        Err(spec_vmx_error(operation, VmxStatus::VmfailInvalid, None))
    } else {
        Ok(())
    }
}

/// What the flags say of an instruction.
pub fn decode_vmx_status(
    operation: VmxOperation,
    rflags: u64,
    instruction_error: Option<u32>,
) -> (result: MonadResult<()>)
    ensures
        result == vmx_status(operation, rflags, instruction_error),
{
    if rflags & 0x40 != 0 {
        Err(vmx_error(operation, VmxStatus::VmfailValid, instruction_error))
    } else if rflags & 1 != 0 {
        Err(vmx_error(operation, VmxStatus::VmfailInvalid, None))
    } else {
        Ok(())
    }
}

/// What an attempt to enter the guest came to. The highest bit of what it
/// returns says that a write before the entry failed.
pub fn decode_entry(
    operation: VmxOperation,
    returned: u64,
    instruction_error: Option<u32>,
) -> (result: MonadResult<()>)
    ensures
        result == vmx_status(
            if returned & 0x8000_0000_0000_0000 != 0 {
                VmxOperation::Vmwrite
            } else {
                operation
            },
            returned & !0x8000_0000_0000_0000u64,
            if returned & 0x40 != 0 {
                instruction_error
            } else {
                None
            },
        ),
{
    let failed = if returned & 0x8000_0000_0000_0000 != 0 {
        VmxOperation::Vmwrite
    } else {
        operation
    };
    let subcode = if returned & 0x40 != 0 {
        instruction_error
    } else {
        None
    };
    decode_vmx_status(failed, returned & !0x8000_0000_0000_0000u64, subcode)
}

/// A switch that stops the next launch before it begins.
#[derive(Debug, Clone, Copy, PartialEq, Eq, Structural)]
pub struct VmxonFailpoint {
    pub armed: bool,
}

impl VmxonFailpoint {
    /// Fails once where the switch is armed.
    pub fn pre_vmxon_failpoint(&mut self) -> (result: MonadResult<()>)
        ensures
            !final(self).armed,
            result == if old(self).armed {
                Err::<(), MonadError>(
                    MonadError::new(
                        ErrorPhase::Launch,
                        ErrorCode::VmxInstructionFailure,
                        VmxOperation::Vmxon.spec_code() as u64,
                    ),
                )
            } else {
                Ok(())
            },
    {
        if self.armed {
            self.armed = false;
            return Err(
                MonadError::new(
                    ErrorPhase::Launch,
                    ErrorCode::VmxInstructionFailure,
                    VmxOperation::Vmxon.code() as u64,
                ),
            );
        }
        Ok(())
    }
}

/// The control registers as they were before the hypervisor changed them.
#[derive(Debug, Clone, Copy, PartialEq, Eq, Structural)]
pub struct OriginalControlRegisters {
    pub cr0: u64,
    pub cr4: u64,
}

/// The control registers that VMX operation needs, on a processor that allows
/// it to be enabled.
pub open spec fn needed_controls(
    capabilities: IntelCapabilities,
    original: OriginalControlRegisters,
) -> MonadResult<OriginalControlRegisters> {
    let cr4 = (original.cr4 | capabilities.cr4_fixed0 | 0x2000) & capabilities.cr4_fixed1;
    if cr4 & 0x2000 == 0 {
        Err(
            MonadError::new(
                ErrorPhase::Capability,
                ErrorCode::UnsupportedCapability,
                RequiredCapability::Cr4FixedMasks.spec_code(),
            ),
        )
    } else {
        Ok(
            OriginalControlRegisters {
                cr0: (original.cr0 | capabilities.cr0_fixed0) & capabilities.cr0_fixed1,
                cr4,
            },
        )
    }
}

/// The control registers that VMX operation needs.
pub fn prepare_control_registers(
    capabilities: &IntelCapabilities,
    original: OriginalControlRegisters,
) -> (result: MonadResult<OriginalControlRegisters>)
    ensures
        result == needed_controls(*capabilities, original),
{
    let cr0: u64 = (original.cr0 | capabilities.cr0_fixed0) & capabilities.cr0_fixed1;
    let cr4: u64 = (original.cr4 | capabilities.cr4_fixed0 | CR4_VMXE) & capabilities.cr4_fixed1;
    if cr4 & CR4_VMXE == 0 {
        return Err(
            MonadError::new(
                ErrorPhase::Capability,
                ErrorCode::UnsupportedCapability,
                RequiredCapability::Cr4FixedMasks.code(),
            ),
        );
    }
    Ok(OriginalControlRegisters { cr0, cr4 })
}

} // verus!
