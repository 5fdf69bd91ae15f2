//! Events that the hypervisor hands the guest on entry.

use vstd::prelude::*;

use super::context::ExitContext;
use super::disposition::ExitDisposition;
use crate::arch::intel::vmcs;
use crate::arch::intel::vmcs::{VmcsField, VmcsWrite};
use crate::bits;
use crate::error::{ErrorCode, ErrorPhase, MonadError, MonadResult};

verus! {

const RFLAGS_RF_BIT: usize = 16;

const VECTOR_INVALID_OPCODE: u8 = 6;

const VECTOR_GENERAL_PROTECTION: u8 = 13;

/// The bit that makes an interruption field count.
pub const VALID_BIT: u32 = 0x8000_0000;

/// The bit that makes an event push an error code.
pub const DELIVER_ERROR_CODE_BIT: u32 = 0x800;

/// Where an interruption field holds its type.
pub const TYPE_SHIFT: u32 = 8;

/// The type of an interruption field, once shifted.
pub const TYPE_MASK: u32 = 0x7;

/// What kind of event is delivered.
#[derive(Debug, Clone, Copy, PartialEq, Eq, Structural)]
pub enum InterruptionType {
    ExternalInterrupt,
    Reserved,
    Nmi,
    HardwareException,
    SoftwareInterrupt,
    PrivilegedSoftwareException,
    SoftwareException,
    OtherEvent,
}

impl InterruptionType {
    pub open spec fn spec_code(self) -> u8 {
        match self {
            InterruptionType::ExternalInterrupt => 0,
            InterruptionType::Reserved => 1,
            InterruptionType::Nmi => 2,
            InterruptionType::HardwareException => 3,
            InterruptionType::SoftwareInterrupt => 4,
            InterruptionType::PrivilegedSoftwareException => 5,
            InterruptionType::SoftwareException => 6,
            InterruptionType::OtherEvent => 7,
        }
    }

    #[verifier::when_used_as_spec(spec_code)]
    pub fn code(self) -> (code: u8)
        ensures
            code == self.spec_code(),
    {
        match self {
            InterruptionType::ExternalInterrupt => 0,
            InterruptionType::Reserved => 1,
            InterruptionType::Nmi => 2,
            InterruptionType::HardwareException => 3,
            InterruptionType::SoftwareInterrupt => 4,
            InterruptionType::PrivilegedSoftwareException => 5,
            InterruptionType::SoftwareException => 6,
            InterruptionType::OtherEvent => 7,
        }
    }
}

/// An event for the next entry.
#[derive(Debug, Clone, Copy, PartialEq, Eq, Structural)]
pub struct VmEntryEvent {
    pub vector: u8,
    pub interruption_type: InterruptionType,
    pub error_code: Option<u32>,
}

/// What an entry is to be made with.
#[derive(Debug, Clone, Copy, PartialEq, Eq, Structural)]
pub struct InjectionUpdate {
    pub interruption_info: u32,
    pub error_code: Option<u32>,
    pub instruction_length: u32,
    pub guest_rflags: u64,
}

impl VmEntryEvent {
    pub open spec fn spec_exception(vector: u8, error_code: Option<u32>) -> Self {
        VmEntryEvent { vector, interruption_type: InterruptionType::HardwareException, error_code }
    }

    /// A hardware exception.
    #[verifier::when_used_as_spec(spec_exception)]
    pub fn exception(vector: u8, error_code: Option<u32>) -> (event: Self)
        ensures
            event == Self::spec_exception(vector, error_code),
    {
        VmEntryEvent { vector, interruption_type: InterruptionType::HardwareException, error_code }
    }

    pub open spec fn spec_ud() -> Self {
        Self::spec_exception(6, None)
    }

    /// The exception of an invalid opcode.
    #[verifier::when_used_as_spec(spec_ud)]
    pub fn ud() -> (event: Self)
        ensures
            event == Self::spec_ud(),
    {
        Self::exception(VECTOR_INVALID_OPCODE, None)
    }

    pub open spec fn spec_gp(err: u32) -> Self {
        Self::spec_exception(13, Some(err))
    }

    /// The general protection exception.
    #[verifier::when_used_as_spec(spec_gp)]
    pub fn gp(err: u32) -> (event: Self)
        ensures
            event == Self::spec_gp(err),
    {
        Self::exception(VECTOR_GENERAL_PROTECTION, Some(err))
    }

    /// Vector, type, whether an error code is pushed, and the valid bit.
    pub open spec fn spec_interruption_info(self) -> u32 {
        let typed = self.vector as u32 | ((self.interruption_type.spec_code() as u32) << 8);
        if self.error_code is Some {
            typed | 0x800 | 0x8000_0000
        } else {
            typed | 0x8000_0000
        }
    }

    /// Vector, type, whether an error code is pushed, and the valid bit.
    #[verifier::when_used_as_spec(spec_interruption_info)]
    pub fn interruption_info(self) -> (info: u32)
        ensures
            info == self.spec_interruption_info(),
    {
        let typed: u32 = self.vector as u32 | ((self.interruption_type.code() as u32) << 8);
        if self.error_code.is_some() {
            typed | DELIVER_ERROR_CODE_BIT | VALID_BIT
        } else {
            typed | VALID_BIT
        }
    }
}

/// Whether an interruption field counts.
pub open spec fn is_valid(info: u32) -> bool {
    info & 0x8000_0000 != 0
}

/// The type that an interruption field holds.
pub open spec fn type_of(info: u32) -> u32 {
    (info >> 8) & 7
}

/// Whether the event came from an instruction, whose length its delivery needs.
pub open spec fn from_instruction(info: u32) -> bool {
    4 <= type_of(info) <= 6
}

fn guest_state_error(info: u32) -> (error: MonadError)
    ensures
        error == MonadError::new(
            ErrorPhase::ExitHandling,
            ErrorCode::InvalidGuestState,
            info as u64,
        ),
{
    MonadError::new(ErrorPhase::ExitHandling, ErrorCode::InvalidGuestState, info as u64)
}

fn vectoring_instruction_length(
    interruption_info: u32,
    exit_instruction_length: Option<u32>,
) -> (result: MonadResult<u32>)
    ensures
        result == if !from_instruction(interruption_info) {
            Ok::<u32, MonadError>(0)
        } else {
            match exit_instruction_length {
                Some(length) => Ok(length),
                None => Err(
                    MonadError::new(
                        ErrorPhase::ExitHandling,
                        ErrorCode::InvalidGuestState,
                        interruption_info as u64,
                    ),
                ),
            }
        },
{
    let kind: u32 = (interruption_info >> TYPE_SHIFT) & TYPE_MASK;
    if kind == InterruptionType::SoftwareInterrupt.code() as u32 || kind
        == InterruptionType::PrivilegedSoftwareException.code() as u32 || kind
        == InterruptionType::SoftwareException.code() as u32 {
        match exit_instruction_length {
            Some(length) => Ok(length),
            None => Err(guest_state_error(interruption_info)),
        }
    } else {
        Ok(0)
    }
}

/// What makes an interrupted delivery impossible to complete, if anything.
pub open spec fn reinjection_fault(
    info: u32,
    error_code: Option<u32>,
    instruction_length: Option<u32>,
    pending_entry_info: u32,
) -> Option<MonadError> {
    let invalid = MonadError::new(
        ErrorPhase::ExitHandling,
        ErrorCode::InvalidGuestState,
        info as u64,
    );
    if is_valid(pending_entry_info) {
        Some(
            MonadError::new(
                ErrorPhase::ExitHandling,
                ErrorCode::WrongObjectState,
                pending_entry_info as u64,
            ),
        )
    } else if type_of(info) == 1 {
        Some(invalid)
    } else if info & 0x800 != 0 && error_code is None {
        Some(invalid)
    } else if from_instruction(info) && instruction_length is None {
        Some(invalid)
    } else {
        None
    }
}

/// The event whose delivery an exit interrupted, to be delivered again without
/// a change of its vector, type or error code.
pub open spec fn reinjection(context: ExitContext, pending_entry_info: u32) -> MonadResult<
    Option<InjectionUpdate>,
> {
    match context.idt_vectoring_info {
        None => Ok(None),
        Some(info) => if !is_valid(info) {
            Ok(None)
        } else {
            match reinjection_fault(
                info,
                context.idt_vectoring_error_code,
                context.instruction_length,
                pending_entry_info,
            ) {
                Some(error) => Err(error),
                None => Ok(
                    Some(
                        InjectionUpdate {
                            interruption_info: info,
                            error_code: if info & 0x800 != 0 {
                                context.idt_vectoring_error_code
                            } else {
                                None
                            },
                            instruction_length: if from_instruction(info) {
                                context.instruction_length.unwrap()
                            } else {
                                0
                            },
                            guest_rflags: context.guest_rflags,
                        },
                    ),
                ),
            }
        },
    }
}

/// Completes an event whose delivery caused the exit, as it was.
pub fn prepare_reinjection(context: &ExitContext, pending_entry_info: u32) -> (result: MonadResult<
    Option<InjectionUpdate>,
>)
    ensures
        result == reinjection(*context, pending_entry_info),
{
    let vectoring_info = match context.idt_vectoring_info {
        Some(info) => info,
        None => {
            return Ok(None);
        },
    };
    if vectoring_info & VALID_BIT == 0 {
        return Ok(None);
    }
    if pending_entry_info & VALID_BIT != 0 {
        return Err(
            MonadError::new(
                ErrorPhase::ExitHandling,
                ErrorCode::WrongObjectState,
                pending_entry_info as u64,
            ),
        );
    }
    if ((vectoring_info >> TYPE_SHIFT) & TYPE_MASK) == InterruptionType::Reserved.code() as u32 {
        return Err(guest_state_error(vectoring_info));
    }
    let error_code = if vectoring_info & DELIVER_ERROR_CODE_BIT != 0 {
        match context.idt_vectoring_error_code {
            Some(code) => Some(code),
            None => {
                return Err(guest_state_error(vectoring_info));
            },
        }
    } else {
        None
    };
    let instruction_length = vectoring_instruction_length(
        vectoring_info,
        context.instruction_length,
    )?;
    Ok(
        Some(
            InjectionUpdate {
                interruption_info: vectoring_info,
                error_code,
                instruction_length,
                guest_rflags: context.guest_rflags,
            },
        ),
    )
}

/// An event of the hypervisor's own, unless another is on its way. The guest
/// resumes with its resume flag set.
pub open spec fn injection(
    context: ExitContext,
    event: VmEntryEvent,
    pending_entry_info: u32,
) -> MonadResult<InjectionUpdate> {
    if is_valid(pending_entry_info) || (context.idt_vectoring_info is Some && is_valid(
        context.idt_vectoring_info.unwrap(),
    )) {
        Err(
            MonadError::new(
                ErrorPhase::ExitHandling,
                ErrorCode::WrongObjectState,
                pending_entry_info as u64,
            ),
        )
    } else {
        Ok(
            InjectionUpdate {
                interruption_info: event.spec_interruption_info(),
                error_code: event.error_code,
                instruction_length: 0,
                guest_rflags: bits::with_bit_u64(context.guest_rflags, 16, true),
            },
        )
    }
}

/// Prepares an event of the hypervisor's own.
pub fn prepare_injection(
    context: &ExitContext,
    event: VmEntryEvent,
    pending_entry_info: u32,
) -> (result: MonadResult<InjectionUpdate>)
    ensures
        result == injection(*context, event, pending_entry_info),
{
    let vectoring = match context.idt_vectoring_info {
        Some(info) => info & VALID_BIT != 0,
        None => false,
    };
    if pending_entry_info & VALID_BIT != 0 || vectoring {
        return Err(
            MonadError::new(
                ErrorPhase::ExitHandling,
                ErrorCode::WrongObjectState,
                pending_entry_info as u64,
            ),
        );
    }
    let mut rflags: u64 = context.guest_rflags;
    bits::set_bit_u64(&mut rflags, RFLAGS_RF_BIT, true);
    Ok(
        InjectionUpdate {
            interruption_info: event.interruption_info(),
            error_code: event.error_code,
            instruction_length: 0,
            guest_rflags: rflags,
        },
    )
}

impl InjectionUpdate {
    /// The writes that prepare the entry, in order. The interruption field is
    /// written last, so that a setup that was cut short stays inactive.
    pub open spec fn writes(self) -> Seq<VmcsWrite> {
        let tail = seq![
            VmcsWrite {
                field: VmcsField::EntryInstructionLength,
                value: self.instruction_length as u64,
            },
            VmcsWrite { field: VmcsField::GuestRflags, value: self.guest_rflags },
            VmcsWrite {
                field: VmcsField::EntryInterruptionInfo,
                value: self.interruption_info as u64,
            },
        ];
        match self.error_code {
            Some(code) => seq![
                VmcsWrite { field: VmcsField::EntryExceptionErrorCode, value: code as u64 },
            ] + tail,
            None => tail,
        }
    }

    /// The write with an index, or none when all were made.
    pub fn write(&self, index: usize) -> (write: Option<VmcsWrite>)
        ensures
            write == if index < self.writes().len() {
                Some(self.writes()[index as int])
            } else {
                None
            },
    {
        let skipped: usize = match self.error_code {
            Some(code) => {
                if index == 0 {
                    return Some(
                        VmcsWrite { field: VmcsField::EntryExceptionErrorCode, value: code as u64 },
                    );
                }
                1
            },
            None => 0,
        };
        if index == skipped {
            Some(
                VmcsWrite {
                    field: VmcsField::EntryInstructionLength,
                    value: self.instruction_length as u64,
                },
            )
        } else if index == skipped + 1 {
            Some(VmcsWrite { field: VmcsField::GuestRflags, value: self.guest_rflags })
        } else if index == skipped + 2 {
            Some(
                VmcsWrite {
                    field: VmcsField::EntryInterruptionInfo,
                    value: self.interruption_info as u64,
                },
            )
        } else {
            None
        }
    }
}

/// Only the last write of a prepared entry makes the event count.
pub proof fn law_interruption_is_written_last(update: InjectionUpdate, index: int)
    requires
        0 <= index < update.writes().len(),
    ensures
        (update.writes()[index].field is EntryInterruptionInfo) == (index == update.writes().len()
            - 1),
{
}

/// The parts of an interruption field do not touch each other.
pub proof fn lemma_interruption_field(vector: u8, kind: u8)
    by (bit_vector)
    requires
        kind < 8,
    ensures
        vector as u32 | ((kind as u32) << 8) | 0x800 | 0x8000_0000 == vector + 0x100 * kind + 0x800
            + 0x8000_0000,
        vector as u32 | ((kind as u32) << 8) | 0x8000_0000 == vector + 0x100 * kind + 0x8000_0000,
{
}

/// An interruption field says what its event is: the low byte is the vector, the
/// next three bits are the number of the type, the bit behind them says whether
/// an error code is pushed, the top bit is set, and nothing else is.
pub proof fn law_interruption_field_tells_its_event(event: VmEntryEvent, info: u32)
    requires
        call_ensures(VmEntryEvent::interruption_info, (event,), info),
    ensures
        info % 0x100 == event.vector,
        (info / 0x100) % 8 == match event.interruption_type {
            InterruptionType::ExternalInterrupt => 0int,
            InterruptionType::Reserved => 1,
            InterruptionType::Nmi => 2,
            InterruptionType::HardwareException => 3,
            InterruptionType::SoftwareInterrupt => 4,
            InterruptionType::PrivilegedSoftwareException => 5,
            InterruptionType::SoftwareException => 6,
            InterruptionType::OtherEvent => 7,
        },
        ((info / 0x800) % 2 == 1) == (event.error_code is Some),
        (info / 0x1000) % 0x8_0000 == 0,
        info / 0x8000_0000 == 1,
{
    lemma_interruption_field(event.vector, event.interruption_type.spec_code());
}

/// The two exceptions of the hypervisor's own, as an entry takes them.
pub proof fn law_exceptions_of_its_own(
    opcode: VmEntryEvent,
    protection: VmEntryEvent,
    err: u32,
    opcode_info: u32,
    protection_info: u32,
)
    requires
        call_ensures(VmEntryEvent::ud, (), opcode),
        call_ensures(VmEntryEvent::gp, (err,), protection),
        call_ensures(VmEntryEvent::interruption_info, (opcode,), opcode_info),
        call_ensures(VmEntryEvent::interruption_info, (protection,), protection_info),
    ensures
        opcode_info == 0x8000_0306,
        opcode.error_code is None,
        protection_info == 0x8000_0b0d,
        protection.error_code == Some(err),
{
    lemma_interruption_field(6, 3);
    lemma_interruption_field(13, 3);
}

/// An event of the hypervisor's own is prepared exactly when no other is on its
/// way. The entry delivers that event: its field tells it, its error code is the
/// event's, no instruction is stepped over, and of the flags only the resume flag
/// is raised.
pub proof fn law_prepared_injection_delivers_the_event(
    context: ExitContext,
    event: VmEntryEvent,
    pending_entry_info: u32,
    result: MonadResult<InjectionUpdate>,
    info: u32,
)
    requires
        call_ensures(prepare_injection, (&context, event, pending_entry_info), result),
        call_ensures(VmEntryEvent::interruption_info, (event,), info),
    ensures
        result is Ok <==> pending_entry_info < 0x8000_0000 && (context.idt_vectoring_info is Some
            ==> context.idt_vectoring_info.unwrap() < 0x8000_0000),
        match result {
            Ok(update) => {
                &&& update.interruption_info == info
                &&& update.error_code == event.error_code
                &&& update.instruction_length == 0
                &&& update.guest_rflags == if (context.guest_rflags / 0x1_0000) % 2 == 1 {
                    context.guest_rflags as int
                } else {
                    context.guest_rflags + 0x1_0000
                }
            },
            Err(error) => error == MonadError::new(
                ErrorPhase::ExitHandling,
                ErrorCode::WrongObjectState,
                pending_entry_info as u64,
            ),
        },
{
    bits::lemma_single_bits_u32(pending_entry_info);
    if context.idt_vectoring_info is Some {
        bits::lemma_single_bits_u32(context.idt_vectoring_info.unwrap());
    }
    bits::lemma_raised_flag(context.guest_rflags);
}

/// A delivery that an exit interrupted is completed as it was: the field is the
/// one that the exit gave, the error code goes along exactly when its bit is set,
/// the length of the instruction exactly for an event that an instruction raised,
/// and the flags stay. Nothing is completed where nothing was interrupted.
pub proof fn law_interrupted_delivery_is_completed(
    context: ExitContext,
    pending_entry_info: u32,
    result: MonadResult<Option<InjectionUpdate>>,
)
    requires
        call_ensures(prepare_reinjection, (&context, pending_entry_info), result),
    ensures
        context.idt_vectoring_info is None || context.idt_vectoring_info.unwrap() < 0x8000_0000
            ==> result == Ok::<Option<InjectionUpdate>, MonadError>(None),
        context.idt_vectoring_info matches Some(info) ==> info >= 0x8000_0000 ==> {
            let kind = (info / 0x100) % 8;
            let by_instruction = kind == 4 || kind == 5 || kind == 6;
            let has_code = (info / 0x800) % 2 == 1;
            if pending_entry_info >= 0x8000_0000 {
                result == Err::<Option<InjectionUpdate>, MonadError>(
                    MonadError::new(
                        ErrorPhase::ExitHandling,
                        ErrorCode::WrongObjectState,
                        pending_entry_info as u64,
                    ),
                )
            } else if kind == 1 || (has_code && context.idt_vectoring_error_code is None) || (
            by_instruction && context.instruction_length is None) {
                result == Err::<Option<InjectionUpdate>, MonadError>(
                    MonadError::new(
                        ErrorPhase::ExitHandling,
                        ErrorCode::InvalidGuestState,
                        info as u64,
                    ),
                )
            } else {
                &&& result is Ok
                &&& result.unwrap() matches Some(update) && {
                    &&& update.interruption_info == info
                    &&& has_code ==> update.error_code is Some && update.error_code
                        == context.idt_vectoring_error_code
                    &&& !has_code ==> update.error_code is None
                    &&& by_instruction ==> context.instruction_length == Some(
                        update.instruction_length,
                    )
                    &&& !by_instruction ==> update.instruction_length == 0
                    &&& update.guest_rflags == context.guest_rflags
                }
            }
        },
{
    bits::lemma_single_bits_u32(pending_entry_info);
    if context.idt_vectoring_info is Some {
        let info = context.idt_vectoring_info.unwrap();
        bits::lemma_single_bits_u32(info);
        bits::lemma_fields_u32(info);
    }
}

/// What an entry is prepared with reaches its fields, and no other field is
/// written: error code, instruction length, flags, and at the end the event.
pub proof fn law_prepared_entry_is_written(update: InjectionUpdate)
    ensures
        vmcs::loads(
            update.writes(),
            VmcsField::EntryInterruptionInfo,
            update.interruption_info as u64,
        ),
        vmcs::loads(update.writes(), VmcsField::GuestRflags, update.guest_rflags),
        vmcs::loads(
            update.writes(),
            VmcsField::EntryInstructionLength,
            update.instruction_length as u64,
        ),
        update.error_code matches Some(code) ==> vmcs::loads(
            update.writes(),
            VmcsField::EntryExceptionErrorCode,
            code as u64,
        ) && update.writes().len() == 4,
        update.error_code is None ==> update.writes().len() == 3,
{
    let writes = update.writes();
    if update.error_code is Some {
        assert(writes[0].field is EntryExceptionErrorCode);
        assert(writes[1].field is EntryInstructionLength);
        assert(writes[2].field is GuestRflags);
        assert(writes[3].field is EntryInterruptionInfo);
    } else {
        assert(writes[0].field is EntryInstructionLength);
        assert(writes[1].field is GuestRflags);
        assert(writes[2].field is EntryInterruptionInfo);
    }
}

pub open spec fn spec_inject_ud() -> ExitDisposition {
    ExitDisposition::Inject(VmEntryEvent::spec_ud())
}

#[verifier::when_used_as_spec(spec_inject_ud)]
pub fn inject_ud() -> (disposition: ExitDisposition)
    ensures
        disposition == spec_inject_ud(),
{
    ExitDisposition::Inject(VmEntryEvent::ud())
}

pub open spec fn spec_inject_gp() -> ExitDisposition {
    ExitDisposition::Inject(VmEntryEvent::spec_gp(0))
}

#[verifier::when_used_as_spec(spec_inject_gp)]
pub fn inject_gp() -> (disposition: ExitDisposition)
    ensures
        disposition == spec_inject_gp(),
{
    ExitDisposition::Inject(VmEntryEvent::gp(0))
}

} // verus!
