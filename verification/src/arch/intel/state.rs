//! Descriptors, flags and control registers, as the guest is to have them.

use vstd::prelude::*;

use super::takeover;
use crate::error::{ErrorCode, ErrorPhase, MonadError, MonadResult};

verus! {

pub const RFLAGS_FIXED_ONE: u64 = 0x2;

pub const RFLAGS_VM: u64 = 0x2_0000;

pub const RFLAGS_IOPL: u64 = 0x3000;

pub const RFLAGS_ARCHITECTURAL_MASK: u64 = 0x003f_7fd7;

/// The access rights of a segment that cannot be used.
pub const SEGMENT_UNUSABLE: u32 = 0x1_0000;

/// What is wrong with a processor's state.
#[derive(Debug, Clone, Copy, PartialEq, Eq, Structural)]
pub enum StateErrorDetail {
    DescriptorOutOfBounds,
    DescriptorAddressOverflow,
    InvalidFixedMasks,
    InvalidReadShadow,
    InvalidTaskRegister,
}

impl StateErrorDetail {
    pub open spec fn spec_code(self) -> u64 {
        match self {
            StateErrorDetail::DescriptorOutOfBounds => 1,
            StateErrorDetail::DescriptorAddressOverflow => 2,
            StateErrorDetail::InvalidFixedMasks => 3,
            StateErrorDetail::InvalidReadShadow => 4,
            StateErrorDetail::InvalidTaskRegister => 5,
        }
    }

    #[verifier::when_used_as_spec(spec_code)]
    pub fn code(self) -> (code: u64)
        ensures
            code == self.spec_code(),
    {
        match self {
            StateErrorDetail::DescriptorOutOfBounds => 1,
            StateErrorDetail::DescriptorAddressOverflow => 2,
            StateErrorDetail::InvalidFixedMasks => 3,
            StateErrorDetail::InvalidReadShadow => 4,
            StateErrorDetail::InvalidTaskRegister => 5,
        }
    }
}

pub open spec fn spec_state_error(code: ErrorCode, detail: StateErrorDetail) -> MonadError {
    MonadError::new(ErrorPhase::Launch, code, detail.spec_code())
}

#[verifier::when_used_as_spec(spec_state_error)]
fn state_error(code: ErrorCode, detail: StateErrorDetail) -> (error: MonadError)
    ensures
        error == spec_state_error(code, detail),
{
    MonadError::new(ErrorPhase::Launch, code, detail.code())
}

/// The slot that a selector names, when the table reaches past the `slots`
/// slots from there on.
pub fn descriptor_slot_range(selector: u16, table_limit: u16, slots: u16) -> (result: MonadResult<
    usize,
>)
    requires
        slots > 0,
    ensures
        result == if (selector as int / 8) * 8 + slots * 8 - 1 > table_limit {
            Err::<usize, MonadError>(
                spec_state_error(
                    ErrorCode::InvalidDescriptor,
                    StateErrorDetail::DescriptorOutOfBounds,
                ),
            )
        } else {
            Ok((selector / 8) as usize)
        },
{
    proof {
        lemma_selector(selector);
    }
    let offset: usize = (selector & !0x7u16) as usize;
    let byte_count: usize = slots as usize * 8;
    let final_byte: usize = offset + (byte_count - 1);
    if final_byte > table_limit as usize {
        return Err(
            state_error(
                ErrorCode::InvalidDescriptor,
                StateErrorDetail::DescriptorOutOfBounds,
            ),
        );
    }
    Ok(offset / 8)
}

proof fn lemma_selector(selector: u16)
    ensures
        selector & !0x7u16 == (selector / 8) * 8,
        (selector & !0x7u16 == 0) == (selector < 8),
{
    takeover::lemma_null_selector(selector);
}

/// A task-state segment.
#[derive(Debug, Clone, Copy, PartialEq, Eq, Structural)]
pub struct TssState {
    pub base: u64,
    pub limit: u32,
    pub access_rights: u32,
}

/// The segment that the two slots of a descriptor describe.
pub open spec fn spec_decode_tss_slots(low: u64, high: u64) -> TssState {
    let raw_limit = (low & 0xffff) as u32 | ((((low >> 48) & 0xf) as u32) << 16);
    TssState {
        base: ((low >> 16) & 0xff_ffff) | (((low >> 56) & 0xff) << 24) | ((high & 0xffff_ffff)
            << 32),
        limit: if low & 0x80_0000_0000_0000 != 0 {
            (raw_limit << 12) | 0xfff
        } else {
            raw_limit
        },
        access_rights: ((low >> 40) & 0xff) as u32 | ((low >> 40) & 0xf000) as u32,
    }
}

/// The segment that the two slots of a descriptor describe.
#[verifier::when_used_as_spec(spec_decode_tss_slots)]
pub fn decode_tss_slots(low: u64, high: u64) -> (tss: TssState)
    ensures
        tss == spec_decode_tss_slots(low, high),
{
    proof {
        lemma_tss_fields(low);
    }
    let base_low: u64 = ((low >> 16) & 0xff_ffff) | (((low >> 56) & 0xff) << 24);
    let base: u64 = base_low | ((high & 0xffff_ffff) << 32);
    let raw_limit: u32 = (low & 0xffff) as u32 | ((((low >> 48) & 0xf) as u32) << 16);
    let limit: u32 = if low & 0x80_0000_0000_0000 != 0 {
        (raw_limit << 12) | 0xfff
    } else {
        raw_limit
    };
    let access_rights: u32 = ((low >> 40) & 0xff) as u32 | ((low >> 40) & 0xf000) as u32;
    TssState { base, limit, access_rights }
}

proof fn lemma_tss_fields(low: u64)
    ensures
        low & 0xffff <= 0xffff,
        (low >> 48) & 0xf <= 0xf,
        (low >> 40) & 0xff <= 0xff,
        (low >> 40) & 0xf000 <= 0xf000,
{
    crate::bits::lemma_word(low);
}

/// Whether a slot holds a task-state segment that is present.
pub open spec fn is_tss(low: u64) -> bool {
    &&& low & 0x1000_0000_0000 == 0
    &&& low & 0x8000_0000_0000 != 0
    &&& ((low >> 40) & 0xf == 9 || (low >> 40) & 0xf == 11)
}

/// The task-state segment that a task register names, in a table that reaches
/// up to its limit.
pub fn read_tss_checked(table: &[u64], table_limit: u16, tr: u16) -> (result: MonadResult<TssState>)
    requires
        table@.len() * 8 > table_limit,
    ensures
        ({
            let bad = spec_state_error(
                ErrorCode::InvalidDescriptor,
                StateErrorDetail::InvalidTaskRegister,
            );
            let slot = tr as int / 8;
            if tr & 0x4 != 0 || tr < 8 {
                result == Err::<TssState, MonadError>(bad)
            } else if slot * 8 + 15 > table_limit {
                result == Err::<TssState, MonadError>(
                    spec_state_error(
                        ErrorCode::InvalidDescriptor,
                        StateErrorDetail::DescriptorOutOfBounds,
                    ),
                )
            } else if !is_tss(table@[slot]) {
                result == Err::<TssState, MonadError>(bad)
            } else {
                result == Ok::<TssState, MonadError>(
                    spec_decode_tss_slots(table@[slot], table@[slot + 1]),
                )
            }
        }),
{
    proof {
        lemma_selector(tr);
    }
    if tr & 0x4 != 0 || tr & !0x7u16 == 0 {
        return Err(
            state_error(ErrorCode::InvalidDescriptor, StateErrorDetail::InvalidTaskRegister),
        );
    }
    let index: usize = descriptor_slot_range(tr, table_limit, 2)?;
    let low: u64 = table[index];
    let high: u64 = table[index + 1];
    let descriptor_type: u64 = (low >> 40) & 0xf;
    let system: bool = low & 0x1000_0000_0000 == 0;
    let present: bool = low & 0x8000_0000_0000 != 0;
    if !system || !present || (descriptor_type != 9 && descriptor_type != 11) {
        return Err(
            state_error(ErrorCode::InvalidDescriptor, StateErrorDetail::InvalidTaskRegister),
        );
    }
    Ok(decode_tss_slots(low, high))
}

/// The access rights of a segment by what the processor loads of them. Only
/// the bits that are defined are kept.
pub open spec fn spec_segment_access_from_lar(selector: u16, lar_result: Option<u32>) -> u32 {
    match lar_result {
        Some(rights) => if selector & !0x3u16 == 0 {
            SEGMENT_UNUSABLE
        } else {
            (rights >> 8) & 0xf0ff
        },
        None => SEGMENT_UNUSABLE,
    }
}

/// The access rights of a segment by what the processor loads of them.
#[verifier::when_used_as_spec(spec_segment_access_from_lar)]
pub fn segment_access_from_lar(selector: u16, lar_result: Option<u32>) -> (rights: u32)
    ensures
        rights == spec_segment_access_from_lar(selector, lar_result),
{
    match lar_result {
        Some(rights) => {
            if selector & !0x3u16 == 0 {
                return SEGMENT_UNUSABLE;
            }
            (rights >> 8) & 0xf0ff
        },
        None => SEGMENT_UNUSABLE,
    }
}

/// A control register as the guest runs with it and sees it.
#[derive(Debug, Clone, Copy, PartialEq, Eq, Structural)]
pub struct NormalizedControlState {
    pub guest: u64,
    pub mask: u64,
    pub read_shadow: u64,
}

pub open spec fn spec_normalize_rflags(input: u64) -> u64 {
    ((input & RFLAGS_ARCHITECTURAL_MASK) & !(RFLAGS_VM | RFLAGS_IOPL)) | RFLAGS_FIXED_ONE
}

/// Flags that a guest can be entered with.
#[verifier::when_used_as_spec(spec_normalize_rflags)]
pub fn normalize_rflags(input: u64) -> (flags: u64)
    ensures
        flags == spec_normalize_rflags(input),
{
    ((input & RFLAGS_ARCHITECTURAL_MASK) & !(RFLAGS_VM | RFLAGS_IOPL)) | RFLAGS_FIXED_ONE
}

/// Flags that were normalized have the fixed bit, neither virtual-8086 mode nor
/// an I/O privilege level, nothing that is reserved, and all else as it was.
pub proof fn law_normalized_rflags(input: u64)
    by (bit_vector)
    ensures
        ({
            let flags = spec_normalize_rflags(input);
            &&& flags & 0x2 != 0
            &&& flags & 0x2_0000 == 0
            &&& flags & 0x3000 == 0
            &&& flags & !0x003f_7fd7u64 == 0
            &&& flags & 0x003d_4fd5 == input & 0x003d_4fd5
        }),
{
}

/// What a control register comes to under its fixed bits, and what it cannot
/// be brought to.
pub open spec fn normalized_control(
    requested: u64,
    fixed0: u64,
    fixed1: u64,
    mask: u64,
    read_shadow: u64,
) -> MonadResult<NormalizedControlState> {
    let normalized = (requested | fixed0) & fixed1;
    if fixed0 & !fixed1 != 0 {
        Err(
            spec_state_error(
                ErrorCode::InvalidGuestState,
                StateErrorDetail::InvalidFixedMasks,
            ),
        )
    } else if (requested ^ normalized) & !mask != 0 || (read_shadow ^ requested) & mask != 0 {
        Err(
            spec_state_error(
                ErrorCode::InvalidGuestState,
                StateErrorDetail::InvalidReadShadow,
            ),
        )
    } else {
        Ok(NormalizedControlState { guest: normalized, mask, read_shadow })
    }
}

/// Brings a control register under its fixed bits. What that changes must be
/// masked, and what is masked must read as it was requested.
pub fn normalize_control_state(
    requested: u64,
    fixed0: u64,
    fixed1: u64,
    mask: u64,
    read_shadow: u64,
) -> (result: MonadResult<NormalizedControlState>)
    ensures
        result == normalized_control(requested, fixed0, fixed1, mask, read_shadow),
{
    if fixed0 & !fixed1 != 0 {
        return Err(
            state_error(ErrorCode::InvalidGuestState, StateErrorDetail::InvalidFixedMasks),
        );
    }
    let normalized: u64 = (requested | fixed0) & fixed1;
    let forced: u64 = requested ^ normalized;
    if forced & !mask != 0 {
        return Err(
            state_error(ErrorCode::InvalidGuestState, StateErrorDetail::InvalidReadShadow),
        );
    }
    if (read_shadow ^ requested) & mask != 0 {
        return Err(
            state_error(ErrorCode::InvalidGuestState, StateErrorDetail::InvalidReadShadow),
        );
    }
    Ok(NormalizedControlState { guest: normalized, mask, read_shadow })
}

proof fn lemma_normalized(requested: u64, fixed0: u64, fixed1: u64, mask: u64, shadow: u64)
    by (bit_vector)
    requires
        fixed0 & !fixed1 == 0,
        (requested ^ ((requested | fixed0) & fixed1)) & !mask == 0,
        (shadow ^ requested) & mask == 0,
    ensures
        fixed0 & !((requested | fixed0) & fixed1) == 0,
        ((requested | fixed0) & fixed1) & !fixed1 == 0,
        (((requested | fixed0) & fixed1) & !mask) | (shadow & mask) == requested,
{
}

/// A register that was normalized meets its fixed bits, and the guest reads
/// what was requested.
pub proof fn law_normalized_control(
    requested: u64,
    fixed0: u64,
    fixed1: u64,
    mask: u64,
    read_shadow: u64,
    state: NormalizedControlState,
)
    requires
        normalized_control(requested, fixed0, fixed1, mask, read_shadow) == Ok::<
            NormalizedControlState,
            MonadError,
        >(state),
    ensures
        fixed0 & !state.guest == 0,
        state.guest & !fixed1 == 0,
        (state.guest & !state.mask) | (state.read_shadow & state.mask) == requested,
{
    lemma_normalized(requested, fixed0, fixed1, mask, read_shadow);
}

} // verus!
