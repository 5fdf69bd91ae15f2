//! Facts about masks and shifts that the address and register code rests on.

use vstd::prelude::*;

verus! {

/// The first address that does not fit in `bits` physical address bits.
pub open spec fn width_limit(bits: u8) -> u64 {
    1u64 << (bits as u64)
}

/// A power of two, as the bit trick sees it: one bit set.
pub open spec fn one_bit(value: u64) -> bool {
    value != 0 && value & ((value - 1) as u64) == 0
}

/// What masks, shifts and quotients of one word have to do with each other.
pub proof fn lemma_word(x: u64)
    by (bit_vector)
    ensures
        x & 0xfffu64 == x % 0x1000,
        x & 0x1f_ffffu64 == x % 0x20_0000,
        x & 0x3fff_ffffu64 == x % 0x4000_0000,
        (x & !0xfffu64) + x % 0x1000 == x,
        (x & !0x3fff_ffffu64) + x % 0x4000_0000 == x,
        (x >> 12) << 12 == x & !0xfffu64,
        0x1000u64 & 0xfffu64 == 0,
        0x20_0000u64 & 0x1f_ffffu64 == 0,
        0x4000_0000u64 & 0x3fff_ffffu64 == 0,
        (x & 0x1u64 != 0) == ((x / 0x1) % 2 == 1),
        (x & 0x2u64 != 0) == ((x / 0x2) % 2 == 1),
        (x & 0x4u64 != 0) == ((x / 0x4) % 2 == 1),
        (x & 0x8u64 != 0) == ((x / 0x8) % 2 == 1),
        (x & 0x20u64 != 0) == ((x / 0x20) % 2 == 1),
        (x & 0x40u64 != 0) == ((x / 0x40) % 2 == 1),
        (x & 0x80u64 != 0) == ((x / 0x80) % 2 == 1),
        (x & 0x100u64 != 0) == ((x / 0x100) % 2 == 1),
        (x & 0x400u64 != 0) == ((x / 0x400) % 2 == 1),
        (x & 0x800u64 != 0) == ((x / 0x800) % 2 == 1),
        (x & 0x1000u64 != 0) == ((x / 0x1000) % 2 == 1),
        (x & 0x2000u64 != 0) == ((x / 0x2000) % 2 == 1),
        (x & 0x4000u64 != 0) == ((x / 0x4000) % 2 == 1),
        (x & 0x10000u64 != 0) == ((x / 0x10000) % 2 == 1),
        (x & 0x20000u64 != 0) == ((x / 0x20000) % 2 == 1),
        (x & 0x40000u64 != 0) == ((x / 0x40000) % 2 == 1),
        (x & 0x200000u64 != 0) == ((x / 0x200000) % 2 == 1),
        (x & 0x800000u64 != 0) == ((x / 0x800000) % 2 == 1),
        (x & 0x8000000u64 != 0) == ((x / 0x8000000) % 2 == 1),
        (x & 0x80000000u64 != 0) == ((x / 0x80000000) % 2 == 1),
        (x & 0x100000000u64 != 0) == ((x / 0x100000000) % 2 == 1),
        (x & 0x1000000000u64 != 0) == ((x / 0x1000000000) % 2 == 1),
        (x & 0x100000000000u64 != 0) == ((x / 0x100000000000) % 2 == 1),
        (x & 0x800000000000u64 != 0) == ((x / 0x800000000000) % 2 == 1),
        (x & 0x1000000000000u64 != 0) == ((x / 0x1000000000000) % 2 == 1),
        (x & 0x4000000000000u64 != 0) == ((x / 0x4000000000000) % 2 == 1),
        (x & 0x40000000000000u64 != 0) == ((x / 0x40000000000000) % 2 == 1),
        (x & 0x80000000000000u64 != 0) == ((x / 0x80000000000000) % 2 == 1),
        (x & 0x8000000000000000u64 != 0) == ((x / 0x8000000000000000) % 2 == 1),
        x | (1u64 << 16u64) == if (x / 0x1_0000) % 2 == 1 {
            x as int
        } else {
            x + 0x1_0000
        },
        (x >> 39) & 0x1ffu64 == (x / 0x80_0000_0000) % 512,
        (x >> 30) & 0x1ffu64 == (x / 0x4000_0000) % 512,
        (x >> 21) & 0x1ffu64 == (x / 0x20_0000) % 512,
        (x >> 12) & 0x1ffu64 == (x / 0x1000) % 512,
        x & 0xffu64 < 0x100,
        (x >> 0u64) & 0xff == x % 0x100,
        (x >> 8u64) & 0xff == (x / 0x100) % 0x100,
        (x >> 16u64) & 0xff == (x / 0x1_0000) % 0x100,
        (x >> 24u64) & 0xff == (x / 0x100_0000) % 0x100,
        (x >> 32u64) & 0xff == (x / 0x1_0000_0000) % 0x100,
        (x >> 40u64) & 0xff == (x / 0x100_0000_0000) % 0x100,
        (x >> 48u64) & 0xff == (x / 0x1_0000_0000_0000) % 0x100,
        (x >> 56u64) & 0xff == (x / 0x100_0000_0000_0000) % 0x100,
        x & 0xff == x % 0x100,
        (x & !0xcffu64 != 0) == (x / 0x1000 != 0 || (x / 0x100) % 4 != 0),
        x as u16 == x % 0x1_0000,
        x as u32 == x % 0x1_0000_0000,
        (x & !0xfffu64) % 0x1000 == 0,
        x & 0xfff < 0x1000,
        x & 7 <= 7,
        x & !0x3fff_ffffu64 == (x / 0x4000_0000) * 0x4000_0000,
        x == 0 ==> x & 0x7 == 0,
        (x & 0x7) & 1 == x & 1,
        (x & 0x7) & 2 == x & 2,
        (x & 0x7) & 4 == x & 4,
        (x & 0x000f_ffff_ffff_f000) % 0x1000 == 0,
        (x & 0x000f_ffff_ffff_f000) & 0xfff == 0,
        (x & 0x000f_ffff_ffff_f000) < 0x10_0000_0000_0000,
        (x >> 3) & 0x7 < 8,
        x & 0x7 != 0 ==> x & 1 != 0 || x & 2 != 0 || x & 4 != 0,
        6u64 | (3u64 << 3) | ((x >> 12) << 12) != 0,
        x & 0xffff <= 0xffff,
        (x >> 48) & 0xf <= 0xf,
        (x >> 40) & 0xff <= 0xff,
        (x >> 40) & 0xf000 <= 0xf000,
        1u64 << 63u64 == 0x8000_0000_0000_0000u64,
        x & 0x7fff_ffff == x % 0x8000_0000,
        x & 0x7fff_ffff <= 0x7fff_ffff,
{
}

/// Low masks are remainders, and clearing them rounds down.
pub proof fn lemma_low_masks(x: u64)
    ensures
        x & 0xfffu64 == x % 0x1000,
        x & 0x1f_ffffu64 == x % 0x20_0000,
        x & 0x3fff_ffffu64 == x % 0x4000_0000,
        (x & !0xfffu64) + x % 0x1000 == x,
        (x & !0x3fff_ffffu64) + x % 0x4000_0000 == x,
        (x >> 12) << 12 == x & !0xfffu64,
        0x1000u64 & 0xfffu64 == 0,
        0x20_0000u64 & 0x1f_ffffu64 == 0,
        0x4000_0000u64 & 0x3fff_ffffu64 == 0,
{
    lemma_word(x);
}

/// A mask of one bit tells whether the bit's quotient is odd.
pub proof fn lemma_single_bits(x: u64)
    ensures
        (x & 0x1u64 != 0) == ((x / 0x1) % 2 == 1),
        (x & 0x2u64 != 0) == ((x / 0x2) % 2 == 1),
        (x & 0x4u64 != 0) == ((x / 0x4) % 2 == 1),
        (x & 0x8u64 != 0) == ((x / 0x8) % 2 == 1),
        (x & 0x20u64 != 0) == ((x / 0x20) % 2 == 1),
        (x & 0x40u64 != 0) == ((x / 0x40) % 2 == 1),
        (x & 0x80u64 != 0) == ((x / 0x80) % 2 == 1),
        (x & 0x100u64 != 0) == ((x / 0x100) % 2 == 1),
        (x & 0x400u64 != 0) == ((x / 0x400) % 2 == 1),
        (x & 0x800u64 != 0) == ((x / 0x800) % 2 == 1),
        (x & 0x1000u64 != 0) == ((x / 0x1000) % 2 == 1),
        (x & 0x2000u64 != 0) == ((x / 0x2000) % 2 == 1),
        (x & 0x4000u64 != 0) == ((x / 0x4000) % 2 == 1),
        (x & 0x10000u64 != 0) == ((x / 0x10000) % 2 == 1),
        (x & 0x20000u64 != 0) == ((x / 0x20000) % 2 == 1),
        (x & 0x40000u64 != 0) == ((x / 0x40000) % 2 == 1),
        (x & 0x200000u64 != 0) == ((x / 0x200000) % 2 == 1),
        (x & 0x800000u64 != 0) == ((x / 0x800000) % 2 == 1),
        (x & 0x8000000u64 != 0) == ((x / 0x8000000) % 2 == 1),
        (x & 0x80000000u64 != 0) == ((x / 0x80000000) % 2 == 1),
        (x & 0x100000000u64 != 0) == ((x / 0x100000000) % 2 == 1),
        (x & 0x1000000000u64 != 0) == ((x / 0x1000000000) % 2 == 1),
        (x & 0x100000000000u64 != 0) == ((x / 0x100000000000) % 2 == 1),
        (x & 0x800000000000u64 != 0) == ((x / 0x800000000000) % 2 == 1),
        (x & 0x1000000000000u64 != 0) == ((x / 0x1000000000000) % 2 == 1),
        (x & 0x4000000000000u64 != 0) == ((x / 0x4000000000000) % 2 == 1),
        (x & 0x40000000000000u64 != 0) == ((x / 0x40000000000000) % 2 == 1),
        (x & 0x80000000000000u64 != 0) == ((x / 0x80000000000000) % 2 == 1),
        (x & 0x8000000000000000u64 != 0) == ((x / 0x8000000000000000) % 2 == 1),
{
    lemma_word(x);
}

/// Bits and fields of a short word, as quotients and remainders.
pub proof fn lemma_short_word(x: u32)
    by (bit_vector)
    ensures
        (x & 0x1u32 != 0) == ((x / 0x1) % 2 == 1),
        (x & 0x2u32 != 0) == ((x / 0x2) % 2 == 1),
        (x & 0x4u32 != 0) == ((x / 0x4) % 2 == 1),
        (x & 0x8u32 != 0) == ((x / 0x8) % 2 == 1),
        (x & 0x10u32 != 0) == ((x / 0x10) % 2 == 1),
        (x & 0x20u32 != 0) == ((x / 0x20) % 2 == 1),
        (x & 0x40u32 != 0) == ((x / 0x40) % 2 == 1),
        (x & 0x80u32 != 0) == ((x / 0x80) % 2 == 1),
        (x & 0x100u32 != 0) == ((x / 0x100) % 2 == 1),
        (x & 0x200u32 != 0) == ((x / 0x200) % 2 == 1),
        (x & 0x400u32 != 0) == ((x / 0x400) % 2 == 1),
        (x & 0x800u32 != 0) == ((x / 0x800) % 2 == 1),
        (x & 0x1000u32 != 0) == ((x / 0x1000) % 2 == 1),
        (x & 0x2000u32 != 0) == ((x / 0x2000) % 2 == 1),
        (x & 0x4000u32 != 0) == ((x / 0x4000) % 2 == 1),
        (x & 0x8000u32 != 0) == ((x / 0x8000) % 2 == 1),
        (x & 0x10000u32 != 0) == ((x / 0x10000) % 2 == 1),
        (x & 0x20000u32 != 0) == ((x / 0x20000) % 2 == 1),
        (x & 0x40000u32 != 0) == ((x / 0x40000) % 2 == 1),
        (x & 0x80000u32 != 0) == ((x / 0x80000) % 2 == 1),
        (x & 0x100000u32 != 0) == ((x / 0x100000) % 2 == 1),
        (x & 0x200000u32 != 0) == ((x / 0x200000) % 2 == 1),
        (x & 0x400000u32 != 0) == ((x / 0x400000) % 2 == 1),
        (x & 0x800000u32 != 0) == ((x / 0x800000) % 2 == 1),
        (x & 0x1000000u32 != 0) == ((x / 0x1000000) % 2 == 1),
        (x & 0x2000000u32 != 0) == ((x / 0x2000000) % 2 == 1),
        (x & 0x4000000u32 != 0) == ((x / 0x4000000) % 2 == 1),
        (x & 0x8000000u32 != 0) == ((x / 0x8000000) % 2 == 1),
        (x & 0x10000000u32 != 0) == ((x / 0x10000000) % 2 == 1),
        (x & 0x20000000u32 != 0) == ((x / 0x20000000) % 2 == 1),
        (x & 0x40000000u32 != 0) == ((x / 0x40000000) % 2 == 1),
        (x & 0x80000000u32 != 0) == ((x / 0x80000000) % 2 == 1),
        (x >> 8) & 7 == (x / 0x100) % 8,
        (x >> 8) & 0xf0ff == (x / 0x100) % 0x100 + 0x1000 * ((x / 0x10_0000) % 16),
        x & 0xff == x % 0x100,
        x & 0xffff == x % 0x1_0000,
        x | 1 == if x % 2 == 1 {
            x as int
        } else {
            x + 1
        },
        x >> 24 == x / 0x100_0000,
        (x & 0x8000_0000 != 0) == (x >= 0x8000_0000),
        x & !0u32 == x,
        x & !1u32 == x - x % 2,
        x & 0xff <= 0xff,
{
}

/// Single bits of a short word.
pub proof fn lemma_single_bits_u32(x: u32)
    ensures
        (x & 0x1u32 != 0) == ((x / 0x1) % 2 == 1),
        (x & 0x2u32 != 0) == ((x / 0x2) % 2 == 1),
        (x & 0x4u32 != 0) == ((x / 0x4) % 2 == 1),
        (x & 0x8u32 != 0) == ((x / 0x8) % 2 == 1),
        (x & 0x10u32 != 0) == ((x / 0x10) % 2 == 1),
        (x & 0x20u32 != 0) == ((x / 0x20) % 2 == 1),
        (x & 0x40u32 != 0) == ((x / 0x40) % 2 == 1),
        (x & 0x80u32 != 0) == ((x / 0x80) % 2 == 1),
        (x & 0x100u32 != 0) == ((x / 0x100) % 2 == 1),
        (x & 0x200u32 != 0) == ((x / 0x200) % 2 == 1),
        (x & 0x400u32 != 0) == ((x / 0x400) % 2 == 1),
        (x & 0x800u32 != 0) == ((x / 0x800) % 2 == 1),
        (x & 0x1000u32 != 0) == ((x / 0x1000) % 2 == 1),
        (x & 0x2000u32 != 0) == ((x / 0x2000) % 2 == 1),
        (x & 0x4000u32 != 0) == ((x / 0x4000) % 2 == 1),
        (x & 0x8000u32 != 0) == ((x / 0x8000) % 2 == 1),
        (x & 0x10000u32 != 0) == ((x / 0x10000) % 2 == 1),
        (x & 0x20000u32 != 0) == ((x / 0x20000) % 2 == 1),
        (x & 0x40000u32 != 0) == ((x / 0x40000) % 2 == 1),
        (x & 0x80000u32 != 0) == ((x / 0x80000) % 2 == 1),
        (x & 0x100000u32 != 0) == ((x / 0x100000) % 2 == 1),
        (x & 0x200000u32 != 0) == ((x / 0x200000) % 2 == 1),
        (x & 0x400000u32 != 0) == ((x / 0x400000) % 2 == 1),
        (x & 0x800000u32 != 0) == ((x / 0x800000) % 2 == 1),
        (x & 0x1000000u32 != 0) == ((x / 0x1000000) % 2 == 1),
        (x & 0x2000000u32 != 0) == ((x / 0x2000000) % 2 == 1),
        (x & 0x4000000u32 != 0) == ((x / 0x4000000) % 2 == 1),
        (x & 0x8000000u32 != 0) == ((x / 0x8000000) % 2 == 1),
        (x & 0x10000000u32 != 0) == ((x / 0x10000000) % 2 == 1),
        (x & 0x20000000u32 != 0) == ((x / 0x20000000) % 2 == 1),
        (x & 0x40000000u32 != 0) == ((x / 0x40000000) % 2 == 1),
        (x & 0x80000000u32 != 0) == ((x / 0x80000000) % 2 == 1),
{
    lemma_short_word(x);
}

/// Raising a flag of a word adds its weight, unless it was there.
pub proof fn lemma_raised_flag(x: u64)
    ensures
        x | (1u64 << 16u64) == if (x / 0x1_0000) % 2 == 1 {
            x as int
        } else {
            x + 0x1_0000
        },
{
    lemma_word(x);
}

/// Fields of a short word, as quotients and remainders.
pub proof fn lemma_fields_u32(x: u32)
    ensures
        (x >> 8) & 7 == (x / 0x100) % 8,
        (x >> 8) & 0xf0ff == (x / 0x100) % 0x100 + 0x1000 * ((x / 0x10_0000) % 16),
        x & 0xff == x % 0x100,
        x & 0xffff == x % 0x1_0000,
        x | 1 == if x % 2 == 1 {
            x as int
        } else {
            x + 1
        },
{
    lemma_short_word(x);
}

/// What is left of a short word without known flags.
pub proof fn lemma_unknown_flags(x: u32)
    ensures
        x & !0u32 == x,
        x & !1u32 == x - x % 2,
        (x & 1u32 != 0) == (x % 2 == 1),
{
    lemma_short_word(x);
}

/// The index that a table level takes out of an address, as a quotient.
pub proof fn lemma_table_index(x: u64)
    ensures
        (x >> 39) & 0x1ffu64 == (x / 0x80_0000_0000) % 512,
        (x >> 30) & 0x1ffu64 == (x / 0x4000_0000) % 512,
        (x >> 21) & 0x1ffu64 == (x / 0x20_0000) % 512,
        (x >> 12) & 0x1ffu64 == (x / 0x1000) % 512,
{
    lemma_word(x);
}

/// The parts of a pointer to a view do not touch each other.
pub proof fn lemma_pointer(root: u64)
    by (bit_vector)
    ensures
        ({
            let pointer = 6u64 | (3u64 << 3) | ((root >> 12) << 12);
            &&& pointer % 8 == 6
            &&& (pointer / 8) % 8 == 3
            &&& (pointer / 0x40) % 0x40 == 0
            &&& pointer / 0x1000 == root / 0x1000
        }),
{
}

/// The parts of a packed finding do not touch each other.
pub proof fn lemma_packed(kind: u64, level: u64, gpa: u64)
    by (bit_vector)
    requires
        kind < 0x100,
        level < 0x100,
        gpa < 0x1000_0000_0000_0000,
    ensures
        ({
            let detail = kind | (level << 8) | ((gpa >> 12) << 16);
            &&& detail % 0x100 == kind
            &&& (detail / 0x100) % 0x100 == level
            &&& detail / 0x1_0000 == gpa / 0x1000
        }),
{
}

/// A supported physical width bounds a page-aligned limit.
pub proof fn lemma_width_limit(bits: u8)
    by (bit_vector)
    requires
        0 < bits < 64,
    ensures
        1u64 << (bits as u64) >= 2,
        bits <= 48 ==> 1u64 << (bits as u64) <= 0x1_0000_0000_0000,
        bits >= 48 ==> 1u64 << (bits as u64) >= 0x1_0000_0000_0000,
        bits >= 12 ==> 1u64 << (bits as u64) >= 0x1000,
        bits >= 12 ==> (1u64 << (bits as u64)) % 0x1000 == 0,
{
}

/// A page address outside the physical mask lies at or above the width limit.
pub proof fn lemma_physical_mask(address: u64, bits: u8)
    by (bit_vector)
    requires
        12 <= bits <= 48,
        address % 0x1000 == 0,
    ensures
        (address & !((((1u64 << (bits as u64)) - 1) as u64) & !0xfffu64) != 0) == (address >= (
        1u64 << (bits as u64))),
{
}

/// A word with one bit set or cleared.
pub open spec fn with_bit_u64(value: u64, bit: usize, on: bool) -> u64 {
    if on {
        value | (1u64 << (bit as u64))
    } else {
        value & !(1u64 << (bit as u64))
    }
}

/// A word with one bit set or cleared.
pub open spec fn with_bit_u32(value: u32, bit: usize, on: bool) -> u32 {
    if on {
        value | (1u32 << (bit as u32))
    } else {
        value & !(1u32 << (bit as u32))
    }
}

/// Calls `bit_field::BitField::set_bit` on a `u64`. It is taken to set or clear
/// the bit with that index and to leave the others as they are. It panics on an
/// index outside the word.
#[verifier::external_body]
pub(crate) fn set_bit_u64(value: &mut u64, bit: usize, on: bool)
    requires
        bit < 64,
    ensures
        *final(value) == with_bit_u64(*old(value), bit, on),
{
    bit_field::BitField::set_bit(value, bit, on);
}

/// Calls `bit_field::BitField::set_bit` on a `u32`. It is taken to set or clear
/// the bit with that index and to leave the others as they are. It panics on an
/// index outside the word.
#[verifier::external_body]
pub(crate) fn set_bit_u32(value: &mut u32, bit: usize, on: bool)
    requires
        bit < 32,
    ensures
        *final(value) == with_bit_u32(*old(value), bit, on),
{
    bit_field::BitField::set_bit(value, bit, on);
}

} // verus!
