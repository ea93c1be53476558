//! Bit fields of 16- and 32-bit configuration words.
//!
//! The executable functions here hand their work to the `bit_field` crate;
//! the spec functions say what that crate computes, with bit 0 the least
//! significant bit.

use bit_field::BitField;
use vstd::prelude::*;

verus! {

/// Whether bit `bit` of `word` is set.
pub open spec fn u32_bit(word: u32, bit: u32) -> bool {
    word & (1u32 << bit) != 0
}

/// Bits `start..end` of `word`, moved down to bit 0.
pub open spec fn u32_bits(word: u32, start: u32, end: u32) -> u32 {
    if start == end {
        0
    } else {
        ((word << ((32 - end) as u32)) >> ((32 - end) as u32)) >> start
    }
}

/// `word` with bit `bit` set or cleared.
pub open spec fn u32_with_bit(word: u32, bit: u32, value: bool) -> u32 {
    if value {
        word | (1u32 << bit)
    } else {
        word & !(1u32 << bit)
    }
}

/// Whether bit `bit` of `word` is set.
pub open spec fn u16_bit(word: u16, bit: u16) -> bool {
    word & (1u16 << bit) != 0
}

/// Bits `start..end` of `word`, moved down to bit 0.
pub open spec fn u16_bits(word: u16, start: u16, end: u16) -> u16 {
    if start == end {
        0
    } else {
        ((word << ((16 - end) as u16)) >> ((16 - end) as u16)) >> start
    }
}

/// `word` with bit `bit` set or cleared.
pub open spec fn u16_with_bit(word: u16, bit: u16, value: bool) -> u16 {
    if value {
        word | (1u16 << bit)
    } else {
        word & !(1u16 << bit)
    }
}

/// The upper half of a configuration word.
pub open spec fn high_u16(word: u32) -> u16 {
    (word >> 16) as u16
}

/// The lower half of a configuration word.
pub open spec fn low_u16(word: u32) -> u16 {
    (word & 0xFFFF) as u16
}

/// The lowest byte of a configuration word.
pub open spec fn low_u8(word: u32) -> u8 {
    (word & 0xFF) as u8
}

/// `BitField::get_bit` of the `bit_field` crate on a `u32`: masks `word`
/// with `1 << bit` and reports whether anything is left. The crate panics
/// for `bit >= 32`.
#[verifier::external_body]
pub(crate) fn get_bit_u32(word: u32, bit: usize) -> (set: bool)
    requires
        bit < 32,
    ensures
        set == u32_bit(word, bit as u32),
{
    word.get_bit(bit)
}

/// `BitField::get_bits` of the `bit_field` crate on a `u32` with the range
/// `start..end`: shifts the bits above `end` out to the left, back, and then
/// the bits below `start` out to the right. The crate panics unless
/// `start < 32`, `end <= 32` and `start <= end`; an empty range is left
/// out as well.
#[verifier::external_body]
pub(crate) fn get_bits_u32(word: u32, start: usize, end: usize) -> (field: u32)
    requires
        start < end,
        end <= 32,
    ensures
        field == u32_bits(word, start as u32, end as u32),
{
    word.get_bits(start..end)
}

/// `BitField::set_bit` of the `bit_field` crate on a `u32`: ors `1 << bit`
/// into the word, or masks it out. The crate panics for `bit >= 32`.
#[verifier::external_body]
pub(crate) fn set_bit_u32(word: u32, bit: usize, value: bool) -> (updated: u32)
    requires
        bit < 32,
    ensures
        updated == u32_with_bit(word, bit as u32, value),
{
    let mut updated: u32 = word;
    updated.set_bit(bit, value);
    updated
}

/// `BitField::get_bit` of the `bit_field` crate on a `u16`: masks `word`
/// with `1 << bit` and reports whether anything is left. The crate panics
/// for `bit >= 16`.
#[verifier::external_body]
pub(crate) fn get_bit_u16(word: u16, bit: usize) -> (set: bool)
    requires
        bit < 16,
    ensures
        set == u16_bit(word, bit as u16),
{
    word.get_bit(bit)
}

/// `BitField::get_bits` of the `bit_field` crate on a `u16` with the range
/// `start..end`: shifts the bits above `end` out to the left, back, and then
/// the bits below `start` out to the right. The crate panics unless
/// `start < 16`, `end <= 16` and `start <= end`; an empty range is left
/// out as well.
#[verifier::external_body]
pub(crate) fn get_bits_u16(word: u16, start: usize, end: usize) -> (field: u16)
    requires
        start < end,
        end <= 16,
    ensures
        field == u16_bits(word, start as u16, end as u16),
{
    word.get_bits(start..end)
}

/// `BitField::set_bit` of the `bit_field` crate on a `u16`: ors `1 << bit`
/// into the word, or masks it out. The crate panics for `bit >= 16`.
#[verifier::external_body]
pub(crate) fn set_bit_u16(word: u16, bit: usize, value: bool) -> (updated: u16)
    requires
        bit < 16,
    ensures
        updated == u16_with_bit(word, bit as u16, value),
{
    let mut updated: u16 = word;
    updated.set_bit(bit, value);
    updated
}

/// The upper half of a configuration word.
pub fn upper_half(word: u32) -> (half: u16)
    ensures
        half == high_u16(word),
{
    (word >> 16) as u16
}

/// The lower half of a configuration word.
pub fn lower_half(word: u32) -> (half: u16)
    ensures
        half == low_u16(word),
{
    (word & 0xFFFF) as u16
}

/// The lowest byte of a configuration word.
pub fn lowest_byte(word: u32) -> (byte: u8)
    ensures
        byte == low_u8(word),
{
    (word & 0xFF) as u8
}

/// The fields that the accessors of this crate cut out of a word, as masks
/// and shifts.
pub proof fn lemma_u32_bits_as_masks(word: u32)
    ensures
        u32_bits(word, 0, 8) == word & 0xFF,
        u32_bits(word, 8, 16) == (word >> 8) & 0xFF,
        u32_bits(word, 16, 24) == (word >> 16) & 0xFF,
        u32_bits(word, 24, 32) == (word >> 24) & 0xFF,
        u32_bits(word, 16, 23) == (word >> 16) & 0x7F,
        u32_bits(word, 1, 3) == (word >> 1) & 0x3,
        u32_bits(word, 11, 16) == (word >> 11) & 0x1F,
        u32_bits(word, 8, 11) == (word >> 8) & 0x7,
{
    assert(u32_bits(word, 0, 8) == word & 0xFF) by (bit_vector);
    assert(u32_bits(word, 8, 16) == (word >> 8) & 0xFF) by (bit_vector);
    assert(u32_bits(word, 16, 24) == (word >> 16) & 0xFF) by (bit_vector);
    assert(u32_bits(word, 24, 32) == (word >> 24) & 0xFF) by (bit_vector);
    assert(u32_bits(word, 16, 23) == (word >> 16) & 0x7F) by (bit_vector);
    assert(u32_bits(word, 1, 3) == (word >> 1) & 0x3) by (bit_vector);
    assert(u32_bits(word, 11, 16) == (word >> 11) & 0x1F) by (bit_vector);
    assert(u32_bits(word, 8, 11) == (word >> 8) & 0x7) by (bit_vector);
}

} // verus!
