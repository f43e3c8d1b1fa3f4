use vstd::prelude::*;

verus! {

/// The lowest bit of a byte is its remainder modulo 2.
pub proof fn lemma_low_bit(value: u8)
    by (bit_vector)
    ensures
        value & 1 == value % 2,
{
}

/// A shift to the right by one halves a byte.
pub proof fn lemma_shift_right(value: u8)
    by (bit_vector)
    ensures
        value >> 1 == value / 2,
{
}

/// The highest bit of a byte is its quotient by 128.
pub proof fn lemma_high_bit(value: u8)
    by (bit_vector)
    ensures
        value >> 7 == value / 128,
{
}

/// A shift to the left by one doubles a byte modulo 256.
pub proof fn lemma_shift_left(value: u8)
    by (bit_vector)
    ensures
        value << 1 == (value * 2) % 256,
{
}

/// Two bytes, the high one shifted over the low one, are the word with the
/// high byte first.
pub proof fn lemma_word_of_bytes(high: u8, low: u8)
    by (bit_vector)
    ensures
        ((high as u16) << 8) | (low as u16) == high * 0x100 + low,
{
}

/// A masked byte has no bit outside the mask.
pub proof fn lemma_masked(value: u8, mask: u8)
    by (bit_vector)
    ensures
        (value & mask) & !mask == 0,
{
}

/// Toggling the lowest bit twice gives the byte back.
pub proof fn lemma_toggle_twice(value: u8)
    by (bit_vector)
    ensures
        (value ^ 1) ^ 1 == value,
{
}

/// Toggling the lowest bit gives 1 exactly from 0.
pub proof fn lemma_toggle_to_one(value: u8)
    by (bit_vector)
    ensures
        (value ^ 1 == 1) <==> value == 0,
{
}

/// Toggling the lowest bit of 0 or 1 gives 1 or 0.
pub proof fn lemma_toggle_stays_binary(value: u8)
    by (bit_vector)
    requires
        value <= 1,
    ensures
        value ^ 1 <= 1,
{
}

} // verus!
