//! Raw conversion words of the HX711 and the signed samples they encode.
use vstd::prelude::*;

verus! {

/// The smallest sample the chip can report: -2^23.
pub const HX711_MINIMUM: i32 = -8388608;

/// The largest sample the chip can report: 2^23 - 1.
pub const HX711_MAXIMUM: i32 = 8388607;

/// Number of data bits in one conversion word.
pub const DATA_BITS: u32 = 24;

/// The signed value of a 24-bit two's-complement word.
pub open spec fn word_value(raw: nat) -> int {
    if raw >= 0x80_0000 {
        raw - 0x100_0000
    } else {
        raw as int
    }
}

/// Widens a 24-bit two's-complement word to an `i32`: when the sign bit
/// (bit 23) is set, the upper eight bits are filled with ones.
pub fn sign_extend(raw: u32) -> (r: i32)
    requires
        raw < 0x100_0000,
    ensures
        r == word_value(raw as nat),
{
    let mut widened = raw;
    if raw & 0x80_0000 != 0 {
        widened = raw | 0xFF00_0000;
    }
    let r = widened as i32;
    assert(raw & 0x80_0000 != 0 <==> raw >= 0x80_0000) by (bit_vector)
        requires
            raw < 0x100_0000,
    ;
    assert(raw & 0x80_0000 != 0 ==> ((raw | 0xFF00_0000) as i32) as int == raw as int - 0x100_0000)
        by (bit_vector)
        requires
            raw < 0x100_0000,
    ;
    assert(raw < 0x80_0000 ==> (raw as i32) as int == raw as int) by (bit_vector);
    r
}

/// Clamps a value into the chip's range `[HX711_MINIMUM, HX711_MAXIMUM]`.
pub fn saturate(value: i32) -> (r: i32)
    ensures
        r == if value < HX711_MINIMUM {
            HX711_MINIMUM
        } else if value > HX711_MAXIMUM {
            HX711_MAXIMUM
        } else {
            value
        },
{
    if value < HX711_MINIMUM {
        HX711_MINIMUM
    } else if value > HX711_MAXIMUM {
        HX711_MAXIMUM
    } else {
        value
    }
}

/// The sample a 24-bit conversion word encodes: the word is sign-extended,
/// then clamped into the chip's range. The clamp never changes a
/// sign-extended word; it guards the range should the widening ever change.
pub fn decode_sample(raw: u32) -> (r: i32)
    requires
        raw < 0x100_0000,
    ensures
        r == word_value(raw as nat),
        HX711_MINIMUM <= r <= HX711_MAXIMUM,
{
    saturate(sign_extend(raw))
}

/// Every 24-bit word encodes a value in the chip's range, and a word with the
/// sign bit set encodes a negative value.
pub proof fn lemma_word_value_range(raw: nat)
    requires
        raw < 0x100_0000,
    ensures
        HX711_MINIMUM <= word_value(raw) <= HX711_MAXIMUM,
        raw >= 0x80_0000 ==> word_value(raw) < 0,
        raw < 0x80_0000 ==> word_value(raw) >= 0,
{
}

} // verus!
