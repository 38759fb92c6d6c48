//! Single bits of the 32-bit value behind a set of boolean properties.

use vstd::prelude::*;

verus! {

/// Whether bit `bit` of `bitfield` is one.
pub open spec fn bit_of(bitfield: u32, bit: u8) -> bool {
    (bitfield >> (bit as u32)) & 1u32 == 1u32
}

/// `bitfield` with bit `bit` set to `value` and every other bit as it was.
pub open spec fn with_bit(bitfield: u32, bit: u8, value: bool) -> u32 {
    if value {
        bitfield | (1u32 << (bit as u32))
    } else {
        bitfield & !(1u32 << (bit as u32))
    }
}

/// Whether bit `bit` of `bitfield` is one.
pub fn is_bit_set(bitfield: u32, bit: u8) -> (set: bool)
    requires
        bit < 32,
    ensures
        set == bit_of(bitfield, bit),
{
    let shift: u32 = bit as u32;
    let mask: u32 = 1u32 << shift;
    assert((bitfield & (1u32 << shift) == (1u32 << shift)) == ((bitfield >> shift) & 1u32 == 1u32))
        by (bit_vector)
        requires
            shift < 32,
    ;
    bitfield & mask == mask
}

/// Sets bit `bit` of `bitfield` to `value`.
pub fn set_bit(bitfield: &mut u32, bit: u8, value: bool)
    requires
        bit < 32,
    ensures
        *final(bitfield) == with_bit(*old(bitfield), bit, value),
{
    let shift: u32 = bit as u32;
    let mask: u32 = 1u32 << shift;
    if value {
        *bitfield = *bitfield | mask;
    } else {
        *bitfield = *bitfield & !mask;
    }
}

/// A bit reads as what it was last set to.
pub proof fn lemma_set_bit_reads_back(bitfield: u32, bit: u8, value: bool)
    requires
        bit < 32,
    ensures
        bit_of(with_bit(bitfield, bit, value), bit) == value,
{
    let shift: u32 = bit as u32;
    assert(((bitfield | (1u32 << shift)) >> shift) & 1u32 == 1u32) by (bit_vector)
        requires
            shift < 32,
    ;
    assert(((bitfield & !(1u32 << shift)) >> shift) & 1u32 == 0u32) by (bit_vector)
        requires
            shift < 32,
    ;
}

/// Setting one bit leaves every other bit as it was: the accessors of two
/// different bits of one value touch nothing in common.
pub proof fn lemma_set_bit_keeps_others(bitfield: u32, bit: u8, other: u8, value: bool)
    requires
        bit < 32,
        other < 32,
        bit != other,
    ensures
        bit_of(with_bit(bitfield, bit, value), other) == bit_of(bitfield, other),
{
    let shift: u32 = bit as u32;
    let at: u32 = other as u32;
    assert(((bitfield | (1u32 << shift)) >> at) & 1u32 == (bitfield >> at) & 1u32) by (bit_vector)
        requires
            shift < 32,
            at < 32,
            shift != at,
    ;
    assert(((bitfield & !(1u32 << shift)) >> at) & 1u32 == (bitfield >> at) & 1u32)
        by (bit_vector)
        requires
            shift < 32,
            at < 32,
            shift != at,
    ;
}

/// Setting a bit twice is setting it once, and the later value wins: setting
/// a bit and then clearing it gives what clearing it alone gives.
pub proof fn lemma_set_bit_last_wins(bitfield: u32, bit: u8, first: bool, last: bool)
    requires
        bit < 32,
    ensures
        with_bit(with_bit(bitfield, bit, first), bit, last) == with_bit(bitfield, bit, last),
{
    let shift: u32 = bit as u32;
    assert((bitfield | (1u32 << shift)) | (1u32 << shift) == bitfield | (1u32 << shift))
        by (bit_vector);
    assert((bitfield & !(1u32 << shift)) | (1u32 << shift) == bitfield | (1u32 << shift))
        by (bit_vector);
    assert((bitfield | (1u32 << shift)) & !(1u32 << shift) == bitfield & !(1u32 << shift))
        by (bit_vector);
    assert((bitfield & !(1u32 << shift)) & !(1u32 << shift) == bitfield & !(1u32 << shift))
        by (bit_vector);
}

/// Clearing a bit that was set for a while restores a value in which it was
/// clear before.
pub proof fn lemma_set_then_clear_restores(bitfield: u32, bit: u8)
    requires
        bit < 32,
        !bit_of(bitfield, bit),
    ensures
        with_bit(with_bit(bitfield, bit, true), bit, false) == bitfield,
{
    let shift: u32 = bit as u32;
    assert((bitfield | (1u32 << shift)) & !(1u32 << shift) == bitfield) by (bit_vector)
        requires
            shift < 32,
            (bitfield >> shift) & 1u32 != 1u32,
    ;
}

} // verus!
