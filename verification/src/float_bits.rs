//! The three bit fields of an IEEE 754 single-precision number.

use vstd::prelude::*;

verus! {

/// The sign bit (bit 31) of a bit pattern.
pub open spec fn sign_field(bits: u32) -> int {
    (bits as int) / 0x8000_0000
}

/// The eight exponent bits (bits 23 to 30) of a bit pattern.
pub open spec fn exponent_field(bits: u32) -> int {
    ((bits as int) / 0x80_0000) % 0x100
}

/// The 23 fraction bits (bits 0 to 22) of a bit pattern.
pub open spec fn fraction_field(bits: u32) -> int {
    (bits as int) % 0x80_0000
}

/// Splits the bit pattern of an `f32` (as `f32::to_bits` gives it) into
/// its sign, exponent and fraction fields.
pub fn to_parts(bits: u32) -> (parts: (u32, u32, u32))
    ensures
        parts.0 == sign_field(bits),
        parts.1 == exponent_field(bits),
        parts.2 == fraction_field(bits),
{
    let sign = (bits >> 31u32) & 1;
    let exponent = (bits >> 23u32) & 0xff;
    let fraction = bits & 0x7fffff;
    assert(sign == bits / 0x8000_0000 && exponent == (bits / 0x80_0000) % 0x100 && fraction
        == bits % 0x80_0000) by (bit_vector)
        requires
            sign == (bits >> 31u32) & 1,
            exponent == (bits >> 23u32) & 0xff,
            fraction == bits & 0x7fffff,
    ;
    (sign, exponent, fraction)
}

/// The three fields lose nothing: each fits its width, and together they
/// give back the bit pattern.
pub proof fn lemma_parts_reassemble(bits: u32)
    ensures
        0 <= sign_field(bits) < 2,
        0 <= exponent_field(bits) < 0x100,
        0 <= fraction_field(bits) < 0x80_0000,
        sign_field(bits) * 0x8000_0000 + exponent_field(bits) * 0x80_0000 + fraction_field(bits)
            == bits,
{
    let b = bits as int;
    assert(b == (b / 0x80_0000) * 0x80_0000 + b % 0x80_0000);
    assert(b / 0x80_0000 == (b / 0x8000_0000) * 0x100 + (b / 0x80_0000) % 0x100);
}

} // verus!
