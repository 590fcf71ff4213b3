use vstd::prelude::*;

verus! {

/// The part of a single-precision bit pattern below the sign bit.
pub open spec fn spec_magnitude_bits(bits: u32) -> u32 {
    bits & 0x7fff_ffff
}

/// Whether the sign bit of the pattern is set.
pub open spec fn spec_sign_bit(bits: u32) -> bool {
    bits & 0x8000_0000 != 0
}

/// Whether the pattern is that of a NaN: all exponent bits set and a
/// mantissa that is not zero.
pub open spec fn spec_is_nan(bits: u32) -> bool {
    spec_magnitude_bits(bits) > 0x7f80_0000
}

/// The pattern read as a sign and a magnitude. Numbers that are not NaN
/// compare as these integers do, both zeros being `0`.
pub open spec fn spec_signed_magnitude(bits: u32) -> int {
    if spec_sign_bit(bits) {
        -(spec_magnitude_bits(bits) as int)
    } else {
        spec_magnitude_bits(bits) as int
    }
}

/// The signed magnitude moved up by `2^31`, so that it is never negative.
pub open spec fn spec_rank_key(bits: u32) -> int {
    0x8000_0000 + spec_signed_magnitude(bits)
}

/// Whether `bits` is the pattern of a NaN.
pub fn is_nan_bits(bits: u32) -> (nan: bool)
    ensures
        nan == spec_is_nan(bits),
{
    (bits & 0x7fff_ffff) > 0x7f80_0000
}

/// Maps the bit pattern of a single-precision number to an integer that
/// orders as the numbers do: the larger number has the larger key, and the
/// two zeros share one.
pub fn rank_key(bits: u32) -> (key: u64)
    ensures
        key == spec_rank_key(bits),
{
    let magnitude: u32 = bits & 0x7fff_ffff;
    assert(bits & 0x7fff_ffff <= 0x7fff_ffff) by (bit_vector);
    if bits & 0x8000_0000 != 0 {
        0x8000_0000u64 - magnitude as u64
    } else {
        0x8000_0000u64 + magnitude as u64
    }
}

/// Keys compare exactly as signed magnitudes do, and two patterns share a
/// key only if they are the same or the two zeros.
pub proof fn lemma_rank_key_orders(a: u32, b: u32)
    ensures
        spec_rank_key(a) < spec_rank_key(b) <==> spec_signed_magnitude(a) < spec_signed_magnitude(b),
        0 <= spec_rank_key(a) <= u32::MAX,
        spec_rank_key(a) == spec_rank_key(b) ==> a == b || (spec_magnitude_bits(a) == 0
            && spec_magnitude_bits(b) == 0),
{
    assert(a & 0x7fff_ffff <= 0x7fff_ffff) by (bit_vector);
    assert(b & 0x7fff_ffff <= 0x7fff_ffff) by (bit_vector);
    assert((a & 0x8000_0000 != 0) == (b & 0x8000_0000 != 0) && a & 0x7fff_ffff == b & 0x7fff_ffff
        ==> a == b) by (bit_vector);
}

} // verus!
