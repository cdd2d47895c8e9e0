use vstd::prelude::*;

verus! {

/// A density of the noise field: a single-precision number, held as its 32 bits
/// (sign, eight bits of exponent, twenty-three bits of fraction).
pub type DensityBits = u32;

/// The bits of negative zero: the sign bit alone.
pub const NEGATIVE_ZERO_BITS: u32 = 0x8000_0000;

/// The bits of negative infinity: the largest pattern with the sign bit set that
/// is still a number.
pub const NEGATIVE_INFINITY_BITS: u32 = 0xff80_0000;

/// Whether the number with these bits is less than zero. Such a number has its
/// sign bit set, is not negative zero, and is not one of the patterns past
/// negative infinity, which are not numbers and compare below nothing.
pub open spec fn density_below_zero(bits: DensityBits) -> bool {
    NEGATIVE_ZERO_BITS < bits <= NEGATIVE_INFINITY_BITS
}

/// A voxel is filled exactly where the density is below zero.
pub fn is_below_zero(bits: DensityBits) -> (b: bool)
    ensures
        b == density_below_zero(bits),
{
    NEGATIVE_ZERO_BITS < bits && bits <= NEGATIVE_INFINITY_BITS
}

/// A density below zero has its sign bit set and, if its exponent is all ones,
/// no fraction; every other pattern is zero, positive or not a number.
pub proof fn lemma_density_below_zero_bits(bits: DensityBits)
    ensures
        density_below_zero(bits) <==> {
            &&& bits & 0x8000_0000 == 0x8000_0000
            &&& bits & 0x7fff_ffff != 0
            &&& (bits & 0x7f80_0000 == 0x7f80_0000 ==> bits & 0x007f_ffff == 0)
        },
{
    assert((0x8000_0000u32 < bits && bits <= 0xff80_0000u32) <==> (bits & 0x8000_0000 == 0x8000_0000
        && bits & 0x7fff_ffff != 0 && (bits & 0x7f80_0000 == 0x7f80_0000 ==> bits & 0x007f_ffff
        == 0))) by (bit_vector);
}

} // verus!
