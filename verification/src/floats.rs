//! What the bits of a float in IEEE form say of it: one sign, eleven bits of
//! exponent, fifty-two of fraction.

use vstd::prelude::*;

verus! {

/// The bits of the exponent.
pub open spec fn exponent(bits: u64) -> int {
    (bits as int / 0x10_0000_0000_0000) % 2048
}

/// The bits of the fraction.
pub open spec fn fraction(bits: u64) -> int {
    bits as int % 0x10_0000_0000_0000
}

/// Whether a float is finite: the bits of its exponent are not all set.
pub open spec fn finite(bits: u64) -> bool {
    exponent(bits) != 2047
}

/// Whether a float is no number: the bits of its exponent are all set, and
/// its fraction is not zero.
pub open spec fn not_a_number(bits: u64) -> bool {
    exponent(bits) == 2047 && fraction(bits) != 0
}

/// Whether a float is less than zero: it is a number, its sign is set, and
/// something else with it.
pub open spec fn below_zero(bits: u64) -> bool {
    bits > 0x8000_0000_0000_0000 && !not_a_number(bits)
}

/// The place of a float that is a number among all of them: both zeros stand in
/// the middle, and of two floats of one sign the bits tell which is larger.
pub open spec fn rank(bits: u64) -> int {
    if bits >= 0x8000_0000_0000_0000 {
        0x8000_0000_0000_0000 - bits
    } else {
        bits as int
    }
}

/// Whether one float is greater than another. What is no number is neither
/// greater nor less.
pub open spec fn above(bits: u64, other: u64) -> bool {
    !not_a_number(bits) && !not_a_number(other) && rank(bits) > rank(other)
}

/// Whether one float is at most another.
pub open spec fn at_most(bits: u64, other: u64) -> bool {
    !not_a_number(bits) && !not_a_number(other) && rank(bits) <= rank(other)
}

/// Decides whether a float is finite.
pub fn is_finite(bits: u64) -> (out: bool)
    ensures
        out == finite(bits),
{
    (bits / 0x10_0000_0000_0000) % 2048 != 2047
}

/// Decides whether a float is less than zero.
pub fn is_below_zero(bits: u64) -> (out: bool)
    ensures
        out == below_zero(bits),
{
    let special: bool = (bits / 0x10_0000_0000_0000) % 2048 == 2047;
    bits > 0x8000_0000_0000_0000 && !(special && bits % 0x10_0000_0000_0000 != 0)
}

/// Floats by their bits: without the sign, what stands below the pattern of
/// infinity is finite, and what stands above it is no number. Less than zero is
/// what has the sign and is neither zero nor beyond infinity.
pub proof fn law_floats_by_their_bits(bits: u64)
    ensures
        finite(bits) <==> bits % 0x8000_0000_0000_0000 < 0x7ff0_0000_0000_0000,
        not_a_number(bits) <==> bits % 0x8000_0000_0000_0000 > 0x7ff0_0000_0000_0000,
        below_zero(bits) <==> 0x8000_0000_0000_0000 < bits <= 0xfff0_0000_0000_0000,
{
}

/// Of two floats that are numbers exactly one of greater and at most holds,
/// what is no number is neither, and both zeros are the same.
pub proof fn law_floats_are_ordered(bits: u64, other: u64)
    ensures
        !not_a_number(bits) && !not_a_number(other) ==> above(bits, other) != at_most(bits, other),
        not_a_number(bits) || not_a_number(other) ==> !above(bits, other) && !at_most(bits, other),
        rank(0x8000_0000_0000_0000) == rank(0),
        bits < other < 0x8000_0000_0000_0000 ==> rank(bits) < rank(other),
        0x8000_0000_0000_0000 <= bits < other ==> rank(bits) > rank(other),
        bits < 0x8000_0000_0000_0000 <= other ==> rank(other) <= rank(bits),
        !not_a_number(bits) ==> (below_zero(bits) <==> above(0, bits)),
{
}

} // verus!
