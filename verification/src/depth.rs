//! Depth keys: unsigned integers that order depth values.
//!
//! The depth buffer stores `u32` keys and compares them with `<`. A key is
//! made from the bit pattern of an IEEE-754 single-precision number in such a
//! way that the numeric order of the numbers is the integer order of their
//! keys. Positive and negative zero share one key, and every pattern that is
//! not a number gets the key of positive infinity, so that it never passes a
//! depth test.

use vstd::prelude::*;

verus! {

/// The key of positive infinity: what a cleared depth buffer holds.
pub const DEPTH_INFINITY: u32 = 0xFF80_0000;

/// The key of zero.
pub const DEPTH_ZERO: u32 = 0x8000_0000;

/// Bit pattern of positive infinity.
pub const BITS_INFINITY: u32 = 0x7F80_0000;

/// Mask of the sign bit, which is also the bit pattern of negative zero.
pub const BITS_SIGN: u32 = 0x8000_0000;

/// The magnitude part of a bit pattern: exponent and mantissa, sign dropped.
pub open spec fn bits_magnitude(bits: u32) -> int {
    if bits >= BITS_SIGN {
        bits - BITS_SIGN
    } else {
        bits as int
    }
}

/// Whether the pattern has its sign bit set.
pub open spec fn bits_negative(bits: u32) -> bool {
    bits >= BITS_SIGN
}

/// Whether the pattern stands for no number: all exponent bits set and a
/// mantissa that is not zero.
pub open spec fn bits_is_nan(bits: u32) -> bool {
    bits_magnitude(bits) > BITS_INFINITY
}

/// The rank of a pattern that stands for a number. IEEE-754 patterns are
/// sign and magnitude, and for two numbers `a < b` holds exactly when the
/// rank of `a` is below the rank of `b`.
pub open spec fn bits_rank(bits: u32) -> int {
    if bits_negative(bits) {
        -bits_magnitude(bits)
    } else {
        bits_magnitude(bits)
    }
}

/// The key that stands for a bit pattern.
pub open spec fn spec_depth_key(bits: u32) -> u32 {
    if bits_is_nan(bits) {
        DEPTH_INFINITY
    } else {
        (DEPTH_ZERO + bits_rank(bits)) as u32
    }
}

/// The bit pattern that a key stands for; keys outside the range of
/// [`spec_depth_key`] are read as the nearest end of that range.
pub open spec fn spec_depth_bits(key: u32) -> u32 {
    if key >= DEPTH_INFINITY {
        BITS_INFINITY
    } else if key >= DEPTH_ZERO {
        (key - DEPTH_ZERO) as u32
    } else if key >= DEPTH_ZERO - BITS_INFINITY {
        (BITS_SIGN + (DEPTH_ZERO - key)) as u32
    } else {
        (BITS_SIGN + BITS_INFINITY) as u32
    }
}

/// Turns the bit pattern of a single-precision number into its depth key.
pub fn depth_key_from_bits(bits: u32) -> (key: u32)
    ensures
        key == spec_depth_key(bits),
        DEPTH_ZERO - BITS_INFINITY <= key <= DEPTH_INFINITY,
{
    if bits >= BITS_SIGN {
        let magnitude: u32 = bits - BITS_SIGN;
        if magnitude > BITS_INFINITY {
            DEPTH_INFINITY
        } else {
            DEPTH_ZERO - magnitude
        }
    } else if bits > BITS_INFINITY {
        DEPTH_INFINITY
    } else {
        DEPTH_ZERO + bits
    }
}

/// Turns a depth key back into a bit pattern.
pub fn depth_bits_from_key(key: u32) -> (bits: u32)
    ensures
        bits == spec_depth_bits(key),
        !bits_is_nan(bits),
{
    if key >= DEPTH_INFINITY {
        BITS_INFINITY
    } else if key >= DEPTH_ZERO {
        key - DEPTH_ZERO
    } else if key >= DEPTH_ZERO - BITS_INFINITY {
        BITS_SIGN + (DEPTH_ZERO - key)
    } else {
        BITS_SIGN + BITS_INFINITY
    }
}

/// Keys order patterns as their ranks do: for two patterns that stand for
/// numbers, one key is below the other exactly when the rank is.
pub proof fn lemma_depth_key_monotone(a: u32, b: u32)
    requires
        !bits_is_nan(a),
        !bits_is_nan(b),
    ensures
        spec_depth_key(a) < spec_depth_key(b) <==> bits_rank(a) < bits_rank(b),
        spec_depth_key(a) == spec_depth_key(b) <==> bits_rank(a) == bits_rank(b),
{
}

/// A pattern that stands for no number never passes a depth test against a
/// key that came from a pattern: its key is below none of them.
pub proof fn lemma_nan_key_is_farthest(nan: u32, other: u32)
    requires
        bits_is_nan(nan),
    ensures
        spec_depth_key(nan) == DEPTH_INFINITY,
        spec_depth_key(other) <= spec_depth_key(nan),
{
}

/// Going from a pattern to its key and back gives the pattern again, but for
/// negative zero, which comes back as positive zero.
pub proof fn lemma_depth_key_round_trip(bits: u32)
    requires
        !bits_is_nan(bits),
        bits != BITS_SIGN,
    ensures
        spec_depth_bits(spec_depth_key(bits)) == bits,
{
}

} // verus!
