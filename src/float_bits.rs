//! Order of IEEE-754 doubles, stated over their 64-bit patterns.
//!
//! For every pattern that is not a NaN, the real it encodes is ordered as the
//! sign-magnitude integer read from the same bits (with both zeros equal).
//! NaN is unordered: every comparison with it is false.
use vstd::prelude::*;

verus! {

/// Bits of the largest magnitude that is not a NaN (an infinity).
pub const INFINITY_MAGNITUDE: u64 = 0x7FF0_0000_0000_0000;

/// Mask that clears the sign bit.
pub const MAGNITUDE_MASK: u64 = 0x7FFF_FFFF_FFFF_FFFF;

/// The sign bit.
pub const SIGN_BIT: u64 = 0x8000_0000_0000_0000;

/// The pattern with the sign bit cleared.
pub open spec fn magnitude(b: u64) -> u64 {
    b & MAGNITUDE_MASK
}

pub open spec fn is_negative(b: u64) -> bool {
    b & SIGN_BIT != 0
}

/// The pattern encodes a NaN: all exponent bits set and a mantissa that is not zero.
pub open spec fn is_nan(b: u64) -> bool {
    magnitude(b) > INFINITY_MAGNITUDE
}

/// An integer ordered as the real that `b` encodes (meaningful where `b` is not NaN).
pub open spec fn real_order(b: u64) -> int {
    if is_negative(b) {
        -(magnitude(b) as int)
    } else {
        magnitude(b) as int
    }
}

/// IEEE `a < b`.
pub open spec fn less(a: u64, b: u64) -> bool {
    !is_nan(a) && !is_nan(b) && real_order(a) < real_order(b)
}

/// IEEE `a <= b`.
pub open spec fn less_eq(a: u64, b: u64) -> bool {
    !is_nan(a) && !is_nan(b) && real_order(a) <= real_order(b)
}

/// `lo <= g <= hi` as doubles.
pub open spec fn within(g: u64, lo: u64, hi: u64) -> bool {
    less_eq(lo, g) && less_eq(g, hi)
}

/// Snap `g` to `lo` when below it and to `hi` when above it; otherwise keep it
/// (a NaN is kept, as no comparison with it holds).
pub open spec fn clamp(g: u64, lo: u64, hi: u64) -> u64 {
    if less(g, lo) {
        lo
    } else if less(hi, g) {
        hi
    } else {
        g
    }
}

/// Total order used to rank fitnesses: the real's order, with every NaN below
/// every other value and all NaNs equal.
pub open spec fn fitness_rank(b: u64) -> int {
    if is_nan(b) {
        -0x8000_0000_0000_0000
    } else {
        real_order(b)
    }
}

/// Computes `fitness_rank` as a machine integer.
pub fn rank_key(b: u64) -> (r: i64)
    ensures
        r as int == fitness_rank(b),
{
    let m = b & MAGNITUDE_MASK;
    assert(m <= MAGNITUDE_MASK) by (bit_vector)
        requires
            m == b & MAGNITUDE_MASK,
    ;
    if m > INFINITY_MAGNITUDE {
        i64::MIN
    } else if b & SIGN_BIT != 0 {
        -(m as i64)
    } else {
        m as i64
    }
}

/// IEEE `a < b` on two patterns.
pub fn lt(a: u64, b: u64) -> (r: bool)
    ensures
        r == less(a, b),
{
    let ka = rank_key(a);
    let kb = rank_key(b);
    if (a & MAGNITUDE_MASK) > INFINITY_MAGNITUDE || (b & MAGNITUDE_MASK) > INFINITY_MAGNITUDE {
        false
    } else {
        ka < kb
    }
}

/// IEEE `a <= b` on two patterns.
pub fn le(a: u64, b: u64) -> (r: bool)
    ensures
        r == less_eq(a, b),
{
    let ka = rank_key(a);
    let kb = rank_key(b);
    if (a & MAGNITUDE_MASK) > INFINITY_MAGNITUDE || (b & MAGNITUDE_MASK) > INFINITY_MAGNITUDE {
        false
    } else {
        ka <= kb
    }
}

/// Clamps `g` into `[lo, hi]` by IEEE comparisons.
pub fn clamp_gene(g: u64, lo: u64, hi: u64) -> (r: u64)
    ensures
        r == clamp(g, lo, hi),
{
    if lt(g, lo) {
        lo
    } else if lt(hi, g) {
        hi
    } else {
        g
    }
}

/// A pattern that is not NaN, clamped into a well-ordered interval, lies in it.
pub proof fn lemma_clamp_within(g: u64, lo: u64, hi: u64)
    requires
        less_eq(lo, hi),
        !is_nan(g),
    ensures
        within(clamp(g, lo, hi), lo, hi),
{
}

/// The bitwise AND of two patterns that are not NaN is not NaN: an all-ones
/// exponent survives only where both are infinities, whose mantissas are zero.
pub proof fn lemma_and_not_nan(a: u64, b: u64)
    requires
        !is_nan(a),
        !is_nan(b),
    ensures
        !is_nan(a & b),
{
    assert((a & 0x7FFF_FFFF_FFFF_FFFFu64) <= 0x7FF0_0000_0000_0000u64 && (b
        & 0x7FFF_FFFF_FFFF_FFFFu64) <= 0x7FF0_0000_0000_0000u64 ==> ((a & b)
        & 0x7FFF_FFFF_FFFF_FFFFu64) <= 0x7FF0_0000_0000_0000u64) by (bit_vector);
}

} // verus!
