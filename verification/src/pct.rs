//! Percentages as IEEE-754 binary64 bit patterns.
//!
//! A coverage percentage is held as the `u64` bit pattern of the binary64
//! value that `cargo llvm-cov` reported (or that a caller supplied). The
//! comparisons the library needs — `<`, negation and the NaN-ignoring
//! minimum — are defined here over those bits exactly as IEEE-754
//! defines them, and implemented with proofs against that definition.
use vstd::prelude::*;

verus! {

/// The sign bit of a binary64 value.
pub const SIGN_BIT: u64 = 0x8000_0000_0000_0000;

/// The bit pattern of positive infinity: every larger magnitude is a NaN.
pub const INFINITY_BITS: u64 = 0x7ff0_0000_0000_0000;

/// Everything but the sign bit: the magnitude of the value.
pub open spec fn magnitude(bits: u64) -> nat {
    if bits >= SIGN_BIT {
        (bits - SIGN_BIT) as nat
    } else {
        bits as nat
    }
}

/// The value is negative (or negative zero, or a NaN with the sign bit set).
pub open spec fn is_sign_negative(bits: u64) -> bool {
    bits >= SIGN_BIT
}

/// The value is a NaN.
pub open spec fn is_nan(bits: u64) -> bool {
    magnitude(bits) > INFINITY_BITS
}

/// Position of a non-NaN value on the number line: binary64 values of one
/// sign are ordered as their magnitudes are, and both zeros share rank 0.
pub open spec fn rank(bits: u64) -> int {
    if is_sign_negative(bits) {
        -(magnitude(bits) as int)
    } else {
        magnitude(bits) as int
    }
}

/// IEEE-754 `a < b`: false whenever either side is a NaN.
pub open spec fn lt(a: u64, b: u64) -> bool {
    !is_nan(a) && !is_nan(b) && rank(a) < rank(b)
}

/// IEEE-754 `a >= b`: false whenever either side is a NaN.
pub open spec fn ge(a: u64, b: u64) -> bool {
    !is_nan(a) && !is_nan(b) && rank(a) >= rank(b)
}

/// IEEE-754 negation: the sign bit flips, nothing else changes.
pub open spec fn neg(bits: u64) -> u64 {
    if bits >= SIGN_BIT {
        (bits - SIGN_BIT) as u64
    } else {
        (bits + SIGN_BIT) as u64
    }
}

/// `f64::min`: when one side is a NaN the other is returned; otherwise a
/// value that is not above either side.
pub open spec fn is_min_of(a: u64, b: u64, m: u64) -> bool {
    if is_nan(a) {
        m == b
    } else if is_nan(b) {
        m == a
    } else {
        (m == a || m == b) && rank(m) <= rank(a) && rank(m) <= rank(b)
    }
}

/// Whether `bits` is a NaN.
pub fn pct_is_nan(bits: u64) -> (r: bool)
    ensures
        r == is_nan(bits),
{
    let m = if bits >= SIGN_BIT { bits - SIGN_BIT } else { bits };
    m > INFINITY_BITS
}

/// IEEE-754 `a < b` on bit patterns.
pub fn pct_lt(a: u64, b: u64) -> (r: bool)
    ensures
        r == lt(a, b),
{
    if pct_is_nan(a) || pct_is_nan(b) {
        return false;
    }
    let a_neg = a >= SIGN_BIT;
    let b_neg = b >= SIGN_BIT;
    let am = if a_neg { a - SIGN_BIT } else { a };
    let bm = if b_neg { b - SIGN_BIT } else { b };
    if a_neg && b_neg {
        bm < am
    } else if a_neg {
        !(am == 0 && bm == 0)
    } else if b_neg {
        false
    } else {
        am < bm
    }
}

/// IEEE-754 `a >= b` on bit patterns.
pub fn pct_ge(a: u64, b: u64) -> (r: bool)
    ensures
        r == ge(a, b),
{
    !pct_is_nan(a) && !pct_is_nan(b) && !pct_lt(a, b)
}

/// IEEE-754 negation on bit patterns.
pub fn pct_neg(bits: u64) -> (r: u64)
    ensures
        r == neg(bits),
{
    if bits >= SIGN_BIT {
        bits - SIGN_BIT
    } else {
        bits + SIGN_BIT
    }
}

/// `f64::min` on bit patterns.
pub fn pct_min(a: u64, b: u64) -> (m: u64)
    ensures
        is_min_of(a, b, m),
{
    if pct_is_nan(a) {
        b
    } else if pct_is_nan(b) {
        a
    } else if pct_lt(b, a) {
        b
    } else {
        a
    }
}

/// Negation keeps a NaN a NaN and reverses the order of the others.
pub proof fn lemma_neg(bits: u64)
    ensures
        is_nan(neg(bits)) == is_nan(bits),
        !is_nan(bits) ==> rank(neg(bits)) == -rank(bits),
        neg(neg(bits)) == bits,
{
}

} // verus!
