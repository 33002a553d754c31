//! Ordering of IEEE 754 doubles held as their bit patterns (`f64::to_bits`).
//!
//! Apart from NaN, doubles are ordered by sign and magnitude, and the
//! magnitude of a double grows with its bit pattern once the sign bit is
//! cleared; the two zeros compare equal. `clamp` follows `f64::clamp`:
//! below the lower bound gives the lower bound, above the upper bound gives
//! the upper bound, and NaN stays NaN.

use vstd::prelude::*;

verus! {

/// The sign bit of a double.
pub const SIGN_BIT: u64 = 0x8000_0000_0000_0000;

/// The bit pattern of positive infinity; a larger magnitude is a NaN.
pub const INFINITY_BITS: u64 = 0x7ff0_0000_0000_0000;

/// The bits of a double without its sign.
pub open spec fn magnitude(b: u64) -> int {
    (b % SIGN_BIT) as int
}

/// The double is a NaN.
pub open spec fn is_nan(b: u64) -> bool {
    magnitude(b) > INFINITY_BITS
}

/// A number that orders doubles other than NaN as their values do.
pub open spec fn order_key(b: u64) -> int {
    if b >= SIGN_BIT { -magnitude(b) } else { magnitude(b) }
}

/// `lo` and `hi` are bounds that `f64::clamp` accepts: neither is NaN and
/// `lo <= hi`.
pub open spec fn valid_bounds(lo: u64, hi: u64) -> bool {
    !is_nan(lo) && !is_nan(hi) && order_key(lo) <= order_key(hi)
}

/// The bits of `v.clamp(lo, hi)`.
pub open spec fn clamped(v: u64, lo: u64, hi: u64) -> u64 {
    if is_nan(v) {
        v
    } else if order_key(v) < order_key(lo) {
        lo
    } else if order_key(v) > order_key(hi) {
        hi
    } else {
        v
    }
}

fn key(b: u64) -> (r: i128)
    ensures
        r == order_key(b),
{
    let m = (b % SIGN_BIT) as i128;
    if b >= SIGN_BIT { -m } else { m }
}

/// Whether the double `b` is a NaN.
pub fn nan(b: u64) -> (r: bool)
    ensures
        r == is_nan(b),
{
    b % SIGN_BIT > INFINITY_BITS
}

/// Whether `lo` and `hi` can bound a clamp.
pub fn bounds_ok(lo: u64, hi: u64) -> (r: bool)
    ensures
        r == valid_bounds(lo, hi),
{
    !nan(lo) && !nan(hi) && key(lo) <= key(hi)
}

/// The bits of `v` clamped between `lo` and `hi`.
pub fn clamp(v: u64, lo: u64, hi: u64) -> (r: u64)
    requires
        valid_bounds(lo, hi),
    ensures
        r == clamped(v, lo, hi),
{
    if nan(v) {
        v
    } else if key(v) < key(lo) {
        lo
    } else if key(v) > key(hi) {
        hi
    } else {
        v
    }
}

/// A clamped value other than NaN lies between the bounds, and clamping
/// it again changes nothing.
pub proof fn lemma_clamp_within(v: u64, lo: u64, hi: u64)
    requires
        valid_bounds(lo, hi),
        !is_nan(v),
    ensures
        order_key(lo) <= order_key(clamped(v, lo, hi)) <= order_key(hi),
        clamped(clamped(v, lo, hi), lo, hi) == clamped(v, lo, hi),
{
}

} // verus!
