//! Fixed-point numbers with 32 fractional bits, kept in an `i64`.
//!
//! A raw value `v` stands for the number `v / ONE`. Results that leave the
//! representable range are clamped to `[-LIMIT, LIMIT]`; quotients round
//! toward zero, so the arithmetic is symmetric under negation.

use vstd::prelude::*;

verus! {

/// The raw value of the number one.
pub const ONE: i64 = 4294967296;

/// The largest magnitude of a raw value.
pub const LIMIT: i64 = 9223372036854775807;

/// `v` clamped to the symmetric range `[-LIMIT, LIMIT]`.
pub open spec fn saturated(v: int) -> int {
    if v > LIMIT {
        LIMIT as int
    } else if v < -LIMIT {
        -LIMIT
    } else {
        v
    }
}

/// `a / b` rounded toward zero, for a positive `b`.
pub open spec fn quotient(a: int, b: int) -> int
    recommends
        b > 0,
{
    if a >= 0 {
        a / b
    } else {
        -((-a) / b)
    }
}

/// The fixed-point product of two raw values.
pub open spec fn product(a: int, b: int) -> int {
    saturated(quotient(a * b, ONE as int))
}

/// `r` is the integer square root of `n`.
pub open spec fn is_root(n: int, r: int) -> bool {
    0 <= r && r * r <= n < (r + 1) * (r + 1)
}

/// The integer square root of `n`: the largest `r` whose square does not exceed `n`.
pub open spec fn root(n: int) -> int {
    choose|r: int| is_root(n, r)
}

/// A number has at most one integer square root.
pub proof fn lemma_root_unique(n: int, r1: int, r2: int)
    requires
        is_root(n, r1),
        is_root(n, r2),
    ensures
        r1 == r2,
{
    if r1 < r2 {
        assert((r1 + 1) * (r1 + 1) <= r2 * r2) by (nonlinear_arith)
            requires
                0 <= r1,
                r1 + 1 <= r2,
        ;
    } else if r2 < r1 {
        assert((r2 + 1) * (r2 + 1) <= r1 * r1) by (nonlinear_arith)
            requires
                0 <= r2,
                r2 + 1 <= r1,
        ;
    }
}

/// Clamps a wide intermediate result into the range of a raw value.
pub fn saturate(v: i128) -> (r: i64)
    ensures
        r == saturated(v as int),
{
    if v > 9223372036854775807i128 {
        LIMIT
    } else if v < -9223372036854775807i128 {
        -LIMIT
    } else {
        v as i64
    }
}

/// Divides a wide product by `ONE`, rounding toward zero.
pub fn rescale(v: i128) -> (r: i128)
    requires
        v > i128::MIN,
    ensures
        r == quotient(v as int, ONE as int),
{
    if v >= 0 {
        v / 4294967296i128
    } else {
        -((-v) / 4294967296i128)
    }
}

/// Multiplies two fixed-point numbers.
pub fn times(a: i64, b: i64) -> (r: i64)
    ensures
        r == product(a as int, b as int),
{
    assert(-0x4000_0000_0000_0000_0000_0000_0000_0000 <= (a as int) * (b as int)
        <= 0x4000_0000_0000_0000_0000_0000_0000_0000) by (nonlinear_arith)
        requires
            -0x8000_0000_0000_0000 <= a as int <= 0x8000_0000_0000_0000,
            -0x8000_0000_0000_0000 <= b as int <= 0x8000_0000_0000_0000,
    ;
    let wide: i128 = (a as i128) * (b as i128);
    saturate(rescale(wide))
}

/// Computes the integer square root by bisection.
pub fn isqrt(n: u128) -> (r: u64)
    ensures
        is_root(n as int, r as int),
        r == root(n as int),
{
    let mut lo: u128 = 0;
    let mut hi: u128 = 0x1_0000_0000_0000_0000;
    while hi - lo > 1
        invariant
            lo < hi <= 0x1_0000_0000_0000_0000,
            lo * lo <= n,
            n < hi * hi,
        decreases hi - lo,
    {
        let mid: u128 = lo + (hi - lo) / 2;
        assert(mid * mid < 0x1_0000_0000_0000_0000_0000_0000_0000_0000) by (nonlinear_arith)
            requires
                mid < 0x1_0000_0000_0000_0000,
        ;
        if mid * mid <= n {
            lo = mid;
        } else {
            hi = mid;
        }
    }
    proof {
        assert(is_root(n as int, lo as int));
        lemma_root_unique(n as int, lo as int, root(n as int));
    }
    lo as u64
}

} // verus!
