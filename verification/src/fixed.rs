//! Saturating 32.32 fixed-point arithmetic for the filter computations.
//!
//! A scalar is an `i64` holding `value * 2^32`, kept inside
//! `[-MAX_VALUE, MAX_VALUE]`; every operation clamps its exact rounded
//! result into that range, so all operations are total and their results
//! are stated exactly.

use vstd::prelude::*;
use vstd::arithmetic::div_mod::{
    lemma_div_is_ordered, lemma_div_pos_is_pos, lemma_fundamental_div_mod,
    lemma_fundamental_div_mod_converse,
};

verus! {

/// The fixed-point scale: one unit of value is this many raw units.
pub const SCALE: i64 = 0x1_0000_0000;

/// Magnitude bound of every fixed-point scalar (2^47 raw, 32768 in value).
pub const MAX_VALUE: i64 = 0x8000_0000_0000;

/// `x` clamped into `[-MAX_VALUE, MAX_VALUE]`.
pub open spec fn clampv(x: int) -> int {
    if x > MAX_VALUE {
        MAX_VALUE as int
    } else if x < -MAX_VALUE {
        -MAX_VALUE as int
    } else {
        x
    }
}

/// Saturating fixed-point sum.
pub open spec fn s_add(a: int, b: int) -> int {
    clampv(a + b)
}

/// Saturating fixed-point difference.
pub open spec fn s_sub(a: int, b: int) -> int {
    clampv(a - b)
}

/// Saturating fixed-point product: the exact product scaled back down,
/// rounded towards minus infinity.
pub open spec fn s_mul(a: int, b: int) -> int {
    clampv((a * b) / (SCALE as int))
}

/// Saturating fixed-point quotient, rounded towards minus infinity.
pub open spec fn s_div(a: int, b: int) -> int
    recommends
        b > 0,
{
    clampv((a * SCALE) / b)
}

/// The integer square root: the largest `r` with `r * r <= n`.
pub open spec fn s_isqrt(n: nat) -> nat
    decreases n,
{
    if n == 0 {
        0
    } else {
        let p = s_isqrt((n - 1) as nat);
        if (p + 1) * (p + 1) <= n {
            p + 1
        } else {
            p
        }
    }
}

/// `s_isqrt(n)` really is the integer square root of `n`.
pub proof fn lemma_s_isqrt_bounds(n: nat)
    ensures
        s_isqrt(n) * s_isqrt(n) <= n,
        n < (s_isqrt(n) + 1) * (s_isqrt(n) + 1),
    decreases n,
{
    reveal_with_fuel(s_isqrt, 2);
    if n > 0 {
        lemma_s_isqrt_bounds((n - 1) as nat);
        let p = s_isqrt((n - 1) as nat);
        let q = s_isqrt(n);
        if (p + 1) * (p + 1) <= n {
            assert(q == p + 1);
            assert(q * q == (p + 1) * (p + 1)) by (nonlinear_arith)
                requires
                    q == p + 1,
            ;
            assert((q + 1) * (q + 1) > (p + 1) * (p + 1)) by (nonlinear_arith)
                requires
                    q == p + 1,
            ;
            assert((p + 1) * (p + 1) > n - 1);
        } else {
            assert(q == p);
            assert(q * q == p * p && (q + 1) * (q + 1) == (p + 1) * (p + 1)) by (nonlinear_arith)
                requires
                    q == p,
            ;
        }
        assert(q * q <= n);
        assert(n < (q + 1) * (q + 1));
    } else {
        let q = s_isqrt(n);
        assert(q == 0);
        assert((q + 1) * (q + 1) == 1) by (nonlinear_arith)
            requires
                q == 0,
        ;
    }
}

/// Any `r` within the square-root bracket is the integer square root.
pub proof fn lemma_isqrt_unique(n: nat, r: nat)
    requires
        r * r <= n,
        n < (r + 1) * (r + 1),
    ensures
        r == s_isqrt(n),
{
    let s = s_isqrt(n);
    lemma_s_isqrt_bounds(n);
    if r < s {
        assert((r + 1) * (r + 1) <= s * s) by (nonlinear_arith)
            requires
                r + 1 <= s,
        ;
    }
    if s < r {
        assert((s + 1) * (s + 1) <= r * r) by (nonlinear_arith)
            requires
                s + 1 <= r,
        ;
    }
}

/// `x` clamped into the scalar range, as executable code.
pub fn clamp128(x: i128) -> (r: i64)
    ensures
        r == clampv(x as int),
{
    if x > MAX_VALUE as i128 {
        MAX_VALUE
    } else if x < -(MAX_VALUE as i128) {
        -MAX_VALUE
    } else {
        x as i64
    }
}

/// Quotient rounded towards minus infinity, for a positive divisor.
pub(crate) fn div_floor_128(n: i128, d: i128) -> (r: i128)
    requires
        d > 0,
        n > i128::MIN,
        d <= i64::MAX,
    ensures
        r == n as int / d as int,
{
    if n >= 0 {
        let q = (n as u128) / (d as u128);
        proof {
            lemma_div_pos_is_pos(n as int, d as int);
            lemma_div_is_ordered(n as int / d as int, n as int, 1);
            vstd::arithmetic::div_mod::lemma_div_nonincreasing(n as int, d as int);
        }
        q as i128
    } else {
        let m = (-n) as u128;
        let q = m / (d as u128);
        let rem = m % (d as u128);
        proof {
            lemma_fundamental_div_mod(m as int, d as int);
            lemma_div_pos_is_pos(m as int, d as int);
            vstd::arithmetic::div_mod::lemma_div_nonincreasing(m as int, d as int);
            assert(m as int == (d as int) * (q as int) + (rem as int));
            if rem == 0 {
                assert(n as int == (-(q as int)) * (d as int) + 0) by (nonlinear_arith)
                    requires
                        m as int == (d as int) * (q as int) + (rem as int),
                        rem as int == 0,
                        n as int == -(m as int),
                ;
                lemma_fundamental_div_mod_converse(n as int, d as int, -(q as int), 0);
            } else {
                assert(n as int == (-(q as int) - 1) * (d as int) + ((d as int) - (rem as int)))
                    by (nonlinear_arith)
                    requires
                        m as int == (d as int) * (q as int) + (rem as int),
                        n as int == -(m as int),
                ;
                lemma_fundamental_div_mod_converse(
                    n as int,
                    d as int,
                    -(q as int) - 1,
                    d as int - rem as int,
                );
            }
        }
        if rem == 0 {
            -(q as i128)
        } else {
            -(q as i128) - 1
        }
    }
}

/// Saturating fixed-point sum.
pub fn fadd(a: i64, b: i64) -> (r: i64)
    ensures
        r == s_add(a as int, b as int),
{
    clamp128(a as i128 + b as i128)
}

/// Saturating fixed-point difference.
pub fn fsub(a: i64, b: i64) -> (r: i64)
    ensures
        r == s_sub(a as int, b as int),
{
    clamp128(a as i128 - b as i128)
}

/// Saturating fixed-point product.
pub fn fmul(a: i64, b: i64) -> (r: i64)
    ensures
        r == s_mul(a as int, b as int),
{
    proof {
        assert(i128::MIN < (a as int) * (b as int) <= i128::MAX) by (nonlinear_arith)
            requires
                -0x8000_0000_0000_0000 <= a as int <= 0x7FFF_FFFF_FFFF_FFFF,
                -0x8000_0000_0000_0000 <= b as int <= 0x7FFF_FFFF_FFFF_FFFF,
        ;
    }
    let p: i128 = (a as i128) * (b as i128);
    let q = div_floor_128(p, SCALE as i128);
    clamp128(q)
}

/// Saturating fixed-point quotient.
pub fn fdiv(a: i64, b: i64) -> (r: i64)
    requires
        b > 0,
    ensures
        r == s_div(a as int, b as int),
{
    proof {
        assert(i128::MIN < (a as int) * (SCALE as int) <= i128::MAX) by (nonlinear_arith)
            requires
                -0x8000_0000_0000_0000 <= a as int <= 0x7FFF_FFFF_FFFF_FFFF,
                SCALE as int == 0x1_0000_0000,
        ;
    }
    let p: i128 = (a as i128) * (SCALE as i128);
    let q = div_floor_128(p, b as i128);
    clamp128(q)
}

/// Integer square root of a `u128` below 2^96.
pub(crate) fn isqrt128(n: u128) -> (r: u128)
    requires
        n < 0x1_0000_0000_0000_0000_0000_0000,
    ensures
        r * r <= n,
        n < (r + 1) * (r + 1),
        r <= 0x1_0000_0000_0000,
{
    let mut lo: u128 = 0;
    let mut hi: u128 = 0x1_0000_0000_0000;
    proof {
        assert((0x1_0000_0000_0000u128 + 1) * (0x1_0000_0000_0000u128 + 1) > n) by (nonlinear_arith)
            requires
                n < 0x1_0000_0000_0000_0000_0000_0000,
        ;
    }
    while lo < hi
        invariant
            lo <= hi <= 0x1_0000_0000_0000,
            lo * lo <= n,
            n < (hi + 1) * (hi + 1),
        decreases hi - lo,
    {
        let mid = lo + (hi - lo + 1) / 2;
        proof {
            assert(lo < mid <= hi);
            assert(mid * mid <= 0x1_0000_0000_0000u128 * 0x1_0000_0000_0000u128)
                by (nonlinear_arith)
                requires
                    mid <= 0x1_0000_0000_0000u128,
            ;
        }
        if mid <= n / mid {
            proof {
                lemma_fundamental_div_mod(n as int, mid as int);
                assert(mid * mid <= n) by (nonlinear_arith)
                    requires
                        mid as int <= (n as int) / (mid as int),
                        mid > 0,
                        n as int == (mid as int) * ((n as int) / (mid as int)) + (n as int) % (
                        mid as int),
                        (n as int) % (mid as int) >= 0,
                ;
            }
            lo = mid;
        } else {
            proof {
                lemma_fundamental_div_mod(n as int, mid as int);
                assert(n < mid * mid) by (nonlinear_arith)
                    requires
                        mid as int > (n as int) / (mid as int),
                        mid > 0,
                        n as int == (mid as int) * ((n as int) / (mid as int)) + (n as int) % (
                        mid as int),
                        (n as int) % (mid as int) < mid as int,
                ;
            }
            hi = mid - 1;
        }
    }
    lo
}

/// Fixed-point square root of a nonnegative scalar: the integer square
/// root of the value scaled up, so that the result is again a 32.32
/// fixed-point scalar.
pub fn fsqrt(a: i64) -> (r: i64)
    requires
        a >= 0,
    ensures
        r == s_isqrt((a * SCALE) as nat),
        r >= 0,
        r * r <= a * SCALE,
        a * SCALE < (r + 1) * (r + 1),
{
    proof {
        assert((a as int) * (SCALE as int) < 0x1_0000_0000_0000_0000_0000_0000)
            by (nonlinear_arith)
            requires
                0 <= a as int <= 0x8000_0000_0000_0000,
                SCALE as int == 0x1_0000_0000,
        ;
    }
    let n: u128 = (a as u128) * (SCALE as u128);
    let r = isqrt128(n);
    proof {
        lemma_isqrt_unique(n as nat, r as nat);
    }
    r as i64
}

} // verus!
