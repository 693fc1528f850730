//! Fixed-point scalar arithmetic.
//!
//! All world geometry is carried as `i64` raw values in 16.16 fixed point:
//! `FP_ONE` raw units stand for one world unit.  The helpers here state
//! their rounding exactly: `div_trunc` rounds toward zero (as Rust's `/`
//! does), while plain `/` in contracts is Euclidean division, which rounds
//! toward negative infinity for positive divisors.

use vstd::prelude::*;

verus! {

use crate::{FP_ONE, DELTA_SAT};

/// Magnitude of an integer.
pub open spec fn abs_i(a: int) -> int {
    if a < 0 {
        -a
    } else {
        a
    }
}

/// Quotient rounded toward zero, the rounding of Rust's `/` operator.
pub open spec fn div_trunc(a: int, b: int) -> int {
    if a >= 0 {
        a / b
    } else {
        -((-a) / b)
    }
}

/// `v` clamped into `[lo, hi]`.
pub open spec fn clamp_spec(v: int, lo: int, hi: int) -> int {
    if v < lo {
        lo
    } else if v > hi {
        hi
    } else {
        v
    }
}

/// The product of two raw values, scaled back down, rounded toward zero.
pub open spec fn fp_mul_spec(a: int, b: int) -> int {
    div_trunc(a * b, FP_ONE as int)
}

/// Reciprocal of the magnitude of a raw value, in raw units: the per-axis
/// step distance of the DDA.  A zero component saturates to `DELTA_SAT`
/// instead of dividing by zero.
pub open spec fn recip_spec(d: int) -> int {
    if d == 0 {
        DELTA_SAT as int
    } else {
        (FP_ONE * FP_ONE) / abs_i(d)
    }
}

/// Fractional part of a raw coordinate, in `[0, FP_ONE)`: the offset of a
/// world point into its grid cell.
pub open spec fn fp_frac_spec(a: int) -> int {
    a % (FP_ONE as int)
}

/// Division of nonnegative operands, where truncating and Euclidean
/// rounding agree.
fn div_nonneg(a: i64, b: i64) -> (q: i64)
    requires
        a >= 0,
        b > 0,
    ensures
        q == a as int / b as int,
{
    ((a as u64) / (b as u64)) as i64
}

/// Quotient rounded toward zero, matching `div_trunc`.
pub fn div_trunc_i64(a: i64, b: i64) -> (q: i64)
    requires
        b > 0,
        a > i64::MIN,
    ensures
        q == div_trunc(a as int, b as int),
        abs_i(q as int) == abs_i(a as int) / (b as int),
{
    if a >= 0 {
        div_nonneg(a, b)
    } else {
        -div_nonneg(-a, b)
    }
}

/// Quotients of nonnegative values are monotone in the numerator.
pub proof fn lemma_div_le(x: int, y: int, d: int)
    requires
        x <= y,
        0 < d,
    ensures
        x / d <= y / d,
{
    vstd::arithmetic::div_mod::lemma_div_is_ordered(x, y, d);
}

/// Truncating division of an exact multiple returns the factor, whatever
/// its sign.
pub proof fn lemma_div_trunc_mul(a: int, d: int)
    requires
        0 < d,
    ensures
        div_trunc(a * d, d) == a,
{
    if a >= 0 {
        lemma_mul_div_exact(a, d);
    } else {
        assert(-(a * d) == (-a) * d) by (nonlinear_arith);
        lemma_mul_div_exact(-a, d);
    }
}

/// Dividing an exact multiple returns the factor.
pub proof fn lemma_mul_div_exact(a: int, d: int)
    requires
        0 < d,
    ensures
        (a * d) / d == a,
{
    vstd::arithmetic::div_mod::lemma_div_multiples_vanish(a, d);
    assert(d * a == a * d) by (nonlinear_arith);
}

/// Quotient rounded toward negative infinity, matching `/` in contracts.
pub fn div_floor_i64(a: i64, b: i64) -> (q: i64)
    requires
        0 < b < 0x4000_0000_0000_0000,
        -0x4000_0000_0000_0000 < a < 0x4000_0000_0000_0000,
    ensures
        q == a as int / b as int,
{
    if a >= 0 {
        div_nonneg(a, b)
    } else {
        let down = div_nonneg(-a + b - 1, b);
        proof {
            let x2 = -(a as int) + b as int - 1;
            let m = x2 % (b as int);
            vstd::arithmetic::div_mod::lemma_fundamental_div_mod(x2, b as int);
            vstd::arithmetic::div_mod::lemma_mod_bound(x2, b as int);
            assert(x2 == (b as int) * (down as int) + m);
            assert(a as int == (-(down as int)) * (b as int) + (b as int - 1 - m))
                by (nonlinear_arith)
                requires
                    x2 == (b as int) * (down as int) + m,
                    x2 == -(a as int) + b as int - 1,
            ;
            vstd::arithmetic::div_mod::lemma_fundamental_div_mod_converse(
                a as int,
                b as int,
                -(down as int),
                b as int - 1 - m,
            );
        }
        -down
    }
}

/// Fixed-point multiply: scale the product back down, rounding toward zero.
pub fn fp_mul(a: i64, b: i64) -> (r: i64)
    requires
        -0x4000_0000_0000_0000 < (a as int) * (b as int),
        (a as int) * (b as int) < 0x4000_0000_0000_0000,
    ensures
        r == fp_mul_spec(a as int, b as int),
        abs_i(r as int) <= abs_i((a as int) * (b as int)) / (FP_ONE as int),
{
    let p = a * b;
    let q = div_trunc_i64(p, FP_ONE);
    proof {
        if p >= 0 {
            assert(abs_i(q as int) <= abs_i(p as int) / FP_ONE as int);
        } else {
            assert(abs_i(q as int) == (-p) as int / FP_ONE as int);
        }
    }
    q
}

/// Per-axis DDA step distance: the saturated reciprocal of a ray component.
pub fn recip_fp(d: i64) -> (r: i64)
    requires
        d > i64::MIN,
    ensures
        r == recip_spec(d as int),
        0 <= r <= DELTA_SAT,
{
    if d == 0 {
        DELTA_SAT
    } else {
        let m = if d < 0 {
            -d
        } else {
            d
        };
        let r = div_nonneg(FP_ONE * FP_ONE, m);
        proof {
            vstd::arithmetic::div_mod::lemma_div_is_ordered_by_denominator(
                (FP_ONE * FP_ONE) as int,
                1,
                m as int,
            );
        }
        r
    }
}

/// Fractional part of a raw coordinate, in `[0, FP_ONE)`.
pub fn fp_frac(a: i64) -> (r: i64)
    requires
        -0x4000_0000_0000_0000 < a < 0x4000_0000_0000_0000,
    ensures
        r == fp_frac_spec(a as int),
        0 <= r < FP_ONE,
{
    let q = div_floor_i64(a, FP_ONE);
    proof {
        vstd::arithmetic::div_mod::lemma_fundamental_div_mod(a as int, FP_ONE as int);
        vstd::arithmetic::div_mod::lemma_mod_bound(a as int, FP_ONE as int);
    }
    a - q * FP_ONE
}

/// `v` clamped into `[lo, hi]`.
pub fn clamp_i64(v: i64, lo: i64, hi: i64) -> (r: i64)
    requires
        lo <= hi,
    ensures
        r == clamp_spec(v as int, lo as int, hi as int),
{
    if v < lo {
        lo
    } else if v > hi {
        hi
    } else {
        v
    }
}

/// Integer square root, rounded down, defined by counting up.
pub open spec fn sqrt_floor(n: nat) -> nat
    decreases n,
{
    if n == 0 {
        0
    } else {
        let r = sqrt_floor((n - 1) as nat);
        if (r + 1) * (r + 1) <= n {
            r + 1
        } else {
            r
        }
    }
}

/// `sqrt_floor(n)` is the integer square root: its square is at most `n`,
/// and the next square is beyond `n`.
pub proof fn lemma_sqrt_floor_bounds(n: nat)
    ensures
        sqrt_floor(n) * sqrt_floor(n) <= n,
        n < (sqrt_floor(n) + 1) * (sqrt_floor(n) + 1),
    decreases n,
{
    if n > 0 {
        let r = sqrt_floor((n - 1) as nat);
        lemma_sqrt_floor_bounds((n - 1) as nat);
        if (r + 1) * (r + 1) <= n {
            assert(sqrt_floor(n) == r + 1);
            assert(n < (r + 1 + 1) * (r + 1 + 1)) by (nonlinear_arith)
                requires
                    n - 1 < (r + 1) * (r + 1),
            ;
        } else {
            assert(sqrt_floor(n) == r);
        }
    } else {
        assert(sqrt_floor(n) == 0);
        assert(n < (sqrt_floor(n) + 1) * (sqrt_floor(n) + 1)) by (nonlinear_arith)
            requires
                sqrt_floor(n) == 0,
                n == 0,
        ;
    }
}

/// Any value with the integer-square-root property equals `sqrt_floor(n)`.
pub proof fn lemma_sqrt_floor_unique(n: nat, r: nat)
    requires
        r * r <= n,
        n < (r + 1) * (r + 1),
    ensures
        r == sqrt_floor(n),
{
    let s = sqrt_floor(n);
    lemma_sqrt_floor_bounds(n);
    assert(r == s) by (nonlinear_arith)
        requires
            r * r <= n,
            n < (r + 1) * (r + 1),
            s * s <= n,
            n < (s + 1) * (s + 1),
    ;
}

/// Integer square root by bisection.
pub fn isqrt_u64(n: u64) -> (r: u64)
    ensures
        r == sqrt_floor(n as nat),
        r * r <= n,
        r < 0x1_0000_0000,
{
    let mut lo: u64 = 0;
    let mut hi: u64 = 0x1_0000_0000;
    while hi - lo > 1
        invariant
            lo < hi <= 0x1_0000_0000,
            (lo as int) * (lo as int) <= n as int,
            (n as int) < (hi as int) * (hi as int),
        decreases hi - lo,
    {
        let mid = lo + (hi - lo) / 2;
        proof {
            assert((mid as int) * (mid as int) < 0x1_0000_0000_0000_0000) by (nonlinear_arith)
                requires
                    mid < 0x1_0000_0000,
            ;
        }
        if mid * mid <= n {
            lo = mid;
        } else {
            hi = mid;
        }
    }
    proof {
        lemma_sqrt_floor_unique(n as nat, lo as nat);
    }
    lo
}

} // verus!
