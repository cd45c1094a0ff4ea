//! Fixed-point scalar arithmetic.
//!
//! A scalar is an `i64` counting units of `1 / SCALE`. Sums, differences,
//! products and quotients are computed exactly in wide intermediates, rounded
//! toward negative infinity where a division occurs, and saturated to the
//! `i64` range. Every executable operation is specified exactly, saturation
//! included, so callers can compute with the results in proofs.

use vstd::prelude::*;

verus! {

use vstd::arithmetic::div_mod::lemma_fundamental_div_mod;
use vstd::arithmetic::div_mod::lemma_fundamental_div_mod_converse;

/// Number of fixed-point units per whole unit of a physical quantity.
pub const SCALE: i64 = 1024;

/// Saturation to the `i64` range.
pub open spec fn clamp64(v: int) -> int {
    if v > i64::MAX {
        i64::MAX as int
    } else if v < i64::MIN {
        i64::MIN as int
    } else {
        v
    }
}

/// Saturating sum of two scalars.
pub open spec fn sadd(a: int, b: int) -> int {
    clamp64(a + b)
}

/// Saturating difference of two scalars.
pub open spec fn ssub(a: int, b: int) -> int {
    clamp64(a - b)
}

/// Saturating fixed-point product: `a * b / SCALE`, rounded toward negative
/// infinity (`/` on `int` is Euclidean division, which floors for a positive
/// divisor).
pub open spec fn smul(a: int, b: int) -> int {
    clamp64((a * b) / (SCALE as int))
}

/// Saturating fixed-point quotient: `a * SCALE / b`, floored; only positive
/// divisors are ever used.
pub open spec fn sdiv(a: int, b: int) -> int {
    clamp64((a * SCALE) / b)
}

fn clamp_to_i64(v: i128) -> (r: i64)
    ensures
        r == clamp64(v as int),
{
    if v > i64::MAX as i128 {
        i64::MAX
    } else if v < i64::MIN as i128 {
        i64::MIN
    } else {
        v as i64
    }
}

/// Quotient of `p` by a positive divisor, rounded toward negative infinity;
/// this matches the Euclidean `/` of specifications.
pub(crate) fn div_floor(p: i128, s: i128) -> (q: i128)
    requires
        0 < s,
        -0x4000_0000_0000_0000_0000_0000_0000_0000 <= p,
    ensures
        q == p as int / s as int,
{
    let neg = p < 0;
    let ap: u128 = if neg {
        (-p) as u128
    } else {
        p as u128
    };
    let us = s as u128;
    let q0 = ap / us;
    let r0 = ap % us;
    proof {
        lemma_fundamental_div_mod(ap as int, us as int);
    }
    if !neg {
        proof {
            lemma_fundamental_div_mod_converse(p as int, s as int, q0 as int, r0 as int);
        }
        q0 as i128
    } else if r0 == 0 {
        proof {
            assert(p == (-(q0 as int)) * s + 0) by (nonlinear_arith)
                requires
                    ap == q0 * us + r0,
                    r0 == 0,
                    p == -ap,
                    s == us,
            ;
            lemma_fundamental_div_mod_converse(p as int, s as int, -(q0 as int), 0);
        }
        -(q0 as i128)
    } else {
        proof {
            assert(p == (-(q0 as int) - 1) * s + (s - r0)) by (nonlinear_arith)
                requires
                    ap == q0 * us + r0,
                    0 < r0 < us,
                    p == -ap,
                    s == us,
            ;
            lemma_fundamental_div_mod_converse(p as int, s as int, -(q0 as int) - 1, s as int - r0);
        }
        -(q0 as i128) - 1
    }
}

/// Saturating sum.
pub fn fx_add(a: i64, b: i64) -> (r: i64)
    ensures
        r == sadd(a as int, b as int),
{
    clamp_to_i64(a as i128 + b as i128)
}

/// Saturating difference.
pub fn fx_sub(a: i64, b: i64) -> (r: i64)
    ensures
        r == ssub(a as int, b as int),
{
    clamp_to_i64(a as i128 - b as i128)
}

/// Saturating fixed-point product.
pub fn fx_mul(a: i64, b: i64) -> (r: i64)
    ensures
        r == smul(a as int, b as int),
{
    proof {
        assert(-0x4000_0000_0000_0000_0000_0000_0000_0000 <= a as int * b as int
            <= 0x4000_0000_0000_0000_0000_0000_0000_0000) by (nonlinear_arith)
            requires
                i64::MIN <= a <= i64::MAX,
                i64::MIN <= b <= i64::MAX,
        ;
    }
    let p = a as i128 * b as i128;
    let q = div_floor(p, SCALE as i128);
    clamp_to_i64(q)
}

/// `r` is the square root of `n`, rounded toward zero.
pub open spec fn is_sqrt_floor(n: int, r: int) -> bool {
    0 <= r && r * r <= n && n < (r + 1) * (r + 1)
}

/// The square root of `n`, rounded toward zero (0 for negative `n`, which the
/// library never takes a root of).
pub open spec fn sqrt_floor(n: int) -> int {
    choose|r: int| is_sqrt_floor(n, r)
}

/// The rounded square root is unique, so any witness pins `sqrt_floor`.
pub proof fn lemma_sqrt_floor_is(n: int, r: int)
    requires
        is_sqrt_floor(n, r),
    ensures
        sqrt_floor(n) == r,
{
    let c = sqrt_floor(n);
    assert(is_sqrt_floor(n, c));
    assert(c == r) by (nonlinear_arith)
        requires
            is_sqrt_floor(n, c),
            is_sqrt_floor(n, r),
    ;
}

fn isqrt_u128(v: u128) -> (r: u128)
    ensures
        is_sqrt_floor(v as int, r as int),
{
    let mut lo: u128 = 0;
    let mut hi: u128 = 0x1_0000_0000_0000_0000;
    while lo + 1 < hi
        invariant
            lo < hi <= 0x1_0000_0000_0000_0000,
            lo * lo <= v,
            v < hi * hi,
        decreases hi - lo,
    {
        let mid = lo + (hi - lo) / 2;
        proof {
            assert(mid * mid < 0x1_0000_0000_0000_0000_0000_0000_0000_0000) by (nonlinear_arith)
                requires
                    0 <= mid < 0x1_0000_0000_0000_0000,
            ;
        }
        if mid * mid <= v {
            lo = mid;
        } else {
            hi = mid;
        }
    }
    lo
}

/// Square root of a nonnegative fixed-point scalar: the exact root of the
/// represented value `v / SCALE`, rounded down to the fixed-point grid.
pub fn fx_sqrt(v: i64) -> (r: i64)
    requires
        0 <= v,
    ensures
        r == sqrt_floor(v as int * SCALE as int),
        is_sqrt_floor(v as int * SCALE as int, r as int),
        0 <= r,
{
    proof {
        assert(0 <= v as int * SCALE as int <= 0x7fff_ffff_ffff_ffff * 1024) by (nonlinear_arith)
            requires
                0 <= v <= 0x7fff_ffff_ffff_ffff,
                SCALE == 1024,
        ;
    }
    let wide = v as u128 * SCALE as u128;
    let root = isqrt_u128(wide);
    proof {
        lemma_sqrt_floor_is(wide as int, root as int);
        assert(root < 0x20_0000_0000) by (nonlinear_arith)
            requires
                root * root <= wide,
                0 <= root,
                wide <= 0x7fff_ffff_ffff_ffff * 1024,
        ;
    }
    root as i64
}

/// Saturation to the `usize` range from above.
pub open spec fn clamp_usize(v: int) -> int {
    if v > usize::MAX {
        usize::MAX as int
    } else {
        v
    }
}

/// The base-4 logarithm of `n`, rounded down; 0 for `n < 4`.
pub open spec fn log4_floor(n: int) -> int
    decreases n,
{
    if n < 4 {
        0
    } else {
        1 + log4_floor(n / 4)
    }
}

/// Saturating fixed-point quotient; the divisor must be positive.
pub fn fx_div(a: i64, b: i64) -> (r: i64)
    requires
        b > 0,
    ensures
        r == sdiv(a as int, b as int),
{
    proof {
        assert(-0x4000_0000_0000_0000_0000_0000_0000_0000 <= a as int * SCALE as int
            <= 0x4000_0000_0000_0000_0000_0000_0000_0000) by (nonlinear_arith)
            requires
                i64::MIN <= a <= i64::MAX,
        ;
    }
    let p = a as i128 * SCALE as i128;
    let q = div_floor(p, b as i128);
    clamp_to_i64(q)
}

} // verus!
