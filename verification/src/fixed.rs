//! Fixed-point scalars.
//!
//! A scalar is an `i64` interpreted as the real number `raw / SCALE`,
//! with `SCALE = 2^32`. Sums and differences of scalars are exact; a
//! product is the exact real product rounded toward zero to the nearest
//! representable value. The spec functions here ([`tdiv`], [`fmul`])
//! define that rounding over mathematical integers, and the executable
//! operations are proved to return exactly those values.

use vstd::arithmetic::div_mod::lemma_div_is_ordered;
use vstd::arithmetic::div_mod::lemma_div_multiples_vanish;
use vstd::arithmetic::mul::lemma_mul_inequality;
use vstd::arithmetic::mul::lemma_mul_unary_negation;
use vstd::prelude::*;

verus! {

/// One in fixed point: the scalar representing the real value 1.
pub const SCALE: i64 = 0x1_0000_0000;

/// Absolute value of a mathematical integer.
pub open spec fn iabs(x: int) -> int {
    if x < 0 {
        -x
    } else {
        x
    }
}

/// Division of `x` by `d > 0`, rounded toward zero.
pub open spec fn tdiv(x: int, d: int) -> int {
    if x >= 0 {
        x / d
    } else {
        -((-x) / d)
    }
}

/// The scalar product: the exact integer product, scaled back down
/// with rounding toward zero.
pub open spec fn fmul(a: int, b: int) -> int {
    tdiv(a * b, SCALE as int)
}

/// The magnitude of a product is the product of the magnitudes.
proof fn lemma_iabs_mul(a: int, b: int)
    ensures
        iabs(a * b) == iabs(a) * iabs(b),
{
    if a >= 0 && b >= 0 {
        assert(a * b >= 0) by (nonlinear_arith)
            requires
                a >= 0,
                b >= 0,
        ;
    } else if a >= 0 && b < 0 {
        lemma_mul_unary_negation(a, b);
        assert(a * (-b) >= 0) by (nonlinear_arith)
            requires
                a >= 0,
                -b >= 0,
        ;
    } else if a < 0 && b >= 0 {
        lemma_mul_unary_negation(a, b);
        assert((-a) * b >= 0) by (nonlinear_arith)
            requires
                -a >= 0,
                b >= 0,
        ;
    } else {
        lemma_mul_unary_negation(a, b);
        lemma_mul_unary_negation(-a, b);
        assert((-a) * (-b) >= 0) by (nonlinear_arith)
            requires
                -a >= 0,
                -b >= 0,
        ;
    }
}

/// Division of a non-negative integer by a positive one stays non-negative.
proof fn lemma_div_nonneg(x: int, d: int)
    requires
        x >= 0,
        d > 0,
    ensures
        x / d >= 0,
{
    lemma_div_is_ordered(0, x, d);
}

/// The magnitude of a scalar, as an unsigned machine word.
pub(crate) fn abs_i64(a: i64) -> (r: u64)
    ensures
        r as int == iabs(a as int),
{
    if a >= 0 {
        a as u64
    } else {
        (-(a as i128)) as u64
    }
}

/// The scalar product. The result is exactly [`fmul`] of the arguments;
/// the precondition only keeps that value inside the `i64` range.
pub fn fx_mul(a: i64, b: i64) -> (r: i64)
    requires
        i64::MIN <= fmul(a as int, b as int) <= i64::MAX,
    ensures
        r as int == fmul(a as int, b as int),
{
    let neg: bool = (a < 0) != (b < 0);
    let ua: u64 = abs_i64(a);
    let ub: u64 = abs_i64(b);
    proof {
        assert((ua as int) * (ub as int) <= 0xffff_ffff_ffff_ffff * 0xffff_ffff_ffff_ffff)
            by (nonlinear_arith)
            requires
                0 <= ua as int <= 0xffff_ffff_ffff_ffff,
                0 <= ub as int <= 0xffff_ffff_ffff_ffff,
        ;
    }
    let p: u128 = (ua as u128) * (ub as u128);
    let q: u128 = p / (SCALE as u128);
    proof {
        lemma_iabs_mul(a as int, b as int);
        lemma_div_nonneg(iabs((a as int) * (b as int)), SCALE as int);
        assert(q as int == iabs((a as int) * (b as int)) / (SCALE as int));
        if (a as int) * (b as int) >= 0 {
            assert(fmul(a as int, b as int) == q as int);
        } else {
            assert(fmul(a as int, b as int) == -(q as int));
        }
        if neg {
            if a as int == 0 || b as int == 0 {
                assert((a as int) * (b as int) == 0) by (nonlinear_arith)
                    requires
                        a as int == 0 || b as int == 0,
                ;
            } else if a > 0 {
                assert((a as int) * (b as int) < 0) by (nonlinear_arith)
                    requires
                        a as int > 0,
                        (b as int) < 0,
                ;
            } else {
                assert((a as int) * (b as int) < 0) by (nonlinear_arith)
                    requires
                        (a as int) < 0,
                        b as int > 0,
                ;
            }
            assert(q <= 0x8000_0000_0000_0000u128);
        } else {
            if a >= 0 && b >= 0 {
                assert((a as int) * (b as int) >= 0) by (nonlinear_arith)
                    requires
                        a as int >= 0,
                        b as int >= 0,
                ;
            } else {
                assert((a as int) * (b as int) >= 0) by (nonlinear_arith)
                    requires
                        (a as int) < 0,
                        (b as int) < 0,
                ;
            }
            assert(q <= 0x7fff_ffff_ffff_ffffu128);
        }
    }
    if neg {
        (-(q as i128)) as i64
    } else {
        q as i64
    }
}

/// A product's magnitude respects magnitude bounds on its factors.
pub proof fn lemma_fmul_abs_le(a: int, b: int, bound_a: int, bound_b: int)
    requires
        iabs(a) <= bound_a,
        iabs(b) <= bound_b,
    ensures
        iabs(fmul(a, b)) <= tdiv(bound_a * bound_b, SCALE as int),
{
    lemma_iabs_mul(a, b);
    assert(iabs(a) * iabs(b) <= bound_a * bound_b) by (nonlinear_arith)
        requires
            0 <= iabs(a) <= bound_a,
            0 <= iabs(b) <= bound_b,
    ;
    lemma_div_is_ordered(iabs(a * b), bound_a * bound_b, SCALE as int);
    lemma_div_nonneg(iabs(a * b), SCALE as int);
    lemma_div_nonneg(bound_a * bound_b, SCALE as int);
}

/// Scaling by one in fixed point is the identity.
pub proof fn lemma_fmul_one(a: int)
    ensures
        fmul(a, SCALE as int) == a,
        fmul(SCALE as int, a) == a,
{
    let s: int = SCALE as int;
    lemma_mul_unary_negation(a, s);
    assert(a * s == s * a) by (nonlinear_arith);
    assert((-a) * s == s * (-a)) by (nonlinear_arith);
    lemma_div_multiples_vanish(a, s);
    lemma_div_multiples_vanish(-a, s);
    if a >= 0 {
        assert(a * s >= 0) by (nonlinear_arith)
            requires
                a >= 0,
                s > 0,
        ;
    } else {
        assert(a * s < 0) by (nonlinear_arith)
            requires
                a < 0,
                s > 0,
        ;
    }
}

/// A product with zero is zero.
pub proof fn lemma_fmul_zero(a: int)
    ensures
        fmul(a, 0) == 0,
        fmul(0, a) == 0,
{
}

/// Products of non-negative scalars respect component-wise bounds.
pub proof fn lemma_fmul_bounds(a: int, b: int, bound_a: int, bound_b: int)
    requires
        0 <= a <= bound_a,
        0 <= b <= bound_b,
    ensures
        0 <= fmul(a, b) <= fmul(bound_a, bound_b),
{
    assert(a * b <= bound_a * bound_b) by (nonlinear_arith)
        requires
            0 <= a <= bound_a,
            0 <= b <= bound_b,
    ;
    assert(a * b >= 0) by (nonlinear_arith)
        requires
            a >= 0,
            b >= 0,
    ;
    lemma_div_is_ordered(a * b, bound_a * bound_b, SCALE as int);
    lemma_div_nonneg(a * b, SCALE as int);
}

/// Multiplies `v` by `s`, then divides by `m`, rounding the exact real
/// result toward zero; the building block for `sin(m) * v / m` terms.
/// The result can be no larger in magnitude than `s`, because `v` is
/// required to be no larger in magnitude than `m`.
pub fn fx_muldiv(v: i64, s: i64, m: u64) -> (r: i64)
    requires
        m > 0,
        iabs(v as int) <= m as int,
        iabs(s as int) <= i64::MAX as int,
    ensures
        r as int == tdiv((v as int) * (s as int), m as int),
        iabs(r as int) <= iabs(s as int),
{
    let neg: bool = (v < 0) != (s < 0);
    let uv: u64 = abs_i64(v);
    let us: u64 = abs_i64(s);
    proof {
        assert((uv as int) * (us as int) <= 0xffff_ffff_ffff_ffff * 0xffff_ffff_ffff_ffff)
            by (nonlinear_arith)
            requires
                0 <= uv as int <= 0xffff_ffff_ffff_ffff,
                0 <= us as int <= 0xffff_ffff_ffff_ffff,
        ;
    }
    let p: u128 = (uv as u128) * (us as u128);
    let q: u128 = p / (m as u128);
    proof {
        let vi: int = v as int;
        let si: int = s as int;
        let mi: int = m as int;
        lemma_iabs_mul(vi, si);
        lemma_mul_inequality(iabs(vi), mi, iabs(si));
        assert(iabs(vi) * iabs(si) == iabs(si) * iabs(vi)) by (nonlinear_arith);
        assert(mi * iabs(si) == iabs(si) * mi) by (nonlinear_arith);
        lemma_div_is_ordered(iabs(vi) * iabs(si), mi * iabs(si), mi);
        lemma_div_multiples_vanish(iabs(si), mi);
        lemma_div_nonneg(iabs(vi * si), mi);
        assert(q as int == iabs(vi * si) / mi);
        assert(q as int <= iabs(si));
        if neg {
            if vi == 0 || si == 0 {
                assert(vi * si == 0) by (nonlinear_arith)
                    requires
                        vi == 0 || si == 0,
                ;
            } else if vi > 0 {
                assert(vi * si < 0) by (nonlinear_arith)
                    requires
                        vi > 0,
                        si < 0,
                ;
            } else {
                assert(vi * si < 0) by (nonlinear_arith)
                    requires
                        vi < 0,
                        si > 0,
                ;
            }
        } else {
            if vi >= 0 && si >= 0 {
                assert(vi * si >= 0) by (nonlinear_arith)
                    requires
                        vi >= 0,
                        si >= 0,
                ;
            } else {
                assert(vi * si >= 0) by (nonlinear_arith)
                    requires
                        vi < 0,
                        si < 0,
                ;
            }
        }
    }
    if neg {
        (-(q as i128)) as i64
    } else {
        q as i64
    }
}

/// The integer square root, defined by recursion so that every later
/// contract speaks of one fixed function of the input.
pub open spec fn sqrt_floor(n: nat) -> nat
    decreases n,
{
    if n == 0 {
        0
    } else {
        let p: nat = sqrt_floor((n - 1) as nat);
        if (p + 1) * (p + 1) <= n {
            p + 1
        } else {
            p
        }
    }
}

/// [`sqrt_floor`] really is the rounded-down square root.
pub proof fn lemma_sqrt_floor_bounds(n: nat)
    ensures
        sqrt_floor(n) * sqrt_floor(n) <= n,
        n < (sqrt_floor(n) + 1) * (sqrt_floor(n) + 1),
    decreases n,
{
    if n == 0 {
        assert(sqrt_floor(0) == 0);
        assert(n < (sqrt_floor(n) + 1) * (sqrt_floor(n) + 1)) by (nonlinear_arith)
            requires
                n == 0,
                sqrt_floor(n) == 0,
        ;
    } else {
        lemma_sqrt_floor_bounds((n - 1) as nat);
        let p: nat = sqrt_floor((n - 1) as nat);
        assert(p * p <= n - 1);
        assert(n - 1 < (p + 1) * (p + 1));
        if (p + 1) * (p + 1) <= n {
            assert(sqrt_floor(n) == p + 1);
            assert((p + 1) * (p + 1) < (p + 2) * (p + 2)) by (nonlinear_arith);
            assert(n < (p + 2) * (p + 2));
        } else {
            assert(sqrt_floor(n) == p);
            assert(p * p <= n);
            assert(n < (p + 1) * (p + 1));
        }
    }
}

/// Any value with the square-root bounding property is [`sqrt_floor`].
pub proof fn lemma_sqrt_floor_unique(n: nat, r: nat)
    requires
        r * r <= n,
        n < (r + 1) * (r + 1),
    ensures
        r == sqrt_floor(n),
{
    lemma_sqrt_floor_bounds(n);
    let s: nat = sqrt_floor(n);
    if r < s {
        assert((r + 1) * (r + 1) <= s * s) by (nonlinear_arith)
            requires
                r + 1 <= s,
        ;
    } else if s < r {
        assert((s + 1) * (s + 1) <= r * r) by (nonlinear_arith)
            requires
                s + 1 <= r,
        ;
    }
}

/// The integer square root, by bisection.
pub fn isqrt(n: u128) -> (r: u64)
    requires
        (n as int) < 0x4000_0000_0000_0000_0000_0000_0000_0000,
    ensures
        r as nat == sqrt_floor(n as nat),
        (r as int) * (r as int) <= n as int,
        (n as int) < (r as int + 1) * (r as int + 1),
{
    let mut lo: u64 = 0;
    let mut hi: u64 = 0x8000_0000_0000_0000;
    proof {
        assert((hi as int) * (hi as int) == 0x4000_0000_0000_0000_0000_0000_0000_0000)
            by (nonlinear_arith)
            requires
                hi as int == 0x8000_0000_0000_0000,
        ;
    }
    while hi - lo > 1
        invariant
            lo < hi <= 0x8000_0000_0000_0000,
            (lo as int) * (lo as int) <= n as int,
            (n as int) < (hi as int) * (hi as int),
        decreases hi - lo,
    {
        let mid: u64 = lo + (hi - lo) / 2;
        proof {
            assert((mid as int) * (mid as int) <= 0x4000_0000_0000_0000_0000_0000_0000_0000)
                by (nonlinear_arith)
                requires
                    0 <= mid as int <= 0x8000_0000_0000_0000,
            ;
        }
        let sq: u128 = (mid as u128) * (mid as u128);
        if sq <= n {
            lo = mid;
        } else {
            hi = mid;
        }
    }
    proof {
        lemma_sqrt_floor_unique(n as nat, lo as nat);
    }
    lo
}

} // verus!
