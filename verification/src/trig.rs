//! Fixed-point sine and cosine.
//!
//! The rotational integrator needs the cosine and sine of the per-tick
//! rotation angle. An angle is a non-negative fixed-point scalar (radians
//! times [`SCALE`]). The angle is first reduced modulo a full turn, split
//! into a quadrant and a residue below a quarter turn, and the residue is
//! fed to a truncated alternating series evaluated in fixed point. The
//! spec functions [`cos_fixed`] and [`sin_fixed`] define the exact integer
//! every step of that evaluation produces, and the executable functions
//! are proved to return precisely those integers.

use crate::fixed::fmul;
use crate::fixed::iabs;
use crate::fixed::lemma_fmul_bounds;
use crate::fixed::SCALE;
use vstd::arithmetic::div_mod::lemma_div_is_ordered;
use vstd::prelude::*;

verus! {

/// A quarter turn: pi / 2 in fixed point, rounded down.
pub const QUARTER_TURN: u64 = 6746518852;

/// A full turn: exactly four quarter turns, so that splitting a reduced
/// angle into quadrant and residue never yields a fifth quadrant.
pub const FULL_TURN: u64 = 26986075408;

/// The cosine series truncated after the tenth power, evaluated low to
/// high in fixed point with every intermediate rounded toward zero.
pub open spec fn cos_series(x: int) -> int {
    let x2: int = fmul(x, x);
    let x4: int = fmul(x2, x2);
    let x6: int = fmul(x4, x2);
    let x8: int = fmul(x4, x4);
    let x10: int = fmul(x8, x2);
    SCALE - x2 / 2 + x4 / 24 - x6 / 720 + x8 / 40320 - x10 / 3628800
}

/// The sine series truncated after the eleventh power, evaluated the
/// same way.
pub open spec fn sin_series(x: int) -> int {
    let x2: int = fmul(x, x);
    let x4: int = fmul(x2, x2);
    let x6: int = fmul(x4, x2);
    let x8: int = fmul(x4, x4);
    let x10: int = fmul(x8, x2);
    let x3: int = fmul(x2, x);
    let x5: int = fmul(x4, x);
    let x7: int = fmul(x6, x);
    let x9: int = fmul(x8, x);
    let x11: int = fmul(x10, x);
    x - x3 / 6 + x5 / 120 - x7 / 5040 + x9 / 362880 - x11 / 39916800
}

/// The cosine of a non-negative angle: reduce modulo a full turn, pick
/// the quadrant, and delegate to the series on the residue.
pub open spec fn cos_fixed(m: int) -> int {
    let r: int = m % (FULL_TURN as int);
    let q: int = r / (QUARTER_TURN as int);
    let x: int = r % (QUARTER_TURN as int);
    if q == 0 {
        cos_series(x)
    } else if q == 1 {
        -sin_series(x)
    } else if q == 2 {
        -cos_series(x)
    } else {
        sin_series(x)
    }
}

/// The sine of a non-negative angle, by the same reduction.
pub open spec fn sin_fixed(m: int) -> int {
    let r: int = m % (FULL_TURN as int);
    let q: int = r / (QUARTER_TURN as int);
    let x: int = r % (QUARTER_TURN as int);
    if q == 0 {
        sin_series(x)
    } else if q == 1 {
        cos_series(x)
    } else if q == 2 {
        -sin_series(x)
    } else {
        -cos_series(x)
    }
}

/// Fixed-point product of two non-negative scalars.
fn mul_shift(a: u64, b: u64) -> (r: u64)
    requires
        fmul(a as int, b as int) <= u64::MAX as int,
    ensures
        r as int == fmul(a as int, b as int),
{
    proof {
        assert((a as int) * (b as int) <= 0xffff_ffff_ffff_ffff * 0xffff_ffff_ffff_ffff)
            by (nonlinear_arith)
            requires
                0 <= a as int <= 0xffff_ffff_ffff_ffff,
                0 <= b as int <= 0xffff_ffff_ffff_ffff,
        ;
    }
    let p: u128 = (a as u128) * (b as u128);
    let q: u128 = p / (SCALE as u128);
    q as u64
}

/// The series argument and all its even powers, with the concrete bounds
/// that the residue range forces on each.
proof fn lemma_even_power_bounds(x: int)
    requires
        0 <= x <= QUARTER_TURN as int,
    ensures
        0 <= fmul(x, x) <= 10597407030,
        0 <= fmul(fmul(x, x), fmul(x, x)) <= 26148053761,
        0 <= fmul(fmul(fmul(x, x), fmul(x, x)), fmul(x, x)) <= 64517736609,
        0 <= fmul(fmul(fmul(x, x), fmul(x, x)), fmul(fmul(x, x), fmul(x, x))) <= 159191134266,
        0 <= fmul(
            fmul(fmul(fmul(x, x), fmul(x, x)), fmul(fmul(x, x), fmul(x, x))),
            fmul(x, x),
        ) <= 392788379775,
{
    let q: int = QUARTER_TURN as int;
    lemma_fmul_bounds(x, x, q, q);
    assert(q * q == 45515516620391397904) by (nonlinear_arith)
        requires
            q == 6746518852,
    ;
    let x2: int = fmul(x, x);
    lemma_fmul_bounds(x2, x2, 10597407030, 10597407030);
    assert(10597407030int * 10597407030 == 112305035759493420900) by (nonlinear_arith);
    let x4: int = fmul(x2, x2);
    lemma_fmul_bounds(x4, x2, 26148053761, 10597407030);
    assert(26148053761int * 10597407030 == 277101568747639339830) by (nonlinear_arith);
    lemma_fmul_bounds(x4, x4, 26148053761, 26148053761);
    assert(26148053761int * 26148053761 == 683720715488146245121) by (nonlinear_arith);
    let x8: int = fmul(x4, x4);
    lemma_fmul_bounds(x8, x2, 159191134266, 10597407030);
    assert(159191134266int * 10597407030 == 1687013245384182289980) by (nonlinear_arith);
}

/// The odd powers and their bounds, on top of the even ones.
proof fn lemma_odd_power_bounds(x: int)
    requires
        0 <= x <= QUARTER_TURN as int,
    ensures
        0 <= fmul(fmul(x, x), x) <= 16646368035,
        0 <= fmul(fmul(fmul(x, x), fmul(x, x)), x) <= 41073266799,
        0 <= fmul(fmul(fmul(fmul(x, x), fmul(x, x)), fmul(x, x)), x) <= 101344223674,
        0 <= fmul(fmul(fmul(fmul(x, x), fmul(x, x)), fmul(fmul(x, x), fmul(x, x))), x)
            <= 250056848953,
        0 <= fmul(
            fmul(fmul(fmul(fmul(x, x), fmul(x, x)), fmul(fmul(x, x), fmul(x, x))), fmul(x, x)),
            x,
        ) <= 616990544134,
{
    let q: int = QUARTER_TURN as int;
    lemma_even_power_bounds(x);
    let x2: int = fmul(x, x);
    let x4: int = fmul(x2, x2);
    let x6: int = fmul(x4, x2);
    let x8: int = fmul(x4, x4);
    let x10: int = fmul(x8, x2);
    lemma_fmul_bounds(x2, x, 10597407030, q);
    assert(10597407030int * 6746518852 == 71495606310212329560) by (nonlinear_arith);
    lemma_fmul_bounds(x4, x, 26148053761, q);
    assert(26148053761int * 6746518852 == 176408337641696002372) by (nonlinear_arith);
    lemma_fmul_bounds(x6, x, 64517736609, q);
    assert(64517736609int * 6746518852 == 435270126320989052868) by (nonlinear_arith);
    lemma_fmul_bounds(x8, x, 159191134266, q);
    assert(159191134266int * 6746518852 == 1073985988396832182632) by (nonlinear_arith);
    lemma_fmul_bounds(x10, x, 392788379775, q);
    assert(392788379775int * 6746518852 == 2649954208998573018300) by (nonlinear_arith);
}

/// The cosine series on a residue below a quarter turn.
fn cos_core(x: u64) -> (r: i64)
    requires
        x <= QUARTER_TURN,
    ensures
        r as int == cos_series(x as int),
        iabs(r as int) <= 2 * (SCALE as int),
{
    proof {
        lemma_even_power_bounds(x as int);
    }
    let x2: u64 = mul_shift(x, x);
    let x4: u64 = mul_shift(x2, x2);
    let x6: u64 = mul_shift(x4, x2);
    let x8: u64 = mul_shift(x4, x4);
    let x10: u64 = mul_shift(x8, x2);
    proof {
        lemma_div_is_ordered(x2 as int, 10597407030, 2);
        lemma_div_is_ordered(x4 as int, 26148053761, 24);
        lemma_div_is_ordered(x6 as int, 64517736609, 720);
        lemma_div_is_ordered(x8 as int, 159191134266, 40320);
        lemma_div_is_ordered(x10 as int, 392788379775, 3628800);
    }
    let h2: i64 = (x2 / 2) as i64;
    let h4: i64 = (x4 / 24) as i64;
    let h6: i64 = (x6 / 720) as i64;
    let h8: i64 = (x8 / 40320) as i64;
    let h10: i64 = (x10 / 3628800) as i64;
    SCALE - h2 + h4 - h6 + h8 - h10
}

/// The sine series on a residue below a quarter turn.
fn sin_core(x: u64) -> (r: i64)
    requires
        x <= QUARTER_TURN,
    ensures
        r as int == sin_series(x as int),
        iabs(r as int) <= 2 * (SCALE as int),
{
    proof {
        lemma_even_power_bounds(x as int);
        lemma_odd_power_bounds(x as int);
    }
    let x2: u64 = mul_shift(x, x);
    let x4: u64 = mul_shift(x2, x2);
    let x6: u64 = mul_shift(x4, x2);
    let x8: u64 = mul_shift(x4, x4);
    let x10: u64 = mul_shift(x8, x2);
    let x3: u64 = mul_shift(x2, x);
    let x5: u64 = mul_shift(x4, x);
    let x7: u64 = mul_shift(x6, x);
    let x9: u64 = mul_shift(x8, x);
    let x11: u64 = mul_shift(x10, x);
    proof {
        lemma_div_is_ordered(x3 as int, 16646368035, 6);
        lemma_div_is_ordered(x5 as int, 41073266799, 120);
        lemma_div_is_ordered(x7 as int, 101344223674, 5040);
        lemma_div_is_ordered(x9 as int, 250056848953, 362880);
        lemma_div_is_ordered(x11 as int, 616990544134, 39916800);
    }
    let h3: i64 = (x3 / 6) as i64;
    let h5: i64 = (x5 / 120) as i64;
    let h7: i64 = (x7 / 5040) as i64;
    let h9: i64 = (x9 / 362880) as i64;
    let h11: i64 = (x11 / 39916800) as i64;
    (x as i64) - h3 + h5 - h7 + h9 - h11
}

/// The cosine of a non-negative fixed-point angle.
pub fn fx_cos(m: u64) -> (r: i64)
    ensures
        r as int == cos_fixed(m as int),
        iabs(r as int) <= 2 * (SCALE as int),
{
    let rem: u64 = m % FULL_TURN;
    let q: u64 = rem / QUARTER_TURN;
    let x: u64 = rem % QUARTER_TURN;
    if q == 0 {
        cos_core(x)
    } else if q == 1 {
        -sin_core(x)
    } else if q == 2 {
        -cos_core(x)
    } else {
        proof {
            lemma_div_is_ordered(rem as int, 26986075407, QUARTER_TURN as int);
        }
        sin_core(x)
    }
}

/// The sine of a non-negative fixed-point angle.
pub fn fx_sin(m: u64) -> (r: i64)
    ensures
        r as int == sin_fixed(m as int),
        iabs(r as int) <= 2 * (SCALE as int),
{
    let rem: u64 = m % FULL_TURN;
    let q: u64 = rem / QUARTER_TURN;
    let x: u64 = rem % QUARTER_TURN;
    if q == 0 {
        sin_core(x)
    } else if q == 1 {
        cos_core(x)
    } else if q == 2 {
        -sin_core(x)
    } else {
        proof {
            lemma_div_is_ordered(rem as int, 26986075407, QUARTER_TURN as int);
        }
        -cos_core(x)
    }
}

} // verus!
