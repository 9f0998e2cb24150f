//! Vectors and quaternions over fixed-point scalars.
//!
//! An agent's orientation is a (nominally unit) quaternion and its angular
//! velocity a pure quaternion, both with fixed-point components. This
//! module gives the quaternion product and the exponential map that the
//! integrator composes each tick. Every executable operation's result is
//! pinned to the integer defined by the spec functions here.

use crate::fixed::abs_i64;
use crate::fixed::fmul;
use crate::fixed::fx_mul;
use crate::fixed::fx_muldiv;
use crate::fixed::iabs;
use crate::fixed::isqrt;
use crate::fixed::lemma_fmul_abs_le;
use crate::fixed::sqrt_floor;
use crate::fixed::tdiv;
use crate::fixed::SCALE;
use crate::trig::cos_fixed;
use crate::trig::fx_cos;
use crate::trig::fx_sin;
use crate::trig::sin_fixed;
use vstd::prelude::*;

verus! {

/// A 3-vector of fixed-point scalars.
#[derive(Clone, Copy, Debug, PartialEq, Eq, Structural)]
pub struct Vec3 {
    pub x: i64,
    pub y: i64,
    pub z: i64,
}

/// A quaternion `s + x i + y j + z k` of fixed-point scalars.
#[derive(Clone, Copy, Debug, PartialEq, Eq, Structural)]
pub struct Quat {
    pub s: i64,
    pub x: i64,
    pub y: i64,
    pub z: i64,
}

/// Every component of the vector is bounded in magnitude.
pub open spec fn vec3_in(v: Vec3, bound: int) -> bool {
    &&& iabs(v.x as int) <= bound
    &&& iabs(v.y as int) <= bound
    &&& iabs(v.z as int) <= bound
}

/// Every component of the quaternion is bounded in magnitude.
pub open spec fn quat_in(q: Quat, bound: int) -> bool {
    &&& iabs(q.s as int) <= bound
    &&& iabs(q.x as int) <= bound
    &&& iabs(q.y as int) <= bound
    &&& iabs(q.z as int) <= bound
}

/// Magnitude bound on the left factor of a quaternion product, and on
/// every scalar field of an agent: about 32768 in real units.
pub const POSE_LIM: i64 = 0x8000_0000_0000;

/// Magnitude bound on the components of an exponential-map result: two
/// in real units (the true values lie within one plus rounding).
pub const ROTOR_LIM: i64 = 0x2_0000_0000;

/// Magnitude bound on the components of a scaled angular velocity, the
/// exponential map's argument.
pub const SPIN_LIM: i64 = 0x4000_0000_0000_0000;

/// Scalar part of the Hamilton product of `(as_, ax, ay, az)` and
/// `(bs, bx, by, bz)`.
pub open spec fn quat_prod_s(
    as_: int,
    ax: int,
    ay: int,
    az: int,
    bs: int,
    bx: int,
    by: int,
    bz: int,
) -> int {
    fmul(as_, bs) - fmul(ax, bx) - fmul(ay, by) - fmul(az, bz)
}

/// First imaginary component of the Hamilton product.
pub open spec fn quat_prod_x(
    as_: int,
    ax: int,
    ay: int,
    az: int,
    bs: int,
    bx: int,
    by: int,
    bz: int,
) -> int {
    fmul(as_, bx) + fmul(ax, bs) + fmul(ay, bz) - fmul(az, by)
}

/// Second imaginary component of the Hamilton product.
pub open spec fn quat_prod_y(
    as_: int,
    ax: int,
    ay: int,
    az: int,
    bs: int,
    bx: int,
    by: int,
    bz: int,
) -> int {
    fmul(as_, by) - fmul(ax, bz) + fmul(ay, bs) + fmul(az, bx)
}

/// Third imaginary component of the Hamilton product.
pub open spec fn quat_prod_z(
    as_: int,
    ax: int,
    ay: int,
    az: int,
    bs: int,
    bx: int,
    by: int,
    bz: int,
) -> int {
    fmul(as_, bz) + fmul(ax, by) - fmul(ay, bx) + fmul(az, bs)
}

/// Each of the sixteen component products in a quaternion product of a
/// pose-bounded left factor and a rotor-bounded right factor stays
/// within `2^48`, so the four-term sums stay far inside `i64`.
proof fn lemma_quat_prod_terms(a: Quat, b: Quat)
    requires
        quat_in(a, POSE_LIM as int),
        quat_in(b, ROTOR_LIM as int),
    ensures
        forall|p: int, q: int|
            iabs(p) <= POSE_LIM as int && iabs(q) <= ROTOR_LIM as int ==> iabs(
                #[trigger] fmul(p, q),
            ) <= 0x1_0000_0000_0000,
{
    assert forall|p: int, q: int|
        iabs(p) <= POSE_LIM as int && iabs(q) <= ROTOR_LIM as int implies iabs(
        #[trigger] fmul(p, q),
    ) <= 0x1_0000_0000_0000 by {
        lemma_fmul_abs_le(p, q, POSE_LIM as int, ROTOR_LIM as int);
        assert((POSE_LIM as int) * (ROTOR_LIM as int) == 0x1_0000_0000_0000_0000_0000)
            by (nonlinear_arith);
    }
}

/// The Hamilton product `a * b`, for a pose-bounded `a` and a
/// rotor-bounded `b` (the integrator's use: orientation times rotor).
pub fn quat_mul(a: &Quat, b: &Quat) -> (r: Quat)
    requires
        quat_in(*a, POSE_LIM as int),
        quat_in(*b, ROTOR_LIM as int),
    ensures
        r.s as int == quat_prod_s(
            a.s as int,
            a.x as int,
            a.y as int,
            a.z as int,
            b.s as int,
            b.x as int,
            b.y as int,
            b.z as int,
        ),
        r.x as int == quat_prod_x(
            a.s as int,
            a.x as int,
            a.y as int,
            a.z as int,
            b.s as int,
            b.x as int,
            b.y as int,
            b.z as int,
        ),
        r.y as int == quat_prod_y(
            a.s as int,
            a.x as int,
            a.y as int,
            a.z as int,
            b.s as int,
            b.x as int,
            b.y as int,
            b.z as int,
        ),
        r.z as int == quat_prod_z(
            a.s as int,
            a.x as int,
            a.y as int,
            a.z as int,
            b.s as int,
            b.x as int,
            b.y as int,
            b.z as int,
        ),
        quat_in(r, 0x4_0000_0000_0000),
{
    proof {
        lemma_quat_prod_terms(*a, *b);
    }
    let s: i64 = fx_mul(a.s, b.s) - fx_mul(a.x, b.x) - fx_mul(a.y, b.y) - fx_mul(a.z, b.z);
    let x: i64 = fx_mul(a.s, b.x) + fx_mul(a.x, b.s) + fx_mul(a.y, b.z) - fx_mul(a.z, b.y);
    let y: i64 = fx_mul(a.s, b.y) - fx_mul(a.x, b.z) + fx_mul(a.y, b.s) + fx_mul(a.z, b.x);
    let z: i64 = fx_mul(a.s, b.z) + fx_mul(a.x, b.y) - fx_mul(a.y, b.x) + fx_mul(a.z, b.s);
    Quat { s, x, y, z }
}

/// Squared raw magnitude of a quaternion's vector part. The scalar part
/// plays no role: an angular velocity is a pure quaternion, and a stray
/// scalar component is treated as zero.
pub open spec fn rot_mag2(q: Quat) -> int {
    (q.x as int) * (q.x as int) + (q.y as int) * (q.y as int) + (q.z as int) * (q.z as int)
}

/// Raw magnitude of the vector part: the rotation angle of the tick,
/// in fixed-point radians.
pub open spec fn rot_mag(q: Quat) -> int {
    sqrt_floor(rot_mag2(q) as nat) as int
}

/// A component of the exponential's vector part: `v * sin(mag) / mag`,
/// rounded toward zero, or zero for a zero angle.
pub open spec fn exp_vec(v: int, mag: int) -> int {
    if mag == 0 {
        0
    } else {
        tdiv(v * sin_fixed(mag), mag)
    }
}

/// The square of a machine word, exactly.
fn sq_u64(a: u64) -> (r: u128)
    ensures
        r as int == (a as int) * (a as int),
{
    proof {
        assert((a as int) * (a as int) <= 0xffff_ffff_ffff_ffff * 0xffff_ffff_ffff_ffff)
            by (nonlinear_arith)
            requires
                0 <= a as int <= 0xffff_ffff_ffff_ffff,
        ;
    }
    (a as u128) * (a as u128)
}

/// The exponential map of a scaled angular velocity: the unit rotor
/// `(cos |v|, sin |v| * v / |v|)` accumulated over one tick, evaluated
/// in fixed point, with `(1, 0, 0, 0)` for a zero vector part. The
/// argument's scalar part is ignored, as an angular velocity's scalar
/// part is zero by definition.
pub fn exp(q: &Quat) -> (r: Quat)
    requires
        quat_in(*q, SPIN_LIM as int),
    ensures
        r.s as int == cos_fixed(rot_mag(*q)),
        r.x as int == exp_vec(q.x as int, rot_mag(*q)),
        r.y as int == exp_vec(q.y as int, rot_mag(*q)),
        r.z as int == exp_vec(q.z as int, rot_mag(*q)),
        quat_in(r, ROTOR_LIM as int),
{
    let ax: u64 = abs_i64(q.x);
    let ay: u64 = abs_i64(q.y);
    let az: u64 = abs_i64(q.z);
    let sx: u128 = sq_u64(ax);
    let sy: u128 = sq_u64(ay);
    let sz: u128 = sq_u64(az);
    proof {
        assert(iabs(q.x as int) * iabs(q.x as int) == (q.x as int) * (q.x as int))
            by (nonlinear_arith);
        assert(iabs(q.y as int) * iabs(q.y as int) == (q.y as int) * (q.y as int))
            by (nonlinear_arith);
        assert(iabs(q.z as int) * iabs(q.z as int) == (q.z as int) * (q.z as int))
            by (nonlinear_arith);
        assert((ax as int) * (ax as int) <= 0x4000_0000_0000_0000 * 0x4000_0000_0000_0000)
            by (nonlinear_arith)
            requires
                0 <= ax as int <= 0x4000_0000_0000_0000,
        ;
        assert((ay as int) * (ay as int) <= 0x4000_0000_0000_0000 * 0x4000_0000_0000_0000)
            by (nonlinear_arith)
            requires
                0 <= ay as int <= 0x4000_0000_0000_0000,
        ;
        assert((az as int) * (az as int) <= 0x4000_0000_0000_0000 * 0x4000_0000_0000_0000)
            by (nonlinear_arith)
            requires
                0 <= az as int <= 0x4000_0000_0000_0000,
        ;
    }
    let m2: u128 = sx + sy + sz;
    let mag: u64 = isqrt(m2);
    proof {
        assert(m2 as int == rot_mag2(*q));
        assert(mag as int == rot_mag(*q));
    }
    if mag == 0 {
        proof {
            assert((m2 as int) < 1) by (nonlinear_arith)
                requires
                    mag as int == 0,
                    (m2 as int) < (mag as int + 1) * (mag as int + 1),
            ;
            assert(m2 == 0);
            assert(q.x as int == 0 && q.y as int == 0 && q.z as int == 0) by (nonlinear_arith)
                requires
                    (q.x as int) * (q.x as int) + (q.y as int) * (q.y as int) + (q.z as int) * (
                    q.z as int) == 0,
            ;
            assert(cos_fixed(0) == SCALE as int);
        }
        Quat { s: SCALE, x: 0, y: 0, z: 0 }
    } else {
        let c: i64 = fx_cos(mag);
        let s: i64 = fx_sin(mag);
        proof {
            assert(iabs(q.x as int) <= mag as int) by (nonlinear_arith)
                requires
                    0 <= iabs(q.x as int),
                    0 <= mag as int,
                    iabs(q.x as int) * iabs(q.x as int) <= m2 as int,
                    (m2 as int) < (mag as int + 1) * (mag as int + 1),
            ;
            assert(iabs(q.y as int) <= mag as int) by (nonlinear_arith)
                requires
                    0 <= iabs(q.y as int),
                    0 <= mag as int,
                    iabs(q.y as int) * iabs(q.y as int) <= m2 as int,
                    (m2 as int) < (mag as int + 1) * (mag as int + 1),
            ;
            assert(iabs(q.z as int) <= mag as int) by (nonlinear_arith)
                requires
                    0 <= iabs(q.z as int),
                    0 <= mag as int,
                    iabs(q.z as int) * iabs(q.z as int) <= m2 as int,
                    (m2 as int) < (mag as int + 1) * (mag as int + 1),
            ;
        }
        let rx: i64 = fx_muldiv(q.x, s, mag);
        let ry: i64 = fx_muldiv(q.y, s, mag);
        let rz: i64 = fx_muldiv(q.z, s, mag);
        Quat { s: c, x: rx, y: ry, z: rz }
    }
}

} // verus!
