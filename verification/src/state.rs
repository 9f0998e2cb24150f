//! Agents and the per-tick pose integrator.
//!
//! An agent ("boid") carries a position, a linear velocity, an
//! orientation quaternion and an angular velocity given as a pure
//! quaternion. One step advances the position by explicit Euler
//! integration and composes the orientation with the exponential of the
//! time-scaled angular velocity; velocity and angular velocity are left
//! unchanged, as no forces or torques are modelled. The whole step is
//! captured by the relation [`stepped`], which pins every component of
//! the result to one integer.

use crate::algebra::exp;
use crate::algebra::exp_vec;
use crate::algebra::quat_in;
use crate::algebra::quat_mul;
use crate::algebra::quat_prod_s;
use crate::algebra::quat_prod_x;
use crate::algebra::quat_prod_y;
use crate::algebra::quat_prod_z;
use crate::algebra::vec3_in;
use crate::algebra::Quat;
use crate::algebra::Vec3;
use crate::algebra::POSE_LIM;
use crate::fixed::fmul;
use crate::fixed::fx_mul;
use crate::fixed::iabs;
use crate::fixed::lemma_fmul_abs_le;
use crate::fixed::lemma_fmul_one;
use crate::fixed::lemma_fmul_zero;
use crate::fixed::sqrt_floor;
use crate::fixed::SCALE;
use crate::trig::cos_fixed;
use vstd::prelude::*;

verus! {

/// A single simulated agent.
#[derive(Clone, Copy, Debug, PartialEq, Eq, Structural)]
pub struct Boid {
    pub position: Vec3,
    pub velocity: Vec3,
    pub rotation: Quat,
    pub angular_velocity: Quat,
}

/// Every scalar field of the agent is within the pose bound, so that a
/// step's arithmetic stays far inside the machine word.
pub open spec fn boid_ok(b: Boid) -> bool {
    &&& vec3_in(b.position, POSE_LIM as int)
    &&& vec3_in(b.velocity, POSE_LIM as int)
    &&& quat_in(b.rotation, POSE_LIM as int)
    &&& quat_in(b.angular_velocity, POSE_LIM as int)
}

/// First component of the tick's rotation vector, the angular velocity
/// scaled by the time step.
pub open spec fn tick_spin_x(b: Boid, dt: int) -> int {
    fmul(dt, b.angular_velocity.x as int)
}

/// Second component of the tick's rotation vector.
pub open spec fn tick_spin_y(b: Boid, dt: int) -> int {
    fmul(dt, b.angular_velocity.y as int)
}

/// Third component of the tick's rotation vector.
pub open spec fn tick_spin_z(b: Boid, dt: int) -> int {
    fmul(dt, b.angular_velocity.z as int)
}

/// The tick's rotation angle: the raw magnitude of the rotation vector.
/// The angular velocity's scalar part is ignored — a pure quaternion's
/// scalar part is zero by definition, so a stray value must not bend
/// the angle.
pub open spec fn tick_angle(b: Boid, dt: int) -> int {
    sqrt_floor(
        (tick_spin_x(b, dt) * tick_spin_x(b, dt) + tick_spin_y(b, dt) * tick_spin_y(b, dt)
            + tick_spin_z(b, dt) * tick_spin_z(b, dt)) as nat,
    ) as int
}

/// Scalar part of the tick's rotor, the exponential of the rotation
/// vector: the cosine of the tick angle.
pub open spec fn rotor_s(b: Boid, dt: int) -> int {
    cos_fixed(tick_angle(b, dt))
}

/// First imaginary part of the tick's rotor.
pub open spec fn rotor_x(b: Boid, dt: int) -> int {
    exp_vec(tick_spin_x(b, dt), tick_angle(b, dt))
}

/// Second imaginary part of the tick's rotor.
pub open spec fn rotor_y(b: Boid, dt: int) -> int {
    exp_vec(tick_spin_y(b, dt), tick_angle(b, dt))
}

/// Third imaginary part of the tick's rotor.
pub open spec fn rotor_z(b: Boid, dt: int) -> int {
    exp_vec(tick_spin_z(b, dt), tick_angle(b, dt))
}

/// The full step relation: `r` is `b` advanced by `dt`. Position moves
/// by the scaled velocity, the orientation is multiplied on the right
/// by the tick's rotor, and the two velocities are untouched.
pub open spec fn stepped(b: Boid, dt: int, r: Boid) -> bool {
    &&& r.position.x as int == b.position.x as int + fmul(dt, b.velocity.x as int)
    &&& r.position.y as int == b.position.y as int + fmul(dt, b.velocity.y as int)
    &&& r.position.z as int == b.position.z as int + fmul(dt, b.velocity.z as int)
    &&& r.velocity == b.velocity
    &&& r.rotation.s as int == quat_prod_s(
        b.rotation.s as int,
        b.rotation.x as int,
        b.rotation.y as int,
        b.rotation.z as int,
        rotor_s(b, dt),
        rotor_x(b, dt),
        rotor_y(b, dt),
        rotor_z(b, dt),
    )
    &&& r.rotation.x as int == quat_prod_x(
        b.rotation.s as int,
        b.rotation.x as int,
        b.rotation.y as int,
        b.rotation.z as int,
        rotor_s(b, dt),
        rotor_x(b, dt),
        rotor_y(b, dt),
        rotor_z(b, dt),
    )
    &&& r.rotation.y as int == quat_prod_y(
        b.rotation.s as int,
        b.rotation.x as int,
        b.rotation.y as int,
        b.rotation.z as int,
        rotor_s(b, dt),
        rotor_x(b, dt),
        rotor_y(b, dt),
        rotor_z(b, dt),
    )
    &&& r.rotation.z as int == quat_prod_z(
        b.rotation.s as int,
        b.rotation.x as int,
        b.rotation.y as int,
        b.rotation.z as int,
        rotor_s(b, dt),
        rotor_x(b, dt),
        rotor_y(b, dt),
        rotor_z(b, dt),
    )
    &&& r.angular_velocity == b.angular_velocity
}

/// With a zero angular velocity the tick's rotor is exactly the
/// identity quaternion, whatever the time step.
proof fn lemma_zero_spin_rotor(b: Boid, dt: int)
    requires
        b.angular_velocity == (Quat { s: 0, x: 0, y: 0, z: 0 }),
    ensures
        rotor_s(b, dt) == SCALE as int,
        rotor_x(b, dt) == 0,
        rotor_y(b, dt) == 0,
        rotor_z(b, dt) == 0,
{
    lemma_fmul_zero(dt);
    assert(tick_angle(b, dt) == 0);
    assert(cos_fixed(0) == SCALE as int);
}

/// Composing an orientation with the identity rotor gives exactly the
/// orientation back.
proof fn lemma_identity_rotor_fixes_rotation(q: Quat)
    ensures
        quat_prod_s(q.s as int, q.x as int, q.y as int, q.z as int, SCALE as int, 0, 0, 0)
            == q.s as int,
        quat_prod_x(q.s as int, q.x as int, q.y as int, q.z as int, SCALE as int, 0, 0, 0)
            == q.x as int,
        quat_prod_y(q.s as int, q.x as int, q.y as int, q.z as int, SCALE as int, 0, 0, 0)
            == q.y as int,
        quat_prod_z(q.s as int, q.x as int, q.y as int, q.z as int, SCALE as int, 0, 0, 0)
            == q.z as int,
{
    lemma_fmul_one(q.s as int);
    lemma_fmul_one(q.x as int);
    lemma_fmul_one(q.y as int);
    lemma_fmul_one(q.z as int);
    lemma_fmul_zero(q.s as int);
    lemma_fmul_zero(q.x as int);
    lemma_fmul_zero(q.y as int);
    lemma_fmul_zero(q.z as int);
}

/// Zero-motion idempotence: an agent with zero linear velocity and zero
/// angular velocity is returned exactly unchanged by a step, for every
/// time step.
pub proof fn lemma_zero_motion_fixed_point(b: Boid, dt: int, r: Boid)
    requires
        stepped(b, dt, r),
        b.velocity == (Vec3 { x: 0, y: 0, z: 0 }),
        b.angular_velocity == (Quat { s: 0, x: 0, y: 0, z: 0 }),
    ensures
        r == b,
{
    lemma_fmul_zero(dt);
    lemma_zero_spin_rotor(b, dt);
    lemma_identity_rotor_fixes_rotation(b.rotation);
}

/// Linear integration exactness: with a zero angular velocity the
/// position advances by exactly the scaled velocity, the orientation
/// does not move at all, and nothing leaks between the two.
pub proof fn lemma_linear_integration_exact(b: Boid, dt: int, r: Boid)
    requires
        stepped(b, dt, r),
        b.angular_velocity == (Quat { s: 0, x: 0, y: 0, z: 0 }),
    ensures
        r.position.x as int == b.position.x as int + fmul(dt, b.velocity.x as int),
        r.position.y as int == b.position.y as int + fmul(dt, b.velocity.y as int),
        r.position.z as int == b.position.z as int + fmul(dt, b.velocity.z as int),
        r.rotation == b.rotation,
        r.velocity == b.velocity,
        r.angular_velocity == b.angular_velocity,
{
    lemma_zero_spin_rotor(b, dt);
    lemma_identity_rotor_fixes_rotation(b.rotation);
}

/// The simulation state: the agents, in insertion order.
pub struct State {
    pub boids: Vec<Boid>,
}

impl State {
    /// Appends an agent at the end; nothing else changes.
    pub fn append(&mut self, boid: Boid)
        ensures
            final(self).boids@ == old(self).boids@.push(boid),
    {
        self.boids.push(boid);
    }

    /// Advances one agent by `delta_t`, leaving the agent itself
    /// untouched: the integrator is a pure function of its arguments.
    pub fn step_boid(boid: &Boid, delta_t: i64) -> (r: Boid)
        requires
            boid_ok(*boid),
            iabs(delta_t as int) <= POSE_LIM as int,
        ensures
            stepped(*boid, delta_t as int, r),
    {
        proof {
            lemma_fmul_abs_le(
                delta_t as int,
                boid.velocity.x as int,
                POSE_LIM as int,
                POSE_LIM as int,
            );
            lemma_fmul_abs_le(
                delta_t as int,
                boid.velocity.y as int,
                POSE_LIM as int,
                POSE_LIM as int,
            );
            lemma_fmul_abs_le(
                delta_t as int,
                boid.velocity.z as int,
                POSE_LIM as int,
                POSE_LIM as int,
            );
            lemma_fmul_abs_le(
                delta_t as int,
                boid.angular_velocity.x as int,
                POSE_LIM as int,
                POSE_LIM as int,
            );
            lemma_fmul_abs_le(
                delta_t as int,
                boid.angular_velocity.y as int,
                POSE_LIM as int,
                POSE_LIM as int,
            );
            lemma_fmul_abs_le(
                delta_t as int,
                boid.angular_velocity.z as int,
                POSE_LIM as int,
                POSE_LIM as int,
            );
            assert((POSE_LIM as int) * (POSE_LIM as int) == 0x4000_0000_0000_0000_0000_0000)
                by (nonlinear_arith);
        }
        let position = Vec3 {
            x: boid.position.x + fx_mul(delta_t, boid.velocity.x),
            y: boid.position.y + fx_mul(delta_t, boid.velocity.y),
            z: boid.position.z + fx_mul(delta_t, boid.velocity.z),
        };
        let spin = Quat {
            s: 0,
            x: fx_mul(delta_t, boid.angular_velocity.x),
            y: fx_mul(delta_t, boid.angular_velocity.y),
            z: fx_mul(delta_t, boid.angular_velocity.z),
        };
        let rotor = exp(&spin);
        let rotation = quat_mul(&boid.rotation, &rotor);
        Boid { position, velocity: boid.velocity, rotation, angular_velocity: boid.angular_velocity }
    }

    /// Advances every agent by `delta_t`, replacing each with its
    /// stepped value; agents do not interact, so each element of the
    /// new collection depends only on the same element of the old.
    pub fn update(&mut self, delta_t: i64)
        requires
            iabs(delta_t as int) <= POSE_LIM as int,
            forall|i: int|
                0 <= i < old(self).boids@.len() ==> boid_ok(#[trigger] old(self).boids@[i]),
        ensures
            final(self).boids@.len() == old(self).boids@.len(),
            forall|i: int|
                0 <= i < old(self).boids@.len() ==> stepped(
                    #[trigger] old(self).boids@[i],
                    delta_t as int,
                    final(self).boids@[i],
                ),
    {
        let n: usize = self.boids.len();
        let mut advanced: Vec<Boid> = Vec::new();
        let mut i: usize = 0;
        while i < n
            invariant
                self.boids@ == old(self).boids@,
                iabs(delta_t as int) <= POSE_LIM as int,
                forall|k: int|
                    0 <= k < old(self).boids@.len() ==> boid_ok(#[trigger] old(self).boids@[k]),
                n == self.boids@.len(),
                i <= n,
                advanced@.len() == i as int,
                forall|k: int|
                    0 <= k < i as int ==> stepped(
                        #[trigger] old(self).boids@[k],
                        delta_t as int,
                        advanced@[k],
                    ),
            decreases n - i,
        {
            let next = State::step_boid(&self.boids[i], delta_t);
            advanced.push(next);
            i = i + 1;
        }
        self.boids = advanced;
    }
}

} // verus!
