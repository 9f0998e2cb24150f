//! Integrator behaviour: stepping agents, the exponential map, and the
//! trigonometric kernel, checked against floating-point references.

use boids::algebra::{exp, quat_mul, Quat, Vec3};
use boids::fixed::{fx_mul, fx_muldiv, isqrt, SCALE};
use boids::state::{Boid, State};
use boids::trig::{fx_cos, fx_sin};

const S: f64 = 4294967296.0;

fn to_fx(v: f64) -> i64 {
    (v * S).round() as i64
}

fn to_f64(raw: i64) -> f64 {
    raw as f64 / S
}

fn quat(s: f64, x: f64, y: f64, z: f64) -> Quat {
    Quat {
        s: to_fx(s),
        x: to_fx(x),
        y: to_fx(y),
        z: to_fx(z),
    }
}

fn vec3(x: f64, y: f64, z: f64) -> Vec3 {
    Vec3 {
        x: to_fx(x),
        y: to_fx(y),
        z: to_fx(z),
    }
}

fn quat_norm(q: &Quat) -> f64 {
    let (s, x, y, z) = (to_f64(q.s), to_f64(q.x), to_f64(q.y), to_f64(q.z));
    (s * s + x * x + y * y + z * z).sqrt()
}

/// A unit quaternion for a rotation of `angle` about the (unnormalized)
/// axis `(ax, ay, az)`.
fn axis_angle(ax: f64, ay: f64, az: f64, angle: f64) -> Quat {
    let n = (ax * ax + ay * ay + az * az).sqrt();
    let (h, c) = ((angle / 2.0).sin(), (angle / 2.0).cos());
    quat(c, ax / n * h, ay / n * h, az / n * h)
}

#[test]
fn scalar_product_exact_values() {
    assert_eq!(fx_mul(to_fx(1.5), to_fx(2.0)), to_fx(3.0));
    assert_eq!(fx_mul(to_fx(-1.5), to_fx(2.0)), to_fx(-3.0));
    assert_eq!(fx_mul(to_fx(0.5), to_fx(0.5)), to_fx(0.25));
    assert_eq!(fx_mul(0, to_fx(123.0)), 0);
    // Rounding is toward zero on both sides of zero.
    assert_eq!(fx_mul(3, 3), 0);
    assert_eq!(fx_mul(-3, 3), 0);
}

#[test]
fn muldiv_exact_values() {
    // (v * s) / m with v <= m: 6 * 10 / 12 = 5.
    assert_eq!(fx_muldiv(6, 10, 12), 5);
    assert_eq!(fx_muldiv(-6, 10, 12), -5);
    assert_eq!(fx_muldiv(5, -7, 9), -3); // trunc(-35/9) = -3
}

#[test]
fn isqrt_exact_values() {
    assert_eq!(isqrt(0), 0);
    assert_eq!(isqrt(1), 1);
    assert_eq!(isqrt(10), 3);
    assert_eq!(isqrt(1u128 << 100), 1u64 << 50);
    assert_eq!(isqrt((1u128 << 100) - 1), (1u64 << 50) - 1);
}

#[test]
fn cosine_and_sine_match_references() {
    for &a in &[0.0f64, 0.05, 0.1, 0.5, 1.0, 1.5, 2.0, 3.1, 4.7, 6.2, 7.0, 30.0] {
        let m = to_fx(a) as u64;
        let c = to_f64(fx_cos(m));
        let s = to_f64(fx_sin(m));
        assert!((c - a.cos()).abs() < 1e-5, "cos({a}): {c}");
        assert!((s - a.sin()).abs() < 1e-5, "sin({a}): {s}");
    }
    assert_eq!(fx_cos(0), SCALE);
    assert_eq!(fx_sin(0), 0);
}

#[test]
fn exp_of_zero_is_identity() {
    let r = exp(&Quat { s: 0, x: 0, y: 0, z: 0 });
    assert_eq!(r, Quat { s: SCALE, x: 0, y: 0, z: 0 });
    // A stray scalar part is ignored: an angular velocity is pure.
    let r = exp(&Quat { s: to_fx(0.7), x: 0, y: 0, z: 0 });
    assert_eq!(r, Quat { s: SCALE, x: 0, y: 0, z: 0 });
}

#[test]
fn exp_small_angle_matches_reference() {
    let r = exp(&Quat { s: 0, x: 0, y: 0, z: to_fx(0.1) });
    assert!((to_f64(r.s) - 0.1f64.cos()).abs() < 1e-6);
    assert!((to_f64(r.z) - 0.1f64.sin()).abs() < 1e-6);
    assert_eq!(r.x, 0);
    assert_eq!(r.y, 0);
}

#[test]
fn quat_mul_identity_is_exact() {
    let q = quat(0.6, 0.4, -0.3, 0.2);
    let id = Quat { s: SCALE, x: 0, y: 0, z: 0 };
    assert_eq!(quat_mul(&q, &id), q);
}

#[test]
fn quat_mul_matches_reference() {
    let a = axis_angle(1.0, 2.0, 3.0, 0.8);
    let b = axis_angle(0.0, 0.0, 1.0, 0.3);
    let r = quat_mul(&a, &b);
    let (a0, a1, a2, a3) = (to_f64(a.s), to_f64(a.x), to_f64(a.y), to_f64(a.z));
    let (b0, b1, b2, b3) = (to_f64(b.s), to_f64(b.x), to_f64(b.y), to_f64(b.z));
    let es = a0 * b0 - a1 * b1 - a2 * b2 - a3 * b3;
    let ex = a0 * b1 + a1 * b0 + a2 * b3 - a3 * b2;
    let ey = a0 * b2 - a1 * b3 + a2 * b0 + a3 * b1;
    let ez = a0 * b3 + a1 * b2 - a2 * b1 + a3 * b0;
    assert!((to_f64(r.s) - es).abs() < 1e-8);
    assert!((to_f64(r.x) - ex).abs() < 1e-8);
    assert!((to_f64(r.y) - ey).abs() < 1e-8);
    assert!((to_f64(r.z) - ez).abs() < 1e-8);
}

#[test]
fn rotation_stays_unit_norm() {
    // |rotation| = 1 before a step keeps |rotation| within 1e-5 of 1
    // after it, across angular velocities and time steps.
    let rotations = [
        axis_angle(0.0, 0.0, 1.0, std::f64::consts::PI),
        axis_angle(1.0, 0.0, 0.0, 0.5),
        axis_angle(1.0, 1.0, 1.0, 2.5),
        Quat { s: SCALE, x: 0, y: 0, z: 0 },
    ];
    let spins = [
        (0.0, 0.0, 0.0),
        (0.0, 0.0, 1.0),
        (0.3, -0.2, 0.9),
        (-4.0, 2.0, 1.0),
        (0.001, 0.0, 0.002),
    ];
    let dts = [0.0, 0.001, 0.1, 1.0, 10.0];
    for rotation in rotations {
        for &(wx, wy, wz) in &spins {
            for &dt in &dts {
                let b = Boid {
                    position: vec3(0.2, -0.4, 1.0),
                    velocity: vec3(1.0, 0.0, -0.5),
                    rotation,
                    angular_velocity: quat(0.0, wx, wy, wz),
                };
                let r = State::step_boid(&b, to_fx(dt));
                let n = quat_norm(&r.rotation);
                assert!(
                    (n - 1.0).abs() < 1e-5,
                    "norm {n} for spin ({wx},{wy},{wz}) dt {dt}"
                );
            }
        }
    }
}

#[test]
fn zero_motion_is_idempotent() {
    let b = Boid {
        position: vec3(0.25, -0.5, 3.0),
        velocity: Vec3 { x: 0, y: 0, z: 0 },
        rotation: axis_angle(0.0, 1.0, 0.0, 1.1),
        angular_velocity: Quat { s: 0, x: 0, y: 0, z: 0 },
    };
    for &dt in &[0.001f64, 0.1, 1.0, 10.0] {
        assert_eq!(State::step_boid(&b, to_fx(dt)), b);
    }
}

#[test]
fn linear_integration_is_exact() {
    // With zero angular velocity the position moves by exactly the
    // scaled velocity and nothing couples into the rotation.
    let b = Boid {
        position: vec3(1.5, -2.0, 0.25),
        velocity: vec3(0.5, -1.0, 2.0),
        rotation: axis_angle(0.0, 0.0, 1.0, -0.7),
        angular_velocity: Quat { s: 0, x: 0, y: 0, z: 0 },
    };
    let dt = to_fx(0.125); // a power of two: the scaling is exact
    let r = State::step_boid(&b, dt);
    assert_eq!(r.position.x, b.position.x + to_fx(0.5 * 0.125));
    assert_eq!(r.position.y, b.position.y + to_fx(-1.0 * 0.125));
    assert_eq!(r.position.z, b.position.z + to_fx(2.0 * 0.125));
    assert_eq!(r.rotation, b.rotation);
    assert_eq!(r.velocity, b.velocity);
    assert_eq!(r.angular_velocity, b.angular_velocity);
}

#[test]
fn concrete_scenario() {
    // Agent at the origin, drifting down, rotated a quarter turn about
    // z, spinning about z; one tick of a tenth of a second.
    let h = std::f64::consts::FRAC_PI_4;
    let b = Boid {
        position: vec3(0.0, 0.0, 0.0),
        velocity: vec3(0.0, -1.0, 0.0),
        rotation: quat(h.cos(), 0.0, 0.0, h.sin()),
        angular_velocity: quat(0.0, 0.0, 0.0, 1.0),
    };
    let r = State::step_boid(&b, to_fx(0.1));
    assert!((to_f64(r.position.x) - 0.0).abs() < 1e-6);
    assert!((to_f64(r.position.y) + 0.1).abs() < 1e-6);
    assert!((to_f64(r.position.z) - 0.0).abs() < 1e-6);
    // rotation' = rotation * exp((0, 0, 0.1)); exp yields scalar
    // cos(0.1), vector (0, 0, sin(0.1)).
    let (c, s) = (0.1f64.cos(), 0.1f64.sin());
    let es = h.cos() * c - h.sin() * s;
    let ez = h.cos() * s + h.sin() * c;
    assert!((to_f64(r.rotation.s) - es).abs() < 1e-5);
    assert!((to_f64(r.rotation.x) - 0.0).abs() < 1e-5);
    assert!((to_f64(r.rotation.y) - 0.0).abs() < 1e-5);
    assert!((to_f64(r.rotation.z) - ez).abs() < 1e-5);
    assert!((quat_norm(&r.rotation) - 1.0).abs() < 1e-5);
}

#[test]
fn update_steps_every_agent_in_place() {
    let a = Boid {
        position: vec3(0.0, 0.5, 0.0),
        velocity: vec3(0.0, -1.0, 0.0),
        rotation: axis_angle(0.0, 0.0, 1.0, std::f64::consts::PI),
        angular_velocity: Quat { s: 0, x: 0, y: 0, z: 0 },
    };
    let b = Boid {
        position: vec3(-0.3, 0.2, 0.0),
        velocity: Vec3 { x: 0, y: 0, z: 0 },
        rotation: axis_angle(0.0, 0.0, 1.0, -std::f64::consts::FRAC_PI_2),
        angular_velocity: quat(0.0, 0.0, 0.0, 1.0),
    };
    let mut state = State { boids: Vec::new() };
    state.append(a);
    state.append(b);
    let dt = to_fx(0.001);
    state.update(dt);
    assert_eq!(state.boids.len(), 2);
    assert_eq!(state.boids[0], State::step_boid(&a, dt));
    assert_eq!(state.boids[1], State::step_boid(&b, dt));
}

#[test]
fn append_grows_by_one() {
    let mut state = State { boids: Vec::new() };
    assert_eq!(state.boids.len(), 0);
    let b = Boid {
        position: Vec3 { x: 1, y: 2, z: 3 },
        velocity: Vec3 { x: 0, y: 0, z: 0 },
        rotation: Quat { s: SCALE, x: 0, y: 0, z: 0 },
        angular_velocity: Quat { s: 0, x: 0, y: 0, z: 0 },
    };
    state.append(b);
    assert_eq!(state.boids.len(), 1);
    assert_eq!(state.boids[0], b);
}
