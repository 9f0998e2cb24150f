//! Geometry builder behaviour: counts, index triples, the two modes'
//! agreement, and the identity-pose round trip.

use boids::algebra::{Quat, Vec3};
use boids::buffer::{
    apply_pose, build_geometry, build_instanced, pose_matrix, BoidBufferBuilder, Vec2, Vertex,
    TRI_HALF_HEIGHT, TRI_HALF_WIDTH,
};
use boids::fixed::SCALE;
use boids::state::Boid;

const S: f64 = 4294967296.0;

fn to_fx(v: f64) -> i64 {
    (v * S).round() as i64
}

fn identity_boid() -> Boid {
    Boid {
        position: Vec3 { x: 0, y: 0, z: 0 },
        velocity: Vec3 { x: 0, y: 0, z: 0 },
        rotation: Quat { s: SCALE, x: 0, y: 0, z: 0 },
        angular_velocity: Quat { s: 0, x: 0, y: 0, z: 0 },
    }
}

fn sample_boid(px: f64, py: f64, angle: f64) -> Boid {
    let h = angle / 2.0;
    Boid {
        position: Vec3 {
            x: to_fx(px),
            y: to_fx(py),
            z: 0,
        },
        velocity: Vec3 { x: 0, y: 0, z: 0 },
        rotation: Quat {
            s: to_fx(h.cos()),
            x: 0,
            y: 0,
            z: to_fx(h.sin()),
        },
        angular_velocity: Quat { s: 0, x: 0, y: 0, z: 0 },
    }
}

fn template() -> [Vec2; 3] {
    [
        Vec2 {
            x: 0,
            y: TRI_HALF_HEIGHT,
        },
        Vec2 {
            x: -TRI_HALF_WIDTH,
            y: -TRI_HALF_HEIGHT,
        },
        Vec2 {
            x: TRI_HALF_WIDTH,
            y: -TRI_HALF_HEIGHT,
        },
    ]
}

#[test]
fn per_agent_counts_and_triples() {
    let agents = vec![
        sample_boid(0.1, 0.2, 0.0),
        sample_boid(-0.5, 0.0, 1.2),
        sample_boid(0.0, 0.9, -2.0),
    ];
    let (vertices, indices, count) = build_geometry(&agents);
    assert_eq!(vertices.len(), 9);
    assert_eq!(indices.len(), 9);
    assert_eq!(count, 9);
    for i in 0..3u32 {
        assert_eq!(indices[(3 * i) as usize], 3 * i);
        assert_eq!(indices[(3 * i + 1) as usize], 3 * i + 1);
        assert_eq!(indices[(3 * i + 2) as usize], 3 * i + 2);
    }
}

#[test]
fn instanced_counts() {
    let agents = vec![
        sample_boid(0.1, 0.2, 0.0),
        sample_boid(-0.5, 0.0, 1.2),
        sample_boid(0.0, 0.9, -2.0),
        sample_boid(0.4, -0.4, 3.0),
    ];
    let (vertices, indices, poses) = build_instanced(&agents);
    assert_eq!(vertices.len(), 3);
    assert_eq!(indices.len(), 3);
    assert_eq!(&indices[..], &[0, 1, 2]);
    assert_eq!(poses.len(), 4);
    for (j, t) in template().iter().enumerate() {
        assert_eq!(vertices[j].position, *t);
    }
}

#[test]
fn empty_input_builds_empty_buffers() {
    let agents: Vec<Boid> = Vec::new();
    let (vertices, indices, count) = build_geometry(&agents);
    assert!(vertices.is_empty());
    assert!(indices.is_empty());
    assert_eq!(count, 0);
    let (_, _, poses) = build_instanced(&agents);
    assert!(poses.is_empty());
}

#[test]
fn modes_place_triangles_identically() {
    // The per-agent vertices equal, bit for bit, the instanced pose
    // matrices applied to the template.
    let agents = vec![
        sample_boid(0.3, -0.2, 0.9),
        sample_boid(-1.0, 0.7, -1.4),
        identity_boid(),
    ];
    let (vertices, _, _) = build_geometry(&agents);
    let (_, _, poses) = build_instanced(&agents);
    for (i, pose) in poses.iter().enumerate() {
        for (j, t) in template().iter().enumerate() {
            let world = apply_pose(pose, t);
            assert_eq!(vertices[3 * i + j].position, world);
        }
    }
}

#[test]
fn identity_pose_round_trips_template() {
    let agents = vec![identity_boid()];
    let (vertices, indices, count) = build_geometry(&agents);
    assert_eq!(count, 3);
    assert_eq!(&indices[..], &[0, 1, 2]);
    for (j, t) in template().iter().enumerate() {
        assert_eq!(vertices[j].position, *t);
    }
}

#[test]
fn rotated_agent_rotates_template() {
    // A quarter turn about z sends (x, y) to (-y, x), up to rounding.
    let b = sample_boid(0.0, 0.0, std::f64::consts::FRAC_PI_2);
    let (vertices, _, _) = build_geometry(&vec![b]);
    let eps = (1e-5 * S) as i64;
    let t = template();
    for j in 0..3 {
        assert!((vertices[j].position.x + t[j].y).abs() < eps);
        assert!((vertices[j].position.y - t[j].x).abs() < eps);
    }
}

#[test]
fn translation_moves_template() {
    let b = sample_boid(0.25, -0.125, 0.0);
    let (vertices, _, _) = build_geometry(&vec![b]);
    let t = template();
    for j in 0..3 {
        assert_eq!(vertices[j].position.x, t[j].x + to_fx(0.25));
        assert_eq!(vertices[j].position.y, t[j].y + to_fx(-0.125));
    }
}

#[test]
fn builder_accumulates_per_push() {
    let builder = BoidBufferBuilder::new();
    assert_eq!(builder.current_boid, 0);
    let builder = builder.push_boid(&identity_boid());
    assert_eq!(builder.current_boid, 1);
    assert_eq!(builder.vertex_data.len(), 3);
    assert_eq!(builder.index_data.len(), 3);
    let builder = builder.push_boid(&sample_boid(0.5, 0.5, 0.4));
    assert_eq!(builder.current_boid, 2);
    let (vertices, indices, count) = builder.build();
    assert_eq!(vertices.len(), 6);
    assert_eq!(&indices[..], &[0, 1, 2, 3, 4, 5]);
    assert_eq!(count, 6);
}

#[test]
fn pose_matrix_of_identity() {
    let b = identity_boid();
    let m = pose_matrix(&b.position, &b.rotation);
    assert_eq!(
        (m.m00, m.m01, m.m02, m.m03),
        (SCALE, 0, 0, 0)
    );
    assert_eq!(
        (m.m10, m.m11, m.m12, m.m13),
        (0, SCALE, 0, 0)
    );
    assert_eq!(
        (m.m20, m.m21, m.m22, m.m23),
        (0, 0, SCALE, 0)
    );
    assert_eq!(
        (m.m30, m.m31, m.m32, m.m33),
        (0, 0, 0, SCALE)
    );
}

#[test]
fn vertex_layout_is_two_scalars() {
    assert_eq!(std::mem::size_of::<Vertex>(), 16);
}
