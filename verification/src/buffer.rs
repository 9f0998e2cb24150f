//! Geometry buffers for drawing the agents.
//!
//! Each agent is drawn as a small forward-pointing triangle. The local
//! template triangle is fixed; an agent's pose (translation times the
//! rotation matrix of its orientation quaternion) carries it into world
//! space. Two modes are supported and pinned to the same spec functions,
//! so they place every triangle identically:
//!
//! - per-agent geometry: the transformed template and a fresh index
//!   triple are appended for every agent;
//! - instanced geometry: the template and one index triple are emitted
//!   once, with a 4-by-4 pose matrix per agent for the renderer to
//!   instance over.
//!
//! A [`StagingBuffer`] wraps bytes bound for the renderer and performs
//! its single full-length copy to a destination at offset zero.

use crate::algebra::quat_in;
use crate::algebra::vec3_in;
use crate::algebra::Quat;
use crate::algebra::Vec3;
use crate::algebra::POSE_LIM;
use crate::fixed::fmul;
use crate::fixed::fx_mul;
use crate::fixed::iabs;
use crate::fixed::lemma_fmul_abs_le;
use crate::fixed::lemma_fmul_one;
use crate::fixed::lemma_fmul_zero;
use crate::fixed::SCALE;
use crate::state::boid_ok;
use crate::state::Boid;
use vstd::prelude::*;

verus! {

/// The size of one index value in bytes.
pub const U32_SIZE: u64 = 4;

/// A 2-vector of fixed-point scalars: a vertex position in the plane.
#[derive(Clone, Copy, Debug, PartialEq, Eq, Structural)]
pub struct Vec2 {
    pub x: i64,
    pub y: i64,
}

/// A vertex of the triangle geometry.
#[derive(Clone, Copy, Debug, PartialEq, Eq, Structural)]
pub struct Vertex {
    pub position: Vec2,
}

/// Half the template triangle's width: one tenth, in fixed point.
pub const TRI_HALF_WIDTH: i64 = 429496730;

/// Half the template triangle's height: eighty-six thousandths, in
/// fixed point.
pub const TRI_HALF_HEIGHT: i64 = 369367187;

/// The local template triangle: tip up, base left and right.
pub open spec fn template_vertex(j: int) -> Vec2 {
    if j == 0 {
        Vec2 { x: 0, y: TRI_HALF_HEIGHT }
    } else if j == 1 {
        Vec2 { x: (-TRI_HALF_WIDTH) as i64, y: (-TRI_HALF_HEIGHT) as i64 }
    } else {
        Vec2 { x: TRI_HALF_WIDTH, y: (-TRI_HALF_HEIGHT) as i64 }
    }
}

/// Magnitude bound on orientation components fed to the rotation
/// matrix: four in real units, ample for unit quaternions with drift.
pub const ORIENT_LIM: i64 = 0x4_0000_0000;

/// Rotation matrix entries of an orientation quaternion, row by row:
/// the standard matrix of conjugation by a unit quaternion, with the
/// constant one represented by [`SCALE`].
pub open spec fn rot_r00(q: Quat) -> int {
    SCALE - 2 * fmul(q.y as int, q.y as int) - 2 * fmul(q.z as int, q.z as int)
}

/// Row 0, column 1 of the rotation matrix.
pub open spec fn rot_r01(q: Quat) -> int {
    2 * fmul(q.x as int, q.y as int) - 2 * fmul(q.s as int, q.z as int)
}

/// Row 0, column 2 of the rotation matrix.
pub open spec fn rot_r02(q: Quat) -> int {
    2 * fmul(q.x as int, q.z as int) + 2 * fmul(q.s as int, q.y as int)
}

/// Row 1, column 0 of the rotation matrix.
pub open spec fn rot_r10(q: Quat) -> int {
    2 * fmul(q.x as int, q.y as int) + 2 * fmul(q.s as int, q.z as int)
}

/// Row 1, column 1 of the rotation matrix.
pub open spec fn rot_r11(q: Quat) -> int {
    SCALE - 2 * fmul(q.x as int, q.x as int) - 2 * fmul(q.z as int, q.z as int)
}

/// Row 1, column 2 of the rotation matrix.
pub open spec fn rot_r12(q: Quat) -> int {
    2 * fmul(q.y as int, q.z as int) - 2 * fmul(q.s as int, q.x as int)
}

/// Row 2, column 0 of the rotation matrix.
pub open spec fn rot_r20(q: Quat) -> int {
    2 * fmul(q.x as int, q.z as int) - 2 * fmul(q.s as int, q.y as int)
}

/// Row 2, column 1 of the rotation matrix.
pub open spec fn rot_r21(q: Quat) -> int {
    2 * fmul(q.y as int, q.z as int) + 2 * fmul(q.s as int, q.x as int)
}

/// Row 2, column 2 of the rotation matrix.
pub open spec fn rot_r22(q: Quat) -> int {
    SCALE - 2 * fmul(q.x as int, q.x as int) - 2 * fmul(q.y as int, q.y as int)
}

/// A 4-by-4 pose matrix, row-major: rotation in the upper-left block,
/// translation in the last column, `(0, 0, 0, 1)` in the bottom row.
#[derive(Clone, Copy, Debug, PartialEq, Eq, Structural)]
pub struct Mat4 {
    pub m00: i64,
    pub m01: i64,
    pub m02: i64,
    pub m03: i64,
    pub m10: i64,
    pub m11: i64,
    pub m12: i64,
    pub m13: i64,
    pub m20: i64,
    pub m21: i64,
    pub m22: i64,
    pub m23: i64,
    pub m30: i64,
    pub m31: i64,
    pub m32: i64,
    pub m33: i64,
}

/// `m` is exactly the pose matrix `translation(position) * rotation(q)`.
pub open spec fn pose_matches(position: Vec3, q: Quat, m: Mat4) -> bool {
    &&& m.m00 as int == rot_r00(q)
    &&& m.m01 as int == rot_r01(q)
    &&& m.m02 as int == rot_r02(q)
    &&& m.m03 == position.x
    &&& m.m10 as int == rot_r10(q)
    &&& m.m11 as int == rot_r11(q)
    &&& m.m12 as int == rot_r12(q)
    &&& m.m13 == position.y
    &&& m.m20 as int == rot_r20(q)
    &&& m.m21 as int == rot_r21(q)
    &&& m.m22 as int == rot_r22(q)
    &&& m.m23 == position.z
    &&& m.m30 == 0
    &&& m.m31 == 0
    &&& m.m32 == 0
    &&& m.m33 == SCALE
}

/// Every entry of the matrix is within the pose bound.
pub open spec fn mat_ok(m: Mat4) -> bool {
    &&& iabs(m.m00 as int) <= POSE_LIM as int
    &&& iabs(m.m01 as int) <= POSE_LIM as int
    &&& iabs(m.m02 as int) <= POSE_LIM as int
    &&& iabs(m.m03 as int) <= POSE_LIM as int
    &&& iabs(m.m10 as int) <= POSE_LIM as int
    &&& iabs(m.m11 as int) <= POSE_LIM as int
    &&& iabs(m.m12 as int) <= POSE_LIM as int
    &&& iabs(m.m13 as int) <= POSE_LIM as int
    &&& iabs(m.m20 as int) <= POSE_LIM as int
    &&& iabs(m.m21 as int) <= POSE_LIM as int
    &&& iabs(m.m22 as int) <= POSE_LIM as int
    &&& iabs(m.m23 as int) <= POSE_LIM as int
    &&& iabs(m.m30 as int) <= POSE_LIM as int
    &&& iabs(m.m31 as int) <= POSE_LIM as int
    &&& iabs(m.m32 as int) <= POSE_LIM as int
    &&& iabs(m.m33 as int) <= POSE_LIM as int
}

/// The pose matrix of a position and an orientation.
pub fn pose_matrix(position: &Vec3, rotation: &Quat) -> (m: Mat4)
    requires
        vec3_in(*position, POSE_LIM as int),
        quat_in(*rotation, ORIENT_LIM as int),
    ensures
        pose_matches(*position, *rotation, m),
        mat_ok(m),
{
    proof {
        lemma_rot_products(*rotation);
    }
    let xx: i64 = fx_mul(rotation.x, rotation.x);
    let yy: i64 = fx_mul(rotation.y, rotation.y);
    let zz: i64 = fx_mul(rotation.z, rotation.z);
    let xy: i64 = fx_mul(rotation.x, rotation.y);
    let xz: i64 = fx_mul(rotation.x, rotation.z);
    let yz: i64 = fx_mul(rotation.y, rotation.z);
    let sx: i64 = fx_mul(rotation.s, rotation.x);
    let sy: i64 = fx_mul(rotation.s, rotation.y);
    let sz: i64 = fx_mul(rotation.s, rotation.z);
    Mat4 {
        m00: SCALE - 2 * yy - 2 * zz,
        m01: 2 * xy - 2 * sz,
        m02: 2 * xz + 2 * sy,
        m03: position.x,
        m10: 2 * xy + 2 * sz,
        m11: SCALE - 2 * xx - 2 * zz,
        m12: 2 * yz - 2 * sx,
        m13: position.y,
        m20: 2 * xz - 2 * sy,
        m21: 2 * yz + 2 * sx,
        m22: SCALE - 2 * xx - 2 * yy,
        m23: position.z,
        m30: 0,
        m31: 0,
        m32: 0,
        m33: SCALE,
    }
}

/// Every pairwise product of orientation components is within `2^36`.
proof fn lemma_rot_products(q: Quat)
    requires
        quat_in(q, ORIENT_LIM as int),
    ensures
        forall|p: int, r: int|
            iabs(p) <= ORIENT_LIM as int && iabs(r) <= ORIENT_LIM as int ==> iabs(
                #[trigger] fmul(p, r),
            ) <= 0x10_0000_0000,
{
    assert forall|p: int, r: int|
        iabs(p) <= ORIENT_LIM as int && iabs(r) <= ORIENT_LIM as int implies iabs(
        #[trigger] fmul(p, r),
    ) <= 0x10_0000_0000 by {
        lemma_fmul_abs_le(p, r, ORIENT_LIM as int, ORIENT_LIM as int);
        assert((ORIENT_LIM as int) * (ORIENT_LIM as int) == 0x10_0000_0000_0000_0000)
            by (nonlinear_arith);
    }
}

/// The world x-coordinate of a flat template point under a pose matrix.
/// The template lies in the plane (its third coordinate is zero) and is
/// a point (weight one), so only two rotation entries and the
/// translation contribute.
pub open spec fn world_x(m: Mat4, t: Vec2) -> int {
    fmul(m.m00 as int, t.x as int) + fmul(m.m01 as int, t.y as int) + m.m03 as int
}

/// The world y-coordinate of a flat template point under a pose matrix.
pub open spec fn world_y(m: Mat4, t: Vec2) -> int {
    fmul(m.m10 as int, t.x as int) + fmul(m.m11 as int, t.y as int) + m.m13 as int
}

/// Applies a pose matrix to a template point.
pub fn apply_pose(m: &Mat4, t: &Vec2) -> (v: Vec2)
    requires
        mat_ok(*m),
        iabs(t.x as int) <= SCALE as int,
        iabs(t.y as int) <= SCALE as int,
    ensures
        v.x as int == world_x(*m, *t),
        v.y as int == world_y(*m, *t),
{
    proof {
        lemma_fmul_abs_le(m.m00 as int, t.x as int, POSE_LIM as int, SCALE as int);
        lemma_fmul_abs_le(m.m01 as int, t.y as int, POSE_LIM as int, SCALE as int);
        lemma_fmul_abs_le(m.m10 as int, t.x as int, POSE_LIM as int, SCALE as int);
        lemma_fmul_abs_le(m.m11 as int, t.y as int, POSE_LIM as int, SCALE as int);
        assert((POSE_LIM as int) * (SCALE as int) == 0x8000_0000_0000_0000_0000)
            by (nonlinear_arith);
    }
    Vec2 {
        x: fx_mul(m.m00, t.x) + fx_mul(m.m01, t.y) + m.m03,
        y: fx_mul(m.m10, t.x) + fx_mul(m.m11, t.y) + m.m13,
    }
}

/// The world position of an agent's `j`-th triangle vertex: the
/// template vertex carried by the agent's pose.
pub open spec fn world_vertex_x(b: Boid, j: int) -> int {
    fmul(rot_r00(b.rotation), template_vertex(j).x as int) + fmul(
        rot_r01(b.rotation),
        template_vertex(j).y as int,
    ) + b.position.x as int
}

/// The world y-coordinate of an agent's `j`-th triangle vertex.
pub open spec fn world_vertex_y(b: Boid, j: int) -> int {
    fmul(rot_r10(b.rotation), template_vertex(j).x as int) + fmul(
        rot_r11(b.rotation),
        template_vertex(j).y as int,
    ) + b.position.y as int
}

/// `v` is the `j`-th world-space triangle vertex of agent `b`.
pub open spec fn vertex_at(v: Vertex, b: Boid, j: int) -> bool {
    &&& v.position.x as int == world_vertex_x(b, j)
    &&& v.position.y as int == world_vertex_y(b, j)
}

/// The two geometry modes place triangles identically: applying an
/// agent's pose matrix to a template vertex (what the renderer does in
/// instanced mode) gives exactly the vertex that per-agent mode emits.
pub proof fn lemma_modes_agree(b: Boid, m: Mat4, j: int)
    requires
        0 <= j < 3,
        pose_matches(b.position, b.rotation, m),
    ensures
        world_x(m, template_vertex(j)) == world_vertex_x(b, j),
        world_y(m, template_vertex(j)) == world_vertex_y(b, j),
{
}

/// At the identity pose — zero translation, unit scalar orientation —
/// every world-space triangle vertex equals the template vertex.
pub proof fn lemma_identity_pose_fixes_template(b: Boid, j: int)
    requires
        0 <= j < 3,
        b.position == (Vec3 { x: 0, y: 0, z: 0 }),
        b.rotation == (Quat { s: SCALE, x: 0, y: 0, z: 0 }),
    ensures
        world_vertex_x(b, j) == template_vertex(j).x as int,
        world_vertex_y(b, j) == template_vertex(j).y as int,
{
    lemma_fmul_zero(template_vertex(j).x as int);
    lemma_fmul_zero(template_vertex(j).y as int);
    lemma_fmul_one(template_vertex(j).x as int);
    lemma_fmul_one(template_vertex(j).y as int);
    assert(rot_r00(b.rotation) == SCALE as int);
    assert(rot_r01(b.rotation) == 0);
    assert(rot_r10(b.rotation) == 0);
    assert(rot_r11(b.rotation) == SCALE as int);
}

/// The largest number of agents one vertex/index buffer can describe:
/// three indices per agent must fit in `u32`.
pub const MAX_BOIDS: u32 = 1431655765;

/// Accumulates per-agent triangles: three world-space vertices and a
/// fresh index triple for every agent pushed so far.
pub struct BoidBufferBuilder {
    pub vertex_data: Vec<Vertex>,
    pub index_data: Vec<u32>,
    pub current_boid: u32,
}

/// The builder holds three vertices and three indices per agent pushed,
/// and the indices count up from zero.
pub open spec fn builder_wf(b: BoidBufferBuilder) -> bool {
    &&& b.vertex_data@.len() == 3 * (b.current_boid as int)
    &&& b.index_data@.len() == 3 * (b.current_boid as int)
    &&& forall|k: int|
        0 <= k < b.index_data@.len() ==> (#[trigger] b.index_data@[k]) as int == k
}

impl BoidBufferBuilder {
    /// An empty builder.
    pub fn new() -> (r: BoidBufferBuilder)
        ensures
            builder_wf(r),
            r.current_boid == 0,
            r.vertex_data@ =~= Seq::<Vertex>::empty(),
            r.index_data@ =~= Seq::<u32>::empty(),
    {
        BoidBufferBuilder { vertex_data: Vec::new(), index_data: Vec::new(), current_boid: 0 }
    }

    /// Appends one agent's triangle: its three template vertices carried
    /// into world space by its pose, and the next index triple.
    pub fn push_boid(self, boid: &Boid) -> (r: BoidBufferBuilder)
        requires
            builder_wf(self),
            boid_ok(*boid),
            quat_in(boid.rotation, ORIENT_LIM as int),
            self.current_boid < MAX_BOIDS,
        ensures
            builder_wf(r),
            r.current_boid as int == self.current_boid as int + 1,
            r.vertex_data@.len() == self.vertex_data@.len() + 3,
            r.index_data@.len() == self.index_data@.len() + 3,
            forall|k: int|
                0 <= k < self.vertex_data@.len() ==> #[trigger] r.vertex_data@[k]
                    == self.vertex_data@[k],
            forall|j: int|
                0 <= j < 3 ==> vertex_at(
                    #[trigger] r.vertex_data@[self.vertex_data@.len() + j],
                    *boid,
                    j,
                ),
    {
        let m = pose_matrix(&boid.position, &boid.rotation);
        let t0 = Vec2 { x: 0, y: TRI_HALF_HEIGHT };
        let t1 = Vec2 { x: -TRI_HALF_WIDTH, y: -TRI_HALF_HEIGHT };
        let t2 = Vec2 { x: TRI_HALF_WIDTH, y: -TRI_HALF_HEIGHT };
        proof {
            lemma_modes_agree(*boid, m, 0);
            lemma_modes_agree(*boid, m, 1);
            lemma_modes_agree(*boid, m, 2);
        }
        let v0 = apply_pose(&m, &t0);
        let v1 = apply_pose(&m, &t1);
        let v2 = apply_pose(&m, &t2);
        let mut grown = self;
        grown.vertex_data.push(Vertex { position: v0 });
        grown.vertex_data.push(Vertex { position: v1 });
        grown.vertex_data.push(Vertex { position: v2 });
        let base: u32 = grown.current_boid * 3;
        grown.index_data.push(base);
        grown.index_data.push(base + 1);
        grown.index_data.push(base + 2);
        grown.current_boid = grown.current_boid + 1;
        grown
    }

    /// Hands out the accumulated vertices and indices, together with
    /// the number of indices to draw.
    pub fn build(self) -> (r: (Vec<Vertex>, Vec<u32>, u32))
        requires
            builder_wf(self),
            self.index_data@.len() <= u32::MAX,
        ensures
            r.0@ == self.vertex_data@,
            r.1@ == self.index_data@,
            r.2 as int == self.index_data@.len(),
    {
        let BoidBufferBuilder { vertex_data, index_data, current_boid: _ } = self;
        let count: u32 = index_data.len() as u32;
        (vertex_data, index_data, count)
    }
}

/// Per-agent geometry for a whole collection: for `n` agents, exactly
/// `3 * n` world-space vertices and the indices `0, 1, 2, ...` grouped
/// in one contiguous, non-overlapping triple per agent.
pub fn build_geometry(agents: &Vec<Boid>) -> (r: (Vec<Vertex>, Vec<u32>, u32))
    requires
        forall|i: int| 0 <= i < agents@.len() ==> boid_ok(#[trigger] agents@[i]),
        forall|i: int|
            0 <= i < agents@.len() ==> quat_in((#[trigger] agents@[i]).rotation, ORIENT_LIM as int),
        agents@.len() <= MAX_BOIDS,
    ensures
        r.0@.len() == 3 * agents@.len(),
        r.1@.len() == 3 * agents@.len(),
        r.2 as int == 3 * agents@.len(),
        forall|i: int, j: int|
            0 <= i < agents@.len() && 0 <= j < 3 ==> vertex_at(
                #[trigger] r.0@[3 * i + j],
                agents@[i],
                j,
            ),
        forall|k: int| 0 <= k < r.1@.len() ==> (#[trigger] r.1@[k]) as int == k,
        forall|i: int|
            0 <= i < agents@.len() ==> (#[trigger] r.1@[3 * i]) as int == 3 * i && r.1@[3 * i
                + 1] as int == 3 * i + 1 && r.1@[3 * i + 2] as int == 3 * i + 2,
{
    let n: usize = agents.len();
    let mut builder = BoidBufferBuilder::new();
    let mut i: usize = 0;
    while i < n
        invariant
            n == agents@.len(),
            n <= MAX_BOIDS,
            forall|k: int| 0 <= k < agents@.len() ==> boid_ok(#[trigger] agents@[k]),
            forall|k: int|
                0 <= k < agents@.len() ==> quat_in(
                    (#[trigger] agents@[k]).rotation,
                    ORIENT_LIM as int,
                ),
            i <= n,
            builder_wf(builder),
            builder.current_boid as int == i as int,
            forall|k: int, j: int|
                0 <= k < i as int && 0 <= j < 3 ==> vertex_at(
                    #[trigger] builder.vertex_data@[3 * k + j],
                    agents@[k],
                    j,
                ),
        decreases n - i,
    {
        builder = builder.push_boid(&agents[i]);
        i = i + 1;
    }
    builder.build()
}

/// Instanced geometry for a whole collection: one copy of the template
/// triangle, one index triple, and one pose matrix per agent, however
/// many agents there are.
pub fn build_instanced(agents: &Vec<Boid>) -> (r: (Vec<Vertex>, Vec<u32>, Vec<Mat4>))
    requires
        forall|i: int| 0 <= i < agents@.len() ==> boid_ok(#[trigger] agents@[i]),
        forall|i: int|
            0 <= i < agents@.len() ==> quat_in((#[trigger] agents@[i]).rotation, ORIENT_LIM as int),
    ensures
        r.0@.len() == 3,
        forall|j: int| 0 <= j < 3 ==> (#[trigger] r.0@[j]).position == template_vertex(j),
        r.1@.len() == 3,
        r.1@[0] == 0u32 && r.1@[1] == 1u32 && r.1@[2] == 2u32,
        r.2@.len() == agents@.len(),
        forall|i: int|
            0 <= i < agents@.len() ==> pose_matches(
                agents@[i].position,
                agents@[i].rotation,
                #[trigger] r.2@[i],
            ),
{
    let mut vertices: Vec<Vertex> = Vec::new();
    vertices.push(Vertex { position: Vec2 { x: 0, y: TRI_HALF_HEIGHT } });
    vertices.push(Vertex { position: Vec2 { x: -TRI_HALF_WIDTH, y: -TRI_HALF_HEIGHT } });
    vertices.push(Vertex { position: Vec2 { x: TRI_HALF_WIDTH, y: -TRI_HALF_HEIGHT } });
    let mut indices: Vec<u32> = Vec::new();
    indices.push(0);
    indices.push(1);
    indices.push(2);
    let n: usize = agents.len();
    let mut poses: Vec<Mat4> = Vec::new();
    let mut i: usize = 0;
    while i < n
        invariant
            n == agents@.len(),
            forall|k: int| 0 <= k < agents@.len() ==> boid_ok(#[trigger] agents@[k]),
            forall|k: int|
                0 <= k < agents@.len() ==> quat_in(
                    (#[trigger] agents@[k]).rotation,
                    ORIENT_LIM as int,
                ),
            i <= n,
            poses@.len() == i as int,
            forall|k: int|
                0 <= k < i as int ==> pose_matches(
                    agents@[k].position,
                    agents@[k].rotation,
                    #[trigger] poses@[k],
                ),
            vertices@.len() == 3,
            forall|j: int| 0 <= j < 3 ==> (#[trigger] vertices@[j]).position == template_vertex(j),
            indices@.len() == 3,
            indices@[0] == 0u32 && indices@[1] == 1u32 && indices@[2] == 2u32,
        decreases n - i,
    {
        let agent = &agents[i];
        poses.push(pose_matrix(&agent.position, &agent.rotation));
        i = i + 1;
    }
    (vertices, indices, poses)
}

/// The number of bytes a slice's elements occupy.
pub fn size_of_slice<T: Sized>(slice: &[T]) -> (r: usize)
    requires
        vstd::layout::size_of::<T>() * slice@.len() <= usize::MAX,
    ensures
        r as nat == vstd::layout::size_of::<T>() * slice@.len(),
{
    core::mem::size_of::<T>() * slice.len()
}

/// Bytes staged for a single transfer to a renderer-owned buffer.
pub struct StagingBuffer {
    bytes: Vec<u8>,
    size: u64,
}

impl StagingBuffer {
    /// The staged bytes.
    pub closed spec fn contents(self) -> Seq<u8> {
        self.bytes@
    }

    /// The staged length in bytes.
    pub closed spec fn spec_size(self) -> u64 {
        self.size
    }

    /// The recorded size is the length of the staged bytes.
    pub closed spec fn wf(self) -> bool {
        self.size as int == self.bytes@.len()
    }

    /// Stages a byte blob, recording its length.
    pub fn new(data: Vec<u8>) -> (r: StagingBuffer)
        ensures
            r.wf(),
            r.contents() == data@,
            r.spec_size() as int == data@.len(),
    {
        let size: u64 = data.len() as u64;
        StagingBuffer { bytes: data, size }
    }

    /// Copies the full staged length to the destination, starting at
    /// offset zero in both; bytes of the destination past the staged
    /// length keep their values. Consuming the buffer makes the
    /// transfer single-shot.
    pub fn copy_to_buffer(self, destination: &mut Vec<u8>)
        requires
            self.wf(),
            self.spec_size() as int <= old(destination)@.len(),
        ensures
            final(destination)@.len() == old(destination)@.len(),
            forall|k: int|
                0 <= k < self.spec_size() as int ==> #[trigger] final(destination)@[k]
                    == self.contents()[k],
            forall|k: int|
                self.spec_size() as int <= k < old(destination)@.len()
                    ==> #[trigger] final(destination)@[k] == old(destination)@[k],
    {
        let n: usize = self.bytes.len();
        let mut k: usize = 0;
        while k < n
            invariant
                self.wf(),
                n == self.bytes@.len(),
                n <= destination@.len(),
                k <= n,
                destination@.len() == old(destination)@.len(),
                forall|j: int|
                    0 <= j < k as int ==> #[trigger] destination@[j] == self.bytes@[j],
                forall|j: int|
                    k as int <= j < old(destination)@.len() ==> #[trigger] destination@[j] == old(
                        destination,
                    )@[j],
            decreases n - k,
        {
            let byte: u8 = self.bytes[k];
            destination[k] = byte;
            k = k + 1;
        }
    }
}

} // verus!
