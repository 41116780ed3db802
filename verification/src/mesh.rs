//! Triangle-mesh construction from a chunk's voxel data.
//!
//! The mesh lives in quarter-voxel units, centred on the chunk origin:
//! horizontal components range over `[-2n, 2n]` for a chunk of `n` cells per
//! side, and the vertical component carries four times a column height so
//! that corner vertices can hold the exact average of their four
//! neighbouring cells. The caller scales by `voxel_size / 4` when realizing
//! the mesh in world space.
//!
//! Layout: every cell contributes a centre vertex and its low corner vertex;
//! one extra ring of corner vertices closes the east and south edges, where
//! the corner heights blend skirt samples so that independently generated
//! neighbours meet without cracks. Triangle indices are 16-bit; the settings
//! bound on `chunk_size` enforces the resulting 65536-vertex ceiling.

use vstd::prelude::*;
use crate::voxel::VoxelData;

verus! {

/// Largest coordinate magnitude a mesh vertex can carry, in quarter-voxel
/// units. Keeps normal accumulation inside `i64`.
pub const MESH_POS_LIMIT: i64 = 0x8000;

/// Largest index-list length `calculate_normals` accepts.
pub const MAX_INDEX_COUNT: usize = 0x80000;

/// A vertex attribute triple: a position or an (unnormalized) normal.
#[derive(Clone, Copy, Debug, PartialEq, Eq, Structural)]
pub struct Vec3 {
    pub x: i64,
    pub y: i64,
    pub z: i64,
}

/// A texture coordinate, as a pair of numerators over the chunk footprint
/// `4 * chunk_size`, so that `(0, 0)` and `(1, 1)` span one chunk.
#[derive(Clone, Copy, Debug, PartialEq, Eq, Structural)]
pub struct TexCoord {
    pub u: i64,
    pub v: i64,
}

/// A renderable triangle mesh: positions, accumulated normals and texture
/// coordinates per vertex, plus a 16-bit triangle index list.
#[derive(Clone, Debug)]
pub struct MeshBuffer {
    pub positions: Vec<Vec3>,
    pub normals: Vec<Vec3>,
    pub tex_coords: Vec<TexCoord>,
    pub indices: Vec<u16>,
}

impl MeshBuffer {
    /// The buffer invariant: the index list holds whole triangles, every
    /// index addresses a vertex, and every vertex has a normal, a texture
    /// coordinate, and bounded coordinates.
    pub open spec fn wf(self) -> bool {
        &&& self.indices@.len() % 3 == 0
        &&& forall|m: int|
            0 <= m < self.indices@.len() ==> (#[trigger] self.indices@[m]) < self.positions@.len()
        &&& self.normals@.len() == self.positions@.len()
        &&& self.tex_coords@.len() == self.positions@.len()
        &&& forall|k: int|
            0 <= k < self.positions@.len() ==> in_mesh_bounds(#[trigger] self.positions@[k])
    }
}

/// A position stays within the mesh coordinate bounds.
pub open spec fn in_mesh_bounds(p: Vec3) -> bool {
    &&& -MESH_POS_LIMIT <= p.x <= MESH_POS_LIMIT
    &&& -MESH_POS_LIMIT <= p.y <= MESH_POS_LIMIT
    &&& -MESH_POS_LIMIT <= p.z <= MESH_POS_LIMIT
}

/// Number of vertices in a chunk mesh of `n` cells per side: a centre and a
/// corner per cell, a corner ring on the east and south edges, and the far
/// corner.
pub open spec fn spec_vertex_count(n: int) -> int {
    2 * (n * n) + 2 * n + 1
}

/// Number of triangle indices: four triangles around each cell centre.
pub open spec fn spec_index_count(n: int) -> int {
    12 * (n * n)
}

/// Four times the height blended at lattice corner `(x, z)`: the sum of the
/// four cells incident to the corner, skirt cells included, so the value is
/// the exact bilinear centroid scaled by four.
pub open spec fn spec_corner_height(v: VoxelData, x: int, z: int) -> int {
    v.spec_at(x - 1, z - 1) + v.spec_at(x, z - 1) + v.spec_at(x - 1, z) + v.spec_at(x, z)
}

/// The centre vertex of cell `(x, z)`, in quarter-voxel units centred on
/// the chunk origin.
pub open spec fn spec_center_pos(v: VoxelData, x: int, z: int) -> (int, int, int) {
    let n = v.chunk_size as int;
    (4 * x + 2 - 2 * n, 4 * v.spec_at(x, z), 4 * z + 2 - 2 * n)
}

/// The corner vertex at lattice corner `(x, z)`.
pub open spec fn spec_corner_pos(v: VoxelData, x: int, z: int) -> (int, int, int) {
    let n = v.chunk_size as int;
    (4 * x - 2 * n, spec_corner_height(v, x, z), 4 * z - 2 * n)
}

/// The position of vertex `k`: cells contribute vertex pairs in row-major
/// order (centre first), then the east edge corners, the south edge
/// corners, and the far corner.
pub open spec fn spec_position(v: VoxelData, k: int) -> (int, int, int) {
    let n = v.chunk_size as int;
    if k < 2 * (n * n) {
        let j = k / 2;
        if k % 2 == 0 {
            spec_center_pos(v, j % n, j / n)
        } else {
            spec_corner_pos(v, j % n, j / n)
        }
    } else if k < 2 * (n * n) + n {
        spec_corner_pos(v, n, k - 2 * (n * n))
    } else if k < 2 * (n * n) + 2 * n {
        spec_corner_pos(v, k - (2 * (n * n) + n), n)
    } else {
        spec_corner_pos(v, n, n)
    }
}

/// The index of the corner vertex at lattice corner `(x, z)`: cell-owned
/// corners for the interior, then the east edge, the south edge, and the
/// far corner.
pub open spec fn spec_corner_id(n: int, x: int, z: int) -> int {
    if x < n && z < n {
        2 * (z * n + x) + 1
    } else if x == n && z < n {
        2 * (n * n) + z
    } else if z == n && x < n {
        2 * (n * n) + n + x
    } else {
        2 * (n * n) + 2 * n
    }
}

/// The twelve indices of the four triangles fanning around the centre of
/// cell `(x, z)`, in the winding of the source mesh.
pub open spec fn spec_cell_indices(n: int, x: int, z: int) -> Seq<int> {
    let ci = 2 * (z * n + x);
    let c00 = spec_corner_id(n, x, z);
    let c10 = spec_corner_id(n, x + 1, z);
    let c01 = spec_corner_id(n, x, z + 1);
    let c11 = spec_corner_id(n, x + 1, z + 1);
    seq![ci, c00, c01, ci, c01, c11, ci, c11, c10, ci, c10, c00]
}

/// The whole triangle index list of a chunk of `n` cells per side.
pub open spec fn spec_indices(n: int) -> Seq<int> {
    Seq::new(
        spec_index_count(n) as nat,
        |m: int|
            {
                let j = m / 12;
                spec_cell_indices(n, j % n, j / n)[m % 12]
            },
    )
}

/// `m` is exactly the mesh of voxel data `v`: well-formed, with the vertex
/// and index counts of `v`'s chunk size, every position, triangle index and
/// texture coordinate equal to its specification, and the normals the exact
/// accumulation of the face normals.
pub open spec fn is_mesh_of(m: MeshBuffer, v: VoxelData) -> bool {
    &&& m.wf()
    &&& m.positions@.len() == spec_vertex_count(v.chunk_size as int)
    &&& m.indices@.len() == spec_index_count(v.chunk_size as int)
    &&& forall|k: int|
        0 <= k < m.positions@.len() ==> vec3_is(#[trigger] m.positions@[k], spec_position(v, k))
    &&& forall|t: int|
        0 <= t < m.indices@.len() ==> (#[trigger] m.indices@[t]) as int == spec_indices(
            v.chunk_size as int,
        )[t]
    &&& forall|k: int|
        0 <= k < m.tex_coords@.len() ==> (#[trigger] m.tex_coords@[k]).u == m.positions@[k].x + 2
            * v.chunk_size && m.tex_coords@[k].v == m.positions@[k].z + 2 * v.chunk_size
    &&& vec3_seq_is(
        m.normals@,
        spec_accum_normals(m.positions@, m.indices@, m.indices@.len() as int / 3),
    )
}

/// A vertex triple equals a specification triple componentwise.
pub open spec fn vec3_is(p: Vec3, t: (int, int, int)) -> bool {
    p.x == t.0 && p.y == t.1 && p.z == t.2
}

/// A vertex sequence equals a specification sequence componentwise.
pub open spec fn vec3_seq_is(s: Seq<Vec3>, t: Seq<(int, int, int)>) -> bool {
    s.len() == t.len() && forall|i: int| 0 <= i < s.len() ==> vec3_is(#[trigger] s[i], t[i])
}

/// The cross product of the two edge vectors of a triangle `(a, b, c)`:
/// `(b - a) x (c - a)`, the face's area-weighted normal.
pub open spec fn spec_cross(a: Vec3, b: Vec3, c: Vec3) -> (int, int, int) {
    let ux = b.x - a.x;
    let uy = b.y - a.y;
    let uz = b.z - a.z;
    let vx = c.x - a.x;
    let vy = c.y - a.y;
    let vz = c.z - a.z;
    (uy * vz - uz * vy, uz * vx - ux * vz, ux * vy - uy * vx)
}

/// The per-vertex normals accumulated over the first `f` faces: each face
/// adds its area-weighted normal to its three vertices.
pub open spec fn spec_accum_normals(pos: Seq<Vec3>, ind: Seq<u16>, f: int) -> Seq<(int, int, int)>
    decreases f,
{
    if f <= 0 {
        Seq::new(pos.len(), |i: int| (0 as int, 0 as int, 0 as int))
    } else {
        let prev = spec_accum_normals(pos, ind, f - 1);
        let i0 = ind[3 * (f - 1)] as int;
        let i1 = ind[3 * (f - 1) + 1] as int;
        let i2 = ind[3 * (f - 1) + 2] as int;
        let cr = spec_cross(pos[i0], pos[i1], pos[i2]);
        let s0 = prev.update(i0, (prev[i0].0 + cr.0, prev[i0].1 + cr.1, prev[i0].2 + cr.2));
        let s1 = s0.update(i1, (s0[i1].0 + cr.0, s0[i1].1 + cr.1, s0[i1].2 + cr.2));
        s1.update(i2, (s1[i2].0 + cr.0, s1[i2].1 + cr.1, s1[i2].2 + cr.2))
    }
}

/// Accumulated normals keep the vertex count.
pub proof fn lemma_accum_normals_len(pos: Seq<Vec3>, ind: Seq<u16>, f: int)
    requires
        3 * f <= ind.len(),
        forall|m: int| 0 <= m < ind.len() ==> (#[trigger] ind[m]) < pos.len(),
    ensures
        spec_accum_normals(pos, ind, f).len() == pos.len(),
    decreases f,
{
    if f > 0 {
        lemma_accum_normals_len(pos, ind, f - 1);
    }
}

/// Corner vertex indices land inside the vertex range.
pub proof fn lemma_corner_id_bounds(n: int, x: int, z: int)
    requires
        1 <= n <= 180,
        0 <= x <= n,
        0 <= z <= n,
    ensures
        0 <= spec_corner_id(n, x, z) < spec_vertex_count(n),
{
    if x < n && z < n {
        assert(0 <= 2 * (z * n + x) + 1 && 2 * (z * n + x) + 1 < 2 * (n * n) + 2 * n + 1)
            by (nonlinear_arith)
            requires
                0 <= x < n,
                0 <= z < n,
                n >= 1,
        ;
    }
}

/// Every triangle index of a chunk of `n` cells per side addresses one of
/// its `2 n^2 + 2 n + 1` vertices.
pub proof fn lemma_spec_indices_bounds(n: int)
    requires
        1 <= n <= 180,
    ensures
        forall|m: int|
            0 <= m < spec_index_count(n) ==> 0 <= #[trigger] spec_indices(n)[m]
                < spec_vertex_count(n),
{
    assert forall|m: int|
        0 <= m < spec_index_count(n) implies 0 <= #[trigger] spec_indices(n)[m]
        < spec_vertex_count(n) by {
        let j = m / 12;
        let t = m % 12;
        vstd::arithmetic::div_mod::lemma_fundamental_div_mod(m, 12);
        assert(0 <= j < n * n) by (nonlinear_arith)
            requires
                m == 12 * j + t,
                0 <= t < 12,
                0 <= m < 12 * (n * n),
        ;
        let x = j % n;
        let z = j / n;
        vstd::arithmetic::div_mod::lemma_fundamental_div_mod(j, n);
        assert(0 <= x < n);
        assert(0 <= z < n) by (nonlinear_arith)
            requires
                j == n * z + x,
                0 <= x < n,
                0 <= j < n * n,
                n >= 1,
        ;
        assert(0 <= 2 * (z * n + x) && 2 * (z * n + x) + 1 < spec_vertex_count(n))
            by (nonlinear_arith)
            requires
                0 <= x < n,
                0 <= z < n,
                n >= 1,
        ;
        lemma_corner_id_bounds(n, x, z);
        lemma_corner_id_bounds(n, x + 1, z);
        lemma_corner_id_bounds(n, x, z + 1);
        lemma_corner_id_bounds(n, x + 1, z + 1);
        assert(spec_indices(n)[m] == spec_cell_indices(n, x, z)[t]);
    }
}

/// The vertex pair of cell `(x, z)` sits at positions `2 (z n + x)` and
/// `2 (z n + x) + 1` of the vertex list.
pub proof fn lemma_cell_vertex_position(v: VoxelData, x: int, z: int)
    requires
        1 <= v.chunk_size <= 180,
        0 <= x < v.chunk_size,
        0 <= z < v.chunk_size,
    ensures
        spec_position(v, 2 * (z * v.chunk_size + x)) == spec_center_pos(v, x, z),
        spec_position(v, 2 * (z * v.chunk_size + x) + 1) == spec_corner_pos(v, x, z),
{
    let n = v.chunk_size as int;
    let j = z * n + x;
    assert(0 <= j < n * n) by (nonlinear_arith)
        requires
            j == z * n + x,
            0 <= x < n,
            0 <= z < n,
            n >= 1,
    ;
    assert(2 * j < 2 * (n * n) && 2 * j + 1 < 2 * (n * n)) by (nonlinear_arith)
        requires
            0 <= j < n * n,
    ;
    vstd::arithmetic::div_mod::lemma_fundamental_div_mod_converse(2 * j, 2, j, 0);
    vstd::arithmetic::div_mod::lemma_fundamental_div_mod_converse(2 * j + 1, 2, j, 1);
    vstd::arithmetic::div_mod::lemma_fundamental_div_mod_converse(j, n, z, x);
}

/// Entry `12 (z n + x) + t` of the index list is entry `t` of cell
/// `(x, z)`'s twelve indices.
pub proof fn lemma_indices_entry(n: int, x: int, z: int, t: int)
    requires
        1 <= n <= 180,
        0 <= x < n,
        0 <= z < n,
        0 <= t < 12,
    ensures
        spec_indices(n)[12 * (z * n + x) + t] == spec_cell_indices(n, x, z)[t],
{
    let j = z * n + x;
    let m = 12 * j + t;
    assert(0 <= j < n * n) by (nonlinear_arith)
        requires
            j == z * n + x,
            0 <= x < n,
            0 <= z < n,
            n >= 1,
    ;
    assert(0 <= m < 12 * (n * n)) by (nonlinear_arith)
        requires
            m == 12 * j + t,
            0 <= j < n * n,
            0 <= t < 12,
    ;
    vstd::arithmetic::div_mod::lemma_fundamental_div_mod_converse(m, 12, j, t);
    vstd::arithmetic::div_mod::lemma_fundamental_div_mod_converse(j, n, z, x);
}

/// A face normal's components are bounded by eight times the squared
/// position bound.
proof fn lemma_cross_bound(a: Vec3, b: Vec3, c: Vec3)
    requires
        in_mesh_bounds(a),
        in_mesh_bounds(b),
        in_mesh_bounds(c),
    ensures
        -8_589_934_592 <= spec_cross(a, b, c).0 <= 8_589_934_592,
        -8_589_934_592 <= spec_cross(a, b, c).1 <= 8_589_934_592,
        -8_589_934_592 <= spec_cross(a, b, c).2 <= 8_589_934_592,
{
    let ux = b.x - a.x;
    let uy = b.y - a.y;
    let uz = b.z - a.z;
    let vx = c.x - a.x;
    let vy = c.y - a.y;
    let vz = c.z - a.z;
    assert(-8_589_934_592 <= uy * vz - uz * vy <= 8_589_934_592 && -8_589_934_592 <= uz * vx - ux
        * vz <= 8_589_934_592 && -8_589_934_592 <= ux * vy - uy * vx <= 8_589_934_592)
        by (nonlinear_arith)
        requires
            -0x10000 <= ux <= 0x10000,
            -0x10000 <= uy <= 0x10000,
            -0x10000 <= uz <= 0x10000,
            -0x10000 <= vx <= 0x10000,
            -0x10000 <= vy <= 0x10000,
            -0x10000 <= vz <= 0x10000,
    ;
}

/// Computes smooth-shading normals: every triangle's area-weighted normal
/// (the cross product of its edge vectors) is accumulated onto its three
/// vertices. The result is unnormalized; the renderer rescales each vector
/// to unit length when it uploads the mesh.
#[verifier::rlimit(100)]
pub fn calculate_normals(positions: &Vec<Vec3>, indices: &Vec<u16>) -> (normals: Vec<Vec3>)
    requires
        indices@.len() % 3 == 0,
        indices@.len() <= MAX_INDEX_COUNT,
        forall|m: int|
            0 <= m < indices@.len() ==> (#[trigger] indices@[m]) < positions@.len(),
        forall|k: int|
            0 <= k < positions@.len() ==> in_mesh_bounds(#[trigger] positions@[k]),
    ensures
        normals@.len() == positions@.len(),
        vec3_seq_is(
            normals@,
            spec_accum_normals(positions@, indices@, indices@.len() as int / 3),
        ),
{
    let mut normals: Vec<Vec3> = Vec::new();
    let mut i: usize = 0;
    while i < positions.len()
        invariant
            0 <= i <= positions@.len(),
            normals@.len() == i,
            forall|k: int|
                0 <= k < i ==> (#[trigger] normals@[k]) == (Vec3 { x: 0i64, y: 0i64, z: 0i64 }),
        decreases positions@.len() - i,
    {
        normals.push(Vec3 { x: 0, y: 0, z: 0 });
        i = i + 1;
    }
    let num_faces = indices.len() / 3;
    proof {
        assert(vec3_seq_is(normals@, spec_accum_normals(positions@, indices@, 0)));
        vstd::arithmetic::div_mod::lemma_fundamental_div_mod(indices@.len() as int, 3);
        vstd::arithmetic::div_mod::lemma_div_is_ordered(
            indices@.len() as int,
            MAX_INDEX_COUNT as int,
            3,
        );
        assert(num_faces <= 174_762);
        assert(3 * num_faces == indices@.len());
    }
    let mut face: usize = 0;
    while face < num_faces
        invariant
            indices@.len() % 3 == 0,
            indices@.len() <= MAX_INDEX_COUNT,
            num_faces == indices@.len() / 3,
            3 * num_faces == indices@.len(),
            0 <= face <= num_faces,
            num_faces <= 174_762,
            forall|m: int|
                0 <= m < indices@.len() ==> (#[trigger] indices@[m]) < positions@.len(),
            forall|k: int|
                0 <= k < positions@.len() ==> in_mesh_bounds(#[trigger] positions@[k]),
            normals@.len() == positions@.len(),
            vec3_seq_is(normals@, spec_accum_normals(positions@, indices@, face as int)),
            forall|k: int|
                0 <= k < normals@.len() ==> {
                    let p = #[trigger] normals@[k];
                    -25_769_803_776 * face <= p.x <= 25_769_803_776 * face && -25_769_803_776
                        * face <= p.y <= 25_769_803_776 * face && -25_769_803_776 * face <= p.z
                        <= 25_769_803_776 * face
                },
        decreases num_faces - face,
    {
        let ghost prev = normals@;
        let ghost acc_prev = spec_accum_normals(positions@, indices@, face as int);
        let i0 = indices[3 * face] as usize;
        let i1 = indices[3 * face + 1] as usize;
        let i2 = indices[3 * face + 2] as usize;
        let a = positions[i0];
        let b = positions[i1];
        let c = positions[i2];
        let ux = b.x - a.x;
        let uy = b.y - a.y;
        let uz = b.z - a.z;
        let vx = c.x - a.x;
        let vy = c.y - a.y;
        let vz = c.z - a.z;
        proof {
            lemma_cross_bound(a, b, c);
            assert(-0x1_0000_0000 <= uy * vz <= 0x1_0000_0000 && -0x1_0000_0000 <= uz * vy
                <= 0x1_0000_0000 && -0x1_0000_0000 <= uz * vx <= 0x1_0000_0000 && -0x1_0000_0000
                <= ux * vz <= 0x1_0000_0000 && -0x1_0000_0000 <= ux * vy <= 0x1_0000_0000
                && -0x1_0000_0000 <= uy * vx <= 0x1_0000_0000) by (nonlinear_arith)
                requires
                    -0x10000 <= ux <= 0x10000,
                    -0x10000 <= uy <= 0x10000,
                    -0x10000 <= uz <= 0x10000,
                    -0x10000 <= vx <= 0x10000,
                    -0x10000 <= vy <= 0x10000,
                    -0x10000 <= vz <= 0x10000,
            ;
            assert(25_769_803_776 * (face + 1) == 25_769_803_776 * face + 25_769_803_776)
                by (nonlinear_arith)
            ;
            assert(25_769_803_776 * (face as int + 1) <= 25_769_803_776 * 174_762)
                by (nonlinear_arith)
                requires
                    face + 1 <= 174_762,
            ;
            assert(0 <= 25_769_803_776 * (face as int)) by (nonlinear_arith)
                requires
                    0 <= face,
            ;
        }
        let cx = uy * vz - uz * vy;
        let cy = uz * vx - ux * vz;
        let cz = ux * vy - uy * vx;
        let n0 = normals[i0];
        normals[i0] = Vec3 { x: n0.x + cx, y: n0.y + cy, z: n0.z + cz };
        let n1 = normals[i1];
        normals[i1] = Vec3 { x: n1.x + cx, y: n1.y + cy, z: n1.z + cz };
        let n2 = normals[i2];
        normals[i2] = Vec3 { x: n2.x + cx, y: n2.y + cy, z: n2.z + cz };
        face = face + 1;
        proof {
            let f = face as int;
            let acc = spec_accum_normals(positions@, indices@, f);
            lemma_accum_normals_len(positions@, indices@, f - 1);
            assert(acc_prev == spec_accum_normals(positions@, indices@, f - 1));
            assert(vec3_seq_is(normals@, acc));
        }
    }
    normals
}

/// The 16-bit index of the corner vertex at lattice corner `(x, z)`.
fn corner_id(n: u32, x: u32, z: u32) -> (id: u16)
    requires
        1 <= n <= 180,
        x <= n,
        z <= n,
    ensures
        id as int == spec_corner_id(n as int, x as int, z as int),
        (id as int) < spec_vertex_count(n as int),
{
    proof {
        lemma_corner_id_bounds(n as int, x as int, z as int);
        assert(2 * (z * n + x) + 1 < 65_536 && 2 * (n * n) + z < 65_536 && 2 * (n * n) + n + x
            < 65_536 && 2 * (n * n) + 2 * n < 65_536) by (nonlinear_arith)
            requires
                1 <= n <= 180,
                x <= n,
                z <= n,
        ;
    }
    if x < n && z < n {
        (2 * (z * n + x) + 1) as u16
    } else if x == n && z < n {
        (2 * (n * n) + z) as u16
    } else if z == n && x < n {
        (2 * (n * n) + n + x) as u16
    } else {
        (2 * (n * n) + 2 * n) as u16
    }
}

/// Builds the renderable mesh of one chunk from its voxel data: a smoothed
/// height-field surface whose cell centres carry the cell's own sample and
/// whose corners carry the exact four-cell average, including skirt samples
/// on the outer ring so that the mesh stitches seamlessly to neighbours
/// generated independently. Returns positions, accumulated normals, texture
/// coordinates and a 16-bit triangle list.
pub fn create_voxel_mesh2(voxels: &VoxelData) -> (m: MeshBuffer)
    requires
        voxels.wf(),
    ensures
        is_mesh_of(m, *voxels),
{
    let n: u32 = voxels.chunk_size;
    let ni: i64 = n as i64;
    let ghost nn = n as int;
    let mut positions: Vec<Vec3> = Vec::new();
    let mut indices: Vec<u16> = Vec::new();
    let mut z: u32 = 0;
    while z < n
        invariant
            voxels.wf(),
            n == voxels.chunk_size,
            ni == n,
            nn == n,
            0 <= z <= n,
            positions@.len() == 2 * (z * nn),
            indices@.len() == 12 * (z * nn),
            forall|k: int|
                0 <= k < positions@.len() ==> vec3_is(
                    #[trigger] positions@[k],
                    spec_position(*voxels, k),
                ),
            forall|k: int|
                0 <= k < positions@.len() ==> in_mesh_bounds(#[trigger] positions@[k]),
            forall|t: int|
                0 <= t < indices@.len() ==> (#[trigger] indices@[t]) as int == spec_indices(nn)[t],
        decreases n - z,
    {
        let mut x: u32 = 0;
        proof {
            assert(2 * (z * nn) + 2 * 0 == 2 * (z * nn + 0) && 12 * (z * nn) + 12 * 0 == 12 * (z
                * nn + 0)) by (nonlinear_arith)
            ;
        }
        while x < n
            invariant
                voxels.wf(),
                n == voxels.chunk_size,
                ni == n,
                nn == n,
                0 <= z < n,
                0 <= x <= n,
                positions@.len() == 2 * (z * nn + x),
                indices@.len() == 12 * (z * nn + x),
                forall|k: int|
                    0 <= k < positions@.len() ==> vec3_is(
                        #[trigger] positions@[k],
                        spec_position(*voxels, k),
                    ),
                forall|k: int|
                    0 <= k < positions@.len() ==> in_mesh_bounds(#[trigger] positions@[k]),
                forall|t: int|
                    0 <= t < indices@.len() ==> (#[trigger] indices@[t]) as int == spec_indices(
                        nn,
                    )[t],
            decreases n - x,
        {
            proof {
                assert(0 <= z * nn + x < nn * nn && z * nn + x <= 32_399) by (nonlinear_arith)
                    requires
                        0 <= x < nn,
                        0 <= z < nn,
                        1 <= nn <= 180,
                ;
                lemma_cell_vertex_position(*voxels, x as int, z as int);
            }
            let j: u32 = z * n + x;
            let ci: u16 = (2 * j) as u16;
            let c00 = corner_id(n, x, z);
            let c10 = corner_id(n, x + 1, z);
            let c01 = corner_id(n, x, z + 1);
            let c11 = corner_id(n, x + 1, z + 1);
            let xi = x as i64;
            let zi = z as i64;
            let hc = voxels.get(xi, zi) as i64;
            positions.push(
                Vec3 { x: 4 * xi + 2 - 2 * ni, y: 4 * hc, z: 4 * zi + 2 - 2 * ni },
            );
            let hs = voxels.get(xi - 1, zi - 1) as i64 + voxels.get(xi, zi - 1) as i64
                + voxels.get(xi - 1, zi) as i64 + voxels.get(xi, zi) as i64;
            positions.push(Vec3 { x: 4 * xi - 2 * ni, y: hs, z: 4 * zi - 2 * ni });
            indices.push(ci);
            indices.push(c00);
            indices.push(c01);
            indices.push(ci);
            indices.push(c01);
            indices.push(c11);
            indices.push(ci);
            indices.push(c11);
            indices.push(c10);
            indices.push(ci);
            indices.push(c10);
            indices.push(c00);
            proof {
                let jj = z * nn + x;
                assert forall|t: int| 0 <= t < 12 implies #[trigger] (indices@[12 * jj + t] as int)
                    == spec_indices(nn)[12 * jj + t] by {
                    lemma_indices_entry(nn, x as int, z as int, t);
                }
                assert(2 * (jj + 1) == 2 * jj + 2 && 12 * (jj + 1) == 12 * jj + 12)
                    by (nonlinear_arith)
                ;
                assert(z * nn + (x + 1) == jj + 1);
            }
            x = x + 1;
        }
        z = z + 1;
        proof {
            assert(2 * ((z - 1) * nn + nn) == 2 * (z * nn) && 12 * ((z - 1) * nn + nn) == 12 * (z
                * nn)) by (nonlinear_arith)
            ;
        }
    }
    proof {
        assert(12 * (nn * nn) <= 0x80000 && 2 * (nn * nn) + 2 * nn + 1 < 0x10000)
            by (nonlinear_arith)
            requires
                1 <= nn <= 180,
        ;
    }
    let mut i: u32 = 0;
    while i < n
        invariant
            voxels.wf(),
            n == voxels.chunk_size,
            ni == n,
            nn == n,
            0 <= i <= n,
            positions@.len() == 2 * (nn * nn) + i,
            forall|k: int|
                0 <= k < positions@.len() ==> vec3_is(
                    #[trigger] positions@[k],
                    spec_position(*voxels, k),
                ),
            forall|k: int|
                0 <= k < positions@.len() ==> in_mesh_bounds(#[trigger] positions@[k]),
        decreases n - i,
    {
        let ii = i as i64;
        let hs = voxels.get(ni - 1, ii - 1) as i64 + voxels.get(ni, ii - 1) as i64 + voxels.get(
            ni - 1,
            ii,
        ) as i64 + voxels.get(ni, ii) as i64;
        positions.push(Vec3 { x: 2 * ni, y: hs, z: 4 * ii - 2 * ni });
        i = i + 1;
    }
    let mut i2: u32 = 0;
    while i2 < n
        invariant
            voxels.wf(),
            n == voxels.chunk_size,
            ni == n,
            nn == n,
            0 <= i2 <= n,
            positions@.len() == 2 * (nn * nn) + nn + i2,
            forall|k: int|
                0 <= k < positions@.len() ==> vec3_is(
                    #[trigger] positions@[k],
                    spec_position(*voxels, k),
                ),
            forall|k: int|
                0 <= k < positions@.len() ==> in_mesh_bounds(#[trigger] positions@[k]),
        decreases n - i2,
    {
        let ii = i2 as i64;
        let hs = voxels.get(ii - 1, ni - 1) as i64 + voxels.get(ii, ni - 1) as i64 + voxels.get(
            ii - 1,
            ni,
        ) as i64 + voxels.get(ii, ni) as i64;
        positions.push(Vec3 { x: 4 * ii - 2 * ni, y: hs, z: 2 * ni });
        i2 = i2 + 1;
    }
    let hs_far = voxels.get(ni - 1, ni - 1) as i64 + voxels.get(ni, ni - 1) as i64 + voxels.get(
        ni - 1,
        ni,
    ) as i64 + voxels.get(ni, ni) as i64;
    positions.push(Vec3 { x: 2 * ni, y: hs_far, z: 2 * ni });
    let mut tex_coords: Vec<TexCoord> = Vec::new();
    let mut k: usize = 0;
    while k < positions.len()
        invariant
            ni == nn,
            1 <= ni <= 180,
            0 <= k <= positions@.len(),
            positions@.len() < 0x10000,
            tex_coords@.len() == k,
            forall|t: int|
                0 <= t < positions@.len() ==> in_mesh_bounds(#[trigger] positions@[t]),
            forall|t: int|
                0 <= t < k ==> (#[trigger] tex_coords@[t]).u == positions@[t].x + 2 * nn
                    && tex_coords@[t].v == positions@[t].z + 2 * nn,
        decreases positions@.len() - k,
    {
        let p = positions[k];
        tex_coords.push(TexCoord { u: p.x + 2 * ni, v: p.z + 2 * ni });
        k = k + 1;
    }
    proof {
        lemma_spec_indices_bounds(nn);
        assert(12 * (nn * nn) == 3 * (4 * (nn * nn)) + 0) by (nonlinear_arith)
        ;
        vstd::arithmetic::div_mod::lemma_fundamental_div_mod_converse(
            12 * (nn * nn),
            3,
            4 * (nn * nn),
            0,
        );
    }
    let normals = calculate_normals(&positions, &indices);
    MeshBuffer { positions, normals, tex_coords, indices }
}

/// Builds the flat square ground plate of one biome: two triangles covering
/// `[-size, size]` on both horizontal axes at height zero, with the texture
/// spanning the quad once.
pub fn create_biome_mesh(size: i64) -> (m: MeshBuffer)
    requires
        1 <= size <= MESH_POS_LIMIT,
    ensures
        m.wf(),
        m.positions@ == seq![
            Vec3 { x: size, y: 0i64, z: size },
            Vec3 { x: (-size) as i64, y: 0i64, z: size },
            Vec3 { x: (-size) as i64, y: 0i64, z: (-size) as i64 },
            Vec3 { x: size, y: 0i64, z: (-size) as i64 },
        ],
        m.indices@ == seq![0u16, 2u16, 1u16, 0u16, 3u16, 2u16],
        m.tex_coords@ == seq![
            TexCoord { u: 1i64, v: 0i64 },
            TexCoord { u: 0i64, v: 0i64 },
            TexCoord { u: 0i64, v: 1i64 },
            TexCoord { u: 1i64, v: 1i64 },
        ],
        vec3_seq_is(m.normals@, spec_accum_normals(m.positions@, m.indices@, 2)),
{
    let mut positions: Vec<Vec3> = Vec::new();
    positions.push(Vec3 { x: size, y: 0, z: size });
    positions.push(Vec3 { x: -size, y: 0, z: size });
    positions.push(Vec3 { x: -size, y: 0, z: -size });
    positions.push(Vec3 { x: size, y: 0, z: -size });
    let mut indices: Vec<u16> = Vec::new();
    indices.push(0);
    indices.push(2);
    indices.push(1);
    indices.push(0);
    indices.push(3);
    indices.push(2);
    let mut tex_coords: Vec<TexCoord> = Vec::new();
    tex_coords.push(TexCoord { u: 1, v: 0 });
    tex_coords.push(TexCoord { u: 0, v: 0 });
    tex_coords.push(TexCoord { u: 0, v: 1 });
    tex_coords.push(TexCoord { u: 1, v: 1 });
    proof {
        assert(positions@ =~= seq![
            Vec3 { x: size, y: 0i64, z: size },
            Vec3 { x: (-size) as i64, y: 0i64, z: size },
            Vec3 { x: (-size) as i64, y: 0i64, z: (-size) as i64 },
            Vec3 { x: size, y: 0i64, z: (-size) as i64 },
        ]);
        assert(indices@ =~= seq![0u16, 2u16, 1u16, 0u16, 3u16, 2u16]);
        assert(tex_coords@ =~= seq![
            TexCoord { u: 1i64, v: 0i64 },
            TexCoord { u: 0i64, v: 0i64 },
            TexCoord { u: 0i64, v: 1i64 },
            TexCoord { u: 1i64, v: 1i64 },
        ]);
    }
    let normals = calculate_normals(&positions, &indices);
    MeshBuffer { positions, normals, tex_coords, indices }
}

} // verus!
