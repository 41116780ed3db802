//! Per-chunk voxel data and its generator.
//!
//! A chunk's field is sampled on the local lattice `[-1, chunk_size + 1]` on
//! both axes — one column per voxel corner plus a one-cell skirt into each of
//! the eight neighbours. Skirt values are computed independently from the
//! same deterministic field, never copied from a neighbour, so two adjacent
//! chunks generated at different times agree exactly on their shared border.

use vstd::prelude::*;
use crate::coords::ChunkCoord;
use crate::noise_field::{spec_sample, NoiseField, HEIGHT_AMPLITUDE, MAX_SAMPLE_COORD};
use crate::settings::TerrainSettings;

verus! {

/// Largest column-height magnitude voxel data accepts, in voxel layers.
/// Keeps every mesh coordinate built from heights well inside `i64`.
pub const HEIGHT_LIMIT: i32 = 4096;

/// Largest chunk coordinate magnitude the generator accepts: every home
/// chunk of an accepted observer position, plus its neighbourhood, fits.
pub const MAX_CHUNK_COORD: i64 = 0x8000_0001;

/// One field sample: the quantized height of a voxel column, in layers.
#[derive(Clone, Copy, Debug, PartialEq, Eq, Structural)]
pub struct Voxel {
    pub value: i32,
}

/// A chunk's owned grid of per-column samples over the skirted local
/// lattice, row-major with the skirt row and column first.
#[derive(Clone, Debug)]
pub struct VoxelData {
    pub chunk_size: u32,
    pub voxels: Vec<Voxel>,
}

/// Columns per lattice side: the chunk's own `n + 1` corner columns plus a
/// one-column skirt on each side.
pub open spec fn lattice_side(n: int) -> int {
    n + 3
}

/// Row-major position of local lattice coordinate `(lx, lz)`, each axis
/// running over `[-1, n + 1]`.
pub open spec fn lattice_index(n: int, lx: int, lz: int) -> int {
    (lz + 1) * lattice_side(n) + (lx + 1)
}

impl VoxelData {
    /// Well-formed data covers the whole skirted lattice of its chunk size
    /// and keeps every height within `HEIGHT_LIMIT` layers.
    pub open spec fn wf(self) -> bool {
        &&& 1 <= self.chunk_size <= crate::settings::MAX_CHUNK_SIZE
        &&& self.voxels@.len() == lattice_side(self.chunk_size as int) * lattice_side(
            self.chunk_size as int,
        )
        &&& forall|i: int|
            0 <= i < self.voxels@.len() ==> -HEIGHT_LIMIT <= (#[trigger] self.voxels@[i]).value
                <= HEIGHT_LIMIT
    }

    /// The stored heights as a sequence of integers.
    pub open spec fn values(self) -> Seq<int> {
        Seq::new(self.voxels@.len(), |i: int| self.voxels@[i].value as int)
    }

    /// The height at local lattice coordinate `(lx, lz)`.
    pub open spec fn spec_at(self, lx: int, lz: int) -> int {
        self.values()[lattice_index(self.chunk_size as int, lx, lz)]
    }

    /// Reads the height at local lattice coordinate `(lx, lz)`; the skirt
    /// columns are at `-1` and `chunk_size + 1`.
    pub fn get(&self, lx: i64, lz: i64) -> (h: i32)
        requires
            self.wf(),
            -1 <= lx <= self.chunk_size + 1,
            -1 <= lz <= self.chunk_size + 1,
        ensures
            h == self.spec_at(lx as int, lz as int),
            -HEIGHT_LIMIT <= h <= HEIGHT_LIMIT,
    {
        proof {
            lemma_lattice_index_bounds(self.chunk_size as int, lx as int, lz as int);
            assert(0 <= (lz + 1) * (self.chunk_size + 3) <= 182 * 183) by (nonlinear_arith)
                requires
                    -1 <= lz,
                    lz <= self.chunk_size + 1,
                    1 <= self.chunk_size <= 180,
            ;
        }
        let side = (self.chunk_size + 3) as i64;
        let k = (lz + 1) * side + (lx + 1);
        self.voxels[k as usize].value
    }
}

/// A reason externally sampled heights were rejected.
#[derive(Clone, Copy, Debug, PartialEq, Eq, Structural)]
pub enum VoxelDataError {
    /// The height list does not cover the skirted lattice exactly.
    WrongLength,
    /// A height exceeds `HEIGHT_LIMIT` layers in magnitude.
    HeightOutOfRange,
}

impl VoxelData {
    /// Builds voxel data from already-quantized column heights, row-major
    /// over the skirted lattice. This is the door for field samplers that
    /// live outside the library; the caller owes the same determinism the
    /// built-in field provides, or seams may crack.
    pub fn from_heights(s: &TerrainSettings, heights: &Vec<i32>) -> (r: Result<
        VoxelData,
        VoxelDataError,
    >)
        requires
            s.wf(),
        ensures
            match r {
                Ok(v) => {
                    &&& v.wf()
                    &&& v.chunk_size == s.chunk_size
                    &&& v.values() == Seq::new(heights@.len(), |i: int| heights@[i] as int)
                },
                Err(e) => {
                    &&& (e == VoxelDataError::WrongLength <==> heights@.len() != lattice_side(
                        s.chunk_size as int,
                    ) * lattice_side(s.chunk_size as int))
                    &&& (e == VoxelDataError::HeightOutOfRange <==> (heights@.len()
                        == lattice_side(s.chunk_size as int) * lattice_side(s.chunk_size as int)
                        && exists|i: int|
                        0 <= i < heights@.len() && !(-HEIGHT_LIMIT <= #[trigger] heights@[i]
                            <= HEIGHT_LIMIT)))
                },
            },
    {
        let side = (s.chunk_size + 3) as usize;
        proof {
            assert(lattice_side(s.chunk_size as int) * lattice_side(s.chunk_size as int) <= 183
                * 183) by (nonlinear_arith)
                requires
                    1 <= s.chunk_size <= 180,
            ;
        }
        if heights.len() != side * side {
            return Err(VoxelDataError::WrongLength);
        }
        let mut voxels: Vec<Voxel> = Vec::new();
        let mut i: usize = 0;
        while i < heights.len()
            invariant
                heights@.len() == lattice_side(s.chunk_size as int) * lattice_side(
                    s.chunk_size as int,
                ),
                0 <= i <= heights@.len(),
                voxels@.len() == i,
                forall|k: int| 0 <= k < i ==> (#[trigger] voxels@[k]).value == heights@[k],
                forall|k: int|
                    0 <= k < i ==> -HEIGHT_LIMIT <= (#[trigger] voxels@[k]).value <= HEIGHT_LIMIT,
            decreases heights@.len() - i,
        {
            let h = heights[i];
            if h < -HEIGHT_LIMIT || h > HEIGHT_LIMIT {
                return Err(VoxelDataError::HeightOutOfRange);
            }
            voxels.push(Voxel { value: h });
            i = i + 1;
        }
        let v = VoxelData { chunk_size: s.chunk_size, voxels };
        proof {
            assert(v.values() =~= Seq::new(heights@.len(), |i: int| heights@[i] as int));
        }
        Ok(v)
    }
}

/// A lattice index lands inside the row-major grid, and row/column can be
/// recovered from it.
pub proof fn lemma_lattice_index_bounds(n: int, lx: int, lz: int)
    requires
        n >= 1,
        -1 <= lx <= n + 1,
        -1 <= lz <= n + 1,
    ensures
        0 <= lattice_index(n, lx, lz) < lattice_side(n) * lattice_side(n),
        lattice_index(n, lx, lz) % lattice_side(n) == lx + 1,
        lattice_index(n, lx, lz) / lattice_side(n) == lz + 1,
{
    let side = lattice_side(n);
    let k = lattice_index(n, lx, lz);
    assert(0 <= k < side * side) by (nonlinear_arith)
        requires
            side == n + 3,
            k == (lz + 1) * side + (lx + 1),
            n >= 1,
            -1 <= lx <= n + 1,
            -1 <= lz <= n + 1,
    ;
    assert(k == (lz + 1) * side + (lx + 1));
    vstd::arithmetic::div_mod::lemma_fundamental_div_mod_converse(k, side, lz + 1, lx + 1);
}

/// The world coordinate sampled for local lattice offset `l` of a chunk at
/// axis coordinate `c`: the chunk origin plus the local offset, shifted by
/// half a chunk so that the chunk is centred on its origin.
pub open spec fn spec_world_coord(c: int, l: int, s: TerrainSettings) -> int {
    c * s.spec_chunk_world() + l * s.voxel_size - s.spec_chunk_world() / 2
}

/// World coordinates of accepted chunks stay within the sampler's domain.
pub proof fn lemma_world_coord_bound(c: int, l: int, s: TerrainSettings)
    requires
        s.wf(),
        -MAX_CHUNK_COORD <= c <= MAX_CHUNK_COORD,
        -1 <= l <= s.chunk_size + 1,
    ensures
        -MAX_SAMPLE_COORD <= spec_world_coord(c, l, s) <= MAX_SAMPLE_COORD,
        1 <= s.spec_chunk_world() <= 180_000_000,
        -390_000_000_000_000_000 <= c * s.spec_chunk_world() <= 390_000_000_000_000_000,
        -2_000_000 <= l * s.voxel_size <= 183_000_000,
        0 <= s.spec_chunk_world() / 2 <= 180_000_000,
{
    let w = s.spec_chunk_world();
    assert(1 <= w <= 180_000_000) by (nonlinear_arith)
        requires
            w == s.chunk_size * s.voxel_size,
            1 <= s.chunk_size <= 180,
            1 <= s.voxel_size <= 1_000_000,
    ;
    assert(-390_000_000_000_000_000 <= c * w <= 390_000_000_000_000_000) by (nonlinear_arith)
        requires
            1 <= w <= 180_000_000,
            -0x8000_0001 <= c <= 0x8000_0001,
    ;
    assert(-2_000_000 <= l * s.voxel_size <= 183_000_000) by (nonlinear_arith)
        requires
            1 <= s.voxel_size <= 1_000_000,
            -1 <= l <= s.chunk_size + 1,
            s.chunk_size <= 180,
    ;
    vstd::arithmetic::div_mod::lemma_div_pos_is_pos(w, 2);
    crate::coords::lemma_div_magnitude_bound(w, 2, 180_000_000 as int);
    assert(-MAX_SAMPLE_COORD <= c * w + l * s.voxel_size - w / 2 <= MAX_SAMPLE_COORD);
}

/// The heights of a whole chunk, row-major over the skirted lattice: sample
/// `k` is the field value at the world coordinates of lattice point
/// `(k % side - 1, k / side - 1)`. A pure function of seed, settings and
/// chunk coordinate.
pub open spec fn spec_generate(seed: int, s: TerrainSettings, c: ChunkCoord) -> Seq<int> {
    let side = lattice_side(s.chunk_size as int);
    Seq::new(
        (side * side) as nat,
        |k: int|
            spec_sample(
                seed,
                spec_world_coord(c.x as int, k % side - 1, s),
                spec_world_coord(c.z as int, k / side - 1, s),
            ),
    )
}

/// Fills a chunk's voxel grid by sampling the noise field across the skirted
/// local lattice.
pub struct VoxelFieldGenerator {
    pub field: NoiseField,
}

impl VoxelFieldGenerator {
    /// A generator reading from the given field.
    pub fn new(field: NoiseField) -> (g: VoxelFieldGenerator)
        ensures
            g.field == field,
    {
        VoxelFieldGenerator { field }
    }

    /// The world coordinate of local lattice offset `l` along one axis of
    /// chunk axis coordinate `c`.
    fn world_coord(&self, c: i64, l: i64, s: &TerrainSettings) -> (w: i64)
        requires
            s.wf(),
            -MAX_CHUNK_COORD <= c <= MAX_CHUNK_COORD,
            -1 <= l <= s.chunk_size + 1,
        ensures
            w == spec_world_coord(c as int, l as int, *s),
            -MAX_SAMPLE_COORD <= w <= MAX_SAMPLE_COORD,
    {
        proof {
            lemma_world_coord_bound(c as int, l as int, *s);
        }
        let world = s.chunk_world();
        c * world + l * (s.voxel_size as i64) - world / 2
    }

    /// Generates the voxel data of one chunk. The result is a pure function
    /// of the field's seed, the settings and the chunk coordinate, so any
    /// two calls — in the same run or different runs — agree exactly.
    #[verifier::rlimit(100)]
    pub fn generate(&self, c: ChunkCoord, s: &TerrainSettings) -> (v: VoxelData)
        requires
            s.wf(),
            -MAX_CHUNK_COORD <= c.x <= MAX_CHUNK_COORD,
            -MAX_CHUNK_COORD <= c.z <= MAX_CHUNK_COORD,
        ensures
            v.wf(),
            v.chunk_size == s.chunk_size,
            v.values() == spec_generate(self.field.seed as int, *s, c),
            forall|i: int| 0 <= i < v.values().len() ==> 0 <= #[trigger] v.values()[i]
                <= HEIGHT_AMPLITUDE,
    {
        let side = (s.chunk_size + 3) as i64;
        let ghost target = spec_generate(self.field.seed as int, *s, c);
        let mut voxels: Vec<Voxel> = Vec::new();
        let mut lz: i64 = 0;
        while lz < side
            invariant
                s.wf(),
                side == lattice_side(s.chunk_size as int),
                0 <= lz <= side,
                -MAX_CHUNK_COORD <= c.x <= MAX_CHUNK_COORD,
                -MAX_CHUNK_COORD <= c.z <= MAX_CHUNK_COORD,
                voxels@.len() == lz * side,
                target == spec_generate(self.field.seed as int, *s, c),
                forall|k: int|
                    0 <= k < voxels@.len() ==> (#[trigger] voxels@[k]).value == target[k],
                forall|k: int|
                    0 <= k < voxels@.len() ==> 0 <= (#[trigger] voxels@[k]).value
                        <= HEIGHT_AMPLITUDE,
            decreases side - lz,
        {
            let mut lx: i64 = 0;
            while lx < side
                invariant
                    s.wf(),
                    side == lattice_side(s.chunk_size as int),
                    0 <= lz < side,
                    0 <= lx <= side,
                    -MAX_CHUNK_COORD <= c.x <= MAX_CHUNK_COORD,
                    -MAX_CHUNK_COORD <= c.z <= MAX_CHUNK_COORD,
                    voxels@.len() == lz * side + lx,
                    target == spec_generate(self.field.seed as int, *s, c),
                    forall|k: int|
                        0 <= k < voxels@.len() ==> (#[trigger] voxels@[k]).value == target[k],
                    forall|k: int|
                        0 <= k < voxels@.len() ==> 0 <= (#[trigger] voxels@[k]).value
                            <= HEIGHT_AMPLITUDE,
                decreases side - lx,
            {
                let wx = self.world_coord(c.x, lx - 1, s);
                let wz = self.world_coord(c.z, lz - 1, s);
                let h = self.field.sample(wx, wz);
                proof {
                    let k = lz * side + lx;
                    assert(0 <= k < side * side) by (nonlinear_arith)
                        requires
                            side >= 4,
                            0 <= lz < side,
                            0 <= lx < side,
                            k == lz * side + lx,
                    ;
                    vstd::arithmetic::div_mod::lemma_fundamental_div_mod_converse(
                        k,
                        side as int,
                        lz as int,
                        lx as int,
                    );
                    assert(target[k] == h);
                }
                voxels.push(Voxel { value: h });
                lx = lx + 1;
            }
            lz = lz + 1;
            proof {
                assert((lz - 1) * side + side == lz * side) by (nonlinear_arith)
                    requires
                        true,
                ;
            }
        }
        let v = VoxelData { chunk_size: s.chunk_size, voxels };
        proof {
            assert(side * side == lattice_side(s.chunk_size as int) * lattice_side(
                s.chunk_size as int,
            ));
            assert(v.values() =~= target);
        }
        v
    }
}

/// Determinism: two generations of the same chunk with the same seed and
/// settings — for example in two separate process runs — yield identical
/// voxel data.
pub proof fn lemma_generate_deterministic(
    a: Seq<int>,
    b: Seq<int>,
    seed: int,
    s: TerrainSettings,
    c: ChunkCoord,
)
    requires
        a == spec_generate(seed, s, c),
        b == spec_generate(seed, s, c),
    ensures
        a == b,
{
}

/// Seam consistency: where the skirted lattices of two neighbouring chunks
/// overlap, they sample the field at the same world coordinates, so the
/// generated values on both sides of a shared border are equal — meshes
/// stitched from them cannot crack.
pub proof fn lemma_seam_consistency(
    seed: int,
    s: TerrainSettings,
    c1: ChunkCoord,
    c2: ChunkCoord,
    lx: int,
    lz: int,
)
    requires
        s.wf(),
        -1 <= c2.x - c1.x <= 1,
        -1 <= c2.z - c1.z <= 1,
        -1 <= lx <= s.chunk_size + 1,
        -1 <= lz <= s.chunk_size + 1,
        -1 <= lx - (c2.x - c1.x) * s.chunk_size <= s.chunk_size + 1,
        -1 <= lz - (c2.z - c1.z) * s.chunk_size <= s.chunk_size + 1,
    ensures
        spec_generate(seed, s, c1)[lattice_index(s.chunk_size as int, lx, lz)] == spec_generate(
            seed,
            s,
            c2,
        )[lattice_index(
            s.chunk_size as int,
            lx - (c2.x - c1.x) * s.chunk_size,
            lz - (c2.z - c1.z) * s.chunk_size,
        )],
{
    let n = s.chunk_size as int;
    let side = lattice_side(n);
    let dx = c2.x - c1.x;
    let dz = c2.z - c1.z;
    let lx2 = lx - dx * n;
    let lz2 = lz - dz * n;
    lemma_lattice_index_bounds(n, lx, lz);
    lemma_lattice_index_bounds(n, lx2, lz2);
    let k1 = lattice_index(n, lx, lz);
    let k2 = lattice_index(n, lx2, lz2);
    assert(spec_generate(seed, s, c1)[k1] == spec_sample(
        seed,
        spec_world_coord(c1.x as int, lx, s),
        spec_world_coord(c1.z as int, lz, s),
    ));
    assert(spec_generate(seed, s, c2)[k2] == spec_sample(
        seed,
        spec_world_coord(c2.x as int, lx2, s),
        spec_world_coord(c2.z as int, lz2, s),
    ));
    let w = s.spec_chunk_world();
    let vs = s.voxel_size as int;
    assert((c1.x + dx) * w + (lx - dx * n) * vs == c1.x * w + lx * vs) by (nonlinear_arith)
        requires
            w == n * vs,
    ;
    assert((c1.z + dz) * w + (lz - dz * n) * vs == c1.z * w + lz * vs) by (nonlinear_arith)
        requires
            w == n * vs,
    ;
    assert(spec_world_coord(c2.x as int, lx2, s) == spec_world_coord(c1.x as int, lx, s));
    assert(spec_world_coord(c2.z as int, lz2, s) == spec_world_coord(c1.z as int, lz, s));
}

} // verus!
