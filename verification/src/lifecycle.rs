//! Chunk lifecycle: the registry of spawned chunks and the per-tick
//! controller that spawns, generates and meshes terrain around the observer.
//!
//! The registry is insertion-only: a coordinate, once spawned, stays mapped
//! to the same chunk for the rest of the process. Each chunk walks the state
//! machine spawned -> generated -> meshed exactly once; the gating is the
//! explicit state, never a structural query.

use vstd::prelude::*;
use std::collections::HashMap;
use crate::coords::{
    home_chunk, lemma_neighborhood_members, neighborhood, spec_home_axis, spec_neighborhood,
    ChunkCoord, MAX_WORLD_POS,
};
use crate::mesh::{create_voxel_mesh2, is_mesh_of, MeshBuffer};
use crate::noise_field::NoiseField;
use crate::settings::TerrainSettings;
use crate::voxel::{spec_generate, VoxelData, VoxelFieldGenerator, MAX_CHUNK_COORD};

verus! {

broadcast use vstd::std_specs::hash::group_hash_axioms;

/// Lifecycle state of a chunk. Each chunk advances spawned -> generated ->
/// meshed once and never moves backwards.
#[derive(Clone, Copy, Debug, PartialEq, Eq, Structural)]
pub enum ChunkState {
    Spawned,
    Generated,
    Meshed,
}

/// A spawned chunk: its immutable grid coordinate and world origin, its
/// lifecycle state, and — once generated — its owned voxel data.
pub struct Chunk {
    pub coord: ChunkCoord,
    pub origin_x: i64,
    pub origin_z: i64,
    pub state: ChunkState,
    pub voxels: Option<VoxelData>,
}

impl Chunk {
    /// The chunk invariant, relative to the field seed and settings it was
    /// built under: the origin derives from the coordinate, and voxel data
    /// exists exactly from the generated state on and holds the field values
    /// of this coordinate.
    pub open spec fn inv(self, seed: int, s: TerrainSettings) -> bool {
        &&& -MAX_CHUNK_COORD <= self.coord.x <= MAX_CHUNK_COORD
        &&& -MAX_CHUNK_COORD <= self.coord.z <= MAX_CHUNK_COORD
        &&& self.origin_x == self.coord.x * s.spec_chunk_world()
        &&& self.origin_z == self.coord.z * s.spec_chunk_world()
        &&& (self.state is Spawned <==> self.voxels is None)
        &&& match self.voxels {
            Option::Some(v) => {
                &&& v.wf()
                &&& v.chunk_size == s.chunk_size
                &&& v.values() == spec_generate(seed, s, self.coord)
            },
            Option::None => true,
        }
    }

    /// Creates a freshly spawned chunk at a grid coordinate, with its world
    /// origin at the coordinate times the chunk's world side length.
    pub fn new(coord: ChunkCoord, s: &TerrainSettings) -> (c: Chunk)
        requires
            s.wf(),
            -MAX_CHUNK_COORD <= coord.x <= MAX_CHUNK_COORD,
            -MAX_CHUNK_COORD <= coord.z <= MAX_CHUNK_COORD,
        ensures
            c.coord == coord,
            c.state is Spawned,
            c.voxels is None,
            forall|seed: int| c.inv(seed, *s),
    {
        let w = s.chunk_world();
        proof {
            assert(-390_000_000_000_000_000 <= coord.x * w <= 390_000_000_000_000_000
                && -390_000_000_000_000_000 <= coord.z * w <= 390_000_000_000_000_000)
                by (nonlinear_arith)
                requires
                    1 <= w <= 180_000_000,
                    -0x8000_0001 <= coord.x <= 0x8000_0001,
                    -0x8000_0001 <= coord.z <= 0x8000_0001,
            ;
        }
        Chunk {
            coord,
            origin_x: coord.x * w,
            origin_z: coord.z * w,
            state: ChunkState::Spawned,
            voxels: Option::None,
        }
    }
}

/// The registry key of a chunk coordinate: both axes packed into one
/// 128-bit integer.
pub open spec fn coord_key(c: ChunkCoord) -> u128 {
    ((c.x as u64 as u128) << 64) | (c.z as u64 as u128)
}

/// Distinct coordinates pack to distinct keys.
pub proof fn lemma_coord_key_injective(a: ChunkCoord, b: ChunkCoord)
    requires
        coord_key(a) == coord_key(b),
    ensures
        a == b,
{
    let ax = a.x;
    let az = a.z;
    let bx = b.x;
    let bz = b.z;
    assert((((ax as u64 as u128) << 64) | (az as u64 as u128)) == (((bx as u64 as u128) << 64) | (
    bz as u64 as u128)) ==> ax == bx && az == bz) by (bit_vector);
}

/// Maps each spawned coordinate to its chunk, and owns the chunks.
/// Insertion-only: chunks are appended and never removed, and the mapping of
/// a coordinate never changes once made.
pub struct ChunkRegistry {
    pub map: HashMap<u128, usize>,
    pub chunks: Vec<Chunk>,
}

impl ChunkRegistry {
    /// A coordinate is registered when its key is mapped.
    pub open spec fn spec_contains(self, c: ChunkCoord) -> bool {
        self.map@.contains_key(coord_key(c))
    }

    /// The registry invariant: the map and the chunk list index each other
    /// exactly, and every chunk satisfies its own invariant.
    pub open spec fn wf(self, seed: int, s: TerrainSettings) -> bool {
        &&& forall|i: int|
            0 <= i < self.chunks@.len() ==> {
                let c = #[trigger] self.chunks@[i];
                &&& c.inv(seed, s)
                &&& self.map@.contains_key(coord_key(c.coord))
                &&& self.map@[coord_key(c.coord)] == i
            }
        &&& forall|k: u128|
            #[trigger] self.map@.contains_key(k) ==> 0 <= self.map@[k] < self.chunks@.len()
                && coord_key(self.chunks@[self.map@[k] as int].coord) == k
    }

    /// An empty registry.
    pub fn new() -> (r: ChunkRegistry)
        ensures
            r.chunks@.len() == 0,
            forall|c: ChunkCoord| !r.spec_contains(c),
            forall|seed: int, s: TerrainSettings| r.wf(seed, s),
    {
        ChunkRegistry { map: HashMap::new(), chunks: Vec::new() }
    }

    /// The number of registered chunks.
    pub fn len(&self) -> (n: usize)
        ensures
            n == self.chunks@.len(),
    {
        self.chunks.len()
    }

    /// Whether a coordinate has already been spawned.
    pub fn contains(&self, c: ChunkCoord) -> (r: bool)
        ensures
            r == self.spec_contains(c),
    {
        let key: u128 = ((#[verifier::truncate] (c.x as u64)) as u128) << 64 | ((
        #[verifier::truncate] (c.z as u64)) as u128);
        self.map.contains_key(&key)
    }

    /// Registers a chunk under its coordinate. The caller guarantees the
    /// coordinate is new; everything already registered is untouched.
    pub fn insert(&mut self, chunk: Chunk)
        requires
            !old(self).spec_contains(chunk.coord),
        ensures
            final(self).chunks@ == old(self).chunks@.push(chunk),
            final(self).map@ == old(self).map@.insert(
                coord_key(chunk.coord),
                old(self).chunks@.len() as usize,
            ),
            final(self).spec_contains(chunk.coord),
            forall|c: ChunkCoord|
                #[trigger] final(self).spec_contains(c) <==> (old(self).spec_contains(c) || c
                    == chunk.coord),
    {
        let key: u128 = ((#[verifier::truncate] (chunk.coord.x as u64)) as u128) << 64 | ((
        #[verifier::truncate] (chunk.coord.z as u64)) as u128);
        let idx = self.chunks.len();
        self.chunks.push(chunk);
        self.map.insert(key, idx);
        proof {
            assert forall|c: ChunkCoord| #[trigger]
                self.spec_contains(c) <==> (old(self).spec_contains(c) || c == chunk.coord) by {
                if coord_key(c) == coord_key(chunk.coord) {
                    lemma_coord_key_injective(c, chunk.coord);
                }
            }
        }
    }
}

/// A coordinate is never registered twice: in a well-formed registry,
/// distinct chunks always carry distinct coordinates, so every chunk is
/// spawned, generated and meshed for its coordinate exactly once.
pub proof fn lemma_registry_coords_distinct(
    r: ChunkRegistry,
    seed: int,
    s: TerrainSettings,
    i: int,
    j: int,
)
    requires
        r.wf(seed, s),
        0 <= i < r.chunks@.len(),
        0 <= j < r.chunks@.len(),
        i != j,
    ensures
        r.chunks@[i].coord != r.chunks@[j].coord,
{
    if r.chunks@[i].coord == r.chunks@[j].coord {
        assert(r.map@[coord_key(r.chunks@[i].coord)] == i);
        assert(r.map@[coord_key(r.chunks@[j].coord)] == j);
    }
}

/// Registering a fresh, invariant-respecting chunk preserves the registry
/// invariant.
pub proof fn lemma_insert_preserves_wf(
    pre: ChunkRegistry,
    post: ChunkRegistry,
    chunk: Chunk,
    seed: int,
    s: TerrainSettings,
)
    requires
        pre.wf(seed, s),
        chunk.inv(seed, s),
        !pre.spec_contains(chunk.coord),
        pre.chunks@.len() <= usize::MAX,
        post.chunks@ == pre.chunks@.push(chunk),
        post.map@ == pre.map@.insert(coord_key(chunk.coord), pre.chunks@.len() as usize),
    ensures
        post.wf(seed, s),
{
    let key = coord_key(chunk.coord);
    let len = pre.chunks@.len() as int;
    assert forall|i: int| 0 <= i < post.chunks@.len() implies {
        let c = #[trigger] post.chunks@[i];
        &&& c.inv(seed, s)
        &&& post.map@.contains_key(coord_key(c.coord))
        &&& post.map@[coord_key(c.coord)] == i
    } by {
        if i < len {
            assert(post.chunks@[i] == pre.chunks@[i]);
            assert(pre.chunks@[i].inv(seed, s));
            assert(pre.map@.contains_key(coord_key(pre.chunks@[i].coord)));
            assert(coord_key(pre.chunks@[i].coord) != key);
        } else {
            assert(post.chunks@[i] == chunk);
        }
    }
    assert forall|k: u128| #[trigger] post.map@.contains_key(k) implies 0 <= post.map@[k]
        < post.chunks@.len() && coord_key(post.chunks@[post.map@[k] as int].coord) == k by {
        if k == key {
            assert(post.map@[k] == len);
            assert(post.chunks@[len] == chunk);
        } else {
            assert(pre.map@.contains_key(k));
            assert(0 <= pre.map@[k] < len);
            assert(post.chunks@[pre.map@[k] as int] == pre.chunks@[pre.map@[k] as int]);
        }
    }
}

/// `d` lies in the fixed 3x3 neighbourhood of the home chunk of observer
/// position `(px, pz)`.
pub open spec fn in_neighborhood(d: ChunkCoord, px: int, pz: int, s: TerrainSettings) -> bool {
    &&& -1 <= d.x - spec_home_axis(px, s.spec_chunk_world()) <= 1
    &&& -1 <= d.z - spec_home_axis(pz, s.spec_chunk_world()) <= 1
}

/// What one tick hands to the rendering sink for one newly meshed chunk:
/// the mesh buffer, the world transform to attach it at, a bounding radius
/// (as its square, in world units), and the material to bind.
pub struct ChunkRender {
    pub coord: ChunkCoord,
    pub mesh: MeshBuffer,
    pub origin_x: i64,
    pub origin_z: i64,
    pub bounding_radius_sq: i64,
    pub material: u32,
}

/// `r` is a faithful render of chunk `c`: exactly the mesh of `c`'s voxel
/// data, placed at `c`'s origin, bounded by twice the squared chunk side,
/// carrying the requested material.
pub open spec fn render_matches(r: ChunkRender, c: Chunk, material: u32, s: TerrainSettings) -> bool {
    &&& r.coord == c.coord
    &&& r.origin_x == c.origin_x
    &&& r.origin_z == c.origin_z
    &&& r.material == material
    &&& r.bounding_radius_sq == 2 * (s.spec_chunk_world() * s.spec_chunk_world())
    &&& match c.voxels {
        Option::Some(v) => is_mesh_of(r.mesh, v),
        Option::None => false,
    }
}

/// `r` faithfully renders one of the chunks of `cs`.
pub open spec fn rendered_in(
    r: ChunkRender,
    cs: Seq<Chunk>,
    material: u32,
    s: TerrainSettings,
) -> bool {
    exists|k: int| 0 <= k < cs.len() && render_matches(r, #[trigger] cs[k], material, s)
}

/// `r` faithfully renders one of the generated chunks of `cs`.
pub open spec fn rendered_from(
    r: ChunkRender,
    cs: Seq<Chunk>,
    material: u32,
    s: TerrainSettings,
) -> bool {
    exists|k: int|
        0 <= k < cs.len() && (#[trigger] cs[k]).state is Generated && render_matches(
            r,
            cs[k],
            material,
            s,
        )
}

/// The number of chunks in generated (not yet meshed) state.
pub open spec fn count_generated(cs: Seq<Chunk>) -> int
    decreases cs.len(),
{
    if cs.len() == 0 {
        0
    } else {
        count_generated(cs.drop_last()) + if cs.last().state is Generated {
            1int
        } else {
            0int
        }
    }
}

/// The number of chunks that still await generation or meshing.
pub open spec fn count_pending(cs: Seq<Chunk>) -> int
    decreases cs.len(),
{
    if cs.len() == 0 {
        0
    } else {
        count_pending(cs.drop_last()) + if cs.last().state is Meshed {
            0int
        } else {
            1int
        }
    }
}

/// When `b` marks as generated exactly the chunks `a` leaves unmeshed, the
/// generated count of `b` is the pending count of `a`.
pub proof fn lemma_count_generated_matches_pending(a: Seq<Chunk>, b: Seq<Chunk>)
    requires
        a.len() == b.len(),
        forall|i: int| 0 <= i < a.len() ==> ((#[trigger] b[i]).state is Generated <==> !(a[i].state
            is Meshed)),
    ensures
        count_generated(b) == count_pending(a),
    decreases a.len(),
{
    if a.len() > 0 {
        lemma_count_generated_matches_pending(a.drop_last(), b.drop_last());
    }
}

/// Extending a chunk list with unmeshed chunks raises the pending count by
/// exactly the number of new chunks.
pub proof fn lemma_count_pending_extend(a: Seq<Chunk>, b: Seq<Chunk>)
    requires
        a.len() <= b.len(),
        forall|i: int| 0 <= i < a.len() ==> #[trigger] b[i] == a[i],
        forall|i: int| a.len() <= i < b.len() ==> !((#[trigger] b[i]).state is Meshed),
    ensures
        count_pending(b) == count_pending(a) + b.len() - a.len(),
    decreases b.len(),
{
    if b.len() == a.len() {
        assert(b =~= a);
    } else {
        lemma_count_pending_extend(a, b.drop_last());
    }
}

/// Orchestrates the terrain pipeline each tick: spawns the chunks wanted
/// around the observer, generates their fields, meshes them, and hands the
/// meshes out to be realized by the rendering sink. Owns its registry — no
/// ambient global state.
pub struct ChunkLifecycleController {
    pub settings: TerrainSettings,
    pub generator: VoxelFieldGenerator,
    pub registry: ChunkRegistry,
}

impl ChunkLifecycleController {
    /// The seed every chunk of this controller is generated under.
    pub open spec fn seed(self) -> int {
        self.generator.field.seed as int
    }

    /// The controller invariant: valid settings and a registry whose chunks
    /// all hold data generated under this controller's seed and settings.
    pub open spec fn wf(self) -> bool {
        &&& self.settings.wf()
        &&& self.registry.wf(self.seed(), self.settings)
    }

    /// A controller with validated settings, a seeded field, and an empty
    /// registry.
    pub fn new(settings: TerrainSettings, field: NoiseField) -> (c: ChunkLifecycleController)
        requires
            settings.wf(),
        ensures
            c.wf(),
            c.settings == settings,
            c.generator.field == field,
            c.registry.chunks@.len() == 0,
            forall|d: ChunkCoord| !c.registry.spec_contains(d),
    {
        ChunkLifecycleController {
            settings,
            generator: VoxelFieldGenerator::new(field),
            registry: ChunkRegistry::new(),
        }
    }

    /// Spawns every chunk of the observer's 3x3 neighbourhood that is not
    /// registered yet, in the fixed spawn order, and returns the newly
    /// spawned coordinates. Everything already registered is untouched:
    /// the registry only ever grows, and a registered coordinate keeps its
    /// chunk index forever.
    pub fn spawn_missing(&mut self, px: i64, pz: i64) -> (spawned: Vec<ChunkCoord>)
        requires
            old(self).wf(),
            -MAX_WORLD_POS <= px <= MAX_WORLD_POS,
            -MAX_WORLD_POS <= pz <= MAX_WORLD_POS,
        ensures
            final(self).wf(),
            final(self).settings == old(self).settings,
            final(self).generator == old(self).generator,
            old(self).registry.chunks@.len() <= final(self).registry.chunks@.len(),
            forall|i: int|
                0 <= i < old(self).registry.chunks@.len() ==> #[trigger] final(self).registry.chunks@[i] == old(self).registry.chunks@[i],
            forall|k: u128|
                #[trigger] old(self).registry.map@.contains_key(k) ==> final(self).registry.map@.contains_key(k) && final(self).registry.map@[k] == old(self).registry.map@[k],
            forall|i: int|
                old(self).registry.chunks@.len() <= i < final(self).registry.chunks@.len() ==> {
                    let c = #[trigger] final(self).registry.chunks@[i];
                    &&& in_neighborhood(c.coord, px as int, pz as int, old(self).settings)
                    &&& !old(self).registry.spec_contains(c.coord)
                    &&& c.state is Spawned
                },
            forall|d: ChunkCoord|
                #[trigger] in_neighborhood(d, px as int, pz as int, old(self).settings) ==> final(self).registry.spec_contains(d),
            spawned@.len() == final(self).registry.chunks@.len() - old(self).registry.chunks@.len(),
            forall|j: int|
                0 <= j < spawned@.len() ==> #[trigger] spawned@[j] == final(self).registry.chunks@[old(self).registry.chunks@.len() + j].coord,
    {
        let w = self.settings.chunk_world();
        let home = home_chunk(px, pz, w);
        let wanted = neighborhood(home);
        let mut spawned: Vec<ChunkCoord> = Vec::new();
        let mut idx: usize = 0;
        while idx < wanted.len()
            invariant
                self.wf(),
                self.settings == old(self).settings,
                self.generator == old(self).generator,
                w == old(self).settings.spec_chunk_world(),
                home.x == spec_home_axis(px as int, w as int),
                home.z == spec_home_axis(pz as int, w as int),
                -0x8000_0000 <= home.x <= 0x8000_0000,
                -0x8000_0000 <= home.z <= 0x8000_0000,
                wanted@ == spec_neighborhood(home),
                0 <= idx <= wanted@.len(),
                old(self).registry.chunks@.len() <= self.registry.chunks@.len(),
                forall|i: int|
                    0 <= i < old(self).registry.chunks@.len() ==> #[trigger] self.registry.chunks@[i]
                        == old(self).registry.chunks@[i],
                forall|k: u128|
                    #[trigger] old(self).registry.map@.contains_key(k)
                        ==> self.registry.map@.contains_key(k) && self.registry.map@[k] == old(self).registry.map@[k],
                forall|i: int|
                    old(self).registry.chunks@.len() <= i < self.registry.chunks@.len() ==> {
                        let c = #[trigger] self.registry.chunks@[i];
                        &&& in_neighborhood(c.coord, px as int, pz as int, old(self).settings)
                        &&& !old(self).registry.spec_contains(c.coord)
                        &&& c.state is Spawned
                    },
                forall|j: int|
                    0 <= j < idx ==> self.registry.spec_contains(#[trigger] wanted@[j]),
                spawned@.len() == self.registry.chunks@.len() - old(self).registry.chunks@.len(),
                forall|j: int|
                    0 <= j < spawned@.len() ==> #[trigger] spawned@[j]
                        == self.registry.chunks@[old(self).registry.chunks@.len() + j].coord,
            decreases wanted@.len() - idx,
        {
            let c = wanted[idx];
            proof {
                assert(spec_neighborhood(home)[idx as int] == c);
                assert(spec_neighborhood(home).contains(c));
                lemma_neighborhood_members(home, c);
            }
            if !self.registry.contains(c) {
                let ghost before = self.registry;
                let pre_len = self.registry.len();
                let chunk = Chunk::new(c, &self.settings);
                self.registry.insert(chunk);
                spawned.push(c);
                proof {
                    lemma_insert_preserves_wf(
                        before,
                        self.registry,
                        chunk,
                        self.seed(),
                        self.settings,
                    );
                }
            }
            idx = idx + 1;
        }
        proof {
            assert forall|d: ChunkCoord| #[trigger]
                in_neighborhood(d, px as int, pz as int, old(self).settings) implies
                self.registry.spec_contains(d) by {
                lemma_neighborhood_members(home, d);
                let j = choose|j: int|
                    0 <= j < spec_neighborhood(home).len() && spec_neighborhood(home)[j] == d;
                assert(wanted@[j] == d);
                assert(self.registry.spec_contains(wanted@[j]));
            }
        }
        spawned
    }

    /// Generates voxel data for every spawned chunk that has none yet,
    /// advancing it to the generated state. Chunks past that state, and
    /// everything else about the registry, are untouched.
    pub fn generate_pending(&mut self)
        requires
            old(self).wf(),
        ensures
            final(self).wf(),
            final(self).settings == old(self).settings,
            final(self).generator == old(self).generator,
            final(self).registry.map@ == old(self).registry.map@,
            final(self).registry.chunks@.len() == old(self).registry.chunks@.len(),
            forall|i: int|
                0 <= i < old(self).registry.chunks@.len() ==> {
                    let oc = #[trigger] old(self).registry.chunks@[i];
                    let nc = final(self).registry.chunks@[i];
                    &&& nc.coord == oc.coord
                    &&& nc.origin_x == oc.origin_x
                    &&& nc.origin_z == oc.origin_z
                    &&& (oc.state is Spawned ==> nc.state is Generated)
                    &&& (!(oc.state is Spawned) ==> nc == oc)
                },
    {
        let n = self.registry.chunks.len();
        let mut i: usize = 0;
        while i < n
            invariant
                self.wf(),
                self.settings == old(self).settings,
                self.generator == old(self).generator,
                self.registry.map@ == old(self).registry.map@,
                n == self.registry.chunks@.len(),
                n == old(self).registry.chunks@.len(),
                0 <= i <= n,
                forall|j: int|
                    i <= j < n ==> #[trigger] self.registry.chunks@[j] == old(self).registry.chunks@[j],
                forall|j: int|
                    0 <= j < i ==> {
                        let oc = #[trigger] old(self).registry.chunks@[j];
                        let nc = self.registry.chunks@[j];
                        &&& nc.coord == oc.coord
                        &&& nc.origin_x == oc.origin_x
                        &&& nc.origin_z == oc.origin_z
                        &&& (oc.state is Spawned ==> nc.state is Generated)
                        &&& (!(oc.state is Spawned) ==> nc == oc)
                    },
            decreases n - i,
        {
            let ghost before = self.registry;
            let is_spawned = match self.registry.chunks[i].state {
                ChunkState::Spawned => true,
                ChunkState::Generated => false,
                ChunkState::Meshed => false,
            };
            if is_spawned {
                let coord = self.registry.chunks[i].coord;
                let origin_x = self.registry.chunks[i].origin_x;
                let origin_z = self.registry.chunks[i].origin_z;
                let vd = self.generator.generate(coord, &self.settings);
                self.registry.chunks[i] = Chunk {
                    coord,
                    origin_x,
                    origin_z,
                    state: ChunkState::Generated,
                    voxels: Option::Some(vd),
                };
                proof {
                    assert(self.registry.chunks@ == before.chunks@.update(
                        i as int,
                        self.registry.chunks@[i as int],
                    ));
                    assert(self.registry.chunks@[i as int].inv(self.seed(), self.settings));
                    assert forall|j: int| 0 <= j < self.registry.chunks@.len() implies {
                        let c = #[trigger] self.registry.chunks@[j];
                        &&& c.inv(self.seed(), self.settings)
                        &&& self.registry.map@.contains_key(coord_key(c.coord))
                        &&& self.registry.map@[coord_key(c.coord)] == j
                    } by {
                        if j != i as int {
                            assert(self.registry.chunks@[j] == before.chunks@[j]);
                        }
                    }
                    assert forall|k: u128| #[trigger]
                        self.registry.map@.contains_key(k) implies 0 <= self.registry.map@[k]
                        < self.registry.chunks@.len() && coord_key(
                        self.registry.chunks@[self.registry.map@[k] as int].coord,
                    ) == k by {
                        assert(before.map@.contains_key(k));
                        if self.registry.map@[k] != i {
                            assert(self.registry.chunks@[before.map@[k] as int]
                                == before.chunks@[before.map@[k] as int]);
                        }
                    }
                }
            }
            i = i + 1;
        }
    }

    /// Builds and hands out the mesh of every generated chunk, advancing it
    /// to the meshed state, with the given material attached. Every chunk is
    /// meshed at most once by construction: only the generated state
    /// triggers meshing, and it is left immediately.
    pub fn mesh_pending(&mut self, material: u32) -> (out: Vec<ChunkRender>)
        requires
            old(self).wf(),
        ensures
            final(self).wf(),
            final(self).settings == old(self).settings,
            final(self).generator == old(self).generator,
            final(self).registry.map@ == old(self).registry.map@,
            final(self).registry.chunks@.len() == old(self).registry.chunks@.len(),
            forall|i: int|
                0 <= i < old(self).registry.chunks@.len() ==> {
                    let oc = #[trigger] old(self).registry.chunks@[i];
                    let nc = final(self).registry.chunks@[i];
                    &&& nc.coord == oc.coord
                    &&& nc.origin_x == oc.origin_x
                    &&& nc.origin_z == oc.origin_z
                    &&& nc.voxels == oc.voxels
                    &&& (oc.state is Generated ==> nc.state is Meshed)
                    &&& (!(oc.state is Generated) ==> nc == oc)
                },
            out@.len() == count_generated(old(self).registry.chunks@),
            forall|j: int|
                0 <= j < out@.len() ==> rendered_from(
                    #[trigger] out@[j],
                    old(self).registry.chunks@,
                    material,
                    old(self).settings,
                ),
            forall|i: int|
                0 <= i < old(self).registry.chunks@.len() && (#[trigger] old(self).registry.chunks@[i]).state is Generated ==> exists|j: int|
                    0 <= j < out@.len() && (#[trigger] out@[j]).coord == old(self).registry.chunks@[i].coord,
    {
        let w = self.settings.chunk_world();
        proof {
            assert(0 <= w * w <= 32_400_000_000_000_000) by (nonlinear_arith)
                requires
                    1 <= w <= 180_000_000,
            ;
        }
        let rsq: i64 = 2 * (w * w);
        let n = self.registry.chunks.len();
        let mut out: Vec<ChunkRender> = Vec::new();
        let mut i: usize = 0;
        while i < n
            invariant
                self.wf(),
                self.settings == old(self).settings,
                self.generator == old(self).generator,
                self.registry.map@ == old(self).registry.map@,
                n == self.registry.chunks@.len(),
                n == old(self).registry.chunks@.len(),
                0 <= i <= n,
                rsq == 2 * (old(self).settings.spec_chunk_world()
                    * old(self).settings.spec_chunk_world()),
                forall|j: int|
                    i <= j < n ==> #[trigger] self.registry.chunks@[j] == old(self).registry.chunks@[j],
                forall|j: int|
                    0 <= j < i ==> {
                        let oc = #[trigger] old(self).registry.chunks@[j];
                        let nc = self.registry.chunks@[j];
                        &&& nc.coord == oc.coord
                        &&& nc.origin_x == oc.origin_x
                        &&& nc.origin_z == oc.origin_z
                        &&& nc.voxels == oc.voxels
                        &&& (oc.state is Generated ==> nc.state is Meshed)
                        &&& (!(oc.state is Generated) ==> nc == oc)
                    },
                out@.len() == count_generated(old(self).registry.chunks@.take(i as int)),
                forall|j: int|
                    0 <= j < out@.len() ==> rendered_from(
                        #[trigger] out@[j],
                        old(self).registry.chunks@,
                        material,
                        old(self).settings,
                    ),
                forall|k: int|
                    0 <= k < i && (#[trigger] old(self).registry.chunks@[k]).state is Generated
                        ==> exists|j: int|
                        0 <= j < out@.len() && (#[trigger] out@[j]).coord == old(self).registry.chunks@[k].coord,
            decreases n - i,
        {
            let ghost pre = old(self).registry.chunks@;
            let ghost before = self.registry;
            let is_generated = match self.registry.chunks[i].state {
                ChunkState::Spawned => false,
                ChunkState::Generated => true,
                ChunkState::Meshed => false,
            };
            if is_generated {
                let coord = self.registry.chunks[i].coord;
                let origin_x = self.registry.chunks[i].origin_x;
                let origin_z = self.registry.chunks[i].origin_z;
                let mesh = match &self.registry.chunks[i].voxels {
                    Option::Some(v) => create_voxel_mesh2(v),
                    Option::None => vstd::pervasive::unreached(),
                };
                let elem = &mut self.registry.chunks[i];
                elem.state = ChunkState::Meshed;
                let ghost out_before = out@;
                let r = ChunkRender {
                    coord,
                    mesh,
                    origin_x,
                    origin_z,
                    bounding_radius_sq: rsq,
                    material,
                };
                out.push(r);
                proof {
                    assert(self.registry.chunks@ == before.chunks@.update(
                        i as int,
                        self.registry.chunks@[i as int],
                    ));
                    assert(self.registry.chunks@[i as int].inv(self.seed(), self.settings));
                    assert forall|j: int| 0 <= j < self.registry.chunks@.len() implies {
                        let c = #[trigger] self.registry.chunks@[j];
                        &&& c.inv(self.seed(), self.settings)
                        &&& self.registry.map@.contains_key(coord_key(c.coord))
                        &&& self.registry.map@[coord_key(c.coord)] == j
                    } by {
                        if j != i as int {
                            assert(self.registry.chunks@[j] == before.chunks@[j]);
                        }
                    }
                    assert forall|k: u128| #[trigger]
                        self.registry.map@.contains_key(k) implies 0 <= self.registry.map@[k]
                        < self.registry.chunks@.len() && coord_key(
                        self.registry.chunks@[self.registry.map@[k] as int].coord,
                    ) == k by {
                        assert(before.map@.contains_key(k));
                        if self.registry.map@[k] != i {
                            assert(self.registry.chunks@[before.map@[k] as int]
                                == before.chunks@[before.map@[k] as int]);
                        }
                    }
                    assert(0 <= i && (i as int) < pre.len() && pre[i as int].state is Generated
                        && render_matches(r, pre[i as int], material, old(self).settings));
                    assert(rendered_from(r, pre, material, old(self).settings));
                    assert forall|j: int| 0 <= j < out@.len() implies rendered_from(
                        #[trigger] out@[j],
                        pre,
                        material,
                        old(self).settings,
                    ) by {
                        if j < out_before.len() {
                            assert(out@[j] == out_before[j]);
                        } else {
                            assert(out@[j] == r);
                        }
                    }
                    assert forall|k: int|
                        0 <= k < i + 1 && (#[trigger] pre[k]).state is Generated implies exists|
                            j: int,
                        |
                            0 <= j < out@.len() && (#[trigger] out@[j]).coord == pre[k].coord by {
                        if k == i as int {
                            assert(out@[out@.len() - 1] == r);
                            assert(r.coord == pre[i as int].coord);
                        } else {
                            let j0 = choose|j: int|
                                0 <= j < out_before.len() && (#[trigger] out_before[j]).coord
                                    == pre[k].coord;
                            assert(out@[j0] == out_before[j0]);
                        }
                    }
                }
            }
            i = i + 1;
            proof {
                assert(pre.take(i as int).drop_last() =~= pre.take(i as int - 1));
                assert(pre.take(i as int).last() == pre[i as int - 1]);
            }
        }
        proof {
            assert(old(self).registry.chunks@.take(n as int) =~= old(self).registry.chunks@);
        }
        out
    }

    /// One simulation tick: reads the observer position, spawns the missing
    /// chunks of its 3x3 neighbourhood, generates and meshes everything
    /// pending, and returns the new meshes for the rendering sink. A missing
    /// observer is not an error: the tick is a no-op.
    ///
    /// The registry only grows, and every chunk keeps its coordinate, its
    /// index and its mapping forever; each chunk is generated and meshed
    /// exactly once, counted by the returned renders.
    pub fn tick(&mut self, observer: Option<(i64, i64)>, material: u32) -> (out: Vec<ChunkRender>)
        requires
            old(self).wf(),
            observer matches Option::Some(p) ==> -MAX_WORLD_POS <= p.0 <= MAX_WORLD_POS
                && -MAX_WORLD_POS <= p.1 <= MAX_WORLD_POS,
        ensures
            final(self).wf(),
            final(self).settings == old(self).settings,
            final(self).generator == old(self).generator,
            observer is None ==> *final(self) == *old(self) && out@.len() == 0,
            old(self).registry.chunks@.len() <= final(self).registry.chunks@.len(),
            forall|i: int|
                0 <= i < old(self).registry.chunks@.len() ==> {
                    let oc = #[trigger] old(self).registry.chunks@[i];
                    let nc = final(self).registry.chunks@[i];
                    &&& nc.coord == oc.coord
                    &&& nc.origin_x == oc.origin_x
                    &&& nc.origin_z == oc.origin_z
                },
            forall|k: u128|
                #[trigger] old(self).registry.map@.contains_key(k) ==> final(self).registry.map@.contains_key(k) && final(self).registry.map@[k] == old(self).registry.map@[k],
            observer matches Option::Some(p) ==> {
                &&& forall|d: ChunkCoord|
                    #[trigger] in_neighborhood(d, p.0 as int, p.1 as int, old(self).settings)
                        ==> final(self).registry.spec_contains(d)
                &&& forall|i: int|
                    old(self).registry.chunks@.len() <= i < final(self).registry.chunks@.len()
                        ==> in_neighborhood(
                        (#[trigger] final(self).registry.chunks@[i]).coord,
                        p.0 as int,
                        p.1 as int,
                        old(self).settings,
                    ) && !old(self).registry.spec_contains(final(self).registry.chunks@[i].coord)
                &&& forall|i: int|
                    0 <= i < final(self).registry.chunks@.len() ==> (#[trigger] final(self).registry.chunks@[i]).state is Meshed
                &&& out@.len() == count_pending(old(self).registry.chunks@) + final(self).registry.chunks@.len() - old(self).registry.chunks@.len()
                &&& forall|j: int|
                    0 <= j < out@.len() ==> rendered_in(
                        #[trigger] out@[j],
                        final(self).registry.chunks@,
                        material,
                        old(self).settings,
                    )
            },
    {
        match observer {
            Option::None => Vec::new(),
            Option::Some((px, pz)) => {
                let ghost s0 = self.registry.chunks@;
                let _spawned = self.spawn_missing(px, pz);
                let ghost s1 = self.registry.chunks@;
                proof {
                    lemma_count_pending_extend(s0, s1);
                }
                self.generate_pending();
                let ghost s2 = self.registry.chunks@;
                proof {
                    assert forall|i: int| 0 <= i < s1.len() implies ((#[trigger] s2[i]).state
                        is Generated <==> !(s1[i].state is Meshed)) by {
                        if s1[i].state is Spawned {
                            assert(s2[i].state is Generated);
                        } else {
                            assert(s2[i] == s1[i]);
                        }
                    }
                    lemma_count_generated_matches_pending(s1, s2);
                }
                let out = self.mesh_pending(material);
                proof {
                    assert forall|i: int|
                        0 <= i < self.registry.chunks@.len() implies (#[trigger]
                    self.registry.chunks@[i]).state is Meshed by {
                        if s2[i].state is Generated {
                            assert(self.registry.chunks@[i].state is Meshed);
                        } else {
                            assert(self.registry.chunks@[i] == s2[i]);
                            assert(!(s2[i].state is Generated));
                            assert(s2[i].state is Generated <==> !(s1[i].state is Meshed));
                        }
                    }
                    assert forall|j: int| 0 <= j < out@.len() implies rendered_in(
                        #[trigger] out@[j],
                        self.registry.chunks@,
                        material,
                        old(self).settings,
                    ) by {
                        assert(rendered_from(out@[j], s2, material, old(self).settings));
                        let k = choose|k: int|
                            0 <= k < s2.len() && (#[trigger] s2[k]).state is Generated
                                && render_matches(out@[j], s2[k], material, old(self).settings);
                        assert(render_matches(
                            out@[j],
                            self.registry.chunks@[k],
                            material,
                            old(self).settings,
                        ));
                    }
                }
                out
            },
        }
    }
}

} // verus!
