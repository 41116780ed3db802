//! Process-wide terrain configuration, validated once at startup.

use vstd::prelude::*;
use crate::coords::MAX_CHUNK_WORLD;

verus! {

/// Largest accepted number of voxel columns per chunk side. Together with
/// the mesh layout (two vertices per cell plus one edge ring) this enforces
/// the 16-bit index ceiling of 65536 vertices per chunk mesh.
pub const MAX_CHUNK_SIZE: u32 = 180;

/// Largest accepted voxel edge length, in world units.
pub const MAX_VOXEL_SIZE: u32 = 1_000_000;

/// A reason the terrain configuration was rejected at startup.
#[derive(Clone, Copy, Debug, PartialEq, Eq, Structural)]
pub enum TerrainConfigError {
    ChunkSizeZero,
    ChunkSizeTooLarge,
    VoxelSizeZero,
    VoxelSizeTooLarge,
}

/// Process-wide configuration: `chunk_size` is the number of voxel columns
/// per chunk side and `voxel_size` the world-unit length of one voxel edge.
/// Read-only after initialization; shared by all components.
#[derive(Clone, Copy, Debug, PartialEq, Eq, Structural)]
pub struct TerrainSettings {
    pub chunk_size: u32,
    pub voxel_size: u32,
}

impl TerrainSettings {
    /// The bounds every validated configuration satisfies.
    pub open spec fn wf(self) -> bool {
        &&& 1 <= self.chunk_size <= MAX_CHUNK_SIZE
        &&& 1 <= self.voxel_size <= MAX_VOXEL_SIZE
    }

    /// World-space side length of one chunk.
    pub open spec fn spec_chunk_world(self) -> int {
        self.chunk_size * self.voxel_size
    }

    /// Validates a configuration. Invalid values are fatal at startup: the
    /// result says exactly which bound was broken.
    pub fn new(chunk_size: u32, voxel_size: u32) -> (r: Result<TerrainSettings, TerrainConfigError>)
        ensures
            match r {
                Ok(s) => {
                    &&& s.chunk_size == chunk_size
                    &&& s.voxel_size == voxel_size
                    &&& s.wf()
                },
                Err(e) => {
                    &&& !(TerrainSettings { chunk_size, voxel_size }).wf()
                    &&& (e == TerrainConfigError::ChunkSizeZero <==> chunk_size == 0)
                    &&& (e == TerrainConfigError::ChunkSizeTooLarge <==> chunk_size
                        > MAX_CHUNK_SIZE)
                    &&& (e == TerrainConfigError::VoxelSizeZero <==> (chunk_size != 0 && chunk_size
                        <= MAX_CHUNK_SIZE && voxel_size == 0))
                    &&& (e == TerrainConfigError::VoxelSizeTooLarge <==> (chunk_size != 0
                        && chunk_size <= MAX_CHUNK_SIZE && voxel_size > MAX_VOXEL_SIZE))
                },
            },
    {
        if chunk_size == 0 {
            Err(TerrainConfigError::ChunkSizeZero)
        } else if chunk_size > MAX_CHUNK_SIZE {
            Err(TerrainConfigError::ChunkSizeTooLarge)
        } else if voxel_size == 0 {
            Err(TerrainConfigError::VoxelSizeZero)
        } else if voxel_size > MAX_VOXEL_SIZE {
            Err(TerrainConfigError::VoxelSizeTooLarge)
        } else {
            Ok(TerrainSettings { chunk_size, voxel_size })
        }
    }

    /// World-space side length of one chunk, as executable code.
    pub fn chunk_world(&self) -> (w: i64)
        requires
            self.wf(),
        ensures
            w == self.spec_chunk_world(),
            1 <= w <= MAX_CHUNK_WORLD,
            w <= 180_000_000,
    {
        proof {
            assert(1 <= self.chunk_size * self.voxel_size <= 180 * 1_000_000) by (nonlinear_arith)
                requires
                    1 <= self.chunk_size <= MAX_CHUNK_SIZE,
                    1 <= self.voxel_size <= MAX_VOXEL_SIZE,
            ;
        }
        (self.chunk_size as i64) * (self.voxel_size as i64)
    }
}

impl Default for TerrainSettings {
    /// The demo defaults: 50 columns per side, 5000 world units per voxel
    /// edge (five metres at a thousand units per metre).
    fn default() -> (s: Self)
        ensures
            s.chunk_size == 50,
            s.voxel_size == 5000,
            s.wf(),
    {
        TerrainSettings { chunk_size: 50, voxel_size: 5000 }
    }
}

} // verus!
