use voxel_terrain::coords::{floor_div, home_chunk, home_chunk_axis, neighborhood, ChunkCoord};
use voxel_terrain::noise_field::{floor_mod, NoiseField, HEIGHT_AMPLITUDE};
use voxel_terrain::settings::{TerrainConfigError, TerrainSettings, MAX_CHUNK_SIZE, MAX_VOXEL_SIZE};
use voxel_terrain::voxel::{VoxelData, VoxelDataError, VoxelFieldGenerator};

fn settings(chunk_size: u32, voxel_size: u32) -> TerrainSettings {
    TerrainSettings::new(chunk_size, voxel_size).expect("valid settings")
}

#[test]
fn floor_div_rounds_toward_negative_infinity() {
    assert_eq!(floor_div(7, 2), 3);
    assert_eq!(floor_div(-7, 2), -4);
    assert_eq!(floor_div(-8, 2), -4);
    assert_eq!(floor_div(0, 5), 0);
    assert_eq!(floor_div(-1, 5), -1);
    assert_eq!(floor_div(19, 20), 0);
    assert_eq!(floor_div(-20, 20), -1);
}

#[test]
fn floor_mod_is_always_nonnegative() {
    assert_eq!(floor_mod(7, 4), 3);
    assert_eq!(floor_mod(-7, 4), 1);
    assert_eq!(floor_mod(-8, 4), 0);
    assert_eq!(floor_mod(3, 65536), 3);
    assert_eq!(floor_mod(-1, 65536), 65535);
}

#[test]
fn home_chunk_centres_the_observer() {
    // chunk_world = 20: chunk 0 spans [-10, 10).
    assert_eq!(home_chunk_axis(0, 20), 0);
    assert_eq!(home_chunk_axis(9, 20), 0);
    assert_eq!(home_chunk_axis(10, 20), 1);
    assert_eq!(home_chunk_axis(-10, 20), 0);
    assert_eq!(home_chunk_axis(-11, 20), -1);
    assert_eq!(home_chunk_axis(-30, 20), -1);
    assert_eq!(home_chunk_axis(-31, 20), -2);
    assert_eq!(home_chunk_axis(100, 20), 5);
    let c = home_chunk(100, -11, 20);
    assert_eq!(c, ChunkCoord { x: 5, z: -1 });
}

#[test]
fn home_chunk_steps_one_axis_at_a_time() {
    // Moving by less than half a chunk width around the chunk centre never
    // changes the home coordinate; crossing the boundary steps it by one.
    let world = 20i64;
    for p in -10..10i64 {
        assert_eq!(home_chunk_axis(p, world), 0);
    }
    assert_eq!(home_chunk_axis(10, world), 1);
    assert_eq!(home_chunk_axis(-11, world), -1);
    // A move of at most one chunk width changes the home index by 0 or 1.
    for p in -100..100i64 {
        let a = home_chunk_axis(p, world);
        let b = home_chunk_axis(p + world, world);
        assert_eq!(b, a + 1);
    }
}

#[test]
fn neighborhood_is_the_nine_surrounding_coords() {
    let v = neighborhood(ChunkCoord { x: 2, z: -3 });
    assert_eq!(v.len(), 9);
    for dx in -1..=1i64 {
        for dz in -1..=1i64 {
            assert!(v.iter().any(|c| c.x == 2 + dx && c.z == -3 + dz));
        }
    }
    assert_eq!(v[0], ChunkCoord { x: 2, z: -3 });
}

#[test]
fn settings_validation_reports_each_error() {
    assert!(settings(1, 1).chunk_size == 1);
    assert_eq!(
        TerrainSettings::new(0, 100).unwrap_err(),
        TerrainConfigError::ChunkSizeZero
    );
    assert_eq!(
        TerrainSettings::new(MAX_CHUNK_SIZE + 1, 100).unwrap_err(),
        TerrainConfigError::ChunkSizeTooLarge
    );
    assert_eq!(
        TerrainSettings::new(50, 0).unwrap_err(),
        TerrainConfigError::VoxelSizeZero
    );
    assert_eq!(
        TerrainSettings::new(50, MAX_VOXEL_SIZE + 1).unwrap_err(),
        TerrainConfigError::VoxelSizeTooLarge
    );
    let d = TerrainSettings::default();
    assert_eq!(d.chunk_size, 50);
    assert_eq!(d.voxel_size, 5000);
}

#[test]
fn noise_samples_are_quantized_layers() {
    let f = NoiseField::new(20);
    for &wx in &[-1_000_000i64, -3000, -1, 0, 1, 500, 65536, 123_456_789] {
        for &wz in &[-65536i64, 0, 7, 99_999] {
            let h = f.sample(wx, wz);
            assert!(0 <= h && h as i64 <= HEIGHT_AMPLITUDE);
        }
    }
}

#[test]
fn noise_is_deterministic_across_instances() {
    let a = NoiseField::new(12345);
    let b = NoiseField::new(12345);
    for w in -50..50i64 {
        assert_eq!(a.sample(w * 997, -w * 31), b.sample(w * 997, -w * 31));
    }
}

// Determinism: generating the same chunk twice, independently, yields
// identical voxel data.
#[test]
fn generation_is_deterministic() {
    let s = settings(4, 1000);
    let g1 = VoxelFieldGenerator::new(NoiseField::new(20));
    let g2 = VoxelFieldGenerator::new(NoiseField::new(20));
    let c = ChunkCoord { x: -7, z: 3 };
    let v1 = g1.generate(c, &s);
    let v2 = g2.generate(c, &s);
    assert_eq!(v1.voxels.len(), 7 * 7);
    for lz in -1..=5i64 {
        for lx in -1..=5i64 {
            assert_eq!(v1.get(lx, lz), v2.get(lx, lz));
        }
    }
}

// Seam consistency: where the lattices of adjacent chunks overlap, the
// generated values agree exactly, on every side.
#[test]
fn adjacent_chunks_agree_on_their_border() {
    let s = settings(4, 1000);
    let n = 4i64;
    let g = VoxelFieldGenerator::new(NoiseField::new(99));
    let c0 = ChunkCoord { x: 0, z: 0 };
    let east = ChunkCoord { x: 1, z: 0 };
    let south = ChunkCoord { x: 0, z: 1 };
    let v0 = g.generate(c0, &s);
    let ve = g.generate(east, &s);
    let vs = g.generate(south, &s);
    for lz in -1..=n + 1 {
        // lattice column lx of c0 is column lx - n of its east neighbour
        for lx in n - 1..=n + 1 {
            assert_eq!(v0.get(lx, lz), ve.get(lx - n, lz));
        }
    }
    for lx in -1..=n + 1 {
        for lz in n - 1..=n + 1 {
            assert_eq!(v0.get(lx, lz), vs.get(lx, lz - n));
        }
    }
}

#[test]
fn from_heights_checks_shape_and_range() {
    let s = settings(1, 1000);
    // side = 4, so 16 heights are required.
    assert_eq!(
        VoxelData::from_heights(&s, &vec![0; 15]).unwrap_err(),
        VoxelDataError::WrongLength
    );
    assert_eq!(
        VoxelData::from_heights(&s, &vec![5000; 16]).unwrap_err(),
        VoxelDataError::HeightOutOfRange
    );
    let heights: Vec<i32> = (0..16).collect();
    let v = VoxelData::from_heights(&s, &heights).expect("valid heights");
    assert_eq!(v.chunk_size, 1);
    assert_eq!(v.get(-1, -1), 0);
    assert_eq!(v.get(0, 0), 5);
    assert_eq!(v.get(2, 2), 15);
}
