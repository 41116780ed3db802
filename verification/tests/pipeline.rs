use voxel_terrain::bindings::{ActionBinding, AxisBinding};
use voxel_terrain::coords::{home_chunk, ChunkCoord};
use voxel_terrain::lifecycle::ChunkLifecycleController;
use voxel_terrain::mesh::{calculate_normals, create_biome_mesh, create_voxel_mesh2, MeshBuffer, Vec3};
use voxel_terrain::noise_field::NoiseField;
use voxel_terrain::settings::TerrainSettings;
use voxel_terrain::voxel::{VoxelData, VoxelFieldGenerator};

fn settings(chunk_size: u32, voxel_size: u32) -> TerrainSettings {
    TerrainSettings::new(chunk_size, voxel_size).expect("valid settings")
}

// Mesh buffer invariant: whole triangles, indices in range, one normal and
// one texture coordinate per vertex.
fn check_buffer(m: &MeshBuffer) {
    assert_eq!(m.indices.len() % 3, 0);
    for &i in m.indices.iter() {
        assert!((i as usize) < m.positions.len());
    }
    assert_eq!(m.normals.len(), m.positions.len());
    assert_eq!(m.tex_coords.len(), m.positions.len());
}

// Accumulated normals renormalize to unit length (checked in floating
// point, which the verified core never touches).
fn check_unit_normals(m: &MeshBuffer) {
    let mut nonzero = 0usize;
    for n in m.normals.iter() {
        let (x, y, z) = (n.x as f64, n.y as f64, n.z as f64);
        let len = (x * x + y * y + z * z).sqrt();
        if len > 0.0 {
            nonzero += 1;
            let (ux, uy, uz) = (x / len, y / len, z / len);
            let ulen = (ux * ux + uy * uy + uz * uz).sqrt();
            assert!((ulen - 1.0).abs() < 1e-9);
        }
    }
    assert!(nonzero > 0);
}

#[test]
fn mesh_of_one_cell_is_exact() {
    let s = settings(1, 1000);
    let heights: Vec<i32> = (0..16).collect();
    let v = VoxelData::from_heights(&s, &heights).expect("valid heights");
    let m = create_voxel_mesh2(&v);
    check_buffer(&m);
    assert_eq!(m.positions.len(), 5);
    assert_eq!(m.indices.len(), 12);
    // Centre carries four times the cell's own height; corners the sum of
    // the four incident cells (skirt included).
    assert_eq!(m.positions[0], Vec3 { x: 0, y: 20, z: 0 });
    assert_eq!(m.positions[1], Vec3 { x: -2, y: 10, z: -2 });
    assert_eq!(m.positions[2], Vec3 { x: 2, y: 14, z: -2 });
    assert_eq!(m.positions[3], Vec3 { x: -2, y: 26, z: 2 });
    assert_eq!(m.positions[4], Vec3 { x: 2, y: 30, z: 2 });
    assert_eq!(m.indices, vec![0, 1, 3, 0, 3, 4, 0, 4, 2, 0, 2, 1]);
    for (k, t) in m.tex_coords.iter().enumerate() {
        assert_eq!(t.u, m.positions[k].x + 2);
        assert_eq!(t.v, m.positions[k].z + 2);
    }
}

#[test]
fn flat_chunk_still_has_a_full_index_buffer() {
    let s = settings(3, 1000);
    let v = VoxelData::from_heights(&s, &vec![0; 36]).expect("valid heights");
    let m = create_voxel_mesh2(&v);
    check_buffer(&m);
    assert_eq!(m.positions.len(), 2 * 9 + 2 * 3 + 1);
    assert_eq!(m.indices.len(), 12 * 9);
}

#[test]
fn meshes_of_adjacent_chunks_share_their_seam() {
    let s = settings(4, 1000);
    let n = 4usize;
    let g = VoxelFieldGenerator::new(NoiseField::new(7));
    let v0 = g.generate(ChunkCoord { x: 0, z: 0 }, &s);
    let ve = g.generate(ChunkCoord { x: 1, z: 0 }, &s);
    let m0 = create_voxel_mesh2(&v0);
    let me = create_voxel_mesh2(&ve);
    // The east edge corners of chunk (0,0) and the west corners of chunk
    // (1,0) are the same world points: x = +2n here is x = -2n there, and
    // the blended heights agree because both sides sampled the same field.
    for z in 0..n {
        let east_corner = m0.positions[2 * n * n + z];
        let west_corner = me.positions[2 * (z * n) + 1];
        assert_eq!(east_corner.x, 2 * n as i64);
        assert_eq!(west_corner.x, -(2 * n as i64));
        assert_eq!(east_corner.y, west_corner.y);
        assert_eq!(east_corner.z, west_corner.z);
    }
}

#[test]
fn normals_renormalize_to_unit_length() {
    let s = settings(4, 1000);
    let g = VoxelFieldGenerator::new(NoiseField::new(20));
    let v = g.generate(ChunkCoord { x: 2, z: -1 }, &s);
    let m = create_voxel_mesh2(&v);
    check_buffer(&m);
    check_unit_normals(&m);
}

#[test]
fn biome_mesh_is_exact() {
    let m = create_biome_mesh(2);
    check_buffer(&m);
    assert_eq!(m.positions.len(), 4);
    assert_eq!(
        m.positions,
        vec![
            Vec3 { x: 2, y: 0, z: 2 },
            Vec3 { x: -2, y: 0, z: 2 },
            Vec3 { x: -2, y: 0, z: -2 },
            Vec3 { x: 2, y: 0, z: -2 },
        ]
    );
    assert_eq!(m.indices, vec![0, 2, 1, 0, 3, 2]);
    // Both faces of the flat quad point straight up; shared vertices get
    // both contributions.
    assert_eq!(m.normals[0], Vec3 { x: 0, y: 32, z: 0 });
    assert_eq!(m.normals[1], Vec3 { x: 0, y: 16, z: 0 });
    assert_eq!(m.normals[2], Vec3 { x: 0, y: 32, z: 0 });
    assert_eq!(m.normals[3], Vec3 { x: 0, y: 16, z: 0 });
    check_unit_normals(&m);
}

#[test]
fn calculate_normals_accumulates_per_vertex() {
    let positions = vec![
        Vec3 { x: 0, y: 0, z: 0 },
        Vec3 { x: 2, y: 0, z: 0 },
        Vec3 { x: 0, y: 0, z: 2 },
    ];
    let indices: Vec<u16> = vec![0, 2, 1];
    let normals = calculate_normals(&positions, &indices);
    assert_eq!(normals.len(), 3);
    // One face: its normal accumulates identically on all three vertices.
    assert_eq!(normals[0], normals[1]);
    assert_eq!(normals[1], normals[2]);
    assert_eq!(normals[0], Vec3 { x: 0, y: 4, z: 0 });
}

// End-to-end scenario: chunk_size 4, voxel_size 1 world unit, seed 20,
// observer at the origin: exactly the nine chunks around (0,0) spawn, each
// with a non-empty mesh of at least six indices per interior cell.
#[test]
fn first_tick_spawns_the_nine_home_chunks() {
    let s = settings(4, 1);
    let mut ctrl = ChunkLifecycleController::new(s, NoiseField::new(20));
    let out = ctrl.tick(Some((0, 0)), 1);
    assert_eq!(out.len(), 9);
    assert_eq!(ctrl.registry.chunks.len(), 9);
    for dx in -1..=1i64 {
        for dz in -1..=1i64 {
            assert!(out.iter().any(|r| r.coord == ChunkCoord { x: dx, z: dz }));
        }
    }
    for r in out.iter() {
        assert!(r.mesh.positions.len() > 0);
        assert_eq!(r.mesh.positions.len(), 2 * 16 + 2 * 4 + 1);
        assert!(r.mesh.indices.len() >= 6 * 16);
        assert_eq!(r.mesh.indices.len(), 12 * 16);
        check_buffer(&r.mesh);
        assert_eq!(r.material, 1);
        assert_eq!(r.origin_x, r.coord.x * 4);
        assert_eq!(r.origin_z, r.coord.z * 4);
        assert_eq!(r.bounding_radius_sq, 2 * 4 * 4);
    }
    // A second tick at the same position spawns and re-meshes nothing.
    let again = ctrl.tick(Some((0, 0)), 1);
    assert_eq!(again.len(), 0);
    assert_eq!(ctrl.registry.chunks.len(), 9);
}

#[test]
fn missing_observer_is_a_no_op() {
    let s = settings(4, 1);
    let mut ctrl = ChunkLifecycleController::new(s, NoiseField::new(20));
    let out = ctrl.tick(None, 1);
    assert_eq!(out.len(), 0);
    assert_eq!(ctrl.registry.chunks.len(), 0);
}

// Scenario: the observer walks from (0,0) to (100,0) with a chunk world
// size of 20: the home coordinate ends at (5,0), each step spawns only the
// newly entered column, and everything spawned earlier stays registered
// and untouched.
#[test]
fn walking_observer_grows_the_grid_append_only() {
    let s = settings(4, 5);
    let mut ctrl = ChunkLifecycleController::new(s, NoiseField::new(20));
    let first = ctrl.tick(Some((0, 0)), 0);
    assert_eq!(first.len(), 9);
    let coords_after_first: Vec<ChunkCoord> =
        ctrl.registry.chunks.iter().map(|c| c.coord).collect();
    let mut total = 9usize;
    for step in 1..=5i64 {
        let out = ctrl.tick(Some((step * 20, 0)), 0);
        assert_eq!(out.len(), 3);
        total += 3;
        assert_eq!(ctrl.registry.chunks.len(), total);
        for r in out.iter() {
            assert_eq!(r.coord.x, step + 1);
            assert!(-1 <= r.coord.z && r.coord.z <= 1);
        }
    }
    assert_eq!(ctrl.registry.chunks.len(), 24);
    // The chunks spawned by the first tick kept their slots and coords.
    for (i, c) in coords_after_first.iter().enumerate() {
        assert_eq!(ctrl.registry.chunks[i].coord, *c);
    }
    let home = home_chunk(100, 0, 20);
    assert_eq!(home, ChunkCoord { x: 5, z: 0 });
}

#[test]
fn binding_labels_match_their_variants() {
    assert_eq!(AxisBinding::XAxis.label(), "XAxis");
    assert_eq!(AxisBinding::YAxis.label(), "YAxis");
    assert_eq!(AxisBinding::ZAxis.label(), "ZAxis");
    assert_eq!(ActionBinding::Interact.label(), "Interact");
}
