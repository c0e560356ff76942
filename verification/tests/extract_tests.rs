use voxelizer::extract::{extract_boundary_mesh, BoundaryMesh};
use voxelizer::voxel_set::{VoxelCoord, VoxelSet};

fn quad_count(m: &BoundaryMesh) -> usize {
    assert_eq!(m.positions.len(), m.normals.len());
    assert_eq!(m.positions.len(), m.uvs.len());
    assert_eq!(m.positions.len() % 4, 0);
    assert_eq!(m.indices.len(), m.positions.len() / 4 * 6);
    m.positions.len() / 4
}

fn check_mesh_invariants(m: &BoundaryMesh) {
    let q = quad_count(m);
    // index validity: a multiple of three indices, each below the vertex count
    assert_eq!(m.indices.len() % 3, 0);
    for &ix in &m.indices {
        assert!(ix < m.positions.len());
    }
    // the fixed triangulation (0, 2, 1), (0, 3, 2) over each quad
    for k in 0..q {
        assert_eq!(m.indices[6 * k], 4 * k);
        assert_eq!(m.indices[6 * k + 1], 4 * k + 2);
        assert_eq!(m.indices[6 * k + 2], 4 * k + 1);
        assert_eq!(m.indices[6 * k + 3], 4 * k);
        assert_eq!(m.indices[6 * k + 4], 4 * k + 3);
        assert_eq!(m.indices[6 * k + 5], 4 * k + 2);
    }
    // every normal is an axis-aligned unit vector shared by its whole quad,
    // and the texture corners come in the fixed order
    for k in 0..q {
        let n = m.normals[4 * k];
        assert_eq!(n.x.abs() + n.y.abs() + n.z.abs(), 1);
        for j in 0..4 {
            let nj = m.normals[4 * k + j];
            assert_eq!((nj.x, nj.y, nj.z), (n.x, n.y, n.z));
        }
        assert_eq!((m.uvs[4 * k].u, m.uvs[4 * k].v), (0, 0));
        assert_eq!((m.uvs[4 * k + 1].u, m.uvs[4 * k + 1].v), (1, 0));
        assert_eq!((m.uvs[4 * k + 2].u, m.uvs[4 * k + 2].v), (1, 1));
        assert_eq!((m.uvs[4 * k + 3].u, m.uvs[4 * k + 3].v), (0, 1));
    }
}

#[test]
fn empty_set_empty_mesh() {
    let filled = VoxelSet::new();
    let m = extract_boundary_mesh(&filled, 128);
    assert!(m.positions.is_empty());
    assert!(m.normals.is_empty());
    assert!(m.uvs.is_empty());
    assert!(m.indices.is_empty());
}

#[test]
fn isolated_voxel_emits_six_quads() {
    let mut filled = VoxelSet::new();
    filled.insert(VoxelCoord::new(0, 0, 0));
    let m = extract_boundary_mesh(&filled, 128);
    assert_eq!(quad_count(&m), 6);
    assert_eq!(m.positions.len(), 24);
    assert_eq!(m.indices.len(), 36);
    check_mesh_invariants(&m);
    // faces come in the order +X, -X, +Y, -Y, +Z, -Z
    let expect = [(1, 0, 0), (-1, 0, 0), (0, 1, 0), (0, -1, 0), (0, 0, 1), (0, 0, -1)];
    for (k, e) in expect.iter().enumerate() {
        let n = m.normals[4 * k];
        assert_eq!((n.x, n.y, n.z), *e);
    }
    // the cube spans [0, 128] on each axis
    for p in &m.positions {
        assert!(p.x == 0 || p.x == 128);
        assert!(p.y == 0 || p.y == 128);
        assert!(p.z == 0 || p.z == 128);
    }
    // the +X face lies in the plane x = 128, the -X face in x = 0
    for j in 0..4 {
        assert_eq!(m.positions[j].x, 128);
        assert_eq!(m.positions[4 + j].x, 0);
    }
}

#[test]
fn shared_face_is_culled() {
    // two adjacent voxels: each hides one of its six faces
    let mut filled = VoxelSet::new();
    filled.insert(VoxelCoord::new(0, 0, 0));
    filled.insert(VoxelCoord::new(1, 0, 0));
    let m = extract_boundary_mesh(&filled, 128);
    assert_eq!(quad_count(&m), 10);
    check_mesh_invariants(&m);
    // no quad lies in the shared interior plane x = 128
    for k in 0..10 {
        let n = m.normals[4 * k];
        if n.y == 0 && n.z == 0 {
            let x = m.positions[4 * k].x;
            assert!(x == 0 || x == 256);
        }
    }
}

#[test]
fn enclosed_voxel_emits_nothing() {
    // a 3x3x3 solid block: the center voxel is fully surrounded and emits
    // no geometry, leaving exactly the 54 outer faces
    let mut filled = VoxelSet::new();
    for x in 0..3i64 {
        for y in 0..3i64 {
            for z in 0..3i64 {
                filled.insert(VoxelCoord::new(x, y, z));
            }
        }
    }
    let m = extract_boundary_mesh(&filled, 128);
    assert_eq!(quad_count(&m), 54);
    check_mesh_invariants(&m);
    // no emitted vertex lies strictly inside the block
    for p in &m.positions {
        assert!(p.x == 0 || p.x == 384 || p.y == 0 || p.y == 384 || p.z == 0 || p.z == 384);
    }
}
