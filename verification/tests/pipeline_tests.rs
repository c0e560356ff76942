use voxelizer::voxelization::{create_voxelized_mesh, VoxelizationError};

/// The twelve triangles of an axis-aligned cube spanning `[a, b]` on every
/// axis, as a flat position array and a flat index array.
fn cube_mesh(a: i64, b: i64) -> (Vec<i64>, Vec<usize>) {
    let positions = vec![
        a, a, a, // 0
        b, a, a, // 1
        b, a, b, // 2
        a, a, b, // 3
        a, b, a, // 4
        b, b, a, // 5
        b, b, b, // 6
        a, b, b, // 7
    ];
    let indices = vec![
        0, 1, 2, 0, 2, 3, // bottom
        4, 6, 5, 4, 7, 6, // top
        0, 3, 7, 0, 7, 4, // -X side
        1, 5, 6, 1, 6, 2, // +X side
        0, 4, 5, 0, 5, 1, // -Z side
        3, 2, 6, 3, 6, 7, // +Z side
    ];
    (positions, indices)
}

#[test]
fn unit_cube_one_voxel_six_faces() {
    // a unit cube spanning exactly the outermost voxel cell at depth 1
    // (voxel size 1.0 world = 4096 subunits): one occupied voxel, and a
    // boundary mesh of 6 quads / 12 triangles / 24 vertices
    let (positions, indices) = cube_mesh(4096, 8192);
    let (mesh, summary) = create_voxelized_mesh(&positions, &indices, 1).unwrap();
    assert_eq!(summary.triangles, 12);
    assert_eq!(summary.voxels, 1);
    assert_eq!(summary.voxel_size, 4096);
    assert_eq!(mesh.positions.len(), 24);
    assert_eq!(mesh.normals.len(), 24);
    assert_eq!(mesh.uvs.len(), 24);
    assert_eq!(mesh.indices.len(), 36);
    // the extracted shell is the cube cell itself
    for p in &mesh.positions {
        assert!(p.x == 4096 || p.x == 8192);
        assert!(p.y == 4096 || p.y == 8192);
        assert!(p.z == 4096 || p.z == 8192);
    }
}

#[test]
fn empty_mesh_in_empty_mesh_out() {
    let positions: Vec<i64> = vec![];
    let indices: Vec<usize> = vec![];
    let (mesh, summary) = create_voxelized_mesh(&positions, &indices, 6).unwrap();
    assert_eq!(summary.triangles, 0);
    assert_eq!(summary.voxels, 0);
    assert_eq!(summary.voxel_size, 128);
    assert!(mesh.positions.is_empty());
    assert!(mesh.normals.is_empty());
    assert!(mesh.uvs.is_empty());
    assert!(mesh.indices.is_empty());
}

#[test]
fn excessive_depth_is_refused() {
    let (positions, indices) = cube_mesh(0, 4096);
    let r = create_voxelized_mesh(&positions, &indices, 14);
    assert_eq!(r.unwrap_err(), VoxelizationError::InvalidDepth);
    let r = create_voxelized_mesh(&positions, &indices, usize::MAX);
    assert_eq!(r.unwrap_err(), VoxelizationError::InvalidDepth);
}

#[test]
fn repeated_runs_are_identical() {
    let (positions, indices) = cube_mesh(0, 4096);
    let (m1, s1) = create_voxelized_mesh(&positions, &indices, 2).unwrap();
    let (m2, s2) = create_voxelized_mesh(&positions, &indices, 2).unwrap();
    assert_eq!(s1, s2);
    assert_eq!(m1.positions.len(), m2.positions.len());
    assert_eq!(m1.indices, m2.indices);
    for (p, q) in m1.positions.iter().zip(m2.positions.iter()) {
        assert_eq!((p.x, p.y, p.z), (q.x, q.y, q.z));
    }
}
