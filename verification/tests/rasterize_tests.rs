use voxelizer::math::Vec3i;
use voxelizer::rasterize::{rasterize_triangles, voxelize_triangle, Triangle};
use voxelizer::voxel_set::{VoxelCoord, VoxelSet};

fn tri(a: (i64, i64, i64), b: (i64, i64, i64), c: (i64, i64, i64)) -> Triangle {
    Triangle::new(
        Vec3i::new(a.0, a.1, a.2),
        Vec3i::new(b.0, b.1, b.2),
        Vec3i::new(c.0, c.1, c.2),
    )
}

#[test]
fn no_triangles_no_voxels() {
    let filled = rasterize_triangles(&vec![], 4096);
    assert_eq!(filled.len(), 0);
}

#[test]
fn degenerate_triangle_fills_nothing() {
    // collinear vertices: the cross product is zero, so nothing is inserted
    let t = tri((0, 0, 0), (100, 100, 100), (200, 200, 200));
    let mut filled = VoxelSet::new();
    voxelize_triangle(&t, 128, &mut filled);
    assert_eq!(filled.len(), 0);
}

#[test]
fn plane_triangle_fills_box_near_plane() {
    // a triangle in the plane x = 0 at voxel size 4096 (depth 1): its box
    // spans voxel rows y, z in {0, 1}, and every sample point in the box is
    // half a voxel from the plane, within the 0.87 threshold
    let t = tri((0, 0, 0), (0, 4096, 0), (0, 0, 4096));
    let mut filled = VoxelSet::new();
    voxelize_triangle(&t, 4096, &mut filled);
    assert_eq!(filled.len(), 4);
    for y in 0..2i64 {
        for z in 0..2i64 {
            assert!(filled.contains(&VoxelCoord::new(0, y, z)));
        }
    }
    assert!(!filled.contains(&VoxelCoord::new(1, 0, 0)));
    assert!(!filled.contains(&VoxelCoord::new(-1, 0, 0)));
}

#[test]
fn geometry_outside_working_volume_is_dropped() {
    // at depth 1 the working volume spans voxel indices -1..=1; a triangle
    // three world units out on x is clamped away entirely
    let t = tri((12288, 0, 0), (12288, 4096, 0), (12288, 0, 4096));
    let mut filled = VoxelSet::new();
    voxelize_triangle(&t, 4096, &mut filled);
    assert_eq!(filled.len(), 0);
}

#[test]
fn insertion_is_idempotent() {
    let t = tri((0, 0, 0), (0, 4096, 0), (0, 0, 4096));
    let mut filled = VoxelSet::new();
    voxelize_triangle(&t, 4096, &mut filled);
    let n = filled.len();
    voxelize_triangle(&t, 4096, &mut filled);
    assert_eq!(filled.len(), n);
}

#[test]
fn triangle_order_does_not_change_the_set() {
    let a = tri((0, 0, 0), (0, 4096, 0), (0, 0, 4096));
    let b = tri((0, 0, 0), (4096, 0, 0), (0, 0, 4096));
    let c = tri((-4096, -4096, -4096), (0, -4096, 0), (-4096, 0, 0));
    let forward = rasterize_triangles(&vec![a, b, c], 4096);
    let backward = rasterize_triangles(&vec![c, b, a], 4096);
    assert_eq!(forward.len(), backward.len());
    for x in -2..3i64 {
        for y in -2..3i64 {
            for z in -2..3i64 {
                let v = VoxelCoord::new(x, y, z);
                assert_eq!(forward.contains(&v), backward.contains(&v));
            }
        }
    }
}

#[test]
fn voxel_set_collapses_duplicates() {
    let mut s = VoxelSet::new();
    s.insert(VoxelCoord::new(1, 2, 3));
    s.insert(VoxelCoord::new(1, 2, 3));
    s.insert(VoxelCoord::new(3, 2, 1));
    assert_eq!(s.len(), 2);
    assert!(s.contains(&VoxelCoord::new(1, 2, 3)));
    assert!(s.contains(&VoxelCoord::new(3, 2, 1)));
    assert!(!s.contains(&VoxelCoord::new(2, 2, 2)));
}

#[test]
fn far_off_coordinates_are_never_members() {
    let mut s = VoxelSet::new();
    s.insert(VoxelCoord::new(0, 0, 0));
    // coordinates beyond the representable voxel range are simply absent
    assert!(!s.contains(&VoxelCoord::new(i64::MAX, 0, 0)));
    assert!(!s.contains(&VoxelCoord::new(0, i64::MIN, 0)));
}
