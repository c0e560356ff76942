use voxelizer::units::{UNITS_PER_WORLD, WORLD_SPAN_UNITS};
use voxelizer::voxelization::{compute_voxel_size, VoxelizationSettings};

#[test]
fn voxel_size_formula_depth_one() {
    // 2 / 2^1 = 1.0 world units = UNITS_PER_WORLD subunits
    let s = VoxelizationSettings { octree_depth: 1 };
    assert_eq!(s.voxel_size(), UNITS_PER_WORLD);
    assert_eq!(s.voxel_size(), 4096);
}

#[test]
fn voxel_size_formula_depth_six() {
    // 2 / 2^6 = 0.03125 world units = 128 subunits
    let s = VoxelizationSettings { octree_depth: 6 };
    assert_eq!(s.voxel_size(), 128);
    assert_eq!(s.voxel_size() * 32, UNITS_PER_WORLD);
}

#[test]
fn voxel_size_halves_at_each_depth() {
    let mut prev = compute_voxel_size(0);
    assert_eq!(prev, WORLD_SPAN_UNITS);
    for d in 1..=13usize {
        let v = compute_voxel_size(d);
        assert_eq!(v * 2, prev);
        prev = v;
    }
    assert_eq!(compute_voxel_size(13), 1);
}

#[test]
fn voxel_size_zero_beyond_max_depth() {
    assert_eq!(compute_voxel_size(14), 0);
    assert_eq!(compute_voxel_size(100), 0);
}

#[test]
fn default_settings_depth() {
    let s = VoxelizationSettings::default();
    assert_eq!(s.octree_depth, 6);
}
