use voxelizer::normalize::{model_bounds, normalize_models};
use voxelizer::units::TARGET_SPAN_UNITS;

#[test]
fn empty_model_is_untouched() {
    let mut models: Vec<Vec<i64>> = vec![];
    normalize_models(&mut models);
    assert!(models.is_empty());

    let mut models: Vec<Vec<i64>> = vec![vec![], vec![1, 2]];
    normalize_models(&mut models);
    // no complete vertex anywhere: nothing changes
    assert_eq!(models, vec![vec![], vec![1, 2]]);
}

#[test]
fn degenerate_model_scales_by_one() {
    // all vertices coincide: the bounding box has zero volume, the scale is
    // one, and every vertex lands exactly on the center
    let mut models: Vec<Vec<i64>> = vec![vec![7, -3, 11, 7, -3, 11, 7, -3, 11]];
    normalize_models(&mut models);
    assert_eq!(models[0], vec![0, 0, 0, 0, 0, 0, 0, 0, 0]);
}

#[test]
fn two_point_model_fills_target_span() {
    // two vertices 100 subunits apart on x: center 50, largest dimension 100
    let mut models: Vec<Vec<i64>> = vec![vec![0, 0, 0, 100, 0, 0]];
    normalize_models(&mut models);
    let half = TARGET_SPAN_UNITS / 2; // (0 - 50) * 7782 / 100 = -3891
    assert_eq!(models[0], vec![-half, 0, 0, half, 0, 0]);
}

#[test]
fn odd_extent_keeps_the_half_subunit_center() {
    // the largest dimension is a single subunit, so the bounding-box center
    // lies on a half subunit; both vertices must still land exactly half
    // the target span from the origin, not a full span
    let mut models: Vec<Vec<i64>> = vec![vec![0, 0, 0, 1, 1, 1]];
    normalize_models(&mut models);
    let half = TARGET_SPAN_UNITS / 2;
    assert_eq!(models[0], vec![-half, -half, -half, half, half, half]);
}

#[test]
fn odd_extent_scales_every_axis_exactly() {
    // x spans 3 subunits (the largest dimension), y spans 1, z spans 0;
    // 7782 / 6 = 1297 exactly
    let mut models: Vec<Vec<i64>> = vec![vec![0, 0, 5, 3, 1, 5]];
    normalize_models(&mut models);
    let half = TARGET_SPAN_UNITS / 2;
    assert_eq!(models[0], vec![-half, -1297, 0, half, 1297, 0]);
}

#[test]
fn trailing_incomplete_vertex_untouched() {
    let mut models: Vec<Vec<i64>> = vec![vec![0, 0, 0, 100, 0, 0, 42, 43]];
    normalize_models(&mut models);
    let half = TARGET_SPAN_UNITS / 2;
    assert_eq!(models[0], vec![-half, 0, 0, half, 0, 0, 42, 43]);
}

#[test]
fn bounds_of_empty_model_report_nothing_found() {
    let models: Vec<Vec<i64>> = vec![vec![], vec![5, 6]];
    let b = model_bounds(&models);
    assert!(!b.found);
}

#[test]
fn bounding_box_spans_all_submeshes() {
    let models: Vec<Vec<i64>> = vec![vec![-10, 0, 0], vec![30, 5, -7]];
    let b = model_bounds(&models);
    assert!(b.found);
    assert_eq!((b.lo.x, b.lo.y, b.lo.z), (-10, 0, -7));
    assert_eq!((b.hi.x, b.hi.y, b.hi.z), (30, 5, 0));
}

#[test]
fn normalized_output_within_target_span() {
    // every output stays within half the target span of the origin, i.e.
    // within the 95% margin of the working volume
    let mut models: Vec<Vec<i64>> = vec![vec![
        -1_000_000, 2_000_000, 3, 500_000, -2_000_000, 41, 0, 0, 0,
    ]];
    normalize_models(&mut models);
    let half = TARGET_SPAN_UNITS / 2;
    for &c in &models[0] {
        assert!(-half <= c && c <= half);
    }
}
