//! The fixed-point coordinate scale and the bounds that the pipeline works in.

use vstd::prelude::*;

verus! {

/// Subunits per world unit: world coordinate 1.0 is this many subunits.
pub const UNITS_PER_WORLD: i64 = 4096;

/// The full working span, world [-1, 1], in subunits.
pub const WORLD_SPAN_UNITS: i64 = 8192;

/// The usable portion of the working span (95% of it, leaving a margin),
/// which the normalizer scales models to.
pub const TARGET_SPAN_UNITS: i64 = 7782;

/// The deepest octree depth at which the voxel edge is still a whole
/// number of subunits (`WORLD_SPAN_UNITS >> MAX_OCTREE_DEPTH == 1`).
pub const MAX_OCTREE_DEPTH: usize = 13;

/// Bound on the coordinates the rasterizer accepts, in subunits.
/// Normalized models stay well inside it; the margin keeps every
/// intermediate product of the plane test within `i128`.
pub const MAX_RASTER_COORD: i64 = 65536;

/// Bound on the coordinates the normalizer accepts, in subunits
/// (`1 << 40`); it keeps the scaling arithmetic within `i64`.
pub const MAX_INPUT_COORD: i64 = 1099511627776;

/// Strict bound on the voxel coordinates a `VoxelSet` can hold.
pub const MAX_VOXEL_COORD: i64 = 1048576;

} // verus!
