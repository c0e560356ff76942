//! Voxelization of triangle meshes.
//!
//! The crate turns a triangulated surface mesh into a sparse set of occupied
//! voxels and re-extracts a renderable boundary mesh holding only the faces
//! that border empty space.
//!
//! All geometry is carried in fixed-point integer coordinates: one world unit
//! is `units::UNITS_PER_WORLD` subunits, so the working volume of world span
//! 2.0 spans `units::WORLD_SPAN_UNITS` subunits. Conversion from and to
//! floating point is the caller's business; everything in here is exact
//! integer arithmetic.

pub mod extract;
pub mod math;
pub mod normalize;
pub mod rasterize;
pub mod units;
pub mod voxel_set;
pub mod voxelization;
