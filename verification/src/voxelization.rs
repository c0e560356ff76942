//! The voxelization pipeline: configuration, the voxel-size formula, and
//! the end-to-end conversion of one triangle mesh into a boundary mesh.

use vstd::prelude::*;
use crate::math::Vec3i;
use crate::rasterize::{
    Triangle, triangle_in_range, voxels_of, rasterize_triangles,
};
use crate::extract::{BoundaryMesh, mesh_wf, mesh_quads, quad_list, extract_boundary_mesh};
use crate::units::{WORLD_SPAN_UNITS, MAX_OCTREE_DEPTH, MAX_RASTER_COORD};
use vstd::arithmetic::power2::{
    pow2, lemma2_to64, lemma_pow2_pos, lemma_pow2_unfold, lemma_pow2_subtracts,
    lemma_pow2_strictly_increases,
};
use vstd::arithmetic::div_mod::lemma_div_multiples_vanish;
use vstd::bits::lemma_u64_shr_is_div;

verus! {

/// Voxelization configuration: the octree depth the voxel edge length is
/// derived from.
pub struct VoxelizationSettings {
    pub octree_depth: usize,
}

impl Default for VoxelizationSettings {
    fn default() -> (s: Self)
        ensures
            s.octree_depth == 6,
    {
        VoxelizationSettings { octree_depth: 6 }
    }
}

/// The voxel edge length in subunits at octree depth `d`: the working span
/// (world 2.0) halved `d` times — the formula `2 / 2^d` in world units —
/// or zero once the depth exceeds `MAX_OCTREE_DEPTH` and no whole number
/// of subunits is left.
pub open spec fn spec_voxel_size(d: int) -> int
    decreases d,
{
    if d < 0 || d > MAX_OCTREE_DEPTH {
        0
    } else if d == 0 {
        WORLD_SPAN_UNITS as int
    } else {
        spec_voxel_size(d - 1) / 2
    }
}

/// The voxel-size formula in closed form: halving the span `d` times
/// leaves `2^(MAX_OCTREE_DEPTH - d)` subunits, a positive whole number.
pub proof fn lemma_voxel_size_pow2(d: int)
    requires
        0 <= d <= MAX_OCTREE_DEPTH,
    ensures
        spec_voxel_size(d) == pow2((MAX_OCTREE_DEPTH - d) as nat) as int,
        1 <= spec_voxel_size(d) <= WORLD_SPAN_UNITS,
    decreases d,
{
    lemma2_to64();
    if d > 0 {
        lemma_voxel_size_pow2(d - 1);
        lemma_pow2_unfold((MAX_OCTREE_DEPTH - d + 1) as nat);
        lemma_div_multiples_vanish(pow2((MAX_OCTREE_DEPTH - d) as nat) as int, 2);
    }
    lemma_pow2_pos((MAX_OCTREE_DEPTH - d) as nat);
    if d > 0 {
        lemma_pow2_strictly_increases((MAX_OCTREE_DEPTH - d) as nat, MAX_OCTREE_DEPTH as nat);
    }
}

/// Compute the voxel edge length for a depth; zero signals a depth too
/// deep to voxelize at.
pub fn compute_voxel_size(d: usize) -> (v: i64)
    ensures
        v == spec_voxel_size(d as int),
        d <= MAX_OCTREE_DEPTH ==> 1 <= v <= WORLD_SPAN_UNITS,
        d > MAX_OCTREE_DEPTH ==> v == 0,
{
    if d > MAX_OCTREE_DEPTH {
        return 0;
    }
    let shifted: u64 = (WORLD_SPAN_UNITS as u64) >> (d as u64);
    proof {
        lemma_u64_shr_is_div(WORLD_SPAN_UNITS as u64, d as u64);
        lemma2_to64();
        lemma_voxel_size_pow2(d as int);
        lemma_pow2_subtracts(d as nat, MAX_OCTREE_DEPTH as nat);
        lemma_pow2_pos(d as nat);
    }
    shifted as i64
}

impl VoxelizationSettings {
    /// The voxel edge length this configuration asks for, in subunits.
    pub fn voxel_size(&self) -> (v: i64)
        ensures
            v == spec_voxel_size(self.octree_depth as int),
    {
        compute_voxel_size(self.octree_depth)
    }
}

/// Why a voxelization request was refused.
#[derive(Clone, Copy, PartialEq, Eq, Structural, Debug)]
pub enum VoxelizationError {
    /// The configured octree depth leaves no positive voxel edge length.
    InvalidDepth,
}

/// The diagnostic summary of one voxelization pass; informational only.
#[derive(Clone, Copy, PartialEq, Eq, Structural, Debug)]
pub struct VoxelizationSummary {
    pub triangles: usize,
    pub voxels: usize,
    pub voxel_size: i64,
}

/// The vertex at position index `j` of a flat position array.
pub open spec fn vertex_at(ps: Seq<i64>, j: int) -> (int, int, int) {
    (ps[3 * j] as int, ps[3 * j + 1] as int, ps[3 * j + 2] as int)
}

/// Triangle `i` of an indexed mesh: three vertices looked up through the
/// index array.
pub open spec fn triangle_at(ps: Seq<i64>, ix: Seq<usize>, i: int) -> (
    (int, int, int),
    (int, int, int),
    (int, int, int),
) {
    (vertex_at(ps, ix[3 * i] as int), vertex_at(ps, ix[3 * i + 1] as int), vertex_at(
        ps,
        ix[3 * i + 2] as int,
    ))
}

/// All triangles of an indexed mesh, in order; a trailing incomplete index
/// triple is ignored.
pub open spec fn tri_seq(ps: Seq<i64>, ix: Seq<usize>) -> Seq<
    ((int, int, int), (int, int, int), (int, int, int)),
> {
    Seq::new((ix.len() / 3) as nat, |i: int| triangle_at(ps, ix, i))
}

/// Every index used by a complete triangle refers to a complete vertex.
pub open spec fn mesh_indices_valid(ps: Seq<i64>, ix: Seq<usize>) -> bool {
    forall|i: int| 0 <= i < 3 * (ix.len() / 3) ==> 3 * (#[trigger] ix[i]) + 2 < ps.len()
}

/// Every coordinate is within the rasterizer's working range.
pub open spec fn positions_in_range(ps: Seq<i64>) -> bool {
    forall|i: int| 0 <= i < ps.len() ==> -MAX_RASTER_COORD <= #[trigger] ps[i] <= MAX_RASTER_COORD
}

/// Gather the triangles of an indexed mesh into a list.
#[verifier::loop_isolation(false)]
fn triangles_from_arrays(positions: &Vec<i64>, indices: &Vec<usize>) -> (ts: Vec<Triangle>)
    requires
        mesh_indices_valid(positions@, indices@),
        positions_in_range(positions@),
    ensures
        ts@.len() == indices@.len() / 3,
        forall|i: int|
            0 <= i < ts@.len() ==> (#[trigger] ts@[i])@ == triangle_at(positions@, indices@, i),
        forall|i: int| 0 <= i < ts@.len() ==> triangle_in_range((#[trigger] ts@[i])@),
{
    let tri_count = indices.len() / 3;
    let pos_len = positions.len();
    let mut ts: Vec<Triangle> = Vec::new();
    let mut i: usize = 0;
    while i < tri_count
        invariant
            i <= tri_count,
            ts@.len() == i,
            forall|k: int|
                0 <= k < i ==> (#[trigger] ts@[k])@ == triangle_at(positions@, indices@, k),
            forall|k: int| 0 <= k < i ==> triangle_in_range((#[trigger] ts@[k])@),
        decreases tri_count - i,
    {
        proof {
            assert(3 * (i as int) + 2 < 3 * (indices@.len() / 3));
        }
        let ia = indices[3 * i];
        let ib = indices[3 * i + 1];
        let ic = indices[3 * i + 2];
        proof {
            assert(3 * (indices@[3 * (i as int)]) + 2 < positions@.len());
            assert(3 * (indices@[3 * (i as int) + 1]) + 2 < positions@.len());
            assert(3 * (indices@[3 * (i as int) + 2]) + 2 < positions@.len());
        }
        let a = Vec3i::new(positions[3 * ia], positions[3 * ia + 1], positions[3 * ia + 2]);
        let b = Vec3i::new(positions[3 * ib], positions[3 * ib + 1], positions[3 * ib + 2]);
        let c = Vec3i::new(positions[3 * ic], positions[3 * ic + 1], positions[3 * ic + 2]);
        ts.push(Triangle::new(a, b, c));
        i = i + 1;
    }
    ts
}

/// Run the whole pass on one sub-mesh: rasterize its triangles at the
/// voxel size of the requested octree depth, then extract the boundary
/// mesh, and report the diagnostic summary alongside. A depth that leaves
/// no positive voxel size is refused up front.
pub fn create_voxelized_mesh(
    positions: &Vec<i64>,
    indices: &Vec<usize>,
    octree_depth: usize,
) -> (r: Result<(BoundaryMesh, VoxelizationSummary), VoxelizationError>)
    requires
        mesh_indices_valid(positions@, indices@),
        positions_in_range(positions@),
    ensures
        r is Ok <==> octree_depth <= MAX_OCTREE_DEPTH,
        r is Err ==> r == Result::<(BoundaryMesh, VoxelizationSummary), VoxelizationError>::Err(
            VoxelizationError::InvalidDepth,
        ),
        r matches Ok(out) ==> ({
            let vsz = spec_voxel_size(octree_depth as int);
            let filled = voxels_of(tri_seq(positions@, indices@), vsz);
            &&& out.1.voxel_size == vsz
            &&& out.1.triangles == indices@.len() / 3
            &&& out.1.voxels == filled.len()
            &&& mesh_wf(out.0)
            &&& exists|items: Seq<(int, int, int)>|
                {
                    &&& (#[trigger] items.to_set()) == filled
                    &&& items.no_duplicates()
                    &&& mesh_quads(out.0, quad_list(items, filled), vsz)
                }
        }),
{
    if octree_depth > MAX_OCTREE_DEPTH {
        return Err(VoxelizationError::InvalidDepth);
    }
    let vs = compute_voxel_size(octree_depth);
    let triangles = triangles_from_arrays(positions, indices);
    let filled = rasterize_triangles(&triangles, vs);
    let voxel_count = filled.len();
    let mesh = extract_boundary_mesh(&filled, vs);
    let summary = VoxelizationSummary {
        triangles: indices.len() / 3,
        voxels: voxel_count,
        voxel_size: vs,
    };
    proof {
        assert(triangles@.map_values(|t: Triangle| t@) =~= tri_seq(positions@, indices@));
        filled.lemma_wf();
        assert(filled.coords().to_set() == voxels_of(
            tri_seq(positions@, indices@),
            vs as int,
        ));
    }
    Ok((mesh, summary))
}

} // verus!
