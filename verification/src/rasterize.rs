//! The voxel rasterizer: turns normalized triangles into occupied voxels.
//!
//! For each triangle, its axis-aligned bounding box is converted to an
//! inclusive voxel index range (floor of the minimum, ceiling of the
//! maximum, divided by the voxel size), clamped to the working volume, and
//! every voxel in the range whose sample point lies near the triangle's
//! plane is filled. The nearness test is the plane-distance heuristic
//! `|dot(sample - t.0, n̂)| <= 0.87 * voxel_size` — an over-approximation
//! that accepts any voxel near the infinite plane within the box — written
//! below in an exact squared integer form. Degenerate triangles with a zero
//! cross product fill nothing.
//!
//! A voxel's sample point is the center of the cell it labels,
//! `(coordinate + 0.5) * voxel_size` on each axis.

use vstd::prelude::*;
use crate::math::{
    Vec3i, sub3, cross3, dot3, norm2, spec_min3, spec_max3, ceil_div, min3, max3, floor_div,
    ceil_div_exec, lemma_mul_bounds, lemma_scaled_index_bound,
};
use crate::voxel_set::{VoxelSet, VoxelCoord};
use crate::units::{UNITS_PER_WORLD, WORLD_SPAN_UNITS, MAX_RASTER_COORD};

verus! {

/// A triangle: three points in fixed-point subunits.
#[derive(Clone, Copy, PartialEq, Eq, Structural, Debug)]
pub struct Triangle {
    pub a: Vec3i,
    pub b: Vec3i,
    pub c: Vec3i,
}

impl View for Triangle {
    type V = ((int, int, int), (int, int, int), (int, int, int));

    open spec fn view(&self) -> ((int, int, int), (int, int, int), (int, int, int)) {
        (self.a@, self.b@, self.c@)
    }
}

impl Triangle {
    pub fn new(a: Vec3i, b: Vec3i, c: Vec3i) -> (t: Triangle)
        ensures
            t@ == (a@, b@, c@),
    {
        Triangle { a, b, c }
    }
}

pub open spec fn point_in_range(p: (int, int, int)) -> bool {
    &&& -MAX_RASTER_COORD <= p.0 <= MAX_RASTER_COORD
    &&& -MAX_RASTER_COORD <= p.1 <= MAX_RASTER_COORD
    &&& -MAX_RASTER_COORD <= p.2 <= MAX_RASTER_COORD
}

pub open spec fn triangle_in_range(t: ((int, int, int), (int, int, int), (int, int, int))) -> bool {
    point_in_range(t.0) && point_in_range(t.1) && point_in_range(t.2)
}

/// The triangle's plane normal: the cross product of two edge vectors,
/// left unnormalized.
pub open spec fn tri_normal(t: ((int, int, int), (int, int, int), (int, int, int))) -> (
    int,
    int,
    int,
) {
    cross3(sub3(t.1, t.0), sub3(t.2, t.0))
}

/// The largest voxel index of the working volume at voxel size `vs`.
pub open spec fn max_voxel_index(vs: int) -> int
    recommends
        vs >= 1,
{
    UNITS_PER_WORLD as int / vs
}

/// A bounding-box minimum in subunits, floored to a voxel index and clamped
/// from below to the working volume.
pub open spec fn clamped_lo(lo_units: int, vs: int) -> int
    recommends
        vs >= 1,
{
    let d = lo_units / vs;
    if d < -max_voxel_index(vs) {
        -max_voxel_index(vs)
    } else {
        d
    }
}

/// A bounding-box maximum in subunits, raised to a voxel index and clamped
/// from above to the working volume.
pub open spec fn clamped_hi(hi_units: int, vs: int) -> int
    recommends
        vs >= 1,
{
    let d = ceil_div(hi_units, vs);
    if d > max_voxel_index(vs) {
        max_voxel_index(vs)
    } else {
        d
    }
}

/// Whether voxel `v` lies in the clamped voxel range of `t`'s bounding box.
pub open spec fn in_clamped_box(
    t: ((int, int, int), (int, int, int), (int, int, int)),
    vs: int,
    v: (int, int, int),
) -> bool {
    &&& clamped_lo(spec_min3(t.0.0, t.1.0, t.2.0), vs) <= v.0 <= clamped_hi(
        spec_max3(t.0.0, t.1.0, t.2.0),
        vs,
    )
    &&& clamped_lo(spec_min3(t.0.1, t.1.1, t.2.1), vs) <= v.1 <= clamped_hi(
        spec_max3(t.0.1, t.1.1, t.2.1),
        vs,
    )
    &&& clamped_lo(spec_min3(t.0.2, t.1.2, t.2.2), vs) <= v.2 <= clamped_hi(
        spec_max3(t.0.2, t.1.2, t.2.2),
        vs,
    )
}

/// Twice the (unnormalized) signed plane distance numerator:
/// `dot(2 * sample(v) - 2 * t.0, n)`, doubled so the half-unit sample
/// offset stays integral.
pub open spec fn plane_dot2(
    t: ((int, int, int), (int, int, int), (int, int, int)),
    vs: int,
    v: (int, int, int),
) -> int {
    dot3(
        ((2 * v.0 + 1) * vs - 2 * t.0.0, (2 * v.1 + 1) * vs - 2 * t.0.1, (2 * v.2 + 1) * vs - 2
            * t.0.2),
        tri_normal(t),
    )
}

/// The plane-distance heuristic, squared and scaled to integers:
/// `|d| <= 0.87 * vs * |n|` with `d = plane_dot2 / 2` becomes
/// `10000 * plane_dot2² <= 4 * 87² * vs² * |n|²`.
pub open spec fn near_plane(
    t: ((int, int, int), (int, int, int), (int, int, int)),
    vs: int,
    v: (int, int, int),
) -> bool {
    let d = plane_dot2(t, vs, v);
    10000 * (d * d) <= 30276 * vs * vs * norm2(tri_normal(t))
}

/// Whether the rasterizer fills voxel `v` for triangle `t` at voxel size
/// `vs`: the triangle is non-degenerate, `v` lies in the clamped box, and
/// the sample point is near the plane.
pub open spec fn covers(
    t: ((int, int, int), (int, int, int), (int, int, int)),
    vs: int,
    v: (int, int, int),
) -> bool {
    &&& tri_normal(t) != (0int, 0int, 0int)
    &&& in_clamped_box(t, vs, v)
    &&& near_plane(t, vs, v)
}

/// The set of voxels filled by a sequence of triangles: a voxel is filled
/// exactly when some triangle covers it.
pub open spec fn voxels_of(
    ts: Seq<((int, int, int), (int, int, int), (int, int, int))>,
    vs: int,
) -> Set<(int, int, int)> {
    Set::new(|v: (int, int, int)| exists|i: int| 0 <= i < ts.len() && covers(ts[i], vs, v))
}

/// Determinism of content: the voxels filled by a sequence of triangles
/// depend only on which triangles it holds, never on their order or
/// repetition — two sequences holding the same set of triangles fill
/// exactly the same voxel set.
pub proof fn lemma_rasterization_order_independent(
    ts1: Seq<((int, int, int), (int, int, int), (int, int, int))>,
    ts2: Seq<((int, int, int), (int, int, int), (int, int, int))>,
    vs: int,
)
    requires
        ts1.to_set() == ts2.to_set(),
    ensures
        voxels_of(ts1, vs) == voxels_of(ts2, vs),
{
    assert forall|v: (int, int, int)| voxels_of(ts1, vs).contains(v) implies voxels_of(
        ts2,
        vs,
    ).contains(v) by {
        let i = choose|i: int| 0 <= i < ts1.len() && covers(ts1[i], vs, v);
        assert(ts1.contains(ts1[i]));
        assert(ts2.to_set().contains(ts1[i]));
        let j = choose|j: int| 0 <= j < ts2.len() && ts2[j] == ts1[i];
        assert(covers(ts2[j], vs, v));
    }
    assert forall|v: (int, int, int)| voxels_of(ts2, vs).contains(v) implies voxels_of(
        ts1,
        vs,
    ).contains(v) by {
        let i = choose|i: int| 0 <= i < ts2.len() && covers(ts2[i], vs, v);
        assert(ts2.contains(ts2[i]));
        assert(ts1.to_set().contains(ts2[i]));
        let j = choose|j: int| 0 <= j < ts1.len() && ts1[j] == ts2[i];
        assert(covers(ts1[j], vs, v));
    }
    assert(voxels_of(ts1, vs) =~= voxels_of(ts2, vs));
}

/// Rasterize one triangle into the shared voxel set: afterwards a voxel is
/// present exactly when it was present before or the triangle covers it.
#[verifier::loop_isolation(false)]
#[verifier::rlimit(60)]
pub fn voxelize_triangle(t: &Triangle, vs: i64, filled: &mut VoxelSet)
    requires
        1 <= vs <= WORLD_SPAN_UNITS,
        triangle_in_range(t@),
        old(filled).wf(),
    ensures
        final(filled).wf(),
        forall|v: (int, int, int)|
            final(filled)@.contains(v) <==> old(filled)@.contains(v) || covers(t@, vs as int, v),
{
    // bounding box of the triangle, in subunits
    let min_x = min3(t.a.x, t.b.x, t.c.x);
    let min_y = min3(t.a.y, t.b.y, t.c.y);
    let min_z = min3(t.a.z, t.b.z, t.c.z);
    let max_x = max3(t.a.x, t.b.x, t.c.x);
    let max_y = max3(t.a.y, t.b.y, t.c.y);
    let max_z = max3(t.a.z, t.b.z, t.c.z);

    // working-volume bound on voxel indices
    let max_idx: i64 = ((UNITS_PER_WORLD as u64) / (vs as u64)) as i64;
    proof {
        vstd::arithmetic::div_mod::lemma_div_pos_is_pos(UNITS_PER_WORLD as int, vs as int);
        vstd::arithmetic::div_mod::lemma_div_nonincreasing(UNITS_PER_WORLD as int, vs as int);
    }
    assert(0 <= max_idx <= UNITS_PER_WORLD);
    assert(max_idx == max_voxel_index(vs as int));

    // inclusive voxel index range, clamped
    let fx = floor_div(min_x, vs);
    let lo_x = if fx < -max_idx {
        -max_idx
    } else {
        fx
    };
    let fy = floor_div(min_y, vs);
    let lo_y = if fy < -max_idx {
        -max_idx
    } else {
        fy
    };
    let fz = floor_div(min_z, vs);
    let lo_z = if fz < -max_idx {
        -max_idx
    } else {
        fz
    };
    let cx = ceil_div_exec(max_x, vs);
    let hi_x = if cx > max_idx {
        max_idx
    } else {
        cx
    };
    let cy = ceil_div_exec(max_y, vs);
    let hi_y = if cy > max_idx {
        max_idx
    } else {
        cy
    };
    let cz = ceil_div_exec(max_z, vs);
    let hi_z = if cz > max_idx {
        max_idx
    } else {
        cz
    };
    assert(lo_x == clamped_lo(spec_min3(t@.0.0, t@.1.0, t@.2.0), vs as int));
    assert(hi_x == clamped_hi(spec_max3(t@.0.0, t@.1.0, t@.2.0), vs as int));
    assert(lo_y == clamped_lo(spec_min3(t@.0.1, t@.1.1, t@.2.1), vs as int));
    assert(hi_y == clamped_hi(spec_max3(t@.0.1, t@.1.1, t@.2.1), vs as int));
    assert(lo_z == clamped_lo(spec_min3(t@.0.2, t@.1.2, t@.2.2), vs as int));
    assert(hi_z == clamped_hi(spec_max3(t@.0.2, t@.1.2, t@.2.2), vs as int));

    // plane normal via the cross product of two edge vectors
    let e1x = t.b.x - t.a.x;
    let e1y = t.b.y - t.a.y;
    let e1z = t.b.z - t.a.z;
    let e2x = t.c.x - t.a.x;
    let e2y = t.c.y - t.a.y;
    let e2z = t.c.z - t.a.z;
    proof {
        lemma_mul_bounds(e1y as int, e2z as int, 131072, 131072);
        lemma_mul_bounds(e1z as int, e2y as int, 131072, 131072);
        lemma_mul_bounds(e1z as int, e2x as int, 131072, 131072);
        lemma_mul_bounds(e1x as int, e2z as int, 131072, 131072);
        lemma_mul_bounds(e1x as int, e2y as int, 131072, 131072);
        lemma_mul_bounds(e1y as int, e2x as int, 131072, 131072);
    }
    let nx = e1y * e2z - e1z * e2y;
    let ny = e1z * e2x - e1x * e2z;
    let nz = e1x * e2y - e1y * e2x;
    assert((nx as int, ny as int, nz as int) == tri_normal(t@));

    if nx == 0 && ny == 0 && nz == 0 {
        // degenerate triangle: fill nothing
        return ;
    }
    proof {
        lemma_mul_bounds(nx as int, nx as int, 34359738368, 34359738368);
        lemma_mul_bounds(ny as int, ny as int, 34359738368, 34359738368);
        lemma_mul_bounds(nz as int, nz as int, 34359738368, 34359738368);
    }
    let n2: i128 = (nx as i128) * (nx as i128) + (ny as i128) * (ny as i128) + (nz as i128) * (
    nz as i128);
    assert(n2 == norm2(tri_normal(t@)));
    let c1: i128 = 30276 * (vs as i128);
    proof {
        lemma_mul_bounds(c1 as int, vs as int, 248020992, 8192);
    }
    let c2: i128 = c1 * (vs as i128);
    proof {
        lemma_mul_bounds(c2 as int, n2 as int, 248020992int * 8192, 3int * 1180591620717411303424);
    }
    let rhs: i128 = c2 * n2;
    assert(rhs == 30276 * (vs as int) * (vs as int) * norm2(tri_normal(t@)));

    if lo_x <= hi_x && lo_y <= hi_y && lo_z <= hi_z {
        let mut x = lo_x;
        while x <= hi_x
            invariant
                filled.wf(),
                lo_x <= x <= hi_x + 1,
                forall|v: (int, int, int)|
                    filled@.contains(v) <==> old(filled)@.contains(v) || (covers(t@, vs as int, v)
                        && v.0 < x),
            decreases hi_x + 1 - x,
        {
            let mut y = lo_y;
            while y <= hi_y
                invariant
                    filled.wf(),
                    lo_x <= x <= hi_x,
                    lo_y <= y <= hi_y + 1,
                    forall|v: (int, int, int)|
                        filled@.contains(v) <==> old(filled)@.contains(v) || (covers(
                            t@,
                            vs as int,
                            v,
                        ) && (v.0 < x || (v.0 == x && v.1 < y))),
                decreases hi_y + 1 - y,
            {
                let mut z = lo_z;
                while z <= hi_z
                    invariant
                        filled.wf(),
                        lo_x <= x <= hi_x,
                        lo_y <= y <= hi_y,
                        lo_z <= z <= hi_z + 1,
                        forall|v: (int, int, int)|
                            filled@.contains(v) <==> old(filled)@.contains(v) || (covers(
                                t@,
                                vs as int,
                                v,
                            ) && (v.0 < x || (v.0 == x && v.1 < y) || (v.0 == x && v.1 == y && v.2
                                < z))),
                    decreases hi_z + 1 - z,
                {
                    // the voxel's sample point, doubled: (2 * index + 1) * vs
                    proof {
                        lemma_scaled_index_bound(x as int, vs as int, UNITS_PER_WORLD as int);
                        lemma_scaled_index_bound(y as int, vs as int, UNITS_PER_WORLD as int);
                        lemma_scaled_index_bound(z as int, vs as int, UNITS_PER_WORLD as int);
                        assert((2 * x + 1) * vs == 2 * (x * vs) + vs) by (nonlinear_arith);
                        assert((2 * y + 1) * vs == 2 * (y * vs) + vs) by (nonlinear_arith);
                        assert((2 * z + 1) * vs == 2 * (z * vs) + vs) by (nonlinear_arith);
                    }
                    let sx = 2 * (x * vs) + vs;
                    let sy = 2 * (y * vs) + vs;
                    let sz = 2 * (z * vs) + vs;
                    let dx = sx - 2 * t.a.x;
                    let dy = sy - 2 * t.a.y;
                    let dz = sz - 2 * t.a.z;
                    proof {
                        lemma_mul_bounds(dx as int, nx as int, 262144, 34359738368);
                        lemma_mul_bounds(dy as int, ny as int, 262144, 34359738368);
                        lemma_mul_bounds(dz as int, nz as int, 262144, 34359738368);
                    }
                    let dn: i128 = (dx as i128) * (nx as i128) + (dy as i128) * (ny as i128) + (
                    dz as i128) * (nz as i128);
                    assert(dn == plane_dot2(t@, vs as int, (x as int, y as int, z as int)));
                    proof {
                        lemma_mul_bounds(
                            dn as int,
                            dn as int,
                            36028797018963968,
                            36028797018963968,
                        );
                    }
                    let lhs: i128 = 10000 * (dn * dn);
                    if lhs <= rhs {
                        let ghost pre = filled@;
                        filled.insert(VoxelCoord::new(x, y, z));
                        proof {
                            let w = (x as int, y as int, z as int);
                            assert(covers(t@, vs as int, w));
                            assert(filled@ == pre.insert(w));
                        }
                    } else {
                        proof {
                            assert(!near_plane(t@, vs as int, (x as int, y as int, z as int)));
                        }
                    }
                    z = z + 1;
                }
                y = y + 1;
            }
            x = x + 1;
        }
    }
}

/// Rasterize a sequence of triangles into a fresh voxel set. The result is
/// `voxels_of` the triangles: a pure function of the triangle set, so the
/// outcome does not depend on processing order and is identical across
/// repeated runs.
#[verifier::loop_isolation(false)]
pub fn rasterize_triangles(triangles: &Vec<Triangle>, vs: i64) -> (filled: VoxelSet)
    requires
        1 <= vs <= WORLD_SPAN_UNITS,
        forall|i: int| 0 <= i < triangles@.len() ==> triangle_in_range(#[trigger] triangles@[i]@),
    ensures
        filled.wf(),
        filled@ == voxels_of(triangles@.map_values(|t: Triangle| t@), vs as int),
{
    let ghost views = triangles@.map_values(|t: Triangle| t@);
    let mut filled = VoxelSet::new();
    let n = triangles.len();
    let mut i: usize = 0;
    while i < n
        invariant
            i <= n,
            filled.wf(),
            forall|v: (int, int, int)|
                filled@.contains(v) <==> exists|j: int| 0 <= j < i && covers(views[j], vs as int, v),
        decreases n - i,
    {
        let ghost pre = filled@;
        voxelize_triangle(&triangles[i], vs, &mut filled);
        proof {
            assert forall|v: (int, int, int)| filled@.contains(v) implies exists|j: int|
                0 <= j < i + 1 && covers(views[j], vs as int, v) by {
                if pre.contains(v) {
                    let j = choose|j: int| 0 <= j < i && covers(views[j], vs as int, v);
                    assert(covers(views[j], vs as int, v));
                } else {
                    assert(covers(views[i as int], vs as int, v));
                }
            }
            assert forall|v: (int, int, int)|
                exists|j: int|
                    0 <= j < i + 1 && covers(views[j], vs as int, v) implies filled@.contains(
                v,
            ) by {
                let j = choose|j: int| 0 <= j < i + 1 && covers(views[j], vs as int, v);
                if j < i {
                    assert(pre.contains(v));
                }
            }
        }
        i = i + 1;
    }
    proof {
        assert(filled@ =~= voxels_of(views, vs as int));
    }
    filled
}

} // verus!
