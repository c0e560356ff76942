//! The coordinate normalizer: rescales and recenters a model so it fits the
//! usable portion of the working volume.
//!
//! A model is a list of sub-meshes, each a flat position array (three
//! subunit coordinates per vertex; a trailing incomplete vertex is ignored
//! and left untouched). The bounding box over all complete vertices gives a
//! center and a largest dimension; every coordinate then becomes
//! `(p - center) * TARGET_SPAN_UNITS / max_dimension`, rounded toward
//! negative infinity, or plainly `p - center` when the box has zero volume
//! (all vertices coincide, so that difference is zero). The center
//! `(min + max) / 2` can lie on a half subunit, so it is carried doubled
//! and the division happens once, at the end: the computed value is
//! `(2 * p - (min + max)) * TARGET_SPAN_UNITS / (2 * max_dimension)`,
//! which keeps every output within half the target span of zero. An input
//! without a single complete vertex is left untouched.

use vstd::prelude::*;
use crate::math::{comp3, spec_min2, spec_max2, spec_max3, max3, floor_div, lemma_div_ratio_bound};
use crate::units::{MAX_INPUT_COORD, TARGET_SPAN_UNITS};

verus! {

/// The flat views of a list of sub-mesh position arrays.
pub open spec fn mesh_views(ms: Seq<Vec<i64>>) -> Seq<Seq<i64>> {
    ms.map_values(|v: Vec<i64>| v@)
}

/// The length of the complete-vertex prefix of a flat position array.
pub open spec fn complete_len(m: Seq<i64>) -> int {
    3 * (m.len() as int / 3)
}

/// Every coordinate of every sub-mesh is within the normalizer's input range.
pub open spec fn coords_bounded(ms: Seq<Seq<i64>>) -> bool {
    forall|j: int, w: int|
        0 <= j < ms.len() && 0 <= w < ms[j].len() ==> -MAX_INPUT_COORD <= #[trigger] (
        ms[j][w]) <= MAX_INPUT_COORD
}

/// Running minimum of axis `k` over the first `n` complete vertices of one
/// sub-mesh, folded from the sentinel `i64::MAX` exactly as a linear scan
/// does.
pub open spec fn mesh_axis_min_upto(m: Seq<i64>, k: int, n: int) -> int
    decreases n,
{
    if n <= 0 {
        i64::MAX as int
    } else {
        let prev = mesh_axis_min_upto(m, k, n - 1);
        let e = m[3 * (n - 1) + k] as int;
        if e < prev {
            e
        } else {
            prev
        }
    }
}

pub open spec fn mesh_axis_min(m: Seq<i64>, k: int) -> int {
    mesh_axis_min_upto(m, k, m.len() as int / 3)
}

/// Running maximum, folded from the sentinel `i64::MIN`.
pub open spec fn mesh_axis_max_upto(m: Seq<i64>, k: int, n: int) -> int
    decreases n,
{
    if n <= 0 {
        i64::MIN as int
    } else {
        let prev = mesh_axis_max_upto(m, k, n - 1);
        let e = m[3 * (n - 1) + k] as int;
        if e > prev {
            e
        } else {
            prev
        }
    }
}

pub open spec fn mesh_axis_max(m: Seq<i64>, k: int) -> int {
    mesh_axis_max_upto(m, k, m.len() as int / 3)
}

/// Minimum of axis `k` over the first `j` sub-meshes.
pub open spec fn axis_min_upto(ms: Seq<Seq<i64>>, k: int, j: int) -> int
    decreases j,
{
    if j <= 0 {
        i64::MAX as int
    } else {
        spec_min2(axis_min_upto(ms, k, j - 1), mesh_axis_min(ms[j - 1], k))
    }
}

/// Minimum of axis `k` over all complete vertices of the model, or the
/// sentinel `i64::MAX` if there is none.
pub open spec fn axis_min(ms: Seq<Seq<i64>>, k: int) -> int {
    axis_min_upto(ms, k, ms.len() as int)
}

pub open spec fn axis_max_upto(ms: Seq<Seq<i64>>, k: int, j: int) -> int
    decreases j,
{
    if j <= 0 {
        i64::MIN as int
    } else {
        spec_max2(axis_max_upto(ms, k, j - 1), mesh_axis_max(ms[j - 1], k))
    }
}

pub open spec fn axis_max(ms: Seq<Seq<i64>>, k: int) -> int {
    axis_max_upto(ms, k, ms.len() as int)
}

/// Whether any sub-mesh holds at least one complete vertex.
pub open spec fn has_vertex(ms: Seq<Seq<i64>>) -> bool {
    exists|j: int| 0 <= j < ms.len() && (#[trigger] ms[j]).len() >= 3
}

/// Twice the bounding-box center of axis `k`. The center itself,
/// `(min + max) / 2`, can lie on a half subunit, so it is carried doubled
/// and exact.
pub open spec fn center_axis2(ms: Seq<Seq<i64>>, k: int) -> int {
    axis_min(ms, k) + axis_max(ms, k)
}

/// The largest bounding-box dimension of the model.
pub open spec fn max_dimension(ms: Seq<Seq<i64>>) -> int {
    spec_max3(
        axis_max(ms, 0) - axis_min(ms, 0),
        axis_max(ms, 1) - axis_min(ms, 1),
        axis_max(ms, 2) - axis_min(ms, 2),
    )
}

/// What one coordinate becomes: recentered on the exact bounding-box
/// midpoint `c2 / 2` and scaled by `TARGET_SPAN_UNITS / m` when the
/// largest dimension `m` is positive (the scale is taken as one when the
/// bounding box has zero volume), rounded toward negative infinity. Both
/// branches divide last, so the half subunit of an odd `c2` is never
/// dropped before scaling.
pub open spec fn normalized_coord(p: int, c2: int, m: int) -> int {
    if m > 0 {
        (2 * p - c2) * TARGET_SPAN_UNITS / (2 * m)
    } else {
        (2 * p - c2) / 2
    }
}

/// The bounding box of a model, with `found` false when no sub-mesh has a
/// complete vertex (the bounds then still hold their sentinel start values).
pub struct ModelBounds {
    pub found: bool,
    pub lo: crate::math::Vec3i,
    pub hi: crate::math::Vec3i,
}

/// Scan all complete vertices for the axis-aligned bounding box.
#[verifier::loop_isolation(false)]
pub fn model_bounds(models: &Vec<Vec<i64>>) -> (r: ModelBounds)
    requires
        coords_bounded(mesh_views(models@)),
    ensures
        ({
            let ms = mesh_views(models@);
            &&& r.found == has_vertex(ms)
            &&& r.lo@ == (axis_min(ms, 0), axis_min(ms, 1), axis_min(ms, 2))
            &&& r.hi@ == (axis_max(ms, 0), axis_max(ms, 1), axis_max(ms, 2))
            &&& forall|j: int, w: int|
                0 <= j < ms.len() && 0 <= w < complete_len(ms[j]) ==> comp3(r.lo@, w % 3) <= (
                #[trigger] ms[j][w]) <= comp3(r.hi@, w % 3)
            &&& r.found ==> {
                &&& -MAX_INPUT_COORD <= r.lo.x <= r.hi.x <= MAX_INPUT_COORD
                &&& -MAX_INPUT_COORD <= r.lo.y <= r.hi.y <= MAX_INPUT_COORD
                &&& -MAX_INPUT_COORD <= r.lo.z <= r.hi.z <= MAX_INPUT_COORD
            }
        }),
{
    let ghost ms = mesh_views(models@);
    let mut min_x: i64 = i64::MAX;
    let mut min_y: i64 = i64::MAX;
    let mut min_z: i64 = i64::MAX;
    let mut max_x: i64 = i64::MIN;
    let mut max_y: i64 = i64::MIN;
    let mut max_z: i64 = i64::MIN;
    let mut any: bool = false;
    let n = models.len();
    let mut j: usize = 0;
    while j < n
        invariant
            j <= n,
            any == exists|jj: int| 0 <= jj < j && (#[trigger] ms[jj]).len() >= 3,
            min_x == axis_min_upto(ms, 0, j as int),
            min_y == axis_min_upto(ms, 1, j as int),
            min_z == axis_min_upto(ms, 2, j as int),
            max_x == axis_max_upto(ms, 0, j as int),
            max_y == axis_max_upto(ms, 1, j as int),
            max_z == axis_max_upto(ms, 2, j as int),
            forall|jj: int, w: int|
                0 <= jj < j && 0 <= w < complete_len(ms[jj]) ==> comp3(
                    (min_x as int, min_y as int, min_z as int),
                    w % 3,
                ) <= (#[trigger] ms[jj][w]) <= comp3((max_x as int, max_y as int, max_z as int), w % 3),
            min_x >= -MAX_INPUT_COORD && min_y >= -MAX_INPUT_COORD && min_z >= -MAX_INPUT_COORD,
            max_x <= MAX_INPUT_COORD && max_y <= MAX_INPUT_COORD && max_z <= MAX_INPUT_COORD,
            any ==> min_x <= max_x && min_y <= max_y && min_z <= max_z && min_x
                <= MAX_INPUT_COORD && min_y <= MAX_INPUT_COORD && min_z <= MAX_INPUT_COORD && max_x
                >= -MAX_INPUT_COORD && max_y >= -MAX_INPUT_COORD && max_z >= -MAX_INPUT_COORD,
        decreases n - j,
    {
        let mesh = &models[j];
        let vcount = mesh.len() / 3;
        assert(vcount == ms[j as int].len() as int / 3);
        let mut i: usize = 0;
        while i < vcount
            invariant
                i <= vcount,
                min_x == spec_min2(
                    axis_min_upto(ms, 0, j as int),
                    mesh_axis_min_upto(ms[j as int], 0, i as int),
                ),
                min_y == spec_min2(
                    axis_min_upto(ms, 1, j as int),
                    mesh_axis_min_upto(ms[j as int], 1, i as int),
                ),
                min_z == spec_min2(
                    axis_min_upto(ms, 2, j as int),
                    mesh_axis_min_upto(ms[j as int], 2, i as int),
                ),
                max_x == spec_max2(
                    axis_max_upto(ms, 0, j as int),
                    mesh_axis_max_upto(ms[j as int], 0, i as int),
                ),
                max_y == spec_max2(
                    axis_max_upto(ms, 1, j as int),
                    mesh_axis_max_upto(ms[j as int], 1, i as int),
                ),
                max_z == spec_max2(
                    axis_max_upto(ms, 2, j as int),
                    mesh_axis_max_upto(ms[j as int], 2, i as int),
                ),
                forall|jj: int, w: int|
                    0 <= jj < j && 0 <= w < complete_len(ms[jj]) ==> comp3(
                        (min_x as int, min_y as int, min_z as int),
                        w % 3,
                    ) <= (#[trigger] ms[jj][w]) <= comp3(
                        (max_x as int, max_y as int, max_z as int),
                        w % 3,
                    ),
                forall|w: int|
                    0 <= w < 3 * i ==> comp3((min_x as int, min_y as int, min_z as int), w % 3) <= (
                    #[trigger] ms[j as int][w]) <= comp3(
                        (max_x as int, max_y as int, max_z as int),
                        w % 3,
                    ),
                min_x >= -MAX_INPUT_COORD && min_y >= -MAX_INPUT_COORD && min_z
                    >= -MAX_INPUT_COORD,
                max_x <= MAX_INPUT_COORD && max_y <= MAX_INPUT_COORD && max_z <= MAX_INPUT_COORD,
                (any || i > 0) ==> min_x <= max_x && min_y <= max_y && min_z <= max_z && min_x
                    <= MAX_INPUT_COORD && min_y <= MAX_INPUT_COORD && min_z <= MAX_INPUT_COORD
                    && max_x >= -MAX_INPUT_COORD && max_y >= -MAX_INPUT_COORD && max_z
                    >= -MAX_INPUT_COORD,
            decreases vcount - i,
        {
            let px = mesh[3 * i];
            let py = mesh[3 * i + 1];
            let pz = mesh[3 * i + 2];
            if px < min_x {
                min_x = px;
            }
            if py < min_y {
                min_y = py;
            }
            if pz < min_z {
                min_z = pz;
            }
            if px > max_x {
                max_x = px;
            }
            if py > max_y {
                max_y = py;
            }
            if pz > max_z {
                max_z = pz;
            }
            i = i + 1;
        }
        if vcount > 0 {
            any = true;
        }
        j = j + 1;
    }
    ModelBounds {
        found: any,
        lo: crate::math::Vec3i { x: min_x, y: min_y, z: min_z },
        hi: crate::math::Vec3i { x: max_x, y: max_y, z: max_z },
    }
}

/// Recenter and rescale one sub-mesh in place: every complete coordinate
/// becomes `normalized_coord` of itself against the doubled axis centers
/// in `center2`; a trailing incomplete vertex is left untouched.
#[verifier::loop_isolation(false)]
pub fn scale_mesh(mesh: &mut Vec<i64>, center2: crate::math::Vec3i, m: i64)
    requires
        forall|w: int|
            0 <= w < old(mesh)@.len() ==> -MAX_INPUT_COORD <= #[trigger] (old(mesh)@[w])
                <= MAX_INPUT_COORD,
        -2 * MAX_INPUT_COORD <= center2.x <= 2 * MAX_INPUT_COORD,
        -2 * MAX_INPUT_COORD <= center2.y <= 2 * MAX_INPUT_COORD,
        -2 * MAX_INPUT_COORD <= center2.z <= 2 * MAX_INPUT_COORD,
        0 <= m <= 2 * MAX_INPUT_COORD,
        forall|w: int|
            0 <= w < complete_len(old(mesh)@) ==> comp3(center2@, w % 3) - m <= 2 * #[trigger] (
            old(mesh)@[w]) <= comp3(center2@, w % 3) + m,
    ensures
        final(mesh)@.len() == old(mesh)@.len(),
        forall|w: int|
            0 <= w < complete_len(old(mesh)@) ==> #[trigger] (final(mesh)@[w]) == normalized_coord(
                old(mesh)@[w] as int,
                comp3(center2@, w % 3),
                m as int,
            ),
        forall|w: int|
            complete_len(old(mesh)@) <= w < old(mesh)@.len() ==> #[trigger] (final(mesh)@[w])
                == old(mesh)@[w],
        forall|w: int|
            0 <= w < complete_len(old(mesh)@) ==> -(TARGET_SPAN_UNITS / 2) <= #[trigger] (
            final(mesh)@[w]) <= TARGET_SPAN_UNITS / 2,
{
    let vcount = mesh.len() / 3;
    let mut i: usize = 0;
    while i < vcount
        invariant
            i <= vcount,
            mesh@.len() == old(mesh)@.len(),
            forall|w: int|
                3 * i <= w < old(mesh)@.len() ==> #[trigger] (mesh@[w]) == old(mesh)@[w],
            forall|w: int|
                0 <= w < 3 * i ==> #[trigger] (mesh@[w]) == normalized_coord(
                    old(mesh)@[w] as int,
                    comp3(center2@, w % 3),
                    m as int,
                ),
            forall|w: int|
                0 <= w < 3 * i ==> -(TARGET_SPAN_UNITS / 2) <= #[trigger] (mesh@[w])
                    <= TARGET_SPAN_UNITS / 2,
        decreases vcount - i,
    {
        let px = mesh[3 * i];
        let py = mesh[3 * i + 1];
        let pz = mesh[3 * i + 2];
        let ox = scale_coord(px, center2.x, m);
        let oy = scale_coord(py, center2.y, m);
        let oz = scale_coord(pz, center2.z, m);
        let idx = 3 * i;
        mesh[idx] = ox;
        mesh[idx + 1] = oy;
        mesh[idx + 2] = oz;
        proof {
            assert((3 * i) % 3 == 0 && (3 * i + 1) % 3 == 1 && (3 * i + 2) % 3 == 2);
        }
        i = i + 1;
    }
}

/// Normalize one coordinate against the doubled center `c2` of its axis
/// and the model's largest dimension.
fn scale_coord(p: i64, c2: i64, m: i64) -> (r: i64)
    requires
        -MAX_INPUT_COORD <= p <= MAX_INPUT_COORD,
        -2 * MAX_INPUT_COORD <= c2 <= 2 * MAX_INPUT_COORD,
        0 <= m <= 2 * MAX_INPUT_COORD,
        c2 - m <= 2 * p <= c2 + m,
    ensures
        r == normalized_coord(p as int, c2 as int, m as int),
        -(TARGET_SPAN_UNITS / 2) <= r <= TARGET_SPAN_UNITS / 2,
{
    let d = 2 * p - c2;
    if m > 0 {
        let num = d * TARGET_SPAN_UNITS;
        proof {
            lemma_div_ratio_bound(num as int, 2 * m as int, TARGET_SPAN_UNITS as int / 2);
        }
        floor_div(num, 2 * m)
    } else {
        // the vertices coincide on every axis, so the offset is zero
        floor_div(d, 2)
    }
}

/// Normalize a whole model in place, as the contract of the coordinate
/// normalizer describes: a model without a complete vertex is left
/// untouched; otherwise every complete coordinate is recentered on the
/// exact bounding-box center and scaled into the usable working span,
/// landing within half the target span of the origin.
#[verifier::loop_isolation(false)]
pub fn normalize_models(models: &mut Vec<Vec<i64>>)
    requires
        coords_bounded(mesh_views(old(models)@)),
    ensures
        ({
            let ms = mesh_views(old(models)@);
            &&& final(models)@.len() == ms.len()
            &&& forall|j: int|
                0 <= j < ms.len() ==> (#[trigger] final(models)@[j])@.len() == ms[j].len()
            &&& !has_vertex(ms) ==> final(models)@ == old(models)@
            &&& has_vertex(ms) ==> forall|j: int, w: int|
                0 <= j < ms.len() && 0 <= w < ms[j].len() ==> #[trigger] (final(models)@[j]@[w])
                    == if w < complete_len(ms[j]) {
                    normalized_coord(ms[j][w] as int, center_axis2(ms, w % 3), max_dimension(ms))
                } else {
                    ms[j][w] as int
                }
            &&& has_vertex(ms) ==> forall|j: int, w: int|
                0 <= j < ms.len() && 0 <= w < complete_len(ms[j]) ==> -(TARGET_SPAN_UNITS / 2) <= (
                #[trigger] final(models)@[j]@[w]) <= TARGET_SPAN_UNITS / 2
        }),
{
    let ghost ms = mesh_views(old(models)@);
    let b = model_bounds(models);
    if !b.found {
        return ;
    }
    let cx2 = b.lo.x + b.hi.x;
    let cy2 = b.lo.y + b.hi.y;
    let cz2 = b.lo.z + b.hi.z;
    let sx = b.hi.x - b.lo.x;
    let sy = b.hi.y - b.lo.y;
    let sz = b.hi.z - b.lo.z;
    let m = max3(sx, sy, sz);
    proof {
        assert(cx2 == center_axis2(ms, 0));
        assert(cy2 == center_axis2(ms, 1));
        assert(cz2 == center_axis2(ms, 2));
        assert(m == max_dimension(ms));
    }
    let center2 = crate::math::Vec3i { x: cx2, y: cy2, z: cz2 };
    let n = models.len();
    let mut j: usize = 0;
    while j < n
        invariant
            j <= n,
            models@.len() == ms.len(),
            forall|jj: int| j <= jj < ms.len() ==> #[trigger] (models@[jj])@ == ms[jj],
            forall|jj: int| 0 <= jj < j ==> (#[trigger] models@[jj])@.len() == ms[jj].len(),
            forall|jj: int, w: int|
                0 <= jj < j && 0 <= w < ms[jj].len() ==> #[trigger] (models@[jj]@[w])
                    == if w < complete_len(ms[jj]) {
                    normalized_coord(ms[jj][w] as int, center_axis2(ms, w % 3), max_dimension(ms))
                } else {
                    ms[jj][w] as int
                },
            forall|jj: int, w: int|
                0 <= jj < j && 0 <= w < complete_len(ms[jj]) ==> -(TARGET_SPAN_UNITS / 2) <= (
                #[trigger] models@[jj]@[w]) <= TARGET_SPAN_UNITS / 2,
        decreases n - j,
    {
        proof {
            assert(models@[j as int]@ == ms[j as int]);
            assert forall|w: int| 0 <= w < complete_len(ms[j as int]) implies comp3(
                center2@,
                w % 3,
            ) - m <= 2 * #[trigger] (ms[j as int][w]) <= comp3(center2@, w % 3) + m by {
                assert(comp3(b.lo@, w % 3) <= ms[j as int][w] <= comp3(b.hi@, w % 3));
            }
        }
        scale_mesh(&mut models[j], center2, m);
        j = j + 1;
    }
}

} // verus!
