//! The boundary mesh extractor: re-extracts a renderable surface from the
//! occupied voxel set, emitting only faces that border empty space.
//!
//! For every occupied voxel its six axis-aligned neighbors are tested; each
//! absent neighbor yields one quad (four vertices, two triangles wound
//! counter-clockwise as seen from outside) on that face of the voxel's
//! cube, all four vertices sharing the face's outward unit normal and the
//! unit-square texture corners in a fixed order. A voxel surrounded on all
//! six sides emits nothing.
//!
//! The cube of voxel `v` spans `[v * vs, (v + 1) * vs]` on each axis — the
//! cell that the rasterizer's sample point `(v + 0.5) * vs` is the center
//! of, so both stages use one cell convention.

use vstd::prelude::*;
use crate::math::{Vec3i, lemma_mul_bounds};
use crate::voxel_set::{VoxelSet, VoxelCoord, coord_in_bounds};
use crate::units::WORLD_SPAN_UNITS;

verus! {

/// A texture coordinate pair; each component is zero or one.
#[derive(Clone, Copy, PartialEq, Eq, Structural, Debug)]
pub struct Uv {
    pub u: u8,
    pub v: u8,
}

impl View for Uv {
    type V = (int, int);

    open spec fn view(&self) -> (int, int) {
        (self.u as int, self.v as int)
    }
}

/// The extracted surface: aligned vertex attributes and a triangle index
/// list, three indices per triangle.
#[derive(Debug)]
pub struct BoundaryMesh {
    pub positions: Vec<Vec3i>,
    pub normals: Vec<Vec3i>,
    pub uvs: Vec<Uv>,
    pub indices: Vec<usize>,
}

/// The neighbor of voxel `v` across face `f`; faces are numbered
/// +X, -X, +Y, -Y, +Z, -Z.
pub open spec fn face_neighbor(v: (int, int, int), f: int) -> (int, int, int) {
    if f == 0 {
        (v.0 + 1, v.1, v.2)
    } else if f == 1 {
        (v.0 - 1, v.1, v.2)
    } else if f == 2 {
        (v.0, v.1 + 1, v.2)
    } else if f == 3 {
        (v.0, v.1 - 1, v.2)
    } else if f == 4 {
        (v.0, v.1, v.2 + 1)
    } else {
        (v.0, v.1, v.2 - 1)
    }
}

/// The outward unit normal of face `f`.
pub open spec fn face_normal(f: int) -> (int, int, int) {
    if f == 0 {
        (1int, 0int, 0int)
    } else if f == 1 {
        (-1int, 0int, 0int)
    } else if f == 2 {
        (0int, 1int, 0int)
    } else if f == 3 {
        (0int, -1int, 0int)
    } else if f == 4 {
        (0int, 0int, 1int)
    } else {
        (0int, 0int, -1int)
    }
}

/// Whether `n` is one of the six axis-aligned unit vectors.
pub open spec fn is_axis_unit(n: (int, int, int)) -> bool {
    ||| n == (1int, 0int, 0int)
    ||| n == (-1int, 0int, 0int)
    ||| n == (0int, 1int, 0int)
    ||| n == (0int, -1int, 0int)
    ||| n == (0int, 0int, 1int)
    ||| n == (0int, 0int, -1int)
}

/// The offsets of the cube's eight corners, in cube edge lengths.
pub open spec fn corner_offset(k: int) -> (int, int, int) {
    if k == 0 {
        (0int, 0int, 0int)
    } else if k == 1 {
        (1int, 0int, 0int)
    } else if k == 2 {
        (1int, 0int, 1int)
    } else if k == 3 {
        (0int, 0int, 1int)
    } else if k == 4 {
        (0int, 1int, 0int)
    } else if k == 5 {
        (1int, 1int, 0int)
    } else if k == 6 {
        (1int, 1int, 1int)
    } else {
        (0int, 1int, 1int)
    }
}

/// The corner index table: corner `j` of face `f`'s quad, in emission order.
pub open spec fn face_corner(f: int, j: int) -> int {
    if f == 0 {
        if j == 0 {
            1int
        } else if j == 1 {
            2int
        } else if j == 2 {
            6int
        } else {
            5int
        }
    } else if f == 1 {
        if j == 0 {
            0int
        } else if j == 1 {
            4int
        } else if j == 2 {
            7int
        } else {
            3int
        }
    } else if f == 2 {
        if j == 0 {
            4int
        } else if j == 1 {
            5int
        } else if j == 2 {
            6int
        } else {
            7int
        }
    } else if f == 3 {
        if j == 0 {
            0int
        } else if j == 1 {
            3int
        } else if j == 2 {
            2int
        } else {
            1int
        }
    } else if f == 4 {
        if j == 0 {
            3int
        } else if j == 1 {
            7int
        } else if j == 2 {
            6int
        } else {
            2int
        }
    } else {
        if j == 0 {
            0int
        } else if j == 1 {
            1int
        } else if j == 2 {
            5int
        } else {
            4int
        }
    }
}

/// Corner `k` of the cube of voxel `v`, in subunits.
pub open spec fn corner_pos(v: (int, int, int), vs: int, k: int) -> (int, int, int) {
    (
        v.0 * vs + corner_offset(k).0 * vs,
        v.1 * vs + corner_offset(k).1 * vs,
        v.2 * vs + corner_offset(k).2 * vs,
    )
}

/// The position of vertex `j` of the quad on face `f` of voxel `v`.
pub open spec fn quad_pos(v: (int, int, int), vs: int, f: int, j: int) -> (int, int, int) {
    corner_pos(v, vs, face_corner(f, j))
}

/// The texture corner of vertex `j` of a quad.
pub open spec fn quad_uv(j: int) -> (int, int) {
    if j == 0 {
        (0int, 0int)
    } else if j == 1 {
        (1int, 0int)
    } else if j == 2 {
        (1int, 1int)
    } else {
        (0int, 1int)
    }
}

/// A face of an occupied voxel is exposed when the neighbor across it is
/// not occupied.
pub open spec fn exposed(s: Set<(int, int, int)>, v: (int, int, int), f: int) -> bool {
    s.contains(v) && !s.contains(face_neighbor(v, f))
}

/// The (voxel, face) pairs emitted for voxel `v` among faces `0..f`, in
/// face order.
pub open spec fn voxel_faces_upto(s: Set<(int, int, int)>, v: (int, int, int), f: int) -> Seq<
    ((int, int, int), int),
>
    decreases f,
{
    if f <= 0 {
        Seq::empty()
    } else {
        voxel_faces_upto(s, v, f - 1) + (if !s.contains(face_neighbor(v, f - 1)) {
            seq![(v, f - 1)]
        } else {
            Seq::empty()
        })
    }
}

/// All (voxel, face) pairs the extractor emits for the voxels of `items`,
/// in order.
pub open spec fn quad_list(items: Seq<(int, int, int)>, s: Set<(int, int, int)>) -> Seq<
    ((int, int, int), int),
>
    decreases items.len(),
{
    if items.len() == 0 {
        Seq::empty()
    } else {
        quad_list(items.drop_last(), s) + voxel_faces_upto(s, items.last(), 6)
    }
}

/// The mesh holds exactly the quads of `pairs`, in order: one quad is four
/// consecutive positions at the face's corners, four copies of the face's
/// outward normal, the four unit-square texture corners, and six indices
/// forming the two triangles `(0, 2, 1)` and `(0, 3, 2)` over its corners.
pub open spec fn mesh_quads(
    m: BoundaryMesh,
    pairs: Seq<((int, int, int), int)>,
    vs: int,
) -> bool {
    &&& m.positions@.len() == 4 * pairs.len()
    &&& m.normals@.len() == 4 * pairs.len()
    &&& m.uvs@.len() == 4 * pairs.len()
    &&& m.indices@.len() == 6 * pairs.len()
    &&& forall|q: int, j: int|
        0 <= q < pairs.len() && 0 <= j < 4 ==> (#[trigger] m.positions@[4 * q + j])@ == quad_pos(
            pairs[q].0,
            vs,
            pairs[q].1,
            j,
        )
    &&& forall|q: int, j: int|
        0 <= q < pairs.len() && 0 <= j < 4 ==> (#[trigger] m.normals@[4 * q + j])@ == face_normal(
            pairs[q].1,
        )
    &&& forall|q: int, j: int|
        0 <= q < pairs.len() && 0 <= j < 4 ==> (#[trigger] m.uvs@[4 * q + j])@ == quad_uv(j)
    &&& forall|q: int|
        0 <= q < pairs.len() ==> {
            &&& (#[trigger] m.indices@[6 * q]) == 4 * q
            &&& m.indices@[6 * q + 1] == 4 * q + 2
            &&& m.indices@[6 * q + 2] == 4 * q + 1
            &&& m.indices@[6 * q + 3] == 4 * q
            &&& m.indices@[6 * q + 4] == 4 * q + 3
            &&& m.indices@[6 * q + 5] == 4 * q + 2
        }
}

/// The four aligned attribute sequences have one entry per vertex, the
/// index count is a whole number of triangles, and every index refers to a
/// vertex.
pub open spec fn mesh_wf(m: BoundaryMesh) -> bool {
    &&& m.positions@.len() == m.normals@.len()
    &&& m.positions@.len() == m.uvs@.len()
    &&& m.indices@.len() % 3 == 0
    &&& forall|i: int| 0 <= i < m.indices@.len() ==> (#[trigger] m.indices@[i]) < m.positions@.len()
}

/// Index validity: a mesh that holds a list of quads has aligned attribute
/// sequences, an index count that is a multiple of three, and every index
/// below the number of positions.
pub proof fn lemma_quad_mesh_indices_valid(
    m: BoundaryMesh,
    pairs: Seq<((int, int, int), int)>,
    vs: int,
)
    requires
        mesh_quads(m, pairs, vs),
    ensures
        mesh_wf(m),
{
    assert forall|i: int| 0 <= i < m.indices@.len() implies (#[trigger] m.indices@[i])
        < m.positions@.len() by {
        let q = i / 6;
        let r = i % 6;
        assert(i == 6 * q + r && 0 <= r < 6);
        assert(0 <= q < pairs.len());
        assert(m.indices@[6 * q] == 4 * q);
        if r == 0 {
            assert(m.indices@[i] == 4 * q);
        } else if r == 1 {
            assert(m.indices@[i] == 4 * q + 2);
        } else if r == 2 {
            assert(m.indices@[i] == 4 * q + 1);
        } else if r == 3 {
            assert(m.indices@[i] == 4 * q);
        } else if r == 4 {
            assert(m.indices@[i] == 4 * q + 3);
        } else {
            assert(m.indices@[i] == 4 * q + 2);
        }
    }
}

/// Normal correctness: every vertex's normal is exactly the outward
/// axis-aligned unit vector of the face its quad lies on.
pub proof fn lemma_normals_axis_aligned(
    m: BoundaryMesh,
    pairs: Seq<((int, int, int), int)>,
    vs: int,
)
    requires
        mesh_quads(m, pairs, vs),
        forall|q: int| 0 <= q < pairs.len() ==> 0 <= (#[trigger] pairs[q]).1 < 6,
    ensures
        forall|i: int|
            0 <= i < m.normals@.len() ==> (#[trigger] m.normals@[i])@ == face_normal(
                pairs[i / 4].1,
            ) && is_axis_unit(m.normals@[i]@),
{
    assert forall|i: int| 0 <= i < m.normals@.len() implies (#[trigger] m.normals@[i])@
        == face_normal(pairs[i / 4].1) && is_axis_unit(m.normals@[i]@) by {
        let q = i / 4;
        let j = i % 4;
        assert(i == 4 * q + j && 0 <= j < 4);
        assert(0 <= q < pairs.len());
        assert(m.normals@[4 * q + j]@ == face_normal(pairs[q].1));
    }
}

/// Every pair of `voxel_faces_upto` is one of `v`'s faces below `f` whose
/// neighbor is absent.
proof fn lemma_voxel_faces_exposed(s: Set<(int, int, int)>, v: (int, int, int), f: int)
    ensures
        forall|q: int|
            0 <= q < voxel_faces_upto(s, v, f).len() ==> {
                let p = #[trigger] voxel_faces_upto(s, v, f)[q];
                p.0 == v && 0 <= p.1 < f && !s.contains(face_neighbor(v, p.1))
            },
    decreases f,
{
    if f > 0 {
        lemma_voxel_faces_exposed(s, v, f - 1);
        let pre = voxel_faces_upto(s, v, f - 1);
        let post = voxel_faces_upto(s, v, f);
        assert forall|q: int| 0 <= q < post.len() implies {
            let p = #[trigger] post[q];
            p.0 == v && 0 <= p.1 < f && !s.contains(face_neighbor(v, p.1))
        } by {
            if q < pre.len() {
                assert(post[q] == pre[q]);
            } else {
                assert(post[q] == (v, f - 1));
            }
        }
    }
}

/// Boundary-only invariant, one direction: every emitted pair is an
/// exposed face of an occupied voxel — so a voxel with all six neighbors
/// occupied contributes no quad at all.
pub proof fn lemma_quad_list_exposed(items: Seq<(int, int, int)>, s: Set<(int, int, int)>)
    requires
        forall|i: int| 0 <= i < items.len() ==> s.contains(#[trigger] items[i]),
    ensures
        forall|q: int|
            0 <= q < quad_list(items, s).len() ==> {
                let p = #[trigger] quad_list(items, s)[q];
                exposed(s, p.0, p.1) && 0 <= p.1 < 6
            },
    decreases items.len(),
{
    if items.len() > 0 {
        assert forall|i: int| 0 <= i < items.drop_last().len() implies s.contains(
            #[trigger] items.drop_last()[i],
        ) by {
            assert(items.drop_last()[i] == items[i]);
        }
        lemma_quad_list_exposed(items.drop_last(), s);
        lemma_voxel_faces_exposed(s, items.last(), 6);
        assert(s.contains(items.last()));
        let a = quad_list(items.drop_last(), s);
        let b = voxel_faces_upto(s, items.last(), 6);
        let whole = quad_list(items, s);
        assert forall|q: int| 0 <= q < whole.len() implies {
            let p = #[trigger] whole[q];
            exposed(s, p.0, p.1) && 0 <= p.1 < 6
        } by {
            if q < a.len() {
                assert(whole[q] == a[q]);
            } else {
                assert(whole[q] == b[q - a.len()]);
            }
        }
    }
}

/// Boundary-only invariant: a voxel whose six neighbors are all occupied
/// gets no face in the emitted quad list.
pub proof fn lemma_enclosed_voxel_emits_nothing(
    items: Seq<(int, int, int)>,
    s: Set<(int, int, int)>,
    v: (int, int, int),
)
    requires
        forall|i: int| 0 <= i < items.len() ==> s.contains(#[trigger] items[i]),
        forall|f: int| 0 <= f < 6 ==> s.contains(#[trigger] face_neighbor(v, f)),
    ensures
        forall|q: int| 0 <= q < quad_list(items, s).len() ==> (#[trigger] quad_list(
            items,
            s,
        )[q]).0 != v,
{
    lemma_quad_list_exposed(items, s);
}

/// Boundary-only invariant, the isolated case: a voxel none of whose six
/// neighbors is occupied emits exactly its six faces, in face order.
pub proof fn lemma_isolated_voxel_six_faces(s: Set<(int, int, int)>, v: (int, int, int))
    requires
        forall|f: int| 0 <= f < 6 ==> !s.contains(#[trigger] face_neighbor(v, f)),
    ensures
        voxel_faces_upto(s, v, 6) =~= seq![(v, 0int), (v, 1int), (v, 2int), (v, 3int), (v, 4int), (v, 5int)],
{
    assert(voxel_faces_upto(s, v, 0) =~= Seq::empty());
    assert(voxel_faces_upto(s, v, 1) =~= seq![(v, 0int)]);
    assert(voxel_faces_upto(s, v, 2) =~= seq![(v, 0int), (v, 1int)]);
    assert(voxel_faces_upto(s, v, 3) =~= seq![(v, 0int), (v, 1int), (v, 2int)]);
    assert(voxel_faces_upto(s, v, 4) =~= seq![(v, 0int), (v, 1int), (v, 2int), (v, 3int)]);
    assert(voxel_faces_upto(s, v, 5) =~= seq![(v, 0int), (v, 1int), (v, 2int), (v, 3int), (v, 4int)]);
}

/// Appending one quad's worth of vertex data and indices extends the list
/// of represented quads by its pair.
proof fn lemma_quads_push(
    m0: BoundaryMesh,
    m1: BoundaryMesh,
    pairs: Seq<((int, int, int), int)>,
    p: ((int, int, int), int),
    vs: int,
)
    requires
        mesh_quads(m0, pairs, vs),
        m1.positions@.len() == m0.positions@.len() + 4,
        forall|i: int|
            0 <= i < m0.positions@.len() ==> #[trigger] m1.positions@[i] == m0.positions@[i],
        forall|j: int|
            0 <= j < 4 ==> (#[trigger] m1.positions@[m0.positions@.len() + j])@ == quad_pos(
                p.0,
                vs,
                p.1,
                j,
            ),
        m1.normals@.len() == m0.normals@.len() + 4,
        forall|i: int| 0 <= i < m0.normals@.len() ==> #[trigger] m1.normals@[i] == m0.normals@[i],
        forall|j: int|
            0 <= j < 4 ==> (#[trigger] m1.normals@[m0.normals@.len() + j])@ == face_normal(p.1),
        m1.uvs@.len() == m0.uvs@.len() + 4,
        forall|i: int| 0 <= i < m0.uvs@.len() ==> #[trigger] m1.uvs@[i] == m0.uvs@[i],
        forall|j: int| 0 <= j < 4 ==> (#[trigger] m1.uvs@[m0.uvs@.len() + j])@ == quad_uv(j),
        m1.indices@.len() == m0.indices@.len() + 6,
        forall|i: int| 0 <= i < m0.indices@.len() ==> #[trigger] m1.indices@[i] == m0.indices@[i],
        m1.indices@[m0.indices@.len() as int + 0] == m0.positions@.len(),
        m1.indices@[m0.indices@.len() as int + 1] == m0.positions@.len() + 2,
        m1.indices@[m0.indices@.len() as int + 2] == m0.positions@.len() + 1,
        m1.indices@[m0.indices@.len() as int + 3] == m0.positions@.len(),
        m1.indices@[m0.indices@.len() as int + 4] == m0.positions@.len() + 3,
        m1.indices@[m0.indices@.len() as int + 5] == m0.positions@.len() + 2,
    ensures
        mesh_quads(m1, pairs.push(p), vs),
{
    let n = pairs.len() as int;
    let post = pairs.push(p);
    assert(post.len() == n + 1);
    assert(post[n] == p);
    assert(forall|q: int| 0 <= q < n ==> #[trigger] post[q] == pairs[q]);
    assert forall|q: int, j: int|
        0 <= q < post.len() && 0 <= j < 4 implies (#[trigger] m1.positions@[4 * q + j])@
        == quad_pos(post[q].0, vs, post[q].1, j) by {
        if q < n {
            assert(m1.positions@[4 * q + j] == m0.positions@[4 * q + j]);
        } else {
            assert(4 * q + j == m0.positions@.len() + j);
        }
    }
    assert forall|q: int, j: int|
        0 <= q < post.len() && 0 <= j < 4 implies (#[trigger] m1.normals@[4 * q + j])@
        == face_normal(post[q].1) by {
        if q < n {
            assert(m1.normals@[4 * q + j] == m0.normals@[4 * q + j]);
        } else {
            assert(4 * q + j == m0.normals@.len() + j);
        }
    }
    assert forall|q: int, j: int|
        0 <= q < post.len() && 0 <= j < 4 implies (#[trigger] m1.uvs@[4 * q + j])@ == quad_uv(
        j,
    ) by {
        if q < n {
            assert(m1.uvs@[4 * q + j] == m0.uvs@[4 * q + j]);
        } else {
            assert(4 * q + j == m0.uvs@.len() + j);
        }
    }
    assert forall|q: int| 0 <= q < post.len() implies {
        &&& (#[trigger] m1.indices@[6 * q]) == 4 * q
        &&& m1.indices@[6 * q + 1] == 4 * q + 2
        &&& m1.indices@[6 * q + 2] == 4 * q + 1
        &&& m1.indices@[6 * q + 3] == 4 * q
        &&& m1.indices@[6 * q + 4] == 4 * q + 3
        &&& m1.indices@[6 * q + 5] == 4 * q + 2
    } by {
        if q < n {
            assert(m1.indices@[6 * q] == m0.indices@[6 * q]);
            assert(m1.indices@[6 * q + 1] == m0.indices@[6 * q + 1]);
            assert(m1.indices@[6 * q + 2] == m0.indices@[6 * q + 2]);
            assert(m1.indices@[6 * q + 3] == m0.indices@[6 * q + 3]);
            assert(m1.indices@[6 * q + 4] == m0.indices@[6 * q + 4]);
            assert(m1.indices@[6 * q + 5] == m0.indices@[6 * q + 5]);
        } else {
            assert(6 * q == m0.indices@.len() + 0);
        }
    }
}

/// Append one quad: four vertices at the given corners, four copies of the
/// outward normal, the unit-square texture corners, and the two triangles
/// `(0, 2, 1)` and `(0, 3, 2)` over the new vertices.
fn add_cube_face(mesh: &mut BoundaryMesh, c0: Vec3i, c1: Vec3i, c2: Vec3i, c3: Vec3i, nrm: Vec3i)
    ensures
        final(mesh).positions@.len() == old(mesh).positions@.len() + 4,
        forall|i: int|
            0 <= i < old(mesh).positions@.len() ==> #[trigger] final(mesh).positions@[i] == old(
                mesh,
            ).positions@[i],
        final(mesh).positions@[old(mesh).positions@.len() as int + 0] == c0,
        final(mesh).positions@[old(mesh).positions@.len() as int + 1] == c1,
        final(mesh).positions@[old(mesh).positions@.len() as int + 2] == c2,
        final(mesh).positions@[old(mesh).positions@.len() as int + 3] == c3,
        final(mesh).normals@.len() == old(mesh).normals@.len() + 4,
        forall|i: int|
            0 <= i < old(mesh).normals@.len() ==> #[trigger] final(mesh).normals@[i] == old(
                mesh,
            ).normals@[i],
        forall|j: int|
            0 <= j < 4 ==> #[trigger] final(mesh).normals@[old(mesh).normals@.len() + j] == nrm,
        final(mesh).uvs@.len() == old(mesh).uvs@.len() + 4,
        forall|i: int|
            0 <= i < old(mesh).uvs@.len() ==> #[trigger] final(mesh).uvs@[i] == old(mesh).uvs@[i],
        final(mesh).uvs@[old(mesh).uvs@.len() as int + 0]@ == (0int, 0int),
        final(mesh).uvs@[old(mesh).uvs@.len() as int + 1]@ == (1int, 0int),
        final(mesh).uvs@[old(mesh).uvs@.len() as int + 2]@ == (1int, 1int),
        final(mesh).uvs@[old(mesh).uvs@.len() as int + 3]@ == (0int, 1int),
        final(mesh).indices@.len() == old(mesh).indices@.len() + 6,
        forall|i: int|
            0 <= i < old(mesh).indices@.len() ==> #[trigger] final(mesh).indices@[i] == old(
                mesh,
            ).indices@[i],
        final(mesh).indices@[old(mesh).indices@.len() as int + 0] == old(mesh).positions@.len(),
        final(mesh).indices@[old(mesh).indices@.len() as int + 1] == old(mesh).positions@.len() + 2,
        final(mesh).indices@[old(mesh).indices@.len() as int + 2] == old(mesh).positions@.len() + 1,
        final(mesh).indices@[old(mesh).indices@.len() as int + 3] == old(mesh).positions@.len(),
        final(mesh).indices@[old(mesh).indices@.len() as int + 4] == old(mesh).positions@.len() + 3,
        final(mesh).indices@[old(mesh).indices@.len() as int + 5] == old(mesh).positions@.len() + 2,
{
    mesh.positions.push(c0);
    mesh.positions.push(c1);
    mesh.positions.push(c2);
    mesh.positions.push(c3);
    mesh.normals.push(nrm);
    mesh.normals.push(nrm);
    mesh.normals.push(nrm);
    mesh.normals.push(nrm);
    mesh.uvs.push(Uv { u: 0, v: 0 });
    mesh.uvs.push(Uv { u: 1, v: 0 });
    mesh.uvs.push(Uv { u: 1, v: 1 });
    mesh.uvs.push(Uv { u: 0, v: 1 });
    let start = mesh.positions.len() - 4;
    mesh.indices.push(start);
    mesh.indices.push(start + 2);
    mesh.indices.push(start + 1);
    mesh.indices.push(start);
    mesh.indices.push(start + 3);
    mesh.indices.push(start + 2);
}

/// Emit the exposed faces of one occupied voxel, in face order.
#[verifier::loop_isolation(false)]
fn emit_voxel_faces(
    mesh: &mut BoundaryMesh,
    filled: &VoxelSet,
    v: VoxelCoord,
    vs: i64,
    Ghost(pairs): Ghost<Seq<((int, int, int), int)>>,
)
    requires
        filled.wf(),
        coord_in_bounds(v@),
        1 <= vs <= WORLD_SPAN_UNITS,
        mesh_quads(*old(mesh), pairs, vs as int),
    ensures
        mesh_quads(*final(mesh), pairs + voxel_faces_upto(filled@, v@, 6), vs as int),
{
    proof {
        lemma_mul_bounds(v.x as int, vs as int, 1048576, 8192);
        lemma_mul_bounds(v.y as int, vs as int, 1048576, 8192);
        lemma_mul_bounds(v.z as int, vs as int, 1048576, 8192);
    }
    let x0 = v.x * vs;
    let y0 = v.y * vs;
    let z0 = v.z * vs;
    let x1 = x0 + vs;
    let y1 = y0 + vs;
    let z1 = z0 + vs;
    let c0 = Vec3i::new(x0, y0, z0);
    let c1 = Vec3i::new(x1, y0, z0);
    let c2 = Vec3i::new(x1, y0, z1);
    let c3 = Vec3i::new(x0, y0, z1);
    let c4 = Vec3i::new(x0, y1, z0);
    let c5 = Vec3i::new(x1, y1, z0);
    let c6 = Vec3i::new(x1, y1, z1);
    let c7 = Vec3i::new(x0, y1, z1);
    proof {
        let w = vs as int;
        assert(c0@.0 == corner_pos(v@, w, 0).0 && c0@.1 == corner_pos(v@, w, 0).1 && c0@.2
            == corner_pos(v@, w, 0).2 && c0@ == corner_pos(v@, w, 0));
        assert(c1@.0 == corner_pos(v@, w, 1).0 && c1@.1 == corner_pos(v@, w, 1).1 && c1@.2
            == corner_pos(v@, w, 1).2 && c1@ == corner_pos(v@, w, 1));
        assert(c2@.0 == corner_pos(v@, w, 2).0 && c2@.1 == corner_pos(v@, w, 2).1 && c2@.2
            == corner_pos(v@, w, 2).2 && c2@ == corner_pos(v@, w, 2));
        assert(c3@.0 == corner_pos(v@, w, 3).0 && c3@.1 == corner_pos(v@, w, 3).1 && c3@.2
            == corner_pos(v@, w, 3).2 && c3@ == corner_pos(v@, w, 3));
        assert(c4@.0 == corner_pos(v@, w, 4).0 && c4@.1 == corner_pos(v@, w, 4).1 && c4@.2
            == corner_pos(v@, w, 4).2 && c4@ == corner_pos(v@, w, 4));
        assert(c5@.0 == corner_pos(v@, w, 5).0 && c5@.1 == corner_pos(v@, w, 5).1 && c5@.2
            == corner_pos(v@, w, 5).2 && c5@ == corner_pos(v@, w, 5));
        assert(c6@.0 == corner_pos(v@, w, 6).0 && c6@.1 == corner_pos(v@, w, 6).1 && c6@.2
            == corner_pos(v@, w, 6).2 && c6@ == corner_pos(v@, w, 6));
        assert(c7@.0 == corner_pos(v@, w, 7).0 && c7@.1 == corner_pos(v@, w, 7).1 && c7@.2
            == corner_pos(v@, w, 7).2 && c7@ == corner_pos(v@, w, 7));
    }
    let mut f: u8 = 0;
    while f < 6
        invariant
            f <= 6,
            mesh_quads(*mesh, pairs + voxel_faces_upto(filled@, v@, f as int), vs as int),
        decreases 6 - f,
    {
        let ghost cur = pairs + voxel_faces_upto(filled@, v@, f as int);
        if f == 0 {
            emit_face(
                mesh,
                filled,
                VoxelCoord::new(v.x + 1, v.y, v.z),
                c1,
                c2,
                c6,
                c5,
                Vec3i::new(1, 0, 0),
                vs,
                Ghost(v@),
                Ghost(0),
                Ghost(cur),
            );
        } else if f == 1 {
            emit_face(
                mesh,
                filled,
                VoxelCoord::new(v.x - 1, v.y, v.z),
                c0,
                c4,
                c7,
                c3,
                Vec3i::new(-1, 0, 0),
                vs,
                Ghost(v@),
                Ghost(1),
                Ghost(cur),
            );
        } else if f == 2 {
            emit_face(
                mesh,
                filled,
                VoxelCoord::new(v.x, v.y + 1, v.z),
                c4,
                c5,
                c6,
                c7,
                Vec3i::new(0, 1, 0),
                vs,
                Ghost(v@),
                Ghost(2),
                Ghost(cur),
            );
        } else if f == 3 {
            emit_face(
                mesh,
                filled,
                VoxelCoord::new(v.x, v.y - 1, v.z),
                c0,
                c3,
                c2,
                c1,
                Vec3i::new(0, -1, 0),
                vs,
                Ghost(v@),
                Ghost(3),
                Ghost(cur),
            );
        } else if f == 4 {
            emit_face(
                mesh,
                filled,
                VoxelCoord::new(v.x, v.y, v.z + 1),
                c3,
                c7,
                c6,
                c2,
                Vec3i::new(0, 0, 1),
                vs,
                Ghost(v@),
                Ghost(4),
                Ghost(cur),
            );
        } else {
            emit_face(
                mesh,
                filled,
                VoxelCoord::new(v.x, v.y, v.z - 1),
                c0,
                c1,
                c5,
                c4,
                Vec3i::new(0, 0, -1),
                vs,
                Ghost(v@),
                Ghost(5),
                Ghost(cur),
            );
        }
        proof {
            if filled@.contains(face_neighbor(v@, f as int)) {
                assert(cur =~= pairs + voxel_faces_upto(filled@, v@, f as int + 1));
            } else {
                assert(cur.push((v@, f as int)) =~= pairs + voxel_faces_upto(
                    filled@,
                    v@,
                    f as int + 1,
                ));
            }
        }
        f = f + 1;
    }
}

/// Test one neighbor and, if it is absent, append the face's quad.
fn emit_face(
    mesh: &mut BoundaryMesh,
    filled: &VoxelSet,
    nb: VoxelCoord,
    q0: Vec3i,
    q1: Vec3i,
    q2: Vec3i,
    q3: Vec3i,
    nrm: Vec3i,
    vs: i64,
    Ghost(v): Ghost<(int, int, int)>,
    Ghost(f): Ghost<int>,
    Ghost(cur): Ghost<Seq<((int, int, int), int)>>,
)
    requires
        filled.wf(),
        nb@ == face_neighbor(v, f),
        q0@ == quad_pos(v, vs as int, f, 0),
        q1@ == quad_pos(v, vs as int, f, 1),
        q2@ == quad_pos(v, vs as int, f, 2),
        q3@ == quad_pos(v, vs as int, f, 3),
        nrm@ == face_normal(f),
        mesh_quads(*old(mesh), cur, vs as int),
    ensures
        mesh_quads(
            *final(mesh),
            if filled@.contains(face_neighbor(v, f)) {
                cur
            } else {
                cur.push((v, f))
            },
            vs as int,
        ),
{
    let ghost m0 = *mesh;
    if !filled.contains(&nb) {
        add_cube_face(mesh, q0, q1, q2, q3, nrm);
        proof {
            lemma_quads_push(m0, *mesh, cur, (v, f), vs as int);
        }
    }
}

/// Extract the boundary mesh of the voxel set: one quad for every exposed
/// face of every occupied voxel, walked in first-insertion order, and
/// nothing else.
#[verifier::loop_isolation(false)]
pub fn extract_boundary_mesh(filled: &VoxelSet, vs: i64) -> (m: BoundaryMesh)
    requires
        filled.wf(),
        1 <= vs <= WORLD_SPAN_UNITS,
    ensures
        mesh_quads(m, quad_list(filled.coords(), filled@), vs as int),
        mesh_wf(m),
{
    let mut mesh = BoundaryMesh {
        positions: Vec::new(),
        normals: Vec::new(),
        uvs: Vec::new(),
        indices: Vec::new(),
    };
    proof {
        assert(mesh_quads(mesh, quad_list(filled.coords().take(0), filled@), vs as int));
    }
    let n = filled.coord_count();
    let mut i: usize = 0;
    while i < n
        invariant
            i <= n,
            mesh_quads(mesh, quad_list(filled.coords().take(i as int), filled@), vs as int),
        decreases n - i,
    {
        let v = filled.coord_at(i);
        proof {
            filled.lemma_wf();
        }
        emit_voxel_faces(
            &mut mesh,
            filled,
            v,
            vs,
            Ghost(quad_list(filled.coords().take(i as int), filled@)),
        );
        proof {
            let cs = filled.coords();
            assert(cs.take(i + 1).drop_last() =~= cs.take(i as int));
            assert(cs.take(i + 1).last() == v@);
            assert(quad_list(cs.take(i + 1), filled@) == quad_list(cs.take(i as int), filled@)
                + voxel_faces_upto(filled@, v@, 6));
        }
        i = i + 1;
    }
    proof {
        assert(filled.coords().take(n as int) =~= filled.coords());
        lemma_quad_mesh_indices_valid(
            mesh,
            quad_list(filled.coords(), filled@),
            vs as int,
        );
    }
    mesh
}

} // verus!
