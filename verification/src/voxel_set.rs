//! The sparse set of occupied voxels.
//!
//! A voxel is either filled or not; duplicates collapse and insertion order
//! does not affect membership. Lookups go through a hash set of packed
//! coordinate keys, while a duplicate-free vector keeps the coordinates
//! themselves so the extractor can walk them.

use vstd::prelude::*;
use vstd::std_specs::hash::group_hash_axioms;
use std::collections::HashSet;
use crate::units::MAX_VOXEL_COORD;

verus! {

broadcast use group_hash_axioms;

/// An occupied cubic cell of the voxel grid, identified by its integer
/// coordinate triple.
#[derive(Clone, Copy, PartialEq, Eq, Structural, Debug)]
pub struct VoxelCoord {
    pub x: i64,
    pub y: i64,
    pub z: i64,
}

impl View for VoxelCoord {
    type V = (int, int, int);

    open spec fn view(&self) -> (int, int, int) {
        (self.x as int, self.y as int, self.z as int)
    }
}

impl VoxelCoord {
    pub fn new(x: i64, y: i64, z: i64) -> (r: VoxelCoord)
        ensures
            r@ == (x as int, y as int, z as int),
    {
        VoxelCoord { x, y, z }
    }
}

/// Whether a coordinate triple lies strictly within the range a `VoxelSet`
/// can hold.
pub open spec fn coord_in_bounds(v: (int, int, int)) -> bool {
    &&& -MAX_VOXEL_COORD < v.0 < MAX_VOXEL_COORD
    &&& -MAX_VOXEL_COORD < v.1 < MAX_VOXEL_COORD
    &&& -MAX_VOXEL_COORD < v.2 < MAX_VOXEL_COORD
}

/// The hash key of an in-bounds coordinate: its three components shifted to
/// be positive and written as digits base `2 * MAX_VOXEL_COORD`.
spec fn pack_key(v: (int, int, int)) -> int {
    (v.0 + MAX_VOXEL_COORD) * 4398046511104 + (v.1 + MAX_VOXEL_COORD) * 2097152 + (v.2
        + MAX_VOXEL_COORD)
}

/// Distinct in-bounds coordinates have distinct keys.
proof fn lemma_pack_key_injective(v: (int, int, int), w: (int, int, int))
    requires
        coord_in_bounds(v),
        coord_in_bounds(w),
        pack_key(v) == pack_key(w),
    ensures
        v == w,
{
    assert(v.0 == w.0 && v.1 == w.1 && v.2 == w.2);
}

fn pack(c: &VoxelCoord) -> (k: u64)
    requires
        coord_in_bounds(c@),
    ensures
        k == pack_key(c@),
{
    ((c.x + MAX_VOXEL_COORD) as u64) * 4398046511104u64 + ((c.y + MAX_VOXEL_COORD) as u64)
        * 2097152u64 + ((c.z + MAX_VOXEL_COORD) as u64)
}

/// Every coordinate is in bounds and appears once.
spec fn items_ok(items: Seq<VoxelCoord>) -> bool {
    &&& forall|i: int| 0 <= i < items.len() ==> coord_in_bounds(#[trigger] items[i]@)
    &&& forall|i: int, j: int|
        0 <= i < j < items.len() ==> (#[trigger] items[i]@) != (#[trigger] items[j]@)
}

/// Some held coordinate has the hash key `k`.
spec fn has_key(items: Seq<VoxelCoord>, k: u64) -> bool {
    exists|i: int| 0 <= i < items.len() && k == pack_key(#[trigger] items[i]@)
}

/// The hash keys are exactly the keys of the held coordinates.
spec fn keys_match(keys: Set<u64>, items: Seq<VoxelCoord>) -> bool {
    forall|k: u64| #[trigger] keys.contains(k) <==> has_key(items, k)
}

/// Pushing a fresh in-bounds coordinate and inserting its key keeps the
/// representation consistent.
proof fn lemma_grow(keys: Set<u64>, items: Seq<VoxelCoord>, c: VoxelCoord, k: u64)
    requires
        items_ok(items),
        keys_match(keys, items),
        coord_in_bounds(c@),
        k == pack_key(c@),
        forall|i: int| 0 <= i < items.len() ==> (#[trigger] items[i]@) != c@,
    ensures
        items_ok(items.push(c)),
        keys_match(keys.insert(k), items.push(c)),
{
    let post = items.push(c);
    assert forall|i: int, j: int| 0 <= i < j < post.len() implies (#[trigger] post[i]@) != (
    #[trigger] post[j]@) by {
        if j < items.len() {
            assert(post[i]@ == items[i]@ && post[j]@ == items[j]@);
        } else {
            assert(post[i]@ == items[i]@ && post[j]@ == c@);
        }
    }
    assert forall|k2: u64| #[trigger] keys.insert(k).contains(k2) implies has_key(post, k2) by {
        if k2 == k {
            assert(post[items.len() as int]@ == c@);
        } else {
            let i = choose|i: int| 0 <= i < items.len() && k2 == pack_key(#[trigger] items[i]@);
            assert(post[i]@ == items[i]@);
        }
    }
    assert forall|k2: u64| has_key(post, k2) implies #[trigger] keys.insert(k).contains(k2) by {
        let i = choose|i: int| 0 <= i < post.len() && k2 == pack_key(#[trigger] post[i]@);
        if i < items.len() {
            assert(post[i]@ == items[i]@);
            assert(has_key(items, k2));
        } else {
            assert(post[i]@ == c@);
        }
    }
}

/// A set of voxel coordinates: membership collapses duplicates, and the
/// coordinates are also kept in first-insertion order for iteration.
pub struct VoxelSet {
    keys: HashSet<u64>,
    items: Vec<VoxelCoord>,
}

impl VoxelSet {
    /// The coordinates in first-insertion order.
    pub closed spec fn coords(&self) -> Seq<(int, int, int)> {
        self.items@.map_values(|c: VoxelCoord| c@)
    }

    /// Internal consistency: every held coordinate is in bounds and held
    /// once, and the hash keys are exactly the keys of the held coordinates.
    pub closed spec fn wf(&self) -> bool {
        items_ok(self.items@) && keys_match(self.keys@, self.items@)
    }

    /// The mathematical set of occupied coordinates.
    pub closed spec fn view(&self) -> Set<(int, int, int)> {
        self.coords().to_set()
    }

    /// What well-formedness guarantees about the coordinate sequence.
    pub proof fn lemma_wf(&self)
        requires
            self.wf(),
        ensures
            self@ == self.coords().to_set(),
            self.coords().no_duplicates(),
            forall|i: int|
                0 <= i < self.coords().len() ==> coord_in_bounds(#[trigger] self.coords()[i]),
    {
    }

    pub fn new() -> (s: VoxelSet)
        ensures
            s.wf(),
            s@ == Set::<(int, int, int)>::empty(),
            s.coords() == Seq::<(int, int, int)>::empty(),
    {
        let s = VoxelSet { keys: HashSet::new(), items: Vec::new() };
        proof {
            assert(s.coords() =~= Seq::<(int, int, int)>::empty());
            assert(s@ =~= Set::<(int, int, int)>::empty());
        }
        s
    }

    /// How many voxels are occupied.
    pub fn len(&self) -> (n: usize)
        requires
            self.wf(),
        ensures
            n == self@.len(),
    {
        proof {
            self.coords().unique_seq_to_set();
        }
        self.items.len()
    }

    /// Membership test. Coordinates outside the representable range are
    /// never members.
    pub fn contains(&self, c: &VoxelCoord) -> (r: bool)
        requires
            self.wf(),
        ensures
            r == self@.contains(c@),
    {
        if c.x <= -MAX_VOXEL_COORD || c.x >= MAX_VOXEL_COORD || c.y <= -MAX_VOXEL_COORD || c.y
            >= MAX_VOXEL_COORD || c.z <= -MAX_VOXEL_COORD || c.z >= MAX_VOXEL_COORD {
            proof {
                assert(!self.coords().contains(c@));
            }
            false
        } else {
            let k = pack(c);
            let r = self.keys.contains(&k);
            proof {
                if self.keys@.contains(k) {
                    let i = choose|i: int|
                        0 <= i < self.items@.len() && k == pack_key(#[trigger] self.items@[i]@);
                    lemma_pack_key_injective(self.items@[i]@, c@);
                    assert(self.coords()[i] == c@);
                    assert(self.coords().contains(c@));
                } else {
                    if self.coords().contains(c@) {
                        let i = choose|i: int|
                            0 <= i < self.coords().len() && self.coords()[i] == c@;
                        assert(self.items@[i]@ == c@);
                        assert(has_key(self.items@, k));
                    }
                }
            }
            r
        }
    }

    /// Insert a coordinate; inserting an already occupied one is a no-op.
    pub fn insert(&mut self, c: VoxelCoord)
        requires
            old(self).wf(),
            coord_in_bounds(c@),
        ensures
            final(self).wf(),
            final(self)@ == old(self)@.insert(c@),
            final(self).coords() == if old(self)@.contains(c@) {
                old(self).coords()
            } else {
                old(self).coords().push(c@)
            },
    {
        let present = self.contains(&c);
        if present {
            proof {
                assert(self@ =~= old(self)@.insert(c@));
            }
        } else {
            let k = pack(&c);
            proof {
                assert(!old(self).coords().contains(c@));
                assert forall|i: int| 0 <= i < old(self).items@.len() implies (
                #[trigger] old(self).items@[i]@) != c@ by {
                    assert(old(self).coords()[i] == old(self).items@[i]@);
                }
                lemma_grow(old(self).keys@, old(self).items@, c, k);
            }
            self.keys.insert(k);
            self.items.push(c);
            proof {
                assert(self.keys@ == old(self).keys@.insert(k));
                assert(self.items@ == old(self).items@.push(c));
                assert(self.coords() =~= old(self).coords().push(c@));
                old(self).coords().lemma_push_to_set_commute(c@);
                assert(self@ =~= old(self)@.insert(c@));
            }
        }
    }

    /// The number of coordinates held, equal to the set's cardinality.
    pub fn coord_count(&self) -> (n: usize)
        ensures
            n == self.coords().len(),
    {
        self.items.len()
    }

    /// The `i`-th coordinate in first-insertion order.
    pub fn coord_at(&self, i: usize) -> (c: VoxelCoord)
        requires
            i < self.coords().len(),
        ensures
            c@ == self.coords()[i as int],
    {
        self.items[i]
    }
}

} // verus!
