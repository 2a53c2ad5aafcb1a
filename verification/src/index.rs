//! A rebuildable two-dimensional point index with radius queries.
//!
//! An index is a snapshot: it is built wholesale from a list of tagged
//! points and never changes afterwards. Its contents are modelled as a
//! multiset, so nothing here depends on the order in which points were
//! handed in or on the order in which matches come back.

use vstd::prelude::*;
use vstd::multiset::Multiset;
use crate::geometry::{dist2, in_radius, within, Point};

verus! {

/// A point held by an index, tagged with the identity of the entity that
/// stood there when the index was built.
#[derive(Clone, Copy, Debug, PartialEq, Eq, Structural)]
pub struct IndexedPoint {
    pub pos: Point,
    pub id: u64,
}

/// A k-d tree of tagged points, as built by `kd_tree::KdTree::build`.
///
/// The tree is opaque to Verus: `kd_tree::KdTreeN` cannot be declared
/// to it, because its dimension parameter is bounded by a trait of
/// `typenum`. What the tree holds is named by `store_points`, and only the
/// two functions below touch it.
///
/// Coordinates are stored as `i128` so that the tree's own arithmetic on
/// `i32` grid positions cannot overflow.
#[verifier::external_body]
pub struct KdStore {
    tree: kd_tree::KdTree<([i128; 2], u64)>,
}

/// The tagged points that a k-d tree holds, with multiplicity. Nothing is
/// proved of this name; it means what `store_build` and
/// `store_within_radius` say of it.
pub uninterp spec fn store_points(store: KdStore) -> Multiset<IndexedPoint>;

/// The points whose squared distance to `center` is strictly below `bound`.
pub open spec fn closer_than(center: Point, bound: int) -> spec_fn(IndexedPoint) -> bool {
    |p: IndexedPoint| dist2(p.pos, center) < bound
}

/// The points that lie within `radius` of `center`, the boundary included.
pub open spec fn in_range(center: Point, radius: int) -> spec_fn(IndexedPoint) -> bool {
    |p: IndexedPoint| within(p.pos, center, radius)
}

/// Calls `kd_tree::KdTree::build`, which sorts the given items into k-d
/// order and keeps every one of them: the tree holds exactly the points it
/// was given, each as often as it was given.
#[verifier::external_body]
fn store_build(points: Vec<IndexedPoint>) -> (store: KdStore)
    ensures
        store_points(store) == points@.to_multiset(),
{
    KdStore {
        tree: kd_tree::KdTree::build(
            points.into_iter().map(|p| ([p.pos.x as i128, p.pos.y as i128], p.id)).collect(),
        ),
    }
}

/// Calls `kd_tree::KdSliceN::within_radius`, which returns the stored items
/// whose squared distance to the query point is strictly less than the
/// square of the radius, each once per stored copy and in no promised
/// order. The bound on `radius` keeps the tree's `i128` arithmetic exact.
#[verifier::external_body]
fn store_within_radius(store: &KdStore, center: Point, radius: u64) -> (found: Vec<IndexedPoint>)
    requires
        radius <= 0x1_0000_0000,
    ensures
        found@.to_multiset() == store_points(*store).filter(
            closer_than(center, radius * radius),
        ),
{
    store.tree.within_radius(&[center.x as i128, center.y as i128], radius as i128)
        .into_iter()
        .map(|e| IndexedPoint { pos: Point { x: e.0[0] as i32, y: e.0[1] as i32 }, id: e.1 })
        .collect()
}

/// The points of `points` that lie within `radius` of `center`, the boundary
/// included, each as often as it occurs in `points`.
pub open spec fn radius_matches(points: Multiset<IndexedPoint>, center: Point, radius: int)
    -> Multiset<IndexedPoint> {
    points.filter(in_range(center, radius))
}

/// An immutable snapshot of tagged points that answers radius queries.
pub struct SpatialIndex {
    store: KdStore,
}

impl View for SpatialIndex {
    type V = Multiset<IndexedPoint>;

    /// The points the snapshot was built from, with multiplicity.
    closed spec fn view(&self) -> Multiset<IndexedPoint> {
        store_points(self.store)
    }
}

impl SpatialIndex {
    /// An index that holds no points.
    pub fn new() -> (index: SpatialIndex)
        ensures
            index@ == Multiset::<IndexedPoint>::empty(),
    {
        let points: Vec<IndexedPoint> = Vec::new();
        assert(points@.to_multiset() =~= Multiset::<IndexedPoint>::empty()) by {
            broadcast use vstd::seq_lib::group_to_multiset_ensures;
        }
        SpatialIndex { store: store_build(points) }
    }

    /// Builds a snapshot of `points`. Any earlier index is simply dropped:
    /// there is no incremental update.
    pub fn build(points: Vec<IndexedPoint>) -> (index: SpatialIndex)
        ensures
            index@ == points@.to_multiset(),
    {
        SpatialIndex { store: store_build(points) }
    }

    /// Returns every indexed point whose Euclidean distance to `center` is at
    /// most `radius`, each once per indexed copy. The order of the result is
    /// unspecified.
    pub fn query_radius(&self, center: Point, radius: u32) -> (found: Vec<IndexedPoint>)
        ensures
            found@.to_multiset() == radius_matches(self@, center, radius as int),
    {
        // The tree's own test is strict, so ask for the next larger radius
        // and keep the points that pass the exact, inclusive test.
        let reach: u64 = radius as u64 + 1;
        let candidates: Vec<IndexedPoint> = store_within_radius(&self.store, center, reach);
        let ghost keep = in_range(center, radius as int);
        let mut found: Vec<IndexedPoint> = Vec::new();
        let mut i: usize = 0;
        proof {
            broadcast use vstd::seq_lib::group_to_multiset_ensures;

            assert(candidates@.take(0).to_multiset() =~= Multiset::<IndexedPoint>::empty());
        }
        while i < candidates.len()
            invariant
                i <= candidates.len(),
                keep == in_range(center, radius as int),
                found@.to_multiset() == candidates@.take(i as int).to_multiset().filter(keep),
            decreases candidates.len() - i,
        {
            let c: IndexedPoint = candidates[i];
            proof {
                broadcast use vstd::seq_lib::group_to_multiset_ensures;
                assert(candidates@.take(i + 1) =~= candidates@.take(i as int).push(c));
            }
            if in_radius(c.pos, center, radius) {
                found.push(c);
            }
            i += 1;
        }
        proof {
            assert(candidates@.take(i as int) =~= candidates@);
            let all = store_points(self.store);
            let near = closer_than(center, reach * reach);
            assert forall|p: IndexedPoint|
                #[trigger] all.filter(near).filter(keep).count(p) == all.filter(keep).count(
                    p,
                ) by {
                if keep(p) {
                    lemma_inclusive_implies_next_strict(dist2(p.pos, center), radius as int);
                }
            }
        }
        found
    }
}

/// A squared distance of at most `r * r` is strictly below `(r + 1) * (r + 1)`.
proof fn lemma_inclusive_implies_next_strict(d: int, r: int)
    by (nonlinear_arith)
    requires
        0 <= r,
        d <= r * r,
    ensures
        d < (r + 1) * (r + 1),
{
}

/// A radius query has no false positives and no false negatives: a point
/// occurs among the matches exactly as often as it occurs in the index if it
/// lies within the radius, and not at all otherwise.
pub proof fn lemma_radius_matches_exact(
    points: Multiset<IndexedPoint>,
    center: Point,
    radius: int,
    p: IndexedPoint,
)
    ensures
        radius_matches(points, center, radius).count(p) == if within(p.pos, center, radius) {
            points.count(p)
        } else {
            0
        },
{
}

/// The matches of a radius query do not depend on the order in which the
/// points were handed to the index.
pub proof fn lemma_matches_ignore_insertion_order(
    first: Seq<IndexedPoint>,
    second: Seq<IndexedPoint>,
    center: Point,
    radius: int,
)
    requires
        first.to_multiset() == second.to_multiset(),
    ensures
        radius_matches(first.to_multiset(), center, radius) == radius_matches(
            second.to_multiset(),
            center,
            radius,
        ),
{
}

/// Two indexes built from the same points answer every radius query with the
/// same matches.
pub proof fn lemma_rebuild_is_idempotent(
    points: Seq<IndexedPoint>,
    first: SpatialIndex,
    second: SpatialIndex,
    center: Point,
    radius: int,
)
    requires
        first@ == points.to_multiset(),
        second@ == points.to_multiset(),
    ensures
        radius_matches(first@, center, radius) == radius_matches(second@, center, radius),
{
}

/// An index without points answers every query with no matches.
pub proof fn lemma_empty_index_matches_nothing(center: Point, radius: int)
    ensures
        radius_matches(Multiset::<IndexedPoint>::empty(), center, radius).len() == 0,
{
    assert(radius_matches(Multiset::<IndexedPoint>::empty(), center, radius)
        =~= Multiset::<IndexedPoint>::empty());
}

} // verus!
