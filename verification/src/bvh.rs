//! The bounding-volume hierarchy: a binary tree over the scene's
//! objects, built by sorting each range along the widest axis of its
//! bound and splitting at the median. A query walks the tree, pruning
//! every subtree whose box the ray misses and tightening the search
//! range to the closest hit found, the same narrowing the flat list
//! uses but recursive.

use vstd::prelude::*;
use crate::aabb::{Aabb, aabb_wf, spec_aabb_hit, spec_box_union};
use crate::hittable::{HitRecord, hr_wf, Hittable, hittable_wf, spec_bbox, spec_hittable_hit, lemma_bbox_wf};
use crate::hittable_list::HittableList;
use crate::interval::{Interval, interval_wf};
use crate::ray::{Ray, ray_wf};

verus! {

/// A child of a tree node: either one of the scene's objects, by its
/// place in the arena, or a further node.
#[derive(Debug)]
pub enum BvhChild {
    Object(usize),
    Node(Box<BvhInner>),
}

/// An interior tree node: two children and the box bounding both.
#[derive(Debug)]
pub struct BvhInner {
    pub left: BvhChild,
    pub right: BvhChild,
    pub bbox: Aabb,
}

/// The tree root together with the arena of objects its leaves name.
#[derive(Debug)]
pub struct BVHNode {
    pub objects: Vec<Hittable>,
    pub root: BvhInner,
    pub bbox: Aabb,
}

/// Every leaf names a place inside the arena.
pub open spec fn bvh_child_wf(c: BvhChild, len: nat) -> bool
    decreases c,
{
    match c {
        BvhChild::Object(i) => (i as nat) < len,
        BvhChild::Node(b) => bvh_inner_wf(*b, len),
    }
}

/// Both subtrees well formed, all endpoints representable.
pub open spec fn bvh_inner_wf(n: BvhInner, len: nat) -> bool
    decreases n,
{
    aabb_wf(n.bbox) && bvh_child_wf(n.left, len) && bvh_child_wf(n.right, len)
}

/// Arena objects well formed and the tree's leaves within the arena.
pub open spec fn bvh_wf(node: BVHNode) -> bool
    decreases node,
{
    aabb_wf(node.bbox)
        && (forall|i: int| 0 <= i < node.objects@.len()
            ==> hittable_wf(#[trigger] node.objects@[i]))
        && bvh_inner_wf(node.root, node.objects@.len())
}

/// What hitting one child returns: the object's own test for a leaf, a
/// recursive walk for a node. A leaf out of the arena (which
/// well-formedness rules out) misses.
pub open spec fn spec_bvh_child_hit(
    objects: Seq<Hittable>,
    c: BvhChild,
    r: Ray,
    ray_t: Interval,
    rec: HitRecord,
) -> Option<HitRecord>
    decreases objects, c, 0int,
{
    match c {
        BvhChild::Object(i) => if 0 <= i < objects.len() {
            spec_hittable_hit(objects[i as int], r, ray_t, rec)
        } else {
            Option::None
        },
        BvhChild::Node(b) => spec_bvh_inner_hit(objects, *b, r, ray_t, rec),
    }
}

/// What hitting a node returns: nothing when the ray misses the node's
/// box; otherwise the left child, then the right child over the range
/// tightened to the left child's hit, so the record ends up with the
/// closer of the two.
pub open spec fn spec_bvh_inner_hit(
    objects: Seq<Hittable>,
    inner: BvhInner,
    r: Ray,
    ray_t: Interval,
    rec: HitRecord,
) -> Option<HitRecord>
    decreases objects, inner, 0int,
{
    if !spec_aabb_hit(inner.bbox, r, ray_t) {
        Option::None
    } else {
        match spec_bvh_child_hit(objects, inner.left, r, ray_t, rec) {
            Option::None => spec_bvh_child_hit(objects, inner.right, r, ray_t, rec),
            Option::Some(lr) => match spec_bvh_child_hit(
                objects,
                inner.right,
                r,
                Interval { min: ray_t.min, max: lr.t },
                lr,
            ) {
                Option::None => Option::Some(lr),
                Option::Some(rr) => Option::Some(rr),
            },
        }
    }
}

/// What hitting the whole hierarchy returns.
pub open spec fn spec_bvh_node_hit(node: BVHNode, r: Ray, ray_t: Interval, rec: HitRecord) -> Option<HitRecord>
    decreases node, node, 0int,
{
    spec_bvh_inner_hit(node.objects@, node.root, r, ray_t, rec)
}

/// The arena places of the leaves under a child, in traversal order.
pub open spec fn child_leaves(c: BvhChild) -> Seq<int>
    decreases c,
{
    match c {
        BvhChild::Object(i) => seq![i as int],
        BvhChild::Node(b) => inner_leaves(*b),
    }
}

/// The arena places of the leaves under a node, in traversal order.
pub open spec fn inner_leaves(n: BvhInner) -> Seq<int>
    decreases n,
{
    child_leaves(n.left) + child_leaves(n.right)
}

/// The closest-hit scan over a sequence of arena places: the very fold
/// the flat list performs, carrying (whether anything hit, the current
/// cutoff, the shared record slot). A place outside the arena is
/// skipped.
pub open spec fn spec_idx_scan(
    objects: Seq<Hittable>,
    idxs: Seq<int>,
    n: int,
    r: Ray,
    tmin: i64,
    state: (bool, i64, HitRecord),
) -> (bool, i64, HitRecord)
    decreases objects, objects, n,
{
    if n <= 0 || n > idxs.len() {
        state
    } else {
        let prev = spec_idx_scan(objects, idxs, n - 1, r, tmin, state);
        if 0 <= idxs[n - 1] < objects.len() {
            match spec_hittable_hit(
                objects[idxs[n - 1]],
                r,
                Interval { min: tmin, max: prev.1 },
                prev.2,
            ) {
                Option::None => prev,
                Option::Some(nr) => (true, nr.t, nr),
            }
        } else {
            prev
        }
    }
}

/// Pruning is sound for this tree and ray: whenever any leaf under a
/// node reports a hit within some range, that node's own box passes the
/// slab test over the same range. Disjoint axis-aligned geometry built
/// with padded boxes has this property; it is exactly what entitles the
/// walk to skip a subtree whose box the ray misses.
pub open spec fn prune_safe_child(objects: Seq<Hittable>, c: BvhChild, r: Ray) -> bool
    decreases c,
{
    match c {
        BvhChild::Object(_) => true,
        BvhChild::Node(b) => prune_safe_inner(objects, *b, r),
    }
}

/// See `prune_safe_child`.
pub open spec fn prune_safe_inner(objects: Seq<Hittable>, n: BvhInner, r: Ray) -> bool
    decreases n,
{
    &&& (forall|ray_t: Interval, rec: HitRecord, k: int|
        0 <= k < inner_leaves(n).len() && 0 <= inner_leaves(n)[k] < objects.len()
            && (#[trigger] spec_hittable_hit(objects[inner_leaves(n)[k]], r, ray_t, rec)) is Some
            ==> spec_aabb_hit(n.bbox, r, ray_t))
    &&& prune_safe_child(objects, n.left, r)
    &&& prune_safe_child(objects, n.right, r)
}

/// Once every object's own hits pass its own (non-inverted) box's slab
/// test, the builder's covering boxes make pruning sound throughout the
/// tree: a hit under any node passes that node's wider box too, by the
/// slab test's monotonicity.
pub proof fn lemma_covers_give_prune_safety(objects: Seq<Hittable>, n: BvhInner, r: Ray)
    requires
        bvh_inner_covers(objects, n),
        forall|i: int| 0 <= i < objects.len()
            ==> crate::aabb::spec_box_ordered(#[trigger] spec_bbox(objects[i])),
        forall|i: int, ray_t: Interval, rec: HitRecord|
            0 <= i < objects.len()
                && (#[trigger] spec_hittable_hit(objects[i], r, ray_t, rec)) is Some
                ==> spec_aabb_hit(spec_bbox(objects[i]), r, ray_t),
    ensures
        prune_safe_inner(objects, n, r),
    decreases n,
{
    reveal_with_fuel(bvh_inner_covers, 2);
    reveal_with_fuel(prune_safe_inner, 2);
    let leaves = inner_leaves(n);
    assert forall|ray_t: Interval, rec: HitRecord, k: int|
        0 <= k < leaves.len() && 0 <= leaves[k] < objects.len()
            && (#[trigger] spec_hittable_hit(objects[leaves[k]], r, ray_t, rec)) is Some
        implies spec_aabb_hit(n.bbox, r, ray_t) by {
        let lb = spec_bbox(objects[leaves[k]]);
        assert(spec_aabb_hit(lb, r, ray_t));
        assert(spec_box_covers(n.bbox, lb));
        crate::aabb::lemma_aabb_hit_monotone(lb, n.bbox, r, ray_t);
    }
    match n.left {
        BvhChild::Object(_) => {},
        BvhChild::Node(b) => {
            lemma_covers_give_prune_safety(objects, *b, r);
        },
    }
    match n.right {
        BvhChild::Object(_) => {},
        BvhChild::Node(b) => {
            lemma_covers_give_prune_safety(objects, *b, r);
        },
    }
}

/// The scan looks only at the places before its cursor, so two
/// sequences that agree there scan alike.
proof fn lemma_scan_prefix_agree(
    objects: Seq<Hittable>,
    xs: Seq<int>,
    ys: Seq<int>,
    n: int,
    r: Ray,
    tmin: i64,
    state: (bool, i64, HitRecord),
)
    requires
        0 <= n <= xs.len(),
        n <= ys.len(),
        forall|k: int| 0 <= k < n ==> xs[k] == ys[k],
    ensures
        spec_idx_scan(objects, xs, n, r, tmin, state)
            == spec_idx_scan(objects, ys, n, r, tmin, state),
    decreases n,
{
    if n > 0 {
        lemma_scan_prefix_agree(objects, xs, ys, n - 1, r, tmin, state);
    }
}

/// Scanning a concatenation is scanning the second part from the state
/// the first part left behind.
proof fn lemma_scan_concat(
    objects: Seq<Hittable>,
    xs: Seq<int>,
    ys: Seq<int>,
    m: int,
    r: Ray,
    tmin: i64,
    state: (bool, i64, HitRecord),
)
    requires
        0 <= m <= ys.len(),
    ensures
        spec_idx_scan(objects, xs + ys, xs.len() + m, r, tmin, state)
            == spec_idx_scan(objects, ys, m, r, tmin,
                spec_idx_scan(objects, xs, xs.len() as int, r, tmin, state)),
    decreases m,
{
    if m == 0 {
        lemma_scan_prefix_agree(objects, xs + ys, xs, xs.len() as int, r, tmin, state);
    } else {
        lemma_scan_concat(objects, xs, ys, m - 1, r, tmin, state);
        assert((xs + ys)[xs.len() + m - 1] == ys[m - 1]);
    }
}

/// A scan in which every place misses over the unchanged range leaves
/// the state alone.
proof fn lemma_scan_stuck(
    objects: Seq<Hittable>,
    idxs: Seq<int>,
    n: int,
    r: Ray,
    tmin: i64,
    state: (bool, i64, HitRecord),
)
    requires
        0 <= n <= idxs.len(),
        forall|k: int| 0 <= k < n && 0 <= idxs[k] < objects.len()
            ==> (#[trigger] spec_hittable_hit(
                objects[idxs[k]],
                r,
                Interval { min: tmin, max: state.1 },
                state.2,
            )) is None,
    ensures
        spec_idx_scan(objects, idxs, n, r, tmin, state) == state,
    decreases n,
{
    if n > 0 {
        lemma_scan_stuck(objects, idxs, n - 1, r, tmin, state);
    }
}

/// The walk of one child reports exactly what the closest-hit scan over
/// that child's leaves reports, starting from the walk's incoming
/// range and record: a miss leaves the scan state untouched, a hit
/// leaves it at that hit.
proof fn lemma_child_matches_scan(
    objects: Seq<Hittable>,
    c: BvhChild,
    r: Ray,
    tmin: i64,
    state: (bool, i64, HitRecord),
)
    requires
        bvh_child_wf(c, objects.len()),
        prune_safe_child(objects, c, r),
    ensures
        ({
            let walk = spec_bvh_child_hit(objects, c, r, Interval { min: tmin, max: state.1 }, state.2);
            let scan = spec_idx_scan(objects, child_leaves(c), child_leaves(c).len() as int, r, tmin, state);
            match walk {
                Option::None => scan == state,
                Option::Some(nr) => scan == (true, nr.t, nr),
            }
        }),
    decreases c,
{
    reveal_with_fuel(spec_bvh_child_hit, 2);
    match c {
        BvhChild::Object(i) => {
            assert(child_leaves(c) == seq![i as int]);
            assert(spec_idx_scan(objects, child_leaves(c), 0, r, tmin, state) == state);
        },
        BvhChild::Node(b) => {
            let n = *b;
            let leaves = inner_leaves(n);
            let lx = child_leaves(n.left);
            let ly = child_leaves(n.right);
            let cur = Interval { min: tmin, max: state.1 };
            if !spec_aabb_hit(n.bbox, r, cur) {
                assert forall|k: int|
                    0 <= k < leaves.len() && 0 <= leaves[k] < objects.len() implies (
                    #[trigger] spec_hittable_hit(objects[leaves[k]], r, cur, state.2)) is None by {
                    if spec_hittable_hit(objects[leaves[k]], r, cur, state.2) is Some {
                        assert(spec_aabb_hit(n.bbox, r, cur));
                    }
                }
                lemma_scan_stuck(objects, leaves, leaves.len() as int, r, tmin, state);
            } else {
                lemma_child_matches_scan(objects, n.left, r, tmin, state);
                let s_left = spec_idx_scan(objects, lx, lx.len() as int, r, tmin, state);
                let walk_left = spec_bvh_child_hit(objects, n.left, r, cur, state.2);
                let mid_state: (bool, i64, HitRecord) = match walk_left {
                    Option::None => state,
                    Option::Some(lr) => (true, lr.t, lr),
                };
                assert(s_left == mid_state);
                lemma_child_matches_scan(objects, n.right, r, tmin, mid_state);
                lemma_scan_concat(objects, lx, ly, ly.len() as int, r, tmin, state);
                assert(leaves == lx + ly);
                assert(leaves.len() == lx.len() + ly.len());
            }
        },
    }
}

/// The hierarchy and the flat closest-hit scan over its leaves agree on
/// every query: the walk's pruning and range-narrowing compute exactly
/// the fold the linear container computes, leaf by leaf. The premise is
/// that pruning is sound for this ray — every object's hits stay inside
/// the boxes of the nodes above it, as holds for disjoint axis-aligned
/// geometry.
pub proof fn lemma_bvh_matches_linear_scan(node: BVHNode, r: Ray, ray_t: Interval, rec: HitRecord)
    requires
        bvh_wf(node),
        prune_safe_inner(node.objects@, node.root, r),
    ensures
        ({
            let leaves = inner_leaves(node.root);
            let scan = spec_idx_scan(
                node.objects@,
                leaves,
                leaves.len() as int,
                r,
                ray_t.min,
                (false, ray_t.max, rec),
            );
            match spec_bvh_node_hit(node, r, ray_t, rec) {
                Option::None => scan == (false, ray_t.max, rec),
                Option::Some(nr) => scan == (true, nr.t, nr),
            }
        }),
{
    reveal_with_fuel(spec_bvh_node_hit, 2);
    let state: (bool, i64, HitRecord) = (false, ray_t.max, rec);
    lemma_child_matches_scan(node.objects@, BvhChild::Node(Box::new(node.root)), r, ray_t.min, state);
    reveal_with_fuel(spec_bvh_child_hit, 2);
    assert(Interval { min: ray_t.min, max: state.1 } == ray_t);
}

/// One box covering another, axis by axis.
pub open spec fn spec_box_covers(outer: Aabb, inner: Aabb) -> bool {
    &&& outer.x.min <= inner.x.min && inner.x.max <= outer.x.max
    &&& outer.y.min <= inner.y.min && inner.y.max <= outer.y.max
    &&& outer.z.min <= inner.z.min && inner.z.max <= outer.z.max
}

/// Whether a child's box covers the boxes of all leaves beneath it.
pub open spec fn bvh_child_covers(objects: Seq<Hittable>, c: BvhChild) -> bool
    decreases c,
{
    match c {
        BvhChild::Object(_) => true,
        BvhChild::Node(b) => bvh_inner_covers(objects, *b),
    }
}

/// Every node's box covers the box of every leaf beneath it, down the
/// whole subtree: the geometric backbone of pruning.
pub open spec fn bvh_inner_covers(objects: Seq<Hittable>, n: BvhInner) -> bool
    decreases n,
{
    &&& (forall|k: int| 0 <= k < inner_leaves(n).len() && 0 <= inner_leaves(n)[k] < objects.len()
        ==> spec_box_covers(n.bbox, spec_bbox(objects[#[trigger] inner_leaves(n)[k]])))
    &&& bvh_child_covers(objects, n.left)
    &&& bvh_child_covers(objects, n.right)
}

/// The union-fold of the boxes of the objects a window of the index
/// vector names, in window order, grown from the empty box.
pub open spec fn window_boxes(objects: Seq<Hittable>, idxs: Seq<usize>, start: int, end: int) -> Aabb
    decreases end - start,
{
    if end <= start {
        Aabb { x: Interval::spec_empty(), y: Interval::spec_empty(), z: Interval::spec_empty() }
    } else {
        spec_box_union(
            window_boxes(objects, idxs, start, end - 1),
            spec_bbox(objects[idxs[end - 1] as int]),
        )
    }
}

/// The union-fold of the boxes of the first `n` objects themselves.
pub open spec fn spec_scene_box(objects: Seq<Hittable>, n: int) -> Aabb
    decreases n,
{
    if n <= 0 {
        Aabb { x: Interval::spec_empty(), y: Interval::spec_empty(), z: Interval::spec_empty() }
    } else {
        spec_box_union(spec_scene_box(objects, n - 1), spec_bbox(objects[n - 1]))
    }
}

/// The union-fold over a window covers every member's box.
proof fn lemma_window_boxes_cover(objects: Seq<Hittable>, idxs: Seq<usize>, start: int, end: int, j: int)
    requires
        start <= j < end,
    ensures
        spec_box_covers(
            window_boxes(objects, idxs, start, end),
            spec_bbox(objects[idxs[j] as int]),
        ),
    decreases end - start,
{
    if j < end - 1 {
        lemma_window_boxes_cover(objects, idxs, start, end - 1, j);
    }
}

/// Over the identity ordering the window fold is the fold over the
/// objects themselves.
proof fn lemma_window_boxes_identity(objects: Seq<Hittable>, idxs: Seq<usize>, n: int)
    requires
        0 <= n <= idxs.len(),
        forall|k: int| 0 <= k < idxs.len() ==> (#[trigger] idxs[k]) as int == k,
    ensures
        window_boxes(objects, idxs, 0, n) == spec_scene_box(objects, n),
    decreases n,
{
    if n > 0 {
        lemma_window_boxes_identity(objects, idxs, n - 1);
    }
}

/// Whether some place in the window `[start, end)` of the index vector
/// holds the value.
pub open spec fn in_window(idxs: Seq<usize>, start: int, end: int, v: int) -> bool {
    exists|j: int| start <= j < end && (#[trigger] idxs[j]) as int == v
}

/// Swapping two places inside a window leaves the window's contents
/// unchanged as a multiset.
proof fn lemma_swap_window_multiset(s: Seq<usize>, start: int, end: int, i: int, j: int)
    requires
        0 <= start <= i < j < end <= s.len(),
    ensures
        s.update(i, s[j]).update(j, s[i]).subrange(start, end).to_multiset()
            == s.subrange(start, end).to_multiset(),
{
    broadcast use vstd::seq_lib::to_multiset_update;
    broadcast use vstd::multiset::group_multiset_axioms;
    broadcast use vstd::seq_lib::group_to_multiset_ensures;

    let sub = s.subrange(start, end);
    let swapped = s.update(i, s[j]).update(j, s[i]);
    let sub2 = swapped.subrange(start, end);
    assert(sub2 =~= sub.update(i - start, s[j]).update(j - start, s[i]));
    assert(sub[i - start] == s[i]);
    assert(sub.update(i - start, s[j])[j - start] == s[j]);
    assert(sub.contains(s[i]));
    assert(sub.contains(s[j]));
    assert(sub2.to_multiset() =~= sub.to_multiset());
}

/// Windows with equal contents as multisets hold the same values.
proof fn lemma_window_from_multiset(s1: Seq<usize>, s2: Seq<usize>, start: int, end: int)
    requires
        0 <= start <= end <= s1.len(),
        end <= s2.len(),
        s1.subrange(start, end).to_multiset() == s2.subrange(start, end).to_multiset(),
    ensures
        forall|v: int| in_window(s1, start, end, v) <==> in_window(s2, start, end, v),
{
    broadcast use vstd::seq_lib::group_to_multiset_ensures;
    let a = s1.subrange(start, end);
    let b = s2.subrange(start, end);
    assert forall|v: int| in_window(s1, start, end, v) implies in_window(s2, start, end, v) by {
        let j = choose|j: int| start <= j < end && (#[trigger] s1[j]) as int == v;
        assert(a[j - start] == s1[j]);
        assert(a.contains(s1[j]));
        assert(a.to_multiset().count(s1[j]) > 0);
        assert(b.to_multiset().count(s1[j]) > 0);
        assert(b.contains(s1[j]));
        let k = choose|k: int| 0 <= k < b.len() && b[k] == s1[j];
        assert(s2[k + start] == s1[j]);
    }
    assert forall|v: int| in_window(s2, start, end, v) implies in_window(s1, start, end, v) by {
        let j = choose|j: int| start <= j < end && (#[trigger] s2[j]) as int == v;
        assert(b[j - start] == s2[j]);
        assert(b.contains(s2[j]));
        assert(b.to_multiset().count(s2[j]) > 0);
        assert(a.to_multiset().count(s2[j]) > 0);
        assert(a.contains(s2[j]));
        let k = choose|k: int| 0 <= k < a.len() && a[k] == s2[j];
        assert(s1[k + start] == s2[j]);
    }
}

/// The bookkeeping of one median split: if sorting preserved the
/// window's contents, each half-build preserved its own sub-window and
/// produced leaves naming exactly that sub-window, then the whole
/// node's leaves name exactly the original window, and the final index
/// vector still holds the same window contents. The halves overlap in
/// one place, which only duplicates a value that is present either way.
#[verifier::rlimit(100)]
proof fn lemma_build_split_windows(
    s0: Seq<usize>,
    s1: Seq<usize>,
    s2: Seq<usize>,
    s3: Seq<usize>,
    start: int,
    mid: int,
    end: int,
    left: BvhInner,
    right: BvhInner,
    node: BvhInner,
)
    requires
        0 <= start,
        start + 2 < end <= s0.len(),
        start < mid,
        mid + 1 < end,
        s1.len() == s0.len(),
        s2.len() == s0.len(),
        s3.len() == s0.len(),
        forall|v: int| #[trigger] in_window(s1, start, end, v) <==> in_window(s0, start, end, v),
        forall|j: int| 0 <= j < s1.len() && !(start <= j < mid + 1) ==> #[trigger] s2[j] == s1[j],
        forall|v: int| #[trigger] in_window(s2, start, mid + 1, v) <==> in_window(s1, start, mid + 1, v),
        forall|v: int| #[trigger] inner_leaves(left).contains(v) <==> in_window(s1, start, mid + 1, v),
        forall|j: int| 0 <= j < s2.len() && !(mid <= j < end) ==> #[trigger] s3[j] == s2[j],
        forall|v: int| #[trigger] in_window(s3, mid, end, v) <==> in_window(s2, mid, end, v),
        forall|v: int| #[trigger] inner_leaves(right).contains(v) <==> in_window(s2, mid, end, v),
        inner_leaves(node) == inner_leaves(left) + inner_leaves(right),
    ensures
        forall|v: int| #[trigger] in_window(s3, start, end, v) <==> in_window(s0, start, end, v),
        forall|v: int| #[trigger] inner_leaves(node).contains(v) <==> in_window(s0, start, end, v),
{
    // Anything in the second half-window of the later vector is in the
    // full window of the earlier one, and the other way round.
    assert forall|v: int| in_window(s2, mid, end, v) implies in_window(s1, start, end, v) by {
        let j = choose|j: int| mid <= j < end && (#[trigger] s2[j]) as int == v;
        if j >= mid + 1 {
            assert(s2[j] == s1[j]);
            assert(start <= j < end && (s1[j]) as int == v);
        } else {
            assert(start <= j < mid + 1 && (s2[j]) as int == v);
            assert(in_window(s2, start, mid + 1, v));
            assert(in_window(s1, start, mid + 1, v));
            let j2 = choose|j2: int| start <= j2 < mid + 1 && (#[trigger] s1[j2]) as int == v;
            assert(start <= j2 < end && (s1[j2]) as int == v);
        }
    }

    assert forall|v: int| #[trigger] inner_leaves(node).contains(v)
        implies in_window(s0, start, end, v) by {
        let lv = inner_leaves(node);
        let k = choose|k: int| 0 <= k < lv.len() && lv[k] == v;
        if k < inner_leaves(left).len() {
            assert(inner_leaves(left)[k] == v);
            assert(inner_leaves(left).contains(v));
            let j = choose|j: int| start <= j < mid + 1 && (#[trigger] s1[j]) as int == v;
            assert(start <= j < end && (s1[j]) as int == v);
            assert(in_window(s1, start, end, v));
        } else {
            assert(inner_leaves(right)[k - inner_leaves(left).len()] == v);
            assert(inner_leaves(right).contains(v));
            assert(in_window(s2, mid, end, v));
            assert(in_window(s1, start, end, v));
        }
        assert(in_window(s0, start, end, v));
    }

    assert forall|v: int| in_window(s0, start, end, v)
        implies #[trigger] inner_leaves(node).contains(v) by {
        assert(in_window(s1, start, end, v));
        let j = choose|j: int| start <= j < end && (#[trigger] s1[j]) as int == v;
        if j < mid + 1 {
            assert(in_window(s1, start, mid + 1, v));
            assert(inner_leaves(left).contains(v));
            let k = choose|k: int| 0 <= k < inner_leaves(left).len()
                && (#[trigger] inner_leaves(left)[k]) == v;
            assert(inner_leaves(node)[k] == v);
        } else {
            assert(s2[j] == s1[j]);
            assert(mid <= j < end && (s2[j]) as int == v);
            assert(in_window(s2, mid, end, v));
            assert(inner_leaves(right).contains(v));
            let k = choose|k: int| 0 <= k < inner_leaves(right).len()
                && (#[trigger] inner_leaves(right)[k]) == v;
            assert(inner_leaves(node)[inner_leaves(left).len() + k] == v);
        }
        assert(inner_leaves(node).contains(v));
    }

    assert forall|v: int| in_window(s3, start, end, v)
        implies #[trigger] in_window(s0, start, end, v) by {
        let j = choose|j: int| start <= j < end && (#[trigger] s3[j]) as int == v;
        if j >= mid {
            assert(in_window(s3, mid, end, v));
            assert(in_window(s2, mid, end, v));
            assert(in_window(s1, start, end, v));
        } else {
            assert(s3[j] == s2[j]);
            assert(start <= j < mid + 1 && (s2[j]) as int == v);
            assert(in_window(s2, start, mid + 1, v));
            assert(in_window(s1, start, mid + 1, v));
            let j2 = choose|j2: int| start <= j2 < mid + 1 && (#[trigger] s1[j2]) as int == v;
            assert(start <= j2 < end && (s1[j2]) as int == v);
            assert(in_window(s1, start, end, v));
        }
        assert(in_window(s0, start, end, v));
    }

    assert forall|v: int| in_window(s0, start, end, v)
        implies #[trigger] in_window(s3, start, end, v) by {
        assert(in_window(s1, start, end, v));
        let j = choose|j: int| start <= j < end && (#[trigger] s1[j]) as int == v;
        if j < mid + 1 {
            assert(in_window(s1, start, mid + 1, v));
            assert(in_window(s2, start, mid + 1, v));
            let j2 = choose|j2: int| start <= j2 < mid + 1 && (#[trigger] s2[j2]) as int == v;
            if j2 < mid {
                assert(s3[j2] == s2[j2]);
                assert(start <= j2 < end && (s3[j2]) as int == v);
            } else {
                assert(mid <= j2 < end && (s2[j2]) as int == v);
                assert(in_window(s2, mid, end, v));
                assert(in_window(s3, mid, end, v));
                let j3 = choose|j3: int| mid <= j3 < end && (#[trigger] s3[j3]) as int == v;
                assert(start <= j3 < end && (s3[j3]) as int == v);
            }
        } else {
            assert(s2[j] == s1[j]);
            assert(mid <= j < end && (s2[j]) as int == v);
            assert(in_window(s2, mid, end, v));
            assert(in_window(s3, mid, end, v));
            let j3 = choose|j3: int| mid <= j3 < end && (#[trigger] s3[j3]) as int == v;
            assert(start <= j3 < end && (s3[j3]) as int == v);
        }
    }
}

/// Over the arena places in their own order, the indexed scan is
/// literally the flat list's scan: the two containers run one and the
/// same fold.
pub proof fn lemma_idx_scan_is_list_scan(
    objects: Seq<Hittable>,
    idxs: Seq<int>,
    n: int,
    r: Ray,
    tmin: i64,
    state: (bool, i64, HitRecord),
)
    requires
        0 <= n <= idxs.len(),
        idxs.len() == objects.len(),
        forall|k: int| 0 <= k < idxs.len() ==> idxs[k] == k,
    ensures
        spec_idx_scan(objects, idxs, n, r, tmin, state)
            == crate::hittable_list::spec_list_scan(objects, n, r, tmin, state),
    decreases n,
{
    if n > 0 {
        lemma_idx_scan_is_list_scan(objects, idxs, n - 1, r, tmin, state);
    }
}

/// Order the index range `[start, end)` by each object's bounding-box
/// minimum along the chosen axis, by insertion sort.
fn sort_range(objects: &Vec<Hittable>, idxs: &mut Vec<usize>, start: usize, end: usize, axis: usize)
    requires
        start <= end <= old(idxs)@.len(),
        forall|j: int| 0 <= j < old(idxs)@.len() ==> (#[trigger] old(idxs)@[j]) < objects@.len(),
        forall|i: int| 0 <= i < objects@.len() ==> hittable_wf(#[trigger] objects@[i]),
    ensures
        final(idxs)@.len() == old(idxs)@.len(),
        forall|j: int| 0 <= j < final(idxs)@.len() ==> (#[trigger] final(idxs)@[j]) < objects@.len(),
        forall|j: int| 0 <= j < old(idxs)@.len() && !(start <= j < end)
            ==> final(idxs)@[j] == old(idxs)@[j],
        final(idxs)@.subrange(start as int, end as int).to_multiset()
            == old(idxs)@.subrange(start as int, end as int).to_multiset(),
{
    let ghost orig: Seq<usize> = idxs@;
    let mut i: usize = start;
    while i < end
        invariant
            start <= i <= end <= idxs@.len(),
            idxs@.len() == orig.len(),
            forall|j: int| 0 <= j < idxs@.len() ==> (#[trigger] idxs@[j]) < objects@.len(),
            forall|i2: int| 0 <= i2 < objects@.len() ==> hittable_wf(#[trigger] objects@[i2]),
            forall|j: int| 0 <= j < orig.len() && !(start <= j < end) ==> idxs@[j] == orig[j],
            idxs@.subrange(start as int, end as int).to_multiset()
                == orig.subrange(start as int, end as int).to_multiset(),
        decreases end - i,
    {
        let mut k: usize = i;
        while k > start
            invariant
                start <= k <= i < end <= idxs@.len(),
                idxs@.len() == orig.len(),
                forall|j: int| 0 <= j < idxs@.len() ==> (#[trigger] idxs@[j]) < objects@.len(),
                forall|i2: int| 0 <= i2 < objects@.len() ==> hittable_wf(#[trigger] objects@[i2]),
                forall|j: int| 0 <= j < orig.len() && !(start <= j < end) ==> idxs@[j] == orig[j],
                idxs@.subrange(start as int, end as int).to_multiset()
                    == orig.subrange(start as int, end as int).to_multiset(),
            decreases k,
        {
            let a: usize = idxs[k - 1];
            let b: usize = idxs[k];
            let key_a: i64 = objects[a].bounding_box().axis_interval(axis).min;
            let key_b: i64 = objects[b].bounding_box().axis_interval(axis).min;
            if key_b < key_a {
                let ghost pre = idxs@;
                proof {
                    lemma_swap_window_multiset(pre, start as int, end as int, k - 1, k as int);
                }
                let tmp: usize = idxs[k - 1];
                idxs.set(k - 1, b);
                idxs.set(k, tmp);
                proof {
                    assert(idxs@ == pre.update(k - 1, b as usize).update(k as int, tmp));
                }
                k = k - 1;
            } else {
                break;
            }
        }
        i = i + 1;
    }
}

impl BVHNode {
    /// The hierarchy over a list's objects; the list must hold at least
    /// one object.
    pub fn new_from_list(list: HittableList) -> (r: BVHNode)
        requires
            hittable_wf(Hittable::List(list)),
            list.objects@.len() >= 1,
        ensures
            bvh_wf(r),
            r.objects@ == list.objects@,
            r.bbox == r.root.bbox,
            r.bbox == spec_scene_box(list.objects@, list.objects@.len() as int),
            bvh_inner_covers(r.objects@, r.root),
            hittable_wf(Hittable::Bvh(r)),
            forall|v: int| #[trigger] inner_leaves(r.root).contains(v)
                <==> 0 <= v < list.objects@.len(),
    {
        let objects: Vec<Hittable> = list.objects;
        let n: usize = objects.len();
        let mut idxs: Vec<usize> = Vec::new();
        let mut i: usize = 0;
        while i < n
            invariant
                0 <= i <= n,
                n == objects@.len(),
                idxs@.len() == i,
                forall|j: int| 0 <= j < idxs@.len() ==> (#[trigger] idxs@[j]) as int == j,
            decreases n - i,
        {
            idxs.push(i);
            i = i + 1;
        }
        let ghost ident = idxs@;
        let root: BvhInner = Self::build(&objects, &mut idxs, 0, n);
        proof {
            lemma_window_boxes_identity(objects@, ident, n as int);
            assert forall|v: int| #[trigger] inner_leaves(root).contains(v)
                <==> 0 <= v < objects@.len() by {
                if inner_leaves(root).contains(v) {
                    assert(in_window(ident, 0, n as int, v));
                    let j = choose|j: int| 0 <= j < n && (#[trigger] ident[j]) as int == v;
                }
                if 0 <= v < objects@.len() {
                    assert(0 <= v < n && (ident[v]) as int == v);
                    assert(in_window(ident, 0, n as int, v));
                }
            }
        }
        let bbox: Aabb = root.bbox;
        BVHNode { objects, root, bbox }
    }

    /// Build the subtree over the index range `[start, end)`: bound the
    /// range, pick the widest axis, and split. A single object becomes
    /// both children of its node; two objects become the two children;
    /// a longer range is sorted along the axis and split at the median,
    /// with the median object shared by both halves.
    fn build(objects: &Vec<Hittable>, idxs: &mut Vec<usize>, start: usize, end: usize) -> (r: BvhInner)
        requires
            start < end <= old(idxs)@.len(),
            forall|j: int| 0 <= j < old(idxs)@.len() ==> (#[trigger] old(idxs)@[j]) < objects@.len(),
            forall|i: int| 0 <= i < objects@.len() ==> hittable_wf(#[trigger] objects@[i]),
        ensures
            final(idxs)@.len() == old(idxs)@.len(),
            forall|j: int| 0 <= j < final(idxs)@.len() ==> (#[trigger] final(idxs)@[j]) < objects@.len(),
            bvh_inner_wf(r, objects@.len()),
            r.bbox == window_boxes(objects@, old(idxs)@, start as int, end as int),
            bvh_inner_covers(objects@, r),
            forall|j: int| 0 <= j < old(idxs)@.len() && !(start <= j < end)
                ==> final(idxs)@[j] == old(idxs)@[j],
            forall|v: int| in_window(final(idxs)@, start as int, end as int, v)
                <==> in_window(old(idxs)@, start as int, end as int, v),
            forall|v: int| #[trigger] inner_leaves(r).contains(v)
                <==> in_window(old(idxs)@, start as int, end as int, v),
        decreases end - start,
    {
        let mut bbox: Aabb = Aabb::empty();
        let mut k: usize = start;
        while k < end
            invariant
                start <= k <= end <= idxs@.len(),
                aabb_wf(bbox),
                idxs@ == old(idxs)@,
                bbox == window_boxes(objects@, idxs@, start as int, k as int),
                forall|j: int| 0 <= j < idxs@.len() ==> (#[trigger] idxs@[j]) < objects@.len(),
                forall|i: int| 0 <= i < objects@.len() ==> hittable_wf(#[trigger] objects@[i]),
            decreases end - k,
        {
            let oi: usize = idxs[k];
            proof {
                lemma_bbox_wf(objects@[oi as int]);
            }
            bbox = Aabb::aabb_from_boxes(&bbox, objects[oi].bounding_box());
            k = k + 1;
        }

        let axis: usize = bbox.longest_axis();
        let object_span: usize = end - start;

        if object_span == 1 {
            let i0: usize = idxs[start];
            let node: BvhInner = BvhInner { left: BvhChild::Object(i0), right: BvhChild::Object(i0), bbox };
            proof {
                assert(inner_leaves(node) =~= seq![i0 as int, i0 as int]);
                reveal_with_fuel(bvh_inner_covers, 2);
                lemma_window_boxes_cover(objects@, idxs@, start as int, end as int, start as int);
                assert forall|k: int| 0 <= k < inner_leaves(node).len()
                    && 0 <= inner_leaves(node)[k] < objects@.len()
                    implies spec_box_covers(node.bbox, spec_bbox(objects@[inner_leaves(node)[k]])) by {
                    assert(inner_leaves(node)[k] == i0 as int);
                }
                assert forall|v: int| #[trigger] inner_leaves(node).contains(v)
                    <==> in_window(idxs@, start as int, end as int, v) by {
                    if inner_leaves(node).contains(v) {
                        assert(v == i0 as int);
                        assert(start <= start < end && (idxs@[start as int]) as int == v);
                    }
                    if in_window(idxs@, start as int, end as int, v) {
                        let j = choose|j: int| start <= j < end && (#[trigger] idxs@[j]) as int == v;
                        assert(j == start);
                        assert(inner_leaves(node)[0] == v);
                    }
                }
            }
            node
        } else if object_span == 2 {
            let i0: usize = idxs[start];
            let i1: usize = idxs[start + 1];
            let node: BvhInner = BvhInner { left: BvhChild::Object(i0), right: BvhChild::Object(i1), bbox };
            proof {
                assert(inner_leaves(node) =~= seq![i0 as int, i1 as int]);
                reveal_with_fuel(bvh_inner_covers, 2);
                lemma_window_boxes_cover(objects@, idxs@, start as int, end as int, start as int);
                lemma_window_boxes_cover(objects@, idxs@, start as int, end as int, start as int + 1);
                assert forall|k: int| 0 <= k < inner_leaves(node).len()
                    && 0 <= inner_leaves(node)[k] < objects@.len()
                    implies spec_box_covers(node.bbox, spec_bbox(objects@[inner_leaves(node)[k]])) by {
                    assert(inner_leaves(node)[k] == i0 as int || inner_leaves(node)[k] == i1 as int);
                }
                assert forall|v: int| #[trigger] inner_leaves(node).contains(v)
                    <==> in_window(idxs@, start as int, end as int, v) by {
                    if inner_leaves(node).contains(v) {
                        assert(v == i0 as int || v == i1 as int);
                        if v == i0 as int {
                            assert(start <= start < end && (idxs@[start as int]) as int == v);
                        } else {
                            assert(start <= start + 1 < end && (idxs@[start as int + 1]) as int == v);
                        }
                    }
                    if in_window(idxs@, start as int, end as int, v) {
                        let j = choose|j: int| start <= j < end && (#[trigger] idxs@[j]) as int == v;
                        if j == start {
                            assert(inner_leaves(node)[0] == v);
                        } else {
                            assert(inner_leaves(node)[1] == v);
                        }
                    }
                }
            }
            node
        } else {
            let ghost s0 = idxs@;
            sort_range(objects, idxs, start, end, axis);
            let ghost s1 = idxs@;
            proof {
                lemma_window_from_multiset(s1, s0, start as int, end as int);
            }
            let mid: usize = start + object_span / 2;
            let left: BvhInner = Self::build(objects, idxs, start, mid + 1);
            let ghost s2 = idxs@;
            let right: BvhInner = Self::build(objects, idxs, mid, end);
            let ghost s3 = idxs@;
            let node: BvhInner = BvhInner {
                left: BvhChild::Node(Box::new(left)),
                right: BvhChild::Node(Box::new(right)),
                bbox,
            };
            proof {
                lemma_build_split_windows(
                    s0, s1, s2, s3,
                    start as int, mid as int, end as int,
                    left, right, node,
                );
                reveal_with_fuel(bvh_inner_covers, 2);
                assert forall|k: int| 0 <= k < inner_leaves(node).len()
                    && 0 <= inner_leaves(node)[k] < objects@.len()
                    implies spec_box_covers(node.bbox, spec_bbox(objects@[inner_leaves(node)[k]])) by {
                    let v = inner_leaves(node)[k];
                    assert(inner_leaves(node).contains(v));
                    assert(in_window(s0, start as int, end as int, v));
                    let j = choose|j: int| start <= j < end && (#[trigger] s0[j]) as int == v;
                    lemma_window_boxes_cover(objects@, s0, start as int, end as int, j);
                }
            }
            node
        }
    }

    /// Walk the tree: reject on this node's box, then the left child,
    /// then the right child over the range tightened to the left hit.
    #[verifier::rlimit(50)]
    pub fn hit(&self, r: &Ray, ray_t: Interval, rec: &mut HitRecord) -> (res: bool)
        requires
            bvh_wf(*self),
            ray_wf(*r),
            interval_wf(ray_t),
            hr_wf(*old(rec)),
        ensures
            hr_wf(*final(rec)),
            match spec_bvh_node_hit(*self, *r, ray_t, *old(rec)) {
                Option::Some(nr) => res && *final(rec) == nr,
                Option::None => !res && *final(rec) == *old(rec),
            },
        decreases (Hittable::Bvh(*self)), (Hittable::Bvh(*self)), 0int,
    {
        proof {
            let ghost g = Hittable::Bvh(*self);
            assert(decreases_to!(g => g->Bvh_0));
            assert(g->Bvh_0 == *self);
            assert(decreases_to!(*self => self.objects@));
        }
        hit_inner(&self.objects, &self.root, r, ray_t, rec)
    }

    /// The box bounding the whole hierarchy.
    pub fn bounding_box(&self) -> (r: &Aabb)
        ensures
            *r == self.bbox,
    {
        &self.bbox
    }
}

/// Walk one interior node.
fn hit_inner(
    objects: &Vec<Hittable>,
    inner: &BvhInner,
    r: &Ray,
    ray_t: Interval,
    rec: &mut HitRecord,
) -> (res: bool)
    requires
        forall|i: int| 0 <= i < objects@.len() ==> hittable_wf(#[trigger] objects@[i]),
        bvh_inner_wf(*inner, objects@.len()),
        ray_wf(*r),
        interval_wf(ray_t),
        hr_wf(*old(rec)),
    ensures
        hr_wf(*final(rec)),
        match spec_bvh_inner_hit(objects@, *inner, *r, ray_t, *old(rec)) {
            Option::Some(nr) => res && *final(rec) == nr,
            Option::None => !res && *final(rec) == *old(rec),
        },
    decreases objects@, *inner, 0int,
{
    if !inner.bbox.hit(r, ray_t) {
        return false;
    }

    let hit_left: bool = hit_child(objects, &inner.left, r, ray_t, rec);
    let upper: i64 = if hit_left { rec.t } else { ray_t.max };
    let hit_right: bool = hit_child(objects, &inner.right, r, Interval::new(ray_t.min, upper), rec);

    hit_left || hit_right
}

/// Test one child: the object's own test for a leaf, a recursive walk
/// for a node.
fn hit_child(
    objects: &Vec<Hittable>,
    c: &BvhChild,
    r: &Ray,
    ray_t: Interval,
    rec: &mut HitRecord,
) -> (res: bool)
    requires
        forall|i: int| 0 <= i < objects@.len() ==> hittable_wf(#[trigger] objects@[i]),
        bvh_child_wf(*c, objects@.len()),
        ray_wf(*r),
        interval_wf(ray_t),
        hr_wf(*old(rec)),
    ensures
        hr_wf(*final(rec)),
        match spec_bvh_child_hit(objects@, *c, *r, ray_t, *old(rec)) {
            Option::Some(nr) => res && *final(rec) == nr,
            Option::None => !res && *final(rec) == *old(rec),
        },
    decreases objects@, *c, 0int,
{
    match c {
        BvhChild::Object(i) => {
            proof {
                assert(decreases_to!(objects@ => objects@[*i as int]));
            }
            objects[*i].hit(r, ray_t, rec)
        },
        BvhChild::Node(b) => hit_inner(objects, b, r, ray_t, rec),
    }
}

} // verus!
