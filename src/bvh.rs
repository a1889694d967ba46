use vstd::prelude::*;

use crate::geometry::{
    triangle_bounds, triangle_box, triangle_centroid_sum, triangle_in_range, Aabb, Triangle,
    Vertex,
};

verus! {

/// Largest number of triangles a leaf holds when the builder is not told otherwise.
pub const LEAF_SIZE: usize = 4;

/// Largest number of triangles a hierarchy can be built over.
pub const MAX_TRIANGLES: usize = 0x7fff_fffe;

/// What a node points at: two child nodes, or a contiguous range of triangles.
#[derive(Clone, Copy, Debug, PartialEq, Eq, Structural)]
pub enum NodeLink {
    Inner { left: u32, right: u32 },
    Leaf { first: u32, count: u32 },
}

/// One entry of the flattened hierarchy; child links are absolute indices.
#[derive(Clone, Copy, Debug, PartialEq, Eq, Structural)]
pub struct BvhNode {
    pub bounds: Aabb,
    pub link: NodeLink,
}

/// The triangles `first .. first + count` in order.
pub open spec fn span(first: int, end: int) -> Seq<int> {
    Seq::new((end - first) as nat, |k: int| first + k)
}

/// The triangle indices met by walking the node array from node `i`, left
/// child before right child.
pub open spec fn walk(nodes: Seq<BvhNode>, i: int) -> Seq<int>
    decreases nodes.len() - i,
{
    if 0 <= i < nodes.len() {
        match nodes[i].link {
            NodeLink::Leaf { first, count } => span(first as int, first + count),
            NodeLink::Inner { left, right } => {
                if i < left < nodes.len() && i < right < nodes.len() {
                    walk(nodes, left as int) + walk(nodes, right as int)
                } else {
                    Seq::empty()
                }
            },
        }
    } else {
        Seq::empty()
    }
}

/// The node indices met by walking from node `i`: the node itself, then its
/// left subtree, then its right subtree.
pub open spec fn node_walk(nodes: Seq<BvhNode>, i: int) -> Seq<int>
    decreases nodes.len() - i,
{
    if 0 <= i < nodes.len() {
        match nodes[i].link {
            NodeLink::Leaf { .. } => seq![i],
            NodeLink::Inner { left, right } => {
                if i < left < nodes.len() && i < right < nodes.len() {
                    seq![i] + node_walk(nodes, left as int) + node_walk(nodes, right as int)
                } else {
                    seq![i]
                }
            },
        }
    } else {
        Seq::empty()
    }
}

/// The tight box of the triangles `lo .. hi`: the union of their boxes,
/// starting from the empty box.
pub open spec fn range_box(verts: Seq<Vertex>, prims: Seq<Triangle>, lo: int, hi: int) -> Aabb
    decreases hi - lo,
{
    if hi <= lo {
        Aabb::spec_empty()
    } else {
        range_box(verts, prims, lo, hi - 1).spec_union(triangle_box(verts, prims[hi - 1]))
    }
}

/// Every inner node `j` in `s .. e` has its left child right after itself and
/// its right child after that, before `e`.
pub open spec fn links_within(nodes: Seq<BvhNode>, s: int, e: int) -> bool {
    forall|j: int|
        #![trigger nodes[j]]
        s <= j < e ==> match nodes[j].link {
            NodeLink::Inner { left, right } => left == j + 1 && j + 1 < right < e,
            NodeLink::Leaf { .. } => true,
        }
}

/// Node `i` encloses what it points at: both children's boxes, or the box of
/// every triangle of its range.
pub open spec fn node_encloses(
    nodes: Seq<BvhNode>,
    prims: Seq<Triangle>,
    verts: Seq<Vertex>,
    i: int,
) -> bool {
    match nodes[i].link {
        NodeLink::Inner { left, right } => left < nodes.len() && right < nodes.len()
            && nodes[i].bounds.contains(nodes[left as int].bounds) && nodes[i].bounds.contains(
            nodes[right as int].bounds,
        ),
        NodeLink::Leaf { first, count } => first + count <= prims.len() && forall|j: int|
            first <= j < first + count ==> nodes[i].bounds.contains(
                #[trigger] triangle_box(verts, prims[j]),
            ),
    }
}

/// Node `i`'s box is exactly the union of its children's boxes, or of its
/// triangles' boxes.
pub open spec fn node_tight(
    nodes: Seq<BvhNode>,
    prims: Seq<Triangle>,
    verts: Seq<Vertex>,
    i: int,
) -> bool {
    match nodes[i].link {
        NodeLink::Inner { left, right } => nodes[i].bounds == nodes[left as int].bounds.spec_union(
            nodes[right as int].bounds,
        ),
        NodeLink::Leaf { first, count } => nodes[i].bounds == range_box(
            verts,
            prims,
            first as int,
            first + count,
        ),
    }
}

/// A node's box has min <= max on every axis, unless it is an empty leaf.
pub open spec fn node_ordered(n: BvhNode) -> bool {
    match n.link {
        NodeLink::Leaf { count, .. } => count == 0 || n.bounds.spec_ordered(),
        NodeLink::Inner { .. } => n.bounds.spec_ordered(),
    }
}

/// A leaf holds at least one triangle.
pub open spec fn leaf_nonempty(n: BvhNode) -> bool {
    match n.link {
        NodeLink::Leaf { count, .. } => count >= 1,
        NodeLink::Inner { .. } => true,
    }
}

/// A leaf holds at most `threshold` triangles, or a single one.
pub open spec fn leaf_fits(n: BvhNode, threshold: int) -> bool {
    match n.link {
        NodeLink::Leaf { count, .. } => count <= threshold || count <= 1,
        NodeLink::Inner { .. } => true,
    }
}

/// A leaf's range lies within `lo .. hi`.
pub open spec fn leaf_within(n: BvhNode, lo: int, hi: int) -> bool {
    match n.link {
        NodeLink::Leaf { first, count } => lo <= first && first + count <= hi,
        NodeLink::Inner { .. } => true,
    }
}

pub open spec fn all_in_range(prims: Seq<Triangle>, n: int) -> bool {
    forall|j: int| 0 <= j < prims.len() ==> #[trigger] triangle_in_range(prims[j], n)
}

pub open spec fn unchanged_outside(a: Seq<Triangle>, b: Seq<Triangle>, lo: int, hi: int) -> bool {
    a.len() == b.len() && forall|j: int|
        0 <= j < a.len() && !(lo <= j < hi) ==> #[trigger] a[j] == b[j]
}

/// The node array is a tree over `prims`, rooted at node 0 and laid out in
/// pre-order: the walk from the root meets every node exactly once and each
/// triangle index exactly once, in order. Every node's box is the tight union
/// of what it points at (so it encloses it), with min <= max unless the node
/// is an empty leaf; with at least one triangle, no leaf is empty.
pub open spec fn indexes(nodes: Seq<BvhNode>, prims: Seq<Triangle>, verts: Seq<Vertex>) -> bool {
    &&& nodes.len() >= 1
    &&& links_within(nodes, 0, nodes.len() as int)
    &&& forall|i: int| 0 <= i < nodes.len() ==> #[trigger] node_encloses(nodes, prims, verts, i)
    &&& forall|i: int| 0 <= i < nodes.len() ==> #[trigger] node_tight(nodes, prims, verts, i)
    &&& forall|i: int| 0 <= i < nodes.len() ==> #[trigger] node_ordered(nodes[i])
    &&& prims.len() > 0 ==> forall|i: int| 0 <= i < nodes.len() ==> #[trigger] leaf_nonempty(nodes[i])
    &&& node_walk(nodes, 0) == span(0, nodes.len() as int)
    &&& walk(nodes, 0) == span(0, prims.len() as int)
}

/// A well-formed hierarchy over `prims` whose leaves are within the threshold.
pub open spec fn hierarchy_of(
    nodes: Seq<BvhNode>,
    prims: Seq<Triangle>,
    verts: Seq<Vertex>,
    threshold: int,
) -> bool {
    &&& indexes(nodes, prims, verts)
    &&& forall|i: int| 0 <= i < nodes.len() ==> #[trigger] leaf_fits(nodes[i], threshold)
}

proof fn lemma_walk_frame(a: Seq<BvhNode>, b: Seq<BvhNode>, s: int, e: int, j: int)
    requires
        0 <= s <= j < e <= a.len(),
        e <= b.len(),
        forall|i: int| s <= i < e ==> a[i] == b[i],
        links_within(a, s, e),
    ensures
        walk(a, j) == walk(b, j),
        node_walk(a, j) == node_walk(b, j),
    decreases e - j,
{
    assert(a[j] == b[j]);
    match a[j].link {
        NodeLink::Inner { left, right } => {
            lemma_walk_frame(a, b, s, e, left as int);
            lemma_walk_frame(a, b, s, e, right as int);
        },
        NodeLink::Leaf { .. } => {},
    }
}

proof fn lemma_range_box_frame(verts: Seq<Vertex>, a: Seq<Triangle>, b: Seq<Triangle>, lo: int, hi: int)
    requires
        forall|j: int| lo <= j < hi ==> a[j] == b[j],
    ensures
        range_box(verts, a, lo, hi) == range_box(verts, b, lo, hi),
    decreases hi - lo,
{
    if hi > lo {
        lemma_range_box_frame(verts, a, b, lo, hi - 1);
    }
}

proof fn lemma_swap_multiset(s: Seq<Triangle>, i: int, j: int)
    requires
        0 <= i < s.len(),
        0 <= j < s.len(),
    ensures
        s.update(i, s[j]).update(j, s[i]).to_multiset() =~= s.to_multiset(),
{
    broadcast use vstd::seq_lib::to_multiset_update, vstd::seq_lib::to_multiset_contains;
    let t = s.update(i, s[j]);
    let m = s.to_multiset();
    assert(t[j] == s[j]);
    assert(s.contains(s[i]));
    assert(t.contains(s[j]));
    let mt = m.remove(s[i]).insert(s[j]);
    assert(t.to_multiset() == mt);
    assert(t.update(j, s[i]).to_multiset() == mt.remove(s[j]).insert(s[i]));
    assert(mt.remove(s[j]).insert(s[i]) =~= m);
}

/// Tight box of the triangles `lo .. hi`.
fn range_bounds(verts: &Vec<Vertex>, prims: &Vec<Triangle>, lo: usize, hi: usize) -> (r: Aabb)
    requires
        lo <= hi <= prims@.len(),
        all_in_range(prims@, verts@.len() as int),
    ensures
        r == range_box(verts@, prims@, lo as int, hi as int),
        hi > lo ==> r.spec_ordered(),
        forall|j: int| lo <= j < hi ==> r.contains(#[trigger] triangle_box(verts@, prims@[j])),
{
    let mut b = Aabb::empty();
    let mut i: usize = lo;
    while i < hi
        invariant
            lo <= i <= hi <= prims@.len(),
            all_in_range(prims@, verts@.len() as int),
            b == range_box(verts@, prims@, lo as int, i as int),
            i > lo ==> b.spec_ordered(),
            forall|j: int| lo <= j < i ==> b.contains(#[trigger] triangle_box(verts@, prims@[j])),
        decreases hi - i,
    {
        assert(triangle_in_range(prims@[i as int], verts@.len() as int));
        let t = triangle_bounds(verts, &prims[i]);
        b = b.union(&t);
        i = i + 1;
    }
    b
}

/// The axis on which `bounds` is longest, measured in order keys (which
/// order like float lengths only roughly: keys stretch values near zero).
fn longest_axis(bounds: &Aabb) -> (r: usize)
    ensures
        r < 3,
{
    let ex = bounds.max_x as i64 - bounds.min_x as i64;
    let ey = bounds.max_y as i64 - bounds.min_y as i64;
    let ez = bounds.max_z as i64 - bounds.min_z as i64;
    if ex >= ey && ex >= ez {
        0
    } else if ey >= ez {
        1
    } else {
        2
    }
}

/// How many of the triangles `lo .. hi` have a centroid sum on `axis` of at
/// most `v`.
fn count_at_most(
    verts: &Vec<Vertex>,
    prims: &Vec<Triangle>,
    lo: usize,
    hi: usize,
    axis: usize,
    v: i64,
) -> (r: usize)
    requires
        lo <= hi <= prims@.len(),
        all_in_range(prims@, verts@.len() as int),
        axis < 3,
    ensures
        r <= hi - lo,
{
    let mut n: usize = 0;
    let mut i: usize = lo;
    while i < hi
        invariant
            lo <= i <= hi <= prims@.len(),
            all_in_range(prims@, verts@.len() as int),
            axis < 3,
            n <= i - lo,
        decreases hi - i,
    {
        assert(triangle_in_range(prims@[i as int], verts@.len() as int));
        if triangle_centroid_sum(verts, &prims[i], axis) <= v {
            n = n + 1;
        }
        i = i + 1;
    }
    n
}

/// The median centroid sum on `axis` of the triangles `lo .. hi`: the least
/// value that at least half of them are at or below, searched for between
/// the sums of the corners of `bounds`.
fn median_pivot(
    verts: &Vec<Vertex>,
    prims: &Vec<Triangle>,
    lo: usize,
    hi: usize,
    axis: usize,
    bounds: &Aabb,
) -> (r: i64)
    requires
        lo <= hi <= prims@.len(),
        all_in_range(prims@, verts@.len() as int),
        axis < 3,
{
    let (low, high) = if axis == 0 {
        (bounds.min_x as i64, bounds.max_x as i64)
    } else if axis == 1 {
        (bounds.min_y as i64, bounds.max_y as i64)
    } else {
        (bounds.min_z as i64, bounds.max_z as i64)
    };
    let half = (hi - lo) / 2 + (hi - lo) % 2;
    let mut a: i64 = 3 * low;
    let mut b: i64 = 3 * high;
    if a > b {
        return a;
    }
    while a < b
        invariant
            -0x1_8000_0000 <= a <= b <= 0x1_8000_0000,
            lo <= hi <= prims@.len(),
            all_in_range(prims@, verts@.len() as int),
            axis < 3,
        decreases b - a,
    {
        let mid = a + (b - a) / 2;
        if count_at_most(verts, prims, lo, hi, axis, mid) >= half {
            b = mid;
        } else {
            a = mid + 1;
        }
    }
    a
}

/// Reorders the triangles `lo .. hi` so that those whose centroid on `axis`
/// is at most `pivot` come first; returns where the others begin.
fn partition(
    verts: &Vec<Vertex>,
    prims: &mut Vec<Triangle>,
    lo: usize,
    hi: usize,
    axis: usize,
    pivot: i64,
) -> (mid: usize)
    requires
        lo <= hi <= old(prims)@.len(),
        all_in_range(old(prims)@, verts@.len() as int),
        axis < 3,
    ensures
        lo <= mid <= hi,
        unchanged_outside(final(prims)@, old(prims)@, lo as int, hi as int),
        final(prims)@.to_multiset() == old(prims)@.to_multiset(),
        all_in_range(final(prims)@, verts@.len() as int),
{
    let mut i: usize = lo;
    let mut j: usize = lo;
    while j < hi
        invariant
            lo <= i <= j <= hi <= prims@.len(),
            axis < 3,
            unchanged_outside(prims@, old(prims)@, lo as int, hi as int),
            prims@.to_multiset() == old(prims)@.to_multiset(),
            all_in_range(prims@, verts@.len() as int),
        decreases hi - j,
    {
        assert(triangle_in_range(prims@[j as int], verts@.len() as int));
        if triangle_centroid_sum(verts, &prims[j], axis) <= pivot {
            let a = prims[i];
            let b = prims[j];
            proof {
                lemma_swap_multiset(prims@, i as int, j as int);
            }
            prims[i] = b;
            prims[j] = a;
            assert(all_in_range(prims@, verts@.len() as int)) by {
                assert forall|q: int| 0 <= q < prims@.len() implies #[trigger] triangle_in_range(
                    prims@[q],
                    verts@.len() as int,
                ) by {
                    if q == i as int {
                        assert(triangle_in_range(b, verts@.len() as int));
                    } else if q == j as int {
                        assert(triangle_in_range(a, verts@.len() as int));
                    }
                }
            }
            i = i + 1;
        }
        j = j + 1;
    }
    i
}

/// Appends to `nodes` the subtree over the triangles `lo .. hi`, rooted at the
/// first node appended, reordering only those triangles.
fn build_range(
    verts: &Vec<Vertex>,
    prims: &mut Vec<Triangle>,
    nodes: &mut Vec<BvhNode>,
    lo: usize,
    hi: usize,
    threshold: usize,
)
    requires
        lo <= hi <= old(prims)@.len() <= MAX_TRIANGLES,
        all_in_range(old(prims)@, verts@.len() as int),
        old(nodes)@.len() + 2 * (hi - lo) + 1 <= 0xffff_ffff,
    ensures
        final(nodes)@.len() > old(nodes)@.len(),
        final(nodes)@.len() - old(nodes)@.len() <= if hi == lo {
            1
        } else {
            2 * (hi - lo) - 1
        },
        forall|i: int| 0 <= i < old(nodes)@.len() ==> final(nodes)@[i] == old(nodes)@[i],
        unchanged_outside(final(prims)@, old(prims)@, lo as int, hi as int),
        final(prims)@.to_multiset() == old(prims)@.to_multiset(),
        all_in_range(final(prims)@, verts@.len() as int),
        links_within(final(nodes)@, old(nodes)@.len() as int, final(nodes)@.len() as int),
        forall|i: int|
            old(nodes)@.len() <= i < final(nodes)@.len() ==> #[trigger] node_encloses(
                final(nodes)@,
                final(prims)@,
                verts@,
                i,
            ) && leaf_fits(final(nodes)@[i], threshold as int) && leaf_within(
                final(nodes)@[i],
                lo as int,
                hi as int,
            ) && node_tight(final(nodes)@, final(prims)@, verts@, i) && node_ordered(
                final(nodes)@[i],
            ) && (hi > lo ==> leaf_nonempty(final(nodes)@[i])),
        walk(final(nodes)@, old(nodes)@.len() as int) == span(lo as int, hi as int),
        node_walk(final(nodes)@, old(nodes)@.len() as int) == span(
            old(nodes)@.len() as int,
            final(nodes)@.len() as int,
        ),
    decreases hi - lo,
{
    let k = nodes.len();
    let m = hi - lo;
    let range = range_bounds(verts, prims, lo, hi);
    if m <= threshold || m <= 1 {
        nodes.push(BvhNode { bounds: range, link: NodeLink::Leaf { first: lo as u32, count: m as u32 } });
        assert(nodes@[k as int] == BvhNode { bounds: range, link: NodeLink::Leaf { first: lo as u32, count: m as u32 } });
        assert(node_encloses(nodes@, prims@, verts@, k as int));
        assert(node_tight(nodes@, prims@, verts@, k as int));
        assert(node_walk(nodes@, k as int) =~= span(k as int, k + 1));
        return;
    }
    let mut mid = lo + m / 2;
    let first_axis = longest_axis(&range);
    let mut tried: usize = 0;
    while tried < 3
        invariant
            lo < hi <= prims@.len() <= MAX_TRIANGLES,
            lo <= mid < hi,
            mid > lo,
            first_axis < 3,
            unchanged_outside(prims@, old(prims)@, lo as int, hi as int),
            prims@.to_multiset() == old(prims)@.to_multiset(),
            all_in_range(prims@, verts@.len() as int),
        decreases 3 - tried,
    {
        let axis = (first_axis + tried) % 3;
        let pivot = median_pivot(verts, prims, lo, hi, axis, &range);
        let p = partition(verts, prims, lo, hi, axis, pivot);
        if lo < p && p < hi {
            mid = p;
            break;
        }
        tried = tried + 1;
    }
    let ghost prims0 = prims@;
    nodes.push(BvhNode { bounds: Aabb::empty(), link: NodeLink::Inner { left: 0, right: 0 } });
    build_range(verts, prims, nodes, lo, mid, threshold);
    let ghost prims1 = prims@;
    let ghost nodes1 = nodes@;
    let e1 = nodes.len();
    build_range(verts, prims, nodes, mid, hi, threshold);
    let ghost prims2 = prims@;
    let ghost nodes2 = nodes@;
    let ghost e2 = nodes@.len() as int;
    let b = nodes[k + 1].bounds.union(&nodes[e1].bounds);
    nodes[k] = BvhNode { bounds: b, link: NodeLink::Inner { left: (k + 1) as u32, right: e1 as u32 } };
    proof {
        let nodes3 = nodes@;
        let ki = k as int;
        let e1i = e1 as int;
        assert(nodes3[ki].link == NodeLink::Inner { left: (k + 1) as u32, right: e1 as u32 });
        assert forall|i: int| ki + 1 <= i < e1i implies nodes3[i] == nodes1[i] by {
            assert(nodes2[i] == nodes1[i]);
        }
        assert forall|i: int| e1i <= i < e2 implies nodes3[i] == nodes2[i] by {}
        assert(links_within(nodes3, ki, e2)) by {
            assert forall|j: int| ki <= j < e2 implies match #[trigger] nodes3[j].link {
                NodeLink::Inner { left, right } => left == j + 1 && j + 1 < right < e2,
                NodeLink::Leaf { .. } => true,
            } by {
                if ki + 1 <= j < e1i {
                    assert(nodes1[j] == nodes3[j]);
                } else if e1i <= j {
                    assert(nodes2[j] == nodes3[j]);
                }
            }
        }
        assert forall|i: int| ki <= i < e2 implies #[trigger] node_encloses(
            nodes3,
            prims2,
            verts@,
            i,
        ) && leaf_fits(nodes3[i], threshold as int) && leaf_within(nodes3[i], lo as int, hi as int)
            && node_tight(nodes3, prims2, verts@, i) && node_ordered(nodes3[i]) && (hi > lo
            ==> leaf_nonempty(nodes3[i])) by {
            if i == ki {
                assert(nodes3[ki + 1] == nodes2[ki + 1]);
                assert(nodes3[e1i] == nodes2[e1i]);
                assert(node_encloses(nodes2, prims2, verts@, e1i));
                assert(nodes2[e1i].bounds.spec_ordered());
            } else if i < e1i {
                assert(node_encloses(nodes1, prims1, verts@, i));
                assert(nodes3[i] == nodes1[i]);
                match nodes1[i].link {
                    NodeLink::Inner { left, right } => {
                        assert(nodes3[left as int] == nodes1[left as int]);
                        assert(nodes3[right as int] == nodes1[right as int]);
                    },
                    NodeLink::Leaf { first, count } => {
                        assert forall|j: int| first <= j < first + count implies nodes3[i].bounds.contains(
                            #[trigger] triangle_box(verts@, prims2[j]),
                        ) by {
                            assert(prims2[j] == prims1[j]);
                        }
                        lemma_range_box_frame(verts@, prims1, prims2, first as int, first + count);
                    },
                }
            } else {
                assert(node_encloses(nodes2, prims2, verts@, i));
                assert(nodes3[i] == nodes2[i]);
                match nodes2[i].link {
                    NodeLink::Inner { left, right } => {
                        assert(nodes3[left as int] == nodes2[left as int]);
                        assert(nodes3[right as int] == nodes2[right as int]);
                    },
                    NodeLink::Leaf { .. } => {},
                }
            }
        }
        lemma_walk_frame(nodes1, nodes3, ki + 1, e1i, ki + 1);
        lemma_walk_frame(nodes2, nodes3, e1i, e2, e1i);
        assert(span(lo as int, mid as int) + span(mid as int, hi as int) =~= span(lo as int, hi as int));
        assert(seq![ki] + span(ki + 1, e1i) + span(e1i, e2) =~= span(ki, e2));
    }
}

proof fn lemma_concat_contains(a: Seq<int>, b: Seq<int>, x: int)
    ensures
        (a + b).contains(x) <==> a.contains(x) || b.contains(x),
{
    if (a + b).contains(x) {
        let k = choose|k: int| 0 <= k < (a + b).len() && (a + b)[k] == x;
        if k < a.len() {
            assert(a[k] == x);
        } else {
            assert(b[k - a.len()] == x);
        }
    }
    if a.contains(x) {
        let k = choose|k: int| 0 <= k < a.len() && a[k] == x;
        assert((a + b)[k] == x);
    }
    if b.contains(x) {
        let k = choose|k: int| 0 <= k < b.len() && b[k] == x;
        assert((a + b)[a.len() + k] == x);
    }
}

proof fn lemma_span_contains(first: int, end: int, x: int)
    requires
        first <= end,
    ensures
        span(first, end).contains(x) <==> first <= x < end,
{
    if first <= x < end {
        assert(span(first, end)[x - first] == x);
    }
}

proof fn lemma_push_contains(s: Seq<u32>, v: u32, y: u32)
    ensures
        s.push(v).contains(y) <==> s.contains(y) || y == v,
{
    if s.push(v).contains(y) {
        let k = choose|k: int| 0 <= k < s.push(v).len() && s.push(v)[k] == y;
        if k < s.len() {
            assert(s[k] == y);
        }
    }
    if s.contains(y) {
        let k = choose|k: int| 0 <= k < s.len() && s[k] == y;
        assert(s.push(v)[k] == y);
    }
    assert(s.push(v)[s.len() as int] == v);
}

/// Every triangle met under node `i` is one of `prims` and lies inside the
/// node's box.
proof fn lemma_walk_enclosed(
    nodes: Seq<BvhNode>,
    prims: Seq<Triangle>,
    verts: Seq<Vertex>,
    i: int,
    x: int,
)
    requires
        links_within(nodes, 0, nodes.len() as int),
        forall|k: int| 0 <= k < nodes.len() ==> #[trigger] node_encloses(nodes, prims, verts, k),
        0 <= i < nodes.len(),
        walk(nodes, i).contains(x),
    ensures
        0 <= x < prims.len(),
        nodes[i].bounds.contains(triangle_box(verts, prims[x])),
    decreases nodes.len() - i,
{
    assert(node_encloses(nodes, prims, verts, i));
    match nodes[i].link {
        NodeLink::Leaf { first, count } => {
            lemma_span_contains(first as int, first + count, x);
        },
        NodeLink::Inner { left, right } => {
            lemma_concat_contains(walk(nodes, left as int), walk(nodes, right as int), x);
            if walk(nodes, left as int).contains(x) {
                lemma_walk_enclosed(nodes, prims, verts, left as int, x);
            } else {
                lemma_walk_enclosed(nodes, prims, verts, right as int, x);
            }
        },
    }
}

/// The triangles among `prims` whose boxes overlap `q`: what testing every
/// triangle against `q` finds.
pub open spec fn overlapping(prims: Seq<Triangle>, verts: Seq<Vertex>, q: Aabb, x: u32) -> bool {
    x < prims.len() && q.spec_overlaps(triangle_box(verts, prims[x as int]))
}

/// Appends to `out` the triangles under node `i` whose boxes overlap `q`,
/// skipping every subtree whose box does not.
fn query_node(
    nodes: &Vec<BvhNode>,
    verts: &Vec<Vertex>,
    prims: &Vec<Triangle>,
    q: &Aabb,
    i: usize,
    out: &mut Vec<u32>,
)
    requires
        links_within(nodes@, 0, nodes@.len() as int),
        forall|k: int| 0 <= k < nodes@.len() ==> #[trigger] node_encloses(nodes@, prims@, verts@, k),
        i < nodes@.len(),
        all_in_range(prims@, verts@.len() as int),
        prims@.len() <= u32::MAX,
    ensures
        forall|x: u32|
            #![trigger final(out)@.contains(x)]
            final(out)@.contains(x) <==> old(out)@.contains(x) || (walk(nodes@, i as int).contains(
                x as int,
            ) && overlapping(prims@, verts@, *q, x)),
    decreases nodes@.len() - i,
{
    let node = nodes[i];
    if !q.overlaps(&node.bounds) {
        proof {
            assert forall|x: u32| walk(nodes@, i as int).contains(x as int) implies !overlapping(
                prims@,
                verts@,
                *q,
                x,
            ) by {
                lemma_walk_enclosed(nodes@, prims@, verts@, i as int, x as int);
            }
        }
        return;
    }
    assert(node_encloses(nodes@, prims@, verts@, i as int));
    match node.link {
        NodeLink::Leaf { first, count } => {
            let end = first as usize + count as usize;
            let mut j = first as usize;
            while j < end
                invariant
                    first <= j <= end == first + count <= prims@.len() <= u32::MAX,
                    all_in_range(prims@, verts@.len() as int),
                    forall|x: u32|
                        #![trigger out@.contains(x)]
                        out@.contains(x) <==> old(out)@.contains(x) || (first <= x < j
                            && overlapping(prims@, verts@, *q, x)),
                decreases end - j,
            {
                assert(triangle_in_range(prims@[j as int], verts@.len() as int));
                let b = triangle_bounds(verts, &prims[j]);
                let ghost before = out@;
                let hit = q.overlaps(&b);
                if hit {
                    out.push(j as u32);
                }
                proof {
                    assert(hit == overlapping(prims@, verts@, *q, j as u32));
                    assert forall|y: u32| #[trigger] out@.contains(y) <==> old(out)@.contains(y) || (first <= y
                        < j + 1 && overlapping(prims@, verts@, *q, y)) by {
                        if hit {
                            lemma_push_contains(before, j as u32, y);
                        }
                        assert(before.contains(y) <==> old(out)@.contains(y) || (first <= y < j
                            && overlapping(prims@, verts@, *q, y)));
                    }
                }
                j = j + 1;
            }
            proof {
                assert forall|x: u32| walk(nodes@, i as int).contains(x as int) <==> first <= x < end by {
                    lemma_span_contains(first as int, first + count, x as int);
                }
            }
        },
        NodeLink::Inner { left, right } => {
            query_node(nodes, verts, prims, q, left as usize, out);
            query_node(nodes, verts, prims, q, right as usize, out);
            proof {
                assert forall|x: u32| walk(nodes@, i as int).contains(x as int) <==> walk(
                    nodes@,
                    left as int,
                ).contains(x as int) || walk(nodes@, right as int).contains(x as int) by {
                    lemma_concat_contains(
                        walk(nodes@, left as int),
                        walk(nodes@, right as int),
                        x as int,
                    );
                }
            }
        },
    }
}

/// Walking a flattened hierarchy from its root meets every node once and
/// every triangle index of the (reordered) triangle list once.
pub proof fn lemma_walk_meets_each_once(nodes: Seq<BvhNode>, prims: Seq<Triangle>, verts: Seq<Vertex>)
    requires
        indexes(nodes, prims, verts),
    ensures
        forall|x: int| 0 <= x < prims.len() ==> #[trigger] walk(nodes, 0).contains(x),
        walk(nodes, 0).no_duplicates(),
        walk(nodes, 0).len() == prims.len(),
        forall|i: int| 0 <= i < nodes.len() ==> #[trigger] node_walk(nodes, 0).contains(i),
        node_walk(nodes, 0).no_duplicates(),
        node_walk(nodes, 0).len() == nodes.len(),
{
    assert forall|x: int| 0 <= x < prims.len() implies #[trigger] walk(nodes, 0).contains(x) by {
        lemma_span_contains(0, prims.len() as int, x);
    }
    assert forall|i: int| 0 <= i < nodes.len() implies #[trigger] node_walk(nodes, 0).contains(i) by {
        lemma_span_contains(0, nodes.len() as int, i);
    }
}

/// A bounding-volume hierarchy over a triangle mesh, held in flattened form:
/// node 0 is the root and links are indices into the node array.
pub struct Bvh {
    nodes: Vec<BvhNode>,
}

impl View for Bvh {
    type V = Seq<BvhNode>;

    closed spec fn view(&self) -> Seq<BvhNode> {
        self.nodes@
    }
}

impl Bvh {
    /// Builds the hierarchy with leaves of at most `LEAF_SIZE` triangles,
    /// reordering `primitives` in place; the new order is the one the leaves
    /// refer to.
    pub fn new(vertices: &Vec<Vertex>, primitives: &mut Vec<Triangle>) -> (r: Bvh)
        requires
            old(primitives)@.len() <= MAX_TRIANGLES,
            all_in_range(old(primitives)@, vertices@.len() as int),
        ensures
            hierarchy_of(r@, final(primitives)@, vertices@, LEAF_SIZE as int),
            final(primitives)@.to_multiset() == old(primitives)@.to_multiset(),
            final(primitives)@.len() == old(primitives)@.len(),
            all_in_range(final(primitives)@, vertices@.len() as int),
            old(primitives)@.len() == 0 ==> r@ == seq![
                BvhNode { bounds: Aabb::spec_empty(), link: NodeLink::Leaf { first: 0, count: 0 } },
            ],
    {
        Bvh::with_leaf_size(vertices, primitives, LEAF_SIZE)
    }

    /// Builds the hierarchy with leaves of at most `leaf_size` triangles (a
    /// single triangle always makes a leaf), reordering `primitives` in place.
    pub fn with_leaf_size(vertices: &Vec<Vertex>, primitives: &mut Vec<Triangle>, leaf_size: usize) -> (r: Bvh)
        requires
            old(primitives)@.len() <= MAX_TRIANGLES,
            all_in_range(old(primitives)@, vertices@.len() as int),
        ensures
            hierarchy_of(r@, final(primitives)@, vertices@, leaf_size as int),
            final(primitives)@.to_multiset() == old(primitives)@.to_multiset(),
            final(primitives)@.len() == old(primitives)@.len(),
            all_in_range(final(primitives)@, vertices@.len() as int),
            old(primitives)@.len() == 0 ==> r@ == seq![
                BvhNode { bounds: Aabb::spec_empty(), link: NodeLink::Leaf { first: 0, count: 0 } },
            ],
    {
        let mut nodes: Vec<BvhNode> = Vec::new();
        let n = primitives.len();
        if n == 0 {
            nodes.push(BvhNode { bounds: Aabb::empty(), link: NodeLink::Leaf { first: 0, count: 0 } });
            assert(nodes@ =~= seq![
                BvhNode { bounds: Aabb::spec_empty(), link: NodeLink::Leaf { first: 0, count: 0 } },
            ]);
            assert(walk(nodes@, 0) =~= span(0, 0));
            assert(node_walk(nodes@, 0) =~= span(0, 1));
            assert(node_tight(nodes@, primitives@, vertices@, 0));
            assert(node_encloses(nodes@, primitives@, vertices@, 0));
            return Bvh { nodes };
        }
        build_range(vertices, primitives, &mut nodes, 0, n, leaf_size);
        assert forall|i: int| 0 <= i < nodes@.len() implies #[trigger] leaf_fits(
            nodes@[i],
            leaf_size as int,
        ) by {
            assert(node_encloses(nodes@, primitives@, vertices@, i));
        }
        assert forall|i: int| 0 <= i < nodes@.len() implies #[trigger] node_tight(
            nodes@,
            primitives@,
            vertices@,
            i,
        ) by {
            assert(node_encloses(nodes@, primitives@, vertices@, i));
        }
        assert forall|i: int| 0 <= i < nodes@.len() implies #[trigger] node_ordered(nodes@[i]) by {
            assert(node_encloses(nodes@, primitives@, vertices@, i));
        }
        assert forall|i: int| 0 <= i < nodes@.len() implies #[trigger] leaf_nonempty(nodes@[i]) by {
            assert(node_encloses(nodes@, primitives@, vertices@, i));
        }
        Bvh { nodes }
    }

    /// The flattened node array, root first.
    pub fn flatten(&self) -> (r: Vec<BvhNode>)
        ensures
            r@ == self@,
    {
        self.nodes.clone()
    }

    /// The triangles whose boxes overlap `q`, found by walking down only
    /// through nodes whose boxes overlap it; they are exactly those that
    /// testing every triangle would find.
    pub fn query(&self, vertices: &Vec<Vertex>, primitives: &Vec<Triangle>, q: &Aabb) -> (r: Vec<u32>)
        requires
            indexes(self@, primitives@, vertices@),
            all_in_range(primitives@, vertices@.len() as int),
            primitives@.len() <= MAX_TRIANGLES,
        ensures
            forall|x: u32| #[trigger] r@.contains(x) <==> overlapping(primitives@, vertices@, *q, x),
    {
        let mut out: Vec<u32> = Vec::new();
        query_node(&self.nodes, vertices, primitives, q, 0, &mut out);
        proof {
            assert forall|x: u32| walk(self@, 0).contains(x as int) <==> x < primitives@.len() by {
                lemma_span_contains(0, primitives@.len() as int, x as int);
            }
        }
        out
    }

    /// Number of nodes.
    pub fn len(&self) -> (r: usize)
        ensures
            r == self@.len(),
    {
        self.nodes.len()
    }
}

} // verus!
