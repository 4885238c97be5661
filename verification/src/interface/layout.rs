use vstd::arithmetic::div_mod::lemma_div_by_multiple;
use vstd::arithmetic::div_mod::lemma_div_is_ordered;
use vstd::arithmetic::div_mod::lemma_div_pos_is_pos;
use vstd::arithmetic::mul::lemma_mul_inequality;
use vstd::prelude::*;

use crate::interface::panel::Panel;
use crate::prim::bound::Rect;
use crate::prim::point::Point2;
use crate::prim::point::COORD_MAX;

verus! {

/// The split axis of one layout node: horizontal layouts place children
/// left to right, vertical layouts bottom to top.
#[derive(Clone, Copy, Debug, PartialEq, Eq, Structural)]
pub enum Orientation {
    Horizontal,
    Vertical,
}

/// One child of a layout: either a nested splitter, recursively owning
/// further children, or a leaf owning one panel.
pub enum Node {
    Inner(Layout),
    Leaf(Panel),
}

/// Largest total weight one layout node may carry. With every coordinate
/// within `COORD_MAX`, interpolating a split position multiplies an extent
/// by a weight prefix sum, and this cap keeps that product inside `i64`.
pub const MAX_TOTAL_WEIGHT: u64 = 0x10_0000;

/// Largest number of leaves one tree may own, so that the quads of all
/// leaves together always fit in one draw stream.
pub const MAX_PANELS: usize = 8192;

/// The recursive weighted splitter: an ordered sequence of children, a
/// positive weight for each, the split axis, the rectangle last assigned
/// by the parent (or the window bounds at the root), and the margin left
/// between adjacent children.
pub struct Layout {
    pub children: Vec<Node>,
    pub weights: Vec<u64>,
    pub orient: Orientation,
    pub rect: Rect,
    pub margin: i64,
}

/// Sum of a sequence of weights.
pub open spec fn sum_weights(ws: Seq<u64>) -> int
    decreases ws.len(),
{
    if ws.len() == 0 {
        0
    } else {
        sum_weights(ws.drop_last()) + ws.last()
    }
}

/// Sum of the first `i` weights: the unnormalized offset of split point
/// `i` along the primary axis.
pub open spec fn prefix_weights(ws: Seq<u64>, i: int) -> int {
    sum_weights(ws.subrange(0, i))
}

/// Every weight is positive.
pub open spec fn weights_positive(ws: Seq<u64>) -> bool {
    forall|i: int| 0 <= i < ws.len() ==> #[trigger] ws[i] >= 1
}

/// One more weight extends the prefix sum by exactly that weight.
pub proof fn lemma_prefix_step(ws: Seq<u64>, i: int)
    requires
        0 <= i < ws.len(),
    ensures
        prefix_weights(ws, i + 1) == prefix_weights(ws, i) + ws[i],
{
    assert(ws.subrange(0, i + 1).drop_last() =~= ws.subrange(0, i));
}

/// The whole prefix is the total.
pub proof fn lemma_prefix_total(ws: Seq<u64>)
    ensures
        prefix_weights(ws, ws.len() as int) == sum_weights(ws),
{
    assert(ws.subrange(0, ws.len() as int) =~= ws);
}

/// Prefix sums grow with the index and stay between 0 and the total.
pub proof fn lemma_prefix_mono(ws: Seq<u64>, i: int, j: int)
    requires
        0 <= i <= j <= ws.len(),
    ensures
        0 <= prefix_weights(ws, i) <= prefix_weights(ws, j) <= sum_weights(ws),
    decreases j - i,
{
    lemma_prefix_mono_total(ws);
    if i < j {
        lemma_prefix_mono(ws, i, j - 1);
        lemma_prefix_step(ws, j - 1);
    }
}

/// Helper: every prefix is at most the total.
proof fn lemma_prefix_mono_total(ws: Seq<u64>)
    ensures
        forall|i: int| 0 <= i <= ws.len() ==> 0 <= #[trigger] prefix_weights(ws, i)
            <= sum_weights(ws),
    decreases ws.len(),
{
    lemma_prefix_total(ws);
    if ws.len() == 0 {
        assert(prefix_weights(ws, 0) == 0) by {
            assert(ws.subrange(0, 0) =~= Seq::<u64>::empty());
        }
    } else {
        lemma_prefix_mono_total(ws.drop_last());
        assert forall|i: int| 0 <= i <= ws.len() implies 0 <= #[trigger] prefix_weights(ws, i)
            <= sum_weights(ws) by {
            assert(0 <= prefix_weights(ws.drop_last(), 0) <= sum_weights(ws.drop_last()));
            if i <= ws.len() - 1 {
                assert(ws.subrange(0, i) =~= ws.drop_last().subrange(0, i));
                assert(prefix_weights(ws, i) == prefix_weights(ws.drop_last(), i));
                assert(0 <= prefix_weights(ws.drop_last(), i) <= sum_weights(ws.drop_last()));
            }
        }
    }
}

/// Start of the primary axis: the coordinate along the split direction at
/// which the rectangle begins.
pub open spec fn axis_min(r: Rect, o: Orientation) -> int {
    match o {
        Orientation::Horizontal => r.min.x as int,
        Orientation::Vertical => r.min.y as int,
    }
}

/// End of the primary axis.
pub open spec fn axis_max(r: Rect, o: Orientation) -> int {
    match o {
        Orientation::Horizontal => r.max.x as int,
        Orientation::Vertical => r.max.y as int,
    }
}

/// Size of the rectangle along the primary axis.
pub open spec fn axis_extent(r: Rect, o: Orientation) -> int {
    axis_max(r, o) - axis_min(r, o)
}

/// Split point `i` along the primary axis: the start plus the extent
/// scaled by the weight share of the first `i` children, rounded down to
/// a whole coordinate unit. Point 0 is the start of the rectangle and
/// point `ws.len()` is exactly its end.
pub open spec fn split_pos(r: Rect, o: Orientation, ws: Seq<u64>, i: int) -> int {
    axis_min(r, o) + axis_extent(r, o) * prefix_weights(ws, i) / sum_weights(ws)
}

/// Split positions stay within the rectangle and follow the order of
/// their indices: more weight ahead of a point pushes it further along
/// the axis, never backwards.
pub proof fn lemma_split_pos_bounds(r: Rect, o: Orientation, ws: Seq<u64>, i: int, j: int)
    requires
        r.wf(),
        sum_weights(ws) >= 1,
        0 <= i <= j <= ws.len(),
    ensures
        axis_min(r, o) <= split_pos(r, o, ws, i) <= split_pos(r, o, ws, j) <= axis_max(r, o),
{
    let e = axis_extent(r, o);
    let t = sum_weights(ws);
    let pi = prefix_weights(ws, i);
    let pj = prefix_weights(ws, j);
    lemma_prefix_mono(ws, i, j);
    lemma_div_pos_is_pos(e * pi, t);
    lemma_mul_inequality(pi, pj, e);
    assert(e * pi == pi * e) by (nonlinear_arith);
    assert(e * pj == pj * e) by (nonlinear_arith);
    lemma_div_is_ordered(e * pi, e * pj, t);
    lemma_mul_inequality(pj, t, e);
    lemma_div_is_ordered(e * pj, e * t, t);
    lemma_div_by_multiple(e, t);
    assert(e * t == t * e) by (nonlinear_arith);
}

/// The first split point is the start of the axis and the last one is its
/// end: the partition never loses a single coordinate unit at either end.
pub proof fn lemma_split_pos_ends(r: Rect, o: Orientation, ws: Seq<u64>)
    requires
        r.wf(),
        sum_weights(ws) >= 1,
    ensures
        split_pos(r, o, ws, 0) == axis_min(r, o),
        split_pos(r, o, ws, ws.len() as int) == axis_max(r, o),
{
    let e = axis_extent(r, o);
    let t = sum_weights(ws);
    assert(prefix_weights(ws, 0) == 0) by {
        assert(ws.subrange(0, 0) =~= Seq::<u64>::empty());
    }
    assert(e * 0 == 0) by (nonlinear_arith);
    assert(0int / t == 0) by {
        lemma_div_pos_is_pos(0, t);
        lemma_div_is_ordered(0, 0, t);
        vstd::arithmetic::div_mod::lemma_basic_div(0, t);
    }
    lemma_prefix_total(ws);
    lemma_div_by_multiple(e, t);
    assert(e * t == t * e) by (nonlinear_arith);
}

/// Lower edge of child `i` on the primary axis: split point `i`, inset by
/// half the margin when the edge is an internal boundary. The inset never
/// moves the edge past the child's upper split point.
pub open spec fn child_lo(r: Rect, o: Orientation, ws: Seq<u64>, margin: int, i: int) -> int {
    let p = split_pos(r, o, ws, i);
    let q = split_pos(r, o, ws, i + 1);
    if i == 0 {
        p
    } else if p + margin / 2 <= q {
        p + margin / 2
    } else {
        q
    }
}

/// Upper edge of child `i` on the primary axis: split point `i + 1`,
/// inset by half the margin when internal, and never moved below the
/// child's own lower edge.
pub open spec fn child_hi(r: Rect, o: Orientation, ws: Seq<u64>, margin: int, i: int) -> int {
    let q = split_pos(r, o, ws, i + 1);
    let lo = child_lo(r, o, ws, margin, i);
    if i == ws.len() - 1 {
        q
    } else if q - margin / 2 >= lo {
        q - margin / 2
    } else {
        lo
    }
}

/// The rectangle assigned to child `i`: the parent's full extent across
/// the split axis, and the child's inset slice along it.
pub open spec fn child_region(r: Rect, o: Orientation, ws: Seq<u64>, margin: int, i: int) -> Rect {
    match o {
        Orientation::Horizontal => Rect {
            min: Point2 { x: child_lo(r, o, ws, margin, i) as i64, y: r.min.y },
            max: Point2 { x: child_hi(r, o, ws, margin, i) as i64, y: r.max.y },
        },
        Orientation::Vertical => Rect {
            min: Point2 { x: r.min.x, y: child_lo(r, o, ws, margin, i) as i64 },
            max: Point2 { x: r.max.x, y: child_hi(r, o, ws, margin, i) as i64 },
        },
    }
}

/// A child region is a well-formed rectangle lying inside its slice of
/// the parent: margins inset edges but never invert or displace a child.
pub proof fn lemma_child_region_wf(r: Rect, o: Orientation, ws: Seq<u64>, margin: int, i: int)
    requires
        r.wf(),
        r.in_range(),
        sum_weights(ws) >= 1,
        0 <= i < ws.len(),
        0 <= margin,
    ensures
        split_pos(r, o, ws, i) <= child_lo(r, o, ws, margin, i) <= child_hi(r, o, ws, margin, i)
            <= split_pos(r, o, ws, i + 1),
        child_region(r, o, ws, margin, i).wf(),
        child_region(r, o, ws, margin, i).in_range(),
{
    lemma_split_pos_bounds(r, o, ws, i, i + 1);
    lemma_split_pos_bounds(r, o, ws, i + 1, ws.len() as int);
}

/// The panels of one node, in depth-first order.
pub open spec fn node_leaves(n: Node) -> Seq<Panel>
    decreases n,
{
    match n {
        Node::Leaf(p) => seq![p],
        Node::Inner(l) => leaves_of(l.children@),
    }
}

/// The panels of a forest of nodes, depth-first and left to right.
pub open spec fn leaves_of(ch: Seq<Node>) -> Seq<Panel>
    decreases ch,
{
    if ch.len() == 0 {
        Seq::empty()
    } else {
        node_leaves(ch[0]) + leaves_of(ch.drop_first())
    }
}

/// Well-formedness of one node.
pub open spec fn node_wf(n: Node) -> bool
    decreases n,
{
    match n {
        Node::Leaf(p) => p.wf(),
        Node::Inner(l) => l.wf(),
    }
}

impl Layout {
    /// The tree's panels in depth-first, insertion order: the order every
    /// traversal and dispatch visits them in.
    pub open spec fn spec_leaves(self) -> Seq<Panel> {
        leaves_of(self.children@)
    }

    /// The layout tree's invariant: weights align one to one with
    /// children and are positive, their sum and the margin stay within
    /// the bounds the fixed-point arithmetic needs, the assigned
    /// rectangle is a well-formed in-range rectangle, the tree owns at
    /// most `MAX_PANELS` leaves, and all of this holds recursively.
    pub open spec fn wf(self) -> bool
        decreases self,
    {
        &&& self.children@.len() == self.weights@.len()
        &&& weights_positive(self.weights@)
        &&& sum_weights(self.weights@) <= MAX_TOTAL_WEIGHT
        &&& 0 <= self.margin <= COORD_MAX
        &&& self.rect.wf()
        &&& self.rect.in_range()
        &&& self.spec_leaves().len() <= MAX_PANELS
        &&& forall|i: int| 0 <= i < self.children@.len() ==> node_wf(#[trigger] self.children@[i])
    }
}

/// A sequence of positive weights sums to at least its length.
pub proof fn lemma_sum_at_least_len(ws: Seq<u64>)
    requires
        weights_positive(ws),
    ensures
        sum_weights(ws) >= ws.len(),
    decreases ws.len(),
{
    if ws.len() > 0 {
        assert(weights_positive(ws.drop_last()));
        lemma_sum_at_least_len(ws.drop_last());
    }
}

/// Two nodes have the same tree structure: the same variant at every
/// position, with matching child counts.
pub open spec fn node_same_shape(a: Node, b: Node) -> bool
    decreases a,
{
    match (a, b) {
        (Node::Leaf(_), Node::Leaf(_)) => true,
        (Node::Inner(x), Node::Inner(y)) => {
            &&& x.children@.len() == y.children@.len()
            &&& forall|i: int|
                0 <= i < x.children@.len() ==> node_same_shape(
                    x.children@[i],
                    #[trigger] y.children@[i],
                )
        },
        _ => false,
    }
}

/// Nodes of the same shape own the same number of leaves.
pub proof fn lemma_same_shape_leaves(a: Node, b: Node)
    requires
        node_same_shape(a, b),
    ensures
        node_leaves(a).len() == node_leaves(b).len(),
    decreases a,
{
    match a {
        Node::Leaf(_) => {},
        Node::Inner(x) => {
            lemma_same_shape_leaves_seq(x.children@, (b->Inner_0).children@);
        },
    }
}

/// Forests of pointwise same-shaped nodes own the same number of leaves.
pub proof fn lemma_same_shape_leaves_seq(xs: Seq<Node>, ys: Seq<Node>)
    requires
        xs.len() == ys.len(),
        forall|i: int| 0 <= i < xs.len() ==> node_same_shape(xs[i], #[trigger] ys[i]),
    ensures
        leaves_of(xs).len() == leaves_of(ys).len(),
    decreases xs,
{
    if xs.len() > 0 {
        lemma_same_shape_leaves(xs[0], ys[0]);
        assert forall|i: int| 0 <= i < xs.drop_first().len() implies node_same_shape(
            xs.drop_first()[i],
            #[trigger] ys.drop_first()[i],
        ) by {
            assert(node_same_shape(xs[i + 1], ys[i + 1]));
        }
        lemma_same_shape_leaves_seq(xs.drop_first(), ys.drop_first());
    }
}

/// What `resize` does to one node: a leaf panel adopts the given
/// rectangle; a nested layout is recursively re-split over it.
pub open spec fn node_resized(o: Node, n: Node, r: Rect) -> bool
    decreases o,
{
    match o {
        Node::Leaf(p) => n == Node::Leaf(p.spec_resized(r)),
        Node::Inner(l) => n is Inner && layout_resized(l, n->Inner_0, r),
    }
}

/// What `resize` does to a layout: the structure, weights, orientation
/// and margin are kept; the given rectangle is adopted; and every child
/// receives exactly its weighted, margin-inset slice of it — a nested
/// layout is re-split over its own slice, not over the parent's full
/// rectangle.
pub open spec fn layout_resized(o: Layout, n: Layout, r: Rect) -> bool
    decreases o,
{
    &&& n.weights == o.weights
    &&& n.orient == o.orient
    &&& n.margin == o.margin
    &&& n.rect == r
    &&& n.children@.len() == o.children@.len()
    &&& forall|i: int|
        0 <= i < o.children@.len() ==> node_resized(
            o.children@[i],
            #[trigger] n.children@[i],
            child_region(r, o.orient, o.weights@, o.margin as int, i),
        )
}

/// A resize keeps the tree's shape.
pub proof fn lemma_resized_same_shape_node(o: Node, n: Node, r: Rect)
    requires
        node_resized(o, n, r),
    ensures
        node_same_shape(o, n),
    decreases o, 0int,
{
    match o {
        Node::Leaf(_) => {},
        Node::Inner(l) => {
            lemma_resized_same_shape_children(l, n->Inner_0, r, 0);
        },
    }
}

/// Helper for `lemma_resized_same_shape_node`, walking the children from
/// position `k` on.
proof fn lemma_resized_same_shape_children(o: Layout, n: Layout, r: Rect, k: int)
    requires
        layout_resized(o, n, r),
        0 <= k <= o.children@.len(),
    ensures
        forall|i: int|
            k <= i < o.children@.len() ==> node_same_shape(
                o.children@[i],
                #[trigger] n.children@[i],
            ),
    decreases o, o.children@.len() - k,
{
    if k < o.children@.len() {
        lemma_resized_same_shape_node(
            o.children@[k],
            n.children@[k],
            child_region(r, o.orient, o.weights@, o.margin as int, k),
        );
        lemma_resized_same_shape_children(o, n, r, k + 1);
    }
}

/// A resize keeps the number of leaves.
pub proof fn lemma_resized_leaf_count(o: Layout, n: Layout, r: Rect)
    requires
        layout_resized(o, n, r),
    ensures
        n.spec_leaves().len() == o.spec_leaves().len(),
{
    lemma_resized_same_shape_children(o, n, r, 0);
    lemma_same_shape_leaves_seq(o.children@, n.children@);
}

/// Why an insertion into a layout was rejected. Rejecting bad weights and
/// oversized trees at insertion time keeps every later resize free of
/// degenerate rectangles and overflow.
#[derive(Clone, Copy, Debug, PartialEq, Eq, Structural)]
pub enum LayoutError {
    /// The weight was zero; every child must take a positive share.
    ZeroWeight,
    /// The node's weights would sum beyond `MAX_TOTAL_WEIGHT`.
    TotalWeightExceeded,
    /// The tree would own more than `MAX_PANELS` leaves.
    TooManyPanels,
}

/// Appending a weight extends the sum by that weight.
pub proof fn lemma_sum_push(ws: Seq<u64>, w: u64)
    ensures
        sum_weights(ws.push(w)) == sum_weights(ws) + w,
{
    assert(ws.push(w).drop_last() =~= ws);
}

/// Appending a node appends its leaves.
pub proof fn lemma_leaves_push(ch: Seq<Node>, n: Node)
    ensures
        leaves_of(ch.push(n)) == leaves_of(ch) + node_leaves(n),
    decreases ch,
{
    if ch.len() == 0 {
        assert(leaves_of(ch) =~= Seq::<Panel>::empty());
        assert(ch.push(n)[0] == n);
        assert(ch.push(n).drop_first() =~= Seq::<Node>::empty());
        assert(leaves_of(ch.push(n).drop_first()) =~= Seq::<Panel>::empty());
        assert(leaves_of(ch.push(n)) =~= node_leaves(n));
        assert(leaves_of(ch) + node_leaves(n) =~= node_leaves(n));
    } else {
        lemma_leaves_push(ch.drop_first(), n);
        assert(ch.push(n).drop_first() =~= ch.drop_first().push(n));
        assert(ch.push(n)[0] == ch[0]);
        assert(node_leaves(ch[0]) + (leaves_of(ch.drop_first()) + node_leaves(n)) =~= (
        node_leaves(ch[0]) + leaves_of(ch.drop_first())) + node_leaves(n));
    }
}

/// A forest's leaves split at any position into the leaves of the two
/// halves.
pub proof fn lemma_leaves_split(ch: Seq<Node>, k: int)
    requires
        0 <= k <= ch.len(),
    ensures
        leaves_of(ch) == leaves_of(ch.subrange(0, k)) + leaves_of(
            ch.subrange(k, ch.len() as int),
        ),
    decreases k,
{
    if k == 0 {
        assert(leaves_of(ch.subrange(0, 0)) =~= Seq::<Panel>::empty());
        assert(ch.subrange(0, ch.len() as int) =~= ch);
        assert(leaves_of(ch.subrange(0, 0)) + leaves_of(ch) =~= leaves_of(ch));
    } else {
        lemma_leaves_split(ch, k - 1);
        let pre = ch.subrange(0, k - 1);
        let pre1 = ch.subrange(0, k);
        let rest = ch.subrange(k - 1, ch.len() as int);
        let rest1 = ch.subrange(k, ch.len() as int);
        assert(pre1 =~= pre.push(ch[k - 1]));
        lemma_leaves_push(pre, ch[k - 1]);
        assert(rest[0] == ch[k - 1]);
        assert(rest.drop_first() =~= rest1);
        assert(leaves_of(ch) =~= leaves_of(pre) + (node_leaves(ch[k - 1]) + leaves_of(rest1)));
        assert(leaves_of(pre) + (node_leaves(ch[k - 1]) + leaves_of(rest1)) =~= (leaves_of(pre)
            + node_leaves(ch[k - 1])) + leaves_of(rest1));
    }
}

/// What an insertion does to a layout: the new node stands at the end of
/// the children with weight `w`, everything else is kept, and the whole
/// tree is re-split over the rectangle it already had.
pub open spec fn grown_with(o: Layout, n: Layout, node: Node, w: u64) -> bool {
    &&& n.weights@ == o.weights@.push(w)
    &&& n.orient == o.orient
    &&& n.margin == o.margin
    &&& n.rect == o.rect
    &&& n.children@.len() == o.children@.len() + 1
    &&& forall|i: int|
        0 <= i < o.children@.len() ==> node_resized(
            o.children@[i],
            #[trigger] n.children@[i],
            child_region(o.rect, o.orient, o.weights@.push(w), o.margin as int, i),
        )
    &&& node_resized(
        node,
        n.children@[o.children@.len() as int],
        child_region(
            o.rect,
            o.orient,
            o.weights@.push(w),
            o.margin as int,
            o.children@.len() as int,
        ),
    )
}

/// Running total of a weight vector.
fn total_weight(ws: &Vec<u64>) -> (t: u64)
    requires
        sum_weights(ws@) <= MAX_TOTAL_WEIGHT,
    ensures
        t == sum_weights(ws@),
{
    let n = ws.len();
    let mut acc: u64 = 0;
    let mut i: usize = 0;
    proof {
        assert(ws@.subrange(0, 0) =~= Seq::<u64>::empty());
    }
    while i < n
        invariant
            i <= n,
            n == ws@.len(),
            sum_weights(ws@) <= MAX_TOTAL_WEIGHT,
            acc == prefix_weights(ws@, i as int),
        decreases n - i,
    {
        proof {
            lemma_prefix_step(ws@, i as int);
            lemma_prefix_mono(ws@, i as int + 1, n as int);
        }
        acc = acc + ws[i];
        i = i + 1;
    }
    proof {
        lemma_prefix_total(ws@);
    }
    acc
}

impl Layout {
    /// An empty splitter over `rect`, with no margin between children.
    pub fn new(rect: Rect, orient: Orientation) -> (l: Layout)
        requires
            rect.wf(),
            rect.in_range(),
        ensures
            l.children@.len() == 0,
            l.weights@.len() == 0,
            l.orient == orient,
            l.rect == rect,
            l.margin == 0,
            l.wf(),
    {
        let l = Layout { children: Vec::new(), weights: Vec::new(), orient, rect, margin: 0 };
        proof {
            assert(leaves_of(l.children@) =~= Seq::<Panel>::empty());
        }
        l
    }

    /// Re-split the tree over `rect`: recompute every child's rectangle
    /// from the weights, hand each leaf its slice and re-split every
    /// nested layout over its own slice.
    pub fn resize(&mut self, rect: Rect)
        requires
            old(self).wf(),
            rect.wf(),
            rect.in_range(),
        ensures
            layout_resized(*old(self), *final(self), rect),
            final(self).wf(),
        decreases *old(self),
    {
        self.rect = rect;
        let ghost ws = self.weights@;
        let ghost o = self.orient;
        let ghost margin = self.margin as int;
        let n = self.children.len();
        if n == 0 {
            return ;
        }
        let total = total_weight(&self.weights);
        proof {
            lemma_sum_at_least_len(ws);
        }
        let (amin, aext): (i64, i64) = match self.orient {
            Orientation::Horizontal => (rect.min.x, rect.max.x - rect.min.x),
            Orientation::Vertical => (rect.min.y, rect.max.y - rect.min.y),
        };
        let m2 = self.margin / 2;
        let mut acc: u64 = 0;
        let mut i: usize = 0;
        proof {
            assert(ws.subrange(0, 0) =~= Seq::<u64>::empty());
        }
        while i < n
            invariant
                old(self).wf(),
                rect.wf(),
                rect.in_range(),
                n == old(self).children@.len(),
                ws == old(self).weights@,
                o == old(self).orient,
                margin == old(self).margin as int,
                self.children@.len() == n,
                self.weights == old(self).weights,
                self.orient == old(self).orient,
                self.margin == old(self).margin,
                self.rect == rect,
                i <= n,
                acc == prefix_weights(ws, i as int),
                total == sum_weights(ws),
                total >= 1,
                amin == axis_min(rect, o),
                aext == axis_extent(rect, o),
                m2 == margin / 2,
                forall|j: int| i <= j < n ==> self.children@[j] == old(self).children@[j],
                forall|j: int|
                    0 <= j < i ==> node_resized(
                        old(self).children@[j],
                        #[trigger] self.children@[j],
                        child_region(rect, o, ws, margin, j),
                    ),
                forall|j: int| 0 <= j < i ==> node_wf(#[trigger] self.children@[j]),
            decreases n - i,
        {
            let ghost ii = i as int;
            let w = self.weights[i];
            proof {
                lemma_prefix_step(ws, ii);
                lemma_prefix_mono(ws, ii + 1, n as int);
                lemma_split_pos_bounds(rect, o, ws, ii, ii + 1);
                lemma_split_pos_bounds(rect, o, ws, ii + 1, n as int);
                crate::prim::vector::lemma_mul_bounds(
                    aext as int,
                    2 * COORD_MAX,
                    acc as int,
                    MAX_TOTAL_WEIGHT as int,
                );
                crate::prim::vector::lemma_mul_bounds(
                    aext as int,
                    2 * COORD_MAX,
                    acc as int + w,
                    MAX_TOTAL_WEIGHT as int,
                );
                lemma_div_pos_is_pos(aext as int * acc as int, total as int);
                lemma_div_pos_is_pos(aext as int * (acc as int + w), total as int);
            }
            let acc1 = acc + w;
            let p = amin + (aext * (acc as i64)) / (total as i64);
            let q = amin + (aext * (acc1 as i64)) / (total as i64);
            proof {
                assert(p == split_pos(rect, o, ws, ii));
                assert(q == split_pos(rect, o, ws, ii + 1));
            }
            let lo = if i == 0 {
                p
            } else {
                let cand = p + m2;
                if cand <= q {
                    cand
                } else {
                    q
                }
            };
            let hi = if i == n - 1 {
                q
            } else {
                let cand = q - m2;
                if cand >= lo {
                    cand
                } else {
                    lo
                }
            };
            let child_rect = match self.orient {
                Orientation::Horizontal => Rect {
                    min: Point2 { x: lo, y: rect.min.y },
                    max: Point2 { x: hi, y: rect.max.y },
                },
                Orientation::Vertical => Rect {
                    min: Point2 { x: rect.min.x, y: lo },
                    max: Point2 { x: rect.max.x, y: hi },
                },
            };
            proof {
                assert(lo == child_lo(rect, o, ws, margin, ii));
                assert(hi == child_hi(rect, o, ws, margin, ii));
                assert(child_rect == child_region(rect, o, ws, margin, ii));
                lemma_child_region_wf(rect, o, ws, margin, ii);
                assert(self.children@[ii] == old(self).children@[ii]);
                assert(node_wf(old(self).children@[ii]));
            }
            match &mut self.children[i] {
                Node::Leaf(panel) => {
                    panel.resize(child_rect);
                },
                Node::Inner(inner) => {
                    inner.resize(child_rect);
                },
            }
            acc = acc1;
            i = i + 1;
        }
        proof {
            assert(layout_resized(*old(self), *self, rect));
            lemma_resized_leaf_count(*old(self), *self, rect);
        }
    }

    /// Number of leaves the tree owns.
    pub fn leaf_count(&self) -> (c: usize)
        requires
            self.wf(),
        ensures
            c == self.spec_leaves().len(),
        decreases *self,
    {
        let ghost ch = self.children@;
        let n = self.children.len();
        let mut c: usize = 0;
        let mut i: usize = 0;
        proof {
            assert(leaves_of(ch.subrange(0, 0)) =~= Seq::<Panel>::empty());
        }
        while i < n
            invariant
                self.wf(),
                i <= n,
                n == ch.len(),
                ch == self.children@,
                c == leaves_of(ch.subrange(0, i as int)).len(),
            decreases n - i,
        {
            let ghost ii = i as int;
            proof {
                assert(ch.subrange(0, ii + 1) =~= ch.subrange(0, ii).push(ch[ii]));
                lemma_leaves_push(ch.subrange(0, ii), ch[ii]);
                lemma_leaves_split(ch, ii + 1);
                assert(node_wf(ch[ii]));
            }
            let add = match &self.children[i] {
                Node::Leaf(_) => 1,
                Node::Inner(inner) => inner.leaf_count(),
            };
            c = c + add;
            i = i + 1;
        }
        proof {
            assert(ch.subrange(0, n as int) =~= ch);
        }
        c
    }

    /// The leaf panel at `index` in depth-first, insertion order.
    pub fn leaf_at(&self, index: usize) -> (p: &Panel)
        requires
            self.wf(),
            index < self.spec_leaves().len(),
        ensures
            *p == self.spec_leaves()[index as int],
        decreases *self,
    {
        let ghost ch = self.children@;
        let n = self.children.len();
        let mut rem = index;
        let mut i: usize = 0;
        proof {
            assert(leaves_of(ch.subrange(0, 0)) =~= Seq::<Panel>::empty());
        }
        loop
            invariant
                self.wf(),
                i <= n,
                n == ch.len(),
                ch == self.children@,
                index < leaves_of(ch).len(),
                rem == index - leaves_of(ch.subrange(0, i as int)).len(),
                leaves_of(ch.subrange(0, i as int)).len() <= index,
            decreases n - i,
        {
            let ghost ii = i as int;
            proof {
                lemma_leaves_split(ch, ii);
                if i >= n {
                    assert(ch.subrange(0, n as int) =~= ch);
                    assert(false);
                }
                assert(ch.subrange(0, ii + 1) =~= ch.subrange(0, ii).push(ch[ii]));
                lemma_leaves_push(ch.subrange(0, ii), ch[ii]);
                lemma_leaves_split(ch, ii + 1);
                assert(node_wf(ch[ii]));
                assert(ch.subrange(ii, n as int)[0] == ch[ii]);
                assert(ch.subrange(ii, n as int).drop_first() =~= ch.subrange(ii + 1, n as int));
            }
            match &self.children[i] {
                Node::Leaf(panel) => {
                    if rem == 0 {
                        return panel;
                    }
                    rem = rem - 1;
                },
                Node::Inner(inner) => {
                    let c = inner.leaf_count();
                    if rem < c {
                        return inner.leaf_at(rem);
                    }
                    rem = rem - c;
                },
            }
            i = i + 1;
        }
    }

    /// Append a leaf panel with weight 1 and re-split the tree over its
    /// current rectangle.
    pub fn grow(&mut self, panel: Panel) -> (r: Result<(), LayoutError>)
        requires
            old(self).wf(),
            panel.wf(),
        ensures
            r != Err::<(), LayoutError>(LayoutError::ZeroWeight),
            r == Err::<(), LayoutError>(LayoutError::TotalWeightExceeded) <==> sum_weights(
                old(self).weights@,
            ) + 1 > MAX_TOTAL_WEIGHT,
            r == Err::<(), LayoutError>(LayoutError::TooManyPanels) <==> (sum_weights(
                old(self).weights@,
            ) + 1 <= MAX_TOTAL_WEIGHT && old(self).spec_leaves().len() + 1 > MAX_PANELS),
            r is Err ==> *final(self) == *old(self),
            r is Ok ==> grown_with(*old(self), *final(self), Node::Leaf(panel), 1),
            final(self).wf(),
    {
        self.grow_with_weight(panel, 1)
    }

    /// Append a leaf panel with the given weight and re-split the tree
    /// over its current rectangle. A zero weight or an insertion that
    /// would overrun the weight or leaf budget is rejected and leaves the
    /// tree untouched.
    pub fn grow_with_weight(&mut self, panel: Panel, w: u64) -> (r: Result<(), LayoutError>)
        requires
            old(self).wf(),
            panel.wf(),
        ensures
            r == Err::<(), LayoutError>(LayoutError::ZeroWeight) <==> w == 0,
            r == Err::<(), LayoutError>(LayoutError::TotalWeightExceeded) <==> (w >= 1
                && sum_weights(old(self).weights@) + w > MAX_TOTAL_WEIGHT),
            r == Err::<(), LayoutError>(LayoutError::TooManyPanels) <==> (w >= 1 && sum_weights(
                old(self).weights@,
            ) + w <= MAX_TOTAL_WEIGHT && old(self).spec_leaves().len() + 1 > MAX_PANELS),
            r is Err ==> *final(self) == *old(self),
            r is Ok ==> grown_with(*old(self), *final(self), Node::Leaf(panel), w),
            final(self).wf(),
    {
        proof {
            lemma_leaves_push(old(self).children@, Node::Leaf(panel));
        }
        self.attach(Node::Leaf(panel), w, 1)
    }

    /// Append a nested layout with weight 1 and re-split the tree over
    /// its current rectangle.
    pub fn push(&mut self, child: Layout) -> (r: Result<(), LayoutError>)
        requires
            old(self).wf(),
            child.wf(),
        ensures
            r != Err::<(), LayoutError>(LayoutError::ZeroWeight),
            r == Err::<(), LayoutError>(LayoutError::TotalWeightExceeded) <==> sum_weights(
                old(self).weights@,
            ) + 1 > MAX_TOTAL_WEIGHT,
            r == Err::<(), LayoutError>(LayoutError::TooManyPanels) <==> (sum_weights(
                old(self).weights@,
            ) + 1 <= MAX_TOTAL_WEIGHT && old(self).spec_leaves().len() + child.spec_leaves().len()
                > MAX_PANELS),
            r is Err ==> *final(self) == *old(self),
            r is Ok ==> grown_with(*old(self), *final(self), Node::Inner(child), 1),
            final(self).wf(),
    {
        self.push_with_weight(child, 1)
    }

    /// Append a nested layout with the given weight and re-split the
    /// tree over its current rectangle, with the same rejections as
    /// `grow_with_weight`.
    pub fn push_with_weight(&mut self, child: Layout, w: u64) -> (r: Result<(), LayoutError>)
        requires
            old(self).wf(),
            child.wf(),
        ensures
            r == Err::<(), LayoutError>(LayoutError::ZeroWeight) <==> w == 0,
            r == Err::<(), LayoutError>(LayoutError::TotalWeightExceeded) <==> (w >= 1
                && sum_weights(old(self).weights@) + w > MAX_TOTAL_WEIGHT),
            r == Err::<(), LayoutError>(LayoutError::TooManyPanels) <==> (w >= 1 && sum_weights(
                old(self).weights@,
            ) + w <= MAX_TOTAL_WEIGHT && old(self).spec_leaves().len() + child.spec_leaves().len()
                > MAX_PANELS),
            r is Err ==> *final(self) == *old(self),
            r is Ok ==> grown_with(*old(self), *final(self), Node::Inner(child), w),
            final(self).wf(),
    {
        let ghost c = child;
        let extra = child.leaf_count();
        proof {
            lemma_leaves_push(old(self).children@, Node::Inner(c));
        }
        self.attach(Node::Inner(child), w, extra)
    }

    /// Shared insertion path: append `node` with weight `w`, whose
    /// subtree owns `extra` leaves, then re-split over the current
    /// rectangle.
    fn attach(&mut self, node: Node, w: u64, extra: usize) -> (r: Result<(), LayoutError>)
        requires
            old(self).wf(),
            node_wf(node),
            extra == node_leaves(node).len(),
        ensures
            r == Err::<(), LayoutError>(LayoutError::ZeroWeight) <==> w == 0,
            r == Err::<(), LayoutError>(LayoutError::TotalWeightExceeded) <==> (w >= 1
                && sum_weights(old(self).weights@) + w > MAX_TOTAL_WEIGHT),
            r == Err::<(), LayoutError>(LayoutError::TooManyPanels) <==> (w >= 1 && sum_weights(
                old(self).weights@,
            ) + w <= MAX_TOTAL_WEIGHT && old(self).spec_leaves().len() + extra > MAX_PANELS),
            r is Err ==> *final(self) == *old(self),
            r is Ok ==> grown_with(*old(self), *final(self), node, w),
            final(self).wf(),
    {
        if w == 0 {
            return Err(LayoutError::ZeroWeight);
        }
        let total = total_weight(&self.weights);
        if w > MAX_TOTAL_WEIGHT || total + w > MAX_TOTAL_WEIGHT {
            return Err(LayoutError::TotalWeightExceeded);
        }
        let count = self.leaf_count();
        if extra > MAX_PANELS - count {
            return Err(LayoutError::TooManyPanels);
        }
        let rect = self.rect;
        let ghost mid_children = self.children@.push(node);
        let ghost mid_weights = self.weights@.push(w);
        self.children.push(node);
        self.weights.push(w);
        proof {
            lemma_sum_push(old(self).weights@, w);
            lemma_leaves_push(old(self).children@, node);
            assert forall|i: int| 0 <= i < mid_children.len() implies node_wf(
                #[trigger] mid_children[i],
            ) by {
                if i < mid_children.len() - 1 {
                    assert(node_wf(old(self).children@[i]));
                }
            }
            assert(self.wf());
        }
        self.resize(rect);
        Ok(())
    }

    /// Change the gap kept between adjacent children and re-split the
    /// tree over its current rectangle.
    pub fn set_margin(&mut self, margin: i64)
        requires
            old(self).wf(),
            0 <= margin <= COORD_MAX,
        ensures
            final(self).margin == margin,
            final(self).weights == old(self).weights,
            final(self).orient == old(self).orient,
            final(self).rect == old(self).rect,
            final(self).children@.len() == old(self).children@.len(),
            forall|i: int|
                0 <= i < old(self).children@.len() ==> node_resized(
                    old(self).children@[i],
                    #[trigger] final(self).children@[i],
                    child_region(
                        old(self).rect,
                        old(self).orient,
                        old(self).weights@,
                        margin as int,
                        i,
                    ),
                ),
            final(self).wf(),
    {
        self.margin = margin;
        let rect = self.rect;
        self.resize(rect);
    }
}

/// Whether a click at `c` is consumed somewhere inside one node. A
/// nested layout first checks its own rectangle: a cursor outside it is
/// reported unhandled without visiting any child.
pub open spec fn node_handles_click(n: Node, c: Point2) -> bool
    decreases n,
{
    match n {
        Node::Leaf(p) => p.spec_onclick(c),
        Node::Inner(l) => l.rect.spec_contains(c) && children_handle_click(l.children@, c),
    }
}

/// Whether a click is consumed by some node of a forest: the depth-first
/// disjunction the short-circuiting dispatch computes.
pub open spec fn children_handle_click(ch: Seq<Node>, c: Point2) -> bool
    decreases ch,
{
    ch.len() > 0 && (node_handles_click(ch[0], c) || children_handle_click(ch.drop_first(), c))
}

/// The depth-first disjunction is the existence of a handling child.
pub proof fn lemma_click_exists(ch: Seq<Node>, c: Point2)
    ensures
        children_handle_click(ch, c) <==> exists|k: int|
            0 <= k < ch.len() && node_handles_click(#[trigger] ch[k], c),
    decreases ch,
{
    if ch.len() > 0 {
        lemma_click_exists(ch.drop_first(), c);
        if node_handles_click(ch[0], c) {
        } else if children_handle_click(ch.drop_first(), c) {
            let k = choose|k: int|
                0 <= k < ch.drop_first().len() && node_handles_click(
                    #[trigger] ch.drop_first()[k],
                    c,
                );
            assert(node_handles_click(ch[k + 1], c));
        } else {
            assert forall|k: int|
                0 <= k < ch.len() && node_handles_click(#[trigger] ch[k], c) implies false by {
                if k > 0 {
                    assert(node_handles_click(ch.drop_first()[k - 1], c));
                }
            }
        }
    }
}

/// Whether one node would consume `key`, were it offered.
pub open spec fn node_handles_key(n: Node, k: crate::interface::panel::Key) -> bool
    decreases n,
{
    match n {
        Node::Leaf(p) => p.spec_handles_key(k),
        Node::Inner(l) => children_handle_key(l.children@, k),
    }
}

/// Whether some node of a forest would consume `key`. Keys are not gated
/// by rectangles: any handler reachable in the tree may claim one.
pub open spec fn children_handle_key(ch: Seq<Node>, k: crate::interface::panel::Key) -> bool
    decreases ch,
{
    ch.len() > 0 && (node_handles_key(ch[0], k) || children_handle_key(ch.drop_first(), k))
}

/// The depth-first key disjunction is the existence of a handling child.
pub proof fn lemma_key_exists(ch: Seq<Node>, k: crate::interface::panel::Key)
    ensures
        children_handle_key(ch, k) <==> exists|t: int|
            0 <= t < ch.len() && node_handles_key(#[trigger] ch[t], k),
    decreases ch,
{
    if ch.len() > 0 {
        lemma_key_exists(ch.drop_first(), k);
        if node_handles_key(ch[0], k) {
        } else if children_handle_key(ch.drop_first(), k) {
            let t = choose|t: int|
                0 <= t < ch.drop_first().len() && node_handles_key(
                    #[trigger] ch.drop_first()[t],
                    k,
                );
            assert(node_handles_key(ch[t + 1], k));
        } else {
            assert forall|t: int|
                0 <= t < ch.len() && node_handles_key(#[trigger] ch[t], k) implies false by {
                if t > 0 {
                    assert(node_handles_key(ch.drop_first()[t - 1], k));
                }
            }
        }
    }
}

/// Structural equality of nodes: the same panels in the same tree, with
/// the same weights, orientations, margins and rectangles at every
/// level. This is how "left unchanged" is stated for subtrees that a
/// dispatch descended into and backed out of.
pub open spec fn node_eq(a: Node, b: Node) -> bool
    decreases a,
{
    match (a, b) {
        (Node::Leaf(p), Node::Leaf(q)) => p == q,
        (Node::Inner(x), Node::Inner(y)) => layout_eq(x, y),
        _ => false,
    }
}

/// Structural equality of layouts.
pub open spec fn layout_eq(a: Layout, b: Layout) -> bool
    decreases a,
{
    &&& b.weights@ == a.weights@
    &&& b.orient == a.orient
    &&& b.margin == a.margin
    &&& b.rect == a.rect
    &&& b.children@.len() == a.children@.len()
    &&& forall|i: int|
        0 <= i < a.children@.len() ==> node_eq(a.children@[i], #[trigger] b.children@[i])
}

/// Structurally equal nodes have the same shape.
pub proof fn lemma_node_eq_same_shape(a: Node, b: Node)
    requires
        node_eq(a, b),
    ensures
        node_same_shape(a, b),
    decreases a,
{
    match a {
        Node::Leaf(_) => {},
        Node::Inner(x) => {
            let y = b->Inner_0;
            assert forall|i: int| 0 <= i < x.children@.len() implies node_same_shape(
                x.children@[i],
                #[trigger] y.children@[i],
            ) by {
                lemma_node_eq_same_shape(x.children@[i], y.children@[i]);
            }
        },
    }
}

/// Structural equality carries well-formedness over.
pub proof fn lemma_node_eq_wf(a: Node, b: Node)
    requires
        node_eq(a, b),
        node_wf(a),
    ensures
        node_wf(b),
    decreases a,
{
    match a {
        Node::Leaf(_) => {},
        Node::Inner(x) => {
            let y = b->Inner_0;
            lemma_node_eq_same_shape(a, b);
            lemma_same_shape_leaves_seq(x.children@, y.children@);
            assert forall|i: int| 0 <= i < y.children@.len() implies node_wf(
                #[trigger] y.children@[i],
            ) by {
                assert(node_wf(x.children@[i]));
                lemma_node_eq_wf(x.children@[i], y.children@[i]);
            }
        },
    }
}

/// What one key dispatch does to a node: a leaf panel sees the key; a
/// nested layout dispatches it among its own children.
pub open spec fn node_keydown_rel(o: Node, n: Node, k: crate::interface::panel::Key) -> bool
    decreases o,
{
    match o {
        Node::Leaf(p) => n == Node::Leaf(p.spec_keydown(k)),
        Node::Inner(l) => n is Inner && layout_keydown_rel(l, n->Inner_0, k),
    }
}

/// What one key dispatch does to a layout: everything but the children
/// is kept, and among the children exactly the first handler — if any —
/// observes the key.
pub open spec fn layout_keydown_rel(o: Layout, n: Layout, k: crate::interface::panel::Key) -> bool
    decreases o,
{
    &&& n.weights == o.weights
    &&& n.orient == o.orient
    &&& n.margin == o.margin
    &&& n.rect == o.rect
    &&& children_keydown_rel(o.children@, n.children@, k)
}

/// What one key dispatch does to a forest: children before the first
/// handler are offered the key and left unchanged, the first handler
/// takes it, and everything after it is never visited.
pub open spec fn children_keydown_rel(
    oc: Seq<Node>,
    nc: Seq<Node>,
    k: crate::interface::panel::Key,
) -> bool
    decreases oc,
{
    &&& nc.len() == oc.len()
    &&& (if oc.len() == 0 {
        true
    } else if node_handles_key(oc[0], k) {
        node_keydown_rel(oc[0], nc[0], k) && nc.drop_first() == oc.drop_first()
    } else {
        node_eq(oc[0], nc[0]) && children_keydown_rel(oc.drop_first(), nc.drop_first(), k)
    })
}

/// A node that does not handle a key comes out structurally equal to
/// what it was.
pub proof fn lemma_keydown_unhandled_id(o: Node, n: Node, k: crate::interface::panel::Key)
    requires
        node_keydown_rel(o, n, k),
        !node_handles_key(o, k),
    ensures
        node_eq(o, n),
    decreases o,
{
    match o {
        Node::Leaf(_) => {},
        Node::Inner(l) => {
            lemma_children_keydown_unhandled_id(l.children@, (n->Inner_0).children@, k);
        },
    }
}

/// A forest with no handler for a key comes out structurally equal,
/// child by child, to what it was.
pub proof fn lemma_children_keydown_unhandled_id(
    oc: Seq<Node>,
    nc: Seq<Node>,
    k: crate::interface::panel::Key,
)
    requires
        children_keydown_rel(oc, nc, k),
        !children_handle_key(oc, k),
    ensures
        nc.len() == oc.len(),
        forall|j: int| 0 <= j < oc.len() ==> node_eq(oc[j], #[trigger] nc[j]),
    decreases oc,
{
    if oc.len() > 0 {
        lemma_children_keydown_unhandled_id(oc.drop_first(), nc.drop_first(), k);
        assert forall|j: int| 0 <= j < oc.len() implies node_eq(oc[j], #[trigger] nc[j]) by {
            if j > 0 {
                assert(node_eq(oc.drop_first()[j - 1], nc.drop_first()[j - 1]));
            }
        }
    }
}

/// Assemble the forest-level dispatch relation from what a dispatch loop
/// knows when child `t` was the first to handle the key.
pub proof fn lemma_children_keydown_first(
    oc: Seq<Node>,
    nc: Seq<Node>,
    k: crate::interface::panel::Key,
    t: int,
)
    requires
        oc.len() == nc.len(),
        0 <= t < oc.len(),
        forall|j: int| 0 <= j < t ==> !node_handles_key(#[trigger] oc[j], k),
        forall|j: int| 0 <= j < t ==> node_eq(oc[j], #[trigger] nc[j]),
        node_handles_key(oc[t], k),
        node_keydown_rel(oc[t], nc[t], k),
        forall|j: int| t < j < oc.len() ==> #[trigger] nc[j] == oc[j],
    ensures
        children_keydown_rel(oc, nc, k),
    decreases t,
{
    if t == 0 {
        assert(nc.drop_first() =~= oc.drop_first()) by {
            assert forall|j: int| 0 <= j < nc.len() - 1 implies nc.drop_first()[j]
                == oc.drop_first()[j] by {
                assert(nc[j + 1] == oc[j + 1]);
            }
        }
    } else {
        assert forall|j: int| 0 <= j < t - 1 implies !node_handles_key(
            #[trigger] oc.drop_first()[j],
            k,
        ) && node_eq(oc.drop_first()[j], nc.drop_first()[j]) by {
            assert(!node_handles_key(oc[j + 1], k));
            assert(node_eq(oc[j + 1], nc[j + 1]));
        }
        assert forall|j: int| t - 1 < j < oc.len() - 1 implies #[trigger] nc.drop_first()[j]
            == oc.drop_first()[j] by {
            assert(nc[j + 1] == oc[j + 1]);
        }
        assert(oc.drop_first()[t - 1] == oc[t]);
        assert(nc.drop_first()[t - 1] == nc[t]);
        assert(node_eq(oc[0], nc[0]));
        lemma_children_keydown_first(oc.drop_first(), nc.drop_first(), k, t - 1);
    }
}

/// Assemble the forest-level dispatch relation when no child handled the
/// key.
pub proof fn lemma_children_keydown_none(
    oc: Seq<Node>,
    nc: Seq<Node>,
    k: crate::interface::panel::Key,
)
    requires
        oc.len() == nc.len(),
        forall|j: int| 0 <= j < oc.len() ==> !node_handles_key(#[trigger] oc[j], k),
        forall|j: int| 0 <= j < oc.len() ==> node_eq(oc[j], #[trigger] nc[j]),
    ensures
        children_keydown_rel(oc, nc, k),
        !children_handle_key(oc, k),
    decreases oc,
{
    if oc.len() > 0 {
        assert forall|j: int| 0 <= j < oc.len() - 1 implies !node_handles_key(
            #[trigger] oc.drop_first()[j],
            k,
        ) && node_eq(oc.drop_first()[j], nc.drop_first()[j]) by {
            assert(!node_handles_key(oc[j + 1], k));
            assert(node_eq(oc[j + 1], nc[j + 1]));
        }
        lemma_children_keydown_none(oc.drop_first(), nc.drop_first(), k);
    }
}

/// Every node has its own shape.
pub proof fn lemma_same_shape_refl(n: Node)
    ensures
        node_same_shape(n, n),
    decreases n,
{
    match n {
        Node::Leaf(_) => {},
        Node::Inner(l) => {
            assert forall|i: int| 0 <= i < l.children@.len() implies node_same_shape(
                l.children@[i],
                #[trigger] l.children@[i],
            ) by {
                lemma_same_shape_refl(l.children@[i]);
            }
        },
    }
}

/// A key dispatch keeps the tree's shape.
pub proof fn lemma_keydown_same_shape_node(o: Node, n: Node, k: crate::interface::panel::Key)
    requires
        node_keydown_rel(o, n, k),
    ensures
        node_same_shape(o, n),
    decreases o,
{
    match o {
        Node::Leaf(_) => {},
        Node::Inner(l) => {
            lemma_keydown_same_shape_children(l.children@, (n->Inner_0).children@, k);
        },
    }
}

/// A forest-level key dispatch keeps every child's shape.
pub proof fn lemma_keydown_same_shape_children(
    oc: Seq<Node>,
    nc: Seq<Node>,
    k: crate::interface::panel::Key,
)
    requires
        children_keydown_rel(oc, nc, k),
    ensures
        forall|i: int| 0 <= i < oc.len() ==> node_same_shape(oc[i], #[trigger] nc[i]),
    decreases oc,
{
    if oc.len() > 0 {
        if node_handles_key(oc[0], k) {
            lemma_keydown_same_shape_node(oc[0], nc[0], k);
            assert forall|i: int| 0 < i < oc.len() implies node_same_shape(
                oc[i],
                #[trigger] nc[i],
            ) by {
                assert(nc.drop_first()[i - 1] == oc.drop_first()[i - 1]);
                lemma_same_shape_refl(oc[i]);
            }
        } else {
            lemma_node_eq_same_shape(oc[0], nc[0]);
            lemma_keydown_same_shape_children(oc.drop_first(), nc.drop_first(), k);
            assert forall|i: int| 0 < i < oc.len() implies node_same_shape(
                oc[i],
                #[trigger] nc[i],
            ) by {
                assert(node_same_shape(oc.drop_first()[i - 1], nc.drop_first()[i - 1]));
            }
        }
    }
}

impl Layout {
    /// Whether a click at `cursor` would be consumed inside this tree.
    pub open spec fn spec_onclick(self, cursor: Point2) -> bool {
        self.rect.spec_contains(cursor) && children_handle_click(self.children@, cursor)
    }

    /// Whether this tree would consume `key`.
    pub open spec fn spec_onkeydown(self, key: crate::interface::panel::Key) -> bool {
        children_handle_key(self.children@, key)
    }

    /// Dispatch a click: if the cursor is inside this layout's rectangle
    /// at all, offer it to each child in insertion order and stop at the
    /// first that consumes it. A click never changes any panel's state,
    /// so the dispatch borrows the tree immutably.
    pub fn onclick(&self, cursor: Point2) -> (handled: bool)
        requires
            self.wf(),
            cursor.in_range(),
        ensures
            handled == self.spec_onclick(cursor),
        decreases *self,
    {
        if !self.rect.contains(cursor) {
            return false;
        }
        let ghost ch = self.children@;
        let n = self.children.len();
        let mut i: usize = 0;
        while i < n
            invariant
                self.wf(),
                cursor.in_range(),
                self.rect.spec_contains(cursor),
                n == ch.len(),
                ch == self.children@,
                i <= n,
                forall|j: int| 0 <= j < i ==> !node_handles_click(#[trigger] ch[j], cursor),
            decreases n - i,
        {
            let ghost ii = i as int;
            proof {
                assert(node_wf(ch[ii]));
            }
            let hit = match &self.children[i] {
                Node::Leaf(panel) => panel.onclick(cursor),
                Node::Inner(inner) => inner.onclick(cursor),
            };
            if hit {
                proof {
                    assert(node_handles_click(ch[ii], cursor));
                    lemma_click_exists(ch, cursor);
                }
                return true;
            }
            i = i + 1;
        }
        proof {
            lemma_click_exists(ch, cursor);
        }
        false
    }

    /// Dispatch a key press: offer it to each child in depth-first,
    /// insertion order and stop at the first that consumes it. Exactly
    /// the children up to and including the first handler observe the
    /// key.
    pub fn onkeydown(&mut self, key: crate::interface::panel::Key) -> (handled: bool)
        requires
            old(self).wf(),
        ensures
            layout_keydown_rel(*old(self), *final(self), key),
            handled == old(self).spec_onkeydown(key),
            final(self).wf(),
        decreases *old(self),
    {
        let ghost ch = old(self).children@;
        let n = self.children.len();
        let mut i: usize = 0;
        let mut handled = false;
        let ghost mut t: int = 0;
        while i < n && !handled
            invariant
                old(self).wf(),
                ch == old(self).children@,
                n == ch.len(),
                self.children@.len() == n,
                self.weights == old(self).weights,
                self.orient == old(self).orient,
                self.margin == old(self).margin,
                self.rect == old(self).rect,
                i <= n,
                !handled ==> forall|j: int|
                    0 <= j < i ==> !node_handles_key(#[trigger] ch[j], key) && node_eq(
                        ch[j],
                        self.children@[j],
                    ),
                !handled ==> forall|j: int| i <= j < n ==> #[trigger] self.children@[j] == ch[j],
                handled ==> {
                    &&& 0 <= t < i <= n
                    &&& forall|j: int|
                        0 <= j < t ==> !node_handles_key(#[trigger] ch[j], key) && node_eq(
                            ch[j],
                            self.children@[j],
                        )
                    &&& node_handles_key(ch[t], key)
                    &&& node_keydown_rel(ch[t], self.children@[t], key)
                    &&& node_wf(self.children@[t])
                    &&& forall|j: int| t < j < n ==> #[trigger] self.children@[j] == ch[j]
                },
            decreases n - i,
        {
            let ghost ii = i as int;
            proof {
                assert(node_wf(ch[ii]));
            }
            let hit = match &mut self.children[i] {
                Node::Leaf(panel) => {
                    let h = panel.onkeydown(key);
                    proof {
                        if !h {
                            lemma_keydown_unhandled_id(ch[ii], self.children@[ii], key);
                        }
                    }
                    h
                },
                Node::Inner(inner) => {
                    let h = inner.onkeydown(key);
                    proof {
                        if !h {
                            lemma_keydown_unhandled_id(ch[ii], self.children@[ii], key);
                        }
                    }
                    h
                },
            };
            if hit {
                handled = true;
                proof {
                    t = ii;
                    assert(node_wf(self.children@[ii])) by {
                        match ch[ii] {
                            Node::Leaf(p) => {
                                assert(p.spec_keydown(key).spec_rect() == p.spec_rect());
                            },
                            Node::Inner(_) => {},
                        }
                    }
                }
            }
            i = i + 1;
        }
        proof {
            if handled {
                lemma_children_keydown_first(ch, self.children@, key, t);
                lemma_key_exists(ch, key);
            } else {
                lemma_children_keydown_none(ch, self.children@, key);
            }
            lemma_keydown_same_shape_children(ch, self.children@, key);
            lemma_same_shape_leaves_seq(ch, self.children@);
            assert forall|j: int| 0 <= j < n implies node_wf(#[trigger] self.children@[j]) by {
                assert(node_wf(ch[j]));
                if handled && j == t {
                } else if (handled && j < t) || (!handled && j < i) {
                    lemma_node_eq_wf(ch[j], self.children@[j]);
                } else {
                    assert(self.children@[j] == ch[j]);
                }
            }
        }
        handled
    }
}

/// What a window-size broadcast does to one node: every leaf is told the
/// new size; nothing else changes.
pub open spec fn node_stretched(o: Node, n: Node, w: u32, h: u32) -> bool
    decreases o,
{
    match o {
        Node::Leaf(p) => n == Node::Leaf(p.spec_stretched(w, h)),
        Node::Inner(l) => n is Inner && layout_stretched(l, n->Inner_0, w, h),
    }
}

/// What a window-size broadcast does to a layout.
pub open spec fn layout_stretched(o: Layout, n: Layout, w: u32, h: u32) -> bool
    decreases o,
{
    &&& n.weights@ == o.weights@
    &&& n.orient == o.orient
    &&& n.margin == o.margin
    &&& n.rect == o.rect
    &&& n.children@.len() == o.children@.len()
    &&& forall|i: int|
        0 <= i < o.children@.len() ==> node_stretched(
            o.children@[i],
            #[trigger] n.children@[i],
            w,
            h,
        )
}

/// A window-size broadcast keeps the tree's shape.
pub proof fn lemma_stretched_same_shape_node(o: Node, n: Node, w: u32, h: u32)
    requires
        node_stretched(o, n, w, h),
    ensures
        node_same_shape(o, n),
    decreases o, 0int,
{
    match o {
        Node::Leaf(_) => {},
        Node::Inner(l) => {
            lemma_stretched_same_shape_children(l, n->Inner_0, w, h, 0);
        },
    }
}

/// Helper for `lemma_stretched_same_shape_node`, walking the children
/// from position `k` on.
proof fn lemma_stretched_same_shape_children(o: Layout, n: Layout, w: u32, h: u32, k: int)
    requires
        layout_stretched(o, n, w, h),
        0 <= k <= o.children@.len(),
    ensures
        forall|i: int|
            k <= i < o.children@.len() ==> node_same_shape(
                o.children@[i],
                #[trigger] n.children@[i],
            ),
    decreases o, o.children@.len() - k,
{
    if k < o.children@.len() {
        lemma_stretched_same_shape_node(o.children@[k], n.children@[k], w, h);
        lemma_stretched_same_shape_children(o, n, w, h, k + 1);
    }
}

impl Layout {
    /// Tell every leaf panel the outer window size. The tree's structure
    /// and every rectangle stay as they are; only window-dependent panel
    /// state (the viewport camera's aspect) follows.
    pub fn on_window_stretch(&mut self, w: u32, h: u32)
        requires
            old(self).wf(),
        ensures
            layout_stretched(*old(self), *final(self), w, h),
            final(self).wf(),
        decreases *old(self),
    {
        let ghost ch = old(self).children@;
        let n = self.children.len();
        let mut i: usize = 0;
        while i < n
            invariant
                old(self).wf(),
                ch == old(self).children@,
                n == ch.len(),
                self.children@.len() == n,
                self.weights == old(self).weights,
                self.orient == old(self).orient,
                self.margin == old(self).margin,
                self.rect == old(self).rect,
                i <= n,
                forall|j: int| i <= j < n ==> #[trigger] self.children@[j] == ch[j],
                forall|j: int|
                    0 <= j < i ==> node_stretched(ch[j], #[trigger] self.children@[j], w, h),
                forall|j: int| 0 <= j < i ==> node_wf(#[trigger] self.children@[j]),
            decreases n - i,
        {
            let ghost ii = i as int;
            proof {
                assert(node_wf(ch[ii]));
            }
            match &mut self.children[i] {
                Node::Leaf(panel) => {
                    panel.on_window_stretch(w, h);
                    proof {
                        match ch[ii] {
                            Node::Leaf(p) => {
                                assert(p.spec_stretched(w, h).spec_rect() == p.spec_rect());
                            },
                            Node::Inner(_) => {},
                        }
                    }
                },
                Node::Inner(inner) => {
                    inner.on_window_stretch(w, h);
                },
            }
            i = i + 1;
        }
        proof {
            assert(layout_stretched(*old(self), *self, w, h));
            lemma_stretched_same_shape_children(*old(self), *self, w, h, 0);
            lemma_same_shape_leaves_seq(ch, self.children@);
        }
    }
}

/// The solid-color stream models of the buffers the drawing leaves of a
/// node emit, in depth-first order.
pub open spec fn node_draws_cd(n: Node) -> Seq<crate::interface::draw::Stream<
    crate::interface::draw::VertexColor,
>>
    decreases n,
{
    match n {
        Node::Leaf(p) => if p.spec_draws() {
            seq![p.spec_draw_cd()]
        } else {
            Seq::empty()
        },
        Node::Inner(l) => children_draws_cd(l.children@),
    }
}

/// The solid-color stream models a forest's drawing leaves emit.
pub open spec fn children_draws_cd(ch: Seq<Node>) -> Seq<crate::interface::draw::Stream<
    crate::interface::draw::VertexColor,
>>
    decreases ch,
{
    if ch.len() == 0 {
        Seq::empty()
    } else {
        node_draws_cd(ch[0]) + children_draws_cd(ch.drop_first())
    }
}

/// The textured stream models of the buffers the drawing leaves of a
/// node emit, in depth-first order.
pub open spec fn node_draws_uv(n: Node) -> Seq<crate::interface::draw::Stream<
    crate::interface::draw::VertexUV,
>>
    decreases n,
{
    match n {
        Node::Leaf(p) => if p.spec_draws() {
            seq![p.spec_draw_uv()]
        } else {
            Seq::empty()
        },
        Node::Inner(l) => children_draws_uv(l.children@),
    }
}

/// The textured stream models a forest's drawing leaves emit.
pub open spec fn children_draws_uv(ch: Seq<Node>) -> Seq<crate::interface::draw::Stream<
    crate::interface::draw::VertexUV,
>>
    decreases ch,
{
    if ch.len() == 0 {
        Seq::empty()
    } else {
        node_draws_uv(ch[0]) + children_draws_uv(ch.drop_first())
    }
}

/// Appending a node appends its emitted streams.
pub proof fn lemma_draws_push(ch: Seq<Node>, n: Node)
    ensures
        children_draws_cd(ch.push(n)) == children_draws_cd(ch) + node_draws_cd(n),
        children_draws_uv(ch.push(n)) == children_draws_uv(ch) + node_draws_uv(n),
    decreases ch,
{
    if ch.len() == 0 {
        assert(ch.push(n)[0] == n);
        assert(ch.push(n).drop_first() =~= Seq::<Node>::empty());
        assert(children_draws_cd(ch.push(n).drop_first()) =~= Seq::<
            crate::interface::draw::Stream<crate::interface::draw::VertexColor>,
        >::empty());
        assert(children_draws_uv(ch.push(n).drop_first()) =~= Seq::<
            crate::interface::draw::Stream<crate::interface::draw::VertexUV>,
        >::empty());
        assert(children_draws_cd(ch.push(n)) =~= node_draws_cd(n));
        assert(children_draws_cd(ch) + node_draws_cd(n) =~= node_draws_cd(n));
        assert(children_draws_uv(ch.push(n)) =~= node_draws_uv(n));
        assert(children_draws_uv(ch) + node_draws_uv(n) =~= node_draws_uv(n));
    } else {
        lemma_draws_push(ch.drop_first(), n);
        assert(ch.push(n).drop_first() =~= ch.drop_first().push(n));
        assert(ch.push(n)[0] == ch[0]);
        assert(node_draws_cd(ch[0]) + (children_draws_cd(ch.drop_first()) + node_draws_cd(n))
            =~= (node_draws_cd(ch[0]) + children_draws_cd(ch.drop_first())) + node_draws_cd(n));
        assert(node_draws_uv(ch[0]) + (children_draws_uv(ch.drop_first()) + node_draws_uv(n))
            =~= (node_draws_uv(ch[0]) + children_draws_uv(ch.drop_first())) + node_draws_uv(n));
    }
}

/// A forest's drawing leaves are no more numerous than its leaves, and
/// every stream they emit is a well-formed quad of at most four
/// vertices.
pub proof fn lemma_draws_bounds(ch: Seq<Node>)
    ensures
        children_draws_cd(ch).len() <= leaves_of(ch).len(),
        children_draws_uv(ch).len() <= leaves_of(ch).len(),
        forall|i: int|
            0 <= i < children_draws_cd(ch).len() ==> (#[trigger] children_draws_cd(ch)[i]).wf()
                && children_draws_cd(ch)[i].vertices.len() <= 4,
        forall|i: int|
            0 <= i < children_draws_uv(ch).len() ==> (#[trigger] children_draws_uv(ch)[i]).wf()
                && children_draws_uv(ch)[i].vertices.len() <= 4,
    decreases ch, 1int,
{
    if ch.len() > 0 {
        lemma_node_draws_bounds(ch[0]);
        lemma_draws_bounds(ch.drop_first());
    }
}

/// Bounds for the streams one node emits.
pub proof fn lemma_node_draws_bounds(n: Node)
    ensures
        node_draws_cd(n).len() <= node_leaves(n).len(),
        node_draws_uv(n).len() <= node_leaves(n).len(),
        forall|i: int|
            0 <= i < node_draws_cd(n).len() ==> (#[trigger] node_draws_cd(n)[i]).wf()
                && node_draws_cd(n)[i].vertices.len() <= 4,
        forall|i: int|
            0 <= i < node_draws_uv(n).len() ==> (#[trigger] node_draws_uv(n)[i]).wf()
                && node_draws_uv(n)[i].vertices.len() <= 4,
    decreases n, 0int,
{
    match n {
        Node::Leaf(p) => {
            if p.spec_draws() {
                assert(p.spec_draw_cd().wf());
                assert(p.spec_draw_uv().wf());
            }
        },
        Node::Inner(l) => {
            lemma_draws_bounds(l.children@);
        },
    }
}

impl Layout {
    /// The stream models of the buffers this tree's drawing leaves emit,
    /// in depth-first order.
    pub open spec fn spec_draws_cd(self) -> Seq<crate::interface::draw::Stream<
        crate::interface::draw::VertexColor,
    >> {
        children_draws_cd(self.children@)
    }

    /// The textured counterpart of `spec_draws_cd`.
    pub open spec fn spec_draws_uv(self) -> Seq<crate::interface::draw::Stream<
        crate::interface::draw::VertexUV,
    >> {
        children_draws_uv(self.children@)
    }

    /// Gather one draw buffer per drawing leaf, in depth-first order:
    /// the tree-wide collection a frame is assembled from.
    pub fn collect_draws(&self) -> (bufs: Vec<crate::interface::draw::DrawBuffer>)
        requires
            self.wf(),
        ensures
            crate::interface::draw::cd_models(bufs@) == self.spec_draws_cd(),
            crate::interface::draw::uv_models(bufs@) == self.spec_draws_uv(),
        decreases *self,
    {
        let ghost ch = self.children@;
        let n = self.children.len();
        let mut bufs: Vec<crate::interface::draw::DrawBuffer> = Vec::new();
        let mut i: usize = 0;
        proof {
            assert(children_draws_cd(ch.subrange(0, 0)) =~= Seq::<crate::interface::draw::Stream<
                crate::interface::draw::VertexColor,
            >>::empty());
            assert(children_draws_uv(ch.subrange(0, 0)) =~= Seq::<crate::interface::draw::Stream<
                crate::interface::draw::VertexUV,
            >>::empty());
            assert(crate::interface::draw::cd_models(bufs@) =~= children_draws_cd(
                ch.subrange(0, 0),
            ));
            assert(crate::interface::draw::uv_models(bufs@) =~= children_draws_uv(
                ch.subrange(0, 0),
            ));
        }
        while i < n
            invariant
                self.wf(),
                ch == self.children@,
                n == ch.len(),
                i <= n,
                crate::interface::draw::cd_models(bufs@) == children_draws_cd(
                    ch.subrange(0, i as int),
                ),
                crate::interface::draw::uv_models(bufs@) == children_draws_uv(
                    ch.subrange(0, i as int),
                ),
            decreases n - i,
        {
            let ghost ii = i as int;
            let ghost bufs0 = bufs@;
            proof {
                assert(ch.subrange(0, ii + 1) =~= ch.subrange(0, ii).push(ch[ii]));
                lemma_draws_push(ch.subrange(0, ii), ch[ii]);
                assert(node_wf(ch[ii]));
            }
            match &self.children[i] {
                Node::Leaf(panel) => {
                    let drawn = panel.draw();
                    match drawn {
                        Some(buf) => {
                            bufs.push(buf);
                            proof {
                                assert(crate::interface::draw::cd_models(bufs@)
                                    =~= crate::interface::draw::cd_models(bufs0) + node_draws_cd(
                                    ch[ii],
                                ));
                                assert(crate::interface::draw::uv_models(bufs@)
                                    =~= crate::interface::draw::uv_models(bufs0) + node_draws_uv(
                                    ch[ii],
                                ));
                            }
                        },
                        None => {
                            proof {
                                assert(crate::interface::draw::cd_models(bufs@)
                                    =~= crate::interface::draw::cd_models(bufs0) + node_draws_cd(
                                    ch[ii],
                                ));
                                assert(crate::interface::draw::uv_models(bufs@)
                                    =~= crate::interface::draw::uv_models(bufs0) + node_draws_uv(
                                    ch[ii],
                                ));
                            }
                        },
                    }
                },
                Node::Inner(inner) => {
                    let mut sub = inner.collect_draws();
                    let ghost subv = sub@;
                    bufs.append(&mut sub);
                    proof {
                        assert(crate::interface::draw::cd_models(bufs@)
                            =~= crate::interface::draw::cd_models(bufs0)
                            + crate::interface::draw::cd_models(subv));
                        assert(crate::interface::draw::uv_models(bufs@)
                            =~= crate::interface::draw::uv_models(bufs0)
                            + crate::interface::draw::uv_models(subv));
                    }
                },
            }
            i = i + 1;
        }
        proof {
            assert(ch.subrange(0, n as int) =~= ch);
        }
        bufs
    }

    /// The whole frame's batched geometry: every drawing leaf's buffer,
    /// merged in depth-first order with exact index rebasing.
    pub fn draw_all(&self) -> (b: crate::interface::draw::DrawBuffer)
        requires
            self.wf(),
        ensures
            b.cd() == crate::interface::draw::merge_all(self.spec_draws_cd()),
            b.uv() == crate::interface::draw::merge_all(self.spec_draws_uv()),
            b.wf(),
    {
        let bufs = self.collect_draws();
        proof {
            lemma_draws_bounds(self.children@);
            crate::interface::draw::lemma_merge_all_len(self.spec_draws_cd(), 4);
            crate::interface::draw::lemma_merge_all_len(self.spec_draws_uv(), 4);
            crate::interface::draw::lemma_merge_all_wf(self.spec_draws_cd());
            crate::interface::draw::lemma_merge_all_wf(self.spec_draws_uv());
            assert forall|i: int| 0 <= i < bufs@.len() implies (#[trigger] bufs@[i]).wf() by {
                assert(bufs@[i].cd() == crate::interface::draw::cd_models(bufs@)[i]);
                assert(bufs@[i].uv() == crate::interface::draw::uv_models(bufs@)[i]);
            }
            assert(self.spec_draws_cd().len() * 4 <= leaves_of(self.children@).len() * 4 <= 4
                * MAX_PANELS) by (nonlinear_arith)
                requires
                    self.spec_draws_cd().len() <= leaves_of(self.children@).len(),
                    leaves_of(self.children@).len() <= MAX_PANELS,
            ;
            assert(self.spec_draws_uv().len() * 4 <= leaves_of(self.children@).len() * 4 <= 4
                * MAX_PANELS) by (nonlinear_arith)
                requires
                    self.spec_draws_uv().len() <= leaves_of(self.children@).len(),
                    leaves_of(self.children@).len() <= MAX_PANELS,
            ;
        }
        crate::interface::draw::DrawBuffer::sum(bufs)
    }
}

/// Sum of the primary-axis spans of the first `i` child regions.
pub open spec fn spans_sum(r: Rect, o: Orientation, ws: Seq<u64>, margin: int, i: int) -> int
    decreases i,
{
    if i <= 0 {
        0
    } else {
        spans_sum(r, o, ws, margin, i - 1) + (child_hi(r, o, ws, margin, i - 1) - child_lo(
            r,
            o,
            ws,
            margin,
            i - 1,
        ))
    }
}

/// Without margins the child regions tile the parent exactly: the first
/// region starts at the start of the axis, the last ends at its end,
/// each region ends exactly where the next begins, every region spans
/// the parent's full cross-axis extent, and the primary-axis spans sum
/// to exactly the parent's extent — no gaps, no overlaps, not one
/// coordinate unit lost.
pub proof fn lemma_partition(r: Rect, o: Orientation, ws: Seq<u64>)
    requires
        r.wf(),
        ws.len() >= 1,
        sum_weights(ws) >= 1,
    ensures
        child_lo(r, o, ws, 0, 0) == axis_min(r, o),
        child_hi(r, o, ws, 0, ws.len() - 1) == axis_max(r, o),
        forall|i: int|
            0 <= i < ws.len() ==> #[trigger] child_lo(r, o, ws, 0, i) == split_pos(r, o, ws, i),
        forall|i: int|
            0 <= i < ws.len() ==> #[trigger] child_hi(r, o, ws, 0, i) == split_pos(
                r,
                o,
                ws,
                i + 1,
            ),
        forall|i: int|
            0 <= i < ws.len() - 1 ==> #[trigger] child_hi(r, o, ws, 0, i) == child_lo(
                r,
                o,
                ws,
                0,
                i + 1,
            ),
        spans_sum(r, o, ws, 0, ws.len() as int) == axis_extent(r, o),
{
    assert forall|i: int| 0 <= i < ws.len() implies #[trigger] child_lo(r, o, ws, 0, i)
        == split_pos(r, o, ws, i) by {
        lemma_split_pos_bounds(r, o, ws, i, i + 1);
    }
    assert forall|i: int| 0 <= i < ws.len() implies #[trigger] child_hi(r, o, ws, 0, i)
        == split_pos(r, o, ws, i + 1) by {
        lemma_split_pos_bounds(r, o, ws, i, i + 1);
    }
    assert forall|i: int| 0 <= i < ws.len() - 1 implies #[trigger] child_hi(r, o, ws, 0, i)
        == child_lo(r, o, ws, 0, i + 1) by {
        assert(child_hi(r, o, ws, 0, i) == split_pos(r, o, ws, i + 1));
        assert(child_lo(r, o, ws, 0, i + 1) == split_pos(r, o, ws, i + 1));
    }
    lemma_split_pos_ends(r, o, ws);
    lemma_spans_telescope(r, o, ws, ws.len() as int);
}

/// The span sums telescope: the first `i` spans cover exactly the
/// distance from the first split point to split point `i`.
proof fn lemma_spans_telescope(r: Rect, o: Orientation, ws: Seq<u64>, i: int)
    requires
        r.wf(),
        sum_weights(ws) >= 1,
        0 <= i <= ws.len(),
    ensures
        spans_sum(r, o, ws, 0, i) == split_pos(r, o, ws, i) - split_pos(r, o, ws, 0),
    decreases i,
{
    if i > 0 {
        lemma_spans_telescope(r, o, ws, i - 1);
        lemma_split_pos_bounds(r, o, ws, i - 1, i);
    }
}

/// Every child region spans the parent's full cross-axis extent.
pub proof fn lemma_region_cross_axis(r: Rect, o: Orientation, ws: Seq<u64>, margin: int, i: int)
    ensures
        o is Horizontal ==> child_region(r, o, ws, margin, i).min.y == r.min.y && child_region(
            r,
            o,
            ws,
            margin,
            i,
        ).max.y == r.max.y,
        o is Vertical ==> child_region(r, o, ws, margin, i).min.x == r.min.x && child_region(
            r,
            o,
            ws,
            margin,
            i,
        ).max.x == r.max.x,
{
}

/// When a child's slice is at least as wide as the margin, the insets
/// take the exact form the margin rule names: half the margin off each
/// internal boundary, outer edges flush.
pub proof fn lemma_margin_insets(r: Rect, o: Orientation, ws: Seq<u64>, margin: int, i: int)
    requires
        r.wf(),
        sum_weights(ws) >= 1,
        0 <= margin,
        0 <= i < ws.len(),
        split_pos(r, o, ws, i + 1) - split_pos(r, o, ws, i) >= margin,
    ensures
        child_lo(r, o, ws, margin, i) == split_pos(r, o, ws, i) + (if i == 0 {
            0int
        } else {
            margin / 2
        }),
        child_hi(r, o, ws, margin, i) == split_pos(r, o, ws, i + 1) - (if i == ws.len() - 1 {
            0int
        } else {
            margin / 2
        }),
{
    vstd::arithmetic::div_mod::lemma_fundamental_div_mod(margin, 2);
}

} // verus!
