use panes::interface::layout::{Layout, LayoutError, Orientation};
use panes::interface::panel::Panel;
use panes::outliner::Outliner;
use panes::prim::point::UNIT;
use panes::prim::{Point2, Rect};

fn ndc_rect() -> Rect {
    Rect::from_corner(Point2::new(-UNIT, -UNIT), Point2::new(UNIT, UNIT))
}

fn leaf_rect(layout: &Layout, i: usize) -> Rect {
    match layout.leaf_at(i) {
        Panel::Outliner(o) => o.rect(),
        Panel::Viewport(v) => v.rect(),
    }
}

#[test]
fn equal_weights_split_into_exact_halves() {
    let mut layout = Layout::new(ndc_rect(), Orientation::Horizontal);
    layout.grow(Panel::Outliner(Outliner::default())).unwrap();
    layout.grow(Panel::Outliner(Outliner::default())).unwrap();

    let a = leaf_rect(&layout, 0);
    assert_eq!((a.min.x, a.min.y, a.max.x, a.max.y), (-UNIT, -UNIT, 0, UNIT));
    let b = leaf_rect(&layout, 1);
    assert_eq!((b.min.x, b.min.y, b.max.x, b.max.y), (0, -UNIT, UNIT, UNIT));
}

#[test]
fn weighted_split_1_2_1_boundaries_at_quarters() {
    let mut layout = Layout::new(ndc_rect(), Orientation::Horizontal);
    layout
        .grow_with_weight(Panel::Outliner(Outliner::default()), 1)
        .unwrap();
    layout
        .grow_with_weight(Panel::Outliner(Outliner::default()), 2)
        .unwrap();
    layout
        .grow_with_weight(Panel::Outliner(Outliner::default()), 1)
        .unwrap();

    let half = UNIT / 2;
    let a = leaf_rect(&layout, 0);
    assert_eq!((a.min.x, a.max.x), (-UNIT, -half));
    let b = leaf_rect(&layout, 1);
    assert_eq!((b.min.x, b.max.x), (-half, half));
    let c = leaf_rect(&layout, 2);
    assert_eq!((c.min.x, c.max.x), (half, UNIT));
    for i in 0..3 {
        let r = leaf_rect(&layout, i);
        assert_eq!((r.min.y, r.max.y), (-UNIT, UNIT));
    }
}

#[test]
fn spans_sum_to_parent_extent_for_awkward_weights() {
    // 2*UNIT is not divisible by 7, so interior boundaries round down,
    // but the slices still tile the parent exactly.
    let mut layout = Layout::new(ndc_rect(), Orientation::Vertical);
    for w in [3u64, 3, 1] {
        layout
            .grow_with_weight(Panel::Outliner(Outliner::default()), w)
            .unwrap();
    }
    let mut total = 0i64;
    let mut prev_hi = -UNIT;
    for i in 0..3 {
        let r = leaf_rect(&layout, i);
        assert_eq!(r.min.y, prev_hi, "no gap and no overlap at boundary {i}");
        total += r.max.y - r.min.y;
        prev_hi = r.max.y;
        assert_eq!((r.min.x, r.max.x), (-UNIT, UNIT));
    }
    assert_eq!(prev_hi, UNIT);
    assert_eq!(total, 2 * UNIT);
}

#[test]
fn nested_layout_is_split_over_its_own_slice() {
    // A nested layout two levels deep must have its leaves' rectangles
    // derived from the intersection of both ancestors' slices.
    let mut inner = Layout::new(ndc_rect(), Orientation::Vertical);
    inner.grow(Panel::Outliner(Outliner::default())).unwrap();
    inner.grow(Panel::Outliner(Outliner::default())).unwrap();

    let mut root = Layout::new(ndc_rect(), Orientation::Horizontal);
    root.grow(Panel::Outliner(Outliner::default())).unwrap();
    root.push(inner).unwrap();

    // The inner layout owns the right half; its leaves stack vertically
    // within that half only.
    let b = leaf_rect(&root, 1);
    assert_eq!((b.min.x, b.min.y, b.max.x, b.max.y), (0, -UNIT, UNIT, 0));
    let c = leaf_rect(&root, 2);
    assert_eq!((c.min.x, c.min.y, c.max.x, c.max.y), (0, 0, UNIT, UNIT));
}

#[test]
fn margin_insets_internal_boundaries_only() {
    let mut layout = Layout::new(ndc_rect(), Orientation::Horizontal);
    layout.grow(Panel::Outliner(Outliner::default())).unwrap();
    layout.grow(Panel::Outliner(Outliner::default())).unwrap();
    layout.set_margin(2000);

    let a = leaf_rect(&layout, 0);
    let b = leaf_rect(&layout, 1);
    // Outer edges stay flush with the parent; the shared boundary is
    // inset by half the margin on each side.
    assert_eq!(a.min.x, -UNIT);
    assert_eq!(a.max.x, -1000);
    assert_eq!(b.min.x, 1000);
    assert_eq!(b.max.x, UNIT);
}

#[test]
fn zero_weight_is_rejected_at_insertion() {
    let mut layout = Layout::new(ndc_rect(), Orientation::Horizontal);
    let r = layout.grow_with_weight(Panel::Outliner(Outliner::default()), 0);
    assert_eq!(r, Err(LayoutError::ZeroWeight));
    assert_eq!(layout.leaf_count(), 0);
}

#[test]
fn oversized_weight_is_rejected_at_insertion() {
    let mut layout = Layout::new(ndc_rect(), Orientation::Horizontal);
    let r = layout.grow_with_weight(Panel::Outliner(Outliner::default()), u64::MAX);
    assert_eq!(r, Err(LayoutError::TotalWeightExceeded));
    let r2 = layout.grow_with_weight(Panel::Outliner(Outliner::default()), 0x10_0000);
    assert_eq!(r2, Ok(()));
    let r3 = layout.grow_with_weight(Panel::Outliner(Outliner::default()), 1);
    assert_eq!(r3, Err(LayoutError::TotalWeightExceeded));
    assert_eq!(layout.leaf_count(), 1);
}

#[test]
fn too_many_panels_is_rejected_at_insertion() {
    // A balanced tree of depth 12 with two leaves per innermost node
    // owns exactly 8192 leaves, the largest tree allowed.
    fn build(depth: u32) -> Layout {
        let mut l = Layout::new(ndc_rect(), Orientation::Horizontal);
        if depth == 0 {
            l.grow(Panel::Outliner(Outliner::default())).unwrap();
            l.grow(Panel::Outliner(Outliner::default())).unwrap();
        } else {
            l.push(build(depth - 1)).unwrap();
            l.push(build(depth - 1)).unwrap();
        }
        l
    }
    let mut full = build(12);
    assert_eq!(full.leaf_count(), 8192);
    let r = full.grow(Panel::Outliner(Outliner::default()));
    assert_eq!(r, Err(LayoutError::TooManyPanels));
    assert_eq!(full.leaf_count(), 8192);
}

#[test]
fn resize_reassigns_every_leaf() {
    let mut layout = Layout::new(ndc_rect(), Orientation::Horizontal);
    layout.grow(Panel::Outliner(Outliner::default())).unwrap();
    layout.grow(Panel::Outliner(Outliner::default())).unwrap();
    let quarter = Rect::from_corner(Point2::new(0, 0), Point2::new(UNIT, UNIT));
    layout.resize(quarter);
    let a = leaf_rect(&layout, 0);
    assert_eq!((a.min.x, a.max.x), (0, UNIT / 2));
    let b = leaf_rect(&layout, 1);
    assert_eq!((b.min.x, b.max.x), (UNIT / 2, UNIT));
}
