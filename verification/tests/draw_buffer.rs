use panes::interface::draw::DrawBuffer;
use panes::prim::point::UNIT;
use panes::prim::{Point2, Rect, RGB};

fn quad_buffer(x0: i64, y0: i64, x1: i64, y1: i64) -> DrawBuffer {
    let mut b = DrawBuffer::default();
    b.rect(
        Rect::from_corner(Point2::new(x0, y0), Point2::new(x1, y1)),
        RGB::red(),
    );
    b
}

#[test]
fn rect_appends_four_corners_and_two_triangles() {
    let b = quad_buffer(-UNIT, -UNIT, UNIT, UNIT);
    assert_eq!(b.vertices_cd.len(), 4);
    let ps: Vec<(i64, i64)> = b
        .vertices_cd
        .iter()
        .map(|v| (v.position.x, v.position.y))
        .collect();
    assert_eq!(
        ps,
        vec![(-UNIT, -UNIT), (UNIT, -UNIT), (-UNIT, UNIT), (UNIT, UNIT)]
    );
    assert_eq!(b.indices_cd, vec![0, 1, 2, 2, 1, 3]);
    assert!(b.vertices_uv.is_empty());
    assert!(b.indices_uv.is_empty());
    for v in &b.vertices_cd {
        assert_eq!((v.color.r, v.color.g, v.color.b), (UNIT, 0, 0));
        assert_eq!(v.position.z, 0);
    }
}

#[test]
fn rect_uv_uses_the_fixed_vertically_flipped_mapping() {
    let mut b = DrawBuffer::default();
    b.rect_uv(Rect::from_corner(Point2::new(0, 0), Point2::new(UNIT, UNIT)));
    assert_eq!(b.vertices_uv.len(), 4);
    let uvs: Vec<(i64, i64)> = b.vertices_uv.iter().map(|v| (v.u, v.v)).collect();
    // bottom-left, bottom-right, top-left, top-right of the rectangle map
    // to image-space (0,1), (1,1), (0,0), (1,0): the top of the rectangle
    // is the top of the image.
    assert_eq!(uvs, vec![(0, UNIT), (UNIT, UNIT), (0, 0), (UNIT, 0)]);
    assert_eq!(b.indices_uv, vec![0, 1, 2, 2, 1, 3]);
    assert!(b.vertices_cd.is_empty());
}

#[test]
fn chain_concatenates_and_rebases_indices() {
    let a = quad_buffer(-UNIT, -UNIT, 0, 0);
    let b = quad_buffer(0, 0, UNIT, UNIT);
    let c = a.chain(b);
    assert_eq!(c.vertices_cd.len(), 8);
    assert_eq!(c.indices_cd, vec![0, 1, 2, 2, 1, 3, 4, 5, 6, 6, 5, 7]);
    // Every index remains a valid offset into the merged vertex stream.
    for &i in &c.indices_cd {
        assert!((i as usize) < c.vertices_cd.len());
    }
    // The rebased indices still address the same vertices.
    assert_eq!(c.vertices_cd[4].position.x, 0);
    assert_eq!(c.vertices_cd[4].position.y, 0);
}

#[test]
fn chain_has_the_empty_buffer_as_identity() {
    let b = quad_buffer(-UNIT, 0, 0, UNIT);
    let left = DrawBuffer::default().chain(b.clone());
    assert_eq!(left, b);
    let right = b.clone().chain(DrawBuffer::default());
    assert_eq!(right, b);
}

#[test]
fn chain_is_associative() {
    let a = quad_buffer(-UNIT, -UNIT, 0, 0);
    let b = quad_buffer(0, -UNIT, UNIT, 0);
    let c = quad_buffer(-UNIT, 0, UNIT, UNIT);
    let left = a.clone().chain(b.clone()).chain(c.clone());
    let right = a.chain(b.chain(c));
    assert_eq!(left, right);
}

#[test]
fn sum_is_the_left_fold_of_chain() {
    let a = quad_buffer(-UNIT, -UNIT, 0, 0);
    let b = quad_buffer(0, -UNIT, UNIT, 0);
    let c = quad_buffer(-UNIT, 0, UNIT, UNIT);
    let folded = a.clone().chain(b.clone()).chain(c.clone());
    let summed = DrawBuffer::sum(vec![a, b, c]);
    assert_eq!(summed, folded);
    assert_eq!(summed.vertices_cd.len(), 12);
    assert_eq!(summed.indices_cd.len(), 18);
}

#[test]
fn sum_of_nothing_is_the_empty_buffer() {
    let z = DrawBuffer::sum(vec![]);
    assert_eq!(z, DrawBuffer::default());
}

#[test]
fn mixed_streams_rebase_independently() {
    let mut a = DrawBuffer::default();
    a.rect(
        Rect::from_corner(Point2::new(-UNIT, -UNIT), Point2::new(0, 0)),
        RGB::blue(),
    );
    let mut b = DrawBuffer::default();
    b.rect_uv(Rect::from_corner(Point2::new(0, 0), Point2::new(UNIT, UNIT)));
    b.rect(
        Rect::from_corner(Point2::new(0, 0), Point2::new(UNIT, UNIT)),
        RGB::green(),
    );
    let c = a.chain(b);
    // The color stream had 4 vertices before the merge, the textured
    // stream none: color indices from `b` shift by 4, textured ones not
    // at all.
    assert_eq!(c.indices_cd, vec![0, 1, 2, 2, 1, 3, 4, 5, 6, 6, 5, 7]);
    assert_eq!(c.indices_uv, vec![0, 1, 2, 2, 1, 3]);
}
