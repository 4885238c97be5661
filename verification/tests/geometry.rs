use panes::prim::point::UNIT;
use panes::prim::{Point2, Point3, Rect, Vector2, Vector3, RGB};

#[test]
fn contains_is_boundary_inclusive() {
    let r = Rect::from_corner(Point2::new(-UNIT, -UNIT), Point2::new(UNIT, UNIT));
    assert!(r.contains(r.center()));
    assert!(r.contains(r.bottomleft()));
    assert!(r.contains(r.bottomright()));
    assert!(r.contains(r.topleft()));
    assert!(r.contains(r.topright()));
    // One coordinate unit outside any edge is excluded.
    assert!(!r.contains(Point2::new(UNIT + 1, 0)));
    assert!(!r.contains(Point2::new(-UNIT - 1, 0)));
    assert!(!r.contains(Point2::new(0, UNIT + 1)));
    assert!(!r.contains(Point2::new(0, -UNIT - 1)));
}

#[test]
fn contains_on_an_asymmetric_rectangle() {
    let r = Rect::from_corner(Point2::new(10, -7), Point2::new(25, 3));
    assert!(r.contains(Point2::new(10, -7)));
    assert!(r.contains(Point2::new(25, 3)));
    assert!(r.contains(Point2::new(17, 0)));
    assert!(!r.contains(Point2::new(9, 0)));
    assert!(!r.contains(Point2::new(26, 0)));
    assert!(!r.contains(Point2::new(17, 4)));
    assert!(!r.contains(Point2::new(17, -8)));
}

#[test]
fn rect_accessors_are_exact() {
    let r = Rect::from_corner(Point2::new(-4, -2), Point2::new(10, 6));
    assert_eq!(r.width(), 14);
    assert_eq!(r.height(), 8);
    let c = r.center();
    assert_eq!((c.x, c.y), (3, 2));
    let e = r.extent();
    assert_eq!((e.x, e.y), (14, 8));
    assert_eq!((r.bottomright().x, r.bottomright().y), (10, -2));
    assert_eq!((r.topleft().x, r.topleft().y), (-4, 6));
}

#[test]
fn from_center_halves_the_extent_on_each_side() {
    let r = Rect::from_center(Point2::new(100, -50), Vector2::new(40, 8));
    assert_eq!((r.min.x, r.min.y), (80, -54));
    assert_eq!((r.max.x, r.max.y), (120, -46));
}

#[test]
fn point_and_vector_arithmetic() {
    let p = Point2::new(3, 4);
    let q = Point2::new(-1, 2);
    let d = p.sub(q);
    assert_eq!((d.x, d.y), (4, 2));
    let m = p.add_vec(Vector2::new(10, -10));
    assert_eq!((m.x, m.y), (13, -6));
    let s = Vector2::new(6, -3).mul(5);
    assert_eq!((s.x, s.y), (30, -15));
}

#[test]
fn division_truncates_toward_zero() {
    let p = Point2::new(7, -7).div(2);
    assert_eq!((p.x, p.y), (3, -3));
    let v = Vector2::new(9, -9).div(4);
    assert_eq!((v.x, v.y), (2, -2));
}

#[test]
fn vector3_products() {
    let x = Vector3::new(1, 0, 0);
    let y = Vector3::new(0, 1, 0);
    let c = x.cross(y);
    assert_eq!((c.x, c.y, c.z), (0, 0, 1));
    assert_eq!(Vector3::new(1, 2, 3).dot(Vector3::new(4, -5, 6)), 12);
    assert_eq!(Vector3::new(3, 4, 12).length2(), 169);
    let p = Point3::new(2, 0, -1);
    assert_eq!(p.dot(Vector3::new(5, 7, 3)), 7);
    let a = Vector3::axisy();
    assert_eq!((a.x, a.y, a.z), (0, UNIT, 0));
}

#[test]
fn colors_use_fixed_point_intensity() {
    assert_eq!(
        (RGB::blue().r, RGB::blue().g, RGB::blue().b),
        (0, 0, UNIT)
    );
    assert_eq!((RGB::black().r, RGB::black().g, RGB::black().b), (0, 0, 0));
    let c = RGB::new(1, 2, 3);
    assert_eq!((c.r, c.g, c.b), (1, 2, 3));
}
