use panes::interface::layout::{Layout, Orientation};
use panes::interface::panel::Panel;
use panes::outliner::Outliner;
use panes::prim::point::UNIT;
use panes::prim::{Point2, Rect};
use panes::viewport::Viewport;

fn ndc_rect() -> Rect {
    Rect::from_corner(Point2::new(-UNIT, -UNIT), Point2::new(UNIT, UNIT))
}

#[test]
fn outliner_draws_its_rectangle_as_one_blue_quad() {
    let mut o = Outliner::default();
    o.resize(Rect::from_corner(Point2::new(-UNIT, 0), Point2::new(0, UNIT)));
    let b = o.draw();
    assert_eq!(b.vertices_cd.len(), 4);
    assert_eq!(b.indices_cd, vec![0, 1, 2, 2, 1, 3]);
    for v in &b.vertices_cd {
        assert_eq!((v.color.r, v.color.g, v.color.b), (0, 0, UNIT));
    }
    assert_eq!(b.vertices_cd[0].position.x, -UNIT);
    assert_eq!(b.vertices_cd[3].position.y, UNIT);
}

#[test]
fn only_drawing_panels_contribute_buffers() {
    let outliner = Panel::Outliner(Outliner::default());
    let viewport = Panel::Viewport(Viewport::default());
    assert!(outliner.draw().is_some());
    assert!(viewport.draw().is_none());
}

#[test]
fn draw_all_merges_leaf_buffers_in_tree_order() {
    let mut layout = Layout::new(ndc_rect(), Orientation::Horizontal);
    layout.grow(Panel::Outliner(Outliner::default())).unwrap();
    layout.grow(Panel::Viewport(Viewport::default())).unwrap();
    layout.grow(Panel::Outliner(Outliner::default())).unwrap();

    let frame = layout.draw_all();
    // Two outliners drew one quad each; the viewport contributed
    // nothing to the batched streams.
    assert_eq!(frame.vertices_cd.len(), 8);
    assert_eq!(frame.indices_cd, vec![0, 1, 2, 2, 1, 3, 4, 5, 6, 6, 5, 7]);
    assert!(frame.vertices_uv.is_empty());
    // The first quad covers the first third, the second the last third.
    assert_eq!(frame.vertices_cd[0].position.x, -UNIT);
    assert_eq!(frame.vertices_cd[4].position.x, -UNIT + (2 * UNIT * 2) / 3);
}

#[test]
fn draw_all_of_an_empty_tree_is_empty() {
    let layout = Layout::new(ndc_rect(), Orientation::Vertical);
    let frame = layout.draw_all();
    assert!(frame.vertices_cd.is_empty());
    assert!(frame.indices_cd.is_empty());
    assert!(frame.vertices_uv.is_empty());
    assert!(frame.indices_uv.is_empty());
}

#[test]
fn initial_camera_looks_at_the_origin() {
    let mut v = Viewport::default();
    v.resize(ndc_rect());
    v.init_scene(1280, 720);
    let c = v.camera();
    assert_eq!((c.eye.x, c.eye.y, c.eye.z), (0, UNIT, 2 * UNIT));
    assert_eq!((c.target.x, c.target.y, c.target.z), (0, 0, 0));
    assert_eq!((c.up.x, c.up.y, c.up.z), (0, UNIT, 0));
    assert_eq!(c.fovy, 45 * UNIT);
    assert_eq!(c.znear, UNIT / 10);
    assert_eq!(c.zfar, 100 * UNIT);
    assert_eq!(c.aspect.num, 1280 * 2 * UNIT as i128);
    assert_eq!(c.aspect.den, 720 * 2 * UNIT as i128);
}

#[test]
fn viewport_resize_tracks_rect_and_aspect() {
    let mut v = Viewport::default();
    v.init_scene(1000, 500);
    v.resize(Rect::from_corner(Point2::new(0, -UNIT), Point2::new(UNIT, UNIT)));
    assert_eq!(v.rect().min.x, 0);
    let a = v.camera().aspect;
    assert_eq!(a.num, 1000 * UNIT as i128);
    assert_eq!(a.den, 500 * 2 * UNIT as i128);
}

#[test]
fn panel_resize_stores_the_assigned_rectangle() {
    let mut p = Panel::Viewport(Viewport::default());
    let r = Rect::from_corner(Point2::new(1, 2), Point2::new(3, 4));
    p.resize(r);
    match p {
        Panel::Viewport(v) => {
            assert_eq!((v.rect().min.x, v.rect().max.y), (1, 4));
        }
        _ => panic!("expected a viewport"),
    }
}
