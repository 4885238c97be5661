use panes::interface::layout::{Layout, Orientation};
use panes::interface::panel::{Key, Panel};
use panes::interface::window::{Action, Event, Window};
use panes::outliner::Outliner;
use panes::prim::point::UNIT;
use panes::prim::{Point2, Rect};
use panes::viewport::Viewport;

fn ndc_rect() -> Rect {
    Rect::from_corner(Point2::new(-UNIT, -UNIT), Point2::new(UNIT, UNIT))
}

fn two_halves() -> Layout {
    let mut layout = Layout::new(ndc_rect(), Orientation::Horizontal);
    layout.grow(Panel::Outliner(Outliner::default())).unwrap();
    layout.grow(Panel::Outliner(Outliner::default())).unwrap();
    layout
}

#[test]
fn click_inside_a_leaf_is_handled() {
    let layout = two_halves();
    // Inside the left half only.
    let cursor = Point2::new(-UNIT / 2, 0);
    assert!(layout.onclick(cursor));
    match (layout.leaf_at(0), layout.leaf_at(1)) {
        (Panel::Outliner(a), Panel::Outliner(b)) => {
            assert!(a.onclick(cursor));
            assert!(!b.onclick(Point2::new(-UNIT / 2, -1 - UNIT)));
            // The halves are disjoint away from the shared boundary: a
            // cursor strictly inside the left half never reaches the
            // right leaf's rectangle.
            assert!(!b.rect().contains(cursor));
        }
        _ => panic!("expected two outliner leaves"),
    }
}

#[test]
fn click_outside_every_rectangle_is_unhandled() {
    let layout = two_halves();
    assert!(!layout.onclick(Point2::new(UNIT + 100, 0)));
    assert!(!layout.onclick(Point2::new(0, -UNIT - 1)));
}

#[test]
fn click_outside_a_nested_layout_skips_its_children() {
    // The nested layout owns the right half; a click in the left half is
    // cut off at the nested layout's own rectangle.
    let mut inner = Layout::new(ndc_rect(), Orientation::Vertical);
    inner.grow(Panel::Outliner(Outliner::default())).unwrap();
    let mut root = Layout::new(ndc_rect(), Orientation::Horizontal);
    root.grow(Panel::Outliner(Outliner::default())).unwrap();
    root.push(inner).unwrap();

    assert!(root.onclick(Point2::new(-UNIT / 2, 0)));
    assert!(root.onclick(Point2::new(UNIT / 2, 0)));
    assert!(!root.onclick(Point2::new(0, UNIT + 1)));
}

#[test]
fn keydown_reaches_only_the_first_handler() {
    let mut layout = Layout::new(ndc_rect(), Orientation::Vertical);
    layout.grow(Panel::Outliner(Outliner::default())).unwrap();
    layout.grow(Panel::Viewport(Viewport::default())).unwrap();
    layout.grow(Panel::Viewport(Viewport::default())).unwrap();

    let eye_z = |layout: &Layout, i: usize| match layout.leaf_at(i) {
        Panel::Viewport(v) => v.camera().eye.z,
        _ => panic!("expected a viewport"),
    };
    let before_first = eye_z(&layout, 1);
    let before_second = eye_z(&layout, 2);

    // The outliner does not handle keys; the first viewport does, and
    // the dispatch stops there: the second viewport never sees the key.
    assert!(layout.onkeydown(Key::W));
    assert_eq!(eye_z(&layout, 1), before_first - UNIT);
    assert_eq!(eye_z(&layout, 2), before_second);
}

#[test]
fn unhandled_key_is_reported_and_changes_nothing() {
    let mut layout = Layout::new(ndc_rect(), Orientation::Vertical);
    layout.grow(Panel::Outliner(Outliner::default())).unwrap();
    layout.grow(Panel::Viewport(Viewport::default())).unwrap();
    let before = match layout.leaf_at(1) {
        Panel::Viewport(v) => v.camera(),
        _ => panic!("expected a viewport"),
    };
    assert!(!layout.onkeydown(Key::Other));
    assert!(!layout.onkeydown(Key::Escape));
    let after = match layout.leaf_at(1) {
        Panel::Viewport(v) => v.camera(),
        _ => panic!("expected a viewport"),
    };
    assert_eq!(before, after);
}

#[test]
fn viewport_moves_one_unit_per_movement_key() {
    let mut v = Viewport::default();
    v.init_scene(800, 600);
    assert_eq!(v.camera().eye.z, 2 * UNIT);
    assert!(v.onkeydown(Key::W));
    assert_eq!(v.camera().eye.z, UNIT);
    assert!(v.onkeydown(Key::Down));
    assert_eq!(v.camera().eye.z, 2 * UNIT);
    assert!(v.onkeydown(Key::A));
    assert_eq!(v.camera().eye.x, -UNIT);
    assert!(v.onkeydown(Key::Right));
    assert_eq!(v.camera().eye.x, 0);
    assert!(!v.onkeydown(Key::Other));
}

#[test]
fn window_events_drive_the_tree() {
    let mut window = Window::new(two_halves());

    assert_eq!(window.on_event(Event::Resized(800, 600)), Action::Continue);
    assert_eq!((window.width, window.height), (800, 600));

    let inside_left = Point2::new(-UNIT / 2, 0);
    assert_eq!(
        window.on_event(Event::CursorMoved(inside_left)),
        Action::Continue
    );
    assert_eq!(window.cursor, inside_left);
    assert_eq!(window.on_event(Event::MouseUp), Action::Continue);
    assert!(window.on_mouse_up());

    assert_eq!(window.on_event(Event::RedrawRequested), Action::Render);
    assert_eq!(window.on_event(Event::MainCleared), Action::RequestRedraw);
    assert_eq!(
        window.on_event(Event::KeyDown(Key::Other)),
        Action::Continue
    );
    assert_eq!(window.on_event(Event::KeyDown(Key::Escape)), Action::Exit);
    assert_eq!(window.on_event(Event::CloseRequested), Action::Exit);
}

#[test]
fn window_stretch_updates_every_viewport_aspect() {
    let mut layout = Layout::new(ndc_rect(), Orientation::Horizontal);
    layout.grow(Panel::Viewport(Viewport::default())).unwrap();
    let mut window = Window::new(layout);
    assert_eq!(window.on_event(Event::Resized(1920, 1080)), Action::Continue);
    match window.layout.leaf_at(0) {
        Panel::Viewport(v) => {
            let a = v.camera().aspect;
            // window ratio times panel ratio, as one exact fraction:
            // the sole panel spans the full 2*UNIT square.
            assert_eq!(a.num, 1920 * 2 * UNIT as i128);
            assert_eq!(a.den, 1080 * 2 * UNIT as i128);
        }
        _ => panic!("expected a viewport"),
    }
}
