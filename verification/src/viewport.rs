//! The 3D viewport panel: stores its screen rectangle and a camera, keeps
//! the camera's aspect ratio in step with the window and panel shape, and
//! moves the camera on key input. Turning the camera into GPU matrices and
//! submitting the textured quad is the embedding shell's work.

pub mod camera;

use vstd::prelude::*;

use crate::interface::panel::Key;
use crate::prim::bound::Rect;
use crate::prim::point::Point3;
use crate::prim::point::COORD3_MAX;
use crate::prim::point::UNIT;
use crate::viewport::camera::Camera;
use crate::viewport::camera::Ratio;

verus! {

/// The aspect ratio a viewport presents to its camera: the window's own
/// width-to-height ratio times the panel rectangle's width-to-height
/// ratio, kept as one exact fraction.
pub open spec fn spec_aspect(w: u32, h: u32, r: Rect) -> Ratio {
    Ratio {
        num: (w * (r.max.x - r.min.x)) as i128,
        den: (h * (r.max.y - r.min.y)) as i128,
    }
}

/// Keys that move the viewport camera.
pub open spec fn key_moves(k: Key) -> bool {
    ||| k is W
    ||| k is Up
    ||| k is S
    ||| k is Down
    ||| k is A
    ||| k is Left
    ||| k is D
    ||| k is Right
}

/// Where the camera eye ends up after one key press: one `UNIT` along the
/// axis the key names. A move that would leave the 3D working range is
/// ignored, so the eye always stays where later moves cannot overflow.
pub open spec fn spec_moved_eye(e: Point3, k: Key) -> Point3 {
    if k is W || k is Up {
        if e.z - UNIT >= -COORD3_MAX {
            Point3 { z: (e.z - UNIT) as i64, ..e }
        } else {
            e
        }
    } else if k is S || k is Down {
        if e.z + UNIT <= COORD3_MAX {
            Point3 { z: (e.z + UNIT) as i64, ..e }
        } else {
            e
        }
    } else if k is A || k is Left {
        if e.x - UNIT >= -COORD3_MAX {
            Point3 { x: (e.x - UNIT) as i64, ..e }
        } else {
            e
        }
    } else if k is D || k is Right {
        if e.x + UNIT <= COORD3_MAX {
            Point3 { x: (e.x + UNIT) as i64, ..e }
        } else {
            e
        }
    } else {
        e
    }
}

/// A leaf panel that shows a 3D scene. It owns no GPU state itself: it
/// keeps the assigned rectangle, the window size and the camera, and the
/// shell reads them back each frame.
#[derive(Clone, Copy, Debug, PartialEq, Eq, Structural)]
pub struct Viewport {
    pub rect: Rect,
    pub window_w: u32,
    pub window_h: u32,
    pub camera: Camera,
}

impl Viewport {
    /// The stored panel rectangle.
    pub open spec fn spec_rect(self) -> Rect {
        self.rect
    }

    /// The stored camera.
    pub open spec fn spec_camera(self) -> Camera {
        self.camera
    }

    /// The stored window size, width then height.
    pub open spec fn spec_window(self) -> (u32, u32) {
        (self.window_w, self.window_h)
    }

    /// The viewport after adopting `rect`: the rectangle is stored and
    /// the camera aspect follows.
    pub open spec fn spec_resized(self, rect: Rect) -> Viewport {
        (Viewport { rect, ..self }).with_current_aspect()
    }

    /// The viewport after adopting a window size: the size is stored and
    /// the camera aspect follows.
    pub open spec fn spec_stretched(self, w: u32, h: u32) -> Viewport {
        (Viewport { window_w: w, window_h: h, ..self }).with_current_aspect()
    }

    /// The viewport after `key` is dispatched to it: only the camera eye
    /// can move.
    pub open spec fn spec_keydown(self, key: Key) -> Viewport {
        Viewport {
            camera: Camera { eye: spec_moved_eye(self.camera.eye, key), ..self.camera },
            ..self
        }
    }

    /// This viewport after its camera aspect is recomputed from the
    /// stored window size and rectangle.
    pub open spec fn with_current_aspect(self) -> Viewport {
        Viewport {
            camera: Camera {
                aspect: spec_aspect(self.window_w, self.window_h, self.rect),
                ..self.camera
            },
            ..self
        }
    }

    pub fn rect(&self) -> (r: Rect)
        ensures
            r == self.spec_rect(),
    {
        self.rect
    }

    pub fn camera(&self) -> (c: Camera)
        ensures
            c == self.spec_camera(),
    {
        self.camera
    }

    /// Point the camera at the initial scene and adopt the window size.
    /// The shell calls this once, when the window first exists.
    pub fn init_scene(&mut self, window_w: u32, window_h: u32)
        ensures
            *final(self) == (Viewport {
                rect: old(self).rect,
                window_w,
                window_h,
                camera: Camera::spec_initial(
                    spec_aspect(window_w, window_h, old(self).rect),
                ),
            }),
    {
        self.window_w = window_w;
        self.window_h = window_h;
        self.camera = Camera::initial(self.aspect());
    }

    /// The exact aspect fraction for the current window size and
    /// rectangle.
    fn aspect(&self) -> (a: Ratio)
        ensures
            a == spec_aspect(self.window_w, self.window_h, self.rect),
    {
        proof {
            let mw: int = 0x1_0000_0000;
            let mc: int = 0x2_0000_0000_0000_0000;
            crate::prim::vector::lemma_mul_bounds(
                self.window_w as int,
                mw,
                self.rect.max.x - self.rect.min.x,
                mc,
            );
            crate::prim::vector::lemma_mul_bounds(
                self.window_h as int,
                mw,
                self.rect.max.y - self.rect.min.y,
                mc,
            );
        }
        Ratio {
            num: (self.window_w as i128) * (self.rect.max.x as i128 - self.rect.min.x as i128),
            den: (self.window_h as i128) * (self.rect.max.y as i128 - self.rect.min.y as i128),
        }
    }

    /// Recompute the camera's aspect from the stored window size and
    /// rectangle.
    fn update_camera_aspect(&mut self)
        ensures
            *final(self) == old(self).with_current_aspect(),
    {
        self.camera.aspect = self.aspect();
    }

    /// Adopt a new window size; the panel rectangle is unchanged but the
    /// camera aspect follows the window shape.
    pub fn on_window_stretch(&mut self, window_w: u32, window_h: u32)
        ensures
            *final(self) == old(self).spec_stretched(window_w, window_h),
    {
        self.window_w = window_w;
        self.window_h = window_h;
        self.update_camera_aspect();
    }

    /// Adopt the rectangle the layout assigned; the camera aspect follows
    /// the panel shape.
    pub fn resize(&mut self, rect: Rect)
        ensures
            *final(self) == old(self).spec_resized(rect),
    {
        self.rect = rect;
        self.update_camera_aspect();
    }

    /// A click lands in this panel exactly when the stored rectangle
    /// contains the cursor.
    pub fn onclick(&self, cursor: crate::prim::point::Point2) -> (handled: bool)
        requires
            self.rect.in_range(),
            cursor.in_range(),
        ensures
            handled == self.rect.spec_contains(cursor),
    {
        self.rect.contains(cursor)
    }

    /// Move the camera eye one `UNIT` for the movement keys; any other
    /// key is not handled.
    pub fn onkeydown(&mut self, key: Key) -> (handled: bool)
        ensures
            handled == key_moves(key),
            *final(self) == old(self).spec_keydown(key),
    {
        match key {
            Key::W | Key::Up => {
                if self.camera.eye.z >= -COORD3_MAX + UNIT {
                    self.camera.eye.z = self.camera.eye.z - UNIT;
                }
                true
            },
            Key::S | Key::Down => {
                if self.camera.eye.z <= COORD3_MAX - UNIT {
                    self.camera.eye.z = self.camera.eye.z + UNIT;
                }
                true
            },
            Key::A | Key::Left => {
                if self.camera.eye.x >= -COORD3_MAX + UNIT {
                    self.camera.eye.x = self.camera.eye.x - UNIT;
                }
                true
            },
            Key::D | Key::Right => {
                if self.camera.eye.x <= COORD3_MAX - UNIT {
                    self.camera.eye.x = self.camera.eye.x + UNIT;
                }
                true
            },
            _ => false,
        }
    }
}

impl Default for Viewport {
    /// A viewport with a degenerate rectangle, no window size and a
    /// zeroed camera; `init_scene` and `resize` bring it to life.
    fn default() -> (v: Self)
        ensures
            v.spec_rect() == (Rect {
                min: (crate::prim::point::Point2 { x: 0, y: 0 }),
                max: (crate::prim::point::Point2 { x: 0, y: 0 }),
            }),
            v.spec_window() == (0u32, 0u32),
            v.spec_camera().eye == (Point3 { x: 0, y: 0, z: 0 }),
    {
        Viewport {
            rect: Rect {
                min: crate::prim::point::Point2 { x: 0, y: 0 },
                max: crate::prim::point::Point2 { x: 0, y: 0 },
            },
            window_w: 0,
            window_h: 0,
            camera: Camera::default(),
        }
    }
}

} // verus!
