use vstd::prelude::*;

use crate::interface::draw::quad_indices;
use crate::interface::draw::quad_vertices_cd;
use crate::interface::draw::DrawBuffer;
use crate::interface::draw::Stream;
use crate::interface::draw::VertexColor;
use crate::interface::draw::VertexUV;
use crate::outliner::Outliner;
use crate::prim::bound::Rect;
use crate::prim::color::RGB;
use crate::prim::point::Point2;
use crate::prim::point::UNIT;
use crate::viewport::key_moves;
use crate::viewport::Viewport;

verus! {

/// A keyboard key, as the library names them. The shell maps the window
/// system's key codes onto these; keys the panels never distinguish all
/// map to `Other`.
#[derive(Clone, Copy, Debug, PartialEq, Eq, Structural)]
pub enum Key {
    W,
    A,
    S,
    D,
    Up,
    Down,
    Left,
    Right,
    Escape,
    Other,
}

/// A leaf content provider: one of the library's panel kinds. Every
/// capability a panel offers — adopting a rectangle, hit-testing a click,
/// handling a key, following the window shape, emitting geometry — is
/// dispatched through this closed set of variants.
#[derive(Clone, Copy, Debug, PartialEq, Eq, Structural)]
pub enum Panel {
    Outliner(Outliner),
    Viewport(Viewport),
}

impl Panel {
    /// The rectangle the panel last adopted.
    pub open spec fn spec_rect(self) -> Rect {
        match self {
            Panel::Outliner(o) => o.spec_rect(),
            Panel::Viewport(v) => v.spec_rect(),
        }
    }

    /// The panel's rectangle stays within the coordinate working range;
    /// the layout tree maintains this for every leaf it owns.
    pub open spec fn wf(self) -> bool {
        self.spec_rect().in_range()
    }

    /// The panel after adopting `rect`.
    pub open spec fn spec_resized(self, rect: Rect) -> Panel {
        match self {
            Panel::Outliner(_) => Panel::Outliner(Outliner::spec_with_rect(rect)),
            Panel::Viewport(v) => Panel::Viewport(v.spec_resized(rect)),
        }
    }

    /// Whether the panel consumes a click at `cursor`: every panel kind
    /// answers by containment in its own rectangle.
    pub open spec fn spec_onclick(self, cursor: Point2) -> bool {
        self.spec_rect().spec_contains(cursor)
    }

    /// Whether the panel handles `key`.
    pub open spec fn spec_handles_key(self, key: Key) -> bool {
        match self {
            Panel::Outliner(_) => false,
            Panel::Viewport(_) => key_moves(key),
        }
    }

    /// The panel after `key` is dispatched to it.
    pub open spec fn spec_keydown(self, key: Key) -> Panel {
        match self {
            Panel::Outliner(o) => Panel::Outliner(o),
            Panel::Viewport(v) => Panel::Viewport(v.spec_keydown(key)),
        }
    }

    /// The panel after it is told the window size.
    pub open spec fn spec_stretched(self, w: u32, h: u32) -> Panel {
        match self {
            Panel::Outliner(o) => Panel::Outliner(o),
            Panel::Viewport(v) => Panel::Viewport(v.spec_stretched(w, h)),
        }
    }

    /// The geometry the panel emits for a frame, if any: the outliner
    /// emits its quad, the viewport draws through the GPU instead.
    pub open spec fn spec_draws(self) -> bool {
        self is Outliner
    }

    /// The solid-color stream a drawing panel emits: one quad covering
    /// its rectangle.
    pub open spec fn spec_draw_cd(self) -> Stream<VertexColor> {
        Stream {
            vertices: quad_vertices_cd(self.spec_rect(), RGB { r: 0, g: 0, b: UNIT as i64 }),
            indices: quad_indices(0),
        }
    }

    /// The textured stream a drawing panel emits: none today.
    pub open spec fn spec_draw_uv(self) -> Stream<VertexUV> {
        Stream::empty()
    }

    /// Adopt the rectangle the layout assigned.
    pub fn resize(&mut self, rect: Rect)
        ensures
            *final(self) == old(self).spec_resized(rect),
    {
        match self {
            Panel::Outliner(o) => o.resize(rect),
            Panel::Viewport(v) => v.resize(rect),
        }
    }

    /// Hit-test a click; a click never changes a panel's state.
    pub fn onclick(&self, cursor: Point2) -> (handled: bool)
        requires
            self.wf(),
            cursor.in_range(),
        ensures
            handled == self.spec_onclick(cursor),
    {
        match self {
            Panel::Outliner(o) => o.onclick(cursor),
            Panel::Viewport(v) => v.onclick(cursor),
        }
    }

    /// Offer `key` to the panel; it reports whether it consumed it.
    pub fn onkeydown(&mut self, key: Key) -> (handled: bool)
        ensures
            *final(self) == old(self).spec_keydown(key),
            handled == old(self).spec_handles_key(key),
    {
        match self {
            Panel::Outliner(_) => false,
            Panel::Viewport(v) => v.onkeydown(key),
        }
    }

    /// Tell the panel the outer window size, independent of its own
    /// rectangle.
    pub fn on_window_stretch(&mut self, w: u32, h: u32)
        ensures
            *final(self) == old(self).spec_stretched(w, h),
    {
        match self {
            Panel::Outliner(_) => (),
            Panel::Viewport(v) => v.on_window_stretch(w, h),
        }
    }

    /// Emit this frame's batched 2D geometry, if the panel has any.
    pub fn draw(&self) -> (b: Option<DrawBuffer>)
        ensures
            b is Some <==> self.spec_draws(),
            b matches Some(buf) ==> {
                &&& buf.cd() == self.spec_draw_cd()
                &&& buf.uv() == self.spec_draw_uv()
                &&& buf.wf()
            },
    {
        match self {
            Panel::Outliner(o) => {
                let buf = o.draw();
                proof {
                    assert(buf.cd() =~= self.spec_draw_cd());
                }
                Some(buf)
            },
            Panel::Viewport(_) => None,
        }
    }
}

} // verus!
