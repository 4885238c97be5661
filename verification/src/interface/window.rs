use vstd::prelude::*;

use crate::interface::layout::layout_keydown_rel;
use crate::interface::layout::layout_stretched;
use crate::interface::layout::Layout;
use crate::interface::panel::Key;
use crate::prim::point::Point2;

verus! {

/// An input or lifecycle event, in the library's own terms. The shell
/// translates window-system events into these before handing them over;
/// cursor positions arrive already normalized into the layout's
/// coordinate space.
#[derive(Clone, Copy, Debug, PartialEq, Eq, Structural)]
pub enum Event {
    /// The user asked to close the window.
    CloseRequested,
    /// A key was pressed.
    KeyDown(Key),
    /// The cursor moved to this position, in layout coordinates.
    CursorMoved(Point2),
    /// The primary mouse button was released at the tracked cursor.
    MouseUp,
    /// The window was resized to this many pixels.
    Resized(u32, u32),
    /// The window system asked for the window to be painted.
    RedrawRequested,
    /// The event queue drained; an idle moment.
    MainCleared,
}

/// What the shell should do after the library digested an event.
#[derive(Clone, Copy, Debug, PartialEq, Eq, Structural)]
pub enum Action {
    /// Nothing to do; wait for the next event.
    Continue,
    /// Leave the event loop.
    Exit,
    /// Render a frame now.
    Render,
    /// Ask the window system to schedule a repaint.
    RequestRedraw,
}

/// The application object: the layout tree, the tracked cursor and the
/// last known window size. The shell owns the event loop and the GPU;
/// every decision — what an event means, who receives it, what happens
/// next — is taken here.
pub struct Window {
    pub layout: Layout,
    pub cursor: Point2,
    pub width: u32,
    pub height: u32,
}

/// Events carrying a cursor position must keep it within the coordinate
/// working range; a shell that normalizes into the layout's space
/// satisfies this by construction.
pub open spec fn event_wf(e: Event) -> bool {
    e matches Event::CursorMoved(p) ==> p.in_range()
}

impl Window {
    /// The window's own invariant: a well-formed tree and an in-range
    /// cursor.
    pub open spec fn wf(self) -> bool {
        self.layout.wf() && self.cursor.in_range()
    }

    pub fn new(layout: Layout) -> (w: Window)
        requires
            layout.wf(),
        ensures
            w.layout == layout,
            w.cursor == (Point2 { x: 0, y: 0 }),
            w.width == 0,
            w.height == 0,
            w.wf(),
    {
        Window { layout, cursor: Point2 { x: 0, y: 0 }, width: 0, height: 0 }
    }

    /// Digest one event and say what the shell should do next.
    ///
    /// Closing the window or pressing escape ends the loop. A key press
    /// is dispatched depth-first through the tree, stopping at the first
    /// panel that takes it. A cursor move is tracked; a mouse release is
    /// hit-tested through the tree at the tracked cursor. A resize
    /// adopts the new size and notifies every leaf; a redraw request
    /// asks for a frame, and an idle moment schedules the next repaint.
    pub fn on_event(&mut self, e: Event) -> (a: Action)
        requires
            old(self).wf(),
            event_wf(e),
        ensures
            final(self).wf(),
            e is CloseRequested ==> a == Action::Exit && *final(self) == *old(self),
            e matches Event::KeyDown(k) ==> {
                &&& (k is Escape ==> a == Action::Exit && *final(self) == *old(self))
                &&& (!(k is Escape) ==> {
                    &&& a == Action::Continue
                    &&& layout_keydown_rel(old(self).layout, final(self).layout, k)
                    &&& final(self).cursor == old(self).cursor
                    &&& final(self).width == old(self).width
                    &&& final(self).height == old(self).height
                })
            },
            e matches Event::CursorMoved(p) ==> a == Action::Continue && *final(self) == (
            Window { cursor: p, ..*old(self) }),
            e is MouseUp ==> a == Action::Continue && *final(self) == *old(self),
            e matches Event::Resized(w, h) ==> {
                &&& a == Action::Continue
                &&& layout_stretched(old(self).layout, final(self).layout, w, h)
                &&& final(self).cursor == old(self).cursor
                &&& final(self).width == w
                &&& final(self).height == h
            },
            e is RedrawRequested ==> a == Action::Render && *final(self) == *old(self),
            e is MainCleared ==> a == Action::RequestRedraw && *final(self) == *old(self),
    {
        match e {
            Event::CloseRequested => Action::Exit,
            Event::KeyDown(k) => {
                if let Key::Escape = k {
                    Action::Exit
                } else {
                    self.layout.onkeydown(k);
                    Action::Continue
                }
            },
            Event::CursorMoved(p) => {
                self.cursor = p;
                Action::Continue
            },
            Event::MouseUp => {
                self.on_mouse_up();
                Action::Continue
            },
            Event::Resized(w, h) => {
                self.width = w;
                self.height = h;
                self.layout.on_window_stretch(w, h);
                Action::Continue
            },
            Event::RedrawRequested => Action::Render,
            Event::MainCleared => Action::RequestRedraw,
        }
    }

    /// Route a mouse release through the tree at the tracked cursor.
    /// Today's panels take no action on a click beyond consuming it, so
    /// the window is left as it was; the dispatch result says whether
    /// any panel claimed the click.
    pub fn on_mouse_up(&mut self) -> (handled: bool)
        requires
            old(self).wf(),
        ensures
            *final(self) == *old(self),
            handled == old(self).layout.spec_onclick(old(self).cursor),
    {
        self.layout.onclick(self.cursor)
    }
}

} // verus!
