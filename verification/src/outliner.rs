//! The outliner panel: a flat list panel that paints its assigned
//! rectangle as a solid blue quad and consumes clicks that land in it.

use vstd::prelude::*;

use crate::interface::draw::quad_indices;
use crate::interface::draw::quad_vertices_cd;
use crate::interface::draw::DrawBuffer;
use crate::prim::bound::Rect;
use crate::prim::color::RGB;
use crate::prim::point::Point2;
use crate::prim::point::UNIT;

verus! {

/// A leaf panel that lists scene content. It keeps only the rectangle the
/// layout assigned to it and emits one solid-colored quad per frame.
#[derive(Clone, Copy, Debug, PartialEq, Eq, Structural)]
pub struct Outliner {
    pub rect: Rect,
}

impl Outliner {
    /// The stored panel rectangle.
    pub open spec fn spec_rect(self) -> Rect {
        self.rect
    }

    /// The outliner whose whole state is `rect`.
    pub open spec fn spec_with_rect(rect: Rect) -> Outliner {
        Outliner { rect }
    }

    pub fn rect(&self) -> (r: Rect)
        ensures
            r == self.spec_rect(),
    {
        self.rect
    }

    /// Adopt the rectangle the layout assigned.
    pub fn resize(&mut self, rect: Rect)
        ensures
            *final(self) == Outliner::spec_with_rect(rect),
    {
        self.rect = rect;
    }

    /// A click lands in this panel exactly when the stored rectangle
    /// contains the cursor.
    pub fn onclick(&self, cursor: Point2) -> (handled: bool)
        requires
            self.rect.in_range(),
            cursor.in_range(),
        ensures
            handled == self.rect.spec_contains(cursor),
    {
        self.rect.contains(cursor)
    }

    /// One blue quad covering the panel's rectangle.
    pub fn draw(&self) -> (b: DrawBuffer)
        ensures
            b.cd().vertices == quad_vertices_cd(
                self.rect,
                (RGB { r: 0, g: 0, b: UNIT as i64 }),
            ),
            b.cd().indices == quad_indices(0),
            b.uv() == crate::interface::draw::Stream::<
                crate::interface::draw::VertexUV,
            >::empty(),
            b.wf(),
    {
        let mut buffer = DrawBuffer::default();
        buffer.rect(self.rect, RGB::blue());
        proof {
            assert(buffer.cd().vertices =~= quad_vertices_cd(
                self.rect,
                (RGB { r: 0, g: 0, b: UNIT as i64 }),
            ));
            assert(buffer.cd().indices =~= quad_indices(0));
        }
        buffer
    }
}

impl Default for Outliner {
    /// An outliner with a degenerate rectangle; `resize` assigns the
    /// real one.
    fn default() -> (o: Self)
        ensures
            o.spec_rect() == (Rect {
                min: (Point2 { x: 0, y: 0 }),
                max: (Point2 { x: 0, y: 0 }),
            }),
    {
        Outliner {
            rect: Rect { min: Point2 { x: 0, y: 0 }, max: Point2 { x: 0, y: 0 } },
        }
    }
}

} // verus!
