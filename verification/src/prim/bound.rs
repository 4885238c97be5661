use vstd::prelude::*;

use super::point::Point2;
use super::vector::Vector2;

verus! {

/// An axis-aligned rectangle, given by its bottom-left corner `min` and its
/// top-right corner `max`, in fixed-point coordinates.
///
/// A rectangle is well formed when `min.x <= max.x` and `min.y <= max.y`;
/// consumers such as the layout engine assume well-formedness.
#[derive(Clone, Copy, Debug, PartialEq, Eq, Structural)]
pub struct Rect {
    pub min: Point2,
    pub max: Point2,
}

impl Rect {
    /// `min` is really the bottom-left corner and `max` the top-right one.
    pub open spec fn wf(self) -> bool {
        self.min.x <= self.max.x && self.min.y <= self.max.y
    }

    /// All four coordinates lie within the library's working range.
    pub open spec fn in_range(self) -> bool {
        self.min.in_range() && self.max.in_range()
    }

    /// The point the executable `center` returns: the midpoint, with each
    /// axis rounded down to a whole coordinate unit.
    pub open spec fn spec_center(self) -> Point2 {
        Point2 {
            x: (self.min.x + (self.max.x - self.min.x) / 2) as i64,
            y: (self.min.y + (self.max.y - self.min.y) / 2) as i64,
        }
    }

    /// Containment by the half-extent rule: a point is inside when its
    /// doubled offset from the midpoint does not exceed the extent in
    /// magnitude on either axis. The comparison is inclusive, so points on
    /// the boundary count as contained. Doubling keeps the rule exact in
    /// integer arithmetic.
    pub open spec fn spec_contains(self, p: Point2) -> bool {
        &&& mag(2 * p.x - (self.min.x + self.max.x)) <= mag(self.max.x - self.min.x)
        &&& mag(2 * p.y - (self.min.y + self.max.y)) <= mag(self.max.y - self.min.y)
    }

    /// Midpoint of the rectangle, rounded down per axis.
    pub fn center(&self) -> (c: Point2)
        requires
            self.wf(),
            self.in_range(),
        ensures
            c == self.spec_center(),
            self.min.x <= c.x <= self.max.x,
            self.min.y <= c.y <= self.max.y,
    {
        Point2 {
            x: self.min.x + (self.max.x - self.min.x) / 2,
            y: self.min.y + (self.max.y - self.min.y) / 2,
        }
    }

    /// The size of the rectangle as a vector from `min` to `max`.
    pub fn extent(&self) -> (e: Vector2)
        requires
            self.in_range(),
        ensures
            e.x == self.max.x - self.min.x,
            e.y == self.max.y - self.min.y,
    {
        Vector2 { x: self.max.x - self.min.x, y: self.max.y - self.min.y }
    }

    /// Horizontal size.
    pub fn width(&self) -> (w: i64)
        requires
            self.in_range(),
        ensures
            w == self.max.x - self.min.x,
    {
        self.max.x - self.min.x
    }

    /// Vertical size.
    pub fn height(&self) -> (h: i64)
        requires
            self.in_range(),
        ensures
            h == self.max.y - self.min.y,
    {
        self.max.y - self.min.y
    }

    pub fn bottomleft(&self) -> (p: Point2)
        ensures
            p == self.min,
    {
        self.min
    }

    pub fn bottomright(&self) -> (p: Point2)
        ensures
            p.x == self.max.x,
            p.y == self.min.y,
    {
        Point2 { x: self.max.x, y: self.min.y }
    }

    pub fn topleft(&self) -> (p: Point2)
        ensures
            p.x == self.min.x,
            p.y == self.max.y,
    {
        Point2 { x: self.min.x, y: self.max.y }
    }

    pub fn topright(&self) -> (p: Point2)
        ensures
            p == self.max,
    {
        self.max
    }

    /// Rectangle spanned by a bottom-left and a top-right corner.
    pub fn from_corner(bottomleft: Point2, topright: Point2) -> (r: Rect)
        ensures
            r.min == bottomleft,
            r.max == topright,
    {
        Rect { min: bottomleft, max: topright }
    }

    /// Rectangle of the given extent centred on `center`; each half-extent
    /// is rounded down to a whole coordinate unit.
    pub fn from_center(center: Point2, extent: Vector2) -> (r: Rect)
        requires
            center.in_range(),
            0 <= extent.x <= 4 * crate::prim::point::COORD_MAX,
            0 <= extent.y <= 4 * crate::prim::point::COORD_MAX,
        ensures
            r.min.x == center.x - extent.x / 2,
            r.min.y == center.y - extent.y / 2,
            r.max.x == center.x + extent.x / 2,
            r.max.y == center.y + extent.y / 2,
            r.wf(),
    {
        let hx = extent.x / 2;
        let hy = extent.y / 2;
        Rect {
            min: Point2 { x: center.x - hx, y: center.y - hy },
            max: Point2 { x: center.x + hx, y: center.y + hy },
        }
    }

    /// Inclusive point-in-rectangle test by the half-extent rule.
    pub fn contains(&self, p: Point2) -> (r: bool)
        requires
            self.in_range(),
            p.in_range(),
        ensures
            r == self.spec_contains(p),
    {
        let dx = 2 * p.x - (self.min.x + self.max.x);
        let dy = 2 * p.y - (self.min.y + self.max.y);
        let ex = self.max.x - self.min.x;
        let ey = self.max.y - self.min.y;
        let adx = if dx >= 0 { dx } else { -dx };
        let ady = if dy >= 0 { dy } else { -dy };
        let aex = if ex >= 0 { ex } else { -ex };
        let aey = if ey >= 0 { ey } else { -ey };
        adx <= aex && ady <= aey
    }
}

impl Default for Rect {
    /// The degenerate rectangle at the origin.
    fn default() -> (r: Self)
        ensures
            r.min.x == 0,
            r.min.y == 0,
            r.max.x == 0,
            r.max.y == 0,
    {
        Rect { min: Point2 { x: 0, y: 0 }, max: Point2 { x: 0, y: 0 } }
    }
}

/// Magnitude of an integer.
pub open spec fn mag(a: int) -> int {
    if a >= 0 {
        a
    } else {
        -a
    }
}

/// For a well-formed rectangle, the half-extent containment rule is exactly
/// the inclusive interval test on both axes. In particular the rectangle
/// contains its own midpoint and all four corners, and a point strictly
/// beyond any edge — even by a single coordinate unit — is excluded.
pub proof fn lemma_contains_iff_bounds(r: Rect, p: Point2)
    requires
        r.wf(),
    ensures
        r.spec_contains(p) <==> (r.min.x <= p.x <= r.max.x && r.min.y <= p.y <= r.max.y),
{
}

/// A well-formed rectangle contains its midpoint and its four corners.
pub proof fn lemma_contains_center_and_corners(r: Rect)
    requires
        r.wf(),
    ensures
        r.spec_contains(r.spec_center()),
        r.spec_contains(r.min),
        r.spec_contains(r.max),
        r.spec_contains((Point2 { x: r.min.x, y: r.max.y })),
        r.spec_contains((Point2 { x: r.max.x, y: r.min.y })),
{
}

} // verus!
