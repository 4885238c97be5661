use vstd::prelude::*;

use super::vector::{Vector2, Vector3};

verus! {

/// Number of fixed-point coordinate units that stand for 1.0 in normalized
/// device coordinates. A full NDC axis runs from `-UNIT` to `UNIT`.
pub const UNIT: i64 = 65536;

/// Largest coordinate magnitude the library works with. Keeping every
/// coordinate within `[-COORD_MAX, COORD_MAX]` leaves enough headroom in
/// `i64` for the layout engine's interpolation arithmetic.
pub const COORD_MAX: i64 = 0x100_0000_0000;

/// A position in the 2D panel plane, in fixed-point coordinates.
#[derive(Clone, Copy, Debug, PartialEq, Eq, Structural)]
pub struct Point2 {
    pub x: i64,
    pub y: i64,
}

impl Point2 {
    /// Both coordinates lie within the library's working range.
    pub open spec fn in_range(self) -> bool {
        -COORD_MAX <= self.x <= COORD_MAX && -COORD_MAX <= self.y <= COORD_MAX
    }

    pub fn new(x: i64, y: i64) -> (p: Point2)
        ensures
            p.x == x,
            p.y == y,
    {
        Point2 { x, y }
    }

    pub fn zero() -> (p: Point2)
        ensures
            p.x == 0,
            p.y == 0,
    {
        Point2 { x: 0, y: 0 }
    }

    /// Componentwise sum of two points.
    pub fn add(self, rhs: Point2) -> (p: Point2)
        requires
            i64::MIN <= self.x + rhs.x <= i64::MAX,
            i64::MIN <= self.y + rhs.y <= i64::MAX,
        ensures
            p.x == self.x + rhs.x,
            p.y == self.y + rhs.y,
    {
        Point2 { x: self.x + rhs.x, y: self.y + rhs.y }
    }

    /// Difference of two points, as the vector leading from `rhs` to `self`.
    pub fn sub(self, rhs: Point2) -> (v: Vector2)
        requires
            i64::MIN <= self.x - rhs.x <= i64::MAX,
            i64::MIN <= self.y - rhs.y <= i64::MAX,
        ensures
            v.x == self.x - rhs.x,
            v.y == self.y - rhs.y,
    {
        Vector2 { x: self.x - rhs.x, y: self.y - rhs.y }
    }

    /// Translate the point by a vector.
    pub fn add_vec(self, rhs: Vector2) -> (p: Point2)
        requires
            i64::MIN <= self.x + rhs.x <= i64::MAX,
            i64::MIN <= self.y + rhs.y <= i64::MAX,
        ensures
            p.x == self.x + rhs.x,
            p.y == self.y + rhs.y,
    {
        Point2 { x: self.x + rhs.x, y: self.y + rhs.y }
    }

    /// Divide both coordinates by a positive scalar, truncating toward
    /// zero.
    pub fn div(self, rhs: i64) -> (p: Point2)
        requires
            rhs >= 1,
        ensures
            p.x == (if self.x >= 0 {
                self.x as int / rhs as int
            } else {
                -((-(self.x as int)) / rhs as int)
            }),
            p.y == (if self.y >= 0 {
                self.y as int / rhs as int
            } else {
                -((-(self.y as int)) / rhs as int)
            }),
    {
        Point2 { x: self.x / rhs, y: self.y / rhs }
    }

    /// Translate the point against a vector.
    pub fn sub_vec(self, rhs: Vector2) -> (p: Point2)
        requires
            i64::MIN <= self.x - rhs.x <= i64::MAX,
            i64::MIN <= self.y - rhs.y <= i64::MAX,
        ensures
            p.x == self.x - rhs.x,
            p.y == self.y - rhs.y,
    {
        Point2 { x: self.x - rhs.x, y: self.y - rhs.y }
    }
}

impl Default for Point2 {
    /// The origin.
    fn default() -> (p: Self)
        ensures
            p.x == 0,
            p.y == 0,
    {
        Point2 { x: 0, y: 0 }
    }
}

/// Largest coordinate magnitude for 3D camera-space values; small enough
/// that dot and cross products of in-range vectors stay within `i64`.
pub const COORD3_MAX: i64 = 0x4000_0000;

/// A position in 3D camera space, in fixed-point coordinates.
#[derive(Clone, Copy, Debug, PartialEq, Eq, Structural)]
pub struct Point3 {
    pub x: i64,
    pub y: i64,
    pub z: i64,
}

impl Point3 {
    /// All coordinates lie within the 3D working range.
    pub open spec fn in_range(self) -> bool {
        &&& -COORD3_MAX <= self.x <= COORD3_MAX
        &&& -COORD3_MAX <= self.y <= COORD3_MAX
        &&& -COORD3_MAX <= self.z <= COORD3_MAX
    }

    pub fn new(x: i64, y: i64, z: i64) -> (p: Point3)
        ensures
            p.x == x,
            p.y == y,
            p.z == z,
    {
        Point3 { x, y, z }
    }

    pub fn zero() -> (p: Point3)
        ensures
            p.x == 0,
            p.y == 0,
            p.z == 0,
    {
        Point3 { x: 0, y: 0, z: 0 }
    }

    /// Dot product of the point's position vector with a vector.
    pub fn dot(self, other: Vector3) -> (d: i64)
        requires
            self.in_range(),
            other.in_range(),
        ensures
            d == self.x * other.x + self.y * other.y + self.z * other.z,
    {
        proof {
            let m = COORD3_MAX as int;
            crate::prim::vector::lemma_mul_range(self.x as int, other.x as int, m);
            crate::prim::vector::lemma_mul_range(self.y as int, other.y as int, m);
            crate::prim::vector::lemma_mul_range(self.z as int, other.z as int, m);
        }
        self.x * other.x + self.y * other.y + self.z * other.z
    }

    /// Translate the point by a vector.
    pub fn add_vec(self, rhs: Vector3) -> (p: Point3)
        requires
            i64::MIN <= self.x + rhs.x <= i64::MAX,
            i64::MIN <= self.y + rhs.y <= i64::MAX,
            i64::MIN <= self.z + rhs.z <= i64::MAX,
        ensures
            p.x == self.x + rhs.x,
            p.y == self.y + rhs.y,
            p.z == self.z + rhs.z,
    {
        Point3 { x: self.x + rhs.x, y: self.y + rhs.y, z: self.z + rhs.z }
    }

    /// Difference of two points, as the vector leading from `rhs` to `self`.
    pub fn sub(self, rhs: Point3) -> (v: Vector3)
        requires
            i64::MIN <= self.x - rhs.x <= i64::MAX,
            i64::MIN <= self.y - rhs.y <= i64::MAX,
            i64::MIN <= self.z - rhs.z <= i64::MAX,
        ensures
            v.x == self.x - rhs.x,
            v.y == self.y - rhs.y,
            v.z == self.z - rhs.z,
    {
        Vector3 { x: self.x - rhs.x, y: self.y - rhs.y, z: self.z - rhs.z }
    }
}

impl Default for Point3 {
    /// The origin.
    fn default() -> (p: Self)
        ensures
            p.x == 0,
            p.y == 0,
            p.z == 0,
    {
        Point3 { x: 0, y: 0, z: 0 }
    }
}

} // verus!
