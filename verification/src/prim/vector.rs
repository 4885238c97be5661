use vstd::prelude::*;

verus! {

/// Products of values within `[-m, m]` stay within `[-m*m, m*m]`.
pub proof fn lemma_mul_range(a: int, b: int, m: int)
    requires
        -m <= a <= m,
        -m <= b <= m,
    ensures
        -(m * m) <= a * b <= m * m,
{
    lemma_mul_bounds(a, m, b, m);
}

/// A product of two bounded values is bounded by the product of the
/// bounds.
pub proof fn lemma_mul_bounds(a: int, ma: int, b: int, mb: int)
    requires
        -ma <= a <= ma,
        -mb <= b <= mb,
    ensures
        -(ma * mb) <= a * b <= ma * mb,
{
    assert(-(ma * mb) <= a * b <= ma * mb) by (nonlinear_arith)
        requires
            -ma <= a <= ma,
            -mb <= b <= mb,
    ;
}

/// A displacement in the 2D panel plane, in fixed-point coordinates.
#[derive(Clone, Copy, Debug, PartialEq, Eq, Structural)]
pub struct Vector2 {
    pub x: i64,
    pub y: i64,
}

impl Vector2 {
    pub fn new(x: i64, y: i64) -> (v: Vector2)
        ensures
            v.x == x,
            v.y == y,
    {
        Vector2 { x, y }
    }

    pub fn zero() -> (v: Vector2)
        ensures
            v.x == 0,
            v.y == 0,
    {
        Vector2 { x: 0, y: 0 }
    }

    /// Componentwise difference.
    pub fn sub(self, rhs: Vector2) -> (v: Vector2)
        requires
            i64::MIN <= self.x - rhs.x <= i64::MAX,
            i64::MIN <= self.y - rhs.y <= i64::MAX,
        ensures
            v.x == self.x - rhs.x,
            v.y == self.y - rhs.y,
    {
        Vector2 { x: self.x - rhs.x, y: self.y - rhs.y }
    }

    /// Componentwise product.
    pub fn mul_vec(self, rhs: Vector2) -> (v: Vector2)
        requires
            i64::MIN <= self.x * rhs.x <= i64::MAX,
            i64::MIN <= self.y * rhs.y <= i64::MAX,
        ensures
            v.x == self.x * rhs.x,
            v.y == self.y * rhs.y,
    {
        Vector2 { x: self.x * rhs.x, y: self.y * rhs.y }
    }

    /// Divide both components by a positive scalar, truncating toward
    /// zero.
    pub fn div(self, rhs: i64) -> (v: Vector2)
        requires
            rhs >= 1,
        ensures
            v.x == (if self.x >= 0 {
                self.x as int / rhs as int
            } else {
                -((-(self.x as int)) / rhs as int)
            }),
            v.y == (if self.y >= 0 {
                self.y as int / rhs as int
            } else {
                -((-(self.y as int)) / rhs as int)
            }),
    {
        Vector2 { x: self.x / rhs, y: self.y / rhs }
    }

    /// Scale both components.
    pub fn mul(self, rhs: i64) -> (v: Vector2)
        requires
            i64::MIN <= self.x * rhs <= i64::MAX,
            i64::MIN <= self.y * rhs <= i64::MAX,
        ensures
            v.x == self.x * rhs,
            v.y == self.y * rhs,
    {
        Vector2 { x: self.x * rhs, y: self.y * rhs }
    }
}

/// A displacement in 3D camera space, in fixed-point coordinates.
///
/// The axis constructors return vectors of length `UNIT`, the fixed-point
/// image of the unit vectors.
#[derive(Clone, Copy, Debug, PartialEq, Eq, Structural)]
pub struct Vector3 {
    pub x: i64,
    pub y: i64,
    pub z: i64,
}

impl Vector3 {
    /// All coordinates lie within the 3D working range.
    pub open spec fn in_range(self) -> bool {
        &&& -crate::prim::point::COORD3_MAX <= self.x <= crate::prim::point::COORD3_MAX
        &&& -crate::prim::point::COORD3_MAX <= self.y <= crate::prim::point::COORD3_MAX
        &&& -crate::prim::point::COORD3_MAX <= self.z <= crate::prim::point::COORD3_MAX
    }

    pub fn new(x: i64, y: i64, z: i64) -> (v: Vector3)
        ensures
            v.x == x,
            v.y == y,
            v.z == z,
    {
        Vector3 { x, y, z }
    }

    pub fn zero() -> (v: Vector3)
        ensures
            v.x == 0,
            v.y == 0,
            v.z == 0,
    {
        Vector3 { x: 0, y: 0, z: 0 }
    }

    /// The fixed-point unit vector along the x axis.
    pub fn axisx() -> (v: Vector3)
        ensures
            v.x == crate::prim::point::UNIT,
            v.y == 0,
            v.z == 0,
    {
        Vector3 { x: crate::prim::point::UNIT, y: 0, z: 0 }
    }

    /// The fixed-point unit vector along the y axis.
    pub fn axisy() -> (v: Vector3)
        ensures
            v.x == 0,
            v.y == crate::prim::point::UNIT,
            v.z == 0,
    {
        Vector3 { x: 0, y: crate::prim::point::UNIT, z: 0 }
    }

    /// The fixed-point unit vector along the z axis.
    pub fn axisz() -> (v: Vector3)
        ensures
            v.x == 0,
            v.y == 0,
            v.z == crate::prim::point::UNIT,
    {
        Vector3 { x: 0, y: 0, z: crate::prim::point::UNIT }
    }

    /// Squared length, exact in fixed-point squared units.
    pub fn length2(self) -> (l: i64)
        requires
            self.in_range(),
        ensures
            l == self.x * self.x + self.y * self.y + self.z * self.z,
    {
        proof {
            let m = crate::prim::point::COORD3_MAX as int;
            lemma_mul_range(self.x as int, self.x as int, m);
            lemma_mul_range(self.y as int, self.y as int, m);
            lemma_mul_range(self.z as int, self.z as int, m);
        }
        self.x * self.x + self.y * self.y + self.z * self.z
    }

    /// Dot product.
    pub fn dot(self, other: Vector3) -> (d: i64)
        requires
            self.in_range(),
            other.in_range(),
        ensures
            d == self.x * other.x + self.y * other.y + self.z * other.z,
    {
        proof {
            let m = crate::prim::point::COORD3_MAX as int;
            lemma_mul_range(self.x as int, other.x as int, m);
            lemma_mul_range(self.y as int, other.y as int, m);
            lemma_mul_range(self.z as int, other.z as int, m);
        }
        self.x * other.x + self.y * other.y + self.z * other.z
    }

    /// Cross product.
    pub fn cross(self, other: Vector3) -> (v: Vector3)
        requires
            self.in_range(),
            other.in_range(),
        ensures
            v.x == self.y * other.z - self.z * other.y,
            v.y == self.z * other.x - self.x * other.z,
            v.z == self.x * other.y - self.y * other.x,
    {
        proof {
            let m = crate::prim::point::COORD3_MAX as int;
            lemma_mul_range(self.y as int, other.z as int, m);
            lemma_mul_range(self.z as int, other.y as int, m);
            lemma_mul_range(self.z as int, other.x as int, m);
            lemma_mul_range(self.x as int, other.z as int, m);
            lemma_mul_range(self.x as int, other.y as int, m);
            lemma_mul_range(self.y as int, other.x as int, m);
        }
        Vector3 {
            x: self.y * other.z - self.z * other.y,
            y: self.z * other.x - self.x * other.z,
            z: self.x * other.y - self.y * other.x,
        }
    }

    /// Componentwise difference.
    pub fn sub(self, rhs: Vector3) -> (v: Vector3)
        requires
            i64::MIN <= self.x - rhs.x <= i64::MAX,
            i64::MIN <= self.y - rhs.y <= i64::MAX,
            i64::MIN <= self.z - rhs.z <= i64::MAX,
        ensures
            v.x == self.x - rhs.x,
            v.y == self.y - rhs.y,
            v.z == self.z - rhs.z,
    {
        Vector3 { x: self.x - rhs.x, y: self.y - rhs.y, z: self.z - rhs.z }
    }
}

} // verus!
