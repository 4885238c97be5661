use vstd::prelude::*;

use crate::prim::point::Point3;
use crate::prim::point::UNIT;
use crate::prim::vector::Vector3;

verus! {

/// An exact ratio of two fixed-point quantities, kept unreduced so that no
/// precision is lost; a GPU shell divides the two parts in floating point
/// when it builds a projection matrix.
#[derive(Clone, Copy, Debug, PartialEq, Eq, Structural)]
pub struct Ratio {
    pub num: i128,
    pub den: i128,
}

/// A perspective camera as plain data: where it sits, what it looks at,
/// which way is up, and the projection parameters. Lengths and angles are
/// fixed-point with `UNIT` as 1.0; `fovy` is a fixed-point angle in
/// degrees. Building view and projection matrices from these values takes
/// trigonometry and square roots, so it is left to the embedding shell.
#[derive(Clone, Copy, Debug, PartialEq, Eq, Structural)]
pub struct Camera {
    pub eye: Point3,
    pub target: Point3,
    pub up: Vector3,
    pub aspect: Ratio,
    pub fovy: i64,
    pub znear: i64,
    pub zfar: i64,
}

impl Camera {
    /// The value `initial` returns.
    pub open spec fn spec_initial(aspect: Ratio) -> Camera {
        Camera {
            eye: Point3 { x: 0, y: UNIT as i64, z: (2 * UNIT) as i64 },
            target: Point3 { x: 0, y: 0, z: 0 },
            up: Vector3 { x: 0, y: UNIT as i64, z: 0 },
            aspect,
            fovy: (45 * UNIT) as i64,
            znear: (UNIT / 10) as i64,
            zfar: (100 * UNIT) as i64,
        }
    }

    /// The camera the viewport starts from: slightly above and behind the
    /// origin, looking at it, with a 45 degree vertical field of view.
    pub fn initial(aspect: Ratio) -> (c: Camera)
        ensures
            c == Camera::spec_initial(aspect),
    {
        Camera {
            eye: Point3 { x: 0, y: UNIT, z: 2 * UNIT },
            target: Point3 { x: 0, y: 0, z: 0 },
            up: Vector3 { x: 0, y: UNIT, z: 0 },
            aspect,
            fovy: 45 * UNIT,
            znear: UNIT / 10,
            zfar: 100 * UNIT,
        }
    }
}

impl Default for Camera {
    /// A camera with every parameter zeroed; `initial` gives a usable one.
    fn default() -> (c: Self)
        ensures
            c.eye == (Point3 { x: 0, y: 0, z: 0 }),
            c.target == (Point3 { x: 0, y: 0, z: 0 }),
            c.up == (Vector3 { x: 0, y: 0, z: 0 }),
            c.aspect == (Ratio { num: 0, den: 0 }),
            c.fovy == 0,
            c.znear == 0,
            c.zfar == 0,
    {
        Camera {
            eye: Point3 { x: 0, y: 0, z: 0 },
            target: Point3 { x: 0, y: 0, z: 0 },
            up: Vector3 { x: 0, y: 0, z: 0 },
            aspect: Ratio { num: 0, den: 0 },
            fovy: 0,
            znear: 0,
            zfar: 0,
        }
    }
}

} // verus!
