use vstd::prelude::*;

use super::point::UNIT;

verus! {

/// An RGB color with fixed-point channels: `0` is no intensity and `UNIT`
/// is full intensity, mirroring the `[0.0, 1.0]` range a GPU expects.
#[derive(Clone, Copy, Debug, PartialEq, Eq, Structural)]
pub struct RGB {
    pub r: i64,
    pub g: i64,
    pub b: i64,
}

impl RGB {
    pub fn new(r: i64, g: i64, b: i64) -> (c: RGB)
        ensures
            c.r == r,
            c.g == g,
            c.b == b,
    {
        RGB { r, g, b }
    }

    pub fn black() -> (c: RGB)
        ensures
            c == (RGB { r: 0, g: 0, b: 0 }),
    {
        RGB { r: 0, g: 0, b: 0 }
    }

    pub fn red() -> (c: RGB)
        ensures
            c == (RGB { r: UNIT as i64, g: 0, b: 0 }),
    {
        RGB { r: UNIT, g: 0, b: 0 }
    }

    pub fn green() -> (c: RGB)
        ensures
            c == (RGB { r: 0, g: UNIT as i64, b: 0 }),
    {
        RGB { r: 0, g: UNIT, b: 0 }
    }

    pub fn blue() -> (c: RGB)
        ensures
            c == (RGB { r: 0, g: 0, b: UNIT as i64 }),
    {
        RGB { r: 0, g: 0, b: UNIT }
    }
}

} // verus!
