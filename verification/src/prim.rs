//! Geometry and color value types shared by the whole library.

pub mod bound;
pub mod color;
pub mod point;
pub mod vector;

pub use bound::Rect;
pub use color::RGB;
pub use point::Point2;
pub use point::Point3;
pub use point::COORD_MAX;
pub use point::UNIT;
pub use vector::Vector2;
pub use vector::Vector3;
