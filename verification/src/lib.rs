//! A panel layout and composition engine: a recursive, weighted
//! box-partitioning tree that assigns screen-space rectangles to leaf
//! panels, dispatches resize and input events through the tree, and merges
//! each panel's emitted geometry into batched draw streams with exact index
//! rebasing.
//!
//! All geometry is kept in fixed-point integer coordinates so that every
//! split position, containment test and index offset is computed — and
//! proved — exactly. [`prim::UNIT`] coordinate units stand for 1.0 in
//! normalized device coordinates; an embedding shell converts to floats at
//! the GPU boundary.

pub mod interface;
pub mod outliner;
pub mod prim;
pub mod viewport;
