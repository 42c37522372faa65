//! Rounded hexagon artwork on a hex lattice, with exact geometry.
//!
//! Every coordinate of the drawing lies in the field of rationals extended by
//! the square root of three, so the library computes exactly: a number is kept
//! as `(r + s·√3) / 3` with integer `r` and `s`.
pub mod surd;
pub mod geometry;
pub mod lattice;
pub mod scene;
pub mod decimal;
pub mod text;
pub mod render;
pub mod element;
pub mod drawing;
