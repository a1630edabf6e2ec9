//! Grid primitives: integer points on a plane and pairs whose order does not matter.
pub mod containers;
pub mod coord;
pub mod parse;
