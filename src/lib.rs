//! An exact two-dimensional geometry kernel on an integer lattice.
//!
//! Vectors and points carry `i64` coordinates and every operation is exact:
//! products and squared lengths are returned in `i128`, and distances are
//! reported as exact squared ratios. The composition laws of the similarity
//! group, the inside/outside classification of boundaries and the zero set
//! of the distance functions are proved against mathematical models.
pub mod approx;
pub mod boundary;
pub mod chain;
pub mod dist;
pub mod polygon;
pub mod shape;
pub mod transform;
pub mod vector;
