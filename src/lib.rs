//! Verified core of a boundary-element solver for two-dimensional
//! Helmholtz billiards: the row-major layout of the dense operator matrix,
//! its row-parallel assembly, and the exact discretisation of a square
//! boundary into evenly spaced panel midpoints.
pub mod grid;
pub mod assembly;
pub mod square;
