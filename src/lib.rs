//! Deterministic fixed-point 2D vectors and a struct-of-arrays rigid-circle integrator.
pub mod num;
pub mod physics;
pub mod vector;
