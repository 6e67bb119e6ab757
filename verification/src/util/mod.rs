//! Small helpers for results.
pub mod conditional_transforms;
pub mod rotate;
pub mod splits;
