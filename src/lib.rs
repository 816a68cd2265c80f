//! Voxel chunk model, face meshing, picking arithmetic and camera look state
//! of a small first-person block world, with their contracts proved by Verus.
//!
//! Geometry is exact: vertex positions are integers in fortieths of a voxel,
//! the camera ray is fixed point, and angles are in thousandths of a degree.
//! The GPU, the browser and all floating-point work live outside this crate.

pub mod input;
pub mod math;
mod random;
pub mod render;
pub mod world;
