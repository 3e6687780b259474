//! A minimal real-time scene-viewer core: a verified parser for the PLY
//! triangle-mesh interchange format, a GPU resource-binding model, and the
//! per-frame transform and scheduling logic, with every single-precision
//! quantity carried as its raw IEEE-754 bit pattern.
pub mod camera;
pub mod frame;
pub mod gpu;
pub mod input;
pub mod mesh;
pub mod ply;
pub mod tokens;
