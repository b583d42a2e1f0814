//! What the UI asks the 3D viewport for, and the pieces of the renderer's
//! bookkeeping that are plain integers: packing element flags for the GPU
//! and which element kind a pick pass wants.

pub mod gpu;
pub mod request;
