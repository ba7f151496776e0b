//! Turns one frame of a retained-mode user interface (clipped primitives plus
//! texture changes) into an ordered list of draw commands for an
//! immediate-mode rasterizer, and keeps the cache of textures those commands
//! sample from.

pub mod cache;
pub mod color;
pub mod error;
pub mod mesh;
pub mod painter;
pub mod scalar;
pub mod texture;
