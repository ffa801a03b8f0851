//! Draw-data packing for an immediate-mode GUI renderer: a bounded geometry
//! stream, a registry of textures, and the turning of a frame's draw lists
//! into draw calls.

pub mod stream;
pub mod textures;
pub mod frame;
