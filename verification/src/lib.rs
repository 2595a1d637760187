//! Chunked voxel world: block catalogue, terrain columns, face-culled chunk
//! meshes and the streaming window that keeps nearby chunks resident.
//!
//! All geometry is integral. A vertex carries whole-number positions and a
//! texture layer index; turning these into GPU floats is left to the caller.

pub mod block;
pub mod chunk;
pub mod controls;
pub mod controller;
pub mod culling;
pub mod mesh;
pub mod seed;
mod seq_facts;
pub mod streaming;
pub mod terrain;
pub mod texture;
pub mod time;
pub mod vertex;
pub mod window;
pub mod world;
