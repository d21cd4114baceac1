//! Procedural voxel terrain: chunk coordinates and streaming, terrain facets
//! and rasterization, the spatial chunk index, and greedy-quad chunk meshes.

pub mod blocks;
pub mod chunk;
pub mod extent;
pub mod facet;
pub mod generation;
pub mod grid;
pub mod location;
pub mod mesh;
pub mod pipeline;
pub mod rendering;
pub mod sampling;
pub mod scheduling;
pub mod streaming;
pub mod voxel;
pub mod world;
