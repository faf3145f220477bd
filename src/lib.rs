//! The computational core of a voxel engine: per-chunk block storage with a
//! derived visibility graph, culled and greedy mesh generation, and the
//! decisions of a ray march through one chunk.

pub mod block;
pub mod chunk;
pub mod coverage;
pub mod face;
pub mod greedy;
pub mod meshing;
