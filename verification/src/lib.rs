//! Streaming voxel terrain: chunk coordinates, occupancy grids, the resident
//! chunk store, cube meshing, the per-tick streaming decision and point
//! collision queries, all on integers.

pub mod collision;
pub mod coord;
pub mod grid;
pub mod mesh;
pub mod store;
pub mod stream;
