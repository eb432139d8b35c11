//! Spatial and generative core of a hexagonal-prism voxel world: hexagonal grid
//! coordinates, chunked block storage, terrain filling, the chunk registry and
//! visible-face selection for chunk meshes.
pub mod block;
pub mod chunk;
pub mod chunk_id;
pub mod chunks;
pub mod columns;
pub mod direction;
pub mod ids;
pub mod ipos;
pub mod loading;
pub mod mesh;
pub mod meta;
