//! Chunked voxel terrain: coordinates, chunk contents, face culling, the set of
//! resident chunks and the bookkeeping that streams chunks in around a viewer.

pub mod coordinate;
pub mod cube;
pub mod density;
pub mod quad;
pub mod texture;
pub mod chunk;
pub mod player;
pub mod chunk_map;
pub mod world;
pub mod channel;
pub mod coord_list;
pub mod adjacency;
pub mod job;
pub mod chunk_builder;
pub mod streaming_laws;
pub mod culling_laws;
pub mod load_order;
