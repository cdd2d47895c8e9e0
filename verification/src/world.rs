use vstd::prelude::*;
use std::sync::Arc;
use crate::chunk::{Chunk, ChunkMesh};
use crate::chunk_map::{
    box_keys, chunk_entries, chunk_map_get, chunk_map_insert, chunk_map_keys, chunk_map_new,
    chunk_map_retain_in_box, key_in_box, mesh_entries, mesh_map_get, mesh_map_insert,
    mesh_map_new, mesh_map_retain_in_box, ChunkMap, MeshMap,
};
use crate::coordinate::{ChunkCoord3D, ChunkKey};
use crate::chunk_builder::{ticked, ChunkGenerator};
use crate::job::Dispatch;
use crate::player::Player;

verus! {

/// How far the world reaches around the viewer, in chunks, unless told otherwise.
pub const RENDER_DISTANCE: i32 = 4;

/// The resident chunks: the voxel data of each, and the mesh of each that has one.
pub struct World {
    chunks: ChunkMap,
    meshes: MeshMap,
}

impl World {
    /// The voxel data of the resident chunks, by coordinate.
    pub closed spec fn chunks(&self) -> Map<ChunkKey, Arc<Chunk>> {
        chunk_entries(self.chunks)
    }

    /// The meshes of the resident chunks, by coordinate.
    pub closed spec fn meshes(&self) -> Map<ChunkKey, ChunkMesh> {
        mesh_entries(self.meshes)
    }

    /// The chunk at `pos` is resident.
    pub open spec fn is_resident(&self, pos: ChunkCoord3D) -> bool {
        self.chunks().contains_key(pos.key())
    }

    /// The chunk at `pos` has a mesh.
    pub open spec fn is_meshed(&self, pos: ChunkCoord3D) -> bool {
        self.meshes().contains_key(pos.key())
    }

    /// Every mesh belongs to a resident chunk. A new world is so, and every
    /// change that the world offers keeps it so.
    pub open spec fn no_orphan_mesh(&self) -> bool {
        self.meshes().dom().subset_of(self.chunks().dom())
    }

    /// A world without chunks.
    pub fn new() -> (world: Self)
        ensures
            world.chunks() == (Map::<ChunkKey, Arc<Chunk>>::empty()),
            world.meshes() == (Map::<ChunkKey, ChunkMesh>::empty()),
            world.no_orphan_mesh(),
    {
        let chunks = chunk_map_new();
        let meshes = mesh_map_new();
        Self { chunks, meshes }
    }

    /// Makes the chunk at `coord` resident, with its mesh, in place of what was
    /// resident there.
    pub fn insert(&mut self, coord: ChunkCoord3D, chunk: Arc<Chunk>, mesh: ChunkMesh)
        ensures
            final(self).chunks() == old(self).chunks().insert(coord.key(), chunk),
            final(self).meshes() == old(self).meshes().insert(coord.key(), mesh),
            old(self).no_orphan_mesh() ==> final(self).no_orphan_mesh(),
    {
        chunk_map_insert(&mut self.chunks, coord.to_key(), chunk);
        mesh_map_insert(&mut self.meshes, coord.to_key(), mesh);
    }

    /// Gives the resident chunk at `coord` a new mesh, in place of the one it
    /// had. Where no chunk is resident at `coord` the mesh is dropped and the
    /// world stays as it is. Says whether the mesh was taken.
    pub fn insert_mesh(&mut self, coord: ChunkCoord3D, mesh: ChunkMesh) -> (taken: bool)
        ensures
            taken == old(self).is_resident(coord),
            final(self).chunks() == old(self).chunks(),
            taken ==> final(self).meshes() == old(self).meshes().insert(coord.key(), mesh),
            !taken ==> final(self).meshes() == old(self).meshes(),
            old(self).no_orphan_mesh() ==> final(self).no_orphan_mesh(),
    {
        let key = coord.to_key();
        if chunk_map_get(&self.chunks, &key).is_some() {
            mesh_map_insert(&mut self.meshes, key, mesh);
            true
        } else {
            false
        }
    }

    /// The voxel data of the chunk at `coord`, if it is resident.
    pub fn get(&self, coord: ChunkCoord3D) -> (found: Option<&Arc<Chunk>>)
        ensures
            found.is_some() == self.is_resident(coord),
            found matches Some(chunk) ==> *chunk == self.chunks()[coord.key()],
    {
        chunk_map_get(&self.chunks, &coord.to_key())
    }

    /// The mesh of the chunk at `coord`, if it has one.
    pub fn get_mesh(&self, coord: ChunkCoord3D) -> (found: Option<&ChunkMesh>)
        ensures
            found.is_some() == self.is_meshed(coord),
            found matches Some(mesh) ==> *mesh == self.meshes()[coord.key()],
    {
        mesh_map_get(&self.meshes, &coord.to_key())
    }

    /// Whether the chunk at `coord` is resident.
    pub fn contains(&self, coord: ChunkCoord3D) -> (resident: bool)
        ensures
            resident == self.is_resident(coord),
    {
        chunk_map_get(&self.chunks, &coord.to_key()).is_some()
    }

    /// The coordinates of the resident chunks, each once, in no stated order.
    pub fn loaded_chunks(&self) -> (positions: Vec<ChunkCoord3D>)
        ensures
            positions@.no_duplicates(),
            forall|c: ChunkCoord3D| positions@.contains(c) <==> self.is_resident(c),
    {
        chunk_map_keys(&self.chunks)
    }

    /// One tick of the generator on this world: see `ChunkGenerator::build_chunks`.
    pub fn update(&mut self, chunk_gen: &mut ChunkGenerator, player: &mut Player) -> (dispatch:
        Dispatch)
        requires
            old(chunk_gen).wf(),
        ensures
            ticked(
                *old(chunk_gen),
                *old(player),
                *old(self),
                *final(chunk_gen),
                *final(player),
                *final(self),
                dispatch,
            ),
    {
        chunk_gen.build_chunks(player, self)
    }

    /// Removes every chunk outside the box that reaches `radius` chunks around
    /// `center` along every axis, data and mesh together. What lies inside the
    /// box stays as it is.
    pub fn evict_outside(&mut self, center: ChunkCoord3D, radius: i32)
        ensures
            final(self).chunks() == old(self).chunks().restrict(box_keys(center, radius)),
            final(self).meshes() == old(self).meshes().restrict(box_keys(center, radius)),
            old(self).no_orphan_mesh() ==> final(self).no_orphan_mesh(),
    {
        mesh_map_retain_in_box(&mut self.meshes, center, radius);
        chunk_map_retain_in_box(&mut self.chunks, center, radius);
    }

    /// Removes every chunk farther than `RENDER_DISTANCE` from the chunk that
    /// the viewer was last seen in.
    pub fn filter_unseen_chunks(&mut self, player: &Player)
        ensures
            final(self).chunks() == old(self).chunks().restrict(
                box_keys(player.spec_chunk(), RENDER_DISTANCE),
            ),
            final(self).meshes() == old(self).meshes().restrict(
                box_keys(player.spec_chunk(), RENDER_DISTANCE),
            ),
            old(self).no_orphan_mesh() ==> final(self).no_orphan_mesh(),
    {
        self.evict_outside(player.chunk(), RENDER_DISTANCE);
    }
}

/// After an eviction every chunk that is still resident lies within `radius`
/// of `center` along `x` and `z` (and `y`), was resident before and is what
/// it was; a chunk that was evicted has neither data nor mesh left.
pub proof fn lemma_eviction(before: World, after: World, center: ChunkCoord3D, radius: i32)
    requires
        after.chunks() == before.chunks().restrict(box_keys(center, radius)),
        after.meshes() == before.meshes().restrict(box_keys(center, radius)),
    ensures
        forall|k: ChunkCoord3D| #[trigger]
            after.is_resident(k) ==> {
                &&& k.x - center.x <= radius
                &&& center.x - k.x <= radius
                &&& k.z - center.z <= radius
                &&& center.z - k.z <= radius
                &&& before.is_resident(k)
                &&& after.chunks()[k.key()] == before.chunks()[k.key()]
            },
        forall|k: ChunkCoord3D|
            before.is_resident(k) && !(#[trigger] after.is_resident(k)) ==> !after.is_meshed(k)
                && !key_in_box(k.key(), center, radius),
        forall|k: ChunkCoord3D|
            before.is_resident(k) && key_in_box(k.key(), center, radius)
                ==> #[trigger] after.is_resident(k),
        forall|k: ChunkCoord3D|
            before.is_meshed(k) && key_in_box(k.key(), center, radius) ==> #[trigger] after.is_meshed(
                k,
            ) && after.meshes()[k.key()] == before.meshes()[k.key()],
{
}

} // verus!
