//! The two hash maps of the world, from `hashbrown`, and what is taken on
//! trust about them. Verus does not look inside a `hashbrown::HashMap`: the
//! pairs that a map holds are named by `chunk_entries` and `mesh_entries`, and
//! each function below states what one method of the map does to them.

use vstd::prelude::*;
use std::sync::Arc;
use crate::chunk::{Chunk, ChunkMesh};
use crate::coordinate::{ChunkCoord3D, ChunkKey};

verus! {

/// `hashbrown::HashMap`, taken as it is: nothing is known of what is inside.
#[verifier::external_type_specification]
#[verifier::external_body]
#[verifier::reject_recursive_types(K)]
#[verifier::reject_recursive_types(V)]
#[verifier::reject_recursive_types(S)]
pub struct ExHashMap<K, V, S>(hashbrown::HashMap<K, V, S>);

/// `hashbrown::hash_map::DefaultHashBuilder`, the hasher of a map made with
/// `hashbrown::HashMap::new`, taken as it is.
#[verifier::external_type_specification]
#[verifier::external_body]
pub struct ExDefaultHashBuilder(hashbrown::hash_map::DefaultHashBuilder);

/// The map from chunk coordinates to voxel data.
pub type ChunkMap = hashbrown::HashMap<ChunkKey, Arc<Chunk>>;

/// The map from chunk coordinates to meshes.
pub type MeshMap = hashbrown::HashMap<ChunkKey, ChunkMesh>;

/// The pairs of key and chunk that a map of chunks holds.
pub uninterp spec fn chunk_entries(m: ChunkMap) -> Map<ChunkKey, Arc<Chunk>>;

/// The pairs of key and mesh that a map of meshes holds.
pub uninterp spec fn mesh_entries(m: MeshMap) -> Map<ChunkKey, ChunkMesh>;

/// Whether `k` lies in the box of chunks around `center` that reaches `radius`
/// chunks along every axis. A negative radius gives the empty box.
pub open spec fn key_in_box(k: ChunkKey, center: ChunkCoord3D, radius: i32) -> bool {
    &&& -radius <= k.0 - center.x <= radius
    &&& -radius <= k.1 - center.y <= radius
    &&& -radius <= k.2 - center.z <= radius
}

/// The keys of the box of chunks around `center` with the given radius.
pub open spec fn box_keys(center: ChunkCoord3D, radius: i32) -> Set<ChunkKey> {
    Set::new(|k: ChunkKey| key_in_box(k, center, radius))
}

/// Decides `key_in_box`.
pub fn is_key_in_box(k: &ChunkKey, center: ChunkCoord3D, radius: i32) -> (inside: bool)
    ensures
        inside == key_in_box(*k, center, radius),
{
    let r: i64 = radius as i64;
    let dx: i64 = k.0 as i64 - center.x as i64;
    let dy: i64 = k.1 as i64 - center.y as i64;
    let dz: i64 = k.2 as i64 - center.z as i64;
    -r <= dx && dx <= r && -r <= dy && dy <= r && -r <= dz && dz <= r
}

/// `hashbrown::HashMap::new`: a map that holds nothing.
#[verifier::external_body]
pub(crate) fn chunk_map_new() -> (m: ChunkMap)
    ensures
        chunk_entries(m) == (Map::<ChunkKey, Arc<Chunk>>::empty()),
{
    hashbrown::HashMap::new()
}

/// `hashbrown::HashMap::insert`: afterwards the map holds `chunk` under `k`,
/// in place of what it held there, and all its other pairs as before.
#[verifier::external_body]
pub(crate) fn chunk_map_insert(m: &mut ChunkMap, k: ChunkKey, chunk: Arc<Chunk>)
    ensures
        chunk_entries(*final(m)) == chunk_entries(*old(m)).insert(k, chunk),
{
    m.insert(k, chunk);
}

/// `hashbrown::HashMap::get`: the chunk held under `k`, if there is one.
#[verifier::external_body]
pub(crate) fn chunk_map_get<'a>(m: &'a ChunkMap, k: &ChunkKey) -> (found: Option<&'a Arc<Chunk>>)
    ensures
        found.is_some() == chunk_entries(*m).contains_key(*k),
        found matches Some(chunk) ==> *chunk == chunk_entries(*m)[*k],
{
    m.get(k)
}

/// `hashbrown::HashMap::retain`, keeping the keys for which `is_key_in_box`
/// answers yes: afterwards the map holds its pairs with a key in the box, and
/// no others.
#[verifier::external_body]
pub(crate) fn chunk_map_retain_in_box(m: &mut ChunkMap, center: ChunkCoord3D, radius: i32)
    ensures
        chunk_entries(*final(m)) == chunk_entries(*old(m)).restrict(box_keys(center, radius)),
{
    m.retain(|k, _| is_key_in_box(k, center, radius));
}

/// `hashbrown::HashMap::keys`, each key made a coordinate: every key of the
/// map once, in an order that is not stated.
#[verifier::external_body]
pub(crate) fn chunk_map_keys(m: &ChunkMap) -> (keys: Vec<ChunkCoord3D>)
    ensures
        keys@.no_duplicates(),
        forall|c: ChunkCoord3D| keys@.contains(c) <==> chunk_entries(*m).contains_key(c.key()),
{
    m.keys().map(|k| ChunkCoord3D::new(k.0, k.1, k.2)).collect()
}

/// `hashbrown::HashMap::new`: a map that holds nothing.
#[verifier::external_body]
pub(crate) fn mesh_map_new() -> (m: MeshMap)
    ensures
        mesh_entries(m) == (Map::<ChunkKey, ChunkMesh>::empty()),
{
    hashbrown::HashMap::new()
}

/// `hashbrown::HashMap::insert`: afterwards the map holds `mesh` under `k`,
/// in place of what it held there, and all its other pairs as before.
#[verifier::external_body]
pub(crate) fn mesh_map_insert(m: &mut MeshMap, k: ChunkKey, mesh: ChunkMesh)
    ensures
        mesh_entries(*final(m)) == mesh_entries(*old(m)).insert(k, mesh),
{
    m.insert(k, mesh);
}

/// `hashbrown::HashMap::get`: the mesh held under `k`, if there is one.
#[verifier::external_body]
pub(crate) fn mesh_map_get<'a>(m: &'a MeshMap, k: &ChunkKey) -> (found: Option<&'a ChunkMesh>)
    ensures
        found.is_some() == mesh_entries(*m).contains_key(*k),
        found matches Some(mesh) ==> *mesh == mesh_entries(*m)[*k],
{
    m.get(k)
}

/// `hashbrown::HashMap::retain`, keeping the keys for which `is_key_in_box`
/// answers yes: afterwards the map holds its pairs with a key in the box, and
/// no others.
#[verifier::external_body]
pub(crate) fn mesh_map_retain_in_box(m: &mut MeshMap, center: ChunkCoord3D, radius: i32)
    ensures
        mesh_entries(*final(m)) == mesh_entries(*old(m)).restrict(box_keys(center, radius)),
{
    m.retain(|k, _| is_key_in_box(k, center, radius));
}

} // verus!
