use std::sync::Arc;
use voxel_engine::chunk::{Chunk, ChunkMesh, CHUNK_VOLUME};
use voxel_engine::chunk_map::is_key_in_box;
use voxel_engine::coordinate::{ChunkCoord3D, Coord3DI};
use voxel_engine::player::Player;
use voxel_engine::quad::{Quad, Rotation};
use voxel_engine::world::{World, RENDER_DISTANCE};

const SOLID: u32 = 0xbf80_0000;
const EMPTY: u32 = 0x3f80_0000;

fn chunk_at(x: i32, y: i32, z: i32) -> Arc<Chunk> {
    Arc::new(Chunk::new(ChunkCoord3D::new(x, y, z), &vec![SOLID; CHUNK_VOLUME]))
}

fn mesh_of(faces: usize) -> ChunkMesh {
    let mut quads = Vec::new();
    for i in 0..faces {
        quads.push(Quad::new(Coord3DI::new(i as i32, 0, 0), Rotation::UP, 2));
    }
    ChunkMesh::new(quads)
}

fn put(world: &mut World, x: i32, y: i32, z: i32) {
    world.insert(ChunkCoord3D::new(x, y, z), chunk_at(x, y, z), mesh_of(1));
}

fn sorted(mut positions: Vec<ChunkCoord3D>) -> Vec<(i32, i32, i32)> {
    let mut keys: Vec<(i32, i32, i32)> = positions.drain(..).map(|c| c.to_key()).collect();
    keys.sort();
    keys
}

#[test]
fn new_world_is_empty() {
    let world = World::new();
    assert!(world.loaded_chunks().is_empty());
    assert!(!world.contains(ChunkCoord3D::new(0, 0, 0)));
    assert!(world.get(ChunkCoord3D::new(0, 0, 0)).is_none());
    assert!(world.get_mesh(ChunkCoord3D::new(0, 0, 0)).is_none());
}

#[test]
fn inserted_chunk_is_found_with_its_mesh() {
    let mut world = World::new();
    let at = ChunkCoord3D::new(3, 0, -7);
    world.insert(at, chunk_at(3, 0, -7), mesh_of(4));
    assert!(world.contains(at));
    assert_eq!(world.get(at).unwrap().position(), at);
    assert_eq!(world.get_mesh(at).unwrap().instances_len(), 4);
    assert!(!world.contains(ChunkCoord3D::new(3, 0, 7)));
    assert!(!world.contains(ChunkCoord3D::new(-7, 0, 3)));
    assert_eq!(sorted(world.loaded_chunks()), vec![(3, 0, -7)]);
}

#[test]
fn inserting_again_replaces_chunk_and_mesh() {
    let mut world = World::new();
    let at = ChunkCoord3D::new(1, 0, 1);
    world.insert(at, chunk_at(1, 0, 1), mesh_of(4));
    let other = Arc::new(Chunk::new(at, &vec![EMPTY; CHUNK_VOLUME]));
    world.insert(at, other, mesh_of(9));
    assert_eq!(world.loaded_chunks().len(), 1);
    assert_eq!(world.get_mesh(at).unwrap().instances_len(), 9);
    assert!(!world.get(at).unwrap().voxel_at(0, 0, 0).is_solid());
}

#[test]
fn new_mesh_replaces_the_mesh_of_a_resident_chunk() {
    let mut world = World::new();
    let at = ChunkCoord3D::new(0, 0, 0);
    put(&mut world, 0, 0, 0);
    assert!(world.insert_mesh(at, mesh_of(12)));
    assert_eq!(world.get_mesh(at).unwrap().instances_len(), 12);
    assert!(world.contains(at));
}

#[test]
fn mesh_for_a_chunk_that_is_not_resident_is_dropped() {
    let mut world = World::new();
    put(&mut world, 0, 0, 0);
    let gone = ChunkCoord3D::new(5, 0, 5);
    assert!(!world.insert_mesh(gone, mesh_of(3)));
    assert!(world.get_mesh(gone).is_none());
    assert!(!world.contains(gone));
    assert_eq!(world.loaded_chunks().len(), 1);
}

#[test]
fn eviction_keeps_the_box_and_removes_the_rest_with_their_meshes() {
    let mut world = World::new();
    for x in -6..=6 {
        for z in -6..=6 {
            put(&mut world, x, 0, z);
        }
    }
    let center = ChunkCoord3D::new(1, 0, -2);
    world.evict_outside(center, 3);
    let left = world.loaded_chunks();
    assert_eq!(left.len(), 49);
    for k in &left {
        assert!((k.x - center.x).abs().max((k.z - center.z).abs()) <= 3);
        assert!(world.get_mesh(*k).is_some());
    }
    for x in -6..=6 {
        for z in -6..=6 {
            let k = ChunkCoord3D::new(x, 0, z);
            let inside = (x - 1).abs() <= 3 && (z + 2).abs() <= 3;
            assert_eq!(world.contains(k), inside);
            assert_eq!(world.get(k).is_some(), inside);
            assert_eq!(world.get_mesh(k).is_some(), inside);
        }
    }
}

#[test]
fn eviction_measures_along_the_vertical_axis_too() {
    let mut world = World::new();
    put(&mut world, 0, 0, 0);
    put(&mut world, 0, 2, 0);
    put(&mut world, 0, -3, 0);
    world.evict_outside(ChunkCoord3D::new(0, 0, 0), 2);
    assert_eq!(sorted(world.loaded_chunks()), vec![(0, 0, 0), (0, 2, 0)]);
}

#[test]
fn eviction_with_radius_zero_keeps_the_centre_only() {
    let mut world = World::new();
    put(&mut world, 0, 0, 0);
    put(&mut world, 1, 0, 0);
    put(&mut world, 0, 0, -1);
    world.evict_outside(ChunkCoord3D::new(0, 0, 0), 0);
    assert_eq!(sorted(world.loaded_chunks()), vec![(0, 0, 0)]);
}

#[test]
fn eviction_with_a_negative_radius_removes_everything() {
    let mut world = World::new();
    put(&mut world, 0, 0, 0);
    put(&mut world, 1, 0, 0);
    world.evict_outside(ChunkCoord3D::new(0, 0, 0), -1);
    assert!(world.loaded_chunks().is_empty());
    assert!(world.get_mesh(ChunkCoord3D::new(0, 0, 0)).is_none());
}

#[test]
fn eviction_far_from_the_origin_does_not_overflow() {
    let mut world = World::new();
    put(&mut world, 0x3ff_ffff, 0, -0x400_0000);
    put(&mut world, -0x400_0000, 0, 0x3ff_ffff);
    world.evict_outside(ChunkCoord3D::new(i32::MAX, 0, i32::MIN), i32::MAX);
    assert_eq!(sorted(world.loaded_chunks()), vec![(0x3ff_ffff, 0, -0x400_0000)]);
}

#[test]
fn box_test_is_exact_at_the_ends_of_the_range() {
    let center = ChunkCoord3D::new(i32::MIN, 0, i32::MAX);
    assert!(is_key_in_box(&(i32::MIN, 0, i32::MAX), center, 0));
    assert!(!is_key_in_box(&(i32::MAX, 0, i32::MAX), center, i32::MAX));
    assert!(is_key_in_box(&(-1, 0, i32::MAX), center, i32::MAX));
    assert!(!is_key_in_box(&(0, 0, i32::MAX), center, i32::MAX));
    assert!(is_key_in_box(&(4, -4, 4), ChunkCoord3D::new(0, 0, 0), 4));
    assert!(!is_key_in_box(&(4, -5, 4), ChunkCoord3D::new(0, 0, 0), 4));
}

#[test]
fn unseen_chunks_are_those_beyond_the_render_distance_of_the_viewer() {
    let mut world = World::new();
    for x in -2..=12 {
        put(&mut world, x, 0, 0);
    }
    let player = Player::new(Coord3DI::new(5 * 32 + 3, 10, 20));
    assert_eq!(player.chunk(), ChunkCoord3D::new(5, 0, 0));
    world.filter_unseen_chunks(&player);
    let expected: Vec<(i32, i32, i32)> =
        (5 - RENDER_DISTANCE..=5 + RENDER_DISTANCE).map(|x| (x, 0, 0)).collect();
    assert_eq!(sorted(world.loaded_chunks()), expected);
    assert_eq!(RENDER_DISTANCE, 4);
}

#[test]
fn resident_chunks_are_listed_once_each() {
    let mut world = World::new();
    for x in 0..10 {
        put(&mut world, x, 0, -x);
        put(&mut world, x, 0, -x);
    }
    let expected: Vec<(i32, i32, i32)> = {
        let mut keys: Vec<(i32, i32, i32)> = (0..10).map(|x| (x, 0, -x)).collect();
        keys.sort();
        keys
    };
    assert_eq!(sorted(world.loaded_chunks()), expected);
}
