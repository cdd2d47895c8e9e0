use voxel_engine::coordinate::{ChunkCoord3D, Coord3DI, CHUNK_COORD_LIMIT, CHUNK_I32, CHUNK_USIZE};

#[test]
fn voxel_coordinates_round_down_to_their_chunk() {
    assert_eq!(Coord3DI::new(0, 31, 32).to_chunk_coord(), ChunkCoord3D::new(0, 0, 1));
    assert_eq!(Coord3DI::new(-1, -32, -33).to_chunk_coord(), ChunkCoord3D::new(-1, -1, -2));
    assert_eq!(Coord3DI::new(63, 64, -64).to_chunk_coord(), ChunkCoord3D::new(1, 2, -2));
}

#[test]
fn extreme_voxel_coordinates_have_a_chunk_in_the_world() {
    let c = Coord3DI::new(i32::MIN, i32::MAX, 0).to_chunk_coord();
    assert_eq!(c, ChunkCoord3D::new(-CHUNK_COORD_LIMIT, CHUNK_COORD_LIMIT - 1, 0));
    assert!(c.is_in_world());
}

#[test]
fn chunk_origin_is_the_coordinate_times_the_edge() {
    let p = ChunkCoord3D::new(3, -2, 0).to_world_position_i32();
    assert_eq!((p.x, p.y, p.z), (96, -64, 0));
    let edge = ChunkCoord3D::new(-CHUNK_COORD_LIMIT, CHUNK_COORD_LIMIT - 1, 0).to_world_position_i32();
    assert_eq!((edge.x, edge.y, edge.z), (i32::MIN, i32::MAX - 31, 0));
}

#[test]
fn origin_of_a_chunk_lies_in_that_chunk() {
    for x in [-CHUNK_COORD_LIMIT, -5, -1, 0, 1, 7, CHUNK_COORD_LIMIT - 1] {
        let c = ChunkCoord3D::new(x, -x - 1, 0);
        assert_eq!(c.to_world_position_i32().to_chunk_coord(), c);
        let p = c.to_world_position_i32();
        let far = Coord3DI::new(p.x + CHUNK_I32 - 1, p.y + CHUNK_I32 - 1, p.z + CHUNK_I32 - 1);
        assert_eq!(far.to_chunk_coord(), c);
    }
}

#[test]
fn chunks_past_the_limit_are_not_in_the_world() {
    assert!(ChunkCoord3D::new(0, 0, 0).is_in_world());
    assert!(ChunkCoord3D::new(CHUNK_COORD_LIMIT - 1, 0, -CHUNK_COORD_LIMIT).is_in_world());
    assert!(!ChunkCoord3D::new(CHUNK_COORD_LIMIT, 0, 0).is_in_world());
    assert!(!ChunkCoord3D::new(0, -CHUNK_COORD_LIMIT - 1, 0).is_in_world());
    assert!(!ChunkCoord3D::new(0, 0, i32::MAX).is_in_world());
}

#[test]
fn key_holds_the_three_components() {
    assert_eq!(ChunkCoord3D::new(1, -2, 3).to_key(), (1, -2, 3));
}

#[test]
fn chunk_edge_is_thirty_two_voxels() {
    assert_eq!(CHUNK_USIZE, 32);
    assert_eq!(CHUNK_I32, 32);
}
