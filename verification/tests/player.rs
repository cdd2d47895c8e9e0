use voxel_engine::coordinate::{ChunkCoord3D, Coord3DI};
use voxel_engine::player::Player;

#[test]
fn new_player_was_last_seen_in_its_own_chunk() {
    let player = Player::new(Coord3DI::new(40, -1, 0));
    assert_eq!(player.pos(), Coord3DI::new(40, -1, 0));
    assert_eq!(player.chunk(), ChunkCoord3D::new(1, -1, 0));
    assert!(!player.is_in_new_chunk_pos());
}

#[test]
fn moving_inside_a_chunk_is_no_crossing() {
    let mut player = Player::new(Coord3DI::new(0, 0, 0));
    player.update_pos(Coord3DI::new(31, 31, 31));
    assert!(!player.is_in_new_chunk_pos());
    assert_eq!(player.chunk(), ChunkCoord3D::new(0, 0, 0));
}

#[test]
fn crossing_is_seen_until_the_chunk_is_recorded() {
    let mut player = Player::new(Coord3DI::new(0, 0, 0));
    player.update_pos(Coord3DI::new(-1, 0, 0));
    assert!(player.is_in_new_chunk_pos());
    assert_eq!(player.chunk(), ChunkCoord3D::new(0, 0, 0));
    player.update_chunk_pos();
    assert!(!player.is_in_new_chunk_pos());
    assert_eq!(player.chunk(), ChunkCoord3D::new(-1, 0, 0));
    assert_eq!(player.pos(), Coord3DI::new(-1, 0, 0));
}
