use std::sync::Arc;
use voxel_engine::chunk::{Chunk, ChunkMesh, CHUNK_VOLUME};
use voxel_engine::coordinate::{ChunkCoord3D, Coord3DI, CHUNK_COORD_LIMIT};
use voxel_engine::cube::CubeType;
use voxel_engine::quad::{Quad, Rotation};

const SOLID: u32 = 0xbf80_0000;
const EMPTY: u32 = 0x3f80_0000;

fn index(x: usize, y: usize, z: usize) -> usize {
    x + 32 * z + 1024 * y
}

fn solid_chunk(position: ChunkCoord3D) -> Chunk {
    Chunk::new(position, &vec![SOLID; CHUNK_VOLUME])
}

fn empty_chunk(position: ChunkCoord3D) -> Chunk {
    Chunk::new(position, &vec![EMPTY; CHUNK_VOLUME])
}

fn lone_voxel(position: ChunkCoord3D, x: usize, y: usize, z: usize) -> Chunk {
    let mut noise = vec![EMPTY; CHUNK_VOLUME];
    noise[index(x, y, z)] = SOLID;
    Chunk::new(position, &noise)
}

fn nobody() -> Vec<Option<Arc<Chunk>>> {
    vec![None, None, None, None]
}

fn count(faces: &[Quad], facing: Rotation) -> usize {
    faces.iter().filter(|q| q.rotation == facing).count()
}

#[test]
fn the_sample_densities_are_minus_one_and_one() {
    assert_eq!(SOLID, (-1.0f32).to_bits());
    assert_eq!(EMPTY, 1.0f32.to_bits());
}

#[test]
fn voxel_is_solid_exactly_where_density_is_below_zero() {
    let mut noise = Vec::with_capacity(CHUNK_VOLUME);
    for i in 0..CHUNK_VOLUME {
        let density = ((i * 7919) % 201) as f32 - 100.0;
        noise.push(density.to_bits());
    }
    noise[index(1, 2, 3)] = 0.0f32.to_bits();
    noise[index(4, 5, 6)] = (-0.0f32).to_bits();
    noise[index(7, 8, 9)] = f32::NAN.to_bits();
    noise[index(10, 11, 12)] = f32::NEG_INFINITY.to_bits();
    let chunk = Chunk::new(ChunkCoord3D::new(2, 0, -3), &noise);
    for y in 0..32 {
        for z in 0..32 {
            for x in 0..32 {
                let density = f32::from_bits(noise[index(x, y, z)]);
                let expected = if density < 0.0 { CubeType::GRASS } else { CubeType::AIR };
                assert_eq!(chunk.voxel_at(x, y, z), expected);
            }
        }
    }
    assert_eq!(chunk.voxel_at(1, 2, 3), CubeType::AIR);
    assert_eq!(chunk.voxel_at(4, 5, 6), CubeType::AIR);
    assert_eq!(chunk.voxel_at(7, 8, 9), CubeType::AIR);
    assert_eq!(chunk.voxel_at(10, 11, 12), CubeType::GRASS);
}

#[test]
fn densities_past_the_chunk_are_not_read() {
    let mut noise = vec![EMPTY; CHUNK_VOLUME + 5];
    noise[CHUNK_VOLUME] = SOLID;
    let chunk = Chunk::new(ChunkCoord3D::new(0, 0, 0), &noise);
    let mesh = chunk.create_mesh(&nobody());
    assert_eq!(mesh.instances_len(), 0);
}

#[test]
fn chunk_keeps_its_position() {
    let position = ChunkCoord3D::new(-4, 0, 9);
    assert_eq!(empty_chunk(position).position(), position);
}

#[test]
fn building_twice_gives_the_same_voxels() {
    let mut noise = Vec::with_capacity(CHUNK_VOLUME);
    for i in 0..CHUNK_VOLUME {
        noise.push(if (i / 3) % 2 == 0 { SOLID } else { EMPTY });
    }
    let position = ChunkCoord3D::new(1, 0, 1);
    let first = Chunk::new(position, &noise);
    let second = Chunk::new(position, &noise);
    assert_eq!(first.position(), second.position());
    for y in 0..32 {
        for z in 0..32 {
            for x in 0..32 {
                assert_eq!(first.voxel_at(x, y, z), second.voxel_at(x, y, z));
            }
        }
    }
    assert_eq!(
        first.create_mesh(&nobody()).instances(),
        second.create_mesh(&nobody()).instances()
    );
}

#[test]
fn generate_terrain_appends_one_voxel_for_each_density() {
    let mut cubes = Vec::new();
    let mut noise = vec![EMPTY; CHUNK_VOLUME];
    noise[0] = SOLID;
    noise[CHUNK_VOLUME - 1] = SOLID;
    Chunk::generate_terrain(&mut cubes, &noise);
    assert_eq!(cubes.len(), CHUNK_VOLUME);
    assert_eq!(cubes[0].cube_type, CubeType::GRASS);
    assert_eq!(cubes[1].cube_type, CubeType::AIR);
    assert_eq!(cubes[CHUNK_VOLUME - 1].cube_type, CubeType::GRASS);
    Chunk::generate_terrain(&mut cubes, &noise);
    assert_eq!(cubes.len(), 2 * CHUNK_VOLUME);
    assert_eq!(cubes[CHUNK_VOLUME].cube_type, CubeType::GRASS);
    assert_eq!(cubes[CHUNK_VOLUME + 1].cube_type, CubeType::AIR);
}

#[test]
fn empty_chunk_has_no_faces() {
    let chunk = empty_chunk(ChunkCoord3D::new(0, 0, 0));
    assert_eq!(chunk.create_mesh(&nobody()).instances_len(), 0);
}

#[test]
fn solid_chunk_between_solid_chunks_shows_only_top_and_bottom() {
    let chunk = solid_chunk(ChunkCoord3D::new(0, 0, 0));
    let adjacent = vec![
        Some(Arc::new(solid_chunk(ChunkCoord3D::new(-1, 0, 0)))),
        Some(Arc::new(solid_chunk(ChunkCoord3D::new(1, 0, 0)))),
        Some(Arc::new(solid_chunk(ChunkCoord3D::new(0, 0, -1)))),
        Some(Arc::new(solid_chunk(ChunkCoord3D::new(0, 0, 1)))),
    ];
    let mesh = chunk.create_mesh(&adjacent);
    let faces = mesh.instances();
    assert_eq!(count(faces, Rotation::LEFT), 0);
    assert_eq!(count(faces, Rotation::RIGHT), 0);
    assert_eq!(count(faces, Rotation::FRONT), 0);
    assert_eq!(count(faces, Rotation::BACK), 0);
    assert_eq!(count(faces, Rotation::UP), 1024);
    assert_eq!(count(faces, Rotation::DOWN), 1024);
    assert_eq!(mesh.instances_len(), 2048);
    for q in faces {
        match q.rotation {
            Rotation::UP => assert_eq!(q.position.y, 31),
            Rotation::DOWN => assert_eq!(q.position.y, 0),
            _ => panic!("a face to the side"),
        }
    }
}

#[test]
fn solid_chunk_without_adjacent_chunks_holds_its_side_faces_back() {
    let chunk = solid_chunk(ChunkCoord3D::new(0, 0, 0));
    let mesh = chunk.create_mesh(&nobody());
    assert_eq!(mesh.instances_len(), 2048);
    assert_eq!(count(mesh.instances(), Rotation::LEFT), 0);
}

#[test]
fn solid_chunk_beside_empty_chunks_shows_its_whole_surface() {
    let chunk = solid_chunk(ChunkCoord3D::new(0, 0, 0));
    let adjacent = vec![
        Some(Arc::new(empty_chunk(ChunkCoord3D::new(-1, 0, 0)))),
        Some(Arc::new(empty_chunk(ChunkCoord3D::new(1, 0, 0)))),
        Some(Arc::new(empty_chunk(ChunkCoord3D::new(0, 0, -1)))),
        Some(Arc::new(empty_chunk(ChunkCoord3D::new(0, 0, 1)))),
    ];
    let mesh = chunk.create_mesh(&adjacent);
    let faces = mesh.instances();
    for facing in [
        Rotation::LEFT,
        Rotation::RIGHT,
        Rotation::FRONT,
        Rotation::BACK,
        Rotation::UP,
        Rotation::DOWN,
    ] {
        assert_eq!(count(faces, facing), 1024);
    }
    for q in faces {
        match q.rotation {
            Rotation::LEFT => assert_eq!(q.position.x, 0),
            Rotation::RIGHT => assert_eq!(q.position.x, 31),
            Rotation::BACK => assert_eq!(q.position.z, 0),
            Rotation::FRONT => assert_eq!(q.position.z, 31),
            Rotation::DOWN => assert_eq!(q.position.y, 0),
            Rotation::UP => assert_eq!(q.position.y, 31),
        }
    }
}

#[test]
fn only_the_adjacent_chunk_on_the_same_side_counts() {
    let chunk = solid_chunk(ChunkCoord3D::new(0, 0, 0));
    let adjacent = vec![
        None,
        Some(Arc::new(empty_chunk(ChunkCoord3D::new(1, 0, 0)))),
        None,
        None,
    ];
    let mesh = chunk.create_mesh(&adjacent);
    let faces = mesh.instances();
    assert_eq!(count(faces, Rotation::RIGHT), 1024);
    assert_eq!(count(faces, Rotation::LEFT), 0);
    assert_eq!(count(faces, Rotation::FRONT), 0);
    assert_eq!(count(faces, Rotation::BACK), 0);
}

#[test]
fn lone_voxel_inside_a_chunk_shows_six_faces() {
    let position = ChunkCoord3D::new(2, 0, -1);
    let chunk = lone_voxel(position, 5, 6, 7);
    let mesh = chunk.create_mesh(&nobody());
    let at = Coord3DI::new(64 + 5, 6, -32 + 7);
    assert_eq!(
        mesh.instances(),
        &vec![
            Quad::new(at, Rotation::LEFT, 0),
            Quad::new(at, Rotation::RIGHT, 0),
            Quad::new(at, Rotation::BACK, 0),
            Quad::new(at, Rotation::FRONT, 0),
            Quad::new(at, Rotation::DOWN, 1),
            Quad::new(at, Rotation::UP, 2),
        ]
    );
    assert_eq!(mesh.instances_len(), 6);
}

#[test]
fn lone_voxel_in_a_corner_between_empty_chunks_shows_six_faces() {
    let chunk = lone_voxel(ChunkCoord3D::new(0, 0, 0), 0, 0, 31);
    let adjacent = vec![
        Some(Arc::new(empty_chunk(ChunkCoord3D::new(-1, 0, 0)))),
        Some(Arc::new(empty_chunk(ChunkCoord3D::new(1, 0, 0)))),
        Some(Arc::new(empty_chunk(ChunkCoord3D::new(0, 0, -1)))),
        Some(Arc::new(empty_chunk(ChunkCoord3D::new(0, 0, 1)))),
    ];
    assert_eq!(chunk.create_mesh(&adjacent).instances_len(), 6);
}

#[test]
fn lone_voxel_on_the_border_holds_back_the_face_towards_a_missing_chunk() {
    let chunk = lone_voxel(ChunkCoord3D::new(0, 0, 0), 0, 10, 10);
    let mesh = chunk.create_mesh(&nobody());
    assert_eq!(mesh.instances_len(), 5);
    assert_eq!(count(mesh.instances(), Rotation::LEFT), 0);
}

#[test]
fn face_towards_a_solid_voxel_of_the_adjacent_chunk_is_hidden() {
    let chunk = lone_voxel(ChunkCoord3D::new(0, 0, 0), 31, 10, 10);
    let beside = lone_voxel(ChunkCoord3D::new(1, 0, 0), 0, 10, 10);
    let adjacent = vec![None, Some(Arc::new(beside)), None, None];
    let mesh = chunk.create_mesh(&adjacent);
    assert_eq!(mesh.instances_len(), 5);
    assert_eq!(count(mesh.instances(), Rotation::RIGHT), 0);
}

#[test]
fn two_voxels_side_by_side_hide_the_faces_between_them() {
    let mut noise = vec![EMPTY; CHUNK_VOLUME];
    noise[index(3, 3, 3)] = SOLID;
    noise[index(4, 3, 3)] = SOLID;
    let chunk = Chunk::new(ChunkCoord3D::new(0, 0, 0), &noise);
    let mesh = chunk.create_mesh(&nobody());
    let faces = mesh.instances();
    assert_eq!(faces.len(), 10);
    assert_eq!(faces[0], Quad::new(Coord3DI::new(3, 3, 3), Rotation::LEFT, 0));
    assert_eq!(faces[5], Quad::new(Coord3DI::new(4, 3, 3), Rotation::RIGHT, 0));
    assert_eq!(count(faces, Rotation::LEFT), 1);
    assert_eq!(count(faces, Rotation::RIGHT), 1);
}

#[test]
fn faces_come_in_array_order() {
    let mut noise = vec![EMPTY; CHUNK_VOLUME];
    noise[index(9, 1, 1)] = SOLID;
    noise[index(1, 1, 9)] = SOLID;
    noise[index(1, 9, 1)] = SOLID;
    let chunk = Chunk::new(ChunkCoord3D::new(0, 0, 0), &noise);
    let mesh = chunk.create_mesh(&nobody());
    let positions: Vec<Coord3DI> = mesh.instances().iter().map(|q| q.position).collect();
    assert_eq!(positions.len(), 18);
    assert!(positions[..6].iter().all(|p| *p == Coord3DI::new(9, 1, 1)));
    assert!(positions[6..12].iter().all(|p| *p == Coord3DI::new(1, 1, 9)));
    assert!(positions[12..].iter().all(|p| *p == Coord3DI::new(1, 9, 1)));
}

#[test]
fn culling_at_the_edge_of_the_world_does_not_overflow() {
    let position = ChunkCoord3D::new(CHUNK_COORD_LIMIT - 1, CHUNK_COORD_LIMIT - 1, -CHUNK_COORD_LIMIT);
    let chunk = lone_voxel(position, 31, 31, 0);
    let world_pos = position.to_world_position_i32();
    let faces = chunk.cull_unseen_triangles(world_pos, &nobody());
    assert_eq!(faces.len(), 4);
    assert_eq!(faces[0].position, Coord3DI::new(i32::MAX, i32::MAX, i32::MIN));
}

#[test]
fn mesh_holds_the_faces_it_was_made_of() {
    let faces = vec![
        Quad::new(Coord3DI::new(0, 0, 0), Rotation::UP, 2),
        Quad::new(Coord3DI::new(1, 0, 0), Rotation::DOWN, 1),
    ];
    let mesh = ChunkMesh::new(faces.clone());
    assert_eq!(mesh.instances(), &faces);
    assert_eq!(mesh.instances_len(), 2);
    assert_eq!(ChunkMesh::new(Vec::new()).instances_len(), 0);
}
