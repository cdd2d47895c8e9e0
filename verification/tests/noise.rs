use simdnoise::NoiseBuilder;
use voxel_engine::chunk::{Chunk, CHUNK_VOLUME};
use voxel_engine::coordinate::ChunkCoord3D;
use voxel_engine::cube::CubeType;
use voxel_engine::density::is_below_zero;

// The densities of a block of voxels whose first voxel is at `(x, y, z)`, `x`
// running fastest, then `z`, then `y`.
fn field(x: i32, y: i32, z: i32, edge: usize) -> Vec<f32> {
    let (noise, _, _) = NoiseBuilder::fbm_3d_offset(x as f32, edge, z as f32, edge, y as f32, edge)
        .with_seed(1)
        .with_freq(0.09)
        .with_gain(2.5)
        .with_lacunarity(0.5)
        .with_octaves(3)
        .generate();
    noise
}

fn block(position: ChunkCoord3D) -> Vec<f32> {
    let origin = position.to_world_position_i32();
    field(origin.x, origin.y, origin.z, 32)
}

#[test]
fn block_of_the_field_has_one_density_for_each_voxel() {
    assert_eq!(block(ChunkCoord3D::new(0, 0, 0)).len(), CHUNK_VOLUME);
}

#[test]
fn chunk_of_the_field_is_solid_where_the_field_is_below_zero() {
    let position = ChunkCoord3D::new(3, 0, -2);
    let noise = block(position);
    let bits: Vec<u32> = noise.iter().map(|d| d.to_bits()).collect();
    let chunk = Chunk::new(position, &bits);
    let mut solid = 0;
    for y in 0..32 {
        for z in 0..32 {
            for x in 0..32 {
                let density = noise[x + 32 * z + 1024 * y];
                assert_eq!(is_below_zero(density.to_bits()), density < 0.0);
                assert_eq!(chunk.voxel_at(x, y, z) == CubeType::GRASS, density < 0.0);
                assert_eq!(chunk.voxel_at(x, y, z) == CubeType::AIR, !(density < 0.0));
                if density < 0.0 {
                    solid += 1;
                }
            }
        }
    }
    assert!(solid > 0 && solid < CHUNK_VOLUME);
    assert!(chunk.create_mesh(&vec![None, None, None, None]).instances_len() > 0);
}

#[test]
fn block_of_the_field_is_the_same_each_time() {
    let position = ChunkCoord3D::new(-7, 0, 11);
    let first: Vec<u32> = block(position).iter().map(|d| d.to_bits()).collect();
    let second: Vec<u32> = block(position).iter().map(|d| d.to_bits()).collect();
    assert_eq!(first, second);
}

#[test]
fn block_of_the_field_agrees_with_the_field_voxel_by_voxel() {
    let position = ChunkCoord3D::new(1, 0, -1);
    let origin = position.to_world_position_i32();
    let noise = block(position);
    for i in 0..400 {
        let x = (i * 7) % 32;
        let y = (i * 13) % 32;
        let z = (i * 29) % 32;
        let alone = field(origin.x + x as i32, origin.y + y as i32, origin.z + z as i32, 1);
        assert_eq!(alone.len(), 1);
        assert_eq!(noise[x + 32 * z + 1024 * y].to_bits(), alone[0].to_bits(), "{} {} {}", x, y, z);
    }
}
