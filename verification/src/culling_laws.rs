use vstd::prelude::*;
use std::sync::Arc;
use crate::chunk::{
    cube_index, index_x, index_y, index_z, lemma_coordinates_of_cube_index,
    lemma_cube_index_of_coordinates, Chunk, CHUNK_VOLUME,
};
use crate::coordinate::{Coord3DI, CHUNK_USIZE};
use crate::quad::{Quad, Rotation};

verus! {

/// The coordinates name a voxel of a chunk.
pub open spec fn in_chunk(x: int, y: int, z: int) -> bool {
    &&& 0 <= x < CHUNK_USIZE
    &&& 0 <= y < CHUNK_USIZE
    &&& 0 <= z < CHUNK_USIZE
}

/// Every voxel of the chunk is solid.
pub open spec fn all_solid(chunk: Chunk) -> bool {
    forall|x: int, y: int, z: int| in_chunk(x, y, z) ==> !#[trigger] chunk.air_at(x, y, z)
}

/// The voxel at `(x, y, z)` is the only solid one of the chunk.
pub open spec fn only_solid_at(chunk: Chunk, x: int, y: int, z: int) -> bool {
    &&& in_chunk(x, y, z)
    &&& !chunk.air_at(x, y, z)
    &&& forall|i: int, j: int, k: int|
        in_chunk(i, j, k) && !(i == x && j == y && k == z) ==> #[trigger] chunk.air_at(i, j, k)
}

/// All four adjacent chunks are resident and solid throughout.
pub open spec fn walled_in(adjacent: Seq<Option<Arc<Chunk>>>) -> bool {
    &&& adjacent.len() == 4
    &&& forall|side: int|
        0 <= side < 4 ==> ((#[trigger] adjacent[side]) matches Some(c) && all_solid(*c))
}

/// Where the voxel at `(x, y, z)` touches an adjacent chunk, that chunk is
/// resident and empty there.
pub open spec fn open_around(adjacent: Seq<Option<Arc<Chunk>>>, x: int, y: int, z: int) -> bool {
    let last = CHUNK_USIZE - 1;
    &&& adjacent.len() == 4
    &&& x == 0 ==> (adjacent[0] matches Some(c) && c.air_at(last, y, z))
    &&& x == last ==> (adjacent[1] matches Some(c) && c.air_at(0, y, z))
    &&& z == 0 ==> (adjacent[2] matches Some(c) && c.air_at(x, y, last))
    &&& z == last ==> (adjacent[3] matches Some(c) && c.air_at(x, y, 0))
}

/// The number of voxels of the lowest and of the highest layer among the
/// first `n` voxels of the voxel array.
pub open spec fn outer_layer_voxels(n: int) -> int {
    let layer = CHUNK_USIZE * CHUNK_USIZE;
    if n <= layer {
        n
    } else if n <= CHUNK_VOLUME - layer {
        layer
    } else {
        layer + (n - (CHUNK_VOLUME - layer))
    }
}

/// A face of the lowest layer that looks down, or one of the highest layer
/// that looks up.
pub open spec fn outward_face(world_pos: Coord3DI, q: Quad) -> bool {
    ||| q.rotation == Rotation::DOWN && q.position.y == world_pos.y
    ||| q.rotation == Rotation::UP && q.position.y == world_pos.y + CHUNK_USIZE - 1
}

proof fn lemma_walled_in_prefix(
    chunk: Chunk,
    world_pos: Coord3DI,
    adjacent: Seq<Option<Arc<Chunk>>>,
    n: nat,
)
    requires
        all_solid(chunk),
        walled_in(adjacent),
        n <= CHUNK_VOLUME,
        i32::MIN <= world_pos.y,
        world_pos.y + CHUNK_USIZE - 1 <= i32::MAX,
    ensures
        chunk.faces_before(world_pos, adjacent, n).len() == outer_layer_voxels(n as int),
        forall|i: int|
            0 <= i < chunk.faces_before(world_pos, adjacent, n).len() ==> outward_face(
                world_pos,
                #[trigger] chunk.faces_before(world_pos, adjacent, n)[i],
            ),
    decreases n,
{
    if n > 0 {
        lemma_walled_in_prefix(chunk, world_pos, adjacent, (n - 1) as nat);
        let i = (n - 1) as int;
        let x = index_x(i);
        let y = index_y(i);
        let z = index_z(i);
        let last = CHUNK_USIZE - 1;
        lemma_coordinates_of_cube_index(i);
        assert(in_chunk(x, y, z));
        assert(!chunk.air_at(x, y, z));
        assert(adjacent[0] matches Some(c) && all_solid(*c));
        assert(adjacent[1] matches Some(c) && all_solid(*c));
        assert(adjacent[2] matches Some(c) && all_solid(*c));
        assert(adjacent[3] matches Some(c) && all_solid(*c));
        assert(!chunk.face_open(adjacent, x, y, z, Rotation::LEFT)) by {
            if x > 0 {
                assert(in_chunk(x - 1, y, z));
            } else {
                assert(in_chunk(last, y, z));
            }
        }
        assert(!chunk.face_open(adjacent, x, y, z, Rotation::RIGHT)) by {
            if x < last {
                assert(in_chunk(x + 1, y, z));
            } else {
                assert(in_chunk(0, y, z));
            }
        }
        assert(!chunk.face_open(adjacent, x, y, z, Rotation::BACK)) by {
            if z > 0 {
                assert(in_chunk(x, y, z - 1));
            } else {
                assert(in_chunk(x, y, last));
            }
        }
        assert(!chunk.face_open(adjacent, x, y, z, Rotation::FRONT)) by {
            if z < last {
                assert(in_chunk(x, y, z + 1));
            } else {
                assert(in_chunk(x, y, 0));
            }
        }
        assert(chunk.face_open(adjacent, x, y, z, Rotation::DOWN) == (y == 0)) by {
            if y > 0 {
                assert(in_chunk(x, y - 1, z));
            }
        }
        assert(chunk.face_open(adjacent, x, y, z, Rotation::UP) == (y == last)) by {
            if y < last {
                assert(in_chunk(x, y + 1, z));
            }
        }
        let here = chunk.cube_faces(world_pos, adjacent, x, y, z);
        if y == 0 {
            assert(here =~= seq![chunk.quad_at(world_pos, x, y, z, Rotation::DOWN)]);
        } else if y == last {
            assert(here =~= seq![chunk.quad_at(world_pos, x, y, z, Rotation::UP)]);
        } else {
            assert(here =~= Seq::<Quad>::empty());
        }
    }
}

/// A chunk that is solid throughout, between four adjacent chunks that are
/// resident and solid throughout, shows no face to any side. What it shows
/// are the faces of its lowest layer that look down and those of its highest
/// layer that look up, one for each voxel of the two layers: there is no chunk
/// below or above to hide them.
pub proof fn lemma_walled_in_chunk_shows_only_outer_layers(
    chunk: Chunk,
    world_pos: Coord3DI,
    adjacent: Seq<Option<Arc<Chunk>>>,
)
    requires
        all_solid(chunk),
        walled_in(adjacent),
        i32::MIN <= world_pos.y,
        world_pos.y + CHUNK_USIZE - 1 <= i32::MAX,
    ensures
        chunk.faces(world_pos, adjacent).len() == 2 * CHUNK_USIZE * CHUNK_USIZE,
        forall|i: int|
            0 <= i < chunk.faces(world_pos, adjacent).len() ==> outward_face(
                world_pos,
                #[trigger] chunk.faces(world_pos, adjacent)[i],
            ),
        forall|i: int|
            0 <= i < chunk.faces(world_pos, adjacent).len() ==> {
                let facing = (#[trigger] chunk.faces(world_pos, adjacent)[i]).rotation;
                facing != Rotation::LEFT && facing != Rotation::RIGHT && facing != Rotation::FRONT
                    && facing != Rotation::BACK
            },
{
    lemma_walled_in_prefix(chunk, world_pos, adjacent, CHUNK_VOLUME as nat);
}

proof fn lemma_lone_voxel_prefix(
    chunk: Chunk,
    world_pos: Coord3DI,
    adjacent: Seq<Option<Arc<Chunk>>>,
    x: int,
    y: int,
    z: int,
    n: nat,
)
    requires
        only_solid_at(chunk, x, y, z),
        open_around(adjacent, x, y, z),
        n <= CHUNK_VOLUME,
    ensures
        chunk.faces_before(world_pos, adjacent, n) == if n <= cube_index(x, y, z) {
            Seq::<Quad>::empty()
        } else {
            seq![
                chunk.quad_at(world_pos, x, y, z, Rotation::LEFT),
                chunk.quad_at(world_pos, x, y, z, Rotation::RIGHT),
                chunk.quad_at(world_pos, x, y, z, Rotation::BACK),
                chunk.quad_at(world_pos, x, y, z, Rotation::FRONT),
                chunk.quad_at(world_pos, x, y, z, Rotation::DOWN),
                chunk.quad_at(world_pos, x, y, z, Rotation::UP),
            ]
        },
    decreases n,
{
    if n > 0 {
        lemma_lone_voxel_prefix(chunk, world_pos, adjacent, x, y, z, (n - 1) as nat);
        let i = (n - 1) as int;
        let here = chunk.cube_faces(world_pos, adjacent, index_x(i), index_y(i), index_z(i));
        let last = CHUNK_USIZE - 1;
        lemma_coordinates_of_cube_index(i);
        lemma_cube_index_of_coordinates(x, y, z);
        assert(in_chunk(index_x(i), index_y(i), index_z(i)));
        if i == cube_index(x, y, z) {
            assert(chunk.face_open(adjacent, x, y, z, Rotation::LEFT)) by {
                if x > 0 {
                    assert(in_chunk(x - 1, y, z));
                }
            }
            assert(chunk.face_open(adjacent, x, y, z, Rotation::RIGHT)) by {
                if x < last {
                    assert(in_chunk(x + 1, y, z));
                }
            }
            assert(chunk.face_open(adjacent, x, y, z, Rotation::BACK)) by {
                if z > 0 {
                    assert(in_chunk(x, y, z - 1));
                }
            }
            assert(chunk.face_open(adjacent, x, y, z, Rotation::FRONT)) by {
                if z < last {
                    assert(in_chunk(x, y, z + 1));
                }
            }
            assert(chunk.face_open(adjacent, x, y, z, Rotation::DOWN)) by {
                if y > 0 {
                    assert(in_chunk(x, y - 1, z));
                }
            }
            assert(chunk.face_open(adjacent, x, y, z, Rotation::UP)) by {
                if y < last {
                    assert(in_chunk(x, y + 1, z));
                }
            }
            assert(here =~= seq![
                chunk.quad_at(world_pos, x, y, z, Rotation::LEFT),
                chunk.quad_at(world_pos, x, y, z, Rotation::RIGHT),
                chunk.quad_at(world_pos, x, y, z, Rotation::BACK),
                chunk.quad_at(world_pos, x, y, z, Rotation::FRONT),
                chunk.quad_at(world_pos, x, y, z, Rotation::DOWN),
                chunk.quad_at(world_pos, x, y, z, Rotation::UP),
            ]);
            assert(chunk.faces_before(world_pos, adjacent, n) =~= here);
        } else {
            assert(chunk.air_at(index_x(i), index_y(i), index_z(i)));
            assert(chunk.faces_before(world_pos, adjacent, n) =~= chunk.faces_before(
                world_pos,
                adjacent,
                (n - 1) as nat,
            ));
        }
    }
}

/// A chunk whose only solid voxel has air on all its six sides, also where it
/// touches an adjacent chunk, shows exactly the six faces of that voxel, in
/// the order left, right, back, front, down, up.
pub proof fn lemma_lone_voxel_shows_six_faces(
    chunk: Chunk,
    world_pos: Coord3DI,
    adjacent: Seq<Option<Arc<Chunk>>>,
    x: int,
    y: int,
    z: int,
)
    requires
        only_solid_at(chunk, x, y, z),
        open_around(adjacent, x, y, z),
    ensures
        chunk.faces(world_pos, adjacent).len() == 6,
        chunk.faces(world_pos, adjacent) == seq![
            chunk.quad_at(world_pos, x, y, z, Rotation::LEFT),
            chunk.quad_at(world_pos, x, y, z, Rotation::RIGHT),
            chunk.quad_at(world_pos, x, y, z, Rotation::BACK),
            chunk.quad_at(world_pos, x, y, z, Rotation::FRONT),
            chunk.quad_at(world_pos, x, y, z, Rotation::DOWN),
            chunk.quad_at(world_pos, x, y, z, Rotation::UP),
        ],
{
    lemma_cube_index_of_coordinates(x, y, z);
    lemma_lone_voxel_prefix(chunk, world_pos, adjacent, x, y, z, CHUNK_VOLUME as nat);
}

} // verus!
