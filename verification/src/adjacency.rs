use vstd::prelude::*;
use std::sync::Arc;
use crate::chunk::Chunk;
use crate::coordinate::ChunkCoord3D;
use crate::world::World;

verus! {

/// The chunk that is resident `dx` chunks along `x` and `dz` chunks along `z`
/// from `pos`, if there is one. Past the ends of `i32` there is none.
pub open spec fn neighbour(world: &World, pos: ChunkCoord3D, dx: int, dz: int) -> Option<
    Arc<Chunk>,
> {
    let x = pos.x + dx;
    let z = pos.z + dz;
    let key = (x as i32, pos.y, z as i32);
    if i32::MIN <= x <= i32::MAX && i32::MIN <= z <= i32::MAX && world.chunks().contains_key(key) {
        Some(world.chunks()[key])
    } else {
        None
    }
}

/// The chunks that are resident beside `pos`: at `x - 1`, `x + 1`, `z - 1`
/// and `z + 1`, in this order.
pub open spec fn neighbours(world: &World, pos: ChunkCoord3D) -> Seq<Option<Arc<Chunk>>> {
    seq![
        neighbour(world, pos, -1, 0),
        neighbour(world, pos, 1, 0),
        neighbour(world, pos, 0, -1),
        neighbour(world, pos, 0, 1),
    ]
}

/// The coordinate `dx` chunks along `x` and `dz` chunks along `z` from `pos`,
/// in a list of its own if a chunk is resident there, else the empty list.
pub open spec fn resident_beside(world: &World, pos: ChunkCoord3D, dx: int, dz: int) -> Seq<
    ChunkCoord3D,
> {
    if neighbour(world, pos, dx, dz).is_some() {
        seq![ChunkCoord3D { x: (pos.x + dx) as i32, y: pos.y, z: (pos.z + dz) as i32 }]
    } else {
        Seq::empty()
    }
}

/// The coordinates beside `pos` at which a chunk is resident, in the order
/// `x + 1`, `x - 1`, `z + 1`, `z - 1`.
pub open spec fn resident_neighbours(world: &World, pos: ChunkCoord3D) -> Seq<ChunkCoord3D> {
    resident_beside(world, pos, 1, 0) + resident_beside(world, pos, -1, 0) + resident_beside(
        world,
        pos,
        0,
        1,
    ) + resident_beside(world, pos, 0, -1)
}

/// Looks up the chunk `dx` chunks along `x` and `dz` chunks along `z` from `pos`.
pub(crate) fn look_beside(world: &World, pos: ChunkCoord3D, dx: i32, dz: i32) -> (found: Option<Arc<Chunk>>)
    requires
        -1 <= dx <= 1,
        -1 <= dz <= 1,
    ensures
        found == neighbour(world, pos, dx as int, dz as int),
{
    let x: i64 = pos.x as i64 + dx as i64;
    let z: i64 = pos.z as i64 + dz as i64;
    if x < i32::MIN as i64 || x > i32::MAX as i64 || z < i32::MIN as i64 || z > i32::MAX as i64 {
        return None;
    }
    match world.get(ChunkCoord3D::new(x as i32, pos.y, z as i32)) {
        Some(c) => Some(c.clone()),
        None => None,
    }
}

/// The chunk at `pos` and the four chunks beside it are all resident. The
/// mesh of the chunk made against them will not change when more chunks arrive.
pub open spec fn surrounded(world: &World, pos: ChunkCoord3D) -> bool {
    &&& world.is_resident(pos)
    &&& forall|side: int| 0 <= side < 4 ==> (#[trigger] neighbours(world, pos)[side]).is_some()
}

/// The four chunks beside `pos`, at `x - 1`, `x + 1`, `z - 1` and `z + 1` in
/// this order, if the chunk at `pos` and all four of them are resident.
pub fn check_adjacent_chunks(pos: ChunkCoord3D, world: &World) -> (adjacent: Option<
    Vec<Arc<Chunk>>,
>)
    ensures
        adjacent.is_some() == surrounded(world, pos),
        adjacent matches Some(chunks) ==> {
            &&& chunks@.len() == 4
            &&& forall|side: int|
                0 <= side < 4 ==> Some(#[trigger] chunks@[side]) == neighbours(world, pos)[side]
        },
{
    let mut adjacent_chunks = Vec::new();
    if !world.contains(pos) {
        return None;
    }
    match look_beside(world, pos, -1, 0) {
        Some(c) => adjacent_chunks.push(c),
        None => {
            assert(neighbours(world, pos)[0].is_none());
            return None;
        },
    }
    match look_beside(world, pos, 1, 0) {
        Some(c) => adjacent_chunks.push(c),
        None => {
            assert(neighbours(world, pos)[1].is_none());
            return None;
        },
    }
    match look_beside(world, pos, 0, -1) {
        Some(c) => adjacent_chunks.push(c),
        None => {
            assert(neighbours(world, pos)[2].is_none());
            return None;
        },
    }
    match look_beside(world, pos, 0, 1) {
        Some(c) => adjacent_chunks.push(c),
        None => {
            assert(neighbours(world, pos)[3].is_none());
            return None;
        },
    }
    Some(adjacent_chunks)
}

} // verus!
