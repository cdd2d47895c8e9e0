use vstd::prelude::*;
use crate::cube::CubeType;
use crate::quad::Rotation;

verus! {

/// The place of each side in a row of the texture table.
pub open spec fn side_slot(facing: Rotation) -> int {
    match facing {
        Rotation::LEFT => 0,
        Rotation::RIGHT => 1,
        Rotation::BACK => 2,
        Rotation::FRONT => 3,
        Rotation::UP => 4,
        Rotation::DOWN => 5,
    }
}

/// The row of each solid material in the texture table.
pub open spec fn material_row(cube_type: CubeType) -> int
    recommends
        cube_type.solid(),
{
    match cube_type {
        CubeType::GRASS => 0,
        CubeType::DIRT => 1,
        CubeType::AIR => 2,
    }
}

/// The texture table: one row for each solid material, one slot for each side.
/// Grass shows its side texture all around, its own top and the dirt texture
/// below; dirt shows texture 0 on every side.
pub open spec fn index_list() -> Seq<Seq<u32>> {
    seq![seq![0u32, 0u32, 0u32, 0u32, 2u32, 1u32], seq![0u32, 0u32, 0u32, 0u32, 0u32, 0u32]]
}

/// The texture that a solid material shows on one side.
pub open spec fn texture_of(cube_type: CubeType, facing: Rotation) -> u32
    recommends
        cube_type.solid(),
{
    index_list()[material_row(cube_type)][side_slot(facing)]
}

/// Builds the texture table.
pub fn init_index_list() -> (list: Vec<[u32; 6]>)
    ensures
        list@.len() == index_list().len(),
        forall|row: int| 0 <= row < list@.len() ==> (#[trigger] list@[row])@ == index_list()[row],
{
    let mut list: Vec<[u32; 6]> = Vec::new();
    list.push([0, 0, 0, 0, 2, 1]);
    list.push([0, 0, 0, 0, 0, 0]);
    proof {
        assert(list@[0]@ =~= index_list()[0]);
        assert(list@[1]@ =~= index_list()[1]);
    }
    list
}

/// Looks up the texture of one side of a solid material.
pub fn texture_index(cube_type: CubeType, facing: Rotation) -> (index: u32)
    requires
        cube_type.solid(),
    ensures
        index == texture_of(cube_type, facing),
{
    match cube_type {
        CubeType::GRASS => match facing {
            Rotation::UP => 2,
            Rotation::DOWN => 1,
            _ => 0,
        },
        _ => 0,
    }
}

} // verus!
