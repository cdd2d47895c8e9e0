use vstd::prelude::*;
use crate::coordinate::Coord3DI;

verus! {

/// The side of a voxel that a face covers.
#[allow(non_camel_case_types)]
#[derive(Copy, Clone, PartialEq, Eq, Structural, Debug)]
pub enum Rotation {
    UP,
    DOWN,
    LEFT,
    RIGHT,
    FRONT,
    BACK,
}

/// One visible face of a voxel: where the voxel is, which way the face looks
/// and which texture it shows.
#[derive(Copy, Clone, PartialEq, Eq, Structural, Debug)]
pub struct Quad {
    pub position: Coord3DI,
    pub rotation: Rotation,
    pub texture_index: u32,
}

impl Quad {
    pub fn new(pos: Coord3DI, facing: Rotation, texture_index: u32) -> (q: Self)
        ensures
            q == (Quad { position: pos, rotation: facing, texture_index }),
    {
        Quad { position: pos, rotation: facing, texture_index }
    }
}

} // verus!
