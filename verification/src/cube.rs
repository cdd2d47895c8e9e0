use vstd::prelude::*;

verus! {

/// The material of one voxel.
#[allow(non_camel_case_types)]
#[derive(Copy, Clone, PartialEq, Eq, Structural, Debug)]
pub enum CubeType {
    GRASS,
    DIRT,
    AIR,
}

impl CubeType {
    /// Whether a voxel of this material fills its cell.
    pub open spec fn solid(self) -> bool {
        self != CubeType::AIR
    }

    pub fn is_solid(&self) -> (b: bool)
        ensures
            b == self.solid(),
    {
        match self {
            CubeType::AIR => false,
            _ => true,
        }
    }
}

/// One voxel.
#[derive(Debug)]
pub struct Cube {
    pub cube_type: CubeType,
}

impl Cube {
    pub fn new(cube_type: CubeType) -> (c: Self)
        ensures
            c.cube_type == cube_type,
    {
        Self { cube_type }
    }

    pub fn set_type(&mut self, cube_type: CubeType)
        ensures
            final(self).cube_type == cube_type,
    {
        self.cube_type = cube_type;
    }
}

} // verus!
