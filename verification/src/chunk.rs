use vstd::prelude::*;
use std::sync::Arc;
use crate::coordinate::{ChunkCoord3D, Coord3DI, CHUNK_USIZE};
use crate::cube::{Cube, CubeType};
use crate::density::{density_below_zero, is_below_zero, DensityBits};
use crate::quad::{Quad, Rotation};
use crate::texture::{texture_index, texture_of};

verus! {

/// Number of voxels in a chunk.
pub const CHUNK_VOLUME: usize = 32768;

/// Where the voxel at `(x, y, z)` of a chunk stands in the chunk's voxel array:
/// `x` runs fastest, then `z`, then `y`.
pub open spec fn cube_index(x: int, y: int, z: int) -> int {
    x + 32 * z + 1024 * y
}

/// The `x` of the voxel at place `i` of the voxel array.
pub open spec fn index_x(i: int) -> int {
    i % 32
}

/// The `y` of the voxel at place `i` of the voxel array.
pub open spec fn index_y(i: int) -> int {
    i / 1024
}

/// The `z` of the voxel at place `i` of the voxel array.
pub open spec fn index_z(i: int) -> int {
    (i / 32) % 32
}

/// Every voxel of a chunk has exactly one place in the voxel array.
pub proof fn lemma_cube_index_of_coordinates(x: int, y: int, z: int)
    requires
        0 <= x < CHUNK_USIZE,
        0 <= y < CHUNK_USIZE,
        0 <= z < CHUNK_USIZE,
    ensures
        0 <= cube_index(x, y, z) < CHUNK_VOLUME,
        index_x(cube_index(x, y, z)) == x,
        index_y(cube_index(x, y, z)) == y,
        index_z(cube_index(x, y, z)) == z,
{
}

/// Every place of the voxel array holds exactly one voxel of the chunk.
pub proof fn lemma_coordinates_of_cube_index(i: int)
    requires
        0 <= i < CHUNK_VOLUME,
    ensures
        0 <= index_x(i) < CHUNK_USIZE,
        0 <= index_y(i) < CHUNK_USIZE,
        0 <= index_z(i) < CHUNK_USIZE,
        cube_index(index_x(i), index_y(i), index_z(i)) == i,
{
}

/// A chunk whose first voxel is at `world_pos` has all its voxels at
/// coordinates that fit in `i32`.
pub open spec fn voxels_fit(world_pos: Coord3DI) -> bool {
    &&& world_pos.x + CHUNK_USIZE - 1 <= i32::MAX
    &&& world_pos.y + CHUNK_USIZE - 1 <= i32::MAX
    &&& world_pos.z + CHUNK_USIZE - 1 <= i32::MAX
}

/// The voxels that a block of densities stands for: grass where the density is
/// below zero, air elsewhere.
pub open spec fn terrain(noise: Seq<DensityBits>) -> Seq<CubeType> {
    Seq::new(
        CHUNK_VOLUME as nat,
        |i: int|
            if density_below_zero(noise[i]) {
                CubeType::GRASS
            } else {
                CubeType::AIR
            },
    )
}

/// The materials of a row of voxels.
pub open spec fn cube_types_of(cubes: Seq<Cube>) -> Seq<CubeType> {
    Seq::new(cubes.len(), |i: int| cubes[i].cube_type)
}

/// The sides of a voxel, in the order in which its faces are listed.
pub open spec fn face_order() -> Seq<Rotation> {
    seq![
        Rotation::LEFT,
        Rotation::RIGHT,
        Rotation::BACK,
        Rotation::FRONT,
        Rotation::DOWN,
        Rotation::UP,
    ]
}

/// The voxels of one chunk of the world.
#[derive(Debug)]
pub struct Chunk {
    position: ChunkCoord3D,
    cubes: Vec<Cube>,
}

impl Chunk {
    #[verifier::type_invariant]
    spec fn well_formed(self) -> bool {
        &&& self.cubes@.len() == CHUNK_VOLUME
        &&& self.position.in_world()
    }

    /// The chunk's coordinate.
    pub closed spec fn spec_position(&self) -> ChunkCoord3D {
        self.position
    }

    /// The materials of the chunk's voxels, in array order.
    pub closed spec fn cube_types(&self) -> Seq<CubeType> {
        cube_types_of(self.cubes@)
    }

    /// The material of the voxel at `(x, y, z)`.
    pub open spec fn cube_at(&self, x: int, y: int, z: int) -> CubeType {
        self.cube_types()[cube_index(x, y, z)]
    }

    /// Whether the voxel at `(x, y, z)` is empty.
    pub open spec fn air_at(&self, x: int, y: int, z: int) -> bool {
        self.cube_at(x, y, z) == CubeType::AIR
    }

    /// The chunk at `position` whose voxels are those that `noise` stands for.
    pub open spec fn is_terrain_of(&self, position: ChunkCoord3D, noise: Seq<DensityBits>) -> bool {
        &&& self.spec_position() == position
        &&& self.cube_types() == terrain(noise)
    }

    /// Whether the face of the voxel at `(x, y, z)` that looks towards `facing`
    /// can be seen. Inside the chunk it can where the next voxel on that side is
    /// air. On the chunk's border in `x` and `z` it can where the adjacent chunk
    /// is there and its touching voxel is air; while that chunk is missing the
    /// face is held back. The lowest and the highest layer have no chunk below
    /// or above, so their outward faces can always be seen.
    ///
    /// `adjacent` holds the chunks at `x - 1`, `x + 1`, `z - 1` and `z + 1`, in this order.
    pub open spec fn face_open(
        &self,
        adjacent: Seq<Option<Arc<Chunk>>>,
        x: int,
        y: int,
        z: int,
        facing: Rotation,
    ) -> bool {
        let last = CHUNK_USIZE - 1;
        match facing {
            Rotation::LEFT => if x > 0 {
                self.air_at(x - 1, y, z)
            } else {
                adjacent[0] matches Some(c) && c.air_at(last, y, z)
            },
            Rotation::RIGHT => if x < last {
                self.air_at(x + 1, y, z)
            } else {
                adjacent[1] matches Some(c) && c.air_at(0, y, z)
            },
            Rotation::BACK => if z > 0 {
                self.air_at(x, y, z - 1)
            } else {
                adjacent[2] matches Some(c) && c.air_at(x, y, last)
            },
            Rotation::FRONT => if z < last {
                self.air_at(x, y, z + 1)
            } else {
                adjacent[3] matches Some(c) && c.air_at(x, y, 0)
            },
            Rotation::DOWN => y > 0 ==> self.air_at(x, y - 1, z),
            Rotation::UP => y < last ==> self.air_at(x, y + 1, z),
        }
    }

    /// The face of the voxel at `(x, y, z)` that looks towards `facing`.
    pub open spec fn quad_at(&self, world_pos: Coord3DI, x: int, y: int, z: int, facing: Rotation) -> Quad {
        Quad {
            position: Coord3DI {
                x: (world_pos.x + x) as i32,
                y: (world_pos.y + y) as i32,
                z: (world_pos.z + z) as i32,
            },
            rotation: facing,
            texture_index: texture_of(self.cube_at(x, y, z), facing),
        }
    }

    /// The face of a solid voxel towards `facing`, if it can be seen.
    pub open spec fn face(
        &self,
        world_pos: Coord3DI,
        adjacent: Seq<Option<Arc<Chunk>>>,
        x: int,
        y: int,
        z: int,
        facing: Rotation,
    ) -> Seq<Quad> {
        if self.face_open(adjacent, x, y, z, facing) {
            seq![self.quad_at(world_pos, x, y, z, facing)]
        } else {
            Seq::empty()
        }
    }

    /// The faces of the voxel at `(x, y, z)` that can be seen: none for air,
    /// else the open ones among its six, in the order of `face_order`.
    pub open spec fn cube_faces(
        &self,
        world_pos: Coord3DI,
        adjacent: Seq<Option<Arc<Chunk>>>,
        x: int,
        y: int,
        z: int,
    ) -> Seq<Quad> {
        if self.air_at(x, y, z) {
            Seq::empty()
        } else {
            self.face(world_pos, adjacent, x, y, z, Rotation::LEFT) + self.face(
                world_pos,
                adjacent,
                x,
                y,
                z,
                Rotation::RIGHT,
            ) + self.face(world_pos, adjacent, x, y, z, Rotation::BACK) + self.face(
                world_pos,
                adjacent,
                x,
                y,
                z,
                Rotation::FRONT,
            ) + self.face(world_pos, adjacent, x, y, z, Rotation::DOWN) + self.face(
                world_pos,
                adjacent,
                x,
                y,
                z,
                Rotation::UP,
            )
        }
    }

    /// The faces of the first `n` voxels of the voxel array, voxel after voxel.
    pub open spec fn faces_before(
        &self,
        world_pos: Coord3DI,
        adjacent: Seq<Option<Arc<Chunk>>>,
        n: nat,
    ) -> Seq<Quad>
        decreases n,
    {
        if n == 0 {
            Seq::empty()
        } else {
            let i = (n - 1) as int;
            self.faces_before(world_pos, adjacent, (n - 1) as nat) + self.cube_faces(
                world_pos,
                adjacent,
                index_x(i),
                index_y(i),
                index_z(i),
            )
        }
    }

    /// All the faces of the chunk that can be seen.
    pub open spec fn faces(&self, world_pos: Coord3DI, adjacent: Seq<Option<Arc<Chunk>>>) -> Seq<Quad> {
        self.faces_before(world_pos, adjacent, CHUNK_VOLUME as nat)
    }

    /// Builds the chunk at `position` from the densities of its voxels, given in
    /// array order: a voxel is grass where its density is below zero and air elsewhere.
    pub fn new(position: ChunkCoord3D, noise: &Vec<DensityBits>) -> (chunk: Self)
        requires
            position.in_world(),
            noise@.len() >= CHUNK_VOLUME,
        ensures
            chunk.is_terrain_of(position, noise@),
    {
        let mut cubes = Vec::with_capacity(CHUNK_VOLUME);
        Chunk::generate_terrain(&mut cubes, noise);
        assert(cube_types_of(cubes@) =~= terrain(noise@));
        Self { position, cubes }
    }

    /// Appends to `cubes` the voxels that `noise` stands for, in array order.
    pub fn generate_terrain(cubes: &mut Vec<Cube>, noise: &Vec<DensityBits>)
        requires
            noise@.len() >= CHUNK_VOLUME,
        ensures
            cube_types_of(final(cubes)@) == cube_types_of(old(cubes)@) + terrain(noise@),
    {
        let ghost before = cubes@;
        for y in 0..CHUNK_USIZE
            invariant
                noise@.len() >= CHUNK_VOLUME,
                cubes@.len() == before.len() + 1024 * y,
                forall|i: int| 0 <= i < before.len() ==> cubes@[i] == before[i],
                forall|i: int|
                    0 <= i < 1024 * y ==> (#[trigger] cubes@[before.len()
                        + i]).cube_type == terrain(noise@)[i],
        {
            for z in 0..CHUNK_USIZE
                invariant
                    y < CHUNK_USIZE,
                    noise@.len() >= CHUNK_VOLUME,
                    cubes@.len() == before.len() + 32 * z + 1024 * y,
                    forall|i: int| 0 <= i < before.len() ==> cubes@[i] == before[i],
                    forall|i: int|
                        0 <= i < 32 * z + 1024 * y ==> (
                        #[trigger] cubes@[before.len() + i]).cube_type == terrain(noise@)[i],
            {
                for x in 0..CHUNK_USIZE
                    invariant
                        y < CHUNK_USIZE,
                        z < CHUNK_USIZE,
                        noise@.len() >= CHUNK_VOLUME,
                        cubes@.len() == before.len() + x + 32 * z + 1024 * y,
                        forall|i: int| 0 <= i < before.len() ==> cubes@[i] == before[i],
                        forall|i: int|
                            0 <= i < x + 32 * z + 1024 * y ==> (
                            #[trigger] cubes@[before.len() + i]).cube_type == terrain(noise@)[i],
                {
                    if is_below_zero(noise[x + 32 * z + 1024 * y]) {
                        cubes.push(Cube::new(CubeType::GRASS));
                    } else {
                        cubes.push(Cube::new(CubeType::AIR));
                    }
                }
            }
        }
        assert forall|j: int| 0 <= j < cubes@.len() implies cube_types_of(cubes@)[j] == (
        cube_types_of(before) + terrain(noise@))[j] by {
            if j >= before.len() {
                assert(cubes@[before.len() + (j - before.len())].cube_type == terrain(noise@)[j
                    - before.len()]);
            }
        }
        assert(cube_types_of(cubes@) =~= cube_types_of(before) + terrain(noise@));
    }

    /// The chunk's coordinate.
    pub fn position(&self) -> (position: ChunkCoord3D)
        ensures
            position == self.spec_position(),
            position.in_world(),
    {
        proof {
            use_type_invariant(self);
        }
        self.position
    }

    /// Whether the face of the voxel at `(x, y, z)` towards `facing` can be seen.
    fn is_face_open(
        &self,
        adjacent_chunks: &Vec<Option<Arc<Chunk>>>,
        x: usize,
        y: usize,
        z: usize,
        facing: Rotation,
    ) -> (open: bool)
        requires
            adjacent_chunks@.len() == 4,
            x < CHUNK_USIZE,
            y < CHUNK_USIZE,
            z < CHUNK_USIZE,
        ensures
            open == self.face_open(adjacent_chunks@, x as int, y as int, z as int, facing),
    {
        let last: usize = CHUNK_USIZE - 1;
        match facing {
            Rotation::LEFT => {
                if x > 0 {
                    self.voxel_at(x - 1, y, z) == CubeType::AIR
                } else {
                    match &adjacent_chunks[0] {
                        Some(c) => c.voxel_at(last, y, z) == CubeType::AIR,
                        None => false,
                    }
                }
            },
            Rotation::RIGHT => {
                if x < last {
                    self.voxel_at(x + 1, y, z) == CubeType::AIR
                } else {
                    match &adjacent_chunks[1] {
                        Some(c) => c.voxel_at(0, y, z) == CubeType::AIR,
                        None => false,
                    }
                }
            },
            Rotation::BACK => {
                if z > 0 {
                    self.voxel_at(x, y, z - 1) == CubeType::AIR
                } else {
                    match &adjacent_chunks[2] {
                        Some(c) => c.voxel_at(x, y, last) == CubeType::AIR,
                        None => false,
                    }
                }
            },
            Rotation::FRONT => {
                if z < last {
                    self.voxel_at(x, y, z + 1) == CubeType::AIR
                } else {
                    match &adjacent_chunks[3] {
                        Some(c) => c.voxel_at(x, y, 0) == CubeType::AIR,
                        None => false,
                    }
                }
            },
            Rotation::DOWN => {
                if y > 0 {
                    self.voxel_at(x, y - 1, z) == CubeType::AIR
                } else {
                    true
                }
            },
            Rotation::UP => {
                if y < last {
                    self.voxel_at(x, y + 1, z) == CubeType::AIR
                } else {
                    true
                }
            },
        }
    }

    /// Appends to `faces` the face of the solid voxel at `(x, y, z)` towards
    /// `facing`, if it can be seen.
    fn push_face(
        &self,
        faces: &mut Vec<Quad>,
        world_pos: Coord3DI,
        adjacent_chunks: &Vec<Option<Arc<Chunk>>>,
        x: usize,
        y: usize,
        z: usize,
        facing: Rotation,
    )
        requires
            adjacent_chunks@.len() == 4,
            x < CHUNK_USIZE,
            y < CHUNK_USIZE,
            z < CHUNK_USIZE,
            !self.air_at(x as int, y as int, z as int),
            voxels_fit(world_pos),
        ensures
            final(faces)@ == old(faces)@ + self.face(
                world_pos,
                adjacent_chunks@,
                x as int,
                y as int,
                z as int,
                facing,
            ),
    {
        if self.is_face_open(adjacent_chunks, x, y, z, facing) {
            let pos_x: i32 = x as i32 + world_pos.x;
            let pos_y: i32 = y as i32 + world_pos.y;
            let pos_z: i32 = z as i32 + world_pos.z;
            let texture: u32 = texture_index(self.voxel_at(x, y, z), facing);
            faces.push(Quad::new(Coord3DI::new(pos_x, pos_y, pos_z), facing, texture));
            assert(faces@ =~= old(faces)@ + seq![
                self.quad_at(world_pos, x as int, y as int, z as int, facing),
            ]);
        } else {
            assert(faces@ =~= old(faces)@ + Seq::<Quad>::empty());
        }
    }

    /// Appends to `faces` the faces of the voxel at `(x, y, z)` that can be seen.
    fn push_cube_faces(
        &self,
        faces: &mut Vec<Quad>,
        world_pos: Coord3DI,
        adjacent_chunks: &Vec<Option<Arc<Chunk>>>,
        x: usize,
        y: usize,
        z: usize,
    )
        requires
            adjacent_chunks@.len() == 4,
            x < CHUNK_USIZE,
            y < CHUNK_USIZE,
            z < CHUNK_USIZE,
            voxels_fit(world_pos),
        ensures
            final(faces)@ == old(faces)@ + self.cube_faces(
                world_pos,
                adjacent_chunks@,
                x as int,
                y as int,
                z as int,
            ),
    {
        if self.voxel_at(x, y, z) != CubeType::AIR {
            self.push_face(faces, world_pos, adjacent_chunks, x, y, z, Rotation::LEFT);
            self.push_face(faces, world_pos, adjacent_chunks, x, y, z, Rotation::RIGHT);
            self.push_face(faces, world_pos, adjacent_chunks, x, y, z, Rotation::BACK);
            self.push_face(faces, world_pos, adjacent_chunks, x, y, z, Rotation::FRONT);
            self.push_face(faces, world_pos, adjacent_chunks, x, y, z, Rotation::DOWN);
            self.push_face(faces, world_pos, adjacent_chunks, x, y, z, Rotation::UP);
        }
        assert(faces@ =~= old(faces)@ + self.cube_faces(
            world_pos,
            adjacent_chunks@,
            x as int,
            y as int,
            z as int,
        ));
    }

    /// Lists the faces of the chunk that can be seen, voxel after voxel in array
    /// order and, for each solid voxel, in the order of `face_order`.
    /// `world_pos` is the position of the chunk's first voxel;
    /// `adjacent_chunks` holds the chunks at `x - 1`, `x + 1`, `z - 1` and
    /// `z + 1`, in this order, each where it is resident.
    pub fn cull_unseen_triangles(
        &self,
        world_pos: Coord3DI,
        adjacent_chunks: &Vec<Option<Arc<Chunk>>>,
    ) -> (faces: Vec<Quad>)
        requires
            adjacent_chunks@.len() == 4,
            voxels_fit(world_pos),
        ensures
            faces@ == self.faces(world_pos, adjacent_chunks@),
    {
        let mut faces: Vec<Quad> = Vec::new();
        for y in 0..CHUNK_USIZE
            invariant
                adjacent_chunks@.len() == 4,
                voxels_fit(world_pos),
                faces@ == self.faces_before(world_pos, adjacent_chunks@, (1024 * y) as nat),
        {
            for z in 0..CHUNK_USIZE
                invariant
                    y < CHUNK_USIZE,
                    adjacent_chunks@.len() == 4,
                    voxels_fit(world_pos),
                    faces@ == self.faces_before(
                        world_pos,
                        adjacent_chunks@,
                        (32 * z + 1024 * y) as nat,
                    ),
            {
                for x in 0..CHUNK_USIZE
                    invariant
                        y < CHUNK_USIZE,
                        z < CHUNK_USIZE,
                        adjacent_chunks@.len() == 4,
                        voxels_fit(world_pos),
                        faces@ == self.faces_before(
                            world_pos,
                            adjacent_chunks@,
                            (x + 32 * z + 1024 * y) as nat,
                        ),
                {
                    proof {
                        lemma_cube_index_of_coordinates(x as int, y as int, z as int);
                    }
                    self.push_cube_faces(&mut faces, world_pos, adjacent_chunks, x, y, z);
                }
            }
        }
        faces
    }

    /// Builds the chunk's mesh: the faces that can be seen, given the adjacent
    /// chunks that are resident.
    pub fn create_mesh(&self, adjacent_chunks: &Vec<Option<Arc<Chunk>>>) -> (mesh: ChunkMesh)
        requires
            adjacent_chunks@.len() == 4,
        ensures
            mesh@ == self.faces(self.spec_position().world_position(), adjacent_chunks@),
    {
        let world_pos = self.position().to_world_position_i32();
        let faces = self.cull_unseen_triangles(world_pos, adjacent_chunks);
        ChunkMesh::new(faces)
    }

    /// The material of the voxel at `(x, y, z)`.
    pub fn voxel_at(&self, x: usize, y: usize, z: usize) -> (cube_type: CubeType)
        requires
            x < CHUNK_USIZE,
            y < CHUNK_USIZE,
            z < CHUNK_USIZE,
        ensures
            cube_type == self.cube_at(x as int, y as int, z as int),
    {
        proof {
            use_type_invariant(self);
        }
        self.cubes[x + 32 * z + 1024 * y].cube_type
    }
}

/// What is drawn for one chunk: one instance of the unit face for each face of
/// the chunk that can be seen. A mesh is built whole and replaced whole.
#[derive(Debug)]
pub struct ChunkMesh {
    instances: Vec<Quad>,
    instances_len: usize,
}

impl ChunkMesh {
    #[verifier::type_invariant]
    spec fn well_formed(self) -> bool {
        self.instances_len == self.instances@.len()
    }

    /// The faces of the mesh, in the order in which they were given.
    pub closed spec fn view(&self) -> Seq<Quad> {
        self.instances@
    }

    pub fn new(faces: Vec<Quad>) -> (mesh: Self)
        ensures
            mesh@ == faces@,
    {
        let instances_len = faces.len();
        Self { instances: faces, instances_len }
    }

    /// The faces of the mesh.
    pub fn instances(&self) -> (faces: &Vec<Quad>)
        ensures
            faces@ == self@,
    {
        &self.instances
    }

    /// The number of faces of the mesh.
    pub fn instances_len(&self) -> (len: usize)
        ensures
            len == self@.len(),
    {
        proof {
            use_type_invariant(self);
        }
        self.instances_len
    }
}

/// A voxel of a chunk built from a block of densities is solid exactly where
/// its density is below zero.
pub proof fn lemma_solid_iff_density_below_zero(
    chunk: Chunk,
    position: ChunkCoord3D,
    noise: Seq<DensityBits>,
    x: int,
    y: int,
    z: int,
)
    requires
        chunk.is_terrain_of(position, noise),
        0 <= x < CHUNK_USIZE,
        0 <= y < CHUNK_USIZE,
        0 <= z < CHUNK_USIZE,
    ensures
        chunk.cube_at(x, y, z).solid() <==> density_below_zero(noise[cube_index(x, y, z)]),
{
    lemma_cube_index_of_coordinates(x, y, z);
}

/// Building a chunk twice from the same coordinate and the same densities
/// gives the same voxels both times.
pub proof fn lemma_build_is_repeatable(
    first: Chunk,
    second: Chunk,
    position: ChunkCoord3D,
    noise: Seq<DensityBits>,
)
    requires
        first.is_terrain_of(position, noise),
        second.is_terrain_of(position, noise),
    ensures
        first.spec_position() == second.spec_position(),
        first.cube_types() == second.cube_types(),
{
}

} // verus!
