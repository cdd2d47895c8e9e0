use vstd::prelude::*;

verus! {

/// Edge length of a chunk, in voxels.
pub const CHUNK_USIZE: usize = 32;

/// Edge length of a chunk, in voxels, as a signed number.
pub const CHUNK_I32: i32 = 32;

/// Chunk coordinates run from `-CHUNK_COORD_LIMIT` up to, but not including,
/// `CHUNK_COORD_LIMIT`: exactly the chunks whose voxels have `i32` coordinates.
pub const CHUNK_COORD_LIMIT: i32 = 0x400_0000;

/// The chunk that holds voxel coordinate `v` along one axis: `v / 32`, rounded down.
pub open spec fn chunk_of(v: int) -> int {
    v / 32
}

/// A position in the world, in voxels.
#[derive(Clone, Copy, Debug, PartialEq, Eq, Structural)]
pub struct Coord3DI {
    pub x: i32,
    pub y: i32,
    pub z: i32,
}

impl Coord3DI {
    pub fn new(x: i32, y: i32, z: i32) -> (c: Self)
        ensures
            c.x == x,
            c.y == y,
            c.z == z,
    {
        Self { x, y, z }
    }

    /// The coordinate of the chunk that owns this voxel.
    pub open spec fn chunk_coord(self) -> ChunkCoord3D {
        ChunkCoord3D {
            x: chunk_of(self.x as int) as i32,
            y: chunk_of(self.y as int) as i32,
            z: chunk_of(self.z as int) as i32,
        }
    }

    /// The chunk that owns this voxel: each component divided by the chunk edge,
    /// rounded towards negative infinity.
    pub fn to_chunk_coord(&self) -> (c: ChunkCoord3D)
        ensures
            c == self.chunk_coord(),
            c.x == chunk_of(self.x as int),
            c.y == chunk_of(self.y as int),
            c.z == chunk_of(self.z as int),
            c.in_world(),
    {
        let sx: i32 = self.x;
        let sy: i32 = self.y;
        let sz: i32 = self.z;
        assert(sx >> 5 == sx / 32 && -0x400_0000 <= sx / 32 < 0x400_0000) by (bit_vector);
        assert(sy >> 5 == sy / 32 && -0x400_0000 <= sy / 32 < 0x400_0000) by (bit_vector);
        assert(sz >> 5 == sz / 32 && -0x400_0000 <= sz / 32 < 0x400_0000) by (bit_vector);
        let x: i32 = sx >> 5;
        let y: i32 = sy >> 5;
        let z: i32 = sz >> 5;
        ChunkCoord3D { x, y, z }
    }
}

/// The three components of a chunk coordinate, as the key under which the chunk is stored.
pub type ChunkKey = (i32, i32, i32);

/// A position in the world, in chunks.
#[derive(Clone, Copy, Debug, PartialEq, Eq, Structural, Hash)]
pub struct ChunkCoord3D {
    pub x: i32,
    pub y: i32,
    pub z: i32,
}

impl ChunkCoord3D {
    pub fn new(x: i32, y: i32, z: i32) -> (c: Self)
        ensures
            c.x == x,
            c.y == y,
            c.z == z,
    {
        Self { x, y, z }
    }

    /// All voxels of the chunk have coordinates that fit in `i32`.
    pub open spec fn in_world(self) -> bool {
        &&& -CHUNK_COORD_LIMIT <= self.x < CHUNK_COORD_LIMIT
        &&& -CHUNK_COORD_LIMIT <= self.y < CHUNK_COORD_LIMIT
        &&& -CHUNK_COORD_LIMIT <= self.z < CHUNK_COORD_LIMIT
    }

    pub open spec fn key(self) -> ChunkKey {
        (self.x, self.y, self.z)
    }

    /// The position of the chunk's first voxel, the one with the smallest coordinates.
    pub open spec fn world_position(self) -> Coord3DI
        recommends
            self.in_world(),
    {
        Coord3DI {
            x: (self.x * 32) as i32,
            y: (self.y * 32) as i32,
            z: (self.z * 32) as i32,
        }
    }

    /// Whether the chunk lies in the world, decided at run time.
    pub fn is_in_world(&self) -> (b: bool)
        ensures
            b == self.in_world(),
    {
        -CHUNK_COORD_LIMIT <= self.x && self.x < CHUNK_COORD_LIMIT && -CHUNK_COORD_LIMIT <= self.y
            && self.y < CHUNK_COORD_LIMIT && -CHUNK_COORD_LIMIT <= self.z && self.z
            < CHUNK_COORD_LIMIT
    }

    pub fn to_key(&self) -> (k: ChunkKey)
        ensures
            k == self.key(),
    {
        (self.x, self.y, self.z)
    }

    /// The position of the chunk's first voxel: each component times the chunk edge.
    pub fn to_world_position_i32(&self) -> (p: Coord3DI)
        requires
            self.in_world(),
        ensures
            p == self.world_position(),
            p.x == self.x * 32,
            p.y == self.y * 32,
            p.z == self.z * 32,
    {
        let x: i32 = self.x * CHUNK_I32;
        let y: i32 = self.y * CHUNK_I32;
        let z: i32 = self.z * CHUNK_I32;
        Coord3DI::new(x, y, z)
    }
}

/// A voxel at offset `(dx, dy, dz)` inside a chunk, each offset below the chunk
/// edge, belongs to that chunk.
pub proof fn lemma_voxel_in_own_chunk(c: ChunkCoord3D, dx: int, dy: int, dz: int)
    requires
        c.in_world(),
        0 <= dx < CHUNK_I32,
        0 <= dy < CHUNK_I32,
        0 <= dz < CHUNK_I32,
    ensures
        chunk_of(c.x * 32 + dx) == c.x,
        chunk_of(c.y * 32 + dy) == c.y,
        chunk_of(c.z * 32 + dz) == c.z,
        i32::MIN <= c.x * 32 + dx <= i32::MAX,
        i32::MIN <= c.y * 32 + dy <= i32::MAX,
        i32::MIN <= c.z * 32 + dz <= i32::MAX,
{
}

/// Going from a chunk to its first voxel and back gives the chunk again.
pub proof fn lemma_world_position_round_trip(c: ChunkCoord3D)
    requires
        c.in_world(),
    ensures
        c.world_position().chunk_coord() == c,
{
    lemma_voxel_in_own_chunk(c, 0, 0, 0);
}

} // verus!
