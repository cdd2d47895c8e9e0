use vstd::prelude::*;
use crate::coordinate::{ChunkCoord3D, Coord3DI};

verus! {

/// The viewer: the voxel it stands in, and the chunk that the world was last
/// arranged around.
pub struct Player {
    pos: Coord3DI,
    chunk: ChunkCoord3D,
}

impl Player {
    #[verifier::type_invariant]
    spec fn well_formed(self) -> bool {
        self.chunk.in_world()
    }

    /// The voxel that the viewer stands in.
    pub closed spec fn spec_pos(&self) -> Coord3DI {
        self.pos
    }

    /// The chunk that the viewer was last seen in.
    pub closed spec fn spec_chunk(&self) -> ChunkCoord3D {
        self.chunk
    }

    /// The viewer has left the chunk that it was last seen in.
    pub open spec fn in_new_chunk(&self) -> bool {
        self.spec_chunk() != self.spec_pos().chunk_coord()
    }

    /// A viewer at `pos`, last seen in the chunk that holds `pos`.
    pub fn new(pos: Coord3DI) -> (player: Self)
        ensures
            player.spec_pos() == pos,
            player.spec_chunk() == pos.chunk_coord(),
    {
        let chunk = pos.to_chunk_coord();
        Self { pos, chunk }
    }

    /// Moves the viewer to `pos`. The chunk it was last seen in stays.
    pub fn update_pos(&mut self, pos: Coord3DI)
        ensures
            final(self).spec_pos() == pos,
            final(self).spec_chunk() == old(self).spec_chunk(),
    {
        proof {
            use_type_invariant(&*self);
        }
        self.pos = pos;
    }

    /// Records the chunk that the viewer stands in as the one it was last seen in.
    pub fn update_chunk_pos(&mut self)
        ensures
            final(self).spec_pos() == old(self).spec_pos(),
            final(self).spec_chunk() == old(self).spec_pos().chunk_coord(),
            !final(self).in_new_chunk(),
    {
        self.chunk = self.pos.to_chunk_coord();
    }

    /// Whether the viewer has left the chunk that it was last seen in.
    pub fn is_in_new_chunk_pos(&self) -> (result: bool)
        ensures
            result == self.in_new_chunk(),
    {
        let result = self.chunk != self.pos.to_chunk_coord();
        result
    }

    /// The voxel that the viewer stands in.
    pub fn pos(&self) -> (pos: Coord3DI)
        ensures
            pos == self.spec_pos(),
    {
        self.pos
    }

    /// The chunk that the viewer was last seen in.
    pub fn chunk(&self) -> (chunk: ChunkCoord3D)
        ensures
            chunk == self.spec_chunk(),
            chunk.in_world(),
    {
        proof {
            use_type_invariant(self);
        }
        self.chunk
    }
}

} // verus!
