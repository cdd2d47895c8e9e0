use vstd::prelude::*;
use std::sync::Arc;
use crate::channel::send;
use crate::chunk::{Chunk, ChunkMesh, CHUNK_VOLUME};
use crate::coordinate::ChunkCoord3D;
use crate::density::DensityBits;

verus! {

/// The work of building one chunk that is not resident yet: its coordinate,
/// the adjacent chunks that were resident when the work was handed out, and
/// the way back for the result. It can be carried to another thread.
pub struct LoadJob {
    pos: ChunkCoord3D,
    adjacent_chunks: Vec<Option<Arc<Chunk>>>,
    sender: flume::Sender<(Arc<Chunk>, ChunkMesh)>,
}

impl LoadJob {
    #[verifier::type_invariant]
    spec fn well_formed(self) -> bool {
        &&& self.pos.in_world()
        &&& self.adjacent_chunks@.len() == 4
    }

    /// The coordinate of the chunk to build.
    pub closed spec fn spec_position(&self) -> ChunkCoord3D {
        self.pos
    }

    /// The adjacent chunks to mesh against.
    pub closed spec fn spec_adjacent(&self) -> Seq<Option<Arc<Chunk>>> {
        self.adjacent_chunks@
    }

    pub(crate) fn new(
        pos: ChunkCoord3D,
        adjacent_chunks: Vec<Option<Arc<Chunk>>>,
        sender: flume::Sender<(Arc<Chunk>, ChunkMesh)>,
    ) -> (job: Self)
        requires
            pos.in_world(),
            adjacent_chunks@.len() == 4,
        ensures
            job.spec_position() == pos,
            job.spec_adjacent() == adjacent_chunks@,
    {
        LoadJob { pos, adjacent_chunks, sender }
    }

    /// The coordinate of the chunk to build.
    pub fn position(&self) -> (pos: ChunkCoord3D)
        ensures
            pos == self.spec_position(),
            pos.in_world(),
    {
        proof {
            use_type_invariant(self);
        }
        self.pos
    }

    /// Builds the chunk from the densities of its voxels, and its mesh against
    /// the adjacent chunks of the job.
    pub fn build(&self, noise: &Vec<DensityBits>) -> (built: (Arc<Chunk>, ChunkMesh))
        requires
            noise@.len() >= CHUNK_VOLUME,
        ensures
            built.0.is_terrain_of(self.spec_position(), noise@),
            built.1@ == built.0.faces(
                self.spec_position().world_position(),
                self.spec_adjacent(),
            ),
    {
        proof {
            use_type_invariant(self);
        }
        let data = Arc::new(Chunk::new(self.pos, noise));
        let mesh = data.create_mesh(&self.adjacent_chunks);
        (data, mesh)
    }

    /// Builds the chunk and its mesh and hands both back to the generator that
    /// made the job. Says whether that generator was still there to take them.
    pub fn run(self, noise: &Vec<DensityBits>) -> (delivered: bool)
        requires
            noise@.len() >= CHUNK_VOLUME,
    {
        let built = self.build(noise);
        send(&self.sender, built)
    }
}

/// The work of meshing a resident chunk again, after an adjacent chunk has
/// arrived: the chunk, the adjacent chunks that were resident when the work
/// was handed out, and the way back for the result.
pub struct RebuildJob {
    pos: ChunkCoord3D,
    data: Arc<Chunk>,
    adjacent_chunks: Vec<Option<Arc<Chunk>>>,
    sender: flume::Sender<(ChunkCoord3D, ChunkMesh)>,
}

impl RebuildJob {
    #[verifier::type_invariant]
    spec fn well_formed(self) -> bool {
        self.adjacent_chunks@.len() == 4
    }

    /// The coordinate under which the chunk is resident.
    pub closed spec fn spec_position(&self) -> ChunkCoord3D {
        self.pos
    }

    /// The chunk to mesh.
    pub closed spec fn spec_data(&self) -> Arc<Chunk> {
        self.data
    }

    /// The adjacent chunks to mesh against.
    pub closed spec fn spec_adjacent(&self) -> Seq<Option<Arc<Chunk>>> {
        self.adjacent_chunks@
    }

    pub(crate) fn new(
        pos: ChunkCoord3D,
        data: Arc<Chunk>,
        adjacent_chunks: Vec<Option<Arc<Chunk>>>,
        sender: flume::Sender<(ChunkCoord3D, ChunkMesh)>,
    ) -> (job: Self)
        requires
            adjacent_chunks@.len() == 4,
        ensures
            job.spec_position() == pos,
            job.spec_data() == data,
            job.spec_adjacent() == adjacent_chunks@,
    {
        RebuildJob { pos, data, adjacent_chunks, sender }
    }

    /// The coordinate under which the chunk is resident.
    pub fn position(&self) -> (pos: ChunkCoord3D)
        ensures
            pos == self.spec_position(),
    {
        self.pos
    }

    /// Builds the mesh of the chunk against the adjacent chunks of the job.
    pub fn build(&self) -> (mesh: ChunkMesh)
        ensures
            mesh@ == self.spec_data().faces(
                self.spec_data().spec_position().world_position(),
                self.spec_adjacent(),
            ),
    {
        proof {
            use_type_invariant(self);
        }
        self.data.create_mesh(&self.adjacent_chunks)
    }

    /// Builds the mesh and hands it back to the generator that made the job.
    /// Says whether that generator was still there to take it.
    pub fn run(self) -> (delivered: bool) {
        let mesh = self.build();
        send(&self.sender, (self.pos, mesh))
    }
}

/// What one tick hands out to be worked on elsewhere.
pub struct Dispatch {
    pub load: Option<LoadJob>,
    pub rebuild: Option<RebuildJob>,
}

} // verus!
