use vstd::prelude::*;
use std::sync::Arc;
use crate::adjacency::{look_beside, neighbours, resident_beside, resident_neighbours};
use crate::channel::{clone_sender, try_receive, unbounded};
use crate::chunk::{Chunk, ChunkMesh};
use crate::chunk_map::key_in_box;
use crate::coord_list::{contains_coord, lemma_push_contains, lemma_without, remove_coord, without};
use crate::coordinate::{ChunkCoord3D, CHUNK_COORD_LIMIT};
use crate::job::{Dispatch, LoadJob, RebuildJob};
use crate::load_order::{column, column_in_world, load_order, ring};
use crate::player::Player;
use crate::world::{World, RENDER_DISTANCE};

verus! {

/// The load queue after the column `p` was offered to it: the column's chunk
/// is put at the end if it lies in the world and is neither resident, nor
/// queued, nor being built.
pub open spec fn offer(
    queue: Seq<ChunkCoord3D>,
    world: &World,
    in_process: Seq<ChunkCoord3D>,
    p: (int, int),
) -> Seq<ChunkCoord3D> {
    if column_in_world(p) && !world.is_resident(column(p)) && !queue.contains(column(p))
        && !in_process.contains(column(p)) {
        queue.push(column(p))
    } else {
        queue
    }
}

/// The load queue after the columns of `order` were offered to it one after another.
pub open spec fn offer_all(
    queue: Seq<ChunkCoord3D>,
    world: &World,
    in_process: Seq<ChunkCoord3D>,
    order: Seq<(int, int)>,
) -> Seq<ChunkCoord3D>
    decreases order.len(),
{
    if order.len() == 0 {
        queue
    } else {
        offer(offer_all(queue, world, in_process, order.drop_last()), world, in_process, order.last())
    }
}

/// Offering the first `n + 1` columns of a list is offering the first `n` and
/// then the next one.
pub proof fn lemma_offer_next(
    queue: Seq<ChunkCoord3D>,
    world: &World,
    in_process: Seq<ChunkCoord3D>,
    order: Seq<(int, int)>,
    n: int,
)
    requires
        0 <= n < order.len(),
    ensures
        offer_all(queue, world, in_process, order.take(n + 1)) == offer(
            offer_all(queue, world, in_process, order.take(n)),
            world,
            in_process,
            order[n],
        ),
{
    assert(order.take(n + 1).drop_last() =~= order.take(n));
}

/// Offering two lists of columns one after the other is offering the one
/// list made of both.
pub proof fn lemma_offer_all_add(
    queue: Seq<ChunkCoord3D>,
    world: &World,
    in_process: Seq<ChunkCoord3D>,
    first: Seq<(int, int)>,
    second: Seq<(int, int)>,
)
    ensures
        offer_all(queue, world, in_process, first + second) == offer_all(
            offer_all(queue, world, in_process, first),
            world,
            in_process,
            second,
        ),
    decreases second.len(),
{
    if second.len() == 0 {
        assert(first + second =~= first);
    } else {
        assert((first + second).drop_last() =~= first + second.drop_last());
        lemma_offer_all_add(queue, world, in_process, first, second.drop_last());
    }
}

/// Whether a chunk that has arrived is taken in: it is, if it was being built.
pub open spec fn takes(
    in_process: Seq<ChunkCoord3D>,
    data: Option<(Arc<Chunk>, ChunkMesh)>,
) -> bool {
    match data {
        Some(d) => in_process.contains(d.0.spec_position()),
        None => false,
    }
}

/// What becomes of the generator and the world when `data` and `mesh` are
/// what the workers have sent back, each if there is one.
///
/// A chunk with its mesh that was being built becomes resident with that mesh
/// and is no longer being built, and the resident chunks beside it are queued
/// for a new mesh; one that was not being built is dropped. After that, a new
/// mesh of a chunk replaces the mesh of that chunk if the chunk is resident,
/// and is dropped otherwise. Nothing else changes.
pub open spec fn took_in(
    before: ChunkGenerator,
    world_before: World,
    after: ChunkGenerator,
    world_after: World,
    data: Option<(Arc<Chunk>, ChunkMesh)>,
    mesh: Option<(ChunkCoord3D, ChunkMesh)>,
) -> bool {
    let taken = takes(before.in_process(), data);
    let chunk = (data->0).0;
    let pos = chunk.spec_position();
    let fed = if taken {
        world_before.meshes().insert(pos.key(), (data->0).1)
    } else {
        world_before.meshes()
    };
    &&& after.load_queue() == before.load_queue()
    &&& after.spec_render_distance() == before.spec_render_distance()
    &&& after.spec_started() == before.spec_started()
    &&& after.spec_stalled() == before.spec_stalled()
    &&& after.in_process() == if taken {
        without(before.in_process(), pos)
    } else {
        before.in_process()
    }
    &&& world_after.chunks() == if taken {
        world_before.chunks().insert(pos.key(), chunk)
    } else {
        world_before.chunks()
    }
    &&& after.rebuild_queue() == if taken {
        before.rebuild_queue() + resident_neighbours(&world_after, pos)
    } else {
        before.rebuild_queue()
    }
    &&& world_after.meshes() == match mesh {
        Some(m) => if world_after.chunks().contains_key(m.0.key()) {
            fed.insert(m.0.key(), m.1)
        } else {
            fed
        },
        None => fed,
    }
}

/// The generator and the world have changed as `took_in` says, for what the
/// workers had sent back, and `arrived` tells whether a chunk was taken in.
pub open spec fn took_in_what_arrived(
    before: ChunkGenerator,
    world_before: World,
    after: ChunkGenerator,
    world_after: World,
    arrived: bool,
) -> bool {
    exists|data: Option<(Arc<Chunk>, ChunkMesh)>, mesh: Option<(ChunkCoord3D, ChunkMesh)>|
        arrived == takes(before.in_process(), data) && #[trigger] took_in(
            before,
            world_before,
            after,
            world_after,
            data,
            mesh,
        )
}

/// For how many ticks in a row chunks may be being built without any of them
/// arriving, before they are given up.
pub const IN_PROCESS_DEADLINE: u32 = 600;

/// How many chunks may be being built at once. While so many are, no further
/// chunk is handed out.
pub const MAX_IN_PROCESS: usize = 64;

/// Keeps track of which chunks are wanted, which are being built and which
/// have to be meshed again, hands the work out and takes the results in.
pub struct ChunkGenerator {
    data_sender: flume::Sender<(Arc<Chunk>, ChunkMesh)>,
    data_receiver: flume::Receiver<(Arc<Chunk>, ChunkMesh)>,
    mesh_sender: flume::Sender<(ChunkCoord3D, ChunkMesh)>,
    mesh_receiver: flume::Receiver<(ChunkCoord3D, ChunkMesh)>,
    // Chunks that are wanted and not handed out yet, nearest first.
    chunk_load_queue: Vec<ChunkCoord3D>,
    // Resident chunks that wait to be meshed again.
    chunk_rebuild_queue: Vec<ChunkCoord3D>,
    // Chunks that are being built.
    data_in_process: Vec<ChunkCoord3D>,
    render_distance: i32,
    // Whether the wanted chunks have been worked out since the last time
    // they had to be.
    started: bool,
    // Ticks in a row in which chunks were being built and none arrived.
    stalled: u32,
}

impl ChunkGenerator {
    /// The chunks that are wanted and not handed out yet, in the order in
    /// which they will be handed out.
    pub closed spec fn load_queue(&self) -> Seq<ChunkCoord3D> {
        self.chunk_load_queue@
    }

    /// The resident chunks that wait to be meshed again.
    pub closed spec fn rebuild_queue(&self) -> Seq<ChunkCoord3D> {
        self.chunk_rebuild_queue@
    }

    /// The chunks that are being built.
    pub closed spec fn in_process(&self) -> Seq<ChunkCoord3D> {
        self.data_in_process@
    }

    /// How far around the viewer chunks are wanted.
    pub closed spec fn spec_render_distance(&self) -> i32 {
        self.render_distance
    }

    /// Whether the wanted chunks have been worked out, and need not be worked
    /// out again until the viewer leaves its chunk.
    pub closed spec fn spec_started(&self) -> bool {
        self.started
    }

    /// The number of ticks in a row, up to now, in which chunks were being
    /// built and none arrived.
    pub closed spec fn spec_stalled(&self) -> u32 {
        self.stalled
    }

    /// Every chunk in the load queue lies in the world, and no more than
    /// `MAX_IN_PROCESS` chunks are being built.
    pub open spec fn wf(&self) -> bool {
        &&& forall|i: int|
            0 <= i < self.load_queue().len() ==> (#[trigger] self.load_queue()[i]).in_world()
        &&& self.in_process().len() <= MAX_IN_PROCESS
    }

    /// A chunk can be handed out: the load queue is not empty, and fewer than
    /// `MAX_IN_PROCESS` chunks are being built.
    pub open spec fn can_hand_out(queue: Seq<ChunkCoord3D>, in_process: Seq<ChunkCoord3D>) -> bool {
        queue.len() > 0 && in_process.len() < MAX_IN_PROCESS
    }

    /// No chunk is in two of these at once: the load queue, the chunks being
    /// built, the resident chunks. Nor is one twice in the load queue or twice
    /// among the chunks being built.
    pub open spec fn in_step_with(&self, world: &World) -> bool {
        &&& self.load_queue().no_duplicates()
        &&& self.in_process().no_duplicates()
        &&& forall|c: ChunkCoord3D| #[trigger]
            self.load_queue().contains(c) ==> !self.in_process().contains(c) && !world.is_resident(
                c,
            )
        &&& forall|c: ChunkCoord3D| #[trigger]
            self.in_process().contains(c) ==> !world.is_resident(c)
    }

    /// The chunk at `pos` is resident, waits in the load queue or is being built.
    pub open spec fn loaded(&self, world: &World, pos: ChunkCoord3D) -> bool {
        world.is_resident(pos) || self.load_queue().contains(pos) || self.in_process().contains(pos)
    }

    /// The load queue as it is once the wanted chunks were worked out for a
    /// tick: worked out anew if the viewer has left the chunk it was last seen
    /// in or if this was never done, else as it was.
    pub open spec fn planned_queue(&self, world: &World, player: &Player) -> Seq<ChunkCoord3D> {
        if !self.spec_started() || player.in_new_chunk() {
            offer_all(
                Seq::empty(),
                world,
                self.in_process(),
                load_order(player.spec_pos().chunk_coord(), self.spec_render_distance() as int),
            )
        } else {
            self.load_queue()
        }
    }

    /// The number of ticks in a row spent waiting, once a tick has passed in
    /// which a chunk arrived or none did.
    pub open spec fn waited(&self, arrived: bool) -> u32 {
        if arrived || self.in_process().len() == 0 {
            0
        } else if self.spec_stalled() < IN_PROCESS_DEADLINE {
            (self.spec_stalled() + 1) as u32
        } else {
            self.spec_stalled()
        }
    }

    /// The chunks being built are given up after this tick: the deadline is reached.
    pub open spec fn gives_up(&self, arrived: bool) -> bool {
        self.waited(arrived) >= IN_PROCESS_DEADLINE
    }

    /// A generator for the usual render distance, with nothing wanted yet.
    pub fn new() -> (generator: Self)
        ensures
            generator.wf(),
            generator.load_queue().len() == 0,
            generator.rebuild_queue().len() == 0,
            generator.in_process().len() == 0,
            generator.spec_render_distance() == RENDER_DISTANCE,
            !generator.spec_started(),
            generator.spec_stalled() == 0,
    {
        Self::with_render_distance(RENDER_DISTANCE)
    }

    /// A generator for the given render distance, with nothing wanted yet.
    pub fn with_render_distance(render_distance: i32) -> (generator: Self)
        ensures
            generator.wf(),
            generator.load_queue().len() == 0,
            generator.rebuild_queue().len() == 0,
            generator.in_process().len() == 0,
            generator.spec_render_distance() == render_distance,
            !generator.spec_started(),
            generator.spec_stalled() == 0,
    {
        let (data_sender, data_receiver) = unbounded();
        let (mesh_sender, mesh_receiver) = unbounded();
        let chunk_load_queue = Vec::new();
        let chunk_rebuild_queue = Vec::new();
        let data_in_process = Vec::new();
        Self {
            data_sender,
            data_receiver,
            mesh_sender,
            mesh_receiver,
            chunk_load_queue,
            chunk_rebuild_queue,
            data_in_process,
            render_distance,
            started: false,
            stalled: 0,
        }
    }

    /// How far around the viewer chunks are wanted.
    pub fn render_distance(&self) -> (distance: i32)
        ensures
            distance == self.spec_render_distance(),
    {
        self.render_distance
    }

    /// The number of chunks that wait in the load queue.
    pub fn chunks_in_queue(&self) -> (count: usize)
        ensures
            count == self.load_queue().len(),
    {
        self.chunk_load_queue.len()
    }

    /// The number of chunks that are being built.
    pub fn chunks_in_process(&self) -> (count: usize)
        ensures
            count == self.in_process().len(),
    {
        self.data_in_process.len()
    }

    /// The number of chunks that wait to be meshed again.
    pub fn chunks_to_rebuild(&self) -> (count: usize)
        ensures
            count == self.rebuild_queue().len(),
    {
        self.chunk_rebuild_queue.len()
    }

    /// Whether the chunk at `pos` is resident, waits in the load queue or is
    /// being built.
    pub fn is_chunk_loaded(&self, world: &World, pos: &ChunkCoord3D) -> (loaded: bool)
        ensures
            loaded == self.loaded(world, *pos),
    {
        if !world.contains(*pos) {
            if !contains_coord(&self.chunk_load_queue, *pos) {
                if !contains_coord(&self.data_in_process, *pos) {
                    return false;
                }
            }
        }
        return true;
    }

    /// The chunks that are resident beside `pos`: at `x - 1`, `x + 1`, `z - 1`
    /// and `z + 1`, in this order, each where there is one.
    pub fn adjacent_chunks(&self, pos: ChunkCoord3D, world: &World) -> (adjacent: Vec<
        Option<Arc<Chunk>>,
    >)
        ensures
            adjacent@ == neighbours(world, pos),
    {
        let mut adjacent_chunks = Vec::new();
        adjacent_chunks.push(look_beside(world, pos, -1, 0));
        adjacent_chunks.push(look_beside(world, pos, 1, 0));
        adjacent_chunks.push(look_beside(world, pos, 0, -1));
        adjacent_chunks.push(look_beside(world, pos, 0, 1));
        assert(adjacent_chunks@ =~= neighbours(world, pos));
        adjacent_chunks
    }

    /// Queues the coordinate `dx` and `dz` chunks from `pos` for a new mesh,
    /// if a chunk is resident there.
    fn rebuild_beside(&mut self, world: &World, pos: ChunkCoord3D, dx: i32, dz: i32)
        requires
            -1 <= dx <= 1,
            -1 <= dz <= 1,
        ensures
            final(self).rebuild_queue() == old(self).rebuild_queue() + resident_beside(
                world,
                pos,
                dx as int,
                dz as int,
            ),
            final(self).load_queue() == old(self).load_queue(),
            final(self).in_process() == old(self).in_process(),
            final(self).spec_render_distance() == old(self).spec_render_distance(),
            final(self).spec_started() == old(self).spec_started(),
            final(self).spec_stalled() == old(self).spec_stalled(),
    {
        if look_beside(world, pos, dx, dz).is_some() {
            self.chunk_rebuild_queue.push(ChunkCoord3D::new(pos.x + dx, pos.y, pos.z + dz));
            assert(self.chunk_rebuild_queue@ =~= old(self).chunk_rebuild_queue@ + resident_beside(
                world,
                pos,
                dx as int,
                dz as int,
            ));
        } else {
            assert(self.chunk_rebuild_queue@ =~= old(self).chunk_rebuild_queue@ + resident_beside(
                world,
                pos,
                dx as int,
                dz as int,
            ));
        }
    }

    /// Queues the resident chunks beside `pos` for a new mesh, so that the
    /// faces they share with the chunk at `pos` are culled against it.
    pub fn rebuild_adjacent_chunks(&mut self, world: &World, pos: &ChunkCoord3D)
        ensures
            final(self).rebuild_queue() == old(self).rebuild_queue() + resident_neighbours(
                world,
                *pos,
            ),
            final(self).load_queue() == old(self).load_queue(),
            final(self).in_process() == old(self).in_process(),
            final(self).spec_render_distance() == old(self).spec_render_distance(),
            final(self).spec_started() == old(self).spec_started(),
            final(self).spec_stalled() == old(self).spec_stalled(),
    {
        self.rebuild_beside(world, *pos, 1, 0);
        self.rebuild_beside(world, *pos, -1, 0);
        self.rebuild_beside(world, *pos, 0, 1);
        self.rebuild_beside(world, *pos, 0, -1);
        assert(self.chunk_rebuild_queue@ =~= old(self).chunk_rebuild_queue@ + resident_neighbours(
            world,
            *pos,
        ));
    }

    /// Puts the chunk at `pos` at the end of the load queue, unless it is
    /// resident, queued or being built already.
    pub fn enqueue_data(&mut self, world: &World, pos: ChunkCoord3D)
        requires
            pos.in_world(),
            old(self).wf(),
        ensures
            final(self).wf(),
            final(self).load_queue() == if old(self).loaded(world, pos) {
                old(self).load_queue()
            } else {
                old(self).load_queue().push(pos)
            },
            final(self).rebuild_queue() == old(self).rebuild_queue(),
            final(self).in_process() == old(self).in_process(),
            final(self).spec_render_distance() == old(self).spec_render_distance(),
            final(self).spec_started() == old(self).spec_started(),
            final(self).spec_stalled() == old(self).spec_stalled(),
            old(self).in_step_with(world) ==> final(self).in_step_with(world),
    {
        if !self.is_chunk_loaded(world, &pos) {
            self.chunk_load_queue.push(pos);
            proof {
                lemma_push_contains(old(self).load_queue(), pos);
                assert forall|c: ChunkCoord3D| #[trigger]
                    self.load_queue().contains(c) implies old(self).load_queue().contains(c) || c
                    == pos by {}
            }
        }
    }

    /// Offers the column at `x`, `z` to the load queue.
    fn offer_column(&mut self, world: &World, x: i64, z: i64)
        requires
            old(self).wf(),
        ensures
            final(self).wf(),
            final(self).load_queue() == offer(
                old(self).load_queue(),
                world,
                old(self).in_process(),
                (x as int, z as int),
            ),
            final(self).rebuild_queue() == old(self).rebuild_queue(),
            final(self).in_process() == old(self).in_process(),
            final(self).spec_render_distance() == old(self).spec_render_distance(),
            final(self).spec_started() == old(self).spec_started(),
            final(self).spec_stalled() == old(self).spec_stalled(),
            old(self).in_step_with(world) ==> final(self).in_step_with(world),
    {
        let limit: i64 = CHUNK_COORD_LIMIT as i64;
        if -limit <= x && x < limit && -limit <= z && z < limit {
            self.enqueue_data(world, ChunkCoord3D::new(x as i32, 0, z as i32));
        }
    }

    /// Offers the columns of the ring at distance `radius` around `center` to
    /// the load queue, in the order of the ring.
    fn enqueue_ring(&mut self, world: &World, center: ChunkCoord3D, radius: i32)
        requires
            radius >= 1,
            old(self).wf(),
        ensures
            final(self).wf(),
            final(self).load_queue() == offer_all(
                old(self).load_queue(),
                world,
                old(self).in_process(),
                ring(center, radius as int),
            ),
            final(self).rebuild_queue() == old(self).rebuild_queue(),
            final(self).in_process() == old(self).in_process(),
            final(self).spec_render_distance() == old(self).spec_render_distance(),
            final(self).spec_started() == old(self).spec_started(),
            final(self).spec_stalled() == old(self).spec_stalled(),
            old(self).in_step_with(world) ==> final(self).in_step_with(world),
    {
        let r: i64 = radius as i64;
        let cx: i64 = center.x as i64;
        let cz: i64 = center.z as i64;
        let ghost order = ring(center, radius as int);
        let ghost start = self.load_queue();
        let ghost busy = self.in_process();
        assert(order.take(0) =~= Seq::<(int, int)>::empty());
        let mut z: i64 = -r;
        while z <= r
            invariant
                r == radius,
                r >= 1,
                cx == center.x,
                cz == center.z,
                order == ring(center, radius as int),
                -r <= z <= r + 1,
                self.wf(),
                self.load_queue() == offer_all(start, world, busy, order.take(2 * (z + r))),
                self.rebuild_queue() == old(self).rebuild_queue(),
                self.in_process() == busy,
                busy == old(self).in_process(),
                self.spec_render_distance() == old(self).spec_render_distance(),
                self.spec_started() == old(self).spec_started(),
                self.spec_stalled() == old(self).spec_stalled(),
                old(self).in_step_with(world) ==> self.in_step_with(world),
            decreases r + 1 - z,
        {
            proof {
                let n = 2 * (z + r);
                lemma_offer_next(start, world, busy, order, n);
                lemma_offer_next(start, world, busy, order, n + 1);
                assert(order[n] == (cx + r, cz + z));
                assert(order[n + 1] == (cx - r, cz + z));
            }
            self.offer_column(world, cx + r, cz + z);
            self.offer_column(world, cx - r, cz + z);
            z += 1;
        }
        let mut x: i64 = -r + 1;
        while x < r
            invariant
                r == radius,
                r >= 1,
                cx == center.x,
                cz == center.z,
                order == ring(center, radius as int),
                -r + 1 <= x <= r,
                self.wf(),
                self.load_queue() == offer_all(
                    start,
                    world,
                    busy,
                    order.take(2 * (2 * r + 1) + 2 * (x + r - 1)),
                ),
                self.rebuild_queue() == old(self).rebuild_queue(),
                self.in_process() == busy,
                busy == old(self).in_process(),
                self.spec_render_distance() == old(self).spec_render_distance(),
                self.spec_started() == old(self).spec_started(),
                self.spec_stalled() == old(self).spec_stalled(),
                old(self).in_step_with(world) ==> self.in_step_with(world),
            decreases r - x,
        {
            proof {
                let n = 2 * (2 * r + 1) + 2 * (x + r - 1);
                lemma_offer_next(start, world, busy, order, n);
                lemma_offer_next(start, world, busy, order, n + 1);
                assert(order[n] == (cx + x, cz + r));
                assert(order[n + 1] == (cx + x, cz - r));
            }
            self.offer_column(world, cx + x, cz + r);
            self.offer_column(world, cx + x, cz - r);
            x += 1;
        }
        assert(order.take(8 * r as int) =~= order);
    }

    /// Works out anew which chunks are wanted, if the viewer has left the
    /// chunk that it was last seen in, or if this was never done before. The
    /// load queue then holds, nearest first, the chunks of the ground layer
    /// within the render distance of the viewer's chunk that lie in the world
    /// and are neither resident nor being built; the viewer's chunk becomes the
    /// one it was last seen in. Otherwise nothing changes.
    pub fn load_primary_chunks(&mut self, world: &World, player: &mut Player)
        requires
            old(self).wf(),
        ensures
            final(self).wf(),
            final(player).spec_pos() == old(player).spec_pos(),
            final(self).rebuild_queue() == old(self).rebuild_queue(),
            final(self).in_process() == old(self).in_process(),
            final(self).spec_render_distance() == old(self).spec_render_distance(),
            final(self).spec_stalled() == old(self).spec_stalled(),
            !old(self).spec_started() || old(player).in_new_chunk() ==> {
                &&& final(player).spec_chunk() == old(player).spec_pos().chunk_coord()
                &&& final(self).spec_started()
                &&& final(self).load_queue() == offer_all(
                    Seq::empty(),
                    world,
                    old(self).in_process(),
                    load_order(final(player).spec_chunk(), old(self).spec_render_distance() as int),
                )
            },
            old(self).spec_started() && !old(player).in_new_chunk() ==> {
                &&& final(player).spec_chunk() == old(player).spec_chunk()
                &&& final(self).spec_started()
                &&& final(self).load_queue() == old(self).load_queue()
            },
            old(self).in_step_with(world) ==> final(self).in_step_with(world),
    {
        if !self.started || player.is_in_new_chunk_pos() {
            player.update_chunk_pos();
            self.started = true;
            let center = player.chunk();
            self.chunk_load_queue.clear();
            let ghost busy = self.in_process();
            let ghost none = Seq::<ChunkCoord3D>::empty();
            if self.render_distance >= 0 {
                self.offer_column(world, center.x as i64, center.z as i64);
                proof {
                    let first = ring(center, 0);
                    assert(first.drop_last() =~= Seq::<(int, int)>::empty());
                    assert(first.last() == (center.x as int, center.z as int));
                    assert(load_order(center, 0) == first);
                    assert(offer_all(none, world, busy, first.drop_last()) == none);
                    assert(offer_all(none, world, busy, first) == offer(
                        none,
                        world,
                        busy,
                        first.last(),
                    ));
                }
                let mut done: i32 = 0;
                while done < self.render_distance
                    invariant
                        0 <= done <= self.render_distance,
                        self.wf(),
                        self.load_queue() == offer_all(
                            none,
                            world,
                            busy,
                            load_order(center, done as int),
                        ),
                        none == Seq::<ChunkCoord3D>::empty(),
                        self.rebuild_queue() == old(self).rebuild_queue(),
                        self.in_process() == busy,
                        busy == old(self).in_process(),
                        self.spec_render_distance() == old(self).spec_render_distance(),
                        self.spec_stalled() == old(self).spec_stalled(),
                        self.spec_started(),
                        old(self).in_step_with(world) ==> self.in_step_with(world),
                    decreases self.render_distance - done,
                {
                    done += 1;
                    proof {
                        lemma_offer_all_add(
                            none,
                            world,
                            busy,
                            load_order(center, done - 1),
                            ring(center, done as int),
                        );
                    }
                    self.enqueue_ring(world, center, done);
                }
            }
        }
    }

    /// Hands out the first chunk of the load queue, if there is one and fewer
    /// than `MAX_IN_PROCESS` chunks are being built: the chunk leaves the
    /// queue, counts as being built from now on, and the job holds the
    /// adjacent chunks that are resident at this moment.
    pub fn process_chunk_loading_queue(&mut self, world: &World) -> (job: Option<LoadJob>)
        requires
            old(self).wf(),
        ensures
            final(self).wf(),
            final(self).rebuild_queue() == old(self).rebuild_queue(),
            final(self).spec_render_distance() == old(self).spec_render_distance(),
            final(self).spec_started() == old(self).spec_started(),
            final(self).spec_stalled() == old(self).spec_stalled(),
            !Self::can_hand_out(old(self).load_queue(), old(self).in_process()) ==> {
                &&& job is None
                &&& final(self).load_queue() == old(self).load_queue()
                &&& final(self).in_process() == old(self).in_process()
            },
            Self::can_hand_out(old(self).load_queue(), old(self).in_process()) ==> {
                &&& job matches Some(j) && j.spec_position() == old(self).load_queue()[0]
                    && j.spec_adjacent() == neighbours(world, old(self).load_queue()[0])
                &&& final(self).load_queue() == old(self).load_queue().drop_first()
                &&& final(self).in_process() == old(self).in_process().push(
                    old(self).load_queue()[0],
                )
            },
            old(self).in_step_with(world) ==> final(self).in_step_with(world),
    {
        if !self.chunk_load_queue.is_empty() && self.data_in_process.len() < MAX_IN_PROCESS {
            let pos = self.chunk_load_queue.remove(0);
            let adjacent_chunks = self.adjacent_chunks(pos, world);
            let sender = clone_sender(&self.data_sender);
            self.data_in_process.push(pos);
            proof {
                let queue = old(self).load_queue();
                assert(queue.remove(0) =~= queue.drop_first());
                assert(queue[0] == pos);
                lemma_push_contains(old(self).in_process(), pos);
                assert forall|i: int| 0 <= i < self.load_queue().len() implies (
                #[trigger] self.load_queue()[i]).in_world() by {
                    assert(queue[i + 1].in_world());
                }
                if old(self).in_step_with(world) {
                    assert(queue.contains(pos));
                    assert forall|c: ChunkCoord3D| #[trigger]
                        queue.drop_first().contains(c) implies queue.contains(c) && c != pos by {
                        let i = choose|i: int|
                            0 <= i < queue.drop_first().len() && queue.drop_first()[i] == c;
                        assert(queue[i + 1] == c);
                    }
                    assert forall|i: int, j: int|
                        0 <= i < j < queue.drop_first().len() implies queue.drop_first()[i]
                        != queue.drop_first()[j] by {
                        assert(queue[i + 1] != queue[j + 1]);
                    }
                    assert(self.load_queue().no_duplicates());
                    assert(self.in_process().no_duplicates());
                    assert forall|c: ChunkCoord3D| #[trigger]
                        self.load_queue().contains(c) implies !self.in_process().contains(c)
                        && !world.is_resident(c) by {
                        assert(queue.contains(c));
                    }
                    assert forall|c: ChunkCoord3D| #[trigger]
                        self.in_process().contains(c) implies !world.is_resident(c) by {
                        assert(old(self).in_process().contains(c) || c == pos);
                    }
                }
            }
            Some(LoadJob::new(pos, adjacent_chunks, sender))
        } else {
            None
        }
    }

    /// Hands out the first chunk of the rebuild queue for a new mesh, if there
    /// is one and the load queue is empty: loading goes first. The chunk leaves
    /// the rebuild queue. If it is no longer resident, no job is made for it.
    pub fn process_rebuild_queue(&mut self, world: &World) -> (job: Option<RebuildJob>)
        ensures
            final(self).load_queue() == old(self).load_queue(),
            final(self).in_process() == old(self).in_process(),
            final(self).spec_render_distance() == old(self).spec_render_distance(),
            final(self).spec_started() == old(self).spec_started(),
            final(self).spec_stalled() == old(self).spec_stalled(),
            old(self).load_queue().len() > 0 || old(self).rebuild_queue().len() == 0 ==> {
                &&& job is None
                &&& final(self).rebuild_queue() == old(self).rebuild_queue()
            },
            old(self).load_queue().len() == 0 && old(self).rebuild_queue().len() > 0 ==> {
                &&& final(self).rebuild_queue() == old(self).rebuild_queue().drop_first()
                &&& job.is_some() == world.is_resident(old(self).rebuild_queue()[0])
                &&& job matches Some(j) ==> {
                    &&& j.spec_position() == old(self).rebuild_queue()[0]
                    &&& j.spec_data() == world.chunks()[old(self).rebuild_queue()[0].key()]
                    &&& j.spec_adjacent() == neighbours(world, old(self).rebuild_queue()[0])
                }
            },
    {
        // Only rebuild when the load queue is empty.
        if self.chunk_load_queue.is_empty() {
            if !self.chunk_rebuild_queue.is_empty() {
                let pos = self.chunk_rebuild_queue.remove(0);
                assert(old(self).rebuild_queue().remove(0) =~= old(self).rebuild_queue().drop_first());
                // Only rebuild if the chunk queued for rebuild still exists.
                if let Some(d) = world.get(pos) {
                    let adjacent_chunks = self.adjacent_chunks(pos, world);
                    let data = d.clone();
                    let sender = clone_sender(&self.mesh_sender);
                    return Some(RebuildJob::new(pos, data, adjacent_chunks, sender));
                }
            }
        }
        None
    }

    /// Takes in a chunk that was built, with its mesh. If the chunk was being
    /// built, it becomes resident with that mesh, is no longer being built,
    /// and the resident chunks beside it are queued for a new mesh. A chunk
    /// that was not being built is dropped, and nothing changes. Says whether
    /// the chunk was taken.
    pub fn receive_data(&mut self, world: &mut World, data: Arc<Chunk>, mesh: ChunkMesh) -> (taken:
        bool)
        ensures
            taken == old(self).in_process().contains(data.spec_position()),
            final(self).load_queue() == old(self).load_queue(),
            final(self).spec_render_distance() == old(self).spec_render_distance(),
            final(self).spec_started() == old(self).spec_started(),
            final(self).spec_stalled() == old(self).spec_stalled(),
            taken ==> {
                &&& final(self).in_process() == without(
                    old(self).in_process(),
                    data.spec_position(),
                )
                &&& final(world).chunks() == old(world).chunks().insert(
                    data.spec_position().key(),
                    data,
                )
                &&& final(world).meshes() == old(world).meshes().insert(
                    data.spec_position().key(),
                    mesh,
                )
                &&& final(self).rebuild_queue() == old(self).rebuild_queue() + resident_neighbours(
                    final(world),
                    data.spec_position(),
                )
            },
            !taken ==> {
                &&& final(self).in_process() == old(self).in_process()
                &&& final(self).rebuild_queue() == old(self).rebuild_queue()
                &&& final(world).chunks() == old(world).chunks()
                &&& final(world).meshes() == old(world).meshes()
            },
            old(self).wf() ==> final(self).wf(),
            old(world).no_orphan_mesh() ==> final(world).no_orphan_mesh(),
            old(self).in_step_with(old(world)) ==> final(self).in_step_with(final(world)),
    {
        let pos = data.position();
        if contains_coord(&self.data_in_process, pos) {
            world.insert(pos, data, mesh);
            remove_coord(&mut self.data_in_process, pos);
            // Mesh the chunks beside the new one again: their faces towards it may be hidden now.
            self.rebuild_adjacent_chunks(world, &pos);
            proof {
                lemma_without(old(self).in_process(), pos);
                if old(self).in_step_with(old(world)) {
                    assert forall|c: ChunkCoord3D| #[trigger]
                        self.in_process().contains(c) implies !world.is_resident(c) by {
                        assert(old(self).in_process().contains(c));
                        assert(c.key() != pos.key());
                    }
                    assert forall|c: ChunkCoord3D| #[trigger]
                        self.load_queue().contains(c) implies !self.in_process().contains(c)
                        && !world.is_resident(c) by {
                        assert(c.key() != pos.key());
                    }
                }
            }
            true
        } else {
            false
        }
    }

    /// Takes in what the workers have sent back, without waiting: at most one
    /// chunk with its mesh, handled as `receive_data` says, and at most one
    /// new mesh of a chunk, which replaces the mesh of that chunk if it is
    /// still resident and is dropped otherwise. What has arrived is not known
    /// beforehand; for what it is, generator and world change as `took_in`
    /// says. Whatever has arrived, the load queue stays as it is, no chunk
    /// starts being built, and no chunk stops being resident. Says whether a
    /// chunk was taken in.
    pub fn update_world(&mut self, world: &mut World) -> (arrived: bool)
        ensures
            took_in_what_arrived(*old(self), *old(world), *final(self), *final(world), arrived),
            !arrived ==> {
                &&& final(self).in_process() == old(self).in_process()
                &&& final(self).rebuild_queue() == old(self).rebuild_queue()
                &&& final(world).chunks() == old(world).chunks()
            },
            arrived ==> old(self).in_process().len() > 0,
            final(self).load_queue() == old(self).load_queue(),
            final(self).spec_render_distance() == old(self).spec_render_distance(),
            final(self).spec_started() == old(self).spec_started(),
            final(self).spec_stalled() == old(self).spec_stalled(),
            forall|c: ChunkCoord3D| #[trigger]
                final(self).in_process().contains(c) ==> old(self).in_process().contains(c),
            forall|c: ChunkCoord3D| #[trigger]
                old(world).is_resident(c) ==> final(world).is_resident(c),
            forall|c: ChunkCoord3D|
                #![trigger final(world).is_resident(c)]
                final(world).is_resident(c) && !old(world).is_resident(c) ==> old(
                    self,
                ).in_process().contains(c) && !final(self).in_process().contains(c),
            old(self).wf() ==> final(self).wf(),
            old(world).no_orphan_mesh() ==> final(world).no_orphan_mesh(),
            old(self).in_step_with(old(world)) ==> final(self).in_step_with(final(world)),
    {
        let data_arrived = try_receive(&self.data_receiver);
        let ghost data_seen = data_arrived;
        let arrived = match data_arrived {
            Some((data, mesh)) => {
                let ghost pos = data.spec_position();
                let taken = self.receive_data(world, data, mesh);
                proof {
                    lemma_without(old(self).in_process(), pos);
                }
                taken
            },
            None => false,
        };
        let ghost fed = *world;
        let mesh_arrived = try_receive(&self.mesh_receiver);
        let ghost mesh_seen = mesh_arrived;
        match mesh_arrived {
            Some((pos, mesh)) => {
                world.insert_mesh(pos, mesh);
            },
            None => {},
        }
        proof {
            if arrived {
                let pos = (data_seen->0).0.spec_position();
                assert(resident_neighbours(&fed, pos) == resident_neighbours(&*world, pos));
            }
            assert(took_in(*old(self), *old(world), *self, *world, data_seen, mesh_seen));
        }
        arrived
    }

    /// Counts the tick that has just passed: if chunks are being built and
    /// none has arrived in this tick, one more tick was spent waiting;
    /// otherwise the count starts again. When the count reaches
    /// `IN_PROCESS_DEADLINE`, the chunks being built are given up: none counts
    /// as being built any longer, and the wanted chunks will be worked out
    /// anew in the next tick, which asks for the lost ones again if they are
    /// still wanted. A result that arrives for a chunk that was given up is
    /// dropped, unless the chunk is being built again by then.
    pub fn abandon_overdue(&mut self, arrived: bool)
        ensures
            final(self).load_queue() == old(self).load_queue(),
            final(self).rebuild_queue() == old(self).rebuild_queue(),
            final(self).spec_render_distance() == old(self).spec_render_distance(),
            old(self).gives_up(arrived) ==> {
                &&& final(self).in_process().len() == 0
                &&& !final(self).spec_started()
                &&& final(self).spec_stalled() == 0
            },
            !old(self).gives_up(arrived) ==> {
                &&& final(self).in_process() == old(self).in_process()
                &&& final(self).spec_started() == old(self).spec_started()
                &&& final(self).spec_stalled() == old(self).waited(arrived)
            },
            old(self).wf() ==> final(self).wf(),
            forall|world: &World| #[trigger]
                old(self).in_step_with(world) ==> final(self).in_step_with(world),
    {
        if arrived || self.data_in_process.is_empty() {
            self.stalled = 0;
        } else if self.stalled < IN_PROCESS_DEADLINE {
            self.stalled = self.stalled + 1;
        }
        if self.stalled >= IN_PROCESS_DEADLINE {
            self.data_in_process.clear();
            self.started = false;
            self.stalled = 0;
        }
        assert(self.load_queue() == old(self).load_queue());
        assert(old(self).wf() ==> self.wf());
    }

    /// One tick. In this order: works out anew which chunks are wanted, if the
    /// viewer has left its chunk (`load_primary_chunks`); hands out the first
    /// chunk of the load queue (`process_chunk_loading_queue`); if the load
    /// queue is empty then, hands out a chunk to mesh again
    /// (`process_rebuild_queue`); takes in what has arrived (`update_world`);
    /// gives up the chunks being built if the deadline is reached
    /// (`abandon_overdue`); removes the chunks farther than the render distance
    /// from the viewer's chunk.
    ///
    /// What has arrived is not known beforehand. Whatever it is: afterwards
    /// every resident chunk lies within the render distance of the viewer's
    /// chunk, and no chunk is in two of load queue, chunks being built and
    /// resident chunks, if none was before.
    pub fn build_chunks(&mut self, player: &mut Player, world: &mut World) -> (dispatch: Dispatch)
        requires
            old(self).wf(),
        ensures
            ticked(
                *old(self),
                *old(player),
                *old(world),
                *final(self),
                *final(player),
                *final(world),
                dispatch,
            ),
    {
        // Work out the wanted chunks, if the viewer is in a new chunk.
        self.load_primary_chunks(world, player);
        // Hand out a chunk of the load queue.
        let load = self.process_chunk_loading_queue(world);
        // Hand out a chunk of the rebuild queue.
        let rebuild = self.process_rebuild_queue(world);
        // Take in what has arrived, and give up what is overdue.
        let arrived = self.update_world(world);
        self.abandon_overdue(arrived);
        // Remove the chunks out of reach.
        let ghost fed = *world;
        world.evict_outside(player.chunk(), self.render_distance);
        proof {
            assert forall|c: ChunkCoord3D| #[trigger]
                world.is_resident(c) implies fed.is_resident(c) by {}
            if load is Some {
                lemma_push_contains(old(self).in_process(), load->0.spec_position());
            }
        }
        Dispatch { load, rebuild }
    }
}

/// What one tick does, whatever the workers have sent back meanwhile.
///
/// The wanted chunks are worked out anew if the viewer has left its chunk or
/// if this was never done (`planned_queue`). The first chunk of that queue, if
/// there is one and fewer than `MAX_IN_PROCESS` chunks are being built, is
/// handed out with the adjacent chunks that were resident before the tick,
/// and the rest stays queued. A chunk is handed out to be
/// meshed again only if the load queue is empty then: the first of the rebuild
/// queue, if it is resident. No other chunk starts being built. Chunks are
/// never being built for `IN_PROCESS_DEADLINE` ticks in a row without any of
/// them arriving: by then they are given up, and the wanted chunks are worked
/// out anew in the next tick. Afterwards every resident chunk lies within the
/// render distance of the viewer's chunk.
/// If no mesh was without its chunk before, none is afterwards; if no chunk
/// was in two of load queue, chunks being built and resident chunks before,
/// none is afterwards.
pub open spec fn ticked(
    before: ChunkGenerator,
    player_before: Player,
    world_before: World,
    after: ChunkGenerator,
    player_after: Player,
    world_after: World,
    dispatch: Dispatch,
) -> bool {
    let planned = before.planned_queue(&world_before, &player_before);
    &&& after.wf()
    &&& after.spec_render_distance() == before.spec_render_distance()
    &&& after.spec_stalled() < IN_PROCESS_DEADLINE
    &&& after.spec_stalled() <= before.spec_stalled() + 1
    &&& after.spec_started() || (after.in_process().len() == 0 && after.spec_stalled() == 0)
    &&& player_after.spec_pos() == player_before.spec_pos()
    &&& player_after.spec_chunk() == if !before.spec_started() || player_before.in_new_chunk() {
        player_before.spec_pos().chunk_coord()
    } else {
        player_before.spec_chunk()
    }
    &&& dispatch.load.is_some() == ChunkGenerator::can_hand_out(planned, before.in_process())
    &&& dispatch.load matches Some(j) ==> {
        &&& j.spec_position() == planned[0]
        &&& j.spec_adjacent() == neighbours(&world_before, planned[0])
        &&& after.load_queue() == planned.drop_first()
    }
    &&& dispatch.load is None ==> after.load_queue() == planned
    &&& dispatch.rebuild.is_some() == (after.load_queue().len() == 0 && before.rebuild_queue().len()
        > 0 && world_before.is_resident(before.rebuild_queue()[0]))
    &&& dispatch.rebuild matches Some(j) ==> {
        &&& j.spec_position() == before.rebuild_queue()[0]
        &&& j.spec_data() == world_before.chunks()[j.spec_position().key()]
        &&& j.spec_adjacent() == neighbours(&world_before, j.spec_position())
    }
    &&& forall|c: ChunkCoord3D| #[trigger]
        after.in_process().contains(c) ==> before.in_process().contains(c) || (
        dispatch.load matches Some(j) && j.spec_position() == c)
    &&& forall|c: ChunkCoord3D| #[trigger]
        world_after.is_resident(c) ==> key_in_box(
            c.key(),
            player_after.spec_chunk(),
            after.spec_render_distance(),
        )
    &&& world_before.no_orphan_mesh() ==> world_after.no_orphan_mesh()
    &&& before.in_step_with(&world_before) ==> after.in_step_with(&world_after)
}

} // verus!
