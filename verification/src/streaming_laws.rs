use vstd::prelude::*;
use crate::chunk_builder::{lemma_offer_next, offer_all, ticked, ChunkGenerator};
use crate::coord_list::lemma_push_contains;
use crate::coordinate::ChunkCoord3D;
use crate::job::Dispatch;
use crate::load_order::{
    column, column_distance, column_in_world, lemma_load_order_covers,
    lemma_load_order_nearest_first, load_order,
};
use crate::player::Player;
use crate::world::World;

verus! {

/// A generator that has handed out nothing and wants nothing is in step with
/// every world: no chunk is queued or being built.
pub proof fn lemma_idle_generator_in_step(generator: ChunkGenerator, world: World)
    requires
        generator.load_queue().len() == 0,
        generator.in_process().len() == 0,
    ensures
        generator.wf(),
        generator.in_step_with(&world),
{
}

/// Tick after tick, no chunk is ever in two of load queue, chunks being built
/// and resident chunks: a tick keeps it so.
pub proof fn lemma_tick_keeps_in_step(
    before: ChunkGenerator,
    player_before: Player,
    world_before: World,
    after: ChunkGenerator,
    player_after: Player,
    world_after: World,
    dispatch: Dispatch,
)
    requires
        before.in_step_with(&world_before),
        ticked(before, player_before, world_before, after, player_after, world_after, dispatch),
    ensures
        after.in_step_with(&world_after),
        forall|c: ChunkCoord3D|
            !(#[trigger] after.load_queue().contains(c) && after.in_process().contains(c)),
        forall|c: ChunkCoord3D|
            !(#[trigger] after.load_queue().contains(c) && world_after.is_resident(c)),
        forall|c: ChunkCoord3D|
            !(#[trigger] after.in_process().contains(c) && world_after.is_resident(c)),
{
}

/// The column of a chunk: its `x` and its `z`.
pub open spec fn column_of(c: ChunkCoord3D) -> (int, int) {
    (c.x as int, c.z as int)
}

/// The column `p` is wanted: it lies in the world, and its chunk is neither
/// resident nor being built.
pub open spec fn wanted(world: &World, in_process: Seq<ChunkCoord3D>, p: (int, int)) -> bool {
    &&& column_in_world(p)
    &&& !world.is_resident(column(p))
    &&& !in_process.contains(column(p))
}

/// The chunk `c` is that of a wanted column among the first `n` of `order`.
pub open spec fn offered_among(
    world: &World,
    in_process: Seq<ChunkCoord3D>,
    order: Seq<(int, int)>,
    n: int,
    c: ChunkCoord3D,
) -> bool {
    exists|m: int| 0 <= m < n && wanted(world, in_process, #[trigger] order[m]) && c == column(order[m])
}

/// What holds of the load queue that comes of offering the first `n` columns
/// of the load order to an empty queue.
proof fn lemma_planned_prefix(
    world: &World,
    in_process: Seq<ChunkCoord3D>,
    center: ChunkCoord3D,
    radius: int,
    n: int,
)
    requires
        0 <= n <= load_order(center, radius).len(),
    ensures
        ({
            let order = load_order(center, radius);
            let queue = offer_all(Seq::empty(), world, in_process, order.take(n));
            &&& queue.no_duplicates()
            &&& forall|k: int|
                0 <= k < queue.len() ==> offered_among(world, in_process, order, n, #[trigger] queue[k])
            &&& forall|m: int|
                0 <= m < n && wanted(world, in_process, #[trigger] order[m]) ==> queue.contains(
                    column(order[m]),
                )
            &&& forall|a: int, b: int|
                0 <= a <= b < queue.len() ==> column_distance(center, column_of(queue[a]))
                    <= column_distance(center, column_of(queue[b]))
        }),
    decreases n,
{
    let order = load_order(center, radius);
    let none = Seq::<ChunkCoord3D>::empty();
    if n == 0 {
        assert(order.take(0) =~= Seq::<(int, int)>::empty());
    } else {
        lemma_planned_prefix(world, in_process, center, radius, n - 1);
        lemma_offer_next(none, world, in_process, order, n - 1);
        let before = offer_all(none, world, in_process, order.take(n - 1));
        let queue = offer_all(none, world, in_process, order.take(n));
        let p = order[n - 1];
        lemma_push_contains(before, column(p));
        if queue == before {
            assert forall|m: int|
                0 <= m < n && wanted(world, in_process, #[trigger] order[m]) implies queue.contains(
                column(order[m]),
            ) by {}
            assert forall|k: int| 0 <= k < queue.len() implies offered_among(
                world,
                in_process,
                order,
                n,
                #[trigger] queue[k],
            ) by {
                assert(offered_among(world, in_process, order, n - 1, before[k]));
                let m = choose|m: int|
                    0 <= m < n - 1 && wanted(world, in_process, #[trigger] order[m]) && before[k]
                        == column(order[m]);
                assert(wanted(world, in_process, order[m]) && queue[k] == column(order[m]));
            }
        } else {
            assert(queue == before.push(column(p)));
            assert(column_of(column(p)) == p);
            assert forall|k: int| 0 <= k < queue.len() implies offered_among(
                world,
                in_process,
                order,
                n,
                #[trigger] queue[k],
            ) by {
                if k < before.len() {
                    assert(offered_among(world, in_process, order, n - 1, before[k]));
                    let m = choose|m: int|
                        0 <= m < n - 1 && wanted(world, in_process, #[trigger] order[m])
                            && before[k] == column(order[m]);
                    assert(wanted(world, in_process, order[m]) && queue[k] == column(order[m]));
                } else {
                    assert(wanted(world, in_process, order[n - 1]) && queue[k] == column(
                        order[n - 1],
                    ));
                }
            }
            assert forall|a: int, b: int| 0 <= a <= b < queue.len() implies column_distance(
                center,
                column_of(queue[a]),
            ) <= column_distance(center, column_of(queue[b])) by {
                if b == before.len() && a < b {
                    assert(offered_among(world, in_process, order, n - 1, before[a]));
                    let m = choose|m: int|
                        0 <= m < n - 1 && wanted(world, in_process, #[trigger] order[m])
                            && before[a] == column(order[m]);
                    assert(column_of(column(order[m])) == order[m]);
                    lemma_load_order_nearest_first(center, radius, m, n - 1);
                }
            }
        }
    }
}

/// The load queue that comes of working out the wanted chunks around
/// `center`. It holds exactly the chunks of the ground layer that lie in the
/// world, within `radius` of `center` along `x` and `z`, and are neither
/// resident nor being built; it holds none of them twice; and a nearer chunk
/// never comes after a farther one.
pub proof fn lemma_planned_queue(
    world: &World,
    in_process: Seq<ChunkCoord3D>,
    center: ChunkCoord3D,
    radius: int,
)
    ensures
        ({
            let queue = offer_all(Seq::empty(), world, in_process, load_order(center, radius));
            &&& queue.no_duplicates()
            &&& forall|c: ChunkCoord3D| #[trigger]
                queue.contains(c) <==> {
                    &&& c.y == 0
                    &&& c.in_world()
                    &&& column_distance(center, column_of(c)) <= radius
                    &&& !world.is_resident(c)
                    &&& !in_process.contains(c)
                }
            &&& forall|a: int, b: int|
                0 <= a <= b < queue.len() ==> column_distance(center, column_of(queue[a]))
                    <= column_distance(center, column_of(queue[b]))
        }),
{
    let order = load_order(center, radius);
    let queue = offer_all(Seq::empty(), world, in_process, order);
    lemma_planned_prefix(world, in_process, center, radius, order.len() as int);
    assert(order.take(order.len() as int) =~= order);
    assert forall|c: ChunkCoord3D| #[trigger] queue.contains(c) <==> {
        &&& c.y == 0
        &&& c.in_world()
        &&& column_distance(center, column_of(c)) <= radius
        &&& !world.is_resident(c)
        &&& !in_process.contains(c)
    } by {
        if queue.contains(c) {
            let k = choose|k: int| 0 <= k < queue.len() && queue[k] == c;
            assert(offered_among(world, in_process, order, order.len() as int, queue[k]));
            let m = choose|m: int|
                0 <= m < order.len() && wanted(world, in_process, #[trigger] order[m]) && queue[k]
                    == column(order[m]);
            assert(column_of(column(order[m])) == order[m]);
            assert(order.contains(order[m]));
            lemma_load_order_covers(center, radius, order[m]);
        }
        if c.y == 0 && c.in_world() && column_distance(center, column_of(c)) <= radius
            && !world.is_resident(c) && !in_process.contains(c) {
            lemma_load_order_covers(center, radius, column_of(c));
            let m = choose|m: int| 0 <= m < order.len() && order[m] == column_of(c);
            assert(column(order[m]) == c);
            assert(wanted(world, in_process, order[m]));
        }
    }
}

} // verus!
