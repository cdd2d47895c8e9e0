use vstd::prelude::*;
use crate::coordinate::{ChunkCoord3D, CHUNK_COORD_LIMIT};

verus! {

/// Where the `i`-th chunk of the ring at distance `r` lies, seen from the
/// centre, along `x` and along `z`. A ring has `8 * r` chunks. First come its
/// two sides at `x = r` and `x = -r`, by rising `z`, a chunk of the one and a
/// chunk of the other in turn; then what is left of its sides at `z = r` and
/// `z = -r`, by rising `x`, in turn again.
pub open spec fn ring_offset(r: int, i: int) -> (int, int) {
    let sides = 2 * (2 * r + 1);
    if i < sides {
        (
            if i % 2 == 0 {
                r
            } else {
                -r
            },
            i / 2 - r,
        )
    } else {
        (
            (i - sides) / 2 - r + 1,
            if (i - sides) % 2 == 0 {
                r
            } else {
                -r
            },
        )
    }
}

/// The columns of chunks at distance `r` around `center`, each by its `x` and
/// its `z`: the centre alone for `r = 0`, else the ring in the order of
/// `ring_offset`.
pub open spec fn ring(center: ChunkCoord3D, r: int) -> Seq<(int, int)> {
    if r <= 0 {
        seq![(center.x as int, center.z as int)]
    } else {
        Seq::new(
            (8 * r) as nat,
            |i: int| (center.x + ring_offset(r, i).0, center.z + ring_offset(r, i).1),
        )
    }
}

/// The columns of chunks within `radius` around `center`, in the order in
/// which they are wanted: the centre, then ring after ring outwards.
pub open spec fn load_order(center: ChunkCoord3D, radius: int) -> Seq<(int, int)>
    decreases radius,
{
    if radius < 0 {
        Seq::empty()
    } else if radius == 0 {
        ring(center, 0)
    } else {
        load_order(center, radius - 1) + ring(center, radius)
    }
}

/// The chunk of the ground layer in the column at `x = p.0`, `z = p.1`.
pub open spec fn column(p: (int, int)) -> ChunkCoord3D {
    ChunkCoord3D { x: p.0 as i32, y: 0, z: p.1 as i32 }
}

/// The column lies in the world.
pub open spec fn column_in_world(p: (int, int)) -> bool {
    &&& -CHUNK_COORD_LIMIT <= p.0 < CHUNK_COORD_LIMIT
    &&& -CHUNK_COORD_LIMIT <= p.1 < CHUNK_COORD_LIMIT
}

/// How far the column `p` lies from `center`: the greater of the distances
/// along `x` and along `z`.
pub open spec fn column_distance(center: ChunkCoord3D, p: (int, int)) -> int {
    let dx = if p.0 >= center.x {
        p.0 - center.x
    } else {
        center.x - p.0
    };
    let dz = if p.1 >= center.z {
        p.1 - center.z
    } else {
        center.z - p.1
    };
    if dx >= dz {
        dx
    } else {
        dz
    }
}

/// Every column of the ring at distance `r` lies at distance `r` exactly.
pub proof fn lemma_ring_distance(center: ChunkCoord3D, r: int, i: int)
    requires
        r >= 0,
        0 <= i < ring(center, r).len(),
    ensures
        column_distance(center, ring(center, r)[i]) == r,
{
}

/// No column comes twice in a ring.
pub proof fn lemma_ring_no_duplicates(center: ChunkCoord3D, r: int)
    ensures
        ring(center, r).no_duplicates(),
{
    if r > 0 {
        assert forall|i: int, j: int| 0 <= i < j < 8 * r implies ring_offset(r, i) != ring_offset(
            r,
            j,
        ) by {}
    }
}

/// Every column at distance `r` from the centre is in the ring at distance `r`.
pub proof fn lemma_ring_covers(center: ChunkCoord3D, r: int, p: (int, int))
    requires
        r >= 0,
        column_distance(center, p) == r,
    ensures
        ring(center, r).contains(p),
{
    let dx = p.0 - center.x;
    let dz = p.1 - center.z;
    if r == 0 {
        assert(ring(center, r)[0] == p);
    } else if dx == r {
        let i = 2 * (dz + r);
        assert(ring(center, r)[i] == p);
    } else if dx == -r {
        let i = 2 * (dz + r) + 1;
        assert(ring(center, r)[i] == p);
    } else if dz == r {
        let i = 2 * (2 * r + 1) + 2 * (dx + r - 1);
        assert(ring(center, r)[i] == p);
    } else {
        let i = 2 * (2 * r + 1) + 2 * (dx + r - 1) + 1;
        assert(ring(center, r)[i] == p);
    }
}

/// The load order holds exactly the columns within `radius` of the centre.
pub proof fn lemma_load_order_covers(center: ChunkCoord3D, radius: int, p: (int, int))
    ensures
        load_order(center, radius).contains(p) <==> column_distance(center, p) <= radius,
    decreases radius,
{
    let order = load_order(center, radius);
    if radius == 0 {
        if column_distance(center, p) == 0 {
            lemma_ring_covers(center, 0, p);
        }
        if order.contains(p) {
            let i = choose|i: int| 0 <= i < order.len() && order[i] == p;
            lemma_ring_distance(center, 0, i);
        }
    } else if radius > 0 {
        let inner = load_order(center, radius - 1);
        let outer = ring(center, radius);
        lemma_load_order_covers(center, radius - 1, p);
        if order.contains(p) {
            let i = choose|i: int| 0 <= i < order.len() && order[i] == p;
            if i < inner.len() {
                assert(inner[i] == p);
            } else {
                assert(outer[i - inner.len()] == p);
                lemma_ring_distance(center, radius, i - inner.len());
            }
        }
        if column_distance(center, p) <= radius {
            if column_distance(center, p) == radius {
                lemma_ring_covers(center, radius, p);
                let i = choose|i: int| 0 <= i < outer.len() && outer[i] == p;
                assert(order[inner.len() + i] == p);
            } else {
                let i = choose|i: int| 0 <= i < inner.len() && inner[i] == p;
                assert(order[i] == p);
            }
        }
    }
}

/// In the load order a nearer column never comes after a farther one.
pub proof fn lemma_load_order_nearest_first(center: ChunkCoord3D, radius: int, i: int, j: int)
    requires
        0 <= i <= j < load_order(center, radius).len(),
    ensures
        column_distance(center, load_order(center, radius)[i]) <= column_distance(
            center,
            load_order(center, radius)[j],
        ),
    decreases radius,
{
    let order = load_order(center, radius);
    if radius > 0 {
        let inner = load_order(center, radius - 1);
        let outer = ring(center, radius);
        if j < inner.len() {
            lemma_load_order_nearest_first(center, radius - 1, i, j);
        } else {
            lemma_ring_distance(center, radius, j - inner.len());
            if i < inner.len() {
                assert(inner.contains(inner[i]));
                lemma_load_order_covers(center, radius - 1, inner[i]);
            } else {
                lemma_ring_distance(center, radius, i - inner.len());
            }
        }
    }
}

/// No column comes twice in the load order.
pub proof fn lemma_load_order_no_duplicates(center: ChunkCoord3D, radius: int)
    ensures
        load_order(center, radius).no_duplicates(),
    decreases radius,
{
    let order = load_order(center, radius);
    if radius == 0 {
        lemma_ring_no_duplicates(center, 0);
    } else if radius > 0 {
        let inner = load_order(center, radius - 1);
        let outer = ring(center, radius);
        lemma_load_order_no_duplicates(center, radius - 1);
        lemma_ring_no_duplicates(center, radius);
        assert forall|i: int, j: int| 0 <= i < j < order.len() implies order[i] != order[j] by {
            if j >= inner.len() && i < inner.len() {
                assert(inner.contains(inner[i]));
                lemma_load_order_covers(center, radius - 1, inner[i]);
                lemma_ring_distance(center, radius, j - inner.len());
            } else if i >= inner.len() {
                assert(outer[i - inner.len()] != outer[j - inner.len()]);
            }
        }
    }
}

} // verus!
