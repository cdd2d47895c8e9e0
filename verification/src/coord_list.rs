use vstd::prelude::*;
use crate::coordinate::ChunkCoord3D;

verus! {

/// `list` without every entry that equals `pos`, the others in their order.
pub open spec fn without(list: Seq<ChunkCoord3D>, pos: ChunkCoord3D) -> Seq<ChunkCoord3D>
    decreases list.len(),
{
    if list.len() == 0 {
        list
    } else if list.last() == pos {
        without(list.drop_last(), pos)
    } else {
        without(list.drop_last(), pos).push(list.last())
    }
}

/// Taking `pos` out of a list leaves every other entry in it and `pos` not;
/// a list without repetition stays so.
pub proof fn lemma_without(list: Seq<ChunkCoord3D>, pos: ChunkCoord3D)
    ensures
        !without(list, pos).contains(pos),
        forall|c: ChunkCoord3D| c != pos ==> without(list, pos).contains(c) == list.contains(c),
        list.no_duplicates() ==> without(list, pos).no_duplicates(),
        !list.contains(pos) ==> without(list, pos) == list,
        without(list, pos).len() <= list.len(),
    decreases list.len(),
{
    if list.len() > 0 {
        let front = list.drop_last();
        let last = list.last();
        lemma_without(front, pos);
        assert(list =~= front.push(last));
        assert forall|c: ChunkCoord3D| list.contains(c) == (front.contains(c) || c == last) by {
            if front.contains(c) {
                let i = choose|i: int| 0 <= i < front.len() && front[i] == c;
                assert(list[i] == c);
            }
            if c == last {
                assert(list[list.len() - 1] == c);
            }
        }
        let rest = without(front, pos);
        if last != pos {
            assert forall|c: ChunkCoord3D| rest.push(last).contains(c) == (rest.contains(c) || c
                == last) by {
                if rest.contains(c) {
                    let i = choose|i: int| 0 <= i < rest.len() && rest[i] == c;
                    assert(rest.push(last)[i] == c);
                }
                if c == last {
                    assert(rest.push(last)[rest.len() as int] == c);
                }
            }
            if list.no_duplicates() {
                assert(front.no_duplicates());
                assert(!front.contains(last)) by {
                    if front.contains(last) {
                        let i = choose|i: int| 0 <= i < front.len() && front[i] == last;
                        assert(list[i] == list[list.len() - 1]);
                    }
                }
            }
            if !list.contains(pos) {
                assert(rest.push(last) =~= list);
            }
        } else {
            if list.no_duplicates() {
                assert(front.no_duplicates());
            }
        }
    }
}

/// A list with `x` put at its end holds what it held, and `x`; if it held no
/// entry twice and not `x`, it still holds none twice.
pub proof fn lemma_push_contains(list: Seq<ChunkCoord3D>, x: ChunkCoord3D)
    ensures
        forall|c: ChunkCoord3D| list.push(x).contains(c) == (list.contains(c) || c == x),
        list.no_duplicates() && !list.contains(x) ==> list.push(x).no_duplicates(),
{
    assert forall|c: ChunkCoord3D| list.push(x).contains(c) == (list.contains(c) || c == x) by {
        if list.contains(c) {
            let i = choose|i: int| 0 <= i < list.len() && list[i] == c;
            assert(list.push(x)[i] == c);
        }
        if c == x {
            assert(list.push(x)[list.len() as int] == c);
        }
    }
}

/// Whether `pos` stands in `list`.
pub fn contains_coord(list: &Vec<ChunkCoord3D>, pos: ChunkCoord3D) -> (found: bool)
    ensures
        found == list@.contains(pos),
{
    let mut i: usize = 0;
    while i < list.len()
        invariant
            i <= list@.len(),
            forall|j: int| 0 <= j < i ==> list@[j] != pos,
        decreases list@.len() - i,
    {
        if list[i] == pos {
            return true;
        }
        i += 1;
    }
    false
}

/// Takes every entry that equals `pos` out of `list`; the others keep their order.
pub fn remove_coord(list: &mut Vec<ChunkCoord3D>, pos: ChunkCoord3D)
    ensures
        final(list)@ == without(old(list)@, pos),
{
    let mut kept: Vec<ChunkCoord3D> = Vec::new();
    let mut i: usize = 0;
    assert(list@.take(0) =~= Seq::<ChunkCoord3D>::empty());
    while i < list.len()
        invariant
            i <= list@.len(),
            list@ == old(list)@,
            kept@ == without(list@.take(i as int), pos),
        decreases list@.len() - i,
    {
        proof {
            assert(list@.take(i + 1).drop_last() =~= list@.take(i as int));
        }
        if list[i] != pos {
            kept.push(list[i]);
        }
        i += 1;
    }
    assert(list@.take(i as int) =~= list@);
    *list = kept;
}

} // verus!
