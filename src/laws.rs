use vstd::prelude::*;

use crate::action::{
    Action, ascending_below, pick, reinsert, reinsert_ok, remove_block, strip, undo_data, undo_ok,
    undo_selection,
};
use crate::vec_historic::{move_dest, moved_items, records_insert, records_move};

verus! {

/// Undoing the record of one element inserted at `i` takes the store back
/// to what it was before the insertion, and leaves `i` unselected.
pub proof fn lemma_insert_undo_round_trip<T>(s: Seq<T>, i: usize, v: T, a: Action<T>)
    requires
        i <= s.len(),
        records_insert(a, i as int, 1),
    ensures
        undo_data(a, s.insert(i as int, v)) == s,
        undo_data(a, s.insert(i as int, v)).len() == s.len(),
        !undo_selection(a).contains(i),
{
    assert(undo_data(a, s.insert(i as int, v)) =~= s);
}

/// Taking the elements at strictly ascending positions out of a store, and
/// putting them back at those positions in ascending order, gives the store back.
pub proof fn lemma_strip_then_reinsert<T>(s: Seq<T>, idx: Seq<usize>)
    requires
        ascending_below(idx, s.len()),
    ensures
        reinsert_ok(strip(s, idx), idx, pick(s, idx)),
        reinsert(strip(s, idx), idx, pick(s, idx)) == s,
        strip(s, idx).len() + idx.len() == s.len(),
    decreases idx.len(),
{
    if idx.len() > 0 {
        let rest = idx.drop_first();
        lemma_strip_then_reinsert(s, rest);
        lemma_strip_prefix(s, rest, idx[0] as int);
        let c = strip(s, rest);
        let i = idx[0] as int;
        assert(pick(s, idx).drop_first() =~= pick(s, rest));
        assert(c.remove(i).insert(i, s[i]) =~= c);
    }
}

/// Undoing the record of a move, made with the position where the block
/// landed and the ascending positions it came from, gives back the store as
/// it was before the move.
pub proof fn lemma_move_undo_round_trip<T>(s: Seq<T>, idx: Seq<usize>, dest: usize, a: Action<T>)
    requires
        ascending_below(idx, s.len()),
        records_move(a, move_dest(s.len() as int, idx.len() as int, dest as int), idx),
    ensures
        undo_ok(a, moved_items(s, idx, dest as int)),
        undo_data(a, moved_items(s, idx, dest as int)) == s,
{
    lemma_strip_then_reinsert(s, idx);
    let c = strip(s, idx);
    let p = pick(s, idx);
    let at = move_dest(s.len() as int, idx.len() as int, dest as int);
    let k = idx.len() as int;
    let moved = moved_items(s, idx, dest as int);
    assert(remove_block(moved, at, k) =~= c);
    assert(moved.subrange(at, at + k) =~= p);
}

/// Removing positions that all lie above `b` keeps the elements below `b`.
proof fn lemma_strip_prefix<T>(s: Seq<T>, idx: Seq<usize>, b: int)
    requires
        ascending_below(idx, s.len()),
        0 <= b < s.len(),
        forall|a: int| 0 <= a < idx.len() ==> b < idx[a],
    ensures
        strip(s, idx).len() + idx.len() == s.len(),
        strip(s, idx).len() > b,
        forall|p: int| 0 <= p <= b ==> strip(s, idx)[p] == s[p],
    decreases idx.len(),
{
    if idx.len() > 0 {
        let rest = idx.drop_first();
        lemma_strip_prefix(s, rest, idx[0] as int);
        if rest.len() > 0 {
            assert(rest[0] > idx[0]);
        }
    }
}

} // verus!
