use vstd::prelude::*;

verus! {

/// Elements taken out of the store: their indices, ascending, and their values, in the same order.
#[derive(Clone, Debug)]
pub struct RemoveData<T> {
    pub indecies: Vec<usize>,
    pub values: Vec<T>,
}

/// A block of elements that was relocated: it now starts at `dest_index`,
/// and `indecies` (ascending) are the positions its elements held before.
#[derive(Clone, Debug)]
pub struct MoveData {
    pub dest_index: usize,
    pub indecies: Vec<usize>,
}

/// `amount` elements were inserted starting at `index`.
#[derive(Clone, Debug)]
pub struct InsertData {
    pub index: usize,
    pub amount: usize,
}

/// One recorded mutation, with the data needed to reverse it.
#[derive(Clone, Debug)]
pub enum Action<T> {
    Remove(RemoveData<T>),
    Move(MoveData),
    Insert(InsertData),
    PushBack,
    PopBack(T),
    PushFront,
    PopFront(T),
}

impl<T> RemoveData<T> {
    /// An empty record, with room for `len` entries.
    pub fn new(len: usize) -> (r: Self)
        ensures
            r.indecies@.len() == 0,
            r.values@.len() == 0,
    {
        RemoveData { indecies: Vec::with_capacity(len), values: Vec::with_capacity(len) }
    }
}

/// `s` without the `k` elements that start at `at`.
pub open spec fn remove_block<T>(s: Seq<T>, at: int, k: int) -> Seq<T> {
    s.subrange(0, at) + s.subrange(at + k, s.len() as int)
}

/// Inserting `vals[j]` at `idx[j]`, for `j` ascending, stays in bounds at every step.
pub open spec fn reinsert_ok<T>(s: Seq<T>, idx: Seq<usize>, vals: Seq<T>) -> bool
    decreases idx.len(),
{
    idx.len() == vals.len() && (idx.len() == 0 || (idx[0] <= s.len() && reinsert_ok(
        s.insert(idx[0] as int, vals[0]),
        idx.drop_first(),
        vals.drop_first(),
    )))
}

/// `s` after inserting `vals[j]` at `idx[j]`, for `j` ascending.
pub open spec fn reinsert<T>(s: Seq<T>, idx: Seq<usize>, vals: Seq<T>) -> Seq<T>
    decreases idx.len(),
{
    if idx.len() == 0 || vals.len() == 0 {
        s
    } else {
        reinsert(s.insert(idx[0] as int, vals[0]), idx.drop_first(), vals.drop_first())
    }
}

/// The set of indices that a sequence lists.
pub open spec fn index_set_of(idx: Seq<usize>) -> Set<usize> {
    Set::new(|p: usize| idx.contains(p))
}

/// Undoing `a` on the store `s` stays in bounds.
pub open spec fn undo_ok<T>(a: Action<T>, s: Seq<T>) -> bool {
    match a {
        Action::PushBack => s.len() > 0,
        Action::PopBack(_) => true,
        Action::PushFront => s.len() > 0,
        Action::PopFront(_) => true,
        Action::Insert(d) => d.index + d.amount <= s.len(),
        Action::Remove(d) => reinsert_ok(s, d.indecies@, d.values@),
        Action::Move(d) => d.dest_index + d.indecies@.len() <= s.len() && reinsert_ok(
            remove_block(s, d.dest_index as int, d.indecies@.len() as int),
            d.indecies@,
            s.subrange(d.dest_index as int, d.dest_index + d.indecies@.len()),
        ),
    }
}

/// The store after undoing `a` on `s`.
pub open spec fn undo_data<T>(a: Action<T>, s: Seq<T>) -> Seq<T> {
    match a {
        Action::PushBack => s.drop_last(),
        Action::PopBack(v) => s.push(v),
        Action::PushFront => s.drop_first(),
        Action::PopFront(v) => seq![v] + s,
        Action::Insert(d) => remove_block(s, d.index as int, d.amount as int),
        Action::Remove(d) => reinsert(s, d.indecies@, d.values@),
        Action::Move(d) => reinsert(
            remove_block(s, d.dest_index as int, d.indecies@.len() as int),
            d.indecies@,
            s.subrange(d.dest_index as int, d.dest_index + d.indecies@.len()),
        ),
    }
}

/// The elements that undoing `a` on `s` takes out of the store and hands back.
pub open spec fn undo_taken<T>(a: Action<T>, s: Seq<T>) -> Seq<T> {
    match a {
        Action::PushBack => seq![s.last()],
        Action::PushFront => seq![s[0]],
        Action::Insert(d) => s.subrange(d.index as int, d.index + d.amount),
        _ => Seq::empty(),
    }
}

/// The indices that are selected after undoing `a`.
pub open spec fn undo_selection<T>(a: Action<T>) -> Set<usize> {
    match a {
        Action::Remove(d) => index_set_of(d.indecies@),
        Action::Move(d) => index_set_of(d.indecies@),
        _ => Set::empty(),
    }
}

/// The values that `a` owns.
pub open spec fn action_values<T>(a: Action<T>) -> Seq<T> {
    match a {
        Action::PopBack(v) => seq![v],
        Action::PopFront(v) => seq![v],
        Action::Remove(d) => d.values@,
        _ => Seq::empty(),
    }
}

/// The values that the actions of `log` own, oldest action first.
pub open spec fn log_values<T>(log: Seq<Action<T>>) -> Seq<T>
    decreases log.len(),
{
    if log.len() == 0 {
        Seq::empty()
    } else {
        action_values(log[0]) + log_values(log.drop_first())
    }
}

/// Every action of `log` can be undone in turn, newest first, starting from the store `s`.
pub open spec fn log_ok<T>(log: Seq<Action<T>>, s: Seq<T>) -> bool
    decreases log.len(),
{
    log.len() == 0 || (undo_ok(log.last(), s) && log_ok(log.drop_last(), undo_data(log.last(), s)))
}

/// The members of `sel` below `n`, ascending.
pub open spec fn ascending_members(sel: Set<usize>, n: nat) -> Seq<usize>
    decreases n,
{
    if n == 0 {
        Seq::empty()
    } else {
        let p = ascending_members(sel, (n - 1) as nat);
        if sel.contains((n - 1) as usize) {
            p.push((n - 1) as usize)
        } else {
            p
        }
    }
}

/// `s` after removing the positions `idx`, the last one first.
pub open spec fn strip<T>(s: Seq<T>, idx: Seq<usize>) -> Seq<T>
    decreases idx.len(),
{
    if idx.len() == 0 {
        s
    } else {
        strip(s, idx.drop_first()).remove(idx[0] as int)
    }
}

/// The elements of `s` at the positions `idx`, in the order of `idx`.
pub open spec fn pick<T>(s: Seq<T>, idx: Seq<usize>) -> Seq<T> {
    idx.map_values(|i: usize| s[i as int])
}

/// `idx` is strictly ascending and below `n`.
pub open spec fn ascending_below(idx: Seq<usize>, n: nat) -> bool {
    &&& forall|a: int, b: int| 0 <= a < b < idx.len() ==> idx[a] < idx[b]
    &&& forall|a: int| 0 <= a < idx.len() ==> idx[a] < n
}

/// The members of `sel` below `n`, listed ascending, are exactly those members, each once.
pub proof fn lemma_ascending_members(sel: Set<usize>, n: nat)
    requires
        n <= usize::MAX + 1,
    ensures
        ascending_below(ascending_members(sel, n), n),
        forall|j: int|
            0 <= j < ascending_members(sel, n).len() ==> sel.contains(
                #[trigger] ascending_members(sel, n)[j],
            ),
        forall|i: usize| i < n && sel.contains(i) ==> ascending_members(sel, n).contains(i),
        ascending_members(sel, n).len() <= n,
    decreases n,
{
    if n > 0 {
        let m = (n - 1) as nat;
        lemma_ascending_members(sel, m);
        let p = ascending_members(sel, m);
        if sel.contains(m as usize) {
            let q = p.push(m as usize);
            assert forall|i: usize| i < n && sel.contains(i) implies q.contains(i) by {
                if i < m {
                    let w = choose|w: int| 0 <= w < p.len() && p[w] == i;
                    assert(q[w] == i);
                } else {
                    assert(q[p.len() as int] == i);
                }
            }
        }
    }
}

/// Whether reinsertion stays in bounds depends only on the lengths involved,
/// and each reinsertion adds one element.
pub proof fn lemma_reinsert_len<T>(
    s: Seq<T>,
    s2: Seq<T>,
    idx: Seq<usize>,
    vals: Seq<T>,
    vals2: Seq<T>,
)
    requires
        reinsert_ok(s, idx, vals),
        s2.len() >= s.len(),
        vals2.len() == vals.len(),
    ensures
        reinsert_ok(s2, idx, vals2),
        reinsert(s, idx, vals).len() == s.len() + idx.len(),
        reinsert(s2, idx, vals2).len() == s2.len() + idx.len(),
    decreases idx.len(),
{
    if idx.len() > 0 {
        lemma_reinsert_len(
            s.insert(idx[0] as int, vals[0]),
            s2.insert(idx[0] as int, vals2[0]),
            idx.drop_first(),
            vals.drop_first(),
            vals2.drop_first(),
        );
    }
}

/// An action that can be undone on a store can be undone on any longer store,
/// and leaves a store at least as long.
pub proof fn lemma_undo_longer<T>(a: Action<T>, s: Seq<T>, s2: Seq<T>)
    requires
        undo_ok(a, s),
        s2.len() >= s.len(),
    ensures
        undo_ok(a, s2),
        undo_data(a, s2).len() >= undo_data(a, s).len(),
{
    match a {
        Action::Remove(d) => {
            lemma_reinsert_len(s, s2, d.indecies@, d.values@, d.values@);
        },
        Action::Move(d) => {
            let k = d.indecies@.len() as int;
            let at = d.dest_index as int;
            lemma_reinsert_len(
                remove_block(s, at, k),
                remove_block(s2, at, k),
                d.indecies@,
                s.subrange(at, at + k),
                s2.subrange(at, at + k),
            );
        },
        _ => {},
    }
}

/// A log that can be undone from a store can be undone from any longer store.
pub proof fn lemma_log_ok_longer<T>(log: Seq<Action<T>>, s: Seq<T>, s2: Seq<T>)
    requires
        log_ok(log, s),
        s2.len() >= s.len(),
    ensures
        log_ok(log, s2),
    decreases log.len(),
{
    if log.len() > 0 {
        lemma_undo_longer(log.last(), s, s2);
        lemma_log_ok_longer(log.drop_last(), undo_data(log.last(), s), undo_data(log.last(), s2));
    }
}

/// Appending an action to a log appends the values it owns.
pub proof fn lemma_log_values_push<T>(log: Seq<Action<T>>, a: Action<T>)
    ensures
        log_values(log.push(a)) == log_values(log) + action_values(a),
    decreases log.len(),
{
    if log.len() == 0 {
        assert(log.push(a).drop_first() =~= Seq::<Action<T>>::empty());
        assert(log_values(log.push(a).drop_first()) =~= Seq::<T>::empty());
        assert(log_values(log.push(a)) =~= action_values(a));
    } else {
        assert(log.push(a).drop_first() =~= log.drop_first().push(a));
        lemma_log_values_push(log.drop_first(), a);
        assert(log_values(log.push(a)) =~= log_values(log) + action_values(a));
    }
}

/// Hands out the values that an action owns.
pub fn take_values_from_action<T>(action: Action<T>) -> (r: Vec<T>)
    ensures
        r@ == action_values(action),
{
    match action {
        Action::PopBack(element) => {
            let mut r = Vec::new();
            r.push(element);
            r
        },
        Action::PopFront(element) => {
            let mut r = Vec::new();
            r.push(element);
            r
        },
        Action::Remove(data) => data.values,
        Action::Insert(_) => Vec::new(),
        Action::PushBack => Vec::new(),
        Action::PushFront => Vec::new(),
        Action::Move(_) => Vec::new(),
    }
}

} // verus!
