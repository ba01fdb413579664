use std::collections::VecDeque;
use vstd::prelude::*;

use crate::action::{
    Action, InsertData, MoveData, RemoveData, action_values, ascending_below, lemma_log_values_push, ascending_members,
    index_set_of, lemma_ascending_members, lemma_log_ok_longer, log_ok, log_values, pick, reinsert,
    reinsert_ok, remove_block, strip, take_values_from_action, undo_data, undo_ok, undo_selection,
    undo_taken,
};
use crate::selection::{
    index_set_items, set_clear, set_contains, set_insert, set_len, set_new, set_shift_remove,
    set_values,
};

verus! {

/// An ordered collection with a set of selected positions and a log of reversible mutations.
#[derive(Debug)]
pub struct VecHistoric<T> {
    data: Vec<T>,
    selects: indexmap::IndexSet<usize>,
    history: VecDeque<Action<T>>,
}

impl<T> VecHistoric<T> {
    /// The elements, in order.
    pub closed spec fn items(&self) -> Seq<T> {
        self.data@
    }

    /// The selected positions.
    pub closed spec fn selection(&self) -> Set<usize> {
        index_set_items(self.selects)
    }

    /// The recorded actions, oldest first.
    pub closed spec fn log(&self) -> Seq<Action<T>> {
        self.history@
    }

    /// Every selected position is an index of the store, and every recorded
    /// action can be undone in turn, newest first.
    pub open spec fn wf(&self) -> bool {
        &&& self.selection().finite()
        &&& forall|i: usize| self.selection().contains(i) ==> i < self.items().len()
        &&& log_ok(self.log(), self.items())
    }

    /// Creates an empty collection.
    pub fn new() -> (r: Self)
        ensures
            r.wf(),
            r.items().len() == 0,
            r.selection().is_empty(),
            r.log().len() == 0,
    {
        VecHistoric { data: Vec::new(), selects: set_new(), history: VecDeque::new() }
    }

    /// Creates an empty collection with room for `cap` elements.
    pub fn with_capacity(cap: usize) -> (r: Self)
        ensures
            r.wf(),
            r.items().len() == 0,
            r.selection().is_empty(),
            r.log().len() == 0,
    {
        VecHistoric { data: Vec::with_capacity(cap), selects: set_new(), history: VecDeque::new() }
    }

    /// Creates a collection that holds the given elements, with nothing selected or recorded.
    pub fn from_vec(data: Vec<T>) -> (r: Self)
        ensures
            r.wf(),
            r.items() == data@,
            r.selection().is_empty(),
            r.log().len() == 0,
    {
        VecHistoric { data, selects: set_new(), history: VecDeque::new() }
    }

    /// The number of elements.
    pub fn len(&self) -> (r: usize)
        ensures
            r == self.items().len(),
    {
        self.data.len()
    }

    /// Whether the collection holds no elements.
    pub fn is_empty(&self) -> (r: bool)
        ensures
            r == (self.items().len() == 0),
    {
        self.data.len() == 0
    }

    /// The element at `index`.
    pub fn get(&self, index: usize) -> (r: &T)
        requires
            index < self.items().len(),
        ensures
            *r == self.items()[index as int],
    {
        &self.data[index]
    }

    /// The elements, in order.
    pub fn get_inner_data(&self) -> (r: &Vec<T>)
        ensures
            r@ == self.items(),
    {
        &self.data
    }

    /// The number of selected positions.
    pub fn len_selects(&self) -> (r: usize)
        ensures
            r == self.selection().len(),
    {
        set_len(&self.selects)
    }

    /// The number of recorded actions.
    pub fn len_history(&self) -> (r: usize)
        ensures
            r == self.log().len(),
    {
        self.history.len()
    }

    /// The selected positions, each once, in no particular order.
    pub fn iter_selects(&self) -> (r: Vec<usize>)
        ensures
            r@.no_duplicates(),
            r@.to_set() == self.selection(),
    {
        set_values(&self.selects)
    }

    /// The recorded actions, oldest first.
    pub fn iter_history(&self) -> (r: &VecDeque<Action<T>>)
        ensures
            r@ == self.log(),
    {
        &self.history
    }

    /// References to the selected elements, one for each selected position,
    /// in the order in which `iter_selects` lists the positions.
    pub fn get_selected(&self) -> (r: Vec<&T>)
        requires
            self.wf(),
        ensures
            exists|order: Seq<usize>|
                #![trigger order.to_set()]
                order.no_duplicates() && order.to_set() == self.selection() && r@.len() == order.len()
                    && forall|j: int| 0 <= j < order.len() ==> *r@[j] == self.items()[order[j] as int],
    {
        let ids = set_values(&self.selects);
        let mut r: Vec<&T> = Vec::new();
        let mut j: usize = 0;
        while j < ids.len()
            invariant
                self.wf(),
                ids@.to_set() == self.selection(),
                j <= ids@.len(),
                r@.len() == j,
                forall|m: int| 0 <= m < j ==> *r@[m] == self.items()[ids@[m] as int],
            decreases ids@.len() - j,
        {
            let i = ids[j];
            assert(ids@.to_set().contains(i));
            r.push(&self.data[i]);
            j += 1;
        }
        assert(ids@.no_duplicates() && ids@.to_set() == self.selection() && r@.len() == ids@.len()
            && forall|m: int| 0 <= m < ids@.len() ==> *r@[m] == self.items()[ids@[m] as int]);
        r
    }

    /// Selects the element at `index`; selecting it again changes nothing.
    pub fn select(&mut self, index: usize)
        requires
            old(self).wf(),
            index < old(self).items().len(),
        ensures
            final(self).wf(),
            final(self).selection() == old(self).selection().insert(index),
            final(self).items() == old(self).items(),
            final(self).log() == old(self).log(),
    {
        set_insert(&mut self.selects, index);
    }

    /// Deselects the element at `index`; returns whether it was selected.
    pub fn deselect(&mut self, index: usize) -> (r: bool)
        requires
            old(self).wf(),
        ensures
            final(self).wf(),
            r == old(self).selection().contains(index),
            final(self).selection() == old(self).selection().remove(index),
            final(self).items() == old(self).items(),
            final(self).log() == old(self).log(),
    {
        set_shift_remove(&mut self.selects, index)
    }

    /// Whether the element at `index` is selected.
    pub fn is_selected(&self, index: usize) -> (r: bool)
        ensures
            r == self.selection().contains(index),
    {
        set_contains(&self.selects, index)
    }

    /// Deselects every element.
    pub fn deselect_all(&mut self)
        requires
            old(self).wf(),
        ensures
            final(self).wf(),
            final(self).selection().is_empty(),
            final(self).items() == old(self).items(),
            final(self).log() == old(self).log(),
    {
        set_clear(&mut self.selects);
    }

    /// Deselects every element.
    pub fn clear_selects(&mut self)
        requires
            old(self).wf(),
        ensures
            final(self).wf(),
            final(self).selection().is_empty(),
            final(self).items() == old(self).items(),
            final(self).log() == old(self).log(),
    {
        set_clear(&mut self.selects);
    }

    /// Selects every element.
    pub fn select_all(&mut self)
        requires
            old(self).wf(),
        ensures
            final(self).wf(),
            final(self).selection() == block_set(0, old(self).items().len() as int),
            final(self).items() == old(self).items(),
            final(self).log() == old(self).log(),
    {
        let n = self.data.len();
        let mut i: usize = 0;
        assert(old(self).selection().union(block_set(0, 0)) =~= old(self).selection());
        while i < n
            invariant
                i <= n == self.data@.len(),
                self.selection() == old(self).selection().union(block_set(0, i as int)),
                self.selection().finite(),
                forall|p: usize| self.selection().contains(p) ==> p < self.items().len(),
                self.data == old(self).data,
                self.history == old(self).history,
            decreases n - i,
        {
            set_insert(&mut self.selects, i);
            assert(self.selection() =~= old(self).selection().union(block_set(0, i + 1)));
            i += 1;
        }
        assert(self.selection() =~= block_set(0, n as int));
    }

    /// Turns the collection into a consuming iterator.
    pub fn into_iter(self) -> (r: IntoIter<T>)
        requires
            self.wf(),
        ensures
            r.wf(),
            r.remaining() == self.items(),
    {
        IntoIter::new(self)
    }

    /// The number of values that the recorded actions own, or `usize::MAX`
    /// where that number does not fit.
    fn compute_history_values_len(&self) -> (r: usize)
        ensures
            r == (if log_values(self.log()).len() <= usize::MAX {
                log_values(self.log()).len()
            } else {
                usize::MAX as nat
            }),
    {
        let mut len: usize = 0;
        let n = self.history.len();
        let mut i: usize = 0;
        assert(self.history@.subrange(0, 0) =~= Seq::<Action<T>>::empty());
        while i < n
            invariant
                i <= n == self.history@.len(),
                len == (if log_values(self.history@.subrange(0, i as int)).len() <= usize::MAX {
                    log_values(self.history@.subrange(0, i as int)).len()
                } else {
                    usize::MAX as nat
                }),
            decreases n - i,
        {
            let count: usize = match &self.history[i] {
                Action::PopBack(_) => 1,
                Action::PopFront(_) => 1,
                Action::Remove(data) => data.values.len(),
                Action::Insert(_) => 0,
                Action::PushBack => 0,
                Action::PushFront => 0,
                Action::Move(_) => 0,
            };
            proof {
                let pre = self.history@.subrange(0, i as int);
                assert(self.history@.subrange(0, i + 1) =~= pre.push(self.history@[i as int]));
                lemma_log_values_push(pre, self.history@[i as int]);
            }
            len = len.saturating_add(count);
            i += 1;
        }
        assert(self.history@.subrange(0, n as int) =~= self.history@);
        len
    }

    /// Clears the log and returns every value that its actions owned, oldest action first.
    pub fn clear_history(&mut self) -> (r: Vec<T>)
        requires
            old(self).wf(),
        ensures
            final(self).wf(),
            r@ == log_values(old(self).log()),
            final(self).log().len() == 0,
            final(self).items() == old(self).items(),
            final(self).selection() == old(self).selection(),
    {
        let mut values: Vec<T> = Vec::with_capacity(self.compute_history_values_len());
        while self.history.len() > 0
            invariant
                values@ + log_values(self.history@) == log_values(old(self).history@),
                self.data@ == old(self).data@,
                self.selects == old(self).selects,
            decreases self.history@.len(),
        {
            let ghost h = self.history@;
            match self.history.pop_front() {
                Some(action) => {
                    let ghost before = values@;
                    let mut taken = take_values_from_action(action);
                    values.append(&mut taken);
                    assert(h.drop_first() =~= self.history@);
                    assert(before + log_values(h) =~= values@ + log_values(self.history@));
                },
                None => {},
            }
        }
        values
    }

    /// The selected positions, ascending.
    pub open spec fn sorted_selection(&self) -> Seq<usize> {
        ascending_members(self.selection(), self.items().len())
    }

    /// The selected positions, ascending.
    fn selects_sorted(&self) -> (r: Vec<usize>)
        ensures
            r@ == self.sorted_selection(),
            self.items().len() <= usize::MAX,
    {
        let mut r: Vec<usize> = Vec::new();
        let n = self.data.len();
        let mut i: usize = 0;
        while i < n
            invariant
                i <= n == self.data@.len(),
                r@ == ascending_members(self.selection(), i as nat),
            decreases n - i,
        {
            if set_contains(&self.selects, i) {
                r.push(i);
            }
            i += 1;
        }
        r
    }

    /// Takes the selected elements out of the store, the highest position
    /// first. Returns their positions and their values, both ascending.
    fn take_selected(&mut self) -> (r: (Vec<usize>, Vec<T>))
        requires
            old(self).wf(),
        ensures
            r.0@ == old(self).sorted_selection(),
            ascending_below(r.0@, old(self).items().len()),
            r.1@ == pick(old(self).items(), r.0@),
            final(self).items() == strip(old(self).items(), r.0@),
            final(self).items().len() + r.0@.len() == old(self).items().len(),
            reinsert_ok(final(self).items(), r.0@, r.1@),
            reinsert(final(self).items(), r.0@, r.1@) == old(self).items(),
            final(self).selects == old(self).selects,
            final(self).history == old(self).history,
    {
        let idx = self.selects_sorted();
        let ghost s = self.data@;
        let ghost picked = pick(s, idx@);
        proof {
            lemma_ascending_members(self.selection(), s.len());
        }
        let k = idx.len();
        let mut vals: Vec<T> = Vec::new();
        let mut j = k;
        while j > 0
            invariant
                j <= k == idx@.len(),
                idx@ == old(self).sorted_selection(),
                s == old(self).data@,
                picked == pick(s, idx@),
                ascending_below(idx@, s.len()),
                self.data@.len() + (k - j) == s.len(),
                self.data@.len() >= (if j == k { s.len() as int } else { idx@[j as int] as int }),
                forall|p: int|
                    0 <= p < (if j == k { s.len() as int } else { idx@[j as int] as int })
                        ==> self.data@[p] == s[p],
                self.data@ == strip(s, idx@.subrange(j as int, k as int)),
                vals@ == picked.subrange(j as int, k as int),
                reinsert_ok(self.data@, idx@.subrange(j as int, k as int), vals@),
                reinsert(self.data@, idx@.subrange(j as int, k as int), vals@) == s,
                self.selects == old(self).selects,
                self.history == old(self).history,
            decreases j,
        {
            j -= 1;
            let i = idx[j];
            let ghost d0 = self.data@;
            let ghost v0 = vals@;
            let e = self.data.remove(i);
            vals.insert(0, e);
            proof {
                let sub = idx@.subrange(j as int, k as int);
                assert(sub.drop_first() =~= idx@.subrange(j + 1, k as int));
                assert(vals@.drop_first() =~= v0);
                assert(self.data@.insert(i as int, e) =~= d0);
                assert(vals@ =~= picked.subrange(j as int, k as int));
            }
        }
        assert(idx@.subrange(0, k as int) =~= idx@);
        (idx, vals)
    }

    /// Removes the selected elements, records them, clears the selection and
    /// returns a reference to the recorded values, in ascending order of position.
    pub fn remove_selects_historic(&mut self) -> (r: &Vec<T>)
        requires
            old(self).wf(),
        ensures
            final(self).wf(),
            r@ == pick(old(self).items(), old(self).sorted_selection()),
            final(self).items() == strip(old(self).items(), old(self).sorted_selection()),
            final(self).selection().is_empty(),
            final(self).log().drop_last() == old(self).log(),
            final(self).log().len() == old(self).log().len() + 1,
            records_remove(final(self).log().last(), old(self).sorted_selection(), r@),
            undo_data(final(self).log().last(), final(self).items()) == old(self).items(),
    {
        let (idx, vals) = self.take_selected();
        set_clear(&mut self.selects);
        self.history.push_back(Action::Remove(RemoveData { indecies: idx, values: vals }));
        assert(self.history@.drop_last() =~= old(self).history@);
        let last = self.history.len() - 1;
        match &self.history[last] {
            Action::Remove(d) => &d.values,
            _ => {
                proof {
                    assert(false);
                }
                &self.data
            },
        }
    }

    /// Inserts `vals[j]` at `idx[j]`, for `j` ascending, and selects each of those positions.
    fn reinsert_selecting(&mut self, idx: &Vec<usize>, vals: Vec<T>)
        requires
            reinsert_ok(old(self).data@, idx@, vals@),
            old(self).selection().is_empty(),
        ensures
            final(self).data@ == reinsert(old(self).data@, idx@, vals@),
            final(self).selection() == index_set_of(idx@),
            final(self).selection().finite(),
            forall|i: usize| final(self).selection().contains(i) ==> i < final(self).data@.len(),
            final(self).history == old(self).history,
    {
        let ghost target = reinsert(self.data@, idx@, vals@);
        let mut vals = vals;
        let k = idx.len();
        let mut j: usize = 0;
        assert(idx@.subrange(0, k as int) =~= idx@);
        assert(index_set_of(idx@.subrange(0, 0)) =~= Set::<usize>::empty());
        while j < k
            invariant
                j <= k == idx@.len(),
                reinsert_ok(self.data@, idx@.subrange(j as int, k as int), vals@),
                reinsert(self.data@, idx@.subrange(j as int, k as int), vals@) == target,
                self.selection() == index_set_of(idx@.subrange(0, j as int)),
                self.selection().finite(),
                forall|i: usize| self.selection().contains(i) ==> i < self.data@.len(),
                self.history == old(self).history,
            decreases k - j,
        {
            let i = idx[j];
            let ghost sub = idx@.subrange(j as int, k as int);
            let ghost v0 = vals@;
            let v = vals.remove(0);
            self.data.insert(i, v);
            set_insert(&mut self.selects, i);
            proof {
                assert(sub.drop_first() =~= idx@.subrange(j + 1, k as int));
                assert(vals@ =~= v0.drop_first());
                assert forall|p: usize|
                    idx@.subrange(0, j + 1).contains(p) <==> (idx@.subrange(0, j as int).contains(p)
                        || p == i) by {
                    if idx@.subrange(0, j + 1).contains(p) {
                        let w = choose|w: int|
                            0 <= w < j + 1 && #[trigger] idx@.subrange(0, j + 1)[w] == p;
                        if w < j {
                            assert(idx@.subrange(0, j as int)[w] == p);
                        }
                    }
                    if idx@.subrange(0, j as int).contains(p) {
                        let w = choose|w: int|
                            0 <= w < j && #[trigger] idx@.subrange(0, j as int)[w] == p;
                        assert(idx@.subrange(0, j + 1)[w] == p);
                    }
                    if p == i {
                        assert(idx@.subrange(0, j + 1)[j as int] == p);
                    }
                }
                assert(self.selection() =~= index_set_of(idx@.subrange(0, j + 1)));
            }
            j += 1;
        }
        assert(idx@.subrange(0, k as int) =~= idx@);
    }

    /// Removes the `k` elements that start at `at` and returns them in order.
    fn take_block(&mut self, at: usize, k: usize) -> (r: Vec<T>)
        requires
            at + k <= old(self).data@.len(),
        ensures
            final(self).data@ == remove_block(old(self).data@, at as int, k as int),
            r@ == old(self).data@.subrange(at as int, at + k),
            final(self).selects == old(self).selects,
            final(self).history == old(self).history,
    {
        let ghost s = self.data@;
        let mut r: Vec<T> = Vec::new();
        let mut j: usize = 0;
        while j < k
            invariant
                j <= k,
                at + k <= s.len(),
                self.data@ == remove_block(s, at as int, j as int),
                r@ == s.subrange(at as int, at + j),
                self.selects == old(self).selects,
                self.history == old(self).history,
            decreases k - j,
        {
            let e = self.data.remove(at);
            r.push(e);
            assert(self.data@ =~= remove_block(s, at as int, j + 1));
            assert(r@ =~= s.subrange(at as int, at + j + 1));
            j += 1;
        }
        r
    }

    /// Applies the inverse of `action` to the store and returns what it took out.
    fn handle_action(&mut self, action: Action<T>) -> (r: Vec<T>)
        requires
            undo_ok(action, old(self).data@),
        ensures
            final(self).data@ == undo_data(action, old(self).data@),
            r@ == undo_taken(action, old(self).data@),
            final(self).selection() == undo_selection(action),
            final(self).selection().finite(),
            forall|i: usize| final(self).selection().contains(i) ==> i < final(self).data@.len(),
            final(self).history == old(self).history,
    {
        set_clear(&mut self.selects);
        let ghost s = self.data@;
        match action {
            Action::PushBack => {
                let mut r: Vec<T> = Vec::new();
                match self.data.pop() {
                    Some(e) => r.push(e),
                    None => {},
                }
                assert(r@ =~= seq![s.last()]);
                r
            },
            Action::PopBack(element) => {
                self.data.push(element);
                Vec::new()
            },
            Action::PushFront => {
                let e = self.data.remove(0);
                let mut r: Vec<T> = Vec::new();
                r.push(e);
                assert(self.data@ =~= s.drop_first());
                assert(r@ =~= seq![s[0]]);
                r
            },
            Action::PopFront(element) => {
                self.data.insert(0, element);
                assert(self.data@ =~= seq![element] + s);
                Vec::new()
            },
            Action::Insert(data) => self.take_block(data.index, data.amount),
            Action::Remove(data) => {
                let RemoveData { indecies, values } = data;
                self.reinsert_selecting(&indecies, values);
                Vec::new()
            },
            Action::Move(data) => {
                let block = self.take_block(data.dest_index, data.indecies.len());
                self.reinsert_selecting(&data.indecies, block);
                Vec::new()
            },
        }
    }

    /// Undoes the most recent recorded action and returns the elements that
    /// this takes out of the store. With an empty log nothing changes and
    /// nothing is returned.
    pub fn undo(&mut self) -> (r: Vec<T>)
        requires
            old(self).wf(),
        ensures
            final(self).wf(),
            old(self).log().len() == 0 ==> r@.len() == 0 && final(self).items() == old(self).items()
                && final(self).selection() == old(self).selection() && final(self).log()
                == old(self).log(),
            old(self).log().len() > 0 ==> final(self).log() == old(self).log().drop_last()
                && final(self).items() == undo_data(old(self).log().last(), old(self).items())
                && r@ == undo_taken(old(self).log().last(), old(self).items())
                && final(self).selection() == undo_selection(old(self).log().last()),
    {
        match self.history.pop_back() {
            None => Vec::new(),
            Some(action) => {
                assert(self.history@ =~= old(self).history@.drop_last());
                self.handle_action(action)
            },
        }
    }

    /// Inserts `block` at `at`, keeping its order.
    fn insert_block(&mut self, at: usize, block: Vec<T>)
        requires
            at <= old(self).data@.len(),
        ensures
            final(self).data@ == place_block(old(self).data@, at as int, block@),
            final(self).selects == old(self).selects,
            final(self).history == old(self).history,
    {
        let ghost s = self.data@;
        let ghost b = block@;
        let mut block = block;
        let k = block.len();
        let mut j: usize = 0;
        while j < k
            invariant
                j <= k == b.len(),
                at <= s.len(),
                block@ == b.subrange(j as int, k as int),
                self.data@ == s.subrange(0, at as int) + b.subrange(0, j as int) + s.subrange(
                    at as int,
                    s.len() as int,
                ),
                self.selects == old(self).selects,
                self.history == old(self).history,
            decreases k - j,
        {
            let cur = self.data.len();
            assert(at + j <= cur);
            let ghost b0 = block@;
            let v = block.remove(0);
            assert(v == b[j as int]);
            self.data.insert(at + j, v);
            assert(block@ =~= b.subrange(j + 1, k as int));
            assert(self.data@ =~= s.subrange(0, at as int) + b.subrange(0, j + 1) + s.subrange(
                at as int,
                s.len() as int,
            ));
            j += 1;
        }
        assert(b.subrange(0, k as int) =~= b);
    }

    /// Selects the `k` positions that start at `at`.
    fn select_block(&mut self, at: usize, k: usize)
        requires
            at + k <= old(self).data@.len(),
            old(self).selection().is_empty(),
        ensures
            final(self).selection() == block_set(at as int, k as int),
            final(self).selection().finite(),
            final(self).data == old(self).data,
            final(self).history == old(self).history,
    {
        let mut j: usize = 0;
        assert(block_set(at as int, 0) =~= Set::<usize>::empty());
        while j < k
            invariant
                j <= k,
                at + k <= self.data@.len(),
                self.selection() == block_set(at as int, j as int),
                self.selection().finite(),
                self.data == old(self).data,
                self.history == old(self).history,
            decreases k - j,
        {
            let cur = self.data.len();
            assert(at + j < cur);
            set_insert(&mut self.selects, at + j);
            assert(self.selection() =~= block_set(at as int, j + 1));
            j += 1;
        }
    }

    /// Moves the selected elements, in their order, to one contiguous block
    /// that starts at `to_index`, or ends at the end where `to_index` lies
    /// beyond the remaining elements. The block is selected afterwards; the
    /// log is cleared.
    pub fn move_selects(&mut self, to_index: usize)
        requires
            old(self).wf(),
        ensures
            final(self).wf(),
            final(self).items() == moved_items(
                old(self).items(),
                old(self).sorted_selection(),
                to_index as int,
            ),
            final(self).selection() == block_set(
                move_dest(
                    old(self).items().len() as int,
                    old(self).sorted_selection().len() as int,
                    to_index as int,
                ),
                old(self).sorted_selection().len() as int,
            ),
            final(self).log().len() == 0,
    {
        let (idx, vals) = self.take_selected();
        let mut to_index = to_index;
        if to_index > self.data.len() {
            to_index = self.data.len();
        }
        set_clear(&mut self.selects);
        self.history.clear();
        let k = vals.len();
        self.insert_block(to_index, vals);
        self.select_block(to_index, k);
    }

    /// Moves the selected elements as `move_selects` does, and records the
    /// move, with the position where the block now starts and the positions
    /// its elements held before. The record replaces the whole log.
    pub fn move_selects_historic(&mut self, to_index: usize)
        requires
            old(self).wf(),
        ensures
            final(self).wf(),
            final(self).items() == moved_items(
                old(self).items(),
                old(self).sorted_selection(),
                to_index as int,
            ),
            final(self).selection() == block_set(
                move_dest(
                    old(self).items().len() as int,
                    old(self).sorted_selection().len() as int,
                    to_index as int,
                ),
                old(self).sorted_selection().len() as int,
            ),
            final(self).log().len() == 1,
            records_move(
                final(self).log()[0],
                move_dest(
                    old(self).items().len() as int,
                    old(self).sorted_selection().len() as int,
                    to_index as int,
                ),
                old(self).sorted_selection(),
            ),
            undo_data(final(self).log().last(), final(self).items()) == old(self).items(),
    {
        let n = self.data.len();
        let (idx, vals) = self.take_selected();
        let k = idx.len();
        let mut to_index = to_index;
        if to_index >= n {
            to_index = n - k;
        }
        if to_index > self.data.len() {
            to_index = self.data.len();
        }
        let ghost c = self.data@;
        set_clear(&mut self.selects);
        self.history.clear();
        self.insert_block(to_index, vals);
        self.select_block(to_index, k);
        self.history.push_back(Action::Move(MoveData { dest_index: to_index, indecies: idx }));
        proof {
            let s2 = self.data@;
            assert(remove_block(s2, to_index as int, k as int) =~= c);
            assert(s2.subrange(to_index as int, to_index + k) =~= pick(old(self).data@, idx@));
            assert(self.history@.drop_last() =~= Seq::<Action<T>>::empty());
            assert(log_ok(self.history@.drop_last(), undo_data(self.history@.last(), s2)));
        }
    }

    /// Removes the selected elements and returns them, the highest position
    /// first. Clears the selection and the log.
    pub fn remove_selects(&mut self) -> (r: Vec<T>)
        requires
            old(self).wf(),
        ensures
            final(self).wf(),
            r@ == pick(old(self).items(), old(self).sorted_selection()).reverse(),
            final(self).items() == strip(old(self).items(), old(self).sorted_selection()),
            final(self).selection().is_empty(),
            final(self).log().len() == 0,
    {
        let (_idx, vals) = self.take_selected();
        set_clear(&mut self.selects);
        self.history.clear();
        let ghost picked = vals@;
        let mut vals = vals;
        let mut r: Vec<T> = Vec::new();
        while vals.len() > 0
            invariant
                vals@ == picked.subrange(0, vals@.len() as int),
                r@ == picked.reverse().subrange(0, picked.len() - vals@.len()),
                vals@.len() <= picked.len(),
            decreases vals@.len(),
        {
            match vals.pop() {
                Some(v) => {
                    r.push(v);
                },
                None => {},
            }
            assert(vals@ =~= picked.subrange(0, vals@.len() as int));
            assert(r@ =~= picked.reverse().subrange(0, picked.len() - vals@.len()));
        }
        assert(r@ =~= picked.reverse());
        r
    }

    /// Inserts an element at the front and records it. Clears the selection.
    pub fn push_front_historic(&mut self, value: T)
        requires
            old(self).wf(),
        ensures
            final(self).wf(),
            final(self).items() == seq![value] + old(self).items(),
            final(self).selection().is_empty(),
            final(self).log() == old(self).log().push(Action::PushFront),
            undo_data(final(self).log().last(), final(self).items()) == old(self).items(),
    {
        set_clear(&mut self.selects);
        self.data.insert(0, value);
        self.history.push_back(Action::PushFront);
        assert(self.data@ =~= seq![value] + old(self).data@);
        assert(self.data@.drop_first() =~= old(self).data@);
        assert(self.history@.drop_last() =~= old(self).history@);
    }

    /// Removes the first element, records it, and returns a reference to the
    /// recorded value, or `None` if the collection is empty. Clears the selection.
    pub fn pop_front_historic(&mut self) -> (r: Option<&T>)
        requires
            old(self).wf(),
        ensures
            final(self).wf(),
            final(self).selection().is_empty(),
            old(self).items().len() == 0 ==> r.is_none() && final(self).items() == old(self).items()
                && final(self).log() == old(self).log(),
            old(self).items().len() > 0 ==> r == Some(&old(self).items()[0])
                && final(self).items() == old(self).items().drop_first()
                && final(self).log() == old(self).log().push(Action::PopFront(old(self).items()[0]))
                && undo_data(final(self).log().last(), final(self).items()) == old(self).items(),
    {
        set_clear(&mut self.selects);
        if self.data.len() == 0 {
            return None;
        }
        let element = self.data.remove(0);
        self.history.push_back(Action::PopFront(element));
        assert(self.data@ =~= old(self).data@.drop_first());
        assert(seq![element] + self.data@ =~= old(self).data@);
        assert(self.history@.drop_last() =~= old(self).history@);
        let last = self.history.len() - 1;
        match &self.history[last] {
            Action::PopFront(v) => Some(v),
            _ => None,
        }
    }

    /// Inserts an element at `index`, selects it alone and records the insertion.
    pub fn insert_historic(&mut self, index: usize, value: T)
        requires
            old(self).wf(),
            index <= old(self).items().len(),
        ensures
            final(self).wf(),
            final(self).items() == old(self).items().insert(index as int, value),
            final(self).selection() == set![index],
            final(self).log().drop_last() == old(self).log(),
            final(self).log().len() == old(self).log().len() + 1,
            records_insert(final(self).log().last(), index as int, 1),
            undo_data(final(self).log().last(), final(self).items()) == old(self).items(),
    {
        set_clear(&mut self.selects);
        self.data.insert(index, value);
        set_insert(&mut self.selects, index);
        self.history.push_back(Action::Insert(InsertData { index, amount: 1 }));
        assert(remove_block(self.data@, index as int, 1) =~= old(self).data@);
        assert(self.history@.drop_last() =~= old(self).history@);
        assert(self.selection() =~= set![index]);
    }

    /// Inserts `items` at `index`, keeping their order, selects exactly the
    /// inserted positions and records the insertion.
    pub fn insert_many_historic(&mut self, index: usize, items: Vec<T>)
        requires
            old(self).wf(),
            index <= old(self).items().len(),
        ensures
            final(self).wf(),
            final(self).items() == place_block(old(self).items(), index as int, items@),
            final(self).selection() == block_set(index as int, items@.len() as int),
            final(self).log().drop_last() == old(self).log(),
            final(self).log().len() == old(self).log().len() + 1,
            records_insert(final(self).log().last(), index as int, items@.len() as int),
            undo_data(final(self).log().last(), final(self).items()) == old(self).items(),
    {
        set_clear(&mut self.selects);
        let amount = items.len();
        self.insert_block(index, items);
        self.select_block(index, amount);
        self.history.push_back(Action::Insert(InsertData { index, amount }));
        assert(remove_block(self.data@, index as int, amount as int) =~= old(self).data@);
        assert(self.history@.drop_last() =~= old(self).history@);
    }

    /// Clears the log and the selection.
    fn invalidate(&mut self)
        requires
            old(self).wf(),
        ensures
            final(self).wf(),
            final(self).items() == old(self).items(),
            final(self).selection().is_empty(),
            final(self).log().len() == 0,
    {
        let _discarded = self.clear_history();
        set_clear(&mut self.selects);
    }

    /// Removes and returns the last element, or `None` if the collection is
    /// empty. Clears the log and the selection.
    pub fn pop_back(&mut self) -> (r: Option<T>)
        requires
            old(self).wf(),
        ensures
            final(self).wf(),
            final(self).selection().is_empty(),
            final(self).log().len() == 0,
            old(self).items().len() == 0 ==> r.is_none() && final(self).items() == old(self).items(),
            old(self).items().len() > 0 ==> r == Some(old(self).items().last())
                && final(self).items() == old(self).items().drop_last(),
    {
        self.invalidate();
        self.data.pop()
    }

    /// Removes and returns the first element, or `None` if the collection is
    /// empty. Clears the log and the selection.
    pub fn pop_front(&mut self) -> (r: Option<T>)
        requires
            old(self).wf(),
        ensures
            final(self).wf(),
            final(self).selection().is_empty(),
            final(self).log().len() == 0,
            old(self).items().len() == 0 ==> r.is_none() && final(self).items() == old(self).items(),
            old(self).items().len() > 0 ==> r == Some(old(self).items()[0])
                && final(self).items() == old(self).items().drop_first(),
    {
        self.invalidate();
        if self.data.len() == 0 {
            None
        } else {
            let e = self.data.remove(0);
            assert(self.data@ =~= old(self).data@.drop_first());
            Some(e)
        }
    }

    /// Appends an element at the back. Positions already held keep their
    /// meaning, so the log and the selection stay.
    pub fn push_back(&mut self, value: T)
        requires
            old(self).wf(),
        ensures
            final(self).wf(),
            final(self).items() == old(self).items().push(value),
            final(self).selection() == old(self).selection(),
            final(self).log() == old(self).log(),
    {
        self.data.push(value);
        proof {
            lemma_log_ok_longer(self.history@, old(self).data@, self.data@);
        }
    }

    /// Inserts an element at the front. Clears the log and the selection.
    pub fn push_front(&mut self, value: T)
        requires
            old(self).wf(),
        ensures
            final(self).wf(),
            final(self).items() == seq![value] + old(self).items(),
            final(self).selection().is_empty(),
            final(self).log().len() == 0,
    {
        self.invalidate();
        self.data.insert(0, value);
        assert(self.data@ =~= seq![value] + old(self).data@);
    }

    /// Inserts an element at `index`. Clears the log and the selection.
    pub fn insert(&mut self, index: usize, value: T)
        requires
            old(self).wf(),
            index <= old(self).items().len(),
        ensures
            final(self).wf(),
            final(self).items() == old(self).items().insert(index as int, value),
            final(self).selection().is_empty(),
            final(self).log().len() == 0,
    {
        self.invalidate();
        self.data.insert(index, value);
    }

    /// Inserts `items` at `index`, keeping their order. Clears the log and the selection.
    pub fn insert_many(&mut self, index: usize, items: Vec<T>)
        requires
            old(self).wf(),
            index <= old(self).items().len(),
        ensures
            final(self).wf(),
            final(self).items() == place_block(old(self).items(), index as int, items@),
            final(self).selection().is_empty(),
            final(self).log().len() == 0,
    {
        self.invalidate();
        self.insert_block(index, items);
    }

    /// Replaces the element at `index`. No position moves, so the log and the selection stay.
    pub fn set(&mut self, index: usize, value: T)
        requires
            old(self).wf(),
            index < old(self).items().len(),
        ensures
            final(self).wf(),
            final(self).items() == old(self).items().update(index as int, value),
            final(self).selection() == old(self).selection(),
            final(self).log() == old(self).log(),
    {
        self.data.set(index, value);
        proof {
            lemma_log_ok_longer(self.history@, old(self).data@, self.data@);
        }
    }

    /// Appends `items` at the back, keeping their order. Clears the log; the selection stays.
    pub fn extend(&mut self, items: Vec<T>)
        requires
            old(self).wf(),
        ensures
            final(self).wf(),
            final(self).items() == old(self).items() + items@,
            final(self).selection() == old(self).selection(),
            final(self).log().len() == 0,
    {
        let _discarded = self.clear_history();
        let n = self.data.len();
        self.insert_block(n, items);
        assert(self.data@ =~= old(self).data@ + items@);
    }

    /// Removes and returns the element at `index`. Clears the log and the selection.
    pub fn remove(&mut self, index: usize) -> (r: T)
        requires
            old(self).wf(),
            index < old(self).items().len(),
        ensures
            final(self).wf(),
            r == old(self).items()[index as int],
            final(self).items() == old(self).items().remove(index as int),
            final(self).selection().is_empty(),
            final(self).log().len() == 0,
    {
        self.invalidate();
        self.data.remove(index)
    }

    /// Removes every element. Clears the log and the selection.
    pub fn clear(&mut self)
        requires
            old(self).wf(),
        ensures
            final(self).wf(),
            final(self).items().len() == 0,
            final(self).selection().is_empty(),
            final(self).log().len() == 0,
    {
        self.invalidate();
        self.data.clear();
    }

    /// Removes the elements at positions `start` up to `end` (excluded) and
    /// returns them in order. Clears the log and the selection.
    pub fn drain(&mut self, start: usize, end: usize) -> (r: Vec<T>)
        requires
            old(self).wf(),
            start <= end <= old(self).items().len(),
        ensures
            final(self).wf(),
            r@ == old(self).items().subrange(start as int, end as int),
            final(self).items() == remove_block(old(self).items(), start as int, end - start),
            final(self).selection().is_empty(),
            final(self).log().len() == 0,
    {
        self.invalidate();
        self.take_block(start, end - start)
    }

    /// Appends an element at the back and records it.
    pub fn push_back_historic(&mut self, value: T)
        requires
            old(self).wf(),
        ensures
            final(self).wf(),
            final(self).items() == old(self).items().push(value),
            final(self).selection() == old(self).selection(),
            final(self).log() == old(self).log().push(Action::PushBack),
            undo_data(final(self).log().last(), final(self).items()) == old(self).items(),
    {
        self.data.push(value);
        self.history.push_back(Action::PushBack);
        assert(self.data@.drop_last() =~= old(self).data@);
        assert(self.history@.drop_last() =~= old(self).history@);
    }

    /// Removes the last element, records it, and returns a reference to the
    /// recorded value, or `None` if the collection is empty. Clears the selection.
    pub fn pop_back_historic(&mut self) -> (r: Option<&T>)
        requires
            old(self).wf(),
        ensures
            final(self).wf(),
            final(self).selection().is_empty(),
            old(self).items().len() == 0 ==> r.is_none() && final(self).items() == old(self).items()
                && final(self).log() == old(self).log(),
            old(self).items().len() > 0 ==> r == Some(&old(self).items().last())
                && final(self).items() == old(self).items().drop_last()
                && final(self).log() == old(self).log().push(Action::PopBack(old(self).items().last()))
                && undo_data(final(self).log().last(), final(self).items()) == old(self).items(),
    {
        set_clear(&mut self.selects);
        match self.data.pop() {
            None => None,
            Some(element) => {
                self.history.push_back(Action::PopBack(element));
                assert(self.data@.push(element) =~= old(self).data@);
                assert(self.history@.drop_last() =~= old(self).history@);
                let last = self.history.len() - 1;
                match &self.history[last] {
                    Action::PopBack(v) => Some(v),
                    _ => None,
                }
            },
        }
    }
}

/// `a` records the removal of the values `vals` from the positions `idx`.
pub open spec fn records_remove<T>(a: Action<T>, idx: Seq<usize>, vals: Seq<T>) -> bool {
    match a {
        Action::Remove(d) => d.indecies@ == idx && d.values@ == vals,
        _ => false,
    }
}

/// Hands out the elements of a collection, from the front or from the back.
pub struct IntoIter<T> {
    inner: VecHistoric<T>,
}

impl<T> IntoIter<T> {
    /// The elements not yet handed out, in order.
    pub closed spec fn remaining(&self) -> Seq<T> {
        self.inner.items()
    }

    pub closed spec fn wf(&self) -> bool {
        self.inner.wf()
    }

    pub fn new(inner: VecHistoric<T>) -> (r: Self)
        requires
            inner.wf(),
        ensures
            r.wf(),
            r.remaining() == inner.items(),
    {
        IntoIter { inner }
    }

    /// The first element not yet handed out, or `None` when none is left.
    pub fn next(&mut self) -> (r: Option<T>)
        requires
            old(self).wf(),
        ensures
            final(self).wf(),
            old(self).remaining().len() == 0 ==> r.is_none() && final(self).remaining()
                == old(self).remaining(),
            old(self).remaining().len() > 0 ==> r == Some(old(self).remaining()[0])
                && final(self).remaining() == old(self).remaining().drop_first(),
    {
        self.inner.pop_front()
    }

    /// The last element not yet handed out, or `None` when none is left.
    pub fn next_back(&mut self) -> (r: Option<T>)
        requires
            old(self).wf(),
        ensures
            final(self).wf(),
            old(self).remaining().len() == 0 ==> r.is_none() && final(self).remaining()
                == old(self).remaining(),
            old(self).remaining().len() > 0 ==> r == Some(old(self).remaining().last())
                && final(self).remaining() == old(self).remaining().drop_last(),
    {
        self.inner.pop_back()
    }

    /// The number of elements not yet handed out, exactly.
    pub fn size_hint(&self) -> (r: (usize, Option<usize>))
        ensures
            r.0 == self.remaining().len(),
            r.1 == Some(r.0),
    {
        let n = self.inner.len();
        (n, Some(n))
    }
}

/// `a` records `amount` elements inserted at `index`.
pub open spec fn records_insert<T>(a: Action<T>, index: int, amount: int) -> bool {
    match a {
        Action::Insert(d) => d.index == index && d.amount == amount,
        _ => false,
    }
}

/// `a` records a block that starts at `dest` and came from the positions `idx`.
pub open spec fn records_move<T>(a: Action<T>, dest: int, idx: Seq<usize>) -> bool {
    match a {
        Action::Move(d) => d.dest_index == dest && d.indecies@ == idx,
        _ => false,
    }
}

/// `c` with `b` inserted at `at`.
pub open spec fn place_block<T>(c: Seq<T>, at: int, b: Seq<T>) -> Seq<T> {
    c.subrange(0, at) + b + c.subrange(at, c.len() as int)
}

/// The `k` positions that start at `at`.
pub open spec fn block_set(at: int, k: int) -> Set<usize> {
    Set::new(|p: usize| at <= p < at + k)
}

/// Where a block of `k` elements taken out of `n` lands when it is moved to `dest`.
pub open spec fn move_dest(n: int, k: int, dest: int) -> int {
    if dest > n - k {
        n - k
    } else {
        dest
    }
}

/// `s` after the elements at the ascending positions `idx` are moved to one
/// block at `dest`, or at the end where `dest` lies beyond the remaining elements.
pub open spec fn moved_items<T>(s: Seq<T>, idx: Seq<usize>, dest: int) -> Seq<T> {
    place_block(
        strip(s, idx),
        move_dest(s.len() as int, idx.len() as int, dest),
        pick(s, idx),
    )
}

} // verus!
