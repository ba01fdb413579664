use vstd::prelude::*;

verus! {

#[verifier::external_type_specification]
#[verifier::external_body]
#[verifier::reject_recursive_types(T)]
#[verifier::reject_recursive_types(S)]
pub struct ExIndexSet<T, S>(indexmap::IndexSet<T, S>);

/// The indices that an `IndexSet<usize>` holds, as a set.
pub uninterp spec fn index_set_items(s: indexmap::IndexSet<usize>) -> Set<usize>;

/// Relies on `IndexSet::new`: a new set holds nothing.
#[verifier::external_body]
pub(crate) fn set_new() -> (r: indexmap::IndexSet<usize>)
    ensures
        index_set_items(r) == Set::<usize>::empty(),
{
    indexmap::IndexSet::new()
}

/// Relies on `IndexSet::insert`: adds the value; `true` exactly when it was absent.
#[verifier::external_body]
pub(crate) fn set_insert(s: &mut indexmap::IndexSet<usize>, v: usize) -> (r: bool)
    ensures
        index_set_items(*final(s)) == index_set_items(*old(s)).insert(v),
        r == !index_set_items(*old(s)).contains(v),
{
    s.insert(v)
}

/// Relies on `IndexSet::shift_remove`: removes the value; `true` exactly when it was present.
#[verifier::external_body]
pub(crate) fn set_shift_remove(s: &mut indexmap::IndexSet<usize>, v: usize) -> (r: bool)
    ensures
        index_set_items(*final(s)) == index_set_items(*old(s)).remove(v),
        r == index_set_items(*old(s)).contains(v),
{
    s.shift_remove(&v)
}

/// Relies on `IndexSet::contains`: membership of the value.
#[verifier::external_body]
pub(crate) fn set_contains(s: &indexmap::IndexSet<usize>, v: usize) -> (r: bool)
    ensures
        r == index_set_items(*s).contains(v),
{
    s.contains(&v)
}

/// Relies on `IndexSet::clear`: afterwards the set holds nothing.
#[verifier::external_body]
pub(crate) fn set_clear(s: &mut indexmap::IndexSet<usize>)
    ensures
        index_set_items(*final(s)) == Set::<usize>::empty(),
{
    s.clear()
}

/// Relies on `IndexSet::len`: the number of values held.
#[verifier::external_body]
pub(crate) fn set_len(s: &indexmap::IndexSet<usize>) -> (r: usize)
    ensures
        r as nat == index_set_items(*s).len(),
{
    s.len()
}

/// Relies on `IndexSet::iter`: every value held, each once.
#[verifier::external_body]
pub(crate) fn set_values(s: &indexmap::IndexSet<usize>) -> (r: Vec<usize>)
    ensures
        r@.no_duplicates(),
        r@.to_set() == index_set_items(*s),
{
    s.iter().copied().collect()
}

} // verus!
