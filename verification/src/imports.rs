//! Sets of Python modules to import, kept in first-insertion order in an
//! `indexmap::IndexSet`.

use vstd::prelude::*;
use indexmap::IndexSet;

verus! {

#[verifier::external_type_specification]
#[verifier::external_body]
#[verifier::reject_recursive_types(T)]
#[verifier::reject_recursive_types(S)]
pub struct ExIndexSet<T, S>(IndexSet<T, S>);

/// The items of an import set, in the set's order.
pub uninterp spec fn import_items(s: IndexSet<String>) -> Seq<Seq<char>>;

/// Trusted: `IndexSet::new`, which makes an empty set.
#[verifier::external_body]
pub(crate) fn new_import_set() -> (s: IndexSet<String>)
    ensures
        import_items(s) == Seq::<Seq<char>>::empty(),
{
    IndexSet::new()
}

/// Trusted: `IndexSet::insert`. As indexmap's source shows, an item equal
/// to one already in the set leaves the set as it was and gives `false`;
/// otherwise the item goes last and the call gives `true`.
#[verifier::external_body]
pub(crate) fn insert_import(s: &mut IndexSet<String>, v: String) -> (added: bool)
    ensures
        added == !import_items(*old(s)).contains(v@),
        import_items(*final(s)) == (if added {
            import_items(*old(s)).push(v@)
        } else {
            import_items(*old(s))
        }),
{
    s.insert(v)
}

/// The first occurrence of each item of `s`, in order.
pub open spec fn first_occurrences(s: Seq<Seq<char>>) -> Seq<Seq<char>>
    decreases s.len(),
{
    if s.len() == 0 {
        Seq::empty()
    } else {
        let d = first_occurrences(s.drop_last());
        if d.contains(s.last()) {
            d
        } else {
            d.push(s.last())
        }
    }
}

/// An import set holding the given modules, each once, in the order of
/// their first occurrence.
pub fn import_set_of(v: &Vec<String>) -> (s: IndexSet<String>)
    ensures
        import_items(s) == first_occurrences(v@.map_values(|x: String| x@)),
{
    let mut s = new_import_set();
    let mut i: usize = 0;
    let ghost w = v@.map_values(|x: String| x@);
    assert(w.subrange(0, 0) =~= Seq::<Seq<char>>::empty());
    while i < v.len()
        invariant
            i <= v.len(),
            w == v@.map_values(|x: String| x@),
            import_items(s) == first_occurrences(w.subrange(0, i as int)),
        decreases v.len() - i,
    {
        let _ = insert_import(&mut s, v[i].clone());
        assert(w.subrange(0, i + 1).drop_last() =~= w.subrange(0, i as int));
        i = i + 1;
    }
    assert(w.subrange(0, v.len() as int) =~= w);
    s
}

/// Whether the list holds the string `x`.
pub fn contains_str(v: &Vec<String>, x: &str) -> (r: bool)
    ensures
        r == v@.map_values(|s: String| s@).contains(x@),
{
    let mut i: usize = 0;
    while i < v.len()
        invariant
            i <= v.len(),
            forall|j: int| 0 <= j < i ==> v@[j]@ != x@,
        decreases v.len() - i,
    {
        if crate::text::str_is(v[i].as_str(), x) {
            assert(v@.map_values(|s: String| s@)[i as int] == x@);
            return true;
        }
        i = i + 1;
    }
    let ghost w = v@.map_values(|s: String| s@);
    assert forall|j: int| 0 <= j < w.len() implies #[trigger] w[j] != x@ by {}
    false
}

} // verus!

verus! {

/// Trusted: `IndexSet::clone`, which copies the items in their order.
#[verifier::external_body]
pub(crate) fn clone_import_set(s: &IndexSet<String>) -> (r: IndexSet<String>)
    ensures
        import_items(r) == import_items(*s),
{
    s.clone()
}

/// A copy of a list of strings.
pub fn clone_strings(v: &Vec<String>) -> (r: Vec<String>)
    ensures
        r@.map_values(|s: String| s@) == v@.map_values(|s: String| s@),
{
    let mut r: Vec<String> = Vec::new();
    let mut i: usize = 0;
    while i < v.len()
        invariant
            i <= v.len(),
            r.len() == i,
            forall|k: int| 0 <= k < i ==> #[trigger] r@[k]@ == v@[k]@,
        decreases v.len() - i,
    {
        r.push(v[i].clone());
        i = i + 1;
    }
    assert(r@.map_values(|s: String| s@) =~= v@.map_values(|s: String| s@));
    r
}

} // verus!
