//! Insertion-ordered collections from the `indexmap` crate.
//!
//! The collections themselves are opaque to the verifier. Their contents are
//! named by `set_items` and `map_entries`, and the functions in this file are
//! the only code that touches them; their contracts are taken on trust from
//! the crate's documentation.

use indexmap::IndexMap;
use indexmap::IndexSet;
use vstd::prelude::*;

verus! {

/// `indexmap::IndexSet`, as an opaque type.
#[verifier::external_type_specification]
#[verifier::external_body]
#[verifier::reject_recursive_types(T)]
#[verifier::reject_recursive_types(S)]
pub struct ExIndexSet<T, S>(IndexSet<T, S>);

/// `indexmap::IndexMap`, as an opaque type.
#[verifier::external_type_specification]
#[verifier::external_body]
#[verifier::reject_recursive_types(K)]
#[verifier::reject_recursive_types(V)]
#[verifier::reject_recursive_types(S)]
pub struct ExIndexMap<K, V, S>(IndexMap<K, V, S>);

/// The strings held by an ordered set, in insertion order.
pub uninterp spec fn set_items(s: IndexSet<String>) -> Seq<Seq<char>>;

/// The key/value pairs held by an ordered map, in insertion order.
pub uninterp spec fn map_entries(m: IndexMap<String, String>) -> Seq<(Seq<char>, Seq<char>)>;

/// `items` with `x` appended unless it is already there.
pub open spec fn insert_distinct(items: Seq<Seq<char>>, x: Seq<char>) -> Seq<Seq<char>> {
    if items.contains(x) {
        items
    } else {
        items.push(x)
    }
}

/// `IndexSet::new`: a set that holds nothing.
#[verifier::external_body]
pub(crate) fn set_new() -> (r: IndexSet<String>)
    ensures
        set_items(r) == Seq::<Seq<char>>::empty(),
{
    IndexSet::new()
}

/// `IndexSet::insert`: an absent value goes to the end and the call returns
/// `true`; a present value leaves the set and its order as they were and the
/// call returns `false`. A set never holds two equal strings.
#[verifier::external_body]
pub(crate) fn set_insert(s: &mut IndexSet<String>, value: String) -> (r: bool)
    ensures
        r == !set_items(*old(s)).contains(value@),
        set_items(*final(s)) == insert_distinct(set_items(*old(s)), value@),
        set_items(*final(s)).no_duplicates(),
{
    s.insert(value)
}

/// `IndexSet::contains`: whether an equal string is in the set.
#[verifier::external_body]
pub(crate) fn set_contains(s: &IndexSet<String>, value: &str) -> (r: bool)
    ensures
        r == set_items(*s).contains(value@),
{
    s.contains(value)
}

/// `IndexSet::len`: the number of strings in the set. No two of them are
/// equal, so it is the number of distinct strings as well.
#[verifier::external_body]
pub(crate) fn set_len(s: &IndexSet<String>) -> (r: usize)
    ensures
        r == set_items(*s).len(),
        r == set_items(*s).to_set().len(),
{
    s.len()
}

/// `IndexSet::get_index`: the string at a position of the insertion order,
/// `None` past the end.
#[verifier::external_body]
pub(crate) fn set_get_index(s: &IndexSet<String>, index: usize) -> (r: Option<&String>)
    ensures
        match r {
            Some(v) => index < set_items(*s).len() && v@ == set_items(*s)[index as int],
            None => index >= set_items(*s).len(),
        },
{
    s.get_index(index)
}

/// `IndexSet::clone`: a set with the same strings in the same order, no two
/// of which are equal.
#[verifier::external_body]
pub(crate) fn set_clone(s: &IndexSet<String>) -> (r: IndexSet<String>)
    ensures
        set_items(r) == set_items(*s),
        set_items(r).no_duplicates(),
{
    s.clone()
}

/// `IndexMap::len`: the number of pairs in the map.
#[verifier::external_body]
pub(crate) fn map_len(m: &IndexMap<String, String>) -> (r: usize)
    ensures
        r == map_entries(*m).len(),
{
    m.len()
}

/// `IndexMap::get_index`: the pair at a position of the insertion order,
/// `None` past the end.
#[verifier::external_body]
pub(crate) fn map_get_index(m: &IndexMap<String, String>, index: usize) -> (r: Option<
    (&String, &String),
>)
    ensures
        match r {
            Some((k, v)) => index < map_entries(*m).len() && k@ == map_entries(*m)[index as int].0
                && v@ == map_entries(*m)[index as int].1,
            None => index >= map_entries(*m).len(),
        },
{
    m.get_index(index)
}

/// The number of strings in a set; they are all different.
pub fn set_size(s: &IndexSet<String>) -> (r: usize)
    ensures
        r == set_items(*s).len(),
        set_items(*s).no_duplicates(),
{
    let n = set_len(s);
    proof {
        set_items(*s).lemma_no_dup_set_cardinality();
    }
    n
}

/// The lookups that found something, in order and without repetition: what
/// an ordered set holds after every found name was inserted.
pub open spec fn collect(results: Seq<Option<Seq<char>>>) -> Seq<Seq<char>>
    decreases results.len(),
{
    if results.len() == 0 {
        Seq::empty()
    } else {
        match results.last() {
            Some(found) => insert_distinct(collect(results.drop_last()), found),
            None => collect(results.drop_last()),
        }
    }
}

} // verus!
