//! A small map keyed by strings.
//!
//! vstd gives the hash map of the standard library a model only for keys
//! whose hashing it knows, and strings are not among them; nothing could be
//! proved of such a map. This map takes its place.
//!
//! Entries live in a vector in the order in which their keys first arrived.
//! The map that the vector stands for is `entries_map`: where a key occurs
//! more than once, its last entry counts. `insert` never creates a second
//! entry for a key, so a map built through this interface holds each key once.

use crate::text::str_eq;
use vstd::prelude::*;

verus! {

/// A value that can be copied with its model unchanged.
pub trait Duplicate: View + Sized {
    fn duplicate(&self) -> (r: Self)
        ensures
            r@ == self@,
    ;
}

impl Duplicate for String {
    fn duplicate(&self) -> (r: Self) {
        self.clone()
    }
}

/// A map from strings to values of type `V`.
#[derive(Debug)]
pub struct StrMap<V> {
    pub entries: Vec<(String, V)>,
}

/// The map that a list of entries stands for.
pub open spec fn entries_map<V: View>(e: Seq<(String, V)>) -> Map<Seq<char>, V::V>
    decreases e.len(),
{
    if e.len() == 0 {
        Map::empty()
    } else {
        entries_map(e.drop_last()).insert(e.last().0@, e.last().1@)
    }
}

/// Position of the last entry for `key`, or -1.
pub open spec fn last_position<V>(e: Seq<(String, V)>, key: Seq<char>) -> int
    decreases e.len(),
{
    if e.len() == 0 {
        -1
    } else if e.last().0@ == key {
        e.len() - 1
    } else {
        last_position(e.drop_last(), key)
    }
}

impl<V: View> View for StrMap<V> {
    type V = Map<Seq<char>, V::V>;

    open spec fn view(&self) -> Map<Seq<char>, V::V> {
        entries_map(self.entries@)
    }
}

/// What the last position of a key says of the map.
pub proof fn lemma_last_position<V: View>(e: Seq<(String, V)>, key: Seq<char>)
    ensures
        -1 <= last_position(e, key) < e.len(),
        last_position(e, key) >= 0 ==> e[last_position(e, key)].0@ == key && entries_map(
            e,
        ).contains_key(key) && entries_map(e)[key] == e[last_position(e, key)].1@,
        last_position(e, key) < 0 ==> !entries_map(e).contains_key(key),
        forall|j: int| last_position(e, key) < j < e.len() ==> e[j].0@ != key,
    decreases e.len(),
{
    if e.len() > 0 {
        lemma_last_position(e.drop_last(), key);
        if e.last().0@ != key {
            assert forall|j: int| last_position(e, key) < j < e.len() implies e[j].0@ != key by {
                if j < e.len() - 1 {
                    assert(e[j] == e.drop_last()[j]);
                }
            }
        }
    }
}

/// A position after which the key does not occur is its last position.
pub proof fn lemma_last_position_is<V: View>(e: Seq<(String, V)>, key: Seq<char>, i: int)
    requires
        -1 <= i < e.len(),
        i >= 0 ==> e[i].0@ == key,
        forall|j: int| i < j < e.len() ==> e[j].0@ != key,
    ensures
        last_position(e, key) == i,
    decreases e.len(),
{
    if e.len() > 0 {
        if e.last().0@ == key {
        } else {
            assert forall|j: int| i < j < e.len() - 1 implies e.drop_last()[j].0@ != key by {
                assert(e[j] == e.drop_last()[j]);
            }
            if i >= 0 {
                assert(e.drop_last()[i] == e[i]);
            }
            lemma_last_position_is(e.drop_last(), key, i);
        }
    }
}

/// Changing the value of the entry that counts for a key changes the map at
/// that key and nowhere else.
pub proof fn lemma_update_entry<V: View>(e: Seq<(String, V)>, i: int, entry: (String, V))
    requires
        0 <= i < e.len(),
        entry.0@ == e[i].0@,
        i == last_position(e, e[i].0@),
    ensures
        entries_map(e.update(i, entry)) == entries_map(e).insert(entry.0@, entry.1@),
        last_position(e.update(i, entry), entry.0@) == i,
    decreases e.len(),
{
    let key = e[i].0@;
    let e2 = e.update(i, entry);
    if i == e.len() - 1 {
        assert(e2.drop_last() =~= e.drop_last());
        assert(entries_map(e2) =~= entries_map(e).insert(entry.0@, entry.1@));
    } else {
        assert(e.last().0@ != key);
        assert(e2.drop_last() =~= e.drop_last().update(i, entry));
        assert(e.drop_last()[i] == e[i]);
        lemma_update_entry(e.drop_last(), i, entry);
        assert(e2.last() == e.last());
        assert(entries_map(e2) =~= entries_map(e).insert(entry.0@, entry.1@));
    }
}

impl<V: View> StrMap<V> {
    /// A map without entries.
    pub fn new() -> (r: Self)
        ensures
            r@ == Map::<Seq<char>, V::V>::empty(),
            r.entries@.len() == 0,
    {
        StrMap { entries: Vec::new() }
    }

    /// The number of entries.
    pub fn len(&self) -> (r: usize)
        ensures
            r == self.entries@.len(),
    {
        self.entries.len()
    }

    /// Position of the entry that counts for `key`.
    pub fn position(&self, key: &str) -> (r: Option<usize>)
        ensures
            match r {
                Some(i) => i == last_position(self.entries@, key@) && i < self.entries@.len()
                    && self.entries@[i as int].0@ == key@ && self@.contains_key(key@) && self@[key@]
                    == self.entries@[i as int].1@,
                None => last_position(self.entries@, key@) == -1 && !self@.contains_key(key@),
            },
    {
        let mut i: usize = self.entries.len();
        while i > 0
            invariant
                i <= self.entries.len(),
                forall|j: int| i <= j < self.entries@.len() ==> self.entries@[j].0@ != key@,
            decreases i,
        {
            i -= 1;
            if str_eq(self.entries[i].0.as_str(), key) {
                proof {
                    lemma_last_position_is(self.entries@, key@, i as int);
                    lemma_last_position(self.entries@, key@);
                }
                return Some(i);
            }
        }
        proof {
            lemma_last_position_is(self.entries@, key@, -1);
            lemma_last_position(self.entries@, key@);
        }
        None
    }

    /// The value stored under `key`, if any.
    pub fn get(&self, key: &str) -> (r: Option<&V>)
        ensures
            match r {
                Some(v) => self@.contains_key(key@) && self@[key@] == v@,
                None => !self@.contains_key(key@),
            },
    {
        match self.position(key) {
            Some(i) => Some(&self.entries[i].1),
            None => None,
        }
    }

    /// Whether a value is stored under `key`.
    pub fn contains_key(&self, key: &str) -> (r: bool)
        ensures
            r == self@.contains_key(key@),
    {
        self.position(key).is_some()
    }

    /// Stores `value` under `key`, replacing what was there.
    pub fn insert(&mut self, key: String, value: V)
        ensures
            final(self)@ == old(self)@.insert(key@, value@),
    {
        match self.position(key.as_str()) {
            Some(i) => {
                proof {
                    lemma_update_entry(self.entries@, i as int, (key, value));
                }
                self.entries[i] = (key, value);
            },
            None => {
                proof {
                    assert(self.entries@.push((key, value)).drop_last() =~= self.entries@);
                }
                self.entries.push((key, value));
            },
        }
    }
}

impl<V: Duplicate> Duplicate for StrMap<V> {
    fn duplicate(&self) -> (r: Self) {
        let mut out: Vec<(String, V)> = Vec::new();
        let mut i: usize = 0;
        while i < self.entries.len()
            invariant
                i <= self.entries.len(),
                out@.len() == i,
                entries_map(out@) == entries_map(self.entries@.take(i as int)),
            decreases self.entries.len() - i,
        {
            let k = self.entries[i].0.clone();
            let v = self.entries[i].1.duplicate();
            proof {
                assert(out@.push((k, v)).drop_last() =~= out@);
                assert(self.entries@.take(i + 1).drop_last() =~= self.entries@.take(i as int));
            }
            out.push((k, v));
            i += 1;
        }
        proof {
            assert(self.entries@.take(self.entries.len() as int) =~= self.entries@);
        }
        StrMap { entries: out }
    }
}

/// Every key of the map has exactly one entry that counts for it: its last.
pub proof fn lemma_counting_entry<V: View>(e: Seq<(String, V)>, key: Seq<char>)
    ensures
        entries_map(e).contains_key(key) <==> exists|i: int|
            0 <= i < e.len() && #[trigger] last_position(e, e[i].0@) == i && e[i].0@ == key,
        forall|i: int|
            0 <= i < e.len() && last_position(e, e[i].0@) == i && e[i].0@ == key ==> entries_map(
                e,
            )[key] == e[i].1@,
{
    lemma_last_position(e, key);
    let p = last_position(e, key);
    if p >= 0 {
        assert(last_position(e, e[p].0@) == p && e[p].0@ == key);
    }
}

impl<V: View> StrMap<V> {
    /// Whether the entry at position `i` is the one that counts for its key.
    pub fn counts(&self, i: usize) -> (r: bool)
        requires
            i < self.entries@.len(),
        ensures
            r == (last_position(self.entries@, self.entries@[i as int].0@) == i),
    {
        match self.position(self.entries[i].0.as_str()) {
            Some(p) => p == i,
            None => false,
        }
    }
}

} // verus!
