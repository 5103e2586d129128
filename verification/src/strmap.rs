//! An association map from strings to values, viewed as a mathematical map.
//!
//! Entries are kept in insertion order; a later entry for the same key wins.

use vstd::prelude::*;

use crate::strutil::str_eq;

verus! {

/// The map described by an association sequence: later entries win.
pub open spec fn assoc_map<V>(s: Seq<(String, V)>) -> Map<Seq<char>, V>
    decreases s.len(),
{
    if s.len() == 0 {
        Map::empty()
    } else {
        assoc_map(s.drop_last()).insert(s.last().0@, s.last().1)
    }
}

/// Concatenating association sequences unions their maps, preferring the
/// later one.
pub proof fn lemma_assoc_map_append<V>(a: Seq<(String, V)>, b: Seq<(String, V)>)
    ensures
        assoc_map(a + b) == assoc_map(a).union_prefer_right(assoc_map(b)),
    decreases b.len(),
{
    if b.len() == 0 {
        assert(a + b =~= a);
        assert(assoc_map(a).union_prefer_right(assoc_map(b)) =~= assoc_map(a));
    } else {
        lemma_assoc_map_append(a, b.drop_last());
        assert((a + b).drop_last() =~= a + b.drop_last());
        assert(assoc_map(a).union_prefer_right(assoc_map(b.drop_last())).insert(
            b.last().0@,
            b.last().1,
        ) =~= assoc_map(a).union_prefer_right(assoc_map(b.drop_last()).insert(
            b.last().0@,
            b.last().1,
        )));
    }
}

/// A map from strings to copyable values, stored as an association list.
#[derive(Debug, Clone, PartialEq, Eq)]
pub struct StringMap<V> {
    entries: Vec<(String, V)>,
}

impl<V> View for StringMap<V> {
    type V = Map<Seq<char>, V>;

    closed spec fn view(&self) -> Map<Seq<char>, V> {
        assoc_map(self.entries@)
    }
}

impl<V: Copy> StringMap<V> {
    /// An empty map.
    pub fn new() -> (r: Self)
        ensures
            r@ =~= Map::<Seq<char>, V>::empty(),
    {
        StringMap { entries: Vec::new() }
    }

    /// Bind `key` to `value`, replacing any earlier binding.
    pub fn insert(&mut self, key: String, value: V)
        ensures
            final(self)@ == old(self)@.insert(key@, value),
    {
        let ghost orig = self.entries@;
        self.entries.push((key, value));
        proof {
            assert(self.entries@.drop_last() =~= orig);
        }
    }

    /// The value bound to `key`, if any.
    pub fn get(&self, key: &str) -> (r: Option<V>)
        ensures
            r == if self@.contains_key(key@) {
                Some(self@[key@])
            } else {
                None::<V>
            },
    {
        let mut i: usize = self.entries.len();
        proof {
            assert(self.entries@.subrange(0, self.entries@.len() as int) =~= self.entries@);
        }
        while i > 0
            invariant
                0 <= i <= self.entries@.len(),
                self@.contains_key(key@) <==> assoc_map(
                    self.entries@.subrange(0, i as int),
                ).contains_key(key@),
                self@.contains_key(key@) ==> self@[key@] == assoc_map(
                    self.entries@.subrange(0, i as int),
                )[key@],
            decreases i,
        {
            i = i - 1;
            proof {
                assert(self.entries@.subrange(0, i + 1).drop_last() =~= self.entries@.subrange(
                    0,
                    i as int,
                ));
                assert(self.entries@.subrange(0, i + 1).last() == self.entries@[i as int]);
            }
            if str_eq(self.entries[i].0.as_str(), key) {
                return Some(self.entries[i].1);
            }
        }
        proof {
            assert(self.entries@.subrange(0, 0) =~= Seq::<(String, V)>::empty());
        }
        None
    }

    /// Whether `key` is bound.
    pub fn contains_key(&self, key: &str) -> (r: bool)
        ensures
            r == self@.contains_key(key@),
    {
        match self.get(key) {
            Some(_) => true,
            None => false,
        }
    }

    /// Merge another map into this one; the other map's bindings win on
    /// shared keys.
    pub fn extend(&mut self, other: StringMap<V>)
        ensures
            final(self)@ == old(self)@.union_prefer_right(other@),
    {
        let mut other = other;
        let ghost a = self.entries@;
        let ghost b = other.entries@;
        self.entries.append(&mut other.entries);
        proof {
            lemma_assoc_map_append(a, b);
        }
    }

    /// The stored entries, in insertion order; later entries for one key win.
    pub fn entries(&self) -> (r: &Vec<(String, V)>)
        ensures
            assoc_map(r@) == self@,
    {
        &self.entries
    }
}

impl<V: Copy> Default for StringMap<V> {
    /// An empty map.
    fn default() -> (r: Self)
        ensures
            r@ =~= Map::<Seq<char>, V>::empty(),
    {
        StringMap::new()
    }
}

} // verus!
