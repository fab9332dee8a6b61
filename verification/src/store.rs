//! A map keyed by strings, modelled as a mathematical `Map` from character
//! sequences to the views of its values.

use vstd::prelude::*;

use crate::text::str_eq;

verus! {

/// The map that a list of (key, value) pairs describes: a later pair for a
/// key overrides an earlier one.
pub open spec fn assoc_map<W>(s: Seq<(Seq<char>, W)>) -> Map<Seq<char>, W>
    decreases s.len(),
{
    if s.len() == 0 {
        Map::empty()
    } else {
        assoc_map(s.drop_last()).insert(s.last().0, s.last().1)
    }
}

proof fn lemma_assoc_found<W>(s: Seq<(Seq<char>, W)>, k: Seq<char>, i: int)
    requires
        0 <= i < s.len(),
        s[i].0 == k,
        forall|j: int| i < j < s.len() ==> s[j].0 != k,
    ensures
        assoc_map(s).contains_key(k),
        assoc_map(s)[k] == s[i].1,
    decreases s.len(),
{
    if i < s.len() - 1 {
        lemma_assoc_found(s.drop_last(), k, i);
    }
}

proof fn lemma_assoc_absent<W>(s: Seq<(Seq<char>, W)>, k: Seq<char>)
    requires
        forall|j: int| 0 <= j < s.len() ==> s[j].0 != k,
    ensures
        !assoc_map(s).contains_key(k),
    decreases s.len(),
{
    if s.len() > 0 {
        lemma_assoc_absent(s.drop_last(), k);
    }
}

proof fn lemma_assoc_update<W>(s: Seq<(Seq<char>, W)>, i: int, e: (Seq<char>, W))
    requires
        0 <= i < s.len(),
        s[i].0 == e.0,
        forall|j: int| i < j < s.len() ==> s[j].0 != e.0,
    ensures
        assoc_map(s.update(i, e)) == assoc_map(s).insert(e.0, e.1),
    decreases s.len(),
{
    let u = s.update(i, e);
    if i == s.len() - 1 {
        assert(u.drop_last() =~= s.drop_last());
        assert(assoc_map(u) =~= assoc_map(s).insert(e.0, e.1));
    } else {
        lemma_assoc_update(s.drop_last(), i, e);
        assert(u.drop_last() =~= s.drop_last().update(i, e));
        assert(u.last() == s.last());
        assert(assoc_map(u) =~= assoc_map(s).insert(e.0, e.1));
    }
}

/// A map from strings to values. Each key stands at most once in the
/// map's view; looking a key up gives the value most recently inserted
/// for it.
#[derive(Clone, Debug)]
pub struct StrMap<V> {
    entries: Vec<(String, V)>,
}

impl<V: View> StrMap<V> {
    /// The entries as (key, value view) pairs, in insertion order.
    pub closed spec fn pairs(&self) -> Seq<(Seq<char>, V::V)> {
        self.entries@.map_values(|e: (String, V)| (e.0@, e.1@))
    }
}

impl<V: View> View for StrMap<V> {
    type V = Map<Seq<char>, V::V>;

    closed spec fn view(&self) -> Map<Seq<char>, V::V> {
        assoc_map(self.pairs())
    }
}

impl<V: View> StrMap<V> {
    /// An empty map.
    pub fn new() -> (m: Self)
        ensures
            m@ == Map::<Seq<char>, V::V>::empty(),
    {
        let m = StrMap { entries: Vec::new() };
        assert(m.pairs() =~= Seq::<(Seq<char>, V::V)>::empty());
        m
    }

    /// The position of the last entry whose key is `key`, if any.
    fn last_index_of(&self, key: &str) -> (r: Option<usize>)
        ensures
            match r {
                Some(i) => {
                    &&& i < self.entries@.len()
                    &&& self.pairs()[i as int].0 == key@
                    &&& forall|j: int|
                        i < j < self.entries@.len() ==> self.pairs()[j].0 != key@
                },
                None => forall|j: int| 0 <= j < self.entries@.len() ==> self.pairs()[j].0 != key@,
            },
    {
        let mut i = self.entries.len();
        while i > 0
            invariant
                i <= self.entries@.len(),
                forall|j: int| i <= j < self.entries@.len() ==> self.pairs()[j].0 != key@,
            decreases i,
        {
            i = i - 1;
            if str_eq(self.entries[i].0.as_str(), key) {
                return Some(i);
            }
        }
        None
    }

    /// The value stored for `key`, if there is one.
    pub fn get(&self, key: &str) -> (r: Option<&V>)
        ensures
            r is Some <==> self@.contains_key(key@),
            r matches Some(v) ==> v@ == self@[key@],
    {
        match self.last_index_of(key) {
            Some(i) => {
                proof {
                    lemma_assoc_found(self.pairs(), key@, i as int);
                }
                Some(&self.entries[i].1)
            },
            None => {
                proof {
                    lemma_assoc_absent(self.pairs(), key@);
                }
                None
            },
        }
    }

    /// Stores `value` for `key`, replacing the value stored for it before.
    pub fn insert(&mut self, key: String, value: V)
        ensures
            final(self)@ == old(self)@.insert(key@, value@),
    {
        let ghost e = (key@, value@);
        match self.last_index_of(key.as_str()) {
            Some(i) => {
                proof {
                    lemma_assoc_update(old(self).pairs(), i as int, e);
                }
                self.entries.set(i, (key, value));
                assert(self.pairs() =~= old(self).pairs().update(i as int, e));
            },
            None => {
                self.entries.push((key, value));
                assert(self.pairs().drop_last() =~= old(self).pairs());
            },
        }
    }
}

impl<V: View> Default for StrMap<V> {
    /// An empty map.
    fn default() -> (m: Self)
        ensures
            m@ == Map::<Seq<char>, V::V>::empty(),
    {
        StrMap::new()
    }
}

} // verus!
