//! A persistent key-to-value table with string keys.
//!
//! The contract state keeps every table (escrow balances, collection
//! interest rates, order books, loans) in one of these. A table is a vector
//! of pairs with pairwise-distinct keys; its mathematical view is a finite
//! `Map` from the key's text to the value's view.

use vstd::prelude::*;

verus! {

/// One key/value pair of a [`LookupMap`].
pub struct MapEntry<T> {
    pub key: String,
    pub value: T,
}

/// The pairs of `s`, read left to right, as a finite map from key text to
/// the value's mathematical view. A later pair with the same key wins.
pub open spec fn entries_map<T: DeepView>(s: Seq<MapEntry<T>>) -> Map<Seq<char>, T::V>
    decreases s.len(),
{
    if s.len() == 0 {
        Map::empty()
    } else {
        entries_map(s.drop_last()).insert(s.last().key@, s.last().value.deep_view())
    }
}

/// Whether the keys of `s` are pairwise distinct.
pub open spec fn distinct_keys<T>(s: Seq<MapEntry<T>>) -> bool {
    forall|i: int, j: int| 0 <= i < j < s.len() ==> s[i].key@ != s[j].key@
}

/// A key maps to something exactly when some pair carries it.
pub proof fn lemma_entries_map_contains<T: DeepView>(s: Seq<MapEntry<T>>, k: Seq<char>)
    ensures
        entries_map(s).contains_key(k) <==> exists|i: int| 0 <= i < s.len() && s[i].key@ == k,
    decreases s.len(),
{
    if s.len() > 0 {
        lemma_entries_map_contains(s.drop_last(), k);
        if s.last().key@ == k {
            assert(s[s.len() - 1].key@ == k);
        } else if entries_map(s).contains_key(k) {
            let i = choose|i: int| 0 <= i < s.drop_last().len() && s.drop_last()[i].key@ == k;
            assert(s[i].key@ == k);
        } else {
            assert forall|i: int| 0 <= i < s.len() implies s[i].key@ != k by {
                if i < s.len() - 1 {
                    assert(s.drop_last()[i].key@ == s[i].key@);
                }
            }
        }
    }
}

/// With distinct keys, the map reads back exactly the value stored beside
/// each key.
pub proof fn lemma_entries_map_at<T: DeepView>(s: Seq<MapEntry<T>>, i: int)
    requires
        distinct_keys(s),
        0 <= i < s.len(),
    ensures
        entries_map(s).contains_key(s[i].key@),
        entries_map(s)[s[i].key@] == s[i].value.deep_view(),
    decreases s.len(),
{
    if i == s.len() - 1 {
    } else {
        assert(s.drop_last()[i] == s[i]);
        lemma_entries_map_at(s.drop_last(), i);
        assert(s[i].key@ != s.last().key@);
    }
}

/// Appending a pair with a fresh key inserts its binding.
pub proof fn lemma_entries_map_push<T: DeepView>(s: Seq<MapEntry<T>>, e: MapEntry<T>)
    ensures
        entries_map(s.push(e)) == entries_map(s).insert(e.key@, e.value.deep_view()),
{
    assert(s.push(e).drop_last() =~= s);
    assert(s.push(e).last() == e);
}

/// With distinct keys, removing the pair at `i` removes exactly that key's
/// binding.
pub proof fn lemma_entries_map_remove<T: DeepView>(s: Seq<MapEntry<T>>, i: int)
    requires
        distinct_keys(s),
        0 <= i < s.len(),
    ensures
        entries_map(s.remove(i)) =~= entries_map(s).remove(s[i].key@),
    decreases s.len(),
{
    if i == s.len() - 1 {
        assert(s.remove(i) =~= s.drop_last());
        lemma_entries_map_contains(s.drop_last(), s[i].key@);
        assert forall|j: int| 0 <= j < s.drop_last().len() implies s.drop_last()[j].key@
            != s[i].key@ by {
            assert(s.drop_last()[j] == s[j]);
        }
        assert(!entries_map(s.drop_last()).contains_key(s[i].key@));
        assert(entries_map(s.drop_last()).remove(s[i].key@) =~= entries_map(s.drop_last()));
    } else {
        assert(s.remove(i).drop_last() =~= s.drop_last().remove(i));
        assert(s.remove(i).last() == s.last());
        assert(s.drop_last()[i] == s[i]);
        lemma_entries_map_remove(s.drop_last(), i);
        assert(s[i].key@ != s.last().key@);
    }
}

/// A persistent key-to-value table, stored as pairs with pairwise-distinct
/// keys.
pub struct LookupMap<T> {
    pub entries: Vec<MapEntry<T>>,
}

impl<T: DeepView> View for LookupMap<T> {
    type V = Map<Seq<char>, T::V>;

    open spec fn view(&self) -> Map<Seq<char>, T::V> {
        entries_map(self.entries@)
    }
}

impl<T: DeepView> LookupMap<T> {
    /// The table's internal invariant: no key is stored twice.
    pub open spec fn wf(self) -> bool {
        distinct_keys(self.entries@)
    }

    /// An empty table.
    pub fn new() -> (m: Self)
        ensures
            m.wf(),
            m@ == Map::<Seq<char>, T::V>::empty(),
    {
        LookupMap { entries: Vec::new() }
    }

    /// The position of `key` among the stored pairs, if it is present.
    fn find(&self, key: &String) -> (r: Option<usize>)
        ensures
            match r {
                Some(i) => i < self.entries@.len() && self.entries@[i as int].key@ == key@,
                None => forall|j: int|
                    0 <= j < self.entries@.len() ==> self.entries@[j].key@ != key@,
            },
    {
        let n: usize = self.entries.len();
        let mut i: usize = 0;
        while i < n
            invariant
                n == self.entries@.len(),
                i <= n,
                forall|j: int| 0 <= j < i ==> self.entries@[j].key@ != key@,
            decreases n - i,
        {
            if self.entries[i].key == *key {
                return Some(i);
            }
            i = i + 1;
        }
        None
    }

    /// Whether `key` is bound.
    pub fn contains_key(&self, key: &String) -> (b: bool)
        ensures
            b == self@.contains_key(key@),
    {
        proof {
            lemma_entries_map_contains(self.entries@, key@);
        }
        self.find(key).is_some()
    }

    /// The value bound to `key`, if any.
    pub fn get(&self, key: &String) -> (r: Option<&T>)
        requires
            self.wf(),
        ensures
            match r {
                Some(v) => self@.contains_key(key@) && v.deep_view() == self@[key@],
                None => !self@.contains_key(key@),
            },
    {
        proof {
            lemma_entries_map_contains(self.entries@, key@);
        }
        match self.find(key) {
            Some(i) => {
                proof {
                    lemma_entries_map_at(self.entries@, i as int);
                }
                Some(&self.entries[i].value)
            },
            None => None,
        }
    }

    /// Binds `key` to `value`, replacing any earlier binding.
    pub fn insert(&mut self, key: String, value: T)
        requires
            old(self).wf(),
        ensures
            final(self).wf(),
            final(self)@ == old(self)@.insert(key@, value.deep_view()),
    {
        let ghost s0 = self.entries@;
        match self.find(&key) {
            Some(i) => {
                proof {
                    lemma_entries_map_remove(s0, i as int);
                }
                self.entries.remove(i);
                assert forall|p: int, q: int|
                    0 <= p < q < self.entries@.len() implies self.entries@[p].key@
                    != self.entries@[q].key@ by {
                    if q < i {
                        assert(self.entries@[p] == s0[p] && self.entries@[q] == s0[q]);
                    } else if p < i {
                        assert(self.entries@[p] == s0[p] && self.entries@[q] == s0[q + 1]);
                    } else {
                        assert(self.entries@[p] == s0[p + 1] && self.entries@[q] == s0[q + 1]);
                    }
                }
                let ghost s1 = self.entries@;
                proof {
                    lemma_entries_map_push(s1, MapEntry { key, value });
                    assert forall|j: int| 0 <= j < s1.len() implies s1[j].key@ != key@ by {
                        if j < i {
                            assert(s1[j] == s0[j]);
                        } else {
                            assert(s1[j] == s0[j + 1]);
                        }
                    }
                    assert(entries_map(s0).remove(key@).insert(key@, value.deep_view())
                        =~= entries_map(s0).insert(key@, value.deep_view()));
                }
                self.entries.push(MapEntry { key, value });
            },
            None => {
                proof {
                    lemma_entries_map_push(s0, MapEntry { key, value });
                }
                self.entries.push(MapEntry { key, value });
            },
        }
    }

    /// Drops the binding of `key`; reports whether one was there.
    pub fn remove(&mut self, key: &String) -> (found: bool)
        requires
            old(self).wf(),
        ensures
            final(self).wf(),
            final(self)@ == old(self)@.remove(key@),
            found == old(self)@.contains_key(key@),
    {
        let ghost s0 = self.entries@;
        proof {
            lemma_entries_map_contains(s0, key@);
        }
        match self.find(key) {
            Some(i) => {
                proof {
                    lemma_entries_map_remove(s0, i as int);
                }
                self.entries.remove(i);
                assert forall|p: int, q: int|
                    0 <= p < q < self.entries@.len() implies self.entries@[p].key@
                    != self.entries@[q].key@ by {
                    if q < i {
                        assert(self.entries@[p] == s0[p] && self.entries@[q] == s0[q]);
                    } else if p < i {
                        assert(self.entries@[p] == s0[p] && self.entries@[q] == s0[q + 1]);
                    } else {
                        assert(self.entries@[p] == s0[p + 1] && self.entries@[q] == s0[q + 1]);
                    }
                }
                true
            },
            None => {
                proof {
                    assert(!old(self)@.contains_key(key@));
                    assert(old(self)@.remove(key@) =~= old(self)@);
                }
                false
            },
        }
    }
}

} // verus!
