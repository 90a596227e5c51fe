//! A map keyed by strings, kept as a vector of entries with distinct keys.
//!
//! Inserting a key that is already present replaces its value in place, so
//! the entries keep the order in which their keys first arrived.

use vstd::prelude::*;

verus! {

/// The value that a sequence of entries gives to `k`: the one of the last
/// entry whose key is `k`, if there is such an entry.
pub open spec fn lookup<W>(s: Seq<(Seq<char>, W)>, k: Seq<char>) -> Option<W>
    decreases s.len(),
{
    if s.len() == 0 {
        None
    } else if s.last().0 == k {
        Some(s.last().1)
    } else {
        lookup(s.drop_last(), k)
    }
}

/// The map that a sequence of entries describes.
pub open spec fn entries_map<W>(s: Seq<(Seq<char>, W)>) -> Map<Seq<char>, W> {
    Map::new(|k: Seq<char>| lookup(s, k) is Some, |k: Seq<char>| lookup(s, k).unwrap())
}

/// No two entries share a key.
pub open spec fn distinct_keys<W>(s: Seq<(Seq<char>, W)>) -> bool {
    forall|i: int, j: int| 0 <= i < s.len() && 0 <= j < s.len() && i != j ==> s[i].0 != s[j].0
}

/// With distinct keys, every entry is found under its key.
pub proof fn lemma_lookup_entry<W>(s: Seq<(Seq<char>, W)>, i: int)
    requires
        distinct_keys(s),
        0 <= i < s.len(),
    ensures
        lookup(s, s[i].0) == Some(s[i].1),
    decreases s.len(),
{
    if i < s.len() - 1 {
        assert(s.last().0 != s[i].0);
        let t = s.drop_last();
        assert(t[i] == s[i]);
        lemma_lookup_entry(t, i);
    }
}

/// A key that no entry carries is not found.
pub proof fn lemma_lookup_absent<W>(s: Seq<(Seq<char>, W)>, k: Seq<char>)
    requires
        forall|i: int| 0 <= i < s.len() ==> s[i].0 != k,
    ensures
        lookup(s, k) is None,
    decreases s.len(),
{
    if s.len() > 0 {
        let t = s.drop_last();
        assert forall|i: int| 0 <= i < t.len() implies t[i].0 != k by {
            assert(t[i] == s[i]);
        }
        lemma_lookup_absent(t, k);
    }
}

/// Whatever is found is carried by some entry.
pub proof fn lemma_lookup_found<W>(s: Seq<(Seq<char>, W)>, k: Seq<char>)
    requires
        lookup(s, k) is Some,
    ensures
        exists|i: int| 0 <= i < s.len() && s[i].0 == k && s[i].1 == lookup(s, k).unwrap(),
    decreases s.len(),
{
    if s.last().0 != k {
        let t = s.drop_last();
        lemma_lookup_found(t, k);
        let i = choose|i: int| 0 <= i < t.len() && t[i].0 == k && t[i].1 == lookup(t, k).unwrap();
        assert(s[i] == t[i]);
    } else {
        assert(s[s.len() - 1].0 == k);
    }
}

/// Replacing the value of an entry changes only what its key finds.
pub proof fn lemma_lookup_update<W>(s: Seq<(Seq<char>, W)>, i: int, w: W, k: Seq<char>)
    requires
        distinct_keys(s),
        0 <= i < s.len(),
    ensures
        lookup(s.update(i, (s[i].0, w)), k) == if k == s[i].0 {
            Some(w)
        } else {
            lookup(s, k)
        },
    decreases s.len(),
{
    let u = s.update(i, (s[i].0, w));
    if i < s.len() - 1 {
        assert(u.last() == s.last());
        assert(s.last().0 != s[i].0);
        let t = s.drop_last();
        assert(u.drop_last() =~= t.update(i, (t[i].0, w)));
        if s.last().0 != k {
            lemma_lookup_update(t, i, w, k);
        }
    } else {
        assert(u.drop_last() =~= s.drop_last());
    }
}

/// Adding an entry at the end makes its key find its value.
pub proof fn lemma_lookup_push<W>(s: Seq<(Seq<char>, W)>, e: (Seq<char>, W), k: Seq<char>)
    ensures
        lookup(s.push(e), k) == if k == e.0 {
            Some(e.1)
        } else {
            lookup(s, k)
        },
{
    assert(s.push(e).drop_last() =~= s);
}

/// The domain of the described map is exactly the set of keys of the entries.
pub proof fn lemma_entries_dom<W>(s: Seq<(Seq<char>, W)>, k: Seq<char>)
    requires
        distinct_keys(s),
    ensures
        entries_map(s).dom().contains(k) <==> exists|i: int| 0 <= i < s.len() && s[i].0 == k,
{
    if entries_map(s).dom().contains(k) {
        lemma_lookup_found(s, k);
    } else if exists|i: int| 0 <= i < s.len() && s[i].0 == k {
        let i = choose|i: int| 0 <= i < s.len() && s[i].0 == k;
        lemma_lookup_entry(s, i);
    }
}

/// A map from strings to values, with its entries in the order in which
/// their keys were first inserted.
#[derive(Debug)]
pub struct KeyedMap<V: View> {
    entries: Vec<(String, V)>,
}

impl<V: View> KeyedMap<V> {
    /// The entries, each key and value taken by its view.
    pub closed spec fn pairs(self) -> Seq<(Seq<char>, V::V)> {
        self.entries@.map_values(|e: (String, V)| (e.0@, e.1@))
    }

    #[verifier::type_invariant]
    closed spec fn keys_distinct(self) -> bool {
        distinct_keys(self.pairs())
    }

    /// The map that the entries describe.
    pub open spec fn as_map(self) -> Map<Seq<char>, V::V> {
        entries_map(self.pairs())
    }

    /// An empty map.
    pub fn new() -> (m: Self)
        ensures
            m.pairs() == Seq::<(Seq<char>, V::V)>::empty(),
            m.as_map() == Map::<Seq<char>, V::V>::empty(),
    {
        let m = KeyedMap { entries: Vec::new() };
        assert(m.pairs() =~= Seq::<(Seq<char>, V::V)>::empty());
        assert(m.as_map() =~= Map::<Seq<char>, V::V>::empty());
        m
    }

    /// The number of keys.
    pub fn len(&self) -> (n: usize)
        ensures
            n == self.pairs().len(),
    {
        self.entries.len()
    }

    /// Whether the map has no key.
    pub fn is_empty(&self) -> (b: bool)
        ensures
            b <==> self.pairs().len() == 0,
            b <==> self.as_map() == Map::<Seq<char>, V::V>::empty(),
    {
        if self.entries.len() == 0 {
            assert(self.as_map() =~= Map::<Seq<char>, V::V>::empty());
            true
        } else {
            proof {
                use_type_invariant(self);
                lemma_lookup_entry(self.pairs(), 0);
                assert(self.as_map().dom().contains(self.pairs()[0].0));
            }
            false
        }
    }

    /// The key of the `i`-th entry.
    pub fn key_at(&self, i: usize) -> (k: &String)
        requires
            i < self.pairs().len(),
        ensures
            k@ == self.pairs()[i as int].0,
    {
        &self.entries[i].0
    }

    /// The value of the `i`-th entry.
    pub fn value_at(&self, i: usize) -> (v: &V)
        requires
            i < self.pairs().len(),
        ensures
            v@ == self.pairs()[i as int].1,
    {
        &self.entries[i].1
    }

    /// The position of the entry with key `k`, if there is one.
    fn find(&self, k: &String) -> (r: Option<usize>)
        ensures
            r matches Some(i) ==> i < self.pairs().len() && self.pairs()[i as int].0 == k@,
            r is None ==> forall|i: int| 0 <= i < self.pairs().len() ==> self.pairs()[i].0 != k@,
    {
        let mut i: usize = 0;
        while i < self.entries.len()
            invariant
                i <= self.entries@.len(),
                forall|j: int| 0 <= j < i ==> self.pairs()[j].0 != k@,
            decreases self.entries@.len() - i,
        {
            if self.entries[i].0 == *k {
                return Some(i);
            }
            i = i + 1;
        }
        None
    }

    /// Whether `k` is a key of the map.
    pub fn contains_key(&self, k: &String) -> (b: bool)
        ensures
            b <==> self.as_map().dom().contains(k@),
    {
        proof {
            use_type_invariant(self);
            lemma_entries_dom(self.pairs(), k@);
        }
        self.find(k).is_some()
    }

    /// The value under `k`, if there is one.
    pub fn get(&self, k: &String) -> (r: Option<&V>)
        ensures
            r is Some <==> self.as_map().dom().contains(k@),
            r matches Some(v) ==> v@ == self.as_map()[k@],
    {
        proof {
            use_type_invariant(self);
        }
        match self.find(k) {
            Some(i) => {
                proof {
                    lemma_lookup_entry(self.pairs(), i as int);
                }
                Some(&self.entries[i].1)
            },
            None => {
                proof {
                    lemma_lookup_absent(self.pairs(), k@);
                }
                None
            },
        }
    }

    /// Sets the value under `k`: a present key keeps its place and takes the
    /// new value, an absent one is added after all others.
    pub fn insert(&mut self, k: String, v: V)
        ensures
            final(self).as_map() == old(self).as_map().insert(k@, v@),
            old(self).as_map().dom().contains(k@) ==> final(self).pairs().len() == old(self).pairs().len(),
            !old(self).as_map().dom().contains(k@) ==> final(self).pairs() == old(self).pairs().push((k@, v@)),
    {
        proof {
            use_type_invariant(&*self);
            lemma_entries_dom(self.pairs(), k@);
        }
        let ghost old_pairs = self.pairs();
        let found = self.find(&k);
        let mut entries: Vec<(String, V)> = Vec::new();
        std::mem::swap(&mut entries, &mut self.entries);
        let ghost old_entries = entries@;
        assert(old_pairs == old_entries.map_values(|e: (String, V)| (e.0@, e.1@)));
        match found {
            Some(i) => {
                let ghost kv = k@;
                let ghost vv = v@;
                entries.set(i, (k, v));
                let ghost new_pairs = entries@.map_values(|e: (String, V)| (e.0@, e.1@));
                assert(new_pairs =~= old_pairs.update(i as int, (old_pairs[i as int].0, vv)));
                proof {
                    assert forall|a: int, b: int|
                        0 <= a < new_pairs.len() && 0 <= b < new_pairs.len() && a != b implies
                        new_pairs[a].0 != new_pairs[b].0 by {
                        assert(new_pairs[a].0 == old_pairs[a].0);
                        assert(new_pairs[b].0 == old_pairs[b].0);
                    }
                }
                self.entries = entries;
                proof {
                    assert(self.pairs() =~= old_pairs.update(i as int, (old_pairs[i as int].0, vv)));
                    assert forall|key: Seq<char>|
                        lookup(self.pairs(), key) == insert_or_keep_spec(lookup(old_pairs, key), kv, vv, key) by {
                        lemma_lookup_update(old_pairs, i as int, vv, key);
                    }
                    assert(self.as_map() =~= entries_map(old_pairs).insert(kv, vv));
                }
            },
            None => {
                let ghost kv = k@;
                let ghost vv = v@;
                entries.push((k, v));
                let ghost new_pairs = entries@.map_values(|e: (String, V)| (e.0@, e.1@));
                assert(new_pairs =~= old_pairs.push((kv, vv)));
                proof {
                    assert forall|a: int, b: int|
                        0 <= a < new_pairs.len() && 0 <= b < new_pairs.len() && a != b implies
                        new_pairs[a].0 != new_pairs[b].0 by {
                        if a < old_pairs.len() && b < old_pairs.len() {
                            assert(new_pairs[a] == old_pairs[a]);
                            assert(new_pairs[b] == old_pairs[b]);
                        } else if a < old_pairs.len() {
                            assert(new_pairs[a] == old_pairs[a]);
                        } else {
                            assert(new_pairs[b] == old_pairs[b]);
                        }
                    }
                }
                self.entries = entries;
                proof {
                    assert(self.pairs() =~= old_pairs.push((kv, vv)));
                    assert forall|key: Seq<char>|
                        lookup(self.pairs(), key) == insert_or_keep_spec(lookup(old_pairs, key), kv, vv, key) by {
                        lemma_lookup_push(old_pairs, (kv, vv), key);
                    }
                    assert(self.as_map() =~= entries_map(old_pairs).insert(kv, vv));
                }
            },
        }
    }

    /// Inserts every entry of `other`, in its order; keys of `other` take
    /// the values that `other` gives them.
    pub fn extend(&mut self, other: KeyedMap<V>)
        ensures
            final(self).as_map() == old(self).as_map().union_prefer_right(other.as_map()),
    {
        let ghost src = other.pairs();
        let ghost start = self.as_map();
        let KeyedMap { entries } = other;
        let mut rest = entries;
        let ghost mut done: int = 0;
        assert(src.take(0) =~= Seq::<(Seq<char>, V::V)>::empty());
        assert(entries_map(src.take(0)) =~= Map::<Seq<char>, V::V>::empty());
        assert(start.union_prefer_right(Map::<Seq<char>, V::V>::empty()) =~= start);
        while rest.len() > 0
            invariant
                0 <= done <= src.len(),
                rest@.len() == src.len() - done,
                forall|j: int| 0 <= j < rest@.len() ==> (#[trigger] rest@[j]).0@ == src[done + j].0
                    && rest@[j].1@ == src[done + j].1,
                self.as_map() == start.union_prefer_right(entries_map(src.take(done))),
            decreases rest@.len(),
        {
            let ghost before = self.as_map();
            let (k, v) = rest.remove(0);
            let ghost e = src[done];
            self.insert(k, v);
            proof {
                assert(src.take(done + 1) =~= src.take(done).push(e));
                assert forall|key: Seq<char>|
                    lookup(src.take(done + 1), key) == insert_or_keep_spec(lookup(src.take(done), key), e.0, e.1, key) by {
                    lemma_lookup_push(src.take(done), e, key);
                }
                assert(entries_map(src.take(done + 1)) =~= entries_map(src.take(done)).insert(e.0, e.1));
                assert(self.as_map() =~= start.union_prefer_right(entries_map(src.take(done + 1))));
                assert forall|j: int| 0 <= j < rest@.len() implies (#[trigger] rest@[j]).0@ == src[done + 1 + j].0
                    && rest@[j].1@ == src[done + 1 + j].1 by {
                }
                done = done + 1;
            }
        }
        assert(src.take(done) =~= src);
    }
}

impl<V: View> View for KeyedMap<V> {
    type V = Map<Seq<char>, V::V>;

    open spec fn view(&self) -> Map<Seq<char>, V::V> {
        self.as_map()
    }
}

impl KeyedMap<String> {
    /// An entry-by-entry copy.
    pub fn copy(&self) -> (r: Self)
        ensures
            r.pairs() == self.pairs(),
            r.as_map() == self.as_map(),
    {
        proof {
            use_type_invariant(self);
        }
        let mut entries: Vec<(String, String)> = Vec::new();
        let mut i: usize = 0;
        while i < self.entries.len()
            invariant
                i <= self.entries@.len(),
                entries@.len() == i,
                forall|j: int| 0 <= j < i ==> (#[trigger] entries@[j]).0@ == self.entries@[j].0@
                    && entries@[j].1@ == self.entries@[j].1@,
            decreases self.entries@.len() - i,
        {
            let k = self.entries[i].0.clone();
            let v = self.entries[i].1.clone();
            entries.push((k, v));
            i = i + 1;
        }
        let ghost copied = entries@.map_values(|e: (String, String)| (e.0@, e.1@));
        assert(copied =~= self.pairs());
        let r = KeyedMap { entries };
        r
    }

    /// A map with the single entry `k` to `v`.
    pub fn singleton(k: String, v: String) -> (r: Self)
        ensures
            r.pairs() == seq![(k@, v@)],
            r.as_map() == Map::<Seq<char>, Seq<char>>::empty().insert(k@, v@),
    {
        let mut r = Self::new();
        r.insert(k, v);
        r
    }
}

/// Helper used in proofs: the option that results from inserting `v` under
/// `k`, read at `key`.
pub open spec fn insert_or_keep_spec<W>(o: Option<W>, k: Seq<char>, v: W, key: Seq<char>) -> Option<W> {
    if key == k {
        Some(v)
    } else {
        o
    }
}

} // verus!
