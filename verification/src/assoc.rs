//! A small address-keyed association map backed by a vector.
//!
//! The engine keys account state and overrides by address.  Entries are kept
//! in first-insertion order, keys are unique, and the view is the finite map
//! from keys to values.

use vstd::prelude::*;

verus! {

/// The map denoted by an entry sequence: later entries win, though with
/// unique keys the order never matters.
pub open spec fn map_of<V>(s: Seq<(u64, V)>) -> Map<u64, V>
    decreases s.len(),
{
    if s.len() == 0 {
        Map::empty()
    } else {
        map_of(s.drop_last()).insert(s.last().0, s.last().1)
    }
}

/// A key is in the map exactly when some entry carries it.
pub proof fn lemma_map_of_dom<V>(s: Seq<(u64, V)>)
    ensures
        forall|k: u64|
            map_of(s).dom().contains(k) <==> (exists|i: int|
                0 <= i < s.len() && (#[trigger] s[i]).0 == k),
    decreases s.len(),
{
    if s.len() > 0 {
        lemma_map_of_dom(s.drop_last());
        assert forall|k: u64| map_of(s).dom().contains(k) implies (exists|i: int|
            0 <= i < s.len() && (#[trigger] s[i]).0 == k) by {
            if k == s.last().0 {
                assert(s[s.len() - 1].0 == k);
            } else {
                assert(map_of(s.drop_last()).dom().contains(k));
                let i = choose|i: int|
                    0 <= i < s.drop_last().len() && (#[trigger] s.drop_last()[i]).0 == k;
                assert(s.drop_last()[i] == s[i]);
            }
        }
        assert forall|k: u64| (exists|i: int| 0 <= i < s.len() && (#[trigger] s[i]).0 == k)
            implies map_of(s).dom().contains(k) by {
            let i = choose|i: int| 0 <= i < s.len() && (#[trigger] s[i]).0 == k;
            if i < s.len() - 1 {
                assert((#[trigger] s.drop_last()[i]).0 == k);
                assert(map_of(s.drop_last()).dom().contains(k));
            } else {
                assert(k == s.last().0);
            }
        }
    }
}

/// An entry whose key does not recur later in the sequence gives the map's
/// value at that key.
pub proof fn lemma_map_of_index<V>(s: Seq<(u64, V)>, i: int)
    requires
        0 <= i < s.len(),
        forall|j: int| i < j < s.len() ==> (#[trigger] s[j]).0 != s[i].0,
    ensures
        map_of(s).dom().contains(s[i].0),
        map_of(s)[s[i].0] == s[i].1,
    decreases s.len(),
{
    if i == s.len() - 1 {
    } else {
        lemma_map_of_index(s.drop_last(), i);
        assert(s.drop_last()[i] == s[i]);
    }
}

/// Replacing the value of an entry updates the map at its key, provided the
/// keys are unique.
pub proof fn lemma_map_of_update<V>(s: Seq<(u64, V)>, i: int, v: V)
    requires
        0 <= i < s.len(),
        forall|p: int, q: int| 0 <= p < q < s.len() ==> (#[trigger] s[p]).0 != (#[trigger] s[q]).0,
    ensures
        map_of(s.update(i, (s[i].0, v))) == map_of(s).insert(s[i].0, v),
    decreases s.len(),
{
    let s2 = s.update(i, (s[i].0, v));
    if i == s.len() - 1 {
        assert(s2.drop_last() =~= s.drop_last());
        assert(map_of(s2) =~= map_of(s).insert(s[i].0, v));
    } else {
        lemma_map_of_update(s.drop_last(), i, v);
        assert(s2.drop_last() =~= s.drop_last().update(i, (s[i].0, v)));
        assert(s2.last() == s.last());
        assert(map_of(s2) == map_of(s.drop_last()).insert(s[i].0, v).insert(s.last().0, s.last().1));
        // The two keys differ, so the inserts commute.
        assert(s[i].0 != s.last().0);
        assert(map_of(s.drop_last()).insert(s[i].0, v).insert(s.last().0, s.last().1) =~= map_of(
            s.drop_last(),
        ).insert(s.last().0, s.last().1).insert(s[i].0, v));
    }
}

/// An address-keyed map with unique keys, stored as a vector of entries.
#[derive(Debug)]
pub struct AssocMap<V> {
    entries: Vec<(u64, V)>,
}

impl<V> View for AssocMap<V> {
    type V = Map<u64, V>;

    closed spec fn view(&self) -> Map<u64, V> {
        map_of(self.entries@)
    }
}

impl<V> AssocMap<V> {
    /// Keys are pairwise distinct.
    pub closed spec fn wf(self) -> bool {
        forall|p: int, q: int|
            0 <= p < q < self.entries@.len() ==> (#[trigger] self.entries@[p]).0 != (
            #[trigger] self.entries@[q]).0
    }
}

impl<V: Copy> AssocMap<V> {
    pub fn new() -> (r: Self)
        ensures
            r@ == Map::<u64, V>::empty(),
            r.wf(),
    {
        AssocMap { entries: Vec::new() }
    }

    /// Look the key up; `None` exactly when the key is absent.
    pub fn get(&self, key: u64) -> (r: Option<V>)
        requires
            self.wf(),
        ensures
            match r {
                Some(v) => self@.dom().contains(key) && self@[key] == v,
                None => !self@.dom().contains(key),
            },
    {
        let n = self.entries.len();
        for i in 0..n
            invariant
                n == self.entries@.len(),
                forall|j: int| 0 <= j < i ==> (#[trigger] self.entries@[j]).0 != key,
                self.wf(),
        {
            let e = self.entries[i];
            if e.0 == key {
                proof {
                    lemma_map_of_index(self.entries@, i as int);
                }
                return Some(e.1);
            }
        }
        proof {
            lemma_map_of_dom(self.entries@);
        }
        None
    }

    /// Insert or replace the value at the key.
    pub fn insert(&mut self, key: u64, value: V)
        requires
            old(self).wf(),
        ensures
            final(self).wf(),
            final(self)@ == old(self)@.insert(key, value),
    {
        let n = self.entries.len();
        for i in 0..n
            invariant
                n == self.entries@.len(),
                self == old(self),
                forall|j: int| 0 <= j < i ==> (#[trigger] self.entries@[j]).0 != key,
                self.wf(),
        {
            let e = self.entries[i];
            if e.0 == key {
                self.entries[i] = (key, value);
                proof {
                    lemma_map_of_update(old(self).entries@, i as int, value);
                }
                return;
            }
        }
        self.entries.push((key, value));
        proof {
            assert(self.entries@.drop_last() =~= old(self).entries@);
        }
    }

    /// A copy with the same contents; carrying a map forward is a plain copy.
    pub fn duplicate(&self) -> (r: Self)
        requires
            self.wf(),
        ensures
            r.wf(),
            r@ == self@,
    {
        let mut entries: Vec<(u64, V)> = Vec::new();
        let n = self.entries.len();
        for i in 0..n
            invariant
                n == self.entries@.len(),
                entries@ == self.entries@.take(i as int),
        {
            entries.push(self.entries[i]);
            proof {
                assert(self.entries@.take(i + 1).drop_last() =~= self.entries@.take(i as int));
                assert(entries@ =~= self.entries@.take(i + 1));
            }
        }
        proof {
            assert(self.entries@.take(n as int) =~= self.entries@);
        }
        AssocMap { entries }
    }

    /// The keys, in entry order: no duplicates, and exactly the map's domain.
    pub fn keys(&self) -> (r: Vec<u64>)
        requires
            self.wf(),
        ensures
            forall|p: int, q: int| 0 <= p < q < r@.len() ==> r@[p] != r@[q],
            forall|k: u64| r@.contains(k) <==> self@.dom().contains(k),
    {
        let mut r: Vec<u64> = Vec::new();
        let n = self.entries.len();
        for i in 0..n
            invariant
                n == self.entries@.len(),
                r@.len() == i,
                forall|j: int| 0 <= j < i ==> r@[j] == (#[trigger] self.entries@[j]).0,
                self.wf(),
        {
            r.push(self.entries[i].0);
        }
        proof {
            lemma_map_of_dom(self.entries@);
            assert forall|p: int, q: int| 0 <= p < q < r@.len() implies r@[p] != r@[q] by {
                assert(r@[p] == self.entries@[p].0);
                assert(r@[q] == self.entries@[q].0);
            }
            assert forall|k: u64| r@.contains(k) implies self@.dom().contains(k) by {
                let j = choose|j: int| 0 <= j < r@.len() && r@[j] == k;
                assert(self.entries@[j].0 == k);
            }
            assert forall|k: u64| self@.dom().contains(k) implies r@.contains(k) by {
                let j = choose|j: int| 0 <= j < self.entries@.len() && (#[trigger] self.entries@[j]).0 == k;
                assert(r@[j] == k);
            }
        }
        r
    }
}

} // verus!
