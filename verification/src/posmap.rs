//! A small verified map from block or chunk positions to values, backed by a
//! vector of entries with pairwise-distinct keys. Its mathematical view is a
//! `Map<IVec3, V>`, and every operation's contract is stated over that view.

use vstd::prelude::*;
use crate::coords::IVec3;

verus! {

/// Pairwise-distinct keys: the representation invariant of [`PosMap`].
pub open spec fn distinct_keys<V>(s: Seq<(IVec3, V)>) -> bool {
    forall|i: int, j: int|
        0 <= i < j < s.len() ==> (#[trigger] s[i]).0 != (#[trigger] s[j]).0
}

/// The map denoted by an entry sequence; later entries win (irrelevant once
/// keys are distinct).
pub open spec fn as_map<V>(s: Seq<(IVec3, V)>) -> Map<IVec3, V>
    decreases s.len(),
{
    if s.len() == 0 {
        Map::empty()
    } else {
        as_map(s.drop_last()).insert(s.last().0, s.last().1)
    }
}

/// A key is in the map exactly when some entry carries it.
pub proof fn lemma_as_map_contains<V>(s: Seq<(IVec3, V)>, k: IVec3)
    ensures
        as_map(s).contains_key(k) <==> exists|i: int| 0 <= i < s.len() && (#[trigger] s[i]).0 == k,
    decreases s.len(),
{
    if s.len() > 0 {
        lemma_as_map_contains(s.drop_last(), k);
        if s.last().0 == k {
            assert(s[s.len() - 1].0 == k);
        } else if as_map(s).contains_key(k) {
            let i = choose|i: int| 0 <= i < s.drop_last().len() && (#[trigger] s.drop_last()[i]).0 == k;
            assert(s[i].0 == k);
        } else {
            assert forall|i: int| 0 <= i < s.len() && (#[trigger] s[i]).0 == k implies false by {
                if i < s.len() - 1 {
                    assert(s.drop_last()[i].0 == k);
                }
            }
        }
    }
}

/// With distinct keys, the map sends each entry's key to that entry's value.
pub proof fn lemma_as_map_value<V>(s: Seq<(IVec3, V)>, i: int)
    requires
        distinct_keys(s),
        0 <= i < s.len(),
    ensures
        as_map(s).contains_key(s[i].0),
        as_map(s)[s[i].0] == s[i].1,
    decreases s.len(),
{
    lemma_as_map_contains(s, s[i].0);
    if i < s.len() - 1 {
        assert(s[i].0 != s.last().0);
        assert(distinct_keys(s.drop_last())) by {
            assert forall|p: int, q: int|
                0 <= p < q < s.drop_last().len() implies (#[trigger] s.drop_last()[p]).0 != (
            #[trigger] s.drop_last()[q]).0 by {
                assert(s[p].0 != s[q].0);
            }
        }
        assert(s.drop_last()[i] == s[i]);
        lemma_as_map_value(s.drop_last(), i);
    }
}

/// A verified association map keyed by integer positions.
pub struct PosMap<V> {
    entries: Vec<(IVec3, V)>,
}

impl<V> View for PosMap<V> {
    type V = Map<IVec3, V>;

    closed spec fn view(&self) -> Map<IVec3, V> {
        as_map(self.entries@)
    }
}

impl<V> PosMap<V> {
    #[verifier::type_invariant]
    spec fn wf(self) -> bool {
        distinct_keys(self.entries@)
    }

    /// Number of entries held.
    pub closed spec fn spec_len(self) -> nat {
        self.entries@.len()
    }

    /// The empty map.
    pub fn new() -> (m: Self)
        ensures
            m@ == Map::<IVec3, V>::empty(),
            m.spec_len() == 0,
    {
        PosMap { entries: Vec::new() }
    }

    pub fn len(&self) -> (n: usize)
        ensures
            n == self.spec_len(),
            n == 0 <==> self@ =~= Map::<IVec3, V>::empty(),
    {
        proof {
            use_type_invariant(&*self);
            lemma_as_map_contains(self.entries@, self.entries@[0].0);
            if self.entries@.len() == 0 {
                assert forall|k: IVec3| !(#[trigger] self@.contains_key(k)) by {
                    lemma_as_map_contains(self.entries@, k);
                }
                assert(self@ =~= Map::<IVec3, V>::empty());
            }
        }
        self.entries.len()
    }

    pub fn is_empty(&self) -> (r: bool)
        ensures
            r <==> self@ =~= Map::<IVec3, V>::empty(),
    {
        self.len() == 0
    }

    /// Index of the entry carrying `key`, if one does.
    fn find(&self, key: &IVec3) -> (r: Option<usize>)
        ensures
            match r {
                Some(i) => i < self.entries@.len() && self.entries@[i as int].0 == *key,
                None => forall|i: int|
                    0 <= i < self.entries@.len() ==> (#[trigger] self.entries@[i]).0 != *key,
            },
    {
        let n = self.entries.len();
        let mut i: usize = 0;
        while i < n
            invariant
                i <= n,
                n == self.entries@.len(),
                forall|j: int| 0 <= j < i ==> (#[trigger] self.entries@[j]).0 != *key,
            decreases n - i,
        {
            if self.entries[i].0 == *key {
                return Some(i);
            }
            i = i + 1;
        }
        None
    }

    /// Look a position up.
    pub fn get(&self, key: &IVec3) -> (r: Option<&V>)
        ensures
            match r {
                Some(v) => self@.contains_key(*key) && *v == self@[*key],
                None => !self@.contains_key(*key),
            },
    {
        proof {
            use_type_invariant(&*self);
        }
        let found = self.find(key);
        proof {
            lemma_as_map_contains(self.entries@, *key);
        }
        match found {
            Some(i) => {
                proof {
                    lemma_as_map_value(self.entries@, i as int);
                }
                Some(&self.entries[i].1)
            },
            None => None,
        }
    }

    pub fn contains_key(&self, key: &IVec3) -> (r: bool)
        ensures
            r == self@.contains_key(*key),
    {
        matches!(self.get(key), Some(_))
    }

    /// Insert or replace the value at `key`.
    pub fn insert(&mut self, key: IVec3, value: V)
        ensures
            final(self)@ == old(self)@.insert(key, value),
            final(self).spec_len() == if old(self)@.contains_key(key) {
                old(self).spec_len()
            } else {
                old(self).spec_len() + 1
            },
    {
        proof {
            use_type_invariant(&*self);
            lemma_as_map_contains(self.entries@, key);
        }
        let ghost s0 = self.entries@;
        let found = self.find(&key);
        let mut entries: Vec<(IVec3, V)> = Vec::new();
        core::mem::swap(&mut entries, &mut self.entries);
        match found {
            Some(i) => {
                entries[i] = (key, value);
            },
            None => {
                entries.push((key, value));
            },
        }
        proof {
            assert(distinct_keys(entries@));
            lemma_as_map_eq_insert(s0, entries@, key, value);
        }
        core::mem::swap(&mut entries, &mut self.entries);
    }

    /// Remove the entry at `key`, handing back its value.
    pub fn remove(&mut self, key: &IVec3) -> (r: Option<V>)
        ensures
            final(self)@ == old(self)@.remove(*key),
            match r {
                Some(v) => old(self)@.contains_key(*key) && v == old(self)@[*key],
                None => !old(self)@.contains_key(*key) && *final(self) == *old(self),
            },
    {
        proof {
            use_type_invariant(&*self);
            lemma_as_map_contains(self.entries@, *key);
        }
        let ghost s0 = self.entries@;
        let found = self.find(key);
        match found {
            Some(i) => {
                proof {
                    lemma_as_map_value(self.entries@, i as int);
                }
                let mut entries: Vec<(IVec3, V)> = Vec::new();
                core::mem::swap(&mut entries, &mut self.entries);
                let e = entries.remove(i);
                proof {
                    assert forall|p: int, q: int|
                        0 <= p < q < entries@.len() implies (#[trigger] entries@[p]).0 != (
                    #[trigger] entries@[q]).0 by {
                        let p0 = if p < i { p } else { p + 1 };
                        let q0 = if q < i { q } else { q + 1 };
                        assert(s0[p0].0 != s0[q0].0);
                    }
                    lemma_as_map_eq_remove(s0, entries@, *key, i as int);
                }
                core::mem::swap(&mut entries, &mut self.entries);
                Some(e.1)
            },
            None => {
                proof {
                    assert(final(self)@ =~= old(self)@.remove(*key)) by {
                        lemma_as_map_contains(s0, *key);
                    }
                }
                None
            },
        }
    }

    /// Every key currently in the map, in storage order, without duplicates.
    pub fn keys(&self) -> (ks: Vec<IVec3>)
        ensures
            ks@.no_duplicates(),
            forall|j: int| 0 <= j < ks@.len() ==> self@.contains_key(#[trigger] ks@[j]),
            forall|k: IVec3| #[trigger] self@.contains_key(k) ==> ks@.contains(k),
    {
        proof {
            use_type_invariant(&*self);
        }
        let n = self.entries.len();
        let mut ks: Vec<IVec3> = Vec::new();
        let mut i: usize = 0;
        while i < n
            invariant
                i <= n,
                n == self.entries@.len(),
                distinct_keys(self.entries@),
                ks@.len() == i,
                forall|j: int| 0 <= j < i ==> #[trigger] ks@[j] == self.entries@[j].0,
            decreases n - i,
        {
            ks.push(self.entries[i].0);
            i = i + 1;
        }
        proof {
            assert(ks@.no_duplicates()) by {
                assert forall|p: int, q: int|
                    0 <= p < ks@.len() && 0 <= q < ks@.len() && p != q implies ks@[p] != ks@[q] by {
                    if p < q {
                        assert(self.entries@[p].0 != self.entries@[q].0);
                    } else {
                        assert(self.entries@[q].0 != self.entries@[p].0);
                    }
                }
            }
            assert forall|j: int| 0 <= j < ks@.len() implies self@.contains_key(#[trigger] ks@[j]) by {
                lemma_as_map_value(self.entries@, j);
            }
            assert forall|k: IVec3| #[trigger] self@.contains_key(k) implies ks@.contains(k) by {
                lemma_as_map_contains(self.entries@, k);
                let j = choose|j: int| 0 <= j < self.entries@.len() && (#[trigger] self.entries@[j]).0 == k;
                assert(ks@[j] == k);
            }
        }
        ks
    }
}

impl<V: Copy> PosMap<V> {
    /// An independent copy with the same contents.
    pub fn copy_of(&self) -> (r: Self)
        ensures
            r@ == self@,
            r.spec_len() == self.spec_len(),
    {
        proof {
            use_type_invariant(&*self);
        }
        let n = self.entries.len();
        let mut entries: Vec<(IVec3, V)> = Vec::new();
        let mut i: usize = 0;
        while i < n
            invariant
                i <= n,
                n == self.entries@.len(),
                entries@ =~= self.entries@.take(i as int),
            decreases n - i,
        {
            let e = self.entries[i];
            entries.push(e);
            proof {
                assert(entries@ =~= self.entries@.take(i as int + 1));
            }
            i = i + 1;
        }
        proof {
            assert(entries@ =~= self.entries@);
        }
        PosMap { entries }
    }
}

/// If two distinct-keyed entry sequences differ exactly by writing `(key,
/// value)` (replacing in place or appending), their maps differ by
/// `insert(key, value)`.
proof fn lemma_as_map_eq_insert<V>(s0: Seq<(IVec3, V)>, s1: Seq<(IVec3, V)>, key: IVec3, value: V)
    requires
        distinct_keys(s0),
        distinct_keys(s1),
        (exists|i: int|
            0 <= i < s0.len() && (#[trigger] s0[i]).0 == key && s1 == s0.update(i, (key, value)))
            || (s1 == s0.push((key, value)) && (forall|i: int|
                0 <= i < s0.len() ==> (#[trigger] s0[i]).0 != key)),
    ensures
        as_map(s1) == as_map(s0).insert(key, value),
{
    if exists|i: int|
        0 <= i < s0.len() && (#[trigger] s0[i]).0 == key && s1 == s0.update(i, (key, value)) {
        let i = choose|i: int|
            0 <= i < s0.len() && (#[trigger] s0[i]).0 == key && s1 == s0.update(i, (key, value));
        assert(forall|j: int| 0 <= j < s1.len() ==> (#[trigger] s1[j]).0 == s0[j].0);
        assert forall|k: IVec3| #[trigger]
            as_map(s1).contains_key(k) <==> as_map(s0).insert(key, value).contains_key(k) by {
            lemma_as_map_contains(s0, k);
            lemma_as_map_contains(s1, k);
            if k == key {
                assert(s1[i].0 == key);
            } else {
                if as_map(s0).contains_key(k) {
                    let j = choose|j: int| 0 <= j < s0.len() && (#[trigger] s0[j]).0 == k;
                    assert(s1[j].0 == k);
                }
                if as_map(s1).contains_key(k) {
                    let j = choose|j: int| 0 <= j < s1.len() && (#[trigger] s1[j]).0 == k;
                    assert(s0[j].0 == k);
                }
            }
        }
        assert forall|k: IVec3| #[trigger] as_map(s1).contains_key(k) implies as_map(s1)[k]
            == as_map(s0).insert(key, value)[k] by {
            lemma_as_map_contains(s1, k);
            let j = choose|j: int| 0 <= j < s1.len() && (#[trigger] s1[j]).0 == k;
            lemma_as_map_value(s1, j);
            if k == key {
                // the written slot is the only entry carrying `key`
                assert(s1[i].0 == key);
                assert(j == i);
            } else {
                assert(j != i);
                assert(s1[j] == s0[j]);
                lemma_as_map_value(s0, j);
            }
        }
    } else {
        // appended: no earlier entry carries `key`
        assert(s1 == s0.push((key, value)));
        assert(forall|j: int| 0 <= j < s0.len() ==> (#[trigger] s1[j]) == s0[j]);
        assert(s1[s1.len() - 1] == (key, value));
        assert forall|k: IVec3| #[trigger]
            as_map(s1).contains_key(k) <==> as_map(s0).insert(key, value).contains_key(k) by {
            lemma_as_map_contains(s0, k);
            lemma_as_map_contains(s1, k);
            if k == key {
                assert(s1[s1.len() - 1].0 == key);
            } else {
                if as_map(s0).contains_key(k) {
                    let j = choose|j: int| 0 <= j < s0.len() && (#[trigger] s0[j]).0 == k;
                    assert(s1[j].0 == k);
                }
                if as_map(s1).contains_key(k) {
                    let j = choose|j: int| 0 <= j < s1.len() && (#[trigger] s1[j]).0 == k;
                    assert(j < s0.len());
                    assert(s0[j].0 == k);
                }
            }
        }
        assert forall|k: IVec3| #[trigger] as_map(s1).contains_key(k) implies as_map(s1)[k]
            == as_map(s0).insert(key, value)[k] by {
            lemma_as_map_contains(s1, k);
            let j = choose|j: int| 0 <= j < s1.len() && (#[trigger] s1[j]).0 == k;
            lemma_as_map_value(s1, j);
            if k == key {
                assert(j == s1.len() - 1);
            } else {
                assert(j < s0.len());
                lemma_as_map_value(s0, j);
            }
        }
    }
    assert(as_map(s1) =~= as_map(s0).insert(key, value));
}

/// If a distinct-keyed entry sequence loses exactly its one entry carrying
/// `key`, its map loses exactly that key.
proof fn lemma_as_map_eq_remove<V>(s0: Seq<(IVec3, V)>, s1: Seq<(IVec3, V)>, key: IVec3, i: int)
    requires
        distinct_keys(s0),
        distinct_keys(s1),
        0 <= i < s0.len(),
        s0[i].0 == key,
        s1 == s0.remove(i),
    ensures
        as_map(s1) == as_map(s0).remove(key),
{
    assert forall|k: IVec3| #[trigger]
        as_map(s1).contains_key(k) <==> as_map(s0).remove(key).contains_key(k) by {
        lemma_as_map_contains(s0, k);
        lemma_as_map_contains(s1, k);
        if k != key && as_map(s0).contains_key(k) {
            let j = choose|j: int| 0 <= j < s0.len() && (#[trigger] s0[j]).0 == k;
            if j < i {
                assert(s1[j].0 == k);
            } else {
                assert(s1[j - 1].0 == k);
            }
        }
    }
    assert forall|k: IVec3| #[trigger] as_map(s1).contains_key(k) implies as_map(s1)[k] == as_map(
        s0,
    ).remove(key)[k] by {
        lemma_as_map_contains(s1, k);
        let j = choose|j: int| 0 <= j < s1.len() && (#[trigger] s1[j]).0 == k;
        lemma_as_map_value(s1, j);
        let j0 = if j < i { j } else { j + 1 };
        assert(s1[j] == s0[j0]);
        lemma_as_map_value(s0, j0);
    }
    assert(as_map(s1) =~= as_map(s0).remove(key));
}

} // verus!
