//! A keyed record store in the style of a hooked storage map. Every
//! mutation hands the displaced value back to the caller, which is the old
//! half of the old/new pair an observer hook receives, so the ledger around
//! it can report each change as it happens.

use vstd::prelude::*;
use crate::types::{RegionId, RenewalId};

verus! {

/// Keys of a `HookedMap`: plain values with a decidable equality.
pub trait StorageKey: Sized {
    /// Decides equality of two keys.
    fn key_eq(&self, other: &Self) -> (r: bool)
        ensures
            r == (*self == *other),
    ;
}

impl StorageKey for u32 {
    fn key_eq(&self, other: &Self) -> (r: bool) {
        *self == *other
    }
}

impl StorageKey for u64 {
    fn key_eq(&self, other: &Self) -> (r: bool) {
        *self == *other
    }
}

impl StorageKey for (u32, u16) {
    fn key_eq(&self, other: &Self) -> (r: bool) {
        self.0 == other.0 && self.1 == other.1
    }
}

impl StorageKey for RegionId {
    fn key_eq(&self, other: &Self) -> (r: bool) {
        self.begin == other.begin && self.core == other.core && self.part.bits
            == other.part.bits
    }
}

impl StorageKey for RenewalId {
    fn key_eq(&self, other: &Self) -> (r: bool) {
        self.core == other.core && self.when == other.when
    }
}

/// Entry `i` of `s` holds key `k`.
pub open spec fn has_key_at<K, V>(s: Seq<(K, V)>, k: K, i: int) -> bool {
    0 <= i < s.len() && s[i].0 == k
}

/// Some entry of `s` holds key `k`.
pub open spec fn seq_has_key<K, V>(s: Seq<(K, V)>, k: K) -> bool {
    exists|i: int| has_key_at(s, k, i)
}

/// The entry index holding key `k`; meaningful under `distinct_keys`.
pub open spec fn key_index<K, V>(s: Seq<(K, V)>, k: K) -> int {
    choose|i: int| has_key_at(s, k, i)
}

/// No two entries of `s` hold the same key.
pub open spec fn distinct_keys<K, V>(s: Seq<(K, V)>) -> bool {
    forall|i: int, j: int| #![trigger s[i], s[j]] 0 <= i < j < s.len() ==> s[i].0 != s[j].0
}

/// The mathematical map an entry sequence stands for.
pub open spec fn assoc_view<K, V>(s: Seq<(K, V)>) -> Map<K, V> {
    Map::new(|k: K| seq_has_key(s, k), |k: K| s[key_index(s, k)].1)
}

/// An entry sequence binds finitely many keys.
proof fn lemma_assoc_view_finite<K, V>(s: Seq<(K, V)>)
    ensures
        assoc_view(s).dom().finite(),
{
    broadcast use vstd::seq_lib::seq_to_set_is_finite;

    let ks = s.map_values(|e: (K, V)| e.0);
    assert forall|k: K| assoc_view(s).dom().contains(k) implies ks.to_set().contains(k) by {
        let i = choose|i: int| has_key_at(s, k, i);
        assert(has_key_at(s, k, i));
        assert(ks[i] == k);
    }
    assert forall|k: K| ks.to_set().contains(k) implies assoc_view(s).dom().contains(k) by {
        let i = choose|i: int| 0 <= i < ks.len() && ks[i] == k;
        assert(has_key_at(s, k, i));
    }
    assert(assoc_view(s).dom() =~= ks.to_set());
}

/// Under distinct keys, the entry at `i` is what the map holds at its key.
proof fn lemma_key_at<K, V>(s: Seq<(K, V)>, i: int)
    requires
        distinct_keys(s),
        0 <= i < s.len(),
    ensures
        seq_has_key(s, s[i].0),
        assoc_view(s).dom().contains(s[i].0),
        assoc_view(s)[s[i].0] == s[i].1,
{
    assert(has_key_at(s, s[i].0, i));
    let j = key_index(s, s[i].0);
    assert(has_key_at(s, s[i].0, j));
    if j != i {
        if j < i {
            assert(s[j].0 != s[i].0);
        } else {
            assert(s[i].0 != s[j].0);
        }
    }
}

/// Removing entry `i` removes exactly its key from the map.
proof fn lemma_remove_entry<K, V>(s: Seq<(K, V)>, i: int)
    requires
        distinct_keys(s),
        0 <= i < s.len(),
    ensures
        distinct_keys(s.remove(i)),
        !seq_has_key(s.remove(i), s[i].0),
        assoc_view(s.remove(i)) =~= assoc_view(s).remove(s[i].0),
{
    let k = s[i].0;
    let s1 = s.remove(i);
    assert(s1.len() == s.len() - 1);
    assert forall|p: int| 0 <= p < s1.len() implies #[trigger] s1[p] == s[if p < i {
        p
    } else {
        p + 1
    }] by {}
    assert forall|p: int, q: int| #![trigger s1[p], s1[q]] 0 <= p < q < s1.len()
        implies s1[p].0 != s1[q].0 by {
        let p0 = if p < i { p } else { p + 1 };
        let q0 = if q < i { q } else { q + 1 };
        assert(s1[p] == s[p0]);
        assert(s1[q] == s[q0]);
    }
    assert forall|p: int| 0 <= p < s1.len() implies s1[p].0 != k by {
        let p0 = if p < i { p } else { p + 1 };
        assert(s1[p] == s[p0]);
        if p0 < i {
            assert(s[p0].0 != s[i].0);
        } else {
            assert(s[i].0 != s[p0].0);
        }
    }
    assert forall|k2: K| seq_has_key(s1, k2) implies k2 != k && seq_has_key(s, k2)
        && assoc_view(s1)[k2] == assoc_view(s)[k2] by {
        let p = choose|p: int| has_key_at(s1, k2, p);
        assert(has_key_at(s1, k2, p));
        let p0 = if p < i { p } else { p + 1 };
        assert(s1[p] == s[p0]);
        assert(has_key_at(s, k2, p0));
        lemma_key_at(s, p0);
        lemma_key_at(s1, p);
    }
    assert forall|k2: K| k2 != k && seq_has_key(s, k2) implies seq_has_key(s1, k2) by {
        let q = choose|q: int| has_key_at(s, k2, q);
        assert(has_key_at(s, k2, q));
        assert(q != i);
        let p = if q < i { q } else { q - 1 };
        assert(s1[p] == s[q]);
        assert(has_key_at(s1, k2, p));
    }
}

/// Pushing a fresh key inserts exactly that binding into the map.
proof fn lemma_push_entry<K, V>(s: Seq<(K, V)>, k: K, v: V)
    requires
        distinct_keys(s),
        !seq_has_key(s, k),
    ensures
        distinct_keys(s.push((k, v))),
        assoc_view(s.push((k, v))) =~= assoc_view(s).insert(k, v),
{
    let s2 = s.push((k, v));
    let n = s.len() as int;
    assert forall|p: int, q: int| #![trigger s2[p], s2[q]] 0 <= p < q < s2.len()
        implies s2[p].0 != s2[q].0 by {
        if q < n {
            assert(s2[p] == s[p]);
            assert(s2[q] == s[q]);
        } else {
            assert(s2[p] == s[p]);
            assert(s2[q] == (k, v));
            if s[p].0 == k {
                assert(has_key_at(s, k, p));
            }
        }
    }
    assert(has_key_at(s2, k, n));
    assert forall|k2: K| seq_has_key(s2, k2) implies assoc_view(s2)[k2] == assoc_view(
        s,
    ).insert(k, v)[k2] && (k2 == k || seq_has_key(s, k2)) by {
        let p = choose|p: int| has_key_at(s2, k2, p);
        assert(has_key_at(s2, k2, p));
        lemma_key_at(s2, p);
        if p < n {
            assert(s2[p] == s[p]);
            assert(has_key_at(s, k2, p));
            if k2 == k {
                assert(seq_has_key(s, k));
            }
            lemma_key_at(s, p);
        }
    }
    assert forall|k2: K| k2 == k || seq_has_key(s, k2) implies seq_has_key(s2, k2) by {
        if k2 == k {
            assert(has_key_at(s2, k, n));
        } else {
            let q = choose|q: int| has_key_at(s, k2, q);
            assert(has_key_at(s, k2, q));
            assert(s2[q] == s[q]);
            assert(has_key_at(s2, k2, q));
        }
    }
}

/// A keyed record store that reports each change: mutations return the
/// displaced value, so the caller can hand the old/new pair to whatever
/// observes the store.
pub struct HookedMap<K, V> {
    entries: Vec<(K, V)>,
}

impl<K, V> View for HookedMap<K, V> {
    type V = Map<K, V>;

    closed spec fn view(&self) -> Map<K, V> {
        assoc_view(self.entries@)
    }
}

impl<K: StorageKey + Copy, V> HookedMap<K, V> {
    /// The store's entries hold pairwise-distinct keys.
    pub closed spec fn wf(&self) -> bool {
        distinct_keys(self.entries@)
    }

    /// A well-formed store binds finitely many keys.
    pub proof fn lemma_wf_finite(&self)
        ensures
            self@.dom().finite(),
    {
        lemma_assoc_view_finite(self.entries@);
    }

    /// An empty store.
    pub fn new() -> (r: Self)
        ensures
            r.wf(),
            r@ == Map::<K, V>::empty(),
    {
        let r = HookedMap { entries: Vec::new() };
        proof {
            assert(r@ =~= Map::<K, V>::empty());
        }
        r
    }

    /// Index of the entry holding `key`, if any.
    fn index_of(&self, key: &K) -> (r: Option<usize>)
        ensures
            match r {
                Some(i) => has_key_at(self.entries@, *key, i as int),
                None => !seq_has_key(self.entries@, *key),
            },
    {
        let n = self.entries.len();
        let mut i: usize = 0;
        while i < n
            invariant
                i <= n,
                n == self.entries@.len(),
                forall|j: int| 0 <= j < i ==> (#[trigger] self.entries@[j]).0 != *key,
            decreases n - i,
        {
            let k = self.entries[i].0;
            if k.key_eq(key) {
                return Some(i);
            }
            i = i + 1;
        }
        proof {
            assert forall|j: int| !has_key_at(self.entries@, *key, j) by {}
        }
        None
    }

    /// Does a value exist under `key`?
    pub fn contains_key(&self, key: &K) -> (r: bool)
        requires
            self.wf(),
        ensures
            r == self@.dom().contains(*key),
    {
        match self.index_of(key) {
            Some(_) => true,
            None => false,
        }
    }

    /// The value under `key`, if any.
    pub fn get(&self, key: &K) -> (r: Option<&V>)
        requires
            self.wf(),
        ensures
            match r {
                Some(v) => self@.dom().contains(*key) && *v == self@[*key],
                None => !self@.dom().contains(*key),
            },
    {
        match self.index_of(key) {
            Some(i) => {
                proof {
                    lemma_key_at(self.entries@, i as int);
                }
                Some(&self.entries[i].1)
            },
            None => None,
        }
    }

    /// Stores `value` under `key`, returning the displaced value: the old
    /// half of the change an observer is handed.
    pub fn insert(&mut self, key: K, value: V) -> (displaced: Option<V>)
        requires
            old(self).wf(),
        ensures
            final(self).wf(),
            final(self)@ == old(self)@.insert(key, value),
            displaced == if old(self)@.dom().contains(key) {
                Some(old(self)@[key])
            } else {
                None::<V>
            },
    {
        let ghost s = self.entries@;
        match self.index_of(&key) {
            Some(i) => {
                proof {
                    lemma_key_at(s, i as int);
                    lemma_remove_entry(s, i as int);
                    lemma_push_entry(s.remove(i as int), key, value);
                }
                let p = self.entries.remove(i);
                self.entries.push((key, value));
                proof {
                    assert(self@ =~= old(self)@.insert(key, value));
                }
                Some(p.1)
            },
            None => {
                proof {
                    lemma_push_entry(s, key, value);
                }
                self.entries.push((key, value));
                None
            },
        }
    }

    /// Removes the value under `key`, returning it: the old half of the
    /// change an observer is handed.
    pub fn remove(&mut self, key: &K) -> (displaced: Option<V>)
        requires
            old(self).wf(),
        ensures
            final(self).wf(),
            final(self)@ == old(self)@.remove(*key),
            displaced == if old(self)@.dom().contains(*key) {
                Some(old(self)@[*key])
            } else {
                None::<V>
            },
    {
        let ghost s = self.entries@;
        match self.index_of(key) {
            Some(i) => {
                proof {
                    lemma_key_at(s, i as int);
                    lemma_remove_entry(s, i as int);
                }
                let p = self.entries.remove(i);
                Some(p.1)
            },
            None => {
                proof {
                    assert(self@ =~= old(self)@.remove(*key));
                }
                None
            },
        }
    }

    /// Exchanges the values under two keys; a key without a value receives
    /// none, so a lone value moves across.
    pub fn swap(&mut self, key1: &K, key2: &K)
        requires
            old(self).wf(),
        ensures
            final(self).wf(),
            old(self)@.dom().contains(*key1) && old(self)@.dom().contains(*key2)
                ==> final(self)@ == old(self)@.insert(*key1, old(self)@[*key2]).insert(
                *key2,
                old(self)@[*key1],
            ),
            old(self)@.dom().contains(*key1) && !old(self)@.dom().contains(*key2)
                ==> final(self)@ == old(self)@.remove(*key1).insert(*key2, old(self)@[*key1]),
            !old(self)@.dom().contains(*key1) && old(self)@.dom().contains(*key2)
                ==> final(self)@ == old(self)@.remove(*key2).insert(*key1, old(self)@[*key2]),
            !old(self)@.dom().contains(*key1) && !old(self)@.dom().contains(*key2)
                ==> final(self)@ == old(self)@,
    {
        let v1 = self.remove(key1);
        let v2 = self.remove(key2);
        match (v1, v2) {
            (Some(a), Some(b)) => {
                self.insert(*key1, b);
                self.insert(*key2, a);
                proof {
                    assert(self@ =~= old(self)@.insert(*key1, old(self)@[*key2]).insert(
                        *key2,
                        old(self)@[*key1],
                    ));
                }
            },
            (Some(a), None) => {
                self.insert(*key2, a);
                proof {
                    if old(self)@.dom().contains(*key2) {
                        assert(self@ =~= old(self)@.insert(*key1, old(self)@[*key2]).insert(
                            *key2,
                            old(self)@[*key1],
                        ));
                    } else {
                        assert(self@ =~= old(self)@.remove(*key1).insert(
                            *key2,
                            old(self)@[*key1],
                        ));
                    }
                }
            },
            (None, Some(b)) => {
                self.insert(*key1, b);
                proof {
                    assert(self@ =~= old(self)@.remove(*key2).insert(*key1, old(self)@[*key2]));
                }
            },
            (None, None) => {
                proof {
                    assert(self@ =~= old(self)@);
                }
            },
        }
    }

    /// All keys currently bound, each exactly once, in storage order.
    pub fn keys(&self) -> (r: Vec<K>)
        requires
            self.wf(),
        ensures
            r@.no_duplicates(),
            forall|k: K| #[trigger] r@.contains(k) <==> self@.dom().contains(k),
    {
        let n = self.entries.len();
        let mut r: Vec<K> = Vec::new();
        let mut i: usize = 0;
        while i < n
            invariant
                i <= n,
                n == self.entries@.len(),
                r@.len() == i as int,
                forall|j: int| 0 <= j < i ==> r@[j] == (#[trigger] self.entries@[j]).0,
            decreases n - i,
        {
            let k = self.entries[i].0;
            r.push(k);
            i = i + 1;
        }
        proof {
            assert forall|p: int, q: int| 0 <= p < q < r@.len() implies r@[p] != r@[q] by {
                assert(r@[p] == self.entries@[p].0);
                assert(r@[q] == self.entries@[q].0);
            }
            assert forall|k: K| #[trigger] r@.contains(k) implies self@.dom().contains(k) by {
                let j = choose|j: int| 0 <= j < r@.len() && r@[j] == k;
                assert(r@[j] == self.entries@[j].0);
                assert(has_key_at(self.entries@, k, j));
            }
            assert forall|k: K| self@.dom().contains(k) implies r@.contains(k) by {
                let j = choose|j: int| has_key_at(self.entries@, k, j);
                assert(has_key_at(self.entries@, k, j));
                assert(r@[j] == k);
            }
        }
        r
    }
}

} // verus!
