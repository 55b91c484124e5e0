//! A small association list: unique keys, insertion order kept.

use vstd::prelude::*;

use crate::text::{same, same_bytes};

verus! {

/// A key that can be compared by what it says.
pub trait Key: View + Sized {
    /// Whether two keys say the same.
    fn same_key(&self, other: &Self) -> (r: bool)
        ensures
            r == (self@ == other@),
    ;
}

impl Key for String {
    fn same_key(&self, other: &String) -> (r: bool) {
        same(self.as_str(), other.as_str())
    }
}

impl Key for Vec<u8> {
    fn same_key(&self, other: &Vec<u8>) -> (r: bool) {
        same_bytes(self.as_slice(), other.as_slice())
    }
}

impl Key for u64 {
    fn same_key(&self, other: &u64) -> (r: bool) {
        *self == *other
    }
}

/// A map kept as a list of entries, one per key, in the order the keys were
/// first inserted.
pub struct Assoc<K, V> {
    entries: Vec<(K, V)>,
}

/// Whether no two entries share a key.
pub open spec fn unique_keys<K: Key, V>(s: Seq<(K, V)>) -> bool {
    forall|i: int, j: int|
        0 <= i < s.len() && 0 <= j < s.len() && #[trigger] s[i].0@ == #[trigger] s[j].0@ ==> i == j
}

/// Whether two lists of entries have the same keys in the same places.
pub open spec fn same_keys<K: Key, V>(a: Seq<(K, V)>, b: Seq<(K, V)>) -> bool {
    &&& a.len() == b.len()
    &&& forall|i: int| 0 <= i < a.len() ==> (#[trigger] a[i]).0@ == b[i].0@
}

/// Whether some entry has the key `k`.
pub open spec fn keyed<K: Key, V>(s: Seq<(K, V)>, k: K::V) -> bool {
    exists|i: int| 0 <= i < s.len() && #[trigger] s[i].0@ == k
}

/// Whether the entry at `i` is the first with key `k`.
pub open spec fn first_keyed<K: Key, V>(s: Seq<(K, V)>, k: K::V, i: int) -> bool {
    &&& 0 <= i < s.len()
    &&& s[i].0@ == k
    &&& forall|j: int| 0 <= j < i ==> (#[trigger] s[j]).0@ != k
}

/// The value the first entry with key `k` holds.
pub open spec fn value_at<K: Key, V>(s: Seq<(K, V)>, k: K::V) -> V {
    s[choose|i: int| first_keyed(s, k, i)].1
}

/// The map a list of entries stands for.
pub open spec fn map_of<K: Key, V>(s: Seq<(K, V)>) -> Map<K::V, V> {
    Map::new(|k: K::V| keyed(s, k), |k: K::V| value_at(s, k))
}

impl<K: Key, V> View for Assoc<K, V> {
    type V = Map<K::V, V>;

    closed spec fn view(&self) -> Map<K::V, V> {
        map_of(self.entries@)
    }
}

impl<K: Key, V> Assoc<K, V> {
    /// No two entries share a key.
    pub closed spec fn wf(&self) -> bool {
        unique_keys(self.entries@)
    }

    /// The entries, in insertion order.
    pub closed spec fn listed(&self) -> Seq<(K, V)> {
        self.entries@
    }

    /// The map is what the entries say, one entry per key.
    pub proof fn lemma_listed(&self)
        requires
            self.wf(),
        ensures
            unique_keys(self.listed()),
            self@ == map_of(self.listed()),
    {
    }

    /// The empty map.
    pub fn new() -> (r: Assoc<K, V>)
        ensures
            r.wf(),
            r@ == Map::<K::V, V>::empty(),
            r.listed() == Seq::<(K, V)>::empty(),
    {
        let r = Assoc { entries: Vec::new() };
        assert(r@ =~= Map::<K::V, V>::empty());
        r
    }

    /// The number of entries.
    pub fn len(&self) -> (r: usize)
        ensures
            r == self.listed().len(),
    {
        self.entries.len()
    }

    /// The entry at a position.
    pub fn at(&self, i: usize) -> (r: (&K, &V))
        requires
            i < self.listed().len(),
        ensures
            *r.0 == self.listed()[i as int].0,
            *r.1 == self.listed()[i as int].1,
    {
        (&self.entries[i].0, &self.entries[i].1)
    }

    /// The position of a key.
    fn position(&self, key: &K) -> (r: Option<usize>)
        ensures
            match r {
                Some(i) => first_keyed(self.entries@, key@, i as int),
                None => !keyed(self.entries@, key@),
            },
    {
        for i in 0..self.entries.len()
            invariant
                forall|k: int| 0 <= k < i ==> (#[trigger] self.entries@[k]).0@ != key@,
        {
            if self.entries[i].0.same_key(key) {
                return Some(i);
            }
        }
        None
    }

    /// The value stored under a key.
    pub fn get(&self, key: &K) -> (r: Option<&V>)
        ensures
            match r {
                Some(v) => self@.contains_key(key@) && *v == self@[key@],
                None => !self@.contains_key(key@),
            },
    {
        match self.position(key) {
            Some(i) => {
                proof {
                    lemma_value_at(self.entries@, key@, i as int);
                }
                Some(&self.entries[i].1)
            },
            None => None,
        }
    }

    /// Whether a key is present.
    pub fn contains(&self, key: &K) -> (r: bool)
        ensures
            r == self@.contains_key(key@),
    {
        match self.position(key) {
            Some(i) => {
                proof {
                    lemma_value_at(self.entries@, key@, i as int);
                }
                true
            },
            None => false,
        }
    }

    /// Store a value under a key, replacing what was there in place.
    pub fn insert(&mut self, key: K, value: V)
        ensures
            old(self).wf() ==> final(self).wf(),
            final(self)@ == old(self)@.insert(key@, value),
            old(self)@.contains_key(key@) ==> same_keys(final(self).listed(), old(self).listed()),
            !old(self)@.contains_key(key@) ==> final(self).listed() == old(self).listed().push(
                (key, value),
            ),
    {
        let ghost before = self.entries@;
        match self.position(&key) {
            Some(i) => {
                let ghost k = key@;
                self.entries.set(i, (key, value));
                let ghost after = self.entries@;
                proof {
                    lemma_value_at(before, k, i as int);
                    assert forall|q: K::V, j: int|
                        #[trigger] first_keyed(after, q, j) == first_keyed(before, q, j) by {
                        assert forall|m: int| 0 <= m < before.len() implies #[trigger] after[m].0@
                            == before[m].0@ by {}
                        if first_keyed(before, q, j) {
                            assert forall|m: int| 0 <= m < j implies (#[trigger] after[m]).0@
                                != q by {
                                assert(before[m].0@ != q);
                            }
                        }
                        if first_keyed(after, q, j) {
                            assert forall|m: int| 0 <= m < j implies (#[trigger] before[m]).0@
                                != q by {
                                assert(after[m].0@ != q);
                            }
                        }
                    }
                    assert(map_of(after) =~= map_of(before).insert(k, value)) by {
                        assert forall|q: K::V| keyed(after, q) == keyed(before, q) by {
                            lemma_first(after, q);
                            lemma_first(before, q);
                            if keyed(before, q) {
                                let j = choose|j: int| first_keyed(before, q, j);
                                assert(first_keyed(after, q, j));
                            }
                            if keyed(after, q) {
                                let j = choose|j: int| first_keyed(after, q, j);
                                assert(first_keyed(before, q, j));
                            }
                        }
                        assert forall|q: K::V| keyed(after, q) implies map_of(after)[q] == map_of(
                            before,
                        ).insert(k, value)[q] by {
                            lemma_first(after, q);
                            let j = choose|j: int| first_keyed(after, q, j);
                            lemma_value_at(after, q, j);
                            lemma_value_at(before, q, j);
                        }
                    }
                    if unique_keys(before) {
                        assert forall|a: int, b: int|
                            0 <= a < after.len() && 0 <= b < after.len() && #[trigger] after[a].0@
                                == #[trigger] after[b].0@ implies a == b by {
                            assert(before[a].0@ == after[a].0@);
                            assert(before[b].0@ == after[b].0@);
                        }
                    }
                }
            },
            None => {
                self.entries.push((key, value));
                let ghost after = self.entries@;
                proof {
                    let n = before.len() as int;
                    assert(after[n].0@ == key@);
                    assert forall|m: int| 0 <= m < n implies #[trigger] after[m] == before[m] by {}
                    assert(first_keyed(after, key@, n)) by {
                        assert forall|m: int| 0 <= m < n implies (#[trigger] after[m]).0@
                            != key@ by {
                            assert(before[m].0@ != key@);
                        }
                    }
                    assert(map_of(after) =~= map_of(before).insert(key@, value)) by {
                        assert forall|q: K::V| keyed(after, q) == (keyed(before, q) || q == key@) by {
                            if keyed(before, q) {
                                let j = choose|j: int|
                                    0 <= j < before.len() && #[trigger] before[j].0@ == q;
                                assert(after[j].0@ == q);
                            }
                            if q == key@ {
                                assert(after[n].0@ == q);
                            }
                            if keyed(after, q) {
                                let j = choose|j: int|
                                    0 <= j < after.len() && #[trigger] after[j].0@ == q;
                                if j < n {
                                    assert(before[j].0@ == q);
                                }
                            }
                        }
                        lemma_value_at(after, key@, n);
                        assert forall|q: K::V| keyed(before, q) && q != key@ implies map_of(after)[q]
                            == map_of(before)[q] by {
                            lemma_first(before, q);
                            let j = choose|j: int| first_keyed(before, q, j);
                            assert(first_keyed(after, q, j));
                            lemma_value_at(before, q, j);
                            lemma_value_at(after, q, j);
                        }
                    }
                    if unique_keys(before) {
                        assert forall|a: int, b: int|
                            0 <= a < after.len() && 0 <= b < after.len() && #[trigger] after[a].0@
                                == #[trigger] after[b].0@ implies a == b by {
                            if a < n {
                                assert(before[a].0@ == after[a].0@);
                            }
                            if b < n {
                                assert(before[b].0@ == after[b].0@);
                            }
                        }
                    }
                }
            },
        }
    }

    /// Drop a key, telling whether it was present.
    pub fn remove(&mut self, key: &K) -> (r: bool)
        ensures
            old(self).wf() ==> final(self).wf(),
            final(self)@ == old(self)@.remove(key@),
            r == old(self)@.contains_key(key@),
    {
        let ghost start = self.entries@;
        let mut found = false;
        assert(map_of(start).remove(key@) =~= map_of(start).remove(key@));
        loop
            invariant
                map_of(self.entries@).remove(key@) == map_of(start).remove(key@),
                unique_keys(start) ==> unique_keys(self.entries@),
                found || self.entries@ == start,
                found ==> keyed(start, key@),
            ensures
                !keyed(self.entries@, key@),
            decreases self.entries@.len(),
        {
            let ghost before = self.entries@;
            match self.position(key) {
                None => {
                    break;
                },
                Some(i) => {
                    let _ = self.entries.remove(i);
                    proof {
                        assert(before[i as int].0@ == key@);
                        lemma_removed(before, self.entries@, key@, i as int);
                    }
                    found = true;
                },
            }
        }
        proof {
            assert(map_of(self.entries@) =~= map_of(self.entries@).remove(key@));
        }
        found
    }
}

/// A key that occurs has a first entry.
proof fn lemma_first<K: Key, V>(s: Seq<(K, V)>, k: K::V)
    ensures
        keyed(s, k) == exists|i: int| first_keyed(s, k, i),
    decreases s.len(),
{
    if keyed(s, k) {
        let j = choose|j: int| 0 <= j < s.len() && #[trigger] s[j].0@ == k;
        lemma_first_below(s, k, j);
    }
}

proof fn lemma_first_below<K: Key, V>(s: Seq<(K, V)>, k: K::V, j: int)
    requires
        0 <= j < s.len(),
        s[j].0@ == k,
    ensures
        exists|i: int| first_keyed(s, k, i),
    decreases j,
{
    if exists|m: int| 0 <= m < j && (#[trigger] s[m]).0@ == k {
        let m = choose|m: int| 0 <= m < j && (#[trigger] s[m]).0@ == k;
        lemma_first_below(s, k, m);
    } else {
        assert(first_keyed(s, k, j));
    }
}

/// The map holds what the first entry of a key holds.
proof fn lemma_value_at<K: Key, V>(s: Seq<(K, V)>, k: K::V, i: int)
    requires
        first_keyed(s, k, i),
    ensures
        map_of(s).contains_key(k),
        map_of(s)[k] == s[i].1,
{
    let j = choose|j: int| first_keyed(s, k, j);
    if j < i {
        assert(s[j].0@ != k);
    }
    if i < j {
        assert(s[i].0@ != k);
    }
}

/// Dropping the first entry of a key leaves the other keys as they were.
proof fn lemma_removed<K: Key, V>(before: Seq<(K, V)>, after: Seq<(K, V)>, key: K::V, i: int)
    requires
        first_keyed(before, key, i),
        after == before.remove(i),
    ensures
        map_of(after).remove(key) == map_of(before).remove(key),
        unique_keys(before) ==> unique_keys(after),
        keyed(before, key),
{
    assert forall|m: int| 0 <= m < after.len() implies #[trigger] after[m] == before[if m < i {
        m
    } else {
        m + 1
    }] by {}
    assert(before[i].0@ == key);
    assert(map_of(after).remove(key) =~= map_of(before).remove(key)) by {
        assert forall|q: K::V| q != key implies keyed(after, q) == keyed(before, q) && (keyed(
            before,
            q,
        ) ==> map_of(after)[q] == map_of(before)[q]) by {
            if keyed(after, q) {
                let j = choose|j: int| 0 <= j < after.len() && #[trigger] after[j].0@ == q;
                assert(before[if j < i {
                    j
                } else {
                    j + 1
                }].0@ == q);
            }
            if keyed(before, q) {
                lemma_first(before, q);
                let j = choose|j: int| first_keyed(before, q, j);
                let m = if j < i {
                    j
                } else {
                    j - 1
                };
                assert(after[m] == before[j]);
                assert(first_keyed(after, q, m)) by {
                    assert forall|t: int| 0 <= t < m implies (#[trigger] after[t]).0@ != q by {
                        assert(before[if t < i {
                            t
                        } else {
                            t + 1
                        }].0@ != q);
                    }
                }
                lemma_value_at(before, q, j);
                lemma_value_at(after, q, m);
            }
        }
    }
    if unique_keys(before) {
        assert forall|a: int, b: int|
            0 <= a < after.len() && 0 <= b < after.len() && #[trigger] after[a].0@
                == #[trigger] after[b].0@ implies a == b by {
            let x = if a < i {
                a
            } else {
                a + 1
            };
            let y = if b < i {
                b
            } else {
                b + 1
            };
            assert(before[x].0@ == before[y].0@);
        }
    }
}

/// The map holds what each entry of a list with distinct keys holds.
pub proof fn lemma_listed_value<K: Key, V>(listed: Seq<(K, V)>, i: int)
    requires
        unique_keys(listed),
        0 <= i < listed.len(),
    ensures
        map_of(listed).contains_key(listed[i].0@),
        map_of(listed)[listed[i].0@] == listed[i].1,
{
    let k = listed[i].0@;
    assert(first_keyed(listed, k, i)) by {
        assert forall|j: int| 0 <= j < i implies (#[trigger] listed[j]).0@ != k by {
            if listed[j].0@ == k {
                assert(listed[i].0@ == k);
            }
        }
    }
    assert(keyed(listed, k));
    let m = choose|m: int| first_keyed(listed, k, m);
    assert(listed[m].0@ == listed[i].0@);
}

} // verus!
