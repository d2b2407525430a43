//! Capacity-bounded cache keyed by strings with least-recently-used eviction.
//!
//! The entries are kept in one vector ordered from least to most recently
//! used, so the recency order and the key/value pairs can never disagree.
use vstd::prelude::*;

verus! {

/// One cached entry as seen by specifications: the key's characters and the value.
pub type EntryView<V> = (Seq<char>, V);

/// Keys of an entry sequence are pairwise distinct.
pub open spec fn distinct_keys<V>(s: Seq<EntryView<V>>) -> bool {
    forall|i: int, j: int| 0 <= i < s.len() && 0 <= j < s.len() && i != j ==> s[i].0 != s[j].0
}

/// Some entry of `s` has key `k`.
pub open spec fn has_key<V>(s: Seq<EntryView<V>>, k: Seq<char>) -> bool {
    exists|i: int| 0 <= i < s.len() && s[i].0 == k
}

/// `s` with every entry whose key is `k` removed, the rest in order.
pub open spec fn without_key<V>(s: Seq<EntryView<V>>, k: Seq<char>) -> Seq<EntryView<V>>
    decreases s.len(),
{
    if s.len() == 0 {
        s
    } else if s.last().0 == k {
        without_key(s.drop_last(), k)
    } else {
        without_key(s.drop_last(), k).push(s.last())
    }
}

/// The entries after inserting `(k, v)` into a cache of capacity `cap`:
/// the key moves to the most recent end with its new value, and the least
/// recently used entry is evicted when the capacity would be exceeded.
pub open spec fn after_insert<V>(s: Seq<EntryView<V>>, cap: nat, k: Seq<char>, v: V) -> Seq<
    EntryView<V>,
> {
    if cap == 0 {
        s
    } else {
        let t = without_key(s, k).push((k, v));
        if t.len() > cap {
            t.drop_first()
        } else {
            t
        }
    }
}

/// Removing a key that occurs exactly at index `i` of a sequence with
/// distinct keys removes exactly that index.
pub proof fn lemma_without_key_at<V>(s: Seq<EntryView<V>>, k: Seq<char>, i: int)
    requires
        distinct_keys(s),
        0 <= i < s.len(),
        s[i].0 == k,
    ensures
        without_key(s, k) == s.remove(i),
    decreases s.len(),
{
    if i == s.len() - 1 {
        lemma_without_key_absent(s.drop_last(), k);
        assert(s.drop_last() =~= s.remove(i));
    } else {
        lemma_without_key_at(s.drop_last(), k, i);
        assert(s.remove(i) =~= s.drop_last().remove(i).push(s.last()));
    }
}

/// Removing an absent key changes nothing.
pub proof fn lemma_without_key_absent<V>(s: Seq<EntryView<V>>, k: Seq<char>)
    requires
        !has_key(s, k),
    ensures
        without_key(s, k) == s,
    decreases s.len(),
{
    if s.len() > 0 {
        assert(!has_key(s.drop_last(), k)) by {
            if has_key(s.drop_last(), k) {
                let j = choose|j: int| 0 <= j < s.drop_last().len() && s.drop_last()[j].0 == k;
                assert(s[j].0 == k);
            }
        }
        lemma_without_key_absent(s.drop_last(), k);
        assert(s.drop_last().push(s.last()) =~= s);
    }
}

/// Removing a key from a sequence with distinct keys keeps the keys distinct,
/// leaves the key absent, and keeps every other key.
pub proof fn lemma_without_key_props<V>(s: Seq<EntryView<V>>, k: Seq<char>)
    requires
        distinct_keys(s),
    ensures
        distinct_keys(without_key(s, k)),
        !has_key(without_key(s, k), k),
        forall|k2: Seq<char>| k2 != k ==> (has_key(without_key(s, k), k2) <==> has_key(s, k2)),
        without_key(s, k).len() <= s.len(),
        has_key(s, k) ==> without_key(s, k).len() == s.len() - 1,
{
    if has_key(s, k) {
        let i = choose|i: int| 0 <= i < s.len() && s[i].0 == k;
        lemma_without_key_at(s, k, i);
        let r = s.remove(i);
        assert forall|a: int, b: int| 0 <= a < r.len() && 0 <= b < r.len() && a != b implies r[a].0
            != r[b].0 by {
            let a2 = if a < i { a } else { a + 1 };
            let b2 = if b < i { b } else { b + 1 };
            assert(r[a] == s[a2]);
            assert(r[b] == s[b2]);
        }
        assert(!has_key(r, k)) by {
            if has_key(r, k) {
                let j = choose|j: int| 0 <= j < r.len() && r[j].0 == k;
                let j2 = if j < i { j } else { j + 1 };
                assert(r[j] == s[j2]);
            }
        }
        assert forall|k2: Seq<char>| k2 != k implies (has_key(r, k2) <==> has_key(s, k2)) by {
            if has_key(s, k2) {
                let j = choose|j: int| 0 <= j < s.len() && s[j].0 == k2;
                assert(j != i);
                let j2 = if j < i { j } else { j - 1 };
                assert(r[j2] == s[j]);
            }
            if has_key(r, k2) {
                let j = choose|j: int| 0 <= j < r.len() && r[j].0 == k2;
                let j2 = if j < i { j } else { j + 1 };
                assert(r[j] == s[j2]);
            }
        }
    } else {
        lemma_without_key_absent(s, k);
    }
}

/// After an insertion into a cache of positive capacity the inserted pair is
/// the most recently used entry and its key occurs nowhere else, so a lookup
/// of that key right after finds exactly the inserted value; the cache stays
/// within its capacity and keeps its keys distinct.
pub proof fn lemma_insert_then_lookup<V>(s: Seq<EntryView<V>>, cap: nat, k: Seq<char>, v: V)
    requires
        cap > 0,
        s.len() <= cap,
        distinct_keys(s),
    ensures
        after_insert(s, cap, k, v).len() > 0,
        after_insert(s, cap, k, v).last() == (k, v),
        forall|i: int|
            0 <= i < after_insert(s, cap, k, v).len() && after_insert(s, cap, k, v)[i].0 == k
                ==> i == after_insert(s, cap, k, v).len() - 1,
        after_insert(s, cap, k, v).len() <= cap,
        distinct_keys(after_insert(s, cap, k, v)),
{
    lemma_without_key_props(s, k);
    let w = without_key(s, k);
    let t = w.push((k, v));
    assert forall|a: int, b: int| 0 <= a < t.len() && 0 <= b < t.len() && a != b implies t[a].0
        != t[b].0 by {
        if a < w.len() && b < w.len() {
        } else if a < w.len() {
            assert(has_key(w, t[a].0));
        } else {
            assert(has_key(w, t[b].0));
        }
    }
    let r = after_insert(s, cap, k, v);
    if t.len() > cap {
        assert(r =~= t.drop_first());
        assert forall|a: int, b: int| 0 <= a < r.len() && 0 <= b < r.len() && a != b implies r[a].0
            != r[b].0 by {
            assert(r[a] == t[a + 1] && r[b] == t[b + 1]);
        }
        assert forall|i: int| 0 <= i < r.len() && r[i].0 == k implies i == r.len() - 1 by {
            assert(r[i] == t[i + 1]);
            if i + 1 < w.len() + 0 {
                assert(has_key(w, k));
            }
        }
    } else {
        assert forall|i: int| 0 <= i < r.len() && r[i].0 == k implies i == r.len() - 1 by {
            if i < w.len() {
                assert(has_key(w, k));
            }
        }
    }
}

/// Inserting a new key into a full cache evicts exactly the least recently
/// used entry and appends the new pair.
pub proof fn lemma_insert_evicts_least_recent<V>(s: Seq<EntryView<V>>, cap: nat, k: Seq<char>, v: V)
    requires
        cap > 0,
        s.len() == cap,
        distinct_keys(s),
        !has_key(s, k),
    ensures
        after_insert(s, cap, k, v) == s.drop_first().push((k, v)),
        !has_key(after_insert(s, cap, k, v), s[0].0),
{
    lemma_without_key_absent(s, k);
    assert(s.push((k, v)).drop_first() =~= s.drop_first().push((k, v)));
    let r = after_insert(s, cap, k, v);
    if has_key(r, s[0].0) {
        let j = choose|j: int| 0 <= j < r.len() && r[j].0 == s[0].0;
        if j < r.len() - 1 {
            assert(r[j] == s[j + 1]);
        }
    }
}

/// An insertion keeps every other key with its value, except the least
/// recently used one when it had to be evicted.
pub proof fn lemma_insert_keeps_others<V>(
    s: Seq<EntryView<V>>,
    cap: nat,
    k: Seq<char>,
    v: V,
    i: int,
)
    requires
        cap > 0,
        s.len() <= cap,
        distinct_keys(s),
        0 <= i < s.len(),
        s[i].0 != k,
        !(i == 0 && s.len() == cap && !has_key(s, k)),
    ensures
        exists|j: int|
            0 <= j < after_insert(s, cap, k, v).len() && after_insert(s, cap, k, v)[j] == s[i],
{
    lemma_without_key_props(s, k);
    let w = without_key(s, k);
    let t = w.push((k, v));
    let r = after_insert(s, cap, k, v);
    assert(has_key(s, s[i].0));
    assert(has_key(w, s[i].0));
    let j = choose|j: int| 0 <= j < w.len() && w[j].0 == s[i].0;
    // the entry of `w` with that key is the entry of `s` with that key
    if has_key(s, k) {
        let p = choose|p: int| 0 <= p < s.len() && s[p].0 == k;
        lemma_without_key_at(s, k, p);
        let q = if j < p { j } else { j + 1 };
        assert(w[j] == s[q]);
        assert(q == i);
        assert(t.len() <= cap);
        assert(r == t);
        assert(r[j] == s[i]);
    } else {
        lemma_without_key_absent(s, k);
        assert(j == i);
        if t.len() > cap {
            assert(r =~= t.drop_first());
            assert(r[j - 1] == s[i]);
        } else {
            assert(r[j] == s[i]);
        }
    }
}

/// After removing a key, no entry with that key remains, so a lookup misses.
pub proof fn lemma_remove_then_lookup_misses<V>(s: Seq<EntryView<V>>, k: Seq<char>)
    requires
        distinct_keys(s),
    ensures
        !has_key(without_key(s, k), k),
        distinct_keys(without_key(s, k)),
{
    lemma_without_key_props(s, k);
}

/// The specification view of a vector of stored entries.
pub open spec fn entries_view<V>(v: Seq<(String, V)>) -> Seq<EntryView<V>> {
    v.map_values(|e: (String, V)| (e.0@, e.1))
}

/// Capacity-bounded cache with least-recently-used eviction.
pub struct BoundedCache<V> {
    capacity: usize,
    /// Entries ordered from least recently used to most recently used.
    entries: Vec<(String, V)>,
}

impl<V> View for BoundedCache<V> {
    type V = Seq<EntryView<V>>;

    /// The entries, least recently used first.
    closed spec fn view(&self) -> Seq<EntryView<V>> {
        entries_view(self.entries@)
    }
}

impl<V> BoundedCache<V> {
    #[verifier::type_invariant]
    closed spec fn well_formed(&self) -> bool {
        &&& self@.len() <= self.capacity
        &&& distinct_keys(self@)
    }

    /// The capacity the cache was created with.
    pub closed spec fn capacity_spec(&self) -> nat {
        self.capacity as nat
    }

    /// An empty cache holding at most `capacity` entries.
    pub fn new(capacity: usize) -> (r: Self)
        ensures
            r@ == Seq::<EntryView<V>>::empty(),
            r.capacity_spec() == capacity,
    {
        let r = BoundedCache { capacity, entries: Vec::new() };
        assert(r@ =~= Seq::<EntryView<V>>::empty());
        r
    }

    /// Index of the entry with key `key`, if any.
    fn position(&self, key: &String) -> (r: Option<usize>)
        ensures
            match r {
                Some(i) => i < self@.len() && self@[i as int].0 == key@,
                None => !has_key(self@, key@),
            },
    {
        let mut i: usize = 0;
        while i < self.entries.len()
            invariant
                i <= self.entries@.len(),
                self@ == entries_view(self.entries@),
                forall|j: int| 0 <= j < i ==> self@[j].0 != key@,
            decreases self.entries@.len() - i,
        {
            if self.entries[i].0 == *key {
                return Some(i);
            }
            i = i + 1;
        }
        None
    }

    /// Moves the entry with key `key`, if any, to the most recently used end.
    fn touch(&mut self, key: &String)
        ensures
            final(self).capacity_spec() == old(self).capacity_spec(),
            forall|i: int|
                0 <= i < old(self)@.len() && old(self)@[i].0 == key@ ==> final(self)@ == old(
                    self,
                )@.remove(i).push(old(self)@[i]),
            !has_key(old(self)@, key@) ==> final(self)@ == old(self)@,
    {
        proof {
            use_type_invariant(&*self);
        }
        match self.position(key) {
            Some(i) => {
                let mut entries = Vec::new();
                std::mem::swap(&mut entries, &mut self.entries);
                let entry = entries.remove(i);
                proof {
                    lemma_without_key_at(old(self)@, key@, i as int);
                    lemma_without_key_props(old(self)@, key@);
                    assert(entries_view(entries@) =~= old(self)@.remove(i as int));
                }
                entries.push(entry);
                proof {
                    let e = entries_view(entries@);
                    let r = old(self)@.remove(i as int);
                    assert(e =~= r.push(old(self)@[i as int]));
                    assert forall|a: int, b: int|
                        0 <= a < e.len() && 0 <= b < e.len() && a != b implies e[a].0 != e[b].0 by {
                        if a < r.len() && b < r.len() {
                            assert(e[a] == r[a] && e[b] == r[b]);
                        } else if a < r.len() {
                            assert(e[a] == r[a]);
                            assert(has_key(r, e[a].0));
                        } else {
                            assert(e[b] == r[b]);
                            assert(has_key(r, e[b].0));
                        }
                    }
                }
                self.entries = entries;
                proof {
                    assert(self@ =~= old(self)@.remove(i as int).push(old(self)@[i as int]));
                    assert forall|a: int, b: int|
                        0 <= a < old(self)@.len() && 0 <= b < old(self)@.len() && old(self)@[a].0
                            == key@ && old(self)@[b].0 == key@ implies a == b by {}
                }
            },
            None => {},
        }
    }

    /// Stores `value` under `key` as the most recently used entry, evicting the
    /// least recently used entry when the capacity would be exceeded. A cache of
    /// capacity zero stores nothing.
    pub fn insert(&mut self, key: &str, value: V)
        ensures
            final(self)@ == after_insert(old(self)@, old(self).capacity_spec(), key@, value),
            final(self).capacity_spec() == old(self).capacity_spec(),
            final(self)@.len() <= final(self).capacity_spec(),
            distinct_keys(final(self)@),
            old(self).capacity_spec() == 0 ==> final(self)@ == old(self)@,
            old(self).capacity_spec() > 0 ==> {
                &&& final(self)@.len() > 0
                &&& final(self)@.last() == (key@, value)
                &&& forall|i: int|
                    0 <= i < final(self)@.len() && final(self)@[i].0 == key@ ==> i
                        == final(self)@.len() - 1
            },
    {
        proof {
            use_type_invariant(&*self);
            if old(self).capacity_spec() > 0 {
                lemma_insert_then_lookup(old(self)@, old(self).capacity_spec(), key@, value);
            }
        }
        if self.capacity == 0 {
            return;
        }
        let k = key.to_owned();
        let ghost s = old(self)@;
        let ghost cap = old(self).capacity_spec();
        proof {
            lemma_without_key_props(s, key@);
        }
        let pos = self.position(&k);
        let mut entries = Vec::new();
        std::mem::swap(&mut entries, &mut self.entries);
        match pos {
            Some(i) => {
                entries.remove(i);
                proof {
                    lemma_without_key_at(s, key@, i as int);
                    assert(entries_view(entries@) =~= s.remove(i as int));
                }
            },
            None => {
                proof {
                    lemma_without_key_absent(s, key@);
                }
                if entries.len() >= self.capacity {
                    entries.remove(0);
                    proof {
                        let e = entries_view(entries@);
                        assert(e =~= s.drop_first());
                        assert forall|a: int, b: int|
                            0 <= a < e.len() && 0 <= b < e.len() && a != b implies e[a].0
                            != e[b].0 by {
                            assert(e[a] == s[a + 1]);
                            assert(e[b] == s[b + 1]);
                        }
                        assert forall|j: int| 0 <= j < e.len() implies e[j].0 != key@ by {
                            assert(e[j] == s[j + 1]);
                        }
                    }
                }
            },
        }
        entries.push((k, value));
        proof {
            let e = entries_view(entries@);
            let t = without_key(s, key@).push((key@, value));
            if has_key(s, key@) {
                assert(e =~= t);
            } else if s.len() >= cap {
                assert(e =~= s.drop_first().push((key@, value)));
                assert(t.drop_first() =~= s.drop_first().push((key@, value)));
            } else {
                assert(e =~= t);
            }
        }
        self.entries = entries;
    }

    /// Returns a clone of the value stored under `key` and marks the entry as the
    /// most recently used; returns `None` and leaves the cache unchanged when the
    /// key is absent.
    pub fn get_cloned(&mut self, key: &str) -> (r: Option<V>) where V: Clone
        ensures
            r is Some <==> has_key(old(self)@, key@),
            forall|i: int|
                0 <= i < old(self)@.len() && old(self)@[i].0 == key@ ==> {
                    &&& r matches Some(x) && cloned(old(self)@[i].1, x)
                    &&& final(self)@ == old(self)@.remove(i).push(old(self)@[i])
                },
            !has_key(old(self)@, key@) ==> final(self)@ == old(self)@,
            final(self).capacity_spec() == old(self).capacity_spec(),
    {
        proof {
            use_type_invariant(&*self);
        }
        let k = key.to_owned();
        match self.position(&k) {
            Some(i) => {
                let value = self.entries[i].1.clone();
                self.touch(&k);
                proof {
                    assert forall|a: int|
                        0 <= a < old(self)@.len() && old(self)@[a].0 == key@ implies a
                        == i as int by {}
                    assert(has_key(old(self)@, key@));
                }
                Some(value)
            },
            None => None,
        }
    }

    /// Removes the entry stored under `key`, returning its value.
    pub fn remove(&mut self, key: &str) -> (r: Option<V>)
        ensures
            final(self)@ == without_key(old(self)@, key@),
            r is Some <==> has_key(old(self)@, key@),
            forall|i: int|
                0 <= i < old(self)@.len() && old(self)@[i].0 == key@ ==> r == Some(
                    old(self)@[i].1,
                ),
            final(self).capacity_spec() == old(self).capacity_spec(),
    {
        proof {
            use_type_invariant(&*self);
        }
        let k = key.to_owned();
        match self.position(&k) {
            Some(i) => {
                let mut entries = Vec::new();
                std::mem::swap(&mut entries, &mut self.entries);
                let entry = entries.remove(i);
                proof {
                    lemma_without_key_at(old(self)@, key@, i as int);
                    lemma_without_key_props(old(self)@, key@);
                    assert(entries_view(entries@) =~= old(self)@.remove(i as int));
                }
                self.entries = entries;
                proof {
                    assert forall|a: int|
                        0 <= a < old(self)@.len() && old(self)@[a].0 == key@ implies a
                        == i as int by {}
                    assert(has_key(old(self)@, key@));
                }
                Some(entry.1)
            },
            None => {
                proof {
                    lemma_without_key_absent(old(self)@, key@);
                }
                None
            },
        }
    }

    /// Number of stored entries.
    pub fn len(&self) -> (r: usize)
        ensures
            r == self@.len(),
            r <= self.capacity_spec(),
            distinct_keys(self@),
    {
        proof {
            use_type_invariant(self);
        }
        self.entries.len()
    }

    /// Removes every entry; the capacity is kept.
    pub fn clear(&mut self)
        ensures
            final(self)@ == Seq::<EntryView<V>>::empty(),
            final(self).capacity_spec() == old(self).capacity_spec(),
    {
        self.entries = Vec::new();
        assert(self@ =~= Seq::<EntryView<V>>::empty());
    }
}

} // verus!
