//! A keyed cache that keeps its entries in the order in which their keys
//! first arrived, with no key held twice.

use vstd::prelude::*;

verus! {

/// Whether some entry of `entries` is stored under `key`.
pub open spec fn has_key<T>(entries: Seq<(Seq<char>, T)>, key: Seq<char>) -> bool {
    exists|i: int| 0 <= i < entries.len() && (#[trigger] entries[i]).0 == key
}

/// Whether no two entries of `entries` share a key.
pub open spec fn distinct_keys<T>(entries: Seq<(Seq<char>, T)>) -> bool {
    forall|i: int, j: int|
        0 <= i < j < entries.len() ==> (#[trigger] entries[i]).0 != (#[trigger] entries[j]).0
}

/// The position of the first entry stored under `key`, or the length of
/// `entries` when there is none.
pub open spec fn key_position<T>(entries: Seq<(Seq<char>, T)>, key: Seq<char>) -> int
    decreases entries.len(),
{
    if entries.len() == 0 {
        0
    } else if entries[0].0 == key {
        0
    } else {
        1 + key_position(entries.drop_first(), key)
    }
}

/// The entries after `value` has been stored under `key`: an entry already
/// held under that key is overwritten in place, otherwise a new entry is
/// added at the end.
pub open spec fn upsert<T>(entries: Seq<(Seq<char>, T)>, key: Seq<char>, value: T) -> Seq<
    (Seq<char>, T),
> {
    if has_key(entries, key) {
        entries.update(key_position(entries, key), (key, value))
    } else {
        entries.push((key, value))
    }
}

/// `key_position` is in range exactly when the key is held, and then names
/// the first entry with that key.
pub proof fn lemma_key_position<T>(entries: Seq<(Seq<char>, T)>, key: Seq<char>)
    ensures
        0 <= key_position(entries, key) <= entries.len(),
        has_key(entries, key) <==> key_position(entries, key) < entries.len(),
        has_key(entries, key) ==> entries[key_position(entries, key)].0 == key,
        forall|i: int| 0 <= i < key_position(entries, key) ==> (#[trigger] entries[i]).0 != key,
    decreases entries.len(),
{
    if entries.len() == 0 {
    } else if entries[0].0 == key {
    } else {
        let rest = entries.drop_first();
        lemma_key_position(rest, key);
        let p = key_position(rest, key);
        if has_key(entries, key) {
            let i = choose|i: int| 0 <= i < entries.len() && (#[trigger] entries[i]).0 == key;
            assert(rest[i - 1] == entries[i]);
        }
        if has_key(rest, key) {
            assert(entries[p + 1] == rest[p]);
        }
        assert forall|i: int| 0 <= i < 1 + p implies (#[trigger] entries[i]).0 != key by {
            if i > 0 {
                assert(rest[i - 1] == entries[i]);
            }
        }
    }
}

/// The elements of `all` whose flag in `keep` is set, in their order.
pub open spec fn select<T>(all: Seq<T>, keep: Seq<bool>) -> Seq<T>
    recommends
        all.len() == keep.len(),
    decreases all.len(),
{
    if all.len() == 0 || keep.len() == 0 {
        Seq::empty()
    } else if keep.last() {
        select(all.drop_last(), keep.drop_last()).push(all.last())
    } else {
        select(all.drop_last(), keep.drop_last())
    }
}

/// Selecting by flags that say of each element whether `pred` holds of it
/// is filtering by `pred`.
pub proof fn lemma_select_is_filter<T>(all: Seq<T>, keep: Seq<bool>, pred: spec_fn(T) -> bool)
    requires
        all.len() == keep.len(),
        forall|i: int| 0 <= i < all.len() ==> keep[i] == pred(#[trigger] all[i]),
    ensures
        select(all, keep) == all.filter(pred),
    decreases all.len(),
{
    reveal(Seq::filter);
    if all.len() > 0 {
        lemma_select_is_filter(all.drop_last(), keep.drop_last(), pred);
    }
}

/// In a sequence without repeated keys, the key at position `k` is not among
/// the entries before it, so storing that entry after them extends them by
/// one.
pub proof fn lemma_upsert_next<T>(all: Seq<(Seq<char>, T)>, k: int)
    requires
        distinct_keys(all),
        0 <= k < all.len(),
    ensures
        !has_key(all.take(k), all[k].0),
        upsert(all.take(k), all[k].0, all[k].1) == all.take(k + 1),
{
    let head = all.take(k);
    if has_key(head, all[k].0) {
        let j = choose|j: int| 0 <= j < head.len() && (#[trigger] head[j]).0 == all[k].0;
        assert(head[j] == all[j]);
    }
    assert(head.push(all[k]) =~= all.take(k + 1));
}

/// The value that `entries` hold under `key`, if they hold one.
pub open spec fn lookup<T>(entries: Seq<(Seq<char>, T)>, key: Seq<char>) -> Option<T> {
    if has_key(entries, key) {
        Some(entries[key_position(entries, key)].1)
    } else {
        None
    }
}

/// Storing a value acts on the entries as on a mapping: afterwards the key
/// holds the value, every other key holds what it held before, and still no
/// key is held twice.
pub proof fn lemma_upsert_is_update<T>(
    entries: Seq<(Seq<char>, T)>,
    key: Seq<char>,
    value: T,
    other: Seq<char>,
)
    requires
        distinct_keys(entries),
    ensures
        distinct_keys(upsert(entries, key, value)),
        lookup(upsert(entries, key, value), key) == Some(value),
        other != key ==> lookup(upsert(entries, key, value), other) == lookup(entries, other),
{
    let after = upsert(entries, key, value);
    lemma_key_position(entries, key);
    lemma_key_position(entries, other);
    lemma_key_position(after, key);
    lemma_key_position(after, other);
    let p = key_position(entries, key);
    if has_key(entries, key) {
        assert(after[p].0 == key);
        assert forall|i: int, j: int| 0 <= i < j < after.len() implies (#[trigger] after[i]).0 != (
        #[trigger] after[j]).0 by {
            assert(entries[i].0 != entries[j].0);
        }
    } else {
        assert(after[after.len() - 1].0 == key);
        assert forall|i: int, j: int| 0 <= i < j < after.len() implies (#[trigger] after[i]).0 != (
        #[trigger] after[j]).0 by {
            if j < entries.len() {
                assert(entries[i].0 != entries[j].0);
            } else {
                assert(after[i] == entries[i]);
            }
        }
    }
    assert(has_key(after, key));
    let q = key_position(after, key);
    assert(after[q].0 == key);
    if has_key(entries, key) {
        if q != p {
            assert(after[p].0 == key);
        }
    } else {
        if q != after.len() - 1 {
            assert(after[q] == entries[q]);
        }
    }
    if other != key {
        if has_key(entries, other) {
            let r = key_position(entries, other);
            assert(after[r] == entries[r]);
            assert(has_key(after, other));
            let t = key_position(after, other);
            if t != r {
                if t < r {
                    assert(after[t].0 == other);
                    assert(after[t] == entries[t] || t == p);
                } else {
                    assert(after[r].0 == other);
                }
            }
        } else {
            if has_key(after, other) {
                let t = key_position(after, other);
                assert(after[t].0 == other);
                if t < entries.len() {
                    assert(after[t] == entries[t] || after[t].0 == key);
                }
            }
        }
    }
}

/// One entry of a cache.
pub struct Entry<V> {
    /// The key under which the value is held.
    pub key: String,
    /// The value.
    pub value: V,
}

/// A mapping from string keys to values. Entries keep the order in which
/// their keys were first stored.
pub struct KeyedCache<V> {
    entries: Vec<Entry<V>>,
}

impl<V: View> View for KeyedCache<V> {
    type V = Seq<(Seq<char>, V::V)>;

    closed spec fn view(&self) -> Seq<(Seq<char>, V::V)> {
        Seq::new(
            self.entries@.len(),
            |i: int| (self.entries@[i].key@, self.entries@[i].value@),
        )
    }
}

impl<V: View> KeyedCache<V> {
    /// The invariant of the cache: no key is held twice.
    pub open spec fn wf(&self) -> bool {
        distinct_keys(self@)
    }

    /// An empty cache.
    pub fn new() -> (cache: Self)
        ensures
            cache@ == Seq::<(Seq<char>, V::V)>::empty(),
            cache.wf(),
    {
        let cache = KeyedCache { entries: Vec::new() };
        assert(cache@ =~= Seq::<(Seq<char>, V::V)>::empty());
        cache
    }

    /// Tests the invariant of the cache.
    pub fn well_formed(&self) -> (distinct: bool)
        ensures
            distinct == self.wf(),
    {
        let mut j: usize = 0;
        while j < self.entries.len()
            invariant
                0 <= j <= self.entries@.len(),
                self@.len() == self.entries@.len(),
                forall|a: int, b: int|
                    0 <= a < b < j ==> (#[trigger] self@[a]).0 != (#[trigger] self@[b]).0,
            decreases self.entries@.len() - j,
        {
            let mut i: usize = 0;
            while i < j
                invariant
                    0 <= i <= j < self.entries@.len(),
                    self@.len() == self.entries@.len(),
                    forall|a: int| 0 <= a < i ==> (#[trigger] self@[a]).0 != self@[j as int].0,
                decreases j - i,
            {
                if self.entries[i].key == self.entries[j].key {
                    assert(self@[i as int].0 == self@[j as int].0);
                    return false;
                }
                i += 1;
            }
            j += 1;
        }
        true
    }

    /// The number of entries.
    pub fn len(&self) -> (n: usize)
        ensures
            n == self@.len(),
    {
        self.entries.len()
    }

    /// Whether the cache holds no entry.
    pub fn is_empty(&self) -> (empty: bool)
        ensures
            empty == (self@.len() == 0),
    {
        self.entries.len() == 0
    }

    /// The position of the entry held under `key`, if there is one.
    pub fn position(&self, key: &String) -> (found: Option<usize>)
        ensures
            found is Some <==> has_key(self@, key@),
            found matches Some(i) ==> i == key_position(self@, key@) && i < self@.len()
                && self@[i as int].0 == key@,
    {
        proof {
            lemma_key_position(self@, key@);
        }
        let mut i: usize = 0;
        while i < self.entries.len()
            invariant
                0 <= i <= self.entries@.len(),
                self@.len() == self.entries@.len(),
                forall|j: int| 0 <= j < i ==> (#[trigger] self@[j]).0 != key@,
            decreases self.entries@.len() - i,
        {
            if self.entries[i].key == *key {
                proof {
                    let p = key_position(self@, key@);
                    lemma_key_position(self@, key@);
                    assert(self@[i as int].0 == key@);
                    assert(has_key(self@, key@));
                    assert(self@[p].0 == key@);
                }
                return Some(i);
            }
            i += 1;
        }
        None
    }

    /// Whether an entry is held under `key`.
    pub fn contains_key(&self, key: &String) -> (held: bool)
        ensures
            held == has_key(self@, key@),
    {
        self.position(key).is_some()
    }

    /// The key of the entry at position `i`.
    pub fn key(&self, i: usize) -> (key: &String)
        requires
            i < self@.len(),
        ensures
            key@ == self@[i as int].0,
    {
        &self.entries[i].key
    }

    /// The value of the entry at position `i`.
    pub fn value(&self, i: usize) -> (value: &V)
        requires
            i < self@.len(),
        ensures
            value@ == self@[i as int].1,
    {
        &self.entries[i].value
    }

    /// The value held under `key`, if there is one.
    pub fn get(&self, key: &String) -> (value: Option<&V>)
        ensures
            value is Some <==> has_key(self@, key@),
            value matches Some(v) ==> lookup(self@, key@) == Some(v@),
    {
        match self.position(key) {
            Some(i) => Some(&self.entries[i].value),
            None => None,
        }
    }

    /// Stores `value` under `key`, overwriting what was held there.
    pub fn insert(&mut self, key: String, value: V)
        requires
            old(self).wf(),
        ensures
            final(self).wf(),
            final(self)@ == upsert(old(self)@, key@, value@),
    {
        proof {
            lemma_key_position(self@, key@);
        }
        let ghost before = self@;
        match self.position(&key) {
            Some(i) => {
                self.entries[i] = Entry { key, value };
            },
            None => {
                self.entries.push(Entry { key, value });
            },
        }
        assert(self@ =~= upsert(before, key@, value@));
    }

    /// Drops the entry at position `i` and hands it back.
    pub fn remove_at(&mut self, i: usize) -> (entry: Entry<V>)
        requires
            old(self).wf(),
            i < old(self)@.len(),
        ensures
            final(self).wf(),
            final(self)@ == old(self)@.remove(i as int),
            entry.key@ == old(self)@[i as int].0,
            entry.value@ == old(self)@[i as int].1,
    {
        let ghost before = self@;
        let entry = self.entries.remove(i);
        assert(self@ =~= before.remove(i as int));
        entry
    }

    /// Keeps the entries whose flag in `keep` is set and drops the others.
    pub fn retain_flagged(&mut self, keep: &Vec<bool>)
        requires
            old(self).wf(),
            keep@.len() == old(self)@.len(),
        ensures
            final(self).wf(),
            final(self)@ == select(old(self)@, keep@),
    {
        let ghost all = self@;
        let mut i: usize = 0;
        let mut at: usize = 0;
        assert(self@ =~= select(all.take(0), keep@.take(0)) + all.skip(0));
        while i < keep.len()
            invariant
                0 <= i <= keep@.len(),
                keep@.len() == all.len(),
                self.wf(),
                at <= i,
                at == select(all.take(i as int), keep@.take(i as int)).len(),
                self@ == select(all.take(i as int), keep@.take(i as int)) + all.skip(i as int),
            decreases keep@.len() - i,
        {
            let ghost chosen = select(all.take(i as int), keep@.take(i as int));
            proof {
                assert(all.take(i + 1).drop_last() =~= all.take(i as int));
                assert(keep@.take(i + 1).drop_last() =~= keep@.take(i as int));
                assert(all.take(i + 1).last() == all[i as int]);
                assert(keep@.take(i + 1).last() == keep@[i as int]);
            }
            if keep[i] {
                assert(chosen.push(all[i as int]) + all.skip(i + 1) =~= chosen + all.skip(
                    i as int,
                ));
                at += 1;
            } else {
                self.remove_at(at);
                assert(self@ =~= chosen + all.skip(i + 1));
            }
            i += 1;
        }
        assert(all.take(i as int) =~= all);
        assert(keep@.take(i as int) =~= keep@);
        assert(self@ =~= select(all, keep@));
    }

    /// Drops the entry held under `key`, if there is one, and hands its
    /// value back.
    pub fn remove(&mut self, key: &String) -> (value: Option<V>)
        requires
            old(self).wf(),
        ensures
            final(self).wf(),
            value is Some <==> has_key(old(self)@, key@),
            has_key(old(self)@, key@) ==> final(self)@ == old(self)@.remove(
                key_position(old(self)@, key@),
            ),
            !has_key(old(self)@, key@) ==> final(self)@ == old(self)@,
            value matches Some(v) ==> lookup(old(self)@, key@) == Some(v@),
    {
        match self.position(key) {
            Some(i) => {
                let entry = self.remove_at(i);
                Some(entry.value)
            },
            None => None,
        }
    }
}

} // verus!
