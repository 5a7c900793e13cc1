//! A map kept as a list of entries with pairwise distinct keys.
//!
//! The registry keys its tables by strings and by service keys. Lookups walk
//! the list and compare keys with [`Keyed::same`], so every operation is
//! stated over the mathematical map the list stands for.
use crate::common::keyed::Keyed;
use vstd::prelude::*;

verus! {

/// The key views of a list of entries, in order.
pub open spec fn keys_of<K: Keyed, V>(entries: Seq<(K, V)>) -> Seq<K::V> {
    Seq::new(entries.len(), |i: int| entries[i].0@)
}

/// No two entries of the list carry the same key.
pub open spec fn distinct_keys<K: Keyed, V>(entries: Seq<(K, V)>) -> bool {
    forall|i: int, j: int|
        0 <= i < j < entries.len() ==> (#[trigger] entries[i]).0@ != (#[trigger] entries[j]).0@
}

/// Some entry of the list carries the key `k`.
pub open spec fn has_key<K: Keyed, V>(entries: Seq<(K, V)>, k: K::V) -> bool {
    exists|i: int| 0 <= i < entries.len() && (#[trigger] entries[i]).0@ == k
}

/// The position of an entry that carries the key `k`.
pub open spec fn slot_of<K: Keyed, V>(entries: Seq<(K, V)>, k: K::V) -> int {
    choose|i: int| 0 <= i < entries.len() && (#[trigger] entries[i]).0@ == k
}

/// The map a list of entries stands for.
pub open spec fn map_of<K: Keyed, V>(entries: Seq<(K, V)>) -> Map<K::V, V> {
    Map::new(|k: K::V| has_key(entries, k), |k: K::V| entries[slot_of(entries, k)].1)
}

proof fn lemma_slot<K: Keyed, V>(entries: Seq<(K, V)>, i: int)
    requires
        distinct_keys(entries),
        0 <= i < entries.len(),
    ensures
        has_key(entries, entries[i].0@),
        slot_of(entries, entries[i].0@) == i,
        map_of(entries).contains_key(entries[i].0@),
        map_of(entries)[entries[i].0@] == entries[i].1,
{
    let k = entries[i].0@;
    assert(has_key(entries, k));
    let j = slot_of(entries, k);
    assert(0 <= j < entries.len() && entries[j].0@ == k);
    if j < i {
        assert(entries[j].0@ != entries[i].0@);
    }
    if i < j {
        assert(entries[i].0@ != entries[j].0@);
    }
}

proof fn lemma_push<K: Keyed, V>(entries: Seq<(K, V)>, key: K, value: V)
    requires
        distinct_keys(entries),
        !has_key(entries, key@),
    ensures
        distinct_keys(entries.push((key, value))),
        map_of(entries.push((key, value))) == map_of(entries).insert(key@, value),
{
    let after = entries.push((key, value));
    assert forall|i: int, j: int| 0 <= i < j < after.len() implies (#[trigger] after[i]).0@ != (
    #[trigger] after[j]).0@ by {
        if j == entries.len() {
            assert(after[i] == entries[i]);
            if entries[i].0@ == key@ {
                assert(has_key(entries, key@));
            }
        } else {
            assert(after[i] == entries[i]);
            assert(after[j] == entries[j]);
        }
    }
    let expected = map_of(entries).insert(key@, value);
    assert forall|k: K::V| map_of(after).contains_key(k) == expected.contains_key(k) by {
        if has_key(after, k) {
            let i = slot_of(after, k);
            if i < entries.len() {
                assert(after[i] == entries[i]);
                assert(has_key(entries, k));
            }
        }
        if has_key(entries, k) {
            let i = slot_of(entries, k);
            assert(after[i] == entries[i]);
            assert(has_key(after, k));
        }
        if k == key@ {
            assert(after[entries.len() as int].0@ == k);
            assert(has_key(after, k));
        }
    }
    assert forall|k: K::V| map_of(after).contains_key(k) implies map_of(after)[k] == expected[k] by {
        let i = slot_of(after, k);
        lemma_slot(after, i);
        if i < entries.len() {
            assert(after[i] == entries[i]);
            lemma_slot(entries, i);
        }
    }
    assert(map_of(after) =~= expected);
}

proof fn lemma_replace<K: Keyed, V>(entries: Seq<(K, V)>, at: int, key: K, value: V)
    requires
        distinct_keys(entries),
        0 <= at < entries.len(),
        entries[at].0@ == key@,
    ensures
        distinct_keys(entries.update(at, (key, value))),
        map_of(entries.update(at, (key, value))) == map_of(entries).insert(key@, value),
{
    let after = entries.update(at, (key, value));
    assert forall|i: int, j: int| 0 <= i < j < after.len() implies (#[trigger] after[i]).0@ != (
    #[trigger] after[j]).0@ by {
        assert(after[i].0@ == entries[i].0@);
        assert(after[j].0@ == entries[j].0@);
    }
    let expected = map_of(entries).insert(key@, value);
    assert forall|k: K::V| map_of(after).contains_key(k) == expected.contains_key(k) by {
        if has_key(after, k) {
            let i = slot_of(after, k);
            assert(after[i].0@ == entries[i].0@);
            assert(has_key(entries, k));
        }
        if has_key(entries, k) {
            let i = slot_of(entries, k);
            assert(after[i].0@ == entries[i].0@);
            assert(has_key(after, k));
        }
        lemma_slot(entries, at);
    }
    assert forall|k: K::V| map_of(after).contains_key(k) implies map_of(after)[k] == expected[k] by {
        let i = slot_of(after, k);
        lemma_slot(after, i);
        if i != at {
            assert(after[i] == entries[i]);
            lemma_slot(entries, i);
        }
    }
    assert(map_of(after) =~= expected);
}

proof fn lemma_remove<K: Keyed, V>(entries: Seq<(K, V)>, at: int)
    requires
        distinct_keys(entries),
        0 <= at < entries.len(),
    ensures
        distinct_keys(entries.remove(at)),
        map_of(entries.remove(at)) == map_of(entries).remove(entries[at].0@),
{
    let after = entries.remove(at);
    let gone = entries[at].0@;
    assert forall|i: int| 0 <= i < after.len() implies #[trigger] after[i] == entries[if i < at {
        i
    } else {
        i + 1
    }] by {}
    assert forall|i: int, j: int| 0 <= i < j < after.len() implies (#[trigger] after[i]).0@ != (
    #[trigger] after[j]).0@ by {
        let oi = if i < at { i } else { i + 1 };
        let oj = if j < at { j } else { j + 1 };
        assert(after[i] == entries[oi]);
        assert(after[j] == entries[oj]);
        assert(entries[oi].0@ != entries[oj].0@);
    }
    let expected = map_of(entries).remove(gone);
    assert forall|k: K::V| map_of(after).contains_key(k) == expected.contains_key(k) by {
        if has_key(after, k) {
            let i = slot_of(after, k);
            let oi = if i < at { i } else { i + 1 };
            assert(after[i] == entries[oi]);
            assert(has_key(entries, k));
            if oi < at {
                assert(entries[oi].0@ != entries[at].0@);
            } else {
                assert(entries[at].0@ != entries[oi].0@);
            }
        }
        if has_key(entries, k) && k != gone {
            let oi = slot_of(entries, k);
            let i = if oi < at { oi } else { oi - 1 };
            assert(after[i] == entries[oi]);
            assert(has_key(after, k));
        }
    }
    assert forall|k: K::V| map_of(after).contains_key(k) implies map_of(after)[k] == expected[k] by {
        let i = slot_of(after, k);
        let oi = if i < at { i } else { i + 1 };
        lemma_slot(after, i);
        assert(after[i] == entries[oi]);
        lemma_slot(entries, oi);
    }
    assert(map_of(after) =~= expected);
}

proof fn lemma_domain<K: Keyed, V>(entries: Seq<(K, V)>)
    requires
        distinct_keys(entries),
    ensures
        keys_of(entries).no_duplicates(),
        map_of(entries).dom() == keys_of(entries).to_set(),
        map_of(entries).dom().finite(),
        map_of(entries).dom().len() == entries.len(),
{
    let keys = keys_of(entries);
    assert forall|i: int, j: int| 0 <= i < keys.len() && 0 <= j < keys.len() && i != j implies keys[i]
        != keys[j] by {
        if i < j {
            assert(entries[i].0@ != entries[j].0@);
        } else {
            assert(entries[j].0@ != entries[i].0@);
        }
    }
    assert forall|k: K::V| map_of(entries).dom().contains(k) == keys.to_set().contains(k) by {
        if has_key(entries, k) {
            let i = slot_of(entries, k);
            assert(keys[i] == k);
        }
        if keys.contains(k) {
            let i = choose|i: int| 0 <= i < keys.len() && keys[i] == k;
            assert(entries[i].0@ == k);
        }
    }
    assert(map_of(entries).dom() =~= keys.to_set());
    keys.unique_seq_to_set();
    vstd::seq_lib::seq_to_set_is_finite(keys);
}

/// A finite map from keys to values, stored as a list of entries.
pub struct VecMap<K: Keyed, V> {
    entries: Vec<(K, V)>,
}

impl<K: Keyed, V> View for VecMap<K, V> {
    type V = Map<K::V, V>;

    closed spec fn view(&self) -> Map<K::V, V> {
        map_of(self.entries@)
    }
}

impl<K: Keyed, V> VecMap<K, V> {
    #[verifier::type_invariant]
    spec fn inv(self) -> bool {
        distinct_keys(self.entries@)
    }

    /// The keys in storage order, by their views.
    pub closed spec fn key_seq(self) -> Seq<K::V> {
        keys_of(self.entries@)
    }

    /// An empty map.
    pub fn new() -> (m: Self)
        ensures
            m@ == Map::<K::V, V>::empty(),
            m.key_seq() == Seq::<K::V>::empty(),
    {
        let m = VecMap { entries: Vec::new() };
        assert(m@ =~= Map::<K::V, V>::empty());
        assert(m.key_seq() =~= Seq::<K::V>::empty());
        m
    }

    /// The number of entries. The keys in storage order are pairwise
    /// distinct and are exactly the domain of the map.
    pub fn len(&self) -> (n: usize)
        ensures
            n == self@.dom().len(),
            n == self.key_seq().len(),
            self@.dom().finite(),
            self.key_seq().no_duplicates(),
            self.key_seq().to_set() == self@.dom(),
    {
        proof {
            use_type_invariant(self);
            lemma_domain(self.entries@);
        }
        self.entries.len()
    }

    /// Tells whether the map has no entry.
    pub fn is_empty(&self) -> (b: bool)
        ensures
            b == (self@.dom().len() == 0),
            b == (self@ == Map::<K::V, V>::empty()),
            self@.dom().finite(),
    {
        proof {
            use_type_invariant(self);
            lemma_domain(self.entries@);
            if self.entries@.len() == 0 {
                assert(self@ =~= Map::<K::V, V>::empty());
            } else {
                lemma_slot(self.entries@, 0);
            }
        }
        self.entries.len() == 0
    }

    fn position(&self, key: &K) -> (at: Option<usize>)
        ensures
            match at {
                Some(i) => i < self.entries@.len() && self.entries@[i as int].0@ == key@,
                None => !has_key(self.entries@, key@),
            },
    {
        let n = self.entries.len();
        let mut i: usize = 0;
        while i < n
            invariant
                n == self.entries@.len(),
                i <= n,
                forall|j: int| 0 <= j < i ==> (#[trigger] self.entries@[j]).0@ != key@,
            decreases n - i,
        {
            if self.entries[i].0.same(key) {
                return Some(i);
            }
            i += 1;
        }
        None
    }

    /// Tells whether `key` has an entry.
    pub fn contains_key(&self, key: &K) -> (b: bool)
        ensures
            b == self@.contains_key(key@),
    {
        self.position(key).is_some()
    }

    /// The value filed under `key`, if there is one.
    pub fn get(&self, key: &K) -> (found: Option<&V>)
        ensures
            found.is_some() == self@.contains_key(key@),
            found matches Some(v) ==> *v == self@[key@],
    {
        match self.position(key) {
            Some(i) => {
                proof {
                    use_type_invariant(self);
                    lemma_slot(self.entries@, i as int);
                }
                Some(&self.entries[i].1)
            },
            None => None,
        }
    }

    /// Files `value` under `key`, and hands back the value it replaces. A
    /// key that has an entry keeps its place in the storage order; a new
    /// key is stored last.
    pub fn insert(&mut self, key: K, value: V) -> (previous: Option<V>)
        ensures
            final(self)@ == old(self)@.insert(key@, value),
            previous.is_some() == old(self)@.contains_key(key@),
            previous matches Some(v) ==> v == old(self)@[key@],
            final(self).key_seq() == (if old(self)@.contains_key(key@) {
                old(self).key_seq()
            } else {
                old(self).key_seq().push(key@)
            }),
    {
        proof {
            use_type_invariant(&*self);
        }
        let at = self.position(&key);
        let mut entries: Vec<(K, V)> = Vec::new();
        std::mem::swap(&mut self.entries, &mut entries);
        let ghost before = entries@;
        let previous = match at {
            Some(i) => {
                proof {
                    lemma_slot(before, i as int);
                    lemma_replace(before, i as int, key, value);
                }
                let gone = entries.remove(i);
                entries.insert(i, (key, value));
                assert(entries@ =~= before.update(i as int, (key, value)));
                assert(keys_of(entries@) =~= keys_of(before));
                Some(gone.1)
            },
            None => {
                proof {
                    lemma_push(before, key, value);
                }
                entries.push((key, value));
                assert(keys_of(entries@) =~= keys_of(before).push(key@));
                None
            },
        };
        self.entries = entries;
        previous
    }

    /// Drops the entry of `key`, and hands back its value.
    pub fn remove(&mut self, key: &K) -> (previous: Option<V>)
        ensures
            final(self)@ == old(self)@.remove(key@),
            previous.is_some() == old(self)@.contains_key(key@),
            previous matches Some(v) ==> v == old(self)@[key@],
    {
        proof {
            use_type_invariant(&*self);
        }
        match self.position(key) {
            Some(i) => {
                let mut entries: Vec<(K, V)> = Vec::new();
                std::mem::swap(&mut self.entries, &mut entries);
                proof {
                    lemma_slot(entries@, i as int);
                    lemma_remove(entries@, i as int);
                }
                let gone = entries.remove(i);
                self.entries = entries;
                Some(gone.1)
            },
            None => {
                assert(self@ =~= self@.remove(key@));
                None
            },
        }
    }

    /// Takes out the entry stored last, if there is any.
    pub fn pop(&mut self) -> (entry: Option<(K, V)>)
        ensures
            entry is None == (old(self)@ == Map::<K::V, V>::empty()),
            entry is None ==> final(self)@ == old(self)@ && final(self).key_seq()
                == old(self).key_seq(),
            entry matches Some((key, value)) ==> old(self)@.contains_key(key@) && old(self)@[key@]
                == value && final(self)@ == old(self)@.remove(key@),
            entry matches Some((key, value)) ==> old(self).key_seq().len() > 0 && key@
                == old(self).key_seq().last() && final(self).key_seq()
                == old(self).key_seq().drop_last(),
            final(self)@.dom().finite(),
            old(self)@.dom().finite(),
            final(self)@.dom().len() == old(self)@.dom().len() - (if entry is Some {
                1int
            } else {
                0int
            }),
    {
        proof {
            use_type_invariant(&*self);
            lemma_domain(self.entries@);
        }
        let n = self.entries.len();
        if n == 0 {
            assert(self@ =~= Map::<K::V, V>::empty());
            return None;
        }
        let mut entries: Vec<(K, V)> = Vec::new();
        std::mem::swap(&mut self.entries, &mut entries);
        let ghost before = entries@;
        proof {
            lemma_slot(entries@, n - 1);
            lemma_remove(entries@, n - 1);
            assert(entries@.remove(n - 1) =~= entries@.drop_last());
            lemma_domain(entries@.drop_last());
        }
        let last = entries.pop();
        assert(keys_of(entries@) =~= keys_of(before).drop_last());
        self.entries = entries;
        last
    }

    /// The same map with its entries stored in the opposite order.
    pub fn reversed(self) -> (out: Self)
        ensures
            out@ == self@,
            out.key_seq() == self.key_seq().reverse(),
    {
        let mut rest = self;
        let mut out: VecMap<K, V> = VecMap::new();
        let ghost whole = rest@;
        let ghost order = rest.key_seq();
        let mut left = rest.len();
        proof {
            assert(order.take(left as int) =~= order);
            assert(order.skip(left as int).reverse() =~= Seq::<K::V>::empty());
        }
        while left > 0
            invariant
                left == rest@.dom().len(),
                left <= order.len(),
                rest@.dom().finite(),
                rest.key_seq() == order.take(left as int),
                out.key_seq() == order.skip(left as int).reverse(),
                forall|k: K::V| #[trigger]
                    rest@.contains_key(k) ==> whole.contains_key(k) && whole[k] == rest@[k],
                forall|k: K::V| #[trigger]
                    out@.contains_key(k) ==> whole.contains_key(k) && whole[k] == out@[k],
                forall|k: K::V| #[trigger]
                    whole.contains_key(k) ==> (rest@.contains_key(k) != out@.contains_key(k)),
            decreases left,
        {
            let ghost rest_before = rest@;
            let ghost out_before = out@;
            match rest.pop() {
                Some((key, value)) => {
                    out.insert(key, value);
                    left -= 1;
                    proof {
                        assert(key@ == order[left as int]);
                        assert(order.take(left + 1).drop_last() =~= order.take(left as int));
                        assert(order.skip(left + 1).reverse().push(order[left as int])
                            =~= order.skip(left as int).reverse());
                        assert forall|k: K::V| #[trigger] rest@.contains_key(k) implies whole.contains_key(
                            k,
                        ) && whole[k] == rest@[k] by {
                            assert(rest_before.contains_key(k));
                        }
                        assert forall|k: K::V| #[trigger] out@.contains_key(k) implies whole.contains_key(
                            k,
                        ) && whole[k] == out@[k] by {
                            if k != key@ {
                                assert(out_before.contains_key(k));
                            } else {
                                assert(rest_before.contains_key(k));
                            }
                        }
                        assert forall|k: K::V| #[trigger] whole.contains_key(k) implies (
                        rest@.contains_key(k) != out@.contains_key(k)) by {
                            if k == key@ {
                            } else {
                                assert(rest@.contains_key(k) == rest_before.contains_key(k));
                                assert(out@.contains_key(k) == out_before.contains_key(k));
                            }
                        }
                    }
                },
                None => {
                    assert(rest_before.dom() =~= Set::empty());
                    assert(false);
                },
            }
        }
        proof {
            assert(rest@.dom().len() == 0);
            assert forall|k: K::V| whole.contains_key(k) implies out@.contains_key(k) by {
                if rest@.contains_key(k) {
                    assert(rest@.dom().contains(k));
                    assert(rest@.dom() =~= Set::empty());
                }
            }
            assert(out@ =~= whole);
            assert(order.skip(0) =~= order);
        }
        out
    }

    /// The key of the entry at position `at`.
    pub fn key_at(&self, at: usize) -> (key: &K)
        requires
            at < self.key_seq().len(),
        ensures
            key@ == self.key_seq()[at as int],
            self@.contains_key(key@),
    {
        proof {
            use_type_invariant(self);
            lemma_slot(self.entries@, at as int);
        }
        &self.entries[at].0
    }

    /// The value of the entry at position `at`.
    pub fn value_at(&self, at: usize) -> (value: &V)
        requires
            at < self.key_seq().len(),
        ensures
            self@.contains_key(self.key_seq()[at as int]),
            *value == self@[self.key_seq()[at as int]],
    {
        proof {
            use_type_invariant(self);
            lemma_slot(self.entries@, at as int);
        }
        &self.entries[at].1
    }
}

} // verus!
