//! Counting the pairs of a relation that is given key by key.
use vstd::prelude::*;

verus! {

/// The pairs `(k, v)` with `k` among `keys` and `v` among the values that
/// `among` gives for `k`.
pub open spec fn pairs_of<K, V>(keys: Set<K>, among: spec_fn(K) -> Set<V>) -> Set<(K, V)> {
    Set::new(|p: (K, V)| keys.contains(p.0) && among(p.0).contains(p.1))
}

/// No key, no pair.
pub proof fn lemma_pairs_none<K, V>(among: spec_fn(K) -> Set<V>)
    ensures
        pairs_of(Set::<K>::empty(), among) == Set::<(K, V)>::empty(),
        pairs_of(Set::<K>::empty(), among).finite(),
        pairs_of(Set::<K>::empty(), among).len() == 0,
{
    assert(pairs_of(Set::<K>::empty(), among) =~= Set::<(K, V)>::empty());
}

/// A new key adds as many pairs as it has values.
pub proof fn lemma_pairs_insert<K, V>(keys: Set<K>, among: spec_fn(K) -> Set<V>, k: K)
    requires
        pairs_of(keys, among).finite(),
        !keys.contains(k),
        among(k).finite(),
    ensures
        pairs_of(keys.insert(k), among).finite(),
        pairs_of(keys.insert(k), among).len() == pairs_of(keys, among).len() + among(k).len(),
{
    let pair_with = |v: V| (k, v);
    let fresh = among(k).map(pair_with);
    assert(vstd::relations::injective_on(pair_with, among(k)));
    vstd::set_lib::lemma_map_size(among(k), fresh, pair_with);
    let before = pairs_of(keys, among);
    let after = pairs_of(keys.insert(k), among);
    assert forall|p: (K, V)| after.contains(p) == (before + fresh).contains(p) by {
        if fresh.contains(p) {
            assert(p.0 == k && among(k).contains(p.1));
        }
        if p.0 == k && among(k).contains(p.1) {
            assert(p == pair_with(p.1));
            assert(fresh.contains(p));
        }
    }
    assert(after =~= before + fresh);
    assert(before.disjoint(fresh)) by {
        assert forall|p: (K, V)| !(before.contains(p) && fresh.contains(p)) by {
            if fresh.contains(p) {
                assert(p.0 == k);
            }
        }
    }
    vstd::set_lib::lemma_set_disjoint_lens(before, fresh);
}

/// Adds `more` to `sum`, stopping at the largest number there is.
pub fn add_capped(sum: usize, more: usize) -> (out: usize)
    ensures
        out == (if sum + more <= usize::MAX {
            sum + more
        } else {
            usize::MAX as int
        }),
{
    if more > usize::MAX - sum {
        usize::MAX
    } else {
        sum + more
    }
}

/// `n`, or the largest `usize` when `n` is beyond it.
pub open spec fn capped(n: nat) -> usize {
    if n <= usize::MAX {
        n as usize
    } else {
        usize::MAX
    }
}

} // verus!
