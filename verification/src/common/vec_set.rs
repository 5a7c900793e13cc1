//! A set kept as a list of pairwise distinct items.
use crate::common::keyed::Keyed;
use crate::common::vec_map::VecMap;
use vstd::prelude::*;

verus! {

/// The views of a list of keys, in order.
pub open spec fn views_of<K: Keyed>(items: Seq<K>) -> Seq<K::V> {
    Seq::new(items.len(), |i: int| items[i]@)
}

/// A finite set of keys, stored in insertion order.
pub struct VecSet<K: Keyed> {
    slots: VecMap<K, ()>,
}

impl<K: Keyed> View for VecSet<K> {
    type V = Set<K::V>;

    closed spec fn view(&self) -> Set<K::V> {
        self.slots@.dom()
    }
}

impl<K: Keyed> VecSet<K> {
    /// The items in storage order, by their views.
    pub closed spec fn item_seq(self) -> Seq<K::V> {
        self.slots.key_seq()
    }

    /// An empty set.
    pub fn new() -> (s: Self)
        ensures
            s@ == Set::<K::V>::empty(),
            s.item_seq() == Seq::<K::V>::empty(),
    {
        let s = VecSet { slots: VecMap::new() };
        assert(s@ =~= Set::<K::V>::empty());
        s
    }

    /// The set of the keys in `items`; a key that occurs twice is kept
    /// once.
    pub fn from_items(items: &Vec<K>) -> (s: Self)
        ensures
            s@ == views_of(items@).to_set(),
    {
        let mut s: VecSet<K> = VecSet::new();
        let n = items.len();
        let mut i: usize = 0;
        while i < n
            invariant
                n == items@.len(),
                i <= n,
                s@ == views_of(items@).take(i as int).to_set(),
            decreases n - i,
        {
            let ghost before = views_of(items@).take(i as int);
            let ghost after = views_of(items@).take(i + 1);
            s.insert(items[i].duplicate());
            proof {
                assert(after =~= before.push(items@[i as int]@));
                assert forall|k: K::V| after.to_set().contains(k) == before.to_set().insert(
                    items@[i as int]@,
                ).contains(k) by {
                    if before.contains(k) {
                        let j = choose|j: int| 0 <= j < before.len() && before[j] == k;
                        assert(after[j] == k);
                    }
                    if k == items@[i as int]@ {
                        assert(after[i as int] == k);
                    }
                }
                assert(after.to_set() =~= before.to_set().insert(items@[i as int]@));
            }
            i += 1;
        }
        assert(views_of(items@).take(n as int) =~= views_of(items@));
        s
    }

    /// A set with the same members.
    pub fn duplicate_set(&self) -> (copy: Self)
        ensures
            copy@ == self@,
    {
        let mut copy: VecSet<K> = VecSet::new();
        let n = self.len();
        let mut i: usize = 0;
        assert(self.item_seq().take(0).to_set() =~= Set::empty());
        while i < n
            invariant
                n == self.item_seq().len(),
                i <= n,
                self.item_seq().to_set() == self@,
                copy@ == self.item_seq().take(i as int).to_set(),
            decreases n - i,
        {
            let ghost before = self.item_seq().take(i as int);
            proof {
                assert(self.item_seq().take(i + 1) =~= before.push(self.item_seq()[i as int]));
                before.lemma_push_to_set_commute(self.item_seq()[i as int]);
            }
            copy.insert(self.item_at(i).duplicate());
            i += 1;
        }
        assert(self.item_seq().take(n as int) =~= self.item_seq());
        copy
    }

    /// The number of items. The items in storage order are pairwise distinct
    /// and are exactly the members of the set.
    pub fn len(&self) -> (n: usize)
        ensures
            n == self@.len(),
            n == self.item_seq().len(),
            self@.finite(),
            self.item_seq().no_duplicates(),
            self.item_seq().to_set() == self@,
    {
        self.slots.len()
    }

    /// Tells whether the set has no member.
    pub fn is_empty(&self) -> (b: bool)
        ensures
            b == (self@ == Set::<K::V>::empty()),
            b == (self@.len() == 0),
            self@.finite(),
    {
        let b = self.slots.is_empty();
        proof {
            if b {
                assert(self@ =~= Set::<K::V>::empty());
            } else if self@ == Set::<K::V>::empty() {
                assert(self.slots@.dom().len() == 0);
            }
        }
        b
    }

    /// Tells whether `item` is a member.
    pub fn contains(&self, item: &K) -> (b: bool)
        ensures
            b == self@.contains(item@),
    {
        self.slots.contains_key(item)
    }

    /// Adds `item`, and tells whether it was new.
    pub fn insert(&mut self, item: K) -> (added: bool)
        ensures
            final(self)@ == old(self)@.insert(item@),
            added == !old(self)@.contains(item@),
    {
        let previous = self.slots.insert(item, ());
        assert(self@ =~= old(self)@.insert(item@));
        previous.is_none()
    }

    /// Takes `item` out, and tells whether it was a member.
    pub fn remove(&mut self, item: &K) -> (removed: bool)
        ensures
            final(self)@ == old(self)@.remove(item@),
            removed == old(self)@.contains(item@),
    {
        let previous = self.slots.remove(item);
        assert(self@ =~= old(self)@.remove(item@));
        previous.is_some()
    }

    /// The item at position `at`.
    pub fn item_at(&self, at: usize) -> (item: &K)
        requires
            at < self.item_seq().len(),
        ensures
            item@ == self.item_seq()[at as int],
            self@.contains(item@),
    {
        self.slots.key_at(at)
    }
}

} // verus!
