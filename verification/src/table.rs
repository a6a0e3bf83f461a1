//! A small keyed store: the state of every component is kept in these.
//!
//! A `Table` is a list of slots with pairwise distinct keys. Its view is the
//! finite map from each key to its value; every operation is specified over
//! that map.

use vstd::prelude::*;
use crate::account::AccountId;

verus! {

/// A type that can key a [`Table`]: copyable, with a decidable identity.
pub trait Key: Copy {
    /// Whether the two keys are the same key.
    fn same(&self, other: &Self) -> (r: bool)
        ensures
            r == (*self == *other),
    ;
}

impl Key for u16 {
    fn same(&self, other: &Self) -> (r: bool) {
        *self == *other
    }
}

impl Key for u32 {
    fn same(&self, other: &Self) -> (r: bool) {
        *self == *other
    }
}

impl Key for u64 {
    fn same(&self, other: &Self) -> (r: bool) {
        *self == *other
    }
}

impl Key for AccountId {
    fn same(&self, other: &Self) -> (r: bool) {
        *self == *other
    }
}

struct Slot<K, V> {
    key: K,
    value: V,
}

spec fn holds<K, V>(slots: Seq<Slot<K, V>>, k: K) -> bool {
    exists|i: int| 0 <= i < slots.len() && slots[i].key == k
}

spec fn slot_of<K, V>(slots: Seq<Slot<K, V>>, k: K) -> int {
    choose|i: int| 0 <= i < slots.len() && slots[i].key == k
}

spec fn distinct<K, V>(slots: Seq<Slot<K, V>>) -> bool {
    forall|i: int, j: int| 0 <= i < j < slots.len() ==> slots[i].key != slots[j].key
}

spec fn as_map<K, V>(slots: Seq<Slot<K, V>>) -> Map<K, V> {
    Map::new(|k: K| holds(slots, k), |k: K| slots[slot_of(slots, k)].value)
}

proof fn lemma_slot<K, V>(slots: Seq<Slot<K, V>>, i: int)
    requires
        distinct(slots),
        0 <= i < slots.len(),
    ensures
        holds(slots, slots[i].key),
        slot_of(slots, slots[i].key) == i,
        as_map(slots).dom().contains(slots[i].key),
        as_map(slots)[slots[i].key] == slots[i].value,
{
    let k = slots[i].key;
    let j = slot_of(slots, k);
    assert(0 <= j < slots.len() && slots[j].key == k);
    if i < j {
        assert(slots[i].key != slots[j].key);
    } else if j < i {
        assert(slots[j].key != slots[i].key);
    }
}

proof fn lemma_push<K, V>(slots: Seq<Slot<K, V>>, slot: Slot<K, V>)
    requires
        distinct(slots),
        !holds(slots, slot.key),
    ensures
        distinct(slots.push(slot)),
        as_map(slots.push(slot)) == as_map(slots).insert(slot.key, slot.value),
{
    let after = slots.push(slot);
    assert(distinct(after)) by {
        assert forall|i: int, j: int| 0 <= i < j < after.len() implies after[i].key
            != after[j].key by {
            if j == slots.len() {
                assert(slots[i].key != slot.key);
            } else {
                assert(slots[i].key != slots[j].key);
            }
        }
    }
    assert forall|k: K| as_map(after).dom().contains(k) == as_map(slots).insert(
        slot.key,
        slot.value,
    ).dom().contains(k) by {
        if holds(after, k) {
            let i = slot_of(after, k);
            if i < slots.len() {
                assert(slots[i].key == k);
            }
        }
        if holds(slots, k) {
            let i = slot_of(slots, k);
            assert(after[i].key == k);
        }
        if k == slot.key {
            assert(after[slots.len() as int].key == k);
        }
    }
    assert forall|k: K| as_map(after).dom().contains(k) implies as_map(after)[k] == as_map(
        slots,
    ).insert(slot.key, slot.value)[k] by {
        let i = slot_of(after, k);
        lemma_slot(after, i);
        if i < slots.len() {
            assert(slots[i].key == k);
            lemma_slot(slots, i);
        }
    }
    assert(as_map(after) =~= as_map(slots).insert(slot.key, slot.value));
}

proof fn lemma_overwrite<K, V>(slots: Seq<Slot<K, V>>, after: Seq<Slot<K, V>>, i: int)
    requires
        distinct(slots),
        0 <= i < slots.len(),
        after.len() == slots.len(),
        forall|j: int| 0 <= j < slots.len() ==> after[j].key == slots[j].key,
        forall|j: int| 0 <= j < slots.len() && j != i ==> after[j].value == slots[j].value,
    ensures
        distinct(after),
        as_map(after) == as_map(slots).insert(slots[i].key, after[i].value),
{
    assert(distinct(after)) by {
        assert forall|a: int, b: int| 0 <= a < b < after.len() implies after[a].key
            != after[b].key by {
            assert(slots[a].key != slots[b].key);
        }
    }
    let target = as_map(slots).insert(slots[i].key, after[i].value);
    assert forall|k: K| as_map(after).dom().contains(k) == target.dom().contains(k) by {
        if holds(after, k) {
            let j = slot_of(after, k);
            assert(slots[j].key == k);
        }
        if holds(slots, k) {
            let j = slot_of(slots, k);
            assert(after[j].key == k);
        }
        if k == slots[i].key {
            assert(after[i].key == k);
        }
    }
    assert forall|k: K| as_map(after).dom().contains(k) implies as_map(after)[k] == target[k] by {
        let j = slot_of(after, k);
        lemma_slot(after, j);
        assert(slots[j].key == k);
        lemma_slot(slots, j);
    }
    assert(as_map(after) =~= target);
}

proof fn lemma_remove<K, V>(slots: Seq<Slot<K, V>>, i: int)
    requires
        distinct(slots),
        0 <= i < slots.len(),
    ensures
        distinct(slots.remove(i)),
        as_map(slots.remove(i)) == as_map(slots).remove(slots[i].key),
{
    let after = slots.remove(i);
    assert(distinct(after)) by {
        assert forall|a: int, b: int| 0 <= a < b < after.len() implies after[a].key
            != after[b].key by {
            let a0 = if a < i { a } else { a + 1 };
            let b0 = if b < i { b } else { b + 1 };
            assert(slots[a0].key != slots[b0].key);
        }
    }
    let target = as_map(slots).remove(slots[i].key);
    assert forall|k: K| as_map(after).dom().contains(k) == target.dom().contains(k) by {
        if holds(after, k) {
            let j = slot_of(after, k);
            let j0 = if j < i { j } else { j + 1 };
            assert(slots[j0].key == k);
            if j0 < i {
                assert(slots[j0].key != slots[i].key);
            } else {
                assert(slots[i].key != slots[j0].key);
            }
        }
        if holds(slots, k) && k != slots[i].key {
            let j = slot_of(slots, k);
            let j1 = if j < i { j } else { j - 1 };
            assert(after[j1].key == k);
        }
    }
    assert forall|k: K| as_map(after).dom().contains(k) implies as_map(after)[k] == target[k] by {
        let j = slot_of(after, k);
        lemma_slot(after, j);
        let j0 = if j < i { j } else { j + 1 };
        assert(slots[j0].key == k);
        lemma_slot(slots, j0);
    }
    assert(as_map(after) =~= target);
}

proof fn lemma_keys_finite<K, V>(slots: Seq<Slot<K, V>>)
    requires
        distinct(slots),
    ensures
        as_map(slots).dom().finite(),
        as_map(slots).dom().len() == slots.len(),
    decreases slots.len(),
{
    if slots.len() == 0 {
        assert(as_map(slots).dom() =~= Set::<K>::empty());
    } else {
        let front = slots.drop_last();
        let last = slots.last();
        assert(distinct(front)) by {
            assert forall|a: int, b: int| 0 <= a < b < front.len() implies front[a].key
                != front[b].key by {
                assert(slots[a].key != slots[b].key);
            }
        }
        lemma_keys_finite(front);
        assert(!holds(front, last.key)) by {
            if holds(front, last.key) {
                let i = slot_of(front, last.key);
                assert(slots[i].key != slots[slots.len() - 1].key);
            }
        }
        assert(slots =~= front.push(last));
        lemma_push(front, last);
        assert(as_map(slots).dom() =~= as_map(front).dom().insert(last.key));
    }
}

/// A finite map from `K` to `V`.
pub struct Table<K, V> {
    slots: Vec<Slot<K, V>>,
}

impl<K: Key, V> View for Table<K, V> {
    type V = Map<K, V>;

    closed spec fn view(&self) -> Map<K, V> {
        as_map(self.slots@)
    }
}

impl<K: Key, V> Table<K, V> {
    /// No key occurs in two slots.
    pub closed spec fn wf(&self) -> bool {
        distinct(self.slots@)
    }

    /// The number of keys held.
    pub closed spec fn count(&self) -> nat {
        self.slots@.len()
    }

    /// The view is a finite map with as many keys as the table counts, and the
    /// count fits the machine.
    pub proof fn lemma_count(&self)
        requires
            self.wf(),
        ensures
            self@.dom().finite(),
            self@.dom().len() == self.count(),
            self.count() <= usize::MAX,
    {
        lemma_keys_finite(self.slots@);
        assert(self.slots@.len() == self.slots.len());
    }

    /// An empty table.
    pub fn new() -> (t: Self)
        ensures
            t.wf(),
            t@ == Map::<K, V>::empty(),
            t.count() == 0,
    {
        let t = Table { slots: Vec::new() };
        assert(t@ =~= Map::<K, V>::empty());
        t
    }

    fn position(&self, key: &K) -> (r: Option<usize>)
        ensures
            match r {
                Some(i) => i < self.slots@.len() && self.slots@[i as int].key == *key,
                None => !holds(self.slots@, *key),
            },
    {
        let mut i: usize = 0;
        while i < self.slots.len()
            invariant
                i <= self.slots@.len(),
                forall|j: int| 0 <= j < i ==> self.slots@[j].key != *key,
            decreases self.slots@.len() - i,
        {
            if self.slots[i].key.same(key) {
                return Some(i);
            }
            i += 1;
        }
        None
    }

    /// The number of keys held.
    pub fn len(&self) -> (n: usize)
        ensures
            n == self.count(),
    {
        self.slots.len()
    }

    /// Whether `key` is held.
    pub fn contains_key(&self, key: &K) -> (r: bool)
        requires
            self.wf(),
        ensures
            r == self@.dom().contains(*key),
    {
        self.position(key).is_some()
    }

    /// The value under `key`, if the key is held.
    pub fn get(&self, key: &K) -> (r: Option<&V>)
        requires
            self.wf(),
        ensures
            r is Some == self@.dom().contains(*key),
            r matches Some(v) ==> *v == self@[*key],
    {
        match self.position(key) {
            Some(i) => {
                proof {
                    lemma_slot(self.slots@, i as int);
                }
                Some(&self.slots[i].value)
            },
            None => None,
        }
    }

    /// Puts `value` under `key`, replacing what was there.
    pub fn insert(&mut self, key: K, value: V)
        requires
            old(self).wf(),
        ensures
            final(self).wf(),
            final(self)@ == old(self)@.insert(key, value),
            final(self).count() == old(self).count() + if old(self)@.dom().contains(key) {
                0nat
            } else {
                1nat
            },
    {
        match self.position(&key) {
            Some(i) => {
                self.slots[i].value = value;
                proof {
                    lemma_overwrite(old(self).slots@, self.slots@, i as int);
                }
            },
            None => {
                self.slots.push(Slot { key, value });
                proof {
                    lemma_push(old(self).slots@, Slot { key, value });
                }
            },
        }
    }

    /// Takes `key` out, and returns the value it had.
    pub fn remove(&mut self, key: &K) -> (r: Option<V>)
        requires
            old(self).wf(),
        ensures
            final(self).wf(),
            final(self)@ == old(self)@.remove(*key),
            r is Some == old(self)@.dom().contains(*key),
            r matches Some(v) ==> v == old(self)@[*key],
            final(self).count() == old(self).count() - if old(self)@.dom().contains(*key) {
                1nat
            } else {
                0nat
            },
    {
        match self.position(key) {
            Some(i) => {
                proof {
                    lemma_slot(self.slots@, i as int);
                    lemma_remove(self.slots@, i as int);
                }
                let slot = self.slots.remove(i);
                Some(slot.value)
            },
            None => {
                assert(self@.remove(*key) =~= self@);
                None
            },
        }
    }

    /// The keys held, each once, in no particular order.
    pub fn keys(&self) -> (r: Vec<K>)
        requires
            self.wf(),
        ensures
            r@.len() == self.count(),
            forall|k: K| r@.contains(k) == self@.dom().contains(k),
            forall|i: int, j: int| 0 <= i < j < r@.len() ==> r@[i] != r@[j],
    {
        let mut r: Vec<K> = Vec::new();
        let mut i: usize = 0;
        while i < self.slots.len()
            invariant
                i <= self.slots@.len(),
                r@.len() == i,
                forall|j: int| 0 <= j < i ==> r@[j] == self.slots@[j].key,
            decreases self.slots@.len() - i,
        {
            r.push(self.slots[i].key);
            i += 1;
        }
        proof {
            assert forall|k: K| r@.contains(k) == self@.dom().contains(k) by {
                if r@.contains(k) {
                    let j = choose|j: int| 0 <= j < r@.len() && r@[j] == k;
                    assert(self.slots@[j].key == k);
                }
                if holds(self.slots@, k) {
                    let j = slot_of(self.slots@, k);
                    assert(r@[j] == k);
                }
            }
        }
        r
    }
}

} // verus!
