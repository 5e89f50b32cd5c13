//! A map kept in a vector, ascending by key.
//!
//! Keys are fixed-length byte strings, or pairs of them; they are ordered as bytes are, first
//! byte first.

use vstd::prelude::*;

use crate::bytes::{big_endian, big_endian_injective};

verus! {

/// A key of fixed length, ordered by its bytes.
pub trait ByteKey: Copy {
    /// The bytes that order the key.
    spec fn key_bytes(self) -> Seq<u8>;

    /// How many bytes every key of this type has.
    spec fn key_len() -> nat;

    /// Keys of one type have one length, and the bytes tell them apart.
    proof fn key_facts(a: Self, b: Self)
        ensures
            a.key_bytes().len() == Self::key_len(),
            a.key_bytes() == b.key_bytes() ==> a == b,
    ;

    /// Whether `self` stands before `other`.
    fn stands_before(&self, other: &Self) -> (before: bool)
        ensures
            before == (big_endian(self.key_bytes()) < big_endian(other.key_bytes())),
    ;
}

/// A key's place in the order.
pub open spec fn rank<K: ByteKey>(key: K) -> nat {
    big_endian(key.key_bytes())
}

/// Keys of one rank are one key.
pub proof fn rank_injective<K: ByteKey>(a: K, b: K)
    requires
        rank(a) == rank(b),
    ensures
        a == b,
{
    K::key_facts(a, b);
    K::key_facts(b, a);
    big_endian_injective(a.key_bytes(), b.key_bytes());
}

/// Whether keys ascend strictly.
pub open spec fn ascending<K: ByteKey>(keys: Seq<K>) -> bool {
    forall|i: int, j: int| 0 <= i < j < keys.len() ==> rank(keys[i]) < rank(keys[j])
}

/// Ascending lists of the same keys are the same list.
pub proof fn ascending_unique<K: ByteKey>(a: Seq<K>, b: Seq<K>)
    requires
        ascending(a),
        ascending(b),
        forall|k: K| a.contains(k) <==> b.contains(k),
    ensures
        a == b,
    decreases a.len(),
{
    if a.len() == 0 {
        if b.len() > 0 {
            assert(b.contains(b[0]));
            assert(a.contains(b[0]));
        }
        assert(a =~= b);
    } else {
        assert(a.contains(a.last()));
        let i = choose|i: int| 0 <= i < b.len() && b[i] == a.last();
        assert(b.contains(b.last()));
        let j = choose|j: int| 0 <= j < a.len() && a[j] == b.last();
        assert(j == a.len() - 1 || rank(a[j]) < rank(a.last()));
        assert(i == b.len() - 1 || rank(b[i]) < rank(b.last()));
        assert(a.last() == b.last()) by {
            rank_injective(a.last(), b.last());
        }
        let (x, y) = (a.drop_last(), b.drop_last());
        assert forall|k: K| x.contains(k) implies y.contains(k) by {
            let p = choose|p: int| 0 <= p < x.len() && x[p] == k;
            assert(a[p] == k);
            assert(b.contains(k));
            let q = choose|q: int| 0 <= q < b.len() && b[q] == k;
            assert(rank(a[p]) < rank(a.last()));
            assert(y[q] == k);
        }
        assert forall|k: K| y.contains(k) implies x.contains(k) by {
            let p = choose|p: int| 0 <= p < y.len() && y[p] == k;
            assert(b[p] == k);
            assert(a.contains(k));
            let q = choose|q: int| 0 <= q < a.len() && a[q] == k;
            assert(rank(b[p]) < rank(b.last()));
            assert(x[q] == k);
        }
        ascending_unique(x, y);
        assert(a =~= x.push(a.last()));
        assert(b =~= y.push(b.last()));
    }
}

/// A map whose keys ascend strictly.
#[derive(Debug, PartialEq, Eq)]
pub struct SortedMap<K: ByteKey, V> {
    entries: Vec<(K, V)>,
}

impl<K: ByteKey, V> SortedMap<K, V> {
    /// The keys, in order.
    pub closed spec fn keys(&self) -> Seq<K> {
        Seq::new(self.entries@.len(), |i: int| self.entries@[i].0)
    }

    /// The values, in the order of their keys.
    pub closed spec fn values(&self) -> Seq<V> {
        Seq::new(self.entries@.len(), |i: int| self.entries@[i].1)
    }

    #[verifier::type_invariant]
    spec fn in_order(&self) -> bool {
        ascending(self.keys())
    }
}

impl<K: ByteKey, V> View for SortedMap<K, V> {
    type V = Map<K, V>;

    closed spec fn view(&self) -> Map<K, V> {
        Map::new(
            |k: K| self.keys().contains(k),
            |k: K| self.values()[self.keys().index_of(k)],
        )
    }
}

impl<K: ByteKey, V> SortedMap<K, V> {
    /// What the keys and the values say of the map.
    pub open spec fn consistent(&self) -> bool {
        &&& ascending(self.keys())
        &&& self.values().len() == self.keys().len()
        &&& forall|k: K| #[trigger] self@.dom().contains(k) <==> self.keys().contains(k)
        &&& forall|i: int|
            0 <= i < self.keys().len() ==> self@.dom().contains(#[trigger] self.keys()[i])
                && self@[self.keys()[i]] == self.values()[i]
    }

    proof fn facts(&self)
        requires
            self.in_order(),
        ensures
            self.consistent(),
    {
        assert forall|i: int| 0 <= i < self.keys().len() implies self@.dom().contains(
            #[trigger] self.keys()[i],
        ) && self@[self.keys()[i]] == self.values()[i] by {
            let k = self.keys()[i];
            assert(self.keys().contains(k));
            let j = self.keys().index_of(k);
            assert(self.keys()[j] == k);
            assert(i == j);
        }
    }

    /// A map without entries.
    pub fn new() -> (map: Self)
        ensures
            map@ == Map::<K, V>::empty(),
            map.consistent(),
            map.keys().len() == 0,
    {
        let map: SortedMap<K, V> = SortedMap { entries: Vec::new() };
        proof {
            map.facts();
            assert(map@ =~= Map::<K, V>::empty());
        }
        map
    }

    proof fn size(&self)
        requires
            self.in_order(),
        ensures
            self@.dom().finite(),
            self@.dom().len() == self.keys().len(),
    {
        self.facts();
        assert(self.keys().no_duplicates());
        self.keys().unique_seq_to_set();
        assert(self.keys().to_set() =~= self@.dom());
    }

    /// How many entries the map has.
    pub fn len(&self) -> (len: usize)
        ensures
            len == self.keys().len(),
            self@.dom().finite(),
            len == self@.dom().len(),
            self.consistent(),
    {
        proof {
            use_type_invariant(self);
            self.facts();
            self.size();
        }
        self.entries.len()
    }

    /// The key at `index` in the order.
    pub fn key_at(&self, index: usize) -> (key: K)
        requires
            index < self.keys().len(),
        ensures
            key == self.keys()[index as int],
            self.consistent(),
    {
        proof {
            use_type_invariant(self);
            self.facts();
        }
        self.entries[index].0
    }

    /// The value at `index` in the order of the keys.
    pub fn value_at(&self, index: usize) -> (value: &V)
        requires
            index < self.keys().len(),
        ensures
            *value == self.values()[index as int],
            self.consistent(),
    {
        proof {
            use_type_invariant(self);
            self.facts();
        }
        &self.entries[index].1
    }

    /// The first place whose key does not stand before `key`.
    fn place(&self, key: K) -> (place: usize)
        ensures
            place <= self.keys().len(),
            forall|i: int| 0 <= i < place ==> rank(#[trigger] self.keys()[i]) < rank(key),
            forall|i: int|
                place <= i < self.keys().len() ==> rank(#[trigger] self.keys()[i]) >= rank(key),
    {
        proof {
            use_type_invariant(self);
        }
        let mut place: usize = 0;
        let mut end: usize = self.entries.len();
        while place < end
            invariant
                place <= end <= self.entries@.len(),
                ascending(self.keys()),
                forall|i: int| 0 <= i < place ==> rank(#[trigger] self.keys()[i]) < rank(key),
                forall|i: int|
                    end <= i < self.keys().len() ==> rank(#[trigger] self.keys()[i]) >= rank(key),
            decreases end - place,
        {
            let middle: usize = place + (end - place) / 2;
            assert(self.keys()[middle as int] == self.entries@[middle as int].0);
            if self.entries[middle].0.stands_before(&key) {
                assert forall|i: int| 0 <= i < middle + 1 implies rank(#[trigger] self.keys()[i])
                    < rank(key) by {
                    if i < middle {
                        assert(rank(self.keys()[i]) < rank(self.keys()[middle as int]));
                    }
                }
                place = middle + 1;
            } else {
                assert forall|i: int| middle <= i < self.keys().len() implies rank(
                    #[trigger] self.keys()[i],
                ) >= rank(key) by {
                    if i > middle {
                        assert(rank(self.keys()[middle as int]) < rank(self.keys()[i]));
                    }
                }
                end = middle;
            }
        }
        place
    }

    /// Where `key` stands, if it is in the map.
    fn find(&self, key: K) -> (found: Option<usize>)
        ensures
            match found {
                Some(i) => i < self.keys().len() && self.keys()[i as int] == key,
                None => !self.keys().contains(key),
            },
            self.consistent(),
    {
        proof {
            use_type_invariant(self);
            self.facts();
        }
        let place: usize = self.place(key);
        if place < self.entries.len() && !key.stands_before(&self.entries[place].0) {
            proof {
                assert(self.keys()[place as int] == self.entries@[place as int].0);
                rank_injective(self.keys()[place as int], key);
            }
            Some(place)
        } else {
            proof {
                if self.keys().contains(key) {
                    let i = choose|i: int| 0 <= i < self.keys().len() && self.keys()[i] == key;
                    assert(i >= place);
                    assert(self.keys()[place as int] == self.entries@[place as int].0);
                    assert(i == place || rank(self.keys()[place as int]) < rank(self.keys()[i]));
                }
            }
            None
        }
    }

    /// Whether `key` is in the map.
    pub fn contains_key(&self, key: K) -> (contains: bool)
        ensures
            contains == self@.dom().contains(key),
            self.consistent(),
    {
        self.find(key).is_some()
    }

    /// The value of `key`.
    pub fn get(&self, key: K) -> (value: Option<&V>)
        ensures
            match value {
                Some(value) => self@.dom().contains(key) && *value == self@[key],
                None => !self@.dom().contains(key),
            },
            self.consistent(),
    {
        match self.find(key) {
            Some(i) => Some(&self.entries[i].1),
            None => None,
        }
    }

    /// Gives `key` the value `value` and returns the value that it had.
    pub fn insert(&mut self, key: K, value: V) -> (previous: Option<V>)
        ensures
            final(self)@ == old(self)@.insert(key, value),
            final(self).consistent(),
            match previous {
                Some(previous) => old(self)@.dom().contains(key) && previous == old(self)@[key],
                None => !old(self)@.dom().contains(key),
            },
    {
        let found: Option<usize> = self.find(key);
        let place: usize = self.place(key);
        let ghost before = *self;
        let mut entries: Vec<(K, V)> = Vec::new();
        std::mem::swap(&mut entries, &mut self.entries);
        let previous: Option<V> = match found {
            Some(i) => {
                proof {
                    assert(before.keys()[i as int] == key);
                    if i < place {
                        assert(rank(before.keys()[i as int]) < rank(key));
                    }
                    if place < i {
                        assert(rank(before.keys()[place as int]) < rank(before.keys()[i as int]));
                    }
                }
                let (_, previous) = entries.remove(i);
                Some(previous)
            },
            None => None,
        };
        let ghost rest = entries@;
        proof {
            assert forall|i: int, j: int| 0 <= i < j < rest.len() implies rank(rest[i].0) < rank(
                rest[j].0,
            ) by {
                if found is Some {
                    let p = if i < place { i } else { i + 1 };
                    let q = if j < place { j } else { j + 1 };
                    assert(rest[i].0 == before.keys()[p]);
                    assert(rest[j].0 == before.keys()[q]);
                } else {
                    assert(rest[i].0 == before.keys()[i]);
                    assert(rest[j].0 == before.keys()[j]);
                }
            }
            assert forall|i: int| place <= i < rest.len() implies rank(key) < rank(rest[i].0) by {
                if found is Some {
                    assert(rest[i].0 == before.keys()[i + 1]);
                    assert(rank(before.keys()[place as int]) < rank(before.keys()[i + 1]));
                } else {
                    assert(rest[i].0 == before.keys()[i]);
                    if rank(key) == rank(rest[i].0) {
                        rank_injective(key, rest[i].0);
                        assert(before.keys().contains(key));
                    }
                }
            }
            assert forall|i: int| 0 <= i < place implies rank(rest[i].0) < rank(key) by {
                assert(rest[i].0 == before.keys()[i]);
            }
        }
        entries.insert(place, (key, value));
        let ghost after = SortedMap { entries };
        proof {
            assert forall|i: int, j: int| 0 <= i < j < after.keys().len() implies rank(
                #[trigger] after.keys()[i],
            ) < rank(#[trigger] after.keys()[j]) by {
                if i < place {
                    assert(after.keys()[i] == rest[i].0);
                } else if i > place {
                    assert(after.keys()[i] == rest[i - 1].0);
                }
                if j < place {
                    assert(after.keys()[j] == rest[j].0);
                } else if j > place {
                    assert(after.keys()[j] == rest[j - 1].0);
                }
            }
        }
        self.entries = entries;
        proof {
            self.facts();
            let p = place as int;
            assert(self.keys()[p] == key);
            assert(self.values()[p] == value);
            assert forall|k: K| #[trigger] self@.dom().contains(k) <==> before@.insert(
                key,
                value,
            ).dom().contains(k) by {
                if self@.dom().contains(k) && k != key {
                    let i = choose|i: int| 0 <= i < self.keys().len() && self.keys()[i] == k;
                    let r = if i < p { i } else { i - 1 };
                    assert(rest[r].0 == k);
                    let b = if found is Some && r >= p { r + 1 } else { r };
                    assert(before.keys()[b] == k);
                }
                if before@.dom().contains(k) && k != key {
                    let b = choose|b: int| 0 <= b < before.keys().len() && before.keys()[b] == k;
                    let r = if found is Some && b > p { b - 1 } else { b };
                    assert(rest[r].0 == k);
                    let i = if r < p { r } else { r + 1 };
                    assert(self.keys()[i] == k);
                }
            }
            assert forall|k: K| self@.dom().contains(k) implies #[trigger] self@[k]
                == before@.insert(key, value)[k] by {
                if k != key {
                    let i = choose|i: int| 0 <= i < self.keys().len() && self.keys()[i] == k;
                    let r = if i < p { i } else { i - 1 };
                    let b = if found is Some && r >= p { r + 1 } else { r };
                    assert(before.keys()[b] == k);
                    assert(before.values()[b] == self.values()[i]);
                } else {
                    assert(self@[self.keys()[p]] == self.values()[p]);
                }
            }
            assert(self@ =~= before@.insert(key, value));
        }
        previous
    }

    /// Removes `key` and returns the value that it had.
    pub fn remove(&mut self, key: K) -> (removed: Option<V>)
        ensures
            final(self)@ == old(self)@.remove(key),
            final(self).consistent(),
            match removed {
                Some(removed) => old(self)@.dom().contains(key) && removed == old(self)@[key],
                None => !old(self)@.dom().contains(key),
            },
    {
        match self.find(key) {
            Some(place) => {
                let ghost before = *self;
                let mut entries: Vec<(K, V)> = Vec::new();
                std::mem::swap(&mut entries, &mut self.entries);
                let (_, removed) = entries.remove(place);
                let ghost after = SortedMap { entries };
                let ghost p = place as int;
                proof {
                    assert forall|i: int, j: int| 0 <= i < j < after.keys().len() implies rank(
                        #[trigger] after.keys()[i],
                    ) < rank(#[trigger] after.keys()[j]) by {
                        assert(after.keys()[i] == before.keys()[if i < p { i } else { i + 1 }]);
                        assert(after.keys()[j] == before.keys()[if j < p { j } else { j + 1 }]);
                    }
                }
                self.entries = entries;
                proof {
                    self.facts();
                    assert forall|k: K| #[trigger] self@.dom().contains(k) <==> before@.remove(
                        key,
                    ).dom().contains(k) by {
                        if self@.dom().contains(k) {
                            let i = choose|i: int|
                                0 <= i < self.keys().len() && self.keys()[i] == k;
                            let b = if i < p { i } else { i + 1 };
                            assert(before.keys()[b] == k);
                            assert(rank(before.keys()[b]) != rank(before.keys()[p]));
                        }
                        if before@.dom().contains(k) && k != key {
                            let b = choose|b: int|
                                0 <= b < before.keys().len() && before.keys()[b] == k;
                            let i = if b < p { b } else { b - 1 };
                            assert(self.keys()[i] == k);
                        }
                    }
                    assert forall|k: K| self@.dom().contains(k) implies #[trigger] self@[k]
                        == before@.remove(key)[k] by {
                        let i = choose|i: int| 0 <= i < self.keys().len() && self.keys()[i] == k;
                        let b = if i < p { i } else { i + 1 };
                        assert(before.keys()[b] == k);
                        assert(before.values()[b] == self.values()[i]);
                    }
                    assert(self@ =~= before@.remove(key));
                }
                Some(removed)
            },
            None => {
                assert(self@ =~= old(self)@.remove(key));
                None
            },
        }
    }

    /// The keys, ascending.
    pub fn to_keys(&self) -> (keys: Vec<K>)
        ensures
            keys@ == self.keys(),
            self.consistent(),
    {
        let mut keys: Vec<K> = Vec::new();
        let mut i: usize = 0;
        let length: usize = self.len();
        while i < length
            invariant
                i <= length,
                length == self.keys().len(),
                self.consistent(),
                keys@ == self.keys().take(i as int),
            decreases length - i,
        {
            keys.push(self.key_at(i));
            i += 1;
            assert(keys@ =~= self.keys().take(i as int));
        }
        assert(keys@ =~= self.keys());
        keys
    }
}

impl<K: ByteKey, V: Copy> Clone for SortedMap<K, V> {
    fn clone(&self) -> (copy: Self)
        ensures
            copy@ == self@,
            copy.keys() == self.keys(),
            copy.consistent(),
    {
        let length: usize = self.len();
        let mut entries: Vec<(K, V)> = Vec::new();
        let mut i: usize = 0;
        while i < length
            invariant
                i <= length,
                length == self.entries@.len(),
                entries@ == self.entries@.take(i as int),
            decreases length - i,
        {
            entries.push((self.entries[i].0, self.entries[i].1));
            i += 1;
            assert(entries@ =~= self.entries@.take(i as int));
        }
        assert(entries@ =~= self.entries@);
        proof {
            use_type_invariant(self);
        }
        let ghost same = SortedMap { entries };
        assert(same.keys() =~= self.keys());
        let copy: SortedMap<K, V> = SortedMap { entries };
        proof {
            assert(copy.keys() =~= self.keys());
            assert(copy.values() =~= self.values());
            copy.facts();
            assert(copy@ =~= self@);
        }
        copy
    }
}

/// The keys of a map, ascending.
pub open spec fn sorted_keys<K: ByteKey, V>(map: Map<K, V>) -> Seq<K> {
    choose|keys: Seq<K>| lists_keys(keys, map)
}

/// Whether a list holds the keys of a map, ascending.
pub open spec fn lists_keys<K: ByteKey, V>(keys: Seq<K>, map: Map<K, V>) -> bool {
    ascending(keys) && forall|k: K| keys.contains(k) <==> #[trigger] map.dom().contains(k)
}

/// The values of a map, in the order of their keys.
pub open spec fn sorted_values<K: ByteKey, V>(map: Map<K, V>) -> Seq<V> {
    Seq::new(sorted_keys(map).len(), |i: int| map[sorted_keys(map)[i]])
}

/// A list that holds the keys of a map, ascending, is the list of its keys.
pub proof fn sorted_keys_are<K: ByteKey, V>(map: Map<K, V>, keys: Seq<K>)
    requires
        lists_keys(keys, map),
    ensures
        sorted_keys(map) == keys,
{
    let chosen = sorted_keys(map);
    assert(lists_keys(chosen, map));
    assert forall|k: K| chosen.contains(k) <==> keys.contains(k) by {
        assert(chosen.contains(k) <==> map.dom().contains(k));
        assert(keys.contains(k) <==> map.dom().contains(k));
    }
    ascending_unique(chosen, keys);
}

proof fn last_of<K: ByteKey>(keys: Set<K>) -> (last: K)
    requires
        keys.finite(),
        keys.len() > 0,
    ensures
        keys.contains(last),
        forall|k: K| #[trigger] keys.contains(k) ==> rank(k) <= rank(last),
    decreases keys.len(),
{
    let one = keys.choose();
    let rest = keys.remove(one);
    if rest.len() == 0 {
        assert(rest =~= Set::empty());
        assert forall|k: K| #[trigger] keys.contains(k) implies rank(k) <= rank(one) by {
            if k != one {
                assert(rest.contains(k));
            }
        }
        one
    } else {
        let other = last_of(rest);
        let last = if rank(other) < rank(one) {
            one
        } else {
            other
        };
        assert forall|k: K| #[trigger] keys.contains(k) implies rank(k) <= rank(last) by {
            if k != one {
                assert(rest.contains(k));
            }
        }
        last
    }
}

/// A map that holds finitely many keys has a list of them: each key once, ascending.
pub proof fn finite_maps_are_listed<K: ByteKey, V>(map: Map<K, V>)
    requires
        map.dom().finite(),
    ensures
        lists_keys(sorted_keys(map), map),
        sorted_keys(map).len() == map.dom().len(),
    decreases map.dom().len(),
{
    if map.dom().len() == 0 {
        let none = Seq::<K>::empty();
        assert(map.dom() =~= Set::empty());
        assert(lists_keys(none, map));
        sorted_keys_are(map, none);
    } else {
        let last = last_of(map.dom());
        let rest = map.remove(last);
        assert(rest.dom() =~= map.dom().remove(last));
        finite_maps_are_listed(rest);
        let before = sorted_keys(rest);
        let keys = before.push(last);
        assert(keys[before.len() as int] == last);
        assert forall|k: K| keys.contains(k) <==> #[trigger] map.dom().contains(k) by {
            assert(before.contains(k) <==> rest.dom().contains(k));
            if before.contains(k) {
                let i = before.index_of(k);
                assert(keys[i] == k);
            }
            if keys.contains(k) && k != last {
                let i = keys.index_of(k);
                assert(before[i] == k);
            }
        }
        assert forall|i: int, j: int| 0 <= i < j < keys.len() implies rank(keys[i]) < rank(
            keys[j],
        ) by {
            assert(before.contains(before[i]));
            assert(rest.dom().contains(before[i]));
            if j == before.len() {
                assert(map.dom().contains(before[i]));
                if rank(before[i]) == rank(last) {
                    rank_injective(before[i], last);
                }
            }
        }
        assert(lists_keys(keys, map));
        sorted_keys_are(map, keys);
    }
}

/// The values of a map that holds finitely many keys are listed, each under its key, and nothing else is.
pub proof fn finite_maps_list_their_values<K: ByteKey, V>(map: Map<K, V>, key: K)
    requires
        map.dom().finite(),
    ensures
        sorted_values(map).len() == map.dom().len(),
        map.dom().contains(key) ==> sorted_values(map).contains(map[key]),
        forall|i: int|
            0 <= i < sorted_values(map).len() ==> map.dom().contains(sorted_keys(map)[i])
                && #[trigger] sorted_values(map)[i] == map[sorted_keys(map)[i]],
{
    finite_maps_are_listed(map);
    let keys = sorted_keys(map);
    if map.dom().contains(key) {
        assert(keys.contains(key));
        let i = keys.index_of(key);
        assert(sorted_values(map)[i] == map[key]);
    }
    assert forall|i: int| 0 <= i < sorted_values(map).len() implies map.dom().contains(keys[i])
        && #[trigger] sorted_values(map)[i] == map[keys[i]] by {
        assert(keys.contains(keys[i]));
    }
}

/// A map's lists are those of what it holds.
pub proof fn lists_are_sorted<K: ByteKey, V>(map: SortedMap<K, V>)
    requires
        map.consistent(),
    ensures
        map.keys() == sorted_keys(map@),
        map.values() == sorted_values(map@),
{
    sorted_keys_are(map@, map.keys());
    assert(map.values() =~= sorted_values(map@));
}

} // verus!
