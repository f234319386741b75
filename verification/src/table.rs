//! A table of records kept in ascending order of their byte-string keys. No
//! key occurs twice; inserting under a key that is present replaces the value
//! in place.

use vstd::prelude::*;
use crate::order::{
    ascending,
    compare_keys,
    count_below,
    key_lt,
    lemma_count_below_at,
    lemma_key_lt_asymmetric,
    lemma_key_lt_irreflexive,
    lemma_key_lt_total,
    lemma_key_lt_transitive,
    KeyOrder,
    KeyRelation,
};

verus! {

/// The keys after `key` was inserted or, if it was there, replaced.
pub open spec fn upsert_keys(order: KeyOrder, keys: Seq<Seq<u8>>, key: Seq<u8>) -> Seq<Seq<u8>> {
    if keys.contains(key) {
        keys
    } else {
        keys.insert(count_below(order, keys, key), key)
    }
}

/// The values, in key order, after `value` was stored under `key`.
pub open spec fn upsert_values<V>(
    order: KeyOrder,
    keys: Seq<Seq<u8>>,
    values: Seq<V>,
    key: Seq<u8>,
    value: V,
) -> Seq<V> {
    if keys.contains(key) {
        values.update(keys.index_of(key), value)
    } else {
        values.insert(count_below(order, keys, key), value)
    }
}

/// Among ascending keys no key occurs twice: a key is at one position only.
pub proof fn lemma_ascending_position(order: KeyOrder, keys: Seq<Seq<u8>>, i: int)
    requires
        ascending(order, keys),
        0 <= i < keys.len(),
    ensures
        keys.contains(keys[i]),
        keys.index_of(keys[i]) == i,
{
    let found = keys.index_of(keys[i]);
    lemma_key_lt_irreflexive(order, keys[i]);
    if found < i {
        assert(key_lt(order, keys[found], keys[i]));
    } else if i < found {
        assert(key_lt(order, keys[i], keys[found]));
    }
}

/// Among ascending keys, those that come before an absent key are exactly the
/// first `count_below` of them.
pub proof fn lemma_count_below_splits(order: KeyOrder, keys: Seq<Seq<u8>>, key: Seq<u8>)
    requires
        ascending(order, keys),
        !keys.contains(key),
    ensures
        0 <= count_below(order, keys, key) <= keys.len(),
        forall|j: int| 0 <= j < count_below(order, keys, key) ==> key_lt(order, keys[j], key),
        forall|j: int|
            count_below(order, keys, key) <= j < keys.len() ==> key_lt(order, key, keys[j]),
    decreases keys.len(),
{
    if keys.len() > 0 {
        let front = keys.drop_last();
        let last = keys.last();
        assert forall|i: int, j: int| 0 <= i < j < front.len() implies key_lt(
            order,
            front[i],
            front[j],
        ) by {
            assert(front[i] == keys[i] && front[j] == keys[j]);
        }
        if front.contains(key) {
            let at = front.index_of(key);
            assert(keys[at] == key);
            assert(false);
        }
        lemma_count_below_splits(order, front, key);
        let below = count_below(order, front, key);
        assert(keys[keys.len() - 1] == last);
        lemma_key_lt_total(order, last, key);
        if key_lt(order, last, key) {
            if below < front.len() {
                assert(front[below] == keys[below]);
                assert(key_lt(order, keys[below], last));
                lemma_key_lt_transitive(order, key, keys[below], last);
                lemma_key_lt_asymmetric(order, key, last);
            }
            assert forall|j: int| 0 <= j < keys.len() implies key_lt(order, keys[j], key) by {
                if j < front.len() {
                    assert(front[j] == keys[j]);
                }
            }
        } else {
            assert forall|j: int| 0 <= j < below implies key_lt(order, keys[j], key) by {
                assert(front[j] == keys[j]);
            }
            assert forall|j: int| below <= j < keys.len() implies key_lt(order, key, keys[j]) by {
                if j < front.len() {
                    assert(front[j] == keys[j]);
                }
            }
        }
    }
}

/// Storing a value under a key keeps the keys ascending and as many as the
/// values; afterwards the key holds the value, and every other key is present
/// as before and holds what it held.
pub proof fn lemma_upsert<V>(
    order: KeyOrder,
    keys: Seq<Seq<u8>>,
    values: Seq<V>,
    key: Seq<u8>,
    value: V,
)
    requires
        ascending(order, keys),
        keys.len() == values.len(),
    ensures
        ascending(order, upsert_keys(order, keys, key)),
        upsert_keys(order, keys, key).len() == upsert_values(order, keys, values, key, value).len(),
        upsert_keys(order, keys, key).len() == keys.len() + if keys.contains(key) {
            0int
        } else {
            1int
        },
        upsert_keys(order, keys, key).contains(key),
        upsert_values(order, keys, values, key, value)[upsert_keys(order, keys, key).index_of(
            key,
        )] == value,
        forall|other: Seq<u8>|
            other != key ==> (#[trigger] upsert_keys(order, keys, key).contains(other)
                <==> keys.contains(other)),
        forall|other: Seq<u8>|
            other != key && keys.contains(other) ==> upsert_values(
                order,
                keys,
                values,
                key,
                value,
            )[#[trigger] upsert_keys(order, keys, key).index_of(other)] == values[keys.index_of(
                other,
            )],
{
    let keys2 = upsert_keys(order, keys, key);
    let values2 = upsert_values(order, keys, values, key, value);
    if keys.contains(key) {
        let at = keys.index_of(key);
        lemma_ascending_position(order, keys, at);
        assert forall|other: Seq<u8>| other != key && keys.contains(other) implies values2[keys2.index_of(
            other,
        )] == values[keys.index_of(other)] by {
            let i = keys.index_of(other);
            assert(keys[i] == other);
        }
    } else {
        lemma_count_below_splits(order, keys, key);
        let at = count_below(order, keys, key);
        assert forall|i: int, j: int| 0 <= i < j < keys2.len() implies key_lt(
            order,
            keys2[i],
            keys2[j],
        ) by {
            if j < at {
                assert(keys2[i] == keys[i] && keys2[j] == keys[j]);
            } else if j == at {
                assert(keys2[i] == keys[i]);
            } else if i < at {
                assert(keys2[i] == keys[i] && keys2[j] == keys[j - 1]);
                lemma_key_lt_transitive(order, keys[i], key, keys[j - 1]);
            } else if i == at {
                assert(keys2[j] == keys[j - 1]);
            } else {
                assert(keys2[i] == keys[i - 1] && keys2[j] == keys[j - 1]);
            }
        }
        assert(keys2[at] == key);
        lemma_ascending_position(order, keys2, at);
        assert forall|other: Seq<u8>| other != key implies (#[trigger] keys2.contains(other)
            <==> keys.contains(other)) by {
            if keys2.contains(other) {
                let i = keys2.index_of(other);
                assert(keys2[i] == other);
                if i < at {
                    assert(keys[i] == other);
                } else {
                    assert(keys[i - 1] == other);
                }
            }
            if keys.contains(other) {
                let i = keys.index_of(other);
                assert(keys[i] == other);
                if i < at {
                    assert(keys2[i] == other);
                } else {
                    assert(keys2[i + 1] == other);
                }
            }
        }
        assert forall|other: Seq<u8>| other != key && keys.contains(other) implies values2[keys2.index_of(
            other,
        )] == values[keys.index_of(other)] by {
            let i = keys.index_of(other);
            assert(keys[i] == other);
            lemma_ascending_position(order, keys, i);
            if i < at {
                assert(keys2[i] == other);
                lemma_ascending_position(order, keys2, i);
            } else {
                assert(keys2[i + 1] == other);
                lemma_ascending_position(order, keys2, i + 1);
            }
        }
    }
}

/// Storing a value and then looking at every value through `f` gives what
/// storing `f` of the value among the values seen through `f` gives.
pub proof fn lemma_upsert_map_values<V, W>(
    order: KeyOrder,
    keys: Seq<Seq<u8>>,
    values: Seq<V>,
    key: Seq<u8>,
    value: V,
    f: spec_fn(V) -> W,
)
    requires
        ascending(order, keys),
        keys.len() == values.len(),
    ensures
        upsert_values(order, keys, values, key, value).map_values(f) == upsert_values(
            order,
            keys,
            values.map_values(f),
            key,
            f(value),
        ),
{
    if !keys.contains(key) {
        lemma_count_below_splits(order, keys, key);
    }
    assert(upsert_values(order, keys, values, key, value).map_values(f) =~= upsert_values(
        order,
        keys,
        values.map_values(f),
        key,
        f(value),
    ));
}

/// Where every value carries its key, it still does after a value was stored
/// under the key it carries.
pub proof fn lemma_upsert_keeps_keys<V>(
    order: KeyOrder,
    keys: Seq<Seq<u8>>,
    values: Seq<V>,
    key: Seq<u8>,
    value: V,
    key_of: spec_fn(V) -> Seq<u8>,
)
    requires
        ascending(order, keys),
        keys == values.map_values(key_of),
        key_of(value) == key,
    ensures
        upsert_values(order, keys, values, key, value).map_values(key_of) == upsert_keys(
            order,
            keys,
            key,
        ),
{
    lemma_upsert_map_values(order, keys, values, key, value, key_of);
    if !keys.contains(key) {
        lemma_count_below_splits(order, keys, key);
    } else {
        assert(keys[keys.index_of(key)] == key);
    }
    assert(upsert_values(order, keys, keys, key, key) =~= upsert_keys(order, keys, key));
}

struct Entry<V> {
    key: Vec<u8>,
    value: V,
}

/// Records in ascending order of their keys.
pub struct Table<V> {
    order: KeyOrder,
    entries: Vec<Entry<V>>,
}

impl<V> Table<V> {
    /// The order in which the table keeps its keys.
    pub closed spec fn order(&self) -> KeyOrder {
        self.order
    }

    /// The keys, in ascending order.
    pub closed spec fn keys(&self) -> Seq<Seq<u8>> {
        Seq::new(self.entries@.len(), |i: int| self.entries@[i].key@)
    }

    /// The values, each at the position of its key.
    pub closed spec fn values(&self) -> Seq<V> {
        Seq::new(self.entries@.len(), |i: int| self.entries@[i].value)
    }

    #[verifier::type_invariant]
    spec fn sorted(&self) -> bool {
        ascending(self.order, self.keys())
    }

    /// An empty table that keeps its keys in `order`.
    pub fn new(order: KeyOrder) -> (table: Self)
        ensures
            table.order() == order,
            table.keys() == Seq::<Seq<u8>>::empty(),
            table.values() == Seq::<V>::empty(),
            ascending(table.order(), table.keys()),
    {
        let table = Table { order, entries: Vec::new() };
        assert(table.keys() =~= Seq::<Seq<u8>>::empty());
        assert(table.values() =~= Seq::<V>::empty());
        table
    }

    /// The number of records. Every table has as many values as keys, and its
    /// keys ascend, so that none occurs twice.
    pub fn len(&self) -> (n: usize)
        ensures
            n == self.keys().len(),
            n == self.values().len(),
            ascending(self.order(), self.keys()),
    {
        proof {
            use_type_invariant(self);
        }
        self.entries.len()
    }

    /// The value at position `i` in key order.
    pub fn value_at(&self, i: usize) -> (value: &V)
        requires
            i < self.values().len(),
        ensures
            *value == self.values()[i as int],
    {
        &self.entries[i].value
    }

    /// Where `key` is or, if it is absent, where it belongs, by bisection.
    fn locate(&self, key: &[u8]) -> (place: (bool, usize))
        ensures
            place.1 <= self.keys().len(),
            forall|j: int| 0 <= j < place.1 ==> key_lt(self.order(), self.keys()[j], key@),
            place.0 ==> place.1 < self.keys().len() && self.keys()[place.1 as int] == key@,
            !place.0 ==> forall|j: int|
                place.1 <= j < self.keys().len() ==> key_lt(self.order(), key@, self.keys()[j]),
    {
        proof {
            use_type_invariant(self);
        }
        let mut low: usize = 0;
        let mut high: usize = self.entries.len();
        while low < high
            invariant
                low <= high <= self.entries@.len(),
                ascending(self.order, self.keys()),
                forall|j: int| 0 <= j < low ==> key_lt(self.order, self.keys()[j], key@),
                forall|j: int|
                    high <= j < self.keys().len() ==> key_lt(self.order, key@, self.keys()[j]),
            decreases high - low,
        {
            let middle: usize = low + (high - low) / 2;
            let ghost probe = self.keys()[middle as int];
            match compare_keys(self.order, self.entries[middle].key.as_slice(), key) {
                KeyRelation::Less => {
                    proof {
                        assert forall|j: int| 0 <= j < middle + 1 implies key_lt(
                            self.order,
                            self.keys()[j],
                            key@,
                        ) by {
                            if j < middle {
                                lemma_key_lt_transitive(self.order, self.keys()[j], probe, key@);
                            }
                        }
                    }
                    low = middle + 1;
                },
                KeyRelation::Equal => {
                    return (true, middle);
                },
                KeyRelation::Greater => {
                    proof {
                        assert forall|j: int| middle <= j < self.keys().len() implies key_lt(
                            self.order,
                            key@,
                            self.keys()[j],
                        ) by {
                            if middle < j {
                                lemma_key_lt_transitive(self.order, key@, probe, self.keys()[j]);
                            }
                        }
                    }
                    high = middle;
                },
            }
        }
        (false, low)
    }

    /// The position of `key`, if it is present.
    pub fn find(&self, key: &[u8]) -> (found: Option<usize>)
        ensures
            match found {
                Some(i) => i < self.keys().len() && self.keys()[i as int] == key@ && i
                    == self.keys().index_of(key@),
                None => !self.keys().contains(key@),
            },
    {
        proof {
            use_type_invariant(self);
        }
        let place = self.locate(key);
        proof {
            self.lemma_position(key@, place.0, place.1 as int);
        }
        if place.0 {
            Some(place.1)
        } else {
            None
        }
    }

    /// A located key is at no other position, and one that was not found is
    /// nowhere in the table.
    proof fn lemma_position(&self, key: Seq<u8>, present: bool, at: int)
        requires
            ascending(self.order(), self.keys()),
            0 <= at <= self.keys().len(),
            forall|j: int| 0 <= j < at ==> key_lt(self.order(), self.keys()[j], key),
            present ==> at < self.keys().len() && self.keys()[at] == key,
            !present ==> forall|j: int|
                at <= j < self.keys().len() ==> key_lt(self.order(), key, self.keys()[j]),
        ensures
            present ==> self.keys().contains(key) && self.keys().index_of(key) == at,
            !present ==> !self.keys().contains(key),
            !present ==> count_below(self.order(), self.keys(), key) == at,
    {
        let keys = self.keys();
        let order = self.order();
        lemma_key_lt_irreflexive(order, key);
        if present {
            let found = keys.index_of(key);
            assert(keys[at] == key);
            if found < at {
                assert(key_lt(order, keys[found], key));
            } else if at < found {
                assert(key_lt(order, keys[at], keys[found]));
            }
        } else {
            if keys.contains(key) {
                let found = keys.index_of(key);
                if found < at {
                    assert(key_lt(order, keys[found], key));
                } else {
                    assert(key_lt(order, key, keys[found]));
                }
                assert(false);
            }
            assert forall|j: int| at <= j < keys.len() implies !key_lt(order, keys[j], key) by {
                lemma_key_lt_asymmetric(order, key, keys[j]);
            }
            lemma_count_below_at(order, keys, key, at);
        }
    }

    /// Stores `value` under `key`: in place of the value that was there, or at
    /// the position that keeps the keys ascending.
    pub fn insert(&mut self, key: Vec<u8>, value: V)
        ensures
            final(self).order() == old(self).order(),
            final(self).keys() == upsert_keys(old(self).order(), old(self).keys(), key@),
            final(self).values() == upsert_values(
                old(self).order(),
                old(self).keys(),
                old(self).values(),
                key@,
                value,
            ),
            ascending(final(self).order(), final(self).keys()),
    {
        proof {
            use_type_invariant(&*self);
        }
        let place = self.locate(key.as_slice());
        proof {
            self.lemma_position(key@, place.0, place.1 as int);
        }
        let ghost old_keys = self.keys();
        let ghost old_values = self.values();
        let ghost order = self.order;
        let ghost at = place.1 as int;
        let mut entries: Vec<Entry<V>> = Vec::new();
        std::mem::swap(&mut entries, &mut self.entries);
        if place.0 {
            entries.set(place.1, Entry { key, value });
        } else {
            entries.insert(place.1, Entry { key, value });
        }
        let ghost new_keys = Seq::new(entries@.len(), |i: int| entries@[i].key@);
        proof {
            if place.0 {
                assert(new_keys =~= old_keys);
            } else {
                assert(new_keys =~= old_keys.insert(at, key@));
                assert forall|i: int, j: int| 0 <= i < j < new_keys.len() implies key_lt(
                    order,
                    new_keys[i],
                    new_keys[j],
                ) by {
                    if j < at {
                        assert(new_keys[i] == old_keys[i] && new_keys[j] == old_keys[j]);
                    } else if j == at {
                        assert(new_keys[i] == old_keys[i]);
                    } else if i < at {
                        assert(new_keys[i] == old_keys[i] && new_keys[j] == old_keys[j - 1]);
                        lemma_key_lt_transitive(order, old_keys[i], key@, old_keys[j - 1]);
                    } else if i == at {
                        assert(new_keys[j] == old_keys[j - 1]);
                    } else {
                        assert(new_keys[i] == old_keys[i - 1] && new_keys[j] == old_keys[j - 1]);
                    }
                }
            }
        }
        self.entries = entries;
        proof {
            assert(self.keys() =~= new_keys);
            if place.0 {
                assert(self.values() =~= old_values.update(at, value));
            } else {
                assert(self.values() =~= old_values.insert(at, value));
            }
        }
    }
}

} // verus!
