//! A table from hashes to hashes.

use vstd::prelude::*;

use crate::primitives::{lemma_same_bytes_same_hash, H256};

verus! {

/// `a` and `b` agree before the index, where `a` is smaller.
pub open spec fn less_at(a: H256, b: H256, i: int) -> bool {
    0 <= i < 32 && a@[i] < b@[i] && a@.take(i) == b@.take(i)
}

/// `a` comes before `b` in the order of their bytes.
pub open spec fn less(a: H256, b: H256) -> bool {
    exists|i: int| less_at(a, b, i)
}

proof fn lemma_less_is_transitive(a: H256, b: H256, c: H256)
    requires
        less(a, b),
        less(b, c),
    ensures
        less(a, c),
{
    let i = choose|i: int| less_at(a, b, i);
    let j = choose|j: int| less_at(b, c, j);
    let k = if i < j {
        i
    } else {
        j
    };
    assert(a@.take(k) =~= a@.take(i).take(k));
    assert(b@.take(k) =~= b@.take(i).take(k));
    assert(b@.take(k) =~= b@.take(j).take(k));
    assert(c@.take(k) =~= c@.take(j).take(k));
    if i < j {
        assert(b@.take(j)[i] == c@.take(j)[i]);
    } else if j < i {
        assert(a@.take(i)[j] == b@.take(i)[j]);
    }
    assert(less_at(a, c, k));
}

proof fn lemma_less_is_strict(a: H256, b: H256)
    ensures
        !(less(a, b) && less(b, a)),
        !less(a, a),
{
    if less(a, b) && less(b, a) {
        lemma_less_is_transitive(a, b, a);
    }
    if less(a, a) {
        let i = choose|i: int| less_at(a, a, i);
    }
}

/// How two hashes compare.
enum Order {
    Before,
    Same,
    After,
}

fn order_of(a: &H256, b: &H256) -> (order: Order)
    ensures
        match order {
            Order::Before => less(*a, *b),
            Order::Same => *a == *b,
            Order::After => less(*b, *a),
        },
{
    let mut i: usize = 0;
    while i < 32
        invariant
            i <= 32,
            a@.take(i as int) == b@.take(i as int),
        decreases 32 - i,
    {
        if a.0[i] < b.0[i] {
            assert(less_at(*a, *b, i as int));
            return Order::Before;
        }
        if a.0[i] > b.0[i] {
            assert(less_at(*b, *a, i as int));
            return Order::After;
        }
        assert(a@.take(i + 1) =~= a@.take(i as int).push(a@[i as int]));
        assert(b@.take(i + 1) =~= b@.take(i as int).push(b@[i as int]));
        i += 1;
    }
    proof {
        assert(a@ =~= a@.take(32));
        assert(b@ =~= b@.take(32));
        lemma_same_bytes_same_hash(*a, *b);
    }
    Order::Same
}

/// A table from hashes to hashes, kept in the order of its keys.
pub struct HashTable {
    entries: Vec<(H256, H256)>,
}

/// The keys of the entries.
spec fn keys_of(entries: Seq<(H256, H256)>) -> Seq<H256> {
    entries.map_values(|entry: (H256, H256)| entry.0)
}

/// The entries are in the strict order of their keys.
spec fn is_ordered(entries: Seq<(H256, H256)>) -> bool {
    forall|i: int, j: int|
        0 <= i < j < entries.len() ==> less(#[trigger] entries[i].0, #[trigger] entries[j].0)
}

/// The table that the entries make up.
spec fn map_of(entries: Seq<(H256, H256)>) -> Map<H256, H256> {
    Map::new(
        |key: H256| keys_of(entries).contains(key),
        |key: H256| entries[keys_of(entries).index_of(key)].1,
    )
}

proof fn lemma_keys_are_distinct(entries: Seq<(H256, H256)>, i: int, j: int)
    requires
        is_ordered(entries),
        0 <= i < entries.len(),
        0 <= j < entries.len(),
        entries[i].0 == entries[j].0,
    ensures
        i == j,
{
    lemma_less_is_strict(entries[i].0, entries[j].0);
    if i < j {
        assert(less(entries[i].0, entries[j].0));
    }
    if j < i {
        assert(less(entries[j].0, entries[i].0));
    }
}

/// An entry's value is found under its key.
proof fn lemma_entry_is_found(entries: Seq<(H256, H256)>, i: int)
    requires
        is_ordered(entries),
        0 <= i < entries.len(),
    ensures
        map_of(entries).dom().contains(entries[i].0),
        map_of(entries)[entries[i].0] == entries[i].1,
{
    let keys = keys_of(entries);
    assert(keys[i] == entries[i].0);
    assert(keys.contains(entries[i].0));
    let j = keys.index_of(entries[i].0);
    assert(keys[j] == entries[j].0);
    lemma_keys_are_distinct(entries, i, j);
}

/// What is found comes from an entry.
proof fn lemma_found_is_entry(entries: Seq<(H256, H256)>, key: H256) -> (i: int)
    requires
        map_of(entries).dom().contains(key),
    ensures
        0 <= i < entries.len(),
        entries[i].0 == key,
        entries[i].1 == map_of(entries)[key],
{
    keys_of(entries).index_of(key)
}

impl View for HashTable {
    type V = Map<H256, H256>;

    closed spec fn view(&self) -> Map<H256, H256> {
        map_of(self.entries@)
    }
}

impl HashTable {
    #[verifier::type_invariant]
    spec fn is_valid(self) -> bool {
        is_ordered(self.entries@)
    }

    /// A table without entries.
    pub fn new() -> (table: HashTable)
        ensures
            table@ == Map::<H256, H256>::empty(),
    {
        let table = HashTable { entries: Vec::new() };
        assert(table@ =~= Map::<H256, H256>::empty());
        table
    }

    /// The number of entries.
    pub fn len(&self) -> (len: usize)
        ensures
            self@.dom().finite(),
            len == self@.len(),
    {
        proof {
            use_type_invariant(self);
            let keys = keys_of(self.entries@);
            assert(self@.dom() =~= keys.to_set());
            assert(keys.no_duplicates()) by {
                assert forall|i: int, j: int|
                    0 <= i < keys.len() && 0 <= j < keys.len() && i != j implies keys[i]
                    != keys[j] by {
                    if keys[i] == keys[j] {
                        lemma_keys_are_distinct(self.entries@, i, j);
                    }
                }
            }
            keys.unique_seq_to_set();
            vstd::seq_lib::seq_to_set_is_finite(keys);
        }
        self.entries.len()
    }

    /// The place of `key` among the keys, and whether there is an entry for it.
    fn position(&self, key: &H256) -> (place: (usize, bool))
        ensures
            place.0 <= self.entries@.len(),
            forall|i: int| 0 <= i < place.0 ==> less(#[trigger] self.entries@[i].0, *key),
            place.1 ==> place.0 < self.entries@.len() && self.entries@[place.0 as int].0 == *key,
            !place.1 ==> forall|i: int|
                place.0 <= i < self.entries@.len() ==> less(*key, #[trigger] self.entries@[i].0),
    {
        proof {
            use_type_invariant(self);
        }
        let mut low: usize = 0;
        let mut high: usize = self.entries.len();
        while low < high
            invariant
                low <= high <= self.entries@.len(),
                is_ordered(self.entries@),
                forall|i: int| 0 <= i < low ==> less(#[trigger] self.entries@[i].0, *key),
                forall|i: int|
                    high <= i < self.entries@.len() ==> less(*key, #[trigger] self.entries@[i].0),
            decreases high - low,
        {
            let middle: usize = low + (high - low) / 2;
            match order_of(&self.entries[middle].0, key) {
                Order::Before => {
                    proof {
                        assert forall|i: int| 0 <= i < middle + 1 implies less(
                            #[trigger] self.entries@[i].0,
                            *key,
                        ) by {
                            if i < middle {
                                lemma_less_is_transitive(
                                    self.entries@[i].0,
                                    self.entries@[middle as int].0,
                                    *key,
                                );
                            }
                        }
                    }
                    low = middle + 1;
                },
                Order::Same => {
                    return (middle, true);
                },
                Order::After => {
                    proof {
                        assert forall|i: int| middle <= i < self.entries@.len() implies less(
                            *key,
                            #[trigger] self.entries@[i].0,
                        ) by {
                            if middle < i {
                                lemma_less_is_transitive(
                                    *key,
                                    self.entries@[middle as int].0,
                                    self.entries@[i].0,
                                );
                            }
                        }
                    }
                    high = middle;
                },
            }
        }
        (low, false)
    }

    /// The value under `key`, if there is one.
    pub fn get(&self, key: &H256) -> (value: Option<H256>)
        ensures
            value == (if self@.dom().contains(*key) {
                Some(self@[*key])
            } else {
                None
            }),
    {
        let (place, found) = self.position(key);
        proof {
            use_type_invariant(self);
            if found {
                lemma_entry_is_found(self.entries@, place as int);
            } else if self@.dom().contains(*key) {
                let i = lemma_found_is_entry(self.entries@, *key);
                lemma_less_is_strict(*key, *key);
                if i < place {
                    assert(less(self.entries@[i].0, *key));
                } else {
                    assert(less(*key, self.entries@[i].0));
                }
            }
        }
        if found {
            Some(self.entries[place].1)
        } else {
            None
        }
    }

    /// Puts `value` under `key`, in place of the value that was there.
    pub fn insert(&mut self, key: H256, value: H256)
        ensures
            final(self)@ == old(self)@.insert(key, value),
    {
        let (place, found) = self.position(&key);
        proof {
            use_type_invariant(&*self);
        }
        let ghost before = self.entries@;
        let mut entries: Vec<(H256, H256)> = Vec::new();
        std::mem::swap(&mut entries, &mut self.entries);
        if found {
            entries.set(place, (key, value));
        } else {
            entries.insert(place, (key, value));
        }
        proof {
            lemma_insert(before, entries@, place as int, found, key, value);
        }
        self.entries = entries;
    }

    /// Removes all entries.
    pub fn clear(&mut self)
        ensures
            final(self)@ == Map::<H256, H256>::empty(),
    {
        self.entries = Vec::new();
        assert(self@ =~= Map::<H256, H256>::empty());
    }
}

proof fn lemma_insert(
    before: Seq<(H256, H256)>,
    after: Seq<(H256, H256)>,
    place: int,
    found: bool,
    key: H256,
    value: H256,
)
    requires
        is_ordered(before),
        0 <= place <= before.len(),
        forall|i: int| 0 <= i < place ==> less(#[trigger] before[i].0, key),
        found ==> place < before.len() && before[place].0 == key,
        !found ==> forall|i: int|
            place <= i < before.len() ==> less(key, #[trigger] before[i].0),
        after == (if found {
            before.update(place, (key, value))
        } else {
            before.insert(place, (key, value))
        }),
    ensures
        is_ordered(after),
        map_of(after) == map_of(before).insert(key, value),
{
    assert(is_ordered(after));
    lemma_entry_is_found(after, place);
    let expected = map_of(before).insert(key, value);
    assert forall|other: H256| #[trigger]
        map_of(after).dom().contains(other) == expected.dom().contains(other) && (
    expected.dom().contains(other) ==> map_of(after)[other] == expected[other]) by {
        if other != key {
            if map_of(after).dom().contains(other) {
                let i = lemma_found_is_entry(after, other);
                let j = if found || i < place {
                    i
                } else {
                    i - 1
                };
                assert(before[j] == after[i]);
                lemma_entry_is_found(before, j);
            }
            if map_of(before).dom().contains(other) {
                let i = lemma_found_is_entry(before, other);
                let j = if found || i < place {
                    i
                } else {
                    i + 1
                };
                assert(after[j] == before[i]);
                lemma_entry_is_found(after, j);
            }
        }
    }
    assert(map_of(after) =~= expected);
}

} // verus!
