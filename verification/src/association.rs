//! Associations as ordered sequences of (key, value) pairs: lookup by key,
//! insertion with last-write-wins, and what holds of them.
//!
//! Keys are arbitrary values, so an association is kept as a sequence of
//! pairs in insertion order, not as a key-indexed map. These functions are
//! generic in the type of keys and values.

use vstd::prelude::*;

verus! {

/// The index of the first entry with the given key, or the number of
/// entries where no entry has it.
pub open spec fn key_index<K, V>(entries: Seq<(K, V)>, key: K) -> int
    decreases entries.len(),
{
    if entries.len() == 0 {
        0
    } else {
        let before = key_index(entries.drop_last(), key);
        if before < entries.len() - 1 {
            before
        } else if entries.last().0 == key {
            entries.len() - 1
        } else {
            entries.len() as int
        }
    }
}

/// `true` when some entry has the given key.
pub open spec fn has_key<K, V>(entries: Seq<(K, V)>, key: K) -> bool {
    key_index(entries, key) < entries.len()
}

/// The value that the association gives to the key, if any.
pub open spec fn lookup<K, V>(entries: Seq<(K, V)>, key: K) -> Option<V> {
    if has_key(entries, key) {
        Some(entries[key_index(entries, key)].1)
    } else {
        None
    }
}

/// `true` when no two entries share a key.
pub open spec fn distinct_keys<K, V>(entries: Seq<(K, V)>) -> bool {
    forall|i: int, j: int| 0 <= i < j < entries.len() ==> entries[i].0 != entries[j].0
}

/// The association after `key` is given `value`: the entry with that key is
/// overwritten in place, or a new entry is added at the end.
pub open spec fn insert<K, V>(entries: Seq<(K, V)>, key: K, value: V) -> Seq<(K, V)> {
    let i = key_index(entries, key);
    if i < entries.len() {
        entries.update(i, (key, value))
    } else {
        entries.push((key, value))
    }
}

/// The association built by inserting the pairs in sequence order into an
/// empty one.
pub open spec fn from_pairs<K, V>(pairs: Seq<(K, V)>) -> Seq<(K, V)>
    decreases pairs.len(),
{
    if pairs.len() == 0 {
        Seq::empty()
    } else {
        insert(from_pairs(pairs.drop_last()), pairs.last().0, pairs.last().1)
    }
}

/// The value of the last pair with the given key, if any.
pub open spec fn last_value<K, V>(pairs: Seq<(K, V)>, key: K) -> Option<V>
    decreases pairs.len(),
{
    if pairs.len() == 0 {
        None
    } else if pairs.last().0 == key {
        Some(pairs.last().1)
    } else {
        last_value(pairs.drop_last(), key)
    }
}

/// `key_index` is the least index with the key: it is in range, the entry
/// there has the key, and no earlier entry has it.
pub proof fn lemma_key_index<K, V>(entries: Seq<(K, V)>, key: K)
    ensures
        0 <= key_index(entries, key) <= entries.len(),
        key_index(entries, key) < entries.len() ==> entries[key_index(entries, key)].0 == key,
        forall|j: int| 0 <= j < key_index(entries, key) ==> entries[j].0 != key,
    decreases entries.len(),
{
    if entries.len() > 0 {
        let front = entries.drop_last();
        lemma_key_index(front, key);
        assert forall|j: int| 0 <= j < key_index(entries, key) implies entries[j].0 != key by {
            if j < front.len() {
                assert(front[j] == entries[j]);
            }
        }
    }
}

/// An index that has the key, with no earlier entry that has it, is
/// `key_index`; so is the number of entries where none has the key.
pub proof fn lemma_key_index_is<K, V>(entries: Seq<(K, V)>, key: K, i: int)
    requires
        0 <= i <= entries.len(),
        i < entries.len() ==> entries[i].0 == key,
        forall|j: int| 0 <= j < i ==> entries[j].0 != key,
    ensures
        key_index(entries, key) == i,
{
    lemma_key_index(entries, key);
}

/// After an insertion the key has the new value and every other key has
/// what it had.
pub proof fn lemma_insert_lookup<K, V>(entries: Seq<(K, V)>, key: K, value: V, other: K)
    ensures
        lookup(insert(entries, key, value), other) == if other == key {
            Some(value)
        } else {
            lookup(entries, other)
        },
{
    let after = insert(entries, key, value);
    let i = key_index(entries, key);
    lemma_key_index(entries, key);
    lemma_key_index(entries, other);
    let o = key_index(entries, other);
    if other == key {
        lemma_key_index_is(after, other, i);
    } else {
        lemma_key_index_is(after, other, if o < entries.len() { o } else { after.len() as int });
    }
}

/// An insertion keeps the keys distinct.
pub proof fn lemma_insert_distinct<K, V>(entries: Seq<(K, V)>, key: K, value: V)
    requires
        distinct_keys(entries),
    ensures
        distinct_keys(insert(entries, key, value)),
{
    lemma_key_index(entries, key);
}

/// An insertion changes the number of entries by at most one, and keeps the
/// order of the entries that were there.
pub proof fn lemma_insert_len<K, V>(entries: Seq<(K, V)>, key: K, value: V)
    ensures
        insert(entries, key, value).len() == if has_key(entries, key) {
            entries.len()
        } else {
            entries.len() + 1
        },
{
    lemma_key_index(entries, key);
}

/// An association built from pairs has distinct keys, and no more entries
/// than there were pairs.
pub proof fn lemma_from_pairs_distinct<K, V>(pairs: Seq<(K, V)>)
    ensures
        distinct_keys(from_pairs(pairs)),
        from_pairs(pairs).len() <= pairs.len(),
    decreases pairs.len(),
{
    if pairs.len() > 0 {
        lemma_from_pairs_distinct(pairs.drop_last());
        lemma_insert_distinct(from_pairs(pairs.drop_last()), pairs.last().0, pairs.last().1);
        lemma_insert_len(from_pairs(pairs.drop_last()), pairs.last().0, pairs.last().1);
    }
}

/// Last write wins: an association built from pairs gives each key the value
/// of the last pair that has it, and gives nothing to a key that no pair has.
pub proof fn lemma_last_write_wins<K, V>(pairs: Seq<(K, V)>, key: K)
    ensures
        lookup(from_pairs(pairs), key) == last_value(pairs, key),
    decreases pairs.len(),
{
    if pairs.len() > 0 {
        lemma_last_write_wins(pairs.drop_last(), key);
        lemma_insert_lookup(from_pairs(pairs.drop_last()), pairs.last().0, pairs.last().1, key);
    }
}

/// Pairs whose keys are distinct already are the association that they
/// build.
pub proof fn lemma_from_pairs_of_distinct<K, V>(pairs: Seq<(K, V)>)
    requires
        distinct_keys(pairs),
    ensures
        from_pairs(pairs) == pairs,
    decreases pairs.len(),
{
    if pairs.len() > 0 {
        let front = pairs.drop_last();
        assert(distinct_keys(front));
        lemma_from_pairs_of_distinct(front);
        lemma_key_index_is(front, pairs.last().0, front.len() as int);
        assert(front.push(pairs.last()) =~= pairs);
    } else {
        assert(pairs =~= Seq::empty());
    }
}

/// `true` when some pair of the sequence has the given key.
pub open spec fn mentions<K, V>(pairs: Seq<(K, V)>, key: K) -> bool {
    exists|i: int| 0 <= i < pairs.len() && (#[trigger] pairs[i]).0 == key
}

/// A key has a last value only where some pair has the key.
pub proof fn lemma_last_value_mentions<K, V>(pairs: Seq<(K, V)>, key: K)
    ensures
        last_value(pairs, key) is Some <==> mentions(pairs, key),
    decreases pairs.len(),
{
    if pairs.len() > 0 {
        let front = pairs.drop_last();
        lemma_last_value_mentions(front, key);
        if pairs.last().0 == key {
            assert(pairs[pairs.len() - 1].0 == key);
        } else if mentions(front, key) {
            let i = choose|i: int| 0 <= i < front.len() && (#[trigger] front[i]).0 == key;
            assert(pairs[i] == front[i]);
        } else if mentions(pairs, key) {
            let i = choose|i: int| 0 <= i < pairs.len() && (#[trigger] pairs[i]).0 == key;
            assert(front[i] == pairs[i]);
        }
    }
}

/// Every entry of an association built from pairs is one of the pairs.
pub proof fn lemma_from_pairs_members<K, V>(pairs: Seq<(K, V)>, i: int)
    requires
        0 <= i < from_pairs(pairs).len(),
    ensures
        exists|j: int| 0 <= j < pairs.len() && #[trigger] pairs[j] == from_pairs(pairs)[i],
    decreases pairs.len(),
{
    if pairs.len() > 0 {
        let front = pairs.drop_last();
        let before = from_pairs(front);
        lemma_key_index(before, pairs.last().0);
        let at = key_index(before, pairs.last().0);
        if i == at {
            assert(pairs[pairs.len() - 1] == from_pairs(pairs)[i]);
        } else {
            assert(from_pairs(pairs)[i] == before[i]);
            lemma_from_pairs_members(front, i);
            let j = choose|j: int| 0 <= j < front.len() && #[trigger] front[j] == before[i];
            assert(pairs[j] == front[j]);
        }
    }
}

/// An association built from pairs has a key exactly where some pair has
/// it.
pub proof fn lemma_from_pairs_keys<K, V>(pairs: Seq<(K, V)>, key: K)
    ensures
        has_key(from_pairs(pairs), key) <==> mentions(pairs, key),
{
    lemma_last_write_wins(pairs, key);
    lemma_last_value_mentions(pairs, key);
}

} // verus!
