//! Lists of keyed entries, read as maps.
//!
//! The kernel's tables are vectors of entries, each under a key, in which no
//! key occurs twice. The functions of this module say which map such a list
//! stands for, and what pushing, replacing and removing an entry do to it.

use vstd::prelude::*;

verus! {

/// The map that a list of keyed entries stands for.
pub open spec fn assoc_map<K, V>(entries: Seq<(K, V)>) -> Map<K, V>
    decreases entries.len(),
{
    if entries.len() == 0 {
        Map::empty()
    } else {
        assoc_map(entries.drop_last()).insert(entries.last().0, entries.last().1)
    }
}

/// Whether no key occurs twice in a list of keyed entries.
pub open spec fn distinct_keys<K, V>(entries: Seq<(K, V)>) -> bool {
    forall|i: int, j: int|
        0 <= i < entries.len() && 0 <= j < entries.len() && i != j ==> (#[trigger] entries[i]).0 != (
        #[trigger] entries[j]).0
}

/// Whether `key` occurs in a list of keyed entries.
pub open spec fn has_key<K, V>(entries: Seq<(K, V)>, key: K) -> bool {
    exists|i: int| 0 <= i < entries.len() && (#[trigger] entries[i]).0 == key
}

/// The keys of the map are the keys that occur in the list.
pub proof fn lemma_assoc_keys<K, V>(entries: Seq<(K, V)>, key: K)
    ensures
        assoc_map(entries).contains_key(key) <==> has_key(entries, key),
    decreases entries.len(),
{
    if entries.len() > 0 {
        let front = entries.drop_last();
        lemma_assoc_keys(front, key);
        if has_key(entries, key) {
            let i = choose|i: int| 0 <= i < entries.len() && (#[trigger] entries[i]).0 == key;
            if i < entries.len() - 1 {
                assert(front[i].0 == key);
            }
        }
        if has_key(front, key) {
            let i = choose|i: int| 0 <= i < front.len() && (#[trigger] front[i]).0 == key;
            assert(entries[i].0 == key);
        }
        if entries.last().0 == key {
            assert(entries[entries.len() - 1].0 == key);
        }
    }
}

/// Where no key occurs twice, the map holds under each key the entry that the
/// list holds under it.
pub proof fn lemma_assoc_value<K, V>(entries: Seq<(K, V)>, i: int)
    requires
        distinct_keys(entries),
        0 <= i < entries.len(),
    ensures
        assoc_map(entries).contains_key(entries[i].0),
        assoc_map(entries)[entries[i].0] == entries[i].1,
    decreases entries.len(),
{
    let front = entries.drop_last();
    if i < entries.len() - 1 {
        assert(distinct_keys(front)) by {
            assert forall|a: int, b: int|
                0 <= a < front.len() && 0 <= b < front.len() && a != b implies (
            #[trigger] front[a]).0 != (#[trigger] front[b]).0 by {
                assert(entries[a].0 != entries[b].0);
            }
        }
        lemma_assoc_value(front, i);
        assert(front[i] == entries[i]);
        assert(entries[i].0 != entries[entries.len() - 1].0);
    }
}

/// Pushing an entry puts it into the map.
pub proof fn lemma_assoc_push<K, V>(entries: Seq<(K, V)>, key: K, value: V)
    ensures
        assoc_map(entries.push((key, value))) == assoc_map(entries).insert(key, value),
        distinct_keys(entries) && !has_key(entries, key) ==> distinct_keys(
            entries.push((key, value)),
        ),
{
    assert(entries.push((key, value)).drop_last() =~= entries);
    if distinct_keys(entries) && !has_key(entries, key) {
        let pushed = entries.push((key, value));
        assert forall|i: int, j: int|
            0 <= i < pushed.len() && 0 <= j < pushed.len() && i != j implies (
        #[trigger] pushed[i]).0 != (#[trigger] pushed[j]).0 by {
            if i < entries.len() {
                assert(entries[i] == pushed[i]);
            }
            if j < entries.len() {
                assert(entries[j] == pushed[j]);
            }
        }
    }
}

/// Where no key occurs twice, putting a new value under the key of an entry
/// puts it under that key in the map.
pub proof fn lemma_assoc_update<K, V>(entries: Seq<(K, V)>, i: int, value: V)
    requires
        distinct_keys(entries),
        0 <= i < entries.len(),
    ensures
        assoc_map(entries.update(i, (entries[i].0, value))) == assoc_map(entries).insert(
            entries[i].0,
            value,
        ),
        distinct_keys(entries.update(i, (entries[i].0, value))),
    decreases entries.len(),
{
    let key = entries[i].0;
    let updated = entries.update(i, (key, value));
    let front = entries.drop_last();
    assert(distinct_keys(updated)) by {
        assert forall|a: int, b: int|
            0 <= a < updated.len() && 0 <= b < updated.len() && a != b implies (
        #[trigger] updated[a]).0 != (#[trigger] updated[b]).0 by {
            assert(entries[a].0 != entries[b].0);
        }
    }
    if i == entries.len() - 1 {
        assert(updated.drop_last() =~= front);
        assert(assoc_map(front).insert(key, entries[i].1).insert(key, value) =~= assoc_map(
            front,
        ).insert(key, value));
    } else {
        assert(distinct_keys(front)) by {
            assert forall|a: int, b: int|
                0 <= a < front.len() && 0 <= b < front.len() && a != b implies (
            #[trigger] front[a]).0 != (#[trigger] front[b]).0 by {
                assert(entries[a].0 != entries[b].0);
            }
        }
        lemma_assoc_update(front, i, value);
        assert(front[i] == entries[i]);
        assert(updated.drop_last() =~= front.update(i, (key, value)));
        let last = entries.last();
        assert(entries[i].0 != entries[entries.len() - 1].0);
        assert(assoc_map(front).insert(key, value).insert(last.0, last.1) =~= assoc_map(
            front,
        ).insert(last.0, last.1).insert(key, value));
    }
}

/// Where no key occurs twice, removing an entry removes its key from the
/// map.
pub proof fn lemma_assoc_remove<K, V>(entries: Seq<(K, V)>, i: int)
    requires
        distinct_keys(entries),
        0 <= i < entries.len(),
    ensures
        assoc_map(entries.remove(i)) == assoc_map(entries).remove(entries[i].0),
        distinct_keys(entries.remove(i)),
    decreases entries.len(),
{
    let key = entries[i].0;
    let removed = entries.remove(i);
    let front = entries.drop_last();
    assert(distinct_keys(removed)) by {
        assert forall|a: int, b: int|
            0 <= a < removed.len() && 0 <= b < removed.len() && a != b implies (
        #[trigger] removed[a]).0 != (#[trigger] removed[b]).0 by {
            let a0 = if a < i {
                a
            } else {
                a + 1
            };
            let b0 = if b < i {
                b
            } else {
                b + 1
            };
            assert(entries[a0].0 != entries[b0].0);
        }
    }
    assert(distinct_keys(front)) by {
        assert forall|a: int, b: int|
            0 <= a < front.len() && 0 <= b < front.len() && a != b implies (
        #[trigger] front[a]).0 != (#[trigger] front[b]).0 by {
            assert(entries[a].0 != entries[b].0);
        }
    }
    if i == entries.len() - 1 {
        assert(removed =~= front);
        lemma_assoc_keys(front, key);
        if has_key(front, key) {
            let j = choose|j: int| 0 <= j < front.len() && (#[trigger] front[j]).0 == key;
            assert(entries[j].0 == key);
            assert(entries[j].0 != entries[i].0);
        }
        assert(assoc_map(front).insert(key, entries[i].1).remove(key) =~= assoc_map(front));
    } else {
        lemma_assoc_remove(front, i);
        assert(front[i] == entries[i]);
        assert(removed.drop_last() =~= front.remove(i));
        let last = entries.last();
        assert(removed.last() == last);
        assert(entries[i].0 != entries[entries.len() - 1].0);
        assert(assoc_map(front).remove(key).insert(last.0, last.1) =~= assoc_map(front).insert(
            last.0,
            last.1,
        ).remove(key));
    }
}

} // verus!
