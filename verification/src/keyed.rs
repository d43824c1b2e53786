//! A list of values under text keys, in which each key occurs once.

use vstd::prelude::*;

verus! {

/// The key of the entry at index `i`.
pub open spec fn key_at<V>(entries: Seq<(String, V)>, i: int) -> Seq<char> {
    entries[i].0@
}

/// Whether some entry has the key `key`.
pub open spec fn has_key<V>(entries: Seq<(String, V)>, key: Seq<char>) -> bool {
    exists|i: int| 0 <= i < entries.len() && #[trigger] key_at(entries, i) == key
}

/// The index of an entry with the key `key`.
pub open spec fn index_of_key<V>(entries: Seq<(String, V)>, key: Seq<char>) -> int {
    choose|i: int| 0 <= i < entries.len() && #[trigger] key_at(entries, i) == key
}

/// Whether no two entries share a key.
pub open spec fn distinct_keys<V>(entries: Seq<(String, V)>) -> bool {
    forall|i: int, j: int|
        0 <= i < j < entries.len() ==> #[trigger] key_at(entries, i) != #[trigger] key_at(
            entries,
            j,
        )
}

/// The mapping that a list of entries with distinct keys stands for.
pub open spec fn entries_map<V: View>(entries: Seq<(String, V)>) -> Map<Seq<char>, V::V> {
    Map::new(
        |key: Seq<char>| has_key(entries, key),
        |key: Seq<char>| entries[index_of_key(entries, key)].1@,
    )
}

/// In a list with distinct keys, every entry is what the mapping gives for
/// its key.
pub proof fn lemma_entry_in_map<V: View>(entries: Seq<(String, V)>, i: int)
    requires
        distinct_keys(entries),
        0 <= i < entries.len(),
    ensures
        entries_map(entries).contains_key(entries[i].0@),
        entries_map(entries)[entries[i].0@] == entries[i].1@,
{
    let key = entries[i].0@;
    assert(key_at(entries, i) == key);
    let j = index_of_key(entries, key);
    assert(0 <= j < entries.len() && key_at(entries, j) == key);
    if j < i {
        assert(key_at(entries, j) != key_at(entries, i));
    } else if i < j {
        assert(key_at(entries, i) != key_at(entries, j));
    }
}

/// Replacing the value of the entry at `i` gives the mapping with that key
/// set to the new value.
pub proof fn lemma_update_entry<V: View>(
    before: Seq<(String, V)>,
    after: Seq<(String, V)>,
    i: int,
)
    requires
        distinct_keys(before),
        0 <= i < before.len(),
        after.len() == before.len(),
        forall|j: int| 0 <= j < before.len() && j != i ==> after[j] == before[j],
        after[i].0@ == before[i].0@,
    ensures
        distinct_keys(after),
        entries_map(after) == entries_map(before).insert(after[i].0@, after[i].1@),
{
    assert forall|a: int, b: int| 0 <= a < b < after.len() implies key_at(after, a) != key_at(
        after,
        b,
    ) by {
        assert(key_at(after, a) == key_at(before, a));
        assert(key_at(after, b) == key_at(before, b));
    }
    assert forall|k: Seq<char>| has_key(after, k) <==> has_key(before, k) by {
        if has_key(after, k) {
            let j = index_of_key(after, k);
            assert(key_at(before, j) == k);
        }
        if has_key(before, k) {
            let j = index_of_key(before, k);
            assert(key_at(after, j) == k);
        }
    }
    let target = entries_map(before).insert(after[i].0@, after[i].1@);
    assert forall|k: Seq<char>| has_key(after, k) implies #[trigger] entries_map(after)[k]
        == target[k] by {
        let j = index_of_key(after, k);
        assert(key_at(after, j) == k);
        lemma_entry_in_map(after, j);
        if j != i {
            assert(key_at(before, j) == k);
            lemma_entry_in_map(before, j);
            assert(key_at(before, i) == after[i].0@);
        }
    }
    assert(key_at(before, i) == after[i].0@);
    assert(has_key(before, after[i].0@));
    assert(entries_map(after) =~= target);
}

/// Adding an entry with a new key gives the mapping with that key set.
pub proof fn lemma_push_entry<V: View>(before: Seq<(String, V)>, entry: (String, V))
    requires
        distinct_keys(before),
        !has_key(before, entry.0@),
    ensures
        distinct_keys(before.push(entry)),
        entries_map(before.push(entry)) == entries_map(before).insert(entry.0@, entry.1@),
{
    let after = before.push(entry);
    let n = before.len() as int;
    assert forall|a: int, b: int| 0 <= a < b < after.len() implies key_at(after, a) != key_at(
        after,
        b,
    ) by {
        assert(key_at(after, a) == key_at(before, a));
        if b < n {
            assert(key_at(after, b) == key_at(before, b));
        }
    }
    assert(key_at(after, n) == entry.0@);
    assert forall|k: Seq<char>| has_key(after, k) <==> (k == entry.0@ || has_key(before, k)) by {
        if has_key(after, k) {
            let j = index_of_key(after, k);
            if j < n {
                assert(key_at(before, j) == k);
            }
        }
        if has_key(before, k) {
            let j = index_of_key(before, k);
            assert(key_at(after, j) == k);
        }
    }
    let target = entries_map(before).insert(entry.0@, entry.1@);
    assert forall|k: Seq<char>| has_key(after, k) implies #[trigger] entries_map(after)[k]
        == target[k] by {
        let j = index_of_key(after, k);
        assert(key_at(after, j) == k);
        lemma_entry_in_map(after, j);
        if j < n {
            assert(key_at(before, j) == k);
            lemma_entry_in_map(before, j);
        }
    }
    assert(entries_map(after) =~= target);
}

/// Taking out the entry at `i` gives the mapping without its key.
pub proof fn lemma_remove_entry<V: View>(before: Seq<(String, V)>, i: int)
    requires
        distinct_keys(before),
        0 <= i < before.len(),
    ensures
        distinct_keys(before.remove(i)),
        entries_map(before.remove(i)) == entries_map(before).remove(before[i].0@),
{
    let after = before.remove(i);
    let key = before[i].0@;
    assert forall|a: int| 0 <= a < after.len() implies key_at(after, a) == key_at(
        before,
        if a < i {
            a
        } else {
            a + 1
        },
    ) by {}
    assert forall|a: int, b: int| 0 <= a < b < after.len() implies key_at(after, a) != key_at(
        after,
        b,
    ) by {
        let a2 = if a < i { a } else { a + 1 };
        let b2 = if b < i { b } else { b + 1 };
        assert(key_at(before, a2) != key_at(before, b2));
    }
    assert forall|k: Seq<char>| has_key(after, k) <==> (k != key && has_key(before, k)) by {
        if has_key(after, k) {
            let j = index_of_key(after, k);
            let j2 = if j < i { j } else { j + 1 };
            assert(key_at(before, j2) == k);
            if j2 < i {
                assert(key_at(before, j2) != key_at(before, i));
            } else {
                assert(key_at(before, i) != key_at(before, j2));
            }
        }
        if k != key && has_key(before, k) {
            let j = index_of_key(before, k);
            assert(key_at(before, i) == key);
            let j2 = if j < i { j } else { j - 1 };
            assert(key_at(after, j2) == k);
        }
    }
    let target = entries_map(before).remove(key);
    assert forall|k: Seq<char>| has_key(after, k) implies #[trigger] entries_map(after)[k]
        == target[k] by {
        let j = index_of_key(after, k);
        assert(key_at(after, j) == k);
        lemma_entry_in_map(after, j);
        let j2 = if j < i { j } else { j + 1 };
        assert(key_at(before, j2) == k);
        lemma_entry_in_map(before, j2);
    }
    assert(entries_map(after) =~= target);
}

/// The position of the entry for `key`, if there is one.
pub fn position_of<V>(entries: &Vec<(String, V)>, key: &str) -> (r: Option<usize>)
    ensures
        match r {
            Some(i) => i < entries@.len() && entries@[i as int].0@ == key@,
            None => !has_key(entries@, key@),
        },
{
    let owned = key.to_string();
    let mut i: usize = 0;
    while i < entries.len()
        invariant
            0 <= i <= entries@.len(),
            owned@ == key@,
            forall|j: int| 0 <= j < i ==> key_at(entries@, j) != key@,
        decreases entries@.len() - i,
    {
        if entries[i].0 == owned {
            return Some(i);
        }
        i += 1;
    }
    None
}

} // verus!
