//! A storage adapter that keeps its records in memory.

use crate::keyed::{
    distinct_keys, entries_map, has_key, index_of_key, key_at, lemma_entry_in_map,
    lemma_push_entry, lemma_remove_entry, lemma_update_entry, position_of,
};
use crate::storage::adapter::{StorageAdapter, StorageError};
use crate::text::texts;
use vstd::prelude::*;
use vstd::slice::slice_to_vec;

verus! {

/// A store that lives as long as the value does. It never fails.
pub struct MemoryStorage {
    entries: Vec<(String, Vec<u8>)>,
}

impl MemoryStorage {
    #[verifier::type_invariant]
    spec fn well_formed(&self) -> bool {
        distinct_keys(self.entries@)
    }

    /// A store without records.
    pub fn new() -> (out: Self)
        ensures
            out.contents() == Map::<Seq<char>, Seq<u8>>::empty(),
    {
        let out = MemoryStorage { entries: Vec::new() };
        assert(out.contents() =~= Map::<Seq<char>, Seq<u8>>::empty()) by {
            assert forall|key: Seq<char>| !has_key(out.entries@, key) by {}
        }
        out
    }
}

impl StorageAdapter for MemoryStorage {
    open spec fn has_model(&self) -> bool {
        true
    }

    closed spec fn contents(&self) -> Map<Seq<char>, Seq<u8>> {
        entries_map(self.entries@)
    }

    fn store(&mut self, key: &str, data: &[u8]) -> (r: Result<(), StorageError>)
        ensures
            r is Ok,
    {
        proof {
            use_type_invariant(&*self);
        }
        let ghost before = self.entries@;
        let found = position_of(&self.entries, key);
        let entry = (key.to_string(), slice_to_vec(data));
        let mut entries: Vec<(String, Vec<u8>)> = Vec::new();
        core::mem::swap(&mut self.entries, &mut entries);
        match found {
            Some(i) => {
                entries.set(i, entry);
                proof {
                    lemma_update_entry(before, entries@, i as int);
                }
            },
            None => {
                entries.push(entry);
                proof {
                    lemma_push_entry(before, entry);
                }
            },
        }
        core::mem::swap(&mut self.entries, &mut entries);
        Ok(())
    }

    fn retrieve(&self, key: &str) -> (r: Result<Option<Vec<u8>>, StorageError>)
        ensures
            r is Ok,
    {
        proof {
            use_type_invariant(self);
        }
        match position_of(&self.entries, key) {
            Some(i) => {
                proof {
                    lemma_entry_in_map(self.entries@, i as int);
                }
                Ok(Some(slice_to_vec(self.entries[i].1.as_slice())))
            },
            None => Ok(None),
        }
    }

    fn remove(&mut self, key: &str) -> (r: Result<(), StorageError>)
        ensures
            r is Ok,
    {
        proof {
            use_type_invariant(&*self);
        }
        let ghost before = self.entries@;
        let found = position_of(&self.entries, key);
        let mut entries: Vec<(String, Vec<u8>)> = Vec::new();
        core::mem::swap(&mut self.entries, &mut entries);
        match found {
            Some(i) => {
                entries.remove(i);
                proof {
                    lemma_remove_entry(before, i as int);
                }
            },
            None => {
                assert(entries_map(before).remove(key@) =~= entries_map(before));
            },
        }
        core::mem::swap(&mut self.entries, &mut entries);
        Ok(())
    }

    fn clear(&mut self) -> (r: Result<(), StorageError>)
        ensures
            r is Ok,
    {
        let mut entries: Vec<(String, Vec<u8>)> = Vec::new();
        core::mem::swap(&mut self.entries, &mut entries);
        assert(self.contents() =~= Map::<Seq<char>, Seq<u8>>::empty()) by {
            assert forall|key: Seq<char>| !has_key(self.entries@, key) by {}
        }
        Ok(())
    }

    fn keys(&self) -> (r: Result<Vec<String>, StorageError>)
        ensures
            r is Ok,
    {
        let mut out: Vec<String> = Vec::new();
        let mut i: usize = 0;
        while i < self.entries.len()
            invariant
                0 <= i <= self.entries@.len(),
                out@.len() == i,
                forall|j: int| 0 <= j < i ==> (#[trigger] out@[j])@ == key_at(self.entries@, j),
            decreases self.entries@.len() - i,
        {
            out.push(self.entries[i].0.clone());
            i += 1;
        }
        proof {
            let names = texts(out@);
            assert forall|k: Seq<char>| self.contents().contains_key(k) <==> names.contains(
                k,
            ) by {
                if self.contents().contains_key(k) {
                    let j = index_of_key(self.entries@, k);
                    assert(out@[j]@ == k);
                    assert(names[j] == k);
                }
                if names.contains(k) {
                    let j = choose|j: int| 0 <= j < names.len() && names[j] == k;
                    assert(out@[j]@ == k);
                    assert(key_at(self.entries@, j) == k);
                }
            }
        }
        Ok(out)
    }
}

} // verus!
