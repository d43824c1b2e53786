//! The parameters of a challenge: a mapping from names to values.
//!
//! vstd has no model of how a `String` hashes, so nothing can be proved of a
//! `HashMap` with `String` keys. The mapping is kept as a list of entries in
//! which each name occurs once.

use crate::keyed::{
    distinct_keys, entries_map, has_key, lemma_entry_in_map, lemma_push_entry, lemma_update_entry,
    position_of,
};
use vstd::prelude::*;

verus! {

/// A mapping from parameter names to values, in which each name occurs once.
pub struct ParamMap {
    entries: Vec<(String, String)>,
}

impl View for ParamMap {
    type V = Map<Seq<char>, Seq<char>>;

    closed spec fn view(&self) -> Map<Seq<char>, Seq<char>> {
        entries_map(self.entries@)
    }
}

impl ParamMap {
    #[verifier::type_invariant]
    spec fn well_formed(&self) -> bool {
        distinct_keys(self.entries@)
    }

    /// The mapping without any entry.
    pub fn new() -> (out: Self)
        ensures
            out@ == Map::<Seq<char>, Seq<char>>::empty(),
    {
        let out = ParamMap { entries: Vec::new() };
        assert(out@ =~= Map::<Seq<char>, Seq<char>>::empty()) by {
            assert forall|key: Seq<char>| !has_key(out.entries@, key) by {}
        }
        out
    }

    /// The value stored for `key`, if any.
    pub fn get(&self, key: &str) -> (r: Option<&String>)
        ensures
            match r {
                Some(value) => self@.contains_key(key@) && self@[key@] == value@,
                None => !self@.contains_key(key@),
            },
    {
        proof {
            use_type_invariant(self);
        }
        match position_of(&self.entries, key) {
            Some(i) => {
                proof {
                    lemma_entry_in_map(self.entries@, i as int);
                }
                Some(&self.entries[i].1)
            },
            None => None,
        }
    }

    /// Whether a value is stored for `key`.
    pub fn contains_key(&self, key: &str) -> (r: bool)
        ensures
            r == self@.contains_key(key@),
    {
        self.get(key).is_some()
    }

    /// Stores `value` for `key`, in place of any value stored for it before.
    pub fn insert(&mut self, key: String, value: String)
        ensures
            final(self)@ == old(self)@.insert(key@, value@),
    {
        proof {
            use_type_invariant(&*self);
        }
        let ghost before = self.entries@;
        let found = position_of(&self.entries, key.as_str());
        let mut entries: Vec<(String, String)> = Vec::new();
        core::mem::swap(&mut self.entries, &mut entries);
        match found {
            Some(i) => {
                entries.set(i, (key, value));
                proof {
                    lemma_update_entry(before, entries@, i as int);
                }
            },
            None => {
                entries.push((key, value));
                proof {
                    lemma_push_entry(before, (key, value));
                }
            },
        }
        core::mem::swap(&mut self.entries, &mut entries);
    }
}

} // verus!
