//! Sorting of build history by time.

use crate::models::manifest::HistoryEntry;
use crate::text::chars_of;
use crate::utils::order::{
    char_views, in_order, indices, keys_in_order, stable_order, stably_sorted,
};
use vstd::prelude::*;

verus! {

/// The time that an entry is sorted by: the time it was created at, or the
/// empty text where it names none.
pub open spec fn time_of(entry: HistoryEntry) -> Seq<char> {
    match entry.created {
        Some(created) => created@,
        None => Seq::empty(),
    }
}

/// The times of a sequence of entries.
pub open spec fn times_of(history: Seq<HistoryEntry>) -> Seq<Seq<char>> {
    Seq::new(history.len(), |i: int| time_of(history[i]))
}

/// Whether two entries hold the same.
pub open spec fn same_entry(a: HistoryEntry, b: HistoryEntry) -> bool {
    &&& crate::text::opt_text(a.created) == crate::text::opt_text(b.created)
    &&& crate::text::opt_text(a.created_by) == crate::text::opt_text(b.created_by)
    &&& a.empty_layer == b.empty_layer
}

/// Whether `sorted` holds the entries of `history` sorted by time, with
/// entries of equal time in the order they had.
pub open spec fn history_sorted_from(sorted: Seq<HistoryEntry>, history: Seq<HistoryEntry>) -> bool {
    exists|order: Seq<int>| #[trigger]
        stably_sorted(order, times_of(history)) && sorted.len() == order.len() && forall|i: int|
            0 <= i < order.len() ==> same_entry(#[trigger] sorted[i], history[order[i]])
}

/// The times of the entries, as characters.
fn times(history: &[HistoryEntry]) -> (keys: Vec<Vec<char>>)
    ensures
        char_views(keys@) == times_of(history@),
{
    let mut keys: Vec<Vec<char>> = Vec::new();
    let mut i: usize = 0;
    while i < history.len()
        invariant
            0 <= i <= history@.len(),
            keys@.len() == i,
            forall|j: int| 0 <= j < i ==> (#[trigger] keys@[j])@ == time_of(history@[j]),
        decreases history@.len() - i,
    {
        let key = match &history[i].created {
            Some(created) => chars_of(created.as_str()),
            None => Vec::new(),
        };
        assert(key@ =~= time_of(history@[i as int]));
        keys.push(key);
        i += 1;
    }
    assert(char_views(keys@) =~= times_of(history@));
    keys
}

/// A copy of a text that may be absent.
fn copy_text(text: &Option<String>) -> (out: Option<String>)
    ensures
        crate::text::opt_text(out) == crate::text::opt_text(*text),
{
    match text {
        Some(s) => Some(s.clone()),
        None => None,
    }
}

/// The entries sorted by time, oldest first; entries of equal time keep
/// their order.
pub fn sorted_history_chronologically(history: &[HistoryEntry]) -> (sorted: Vec<HistoryEntry>)
    ensures
        history_sorted_from(sorted@, history@),
{
    let keys = times(history);
    let order = stable_order(&keys);
    proof {
        assert forall|a: int| 0 <= a < order@.len() implies 0 <= #[trigger] order@[a]
            < history@.len() by {
            assert(indices(order@)[a] == order@[a]);
        }
    }
    let mut sorted: Vec<HistoryEntry> = Vec::new();
    let mut i: usize = 0;
    while i < order.len()
        invariant
            0 <= i <= order@.len(),
            order@.len() == history@.len(),
            forall|a: int| 0 <= a < order@.len() ==> 0 <= #[trigger] order@[a] < history@.len(),
            sorted@.len() == i,
            forall|j: int|
                0 <= j < i ==> same_entry(#[trigger] sorted@[j], history@[order@[j] as int]),
        decreases order@.len() - i,
    {
        let entry = &history[order[i]];
        sorted.push(
            HistoryEntry {
                created: copy_text(&entry.created),
                created_by: copy_text(&entry.created_by),
                empty_layer: entry.empty_layer,
            },
        );
        i += 1;
    }
    proof {
        let listed = indices(order@);
        assert forall|a: int| 0 <= a < order@.len() implies 0 <= #[trigger] order@[a]
            < history@.len() by {
            assert(listed[a] == order@[a]);
        }
        assert forall|i: int| 0 <= i < listed.len() implies same_entry(
            #[trigger] sorted@[i],
            history@[listed[i]],
        ) by {
            assert(listed[i] == order@[i]);
        }
        assert(stably_sorted(listed, times_of(history@)));
    }
    sorted
}

/// Sorts the entries by time, oldest first; entries of equal time keep
/// their order.
pub fn sort_history_chronologically(history: &mut Vec<HistoryEntry>)
    ensures
        history_sorted_from(final(history)@, old(history)@),
{
    let sorted = sorted_history_chronologically(history.as_slice());
    *history = sorted;
}

/// Whether each entry is as old as the next or older.
pub fn is_history_sorted_chronologically(history: &[HistoryEntry]) -> (r: bool)
    ensures
        r == in_order(times_of(history@)),
{
    let keys = times(history);
    keys_in_order(&keys)
}

} // verus!
