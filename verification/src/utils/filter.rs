//! Filtering of names by a search term.

use crate::text::{contains_text, has_infix, lowercase, texts, to_lowercase};
use vstd::prelude::*;

verus! {

/// Whether `item` passes the search: every item passes the empty search;
/// else the item must hold the search term, both taken in lower case.
pub open spec fn passes(item: Seq<char>, search: Seq<char>) -> bool {
    search.len() == 0 || has_infix(lowercase(item), lowercase(search))
}

/// The items that pass the search, in their order.
pub open spec fn filtered(items: Seq<Seq<char>>, search: Seq<char>) -> Seq<Seq<char>>
    decreases items.len(),
{
    if items.len() == 0 {
        Seq::empty()
    } else if passes(items.last(), search) {
        filtered(items.drop_last(), search).push(items.last())
    } else {
        filtered(items.drop_last(), search)
    }
}

/// The views of a sequence of borrowed strings.
pub open spec fn borrowed_texts(v: Seq<&String>) -> Seq<Seq<char>> {
    v.map_values(|s: &String| s@)
}

/// The items that hold `search`, whatever the case of letters; all items
/// for the empty search.
pub fn filter_strings<'a>(items: &'a [String], search: &str) -> (r: Vec<&'a String>)
    ensures
        borrowed_texts(r@) == filtered(texts(items@), search@),
{
    let ghost all = texts(items@);
    let mut out: Vec<&'a String> = Vec::new();
    let wanted = to_lowercase(search);
    let mut i: usize = 0;
    assert(all.take(0) =~= Seq::<Seq<char>>::empty());
    assert(borrowed_texts(out@) =~= Seq::<Seq<char>>::empty());
    while i < items.len()
        invariant
            0 <= i <= items@.len(),
            all == texts(items@),
            wanted@ == lowercase(search@),
            borrowed_texts(out@) == filtered(all.take(i as int), search@),
        decreases items@.len() - i,
    {
        proof {
            assert(all.take(i + 1).drop_last() =~= all.take(i as int));
            assert(all.take(i + 1).last() == items@[i as int]@);
        }
        let keep = if search.is_empty() {
            true
        } else {
            let lowered = to_lowercase(items[i].as_str());
            contains_text(lowered.as_str(), wanted.as_str())
        };
        if keep {
            let ghost before = out@;
            out.push(&items[i]);
            assert(borrowed_texts(out@) =~= borrowed_texts(before).push(items@[i as int]@));
        }
        i += 1;
    }
    assert(all.take(items@.len() as int) =~= all);
    out
}

/// The items that hold `search`, as strings of their own.
pub fn filter_strings_owned(items: &[String], search: &str) -> (r: Vec<String>)
    ensures
        texts(r@) == filtered(texts(items@), search@),
{
    let found = filter_strings(items, search);
    let mut out: Vec<String> = Vec::new();
    let mut i: usize = 0;
    while i < found.len()
        invariant
            0 <= i <= found@.len(),
            out@.len() == i,
            forall|j: int| 0 <= j < i ==> (#[trigger] out@[j])@ == found@[j]@,
        decreases found@.len() - i,
    {
        out.push(found[i].clone());
        i += 1;
    }
    assert(texts(out@) =~= borrowed_texts(found@));
    out
}

} // verus!
