//! Sorting of names, whatever the case of their letters.

use crate::text::{chars_of, lowercase, texts, to_lowercase};
use crate::utils::order::{
    char_views, in_order, indices, keys_in_order, stable_order, stably_sorted,
};
use vstd::prelude::*;

verus! {

/// The keys that names are sorted by: the names in lower case.
pub open spec fn lowercase_keys(items: Seq<Seq<char>>) -> Seq<Seq<char>> {
    Seq::new(items.len(), |i: int| lowercase(items[i]))
}

/// The items at the indices that `order` lists.
pub open spec fn arranged(items: Seq<Seq<char>>, order: Seq<int>) -> Seq<Seq<char>> {
    Seq::new(order.len(), |i: int| items[order[i]])
}

/// Whether `sorted` holds the items of `items` sorted by their lower-case
/// form, with items of equal form in the order they had.
pub open spec fn sorted_from(sorted: Seq<Seq<char>>, items: Seq<Seq<char>>) -> bool {
    exists|order: Seq<int>| #[trigger]
        stably_sorted(order, lowercase_keys(items)) && sorted == arranged(items, order)
}

/// The names in lower case, as characters.
fn keys_of(items: &[String]) -> (keys: Vec<Vec<char>>)
    ensures
        char_views(keys@) == lowercase_keys(texts(items@)),
{
    let mut keys: Vec<Vec<char>> = Vec::new();
    let mut i: usize = 0;
    while i < items.len()
        invariant
            0 <= i <= items@.len(),
            keys@.len() == i,
            forall|j: int| 0 <= j < i ==> (#[trigger] keys@[j])@ == lowercase(items@[j]@),
        decreases items@.len() - i,
    {
        let lowered = to_lowercase(items[i].as_str());
        keys.push(chars_of(lowered.as_str()));
        i += 1;
    }
    assert(char_views(keys@) =~= lowercase_keys(texts(items@)));
    keys
}

/// The names sorted by their lower-case form; names of equal form keep
/// their order.
pub fn sorted_alphabetically(items: &[String]) -> (sorted: Vec<String>)
    ensures
        sorted_from(texts(sorted@), texts(items@)),
{
    let keys = keys_of(items);
    let order = stable_order(&keys);
    proof {
        assert forall|a: int| 0 <= a < order@.len() implies 0 <= #[trigger] order@[a]
            < items@.len() by {
            assert(indices(order@)[a] == order@[a]);
        }
    }
    let mut sorted: Vec<String> = Vec::new();
    let mut i: usize = 0;
    while i < order.len()
        invariant
            0 <= i <= order@.len(),
            order@.len() == items@.len(),
            forall|a: int| 0 <= a < order@.len() ==> 0 <= #[trigger] order@[a] < items@.len(),
            sorted@.len() == i,
            forall|j: int| 0 <= j < i ==> (#[trigger] sorted@[j])@ == items@[order@[j] as int]@,
        decreases order@.len() - i,
    {
        assert(indices(order@)[i as int] == order@[i as int]);
        sorted.push(items[order[i]].clone());
        i += 1;
    }
    proof {
        assert forall|a: int| 0 <= a < order@.len() implies 0 <= #[trigger] order@[a]
            < items@.len() by {
            assert(indices(order@)[a] == order@[a]);
        }
        assert(texts(sorted@) =~= arranged(texts(items@), indices(order@)));
        assert(stably_sorted(indices(order@), lowercase_keys(texts(items@))));
    }
    sorted
}

/// Sorts the names by their lower-case form; names of equal form keep their
/// order.
pub fn sort_alphabetically(items: &mut Vec<String>)
    ensures
        sorted_from(texts(final(items)@), texts(old(items)@)),
{
    let sorted = sorted_alphabetically(items.as_slice());
    *items = sorted;
}

/// Whether each name comes before the next or equals it, by their
/// lower-case forms.
pub fn is_sorted_alphabetically(items: &[String]) -> (r: bool)
    ensures
        r == in_order(lowercase_keys(texts(items@))),
{
    let keys = keys_of(items);
    keys_in_order(&keys)
}

} // verus!
