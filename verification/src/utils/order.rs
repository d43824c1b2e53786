//! The order of texts, and stable sorting by a text key.

use vstd::prelude::*;

verus! {

/// Whether `a` comes before `b`, or is `b`, in the order of strings:
/// character by character, by code point; a text comes after its prefixes.
pub open spec fn text_le(a: Seq<char>, b: Seq<char>) -> bool
    decreases a.len(),
{
    if a.len() == 0 {
        true
    } else if b.len() == 0 {
        false
    } else if (a[0] as u32) < (b[0] as u32) {
        true
    } else if (b[0] as u32) < (a[0] as u32) {
        false
    } else {
        text_le(a.drop_first(), b.drop_first())
    }
}

/// Of two texts, one comes before the other or is it.
pub proof fn lemma_text_le_total(a: Seq<char>, b: Seq<char>)
    ensures
        text_le(a, b) || text_le(b, a),
    decreases a.len(),
{
    if a.len() > 0 && b.len() > 0 && (a[0] as u32) == (b[0] as u32) {
        lemma_text_le_total(a.drop_first(), b.drop_first());
    }
}

/// The order of texts is transitive.
pub proof fn lemma_text_le_transitive(a: Seq<char>, b: Seq<char>, c: Seq<char>)
    requires
        text_le(a, b),
        text_le(b, c),
    ensures
        text_le(a, c),
    decreases a.len(),
{
    if a.len() > 0 && b.len() > 0 && c.len() > 0 && (a[0] as u32) == (b[0] as u32) && (b[0] as u32)
        == (c[0] as u32) {
        lemma_text_le_transitive(a.drop_first(), b.drop_first(), c.drop_first());
    }
}

/// Whether the item at index `x` stands before the item at index `y` once
/// the items are sorted by their keys and items with equal keys keep their
/// order.
pub open spec fn ranked(keys: Seq<Seq<char>>, x: int, y: int) -> bool {
    text_le(keys[x], keys[y]) && (text_le(keys[y], keys[x]) ==> x < y)
}

/// Whether `order` lists the indices of `keys` sorted by key, with the
/// indices of equal keys in rising order.
pub open spec fn stably_sorted(order: Seq<int>, keys: Seq<Seq<char>>) -> bool {
    &&& order.len() == keys.len()
    &&& forall|a: int| 0 <= a < order.len() ==> 0 <= #[trigger] order[a] < keys.len()
    &&& forall|a: int, b: int|
        0 <= a < b < order.len() ==> ranked(keys, #[trigger] order[a], #[trigger] order[b])
}

/// Whether each key comes before the next or is it.
pub open spec fn in_order(keys: Seq<Seq<char>>) -> bool {
    forall|i: int| 0 <= i < keys.len() - 1 ==> text_le(#[trigger] keys[i], keys[i + 1])
}

/// The views of a sequence of character vectors.
pub open spec fn char_views(v: Seq<Vec<char>>) -> Seq<Seq<char>> {
    v.map_values(|k: Vec<char>| k@)
}

/// The indices as mathematical integers.
pub open spec fn indices(v: Seq<usize>) -> Seq<int> {
    v.map_values(|i: usize| i as int)
}

/// Whether `a` comes before `b` or is it.
pub fn chars_le(a: &Vec<char>, b: &Vec<char>) -> (r: bool)
    ensures
        r == text_le(a@, b@),
{
    let mut i: usize = 0;
    assert(a@.skip(0) =~= a@);
    assert(b@.skip(0) =~= b@);
    while i < a.len() && i < b.len()
        invariant
            0 <= i <= a@.len(),
            i <= b@.len(),
            text_le(a@, b@) == text_le(a@.skip(i as int), b@.skip(i as int)),
        decreases a@.len() - i,
    {
        let ghost x = a@.skip(i as int);
        let ghost y = b@.skip(i as int);
        assert(x[0] == a@[i as int] && y[0] == b@[i as int]);
        if (a[i] as u32) < (b[i] as u32) {
            return true;
        }
        if (b[i] as u32) < (a[i] as u32) {
            return false;
        }
        assert(x.drop_first() =~= a@.skip(i + 1));
        assert(y.drop_first() =~= b@.skip(i + 1));
        i += 1;
    }
    i >= a.len()
}

/// The indices of `keys`, sorted by key; indices of equal keys keep their
/// order.
pub fn stable_order(keys: &Vec<Vec<char>>) -> (order: Vec<usize>)
    ensures
        stably_sorted(indices(order@), char_views(keys@)),
{
    let ghost views = char_views(keys@);
    let mut order: Vec<usize> = Vec::new();
    let mut i: usize = 0;
    while i < keys.len()
        invariant
            0 <= i <= keys@.len(),
            views == char_views(keys@),
            order@.len() == i,
            forall|a: int| 0 <= a < order@.len() ==> 0 <= #[trigger] order@[a] < i,
            forall|a: int, b: int|
                0 <= a < b < order@.len() ==> ranked(
                    views,
                    #[trigger] order@[a] as int,
                    #[trigger] order@[b] as int,
                ),
        decreases keys@.len() - i,
    {
        let mut p: usize = order.len();
        while p > 0 && !chars_le(&keys[order[p - 1]], &keys[i])
            invariant
                0 <= p <= order@.len(),
                order@.len() == i,
                i < keys@.len(),
                views == char_views(keys@),
                forall|a: int| 0 <= a < order@.len() ==> 0 <= #[trigger] order@[a] < i,
                forall|b: int|
                    p <= b < order@.len() ==> !text_le(
                        views[#[trigger] order@[b] as int],
                        views[i as int],
                    ),
            decreases p,
        {
            p -= 1;
        }
        let ghost before = order@;
        order.insert(p, i);
        proof {
            let after = order@;
            assert forall|a: int| 0 <= a < after.len() implies 0 <= #[trigger] after[a] < i + 1 by {
                if a < p {
                    assert(after[a] == before[a]);
                } else if a > p {
                    assert(after[a] == before[a - 1]);
                }
            }
            assert forall|a: int, b: int| 0 <= a < b < after.len() implies ranked(
                views,
                #[trigger] after[a] as int,
                #[trigger] after[b] as int,
            ) by {
                if b < p {
                    assert(after[a] == before[a] && after[b] == before[b]);
                } else if a > p {
                    assert(after[a] == before[a - 1] && after[b] == before[b - 1]);
                } else if a < p && b > p {
                    assert(after[a] == before[a] && after[b] == before[b - 1]);
                } else if b == p {
                    // an earlier item against the new one
                    assert(after[a] == before[a]);
                    assert(before[a] < i);
                    assert(text_le(views[before[p - 1] as int], views[i as int]));
                    if a < p - 1 {
                        assert(ranked(views, before[a] as int, before[p - 1] as int));
                        lemma_text_le_transitive(
                            views[before[a] as int],
                            views[before[p - 1] as int],
                            views[i as int],
                        );
                    }
                } else {
                    // the new item against a later one
                    assert(a == p);
                    assert(after[b] == before[b - 1]);
                    assert(!text_le(views[before[b - 1] as int], views[i as int]));
                    lemma_text_le_total(views[i as int], views[before[b - 1] as int]);
                }
            }
        }
        i += 1;
    }
    proof {
        let got = indices(order@);
        assert forall|a: int| 0 <= a < got.len() implies 0 <= #[trigger] got[a] < views.len() by {
            assert(got[a] == order@[a]);
        }
        assert forall|a: int, b: int| 0 <= a < b < got.len() implies ranked(
            views,
            #[trigger] got[a],
            #[trigger] got[b],
        ) by {
            assert(got[a] == order@[a] && got[b] == order@[b]);
        }
    }
    order
}

/// Whether each of `keys` comes before the next or is it.
pub fn keys_in_order(keys: &Vec<Vec<char>>) -> (r: bool)
    ensures
        r == in_order(char_views(keys@)),
{
    let ghost views = char_views(keys@);
    if keys.len() < 2 {
        return true;
    }
    let mut i: usize = 0;
    while i < keys.len() - 1
        invariant
            0 <= i <= keys@.len() - 1,
            views == char_views(keys@),
            forall|j: int| 0 <= j < i ==> text_le(#[trigger] views[j], views[j + 1]),
        decreases keys@.len() - i,
    {
        if !chars_le(&keys[i], &keys[i + 1]) {
            assert(!text_le(views[i as int], views[i + 1]));
            return false;
        }
        i += 1;
    }
    true
}

} // verus!
