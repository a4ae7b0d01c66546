//! A stable insertion sort of positions by a two-part key: an integer rank,
//! then a text compared lexicographically.
use vstd::prelude::*;
use crate::text::{lex_less, lex_lt, lemma_lex_total};

verus! {

/// A sort key: items are ordered by `rank`, then by `text`.
pub struct SortKey {
    pub rank: i128,
    pub text: Vec<char>,
}

/// Key `a` orders strictly before key `b`.
pub open spec fn key_lt(a: &SortKey, b: &SortKey) -> bool {
    a.rank < b.rank || (a.rank == b.rank && lex_lt(a.text@, b.text@))
}

/// Two keys are equal.
pub open spec fn key_eq(a: &SortKey, b: &SortKey) -> bool {
    a.rank == b.rank && a.text@ == b.text@
}

/// Position `i` comes before position `j` in a stable sort by `keys`.
pub open spec fn in_order(keys: Seq<SortKey>, i: int, j: int) -> bool {
    key_lt(&keys[i], &keys[j]) || (key_eq(&keys[i], &keys[j]) && i < j)
}

/// `order` lists each item of `items` once and nothing else, each
/// neighbouring pair in order by `keys`.
pub open spec fn stably_sorted(keys: Seq<SortKey>, items: Seq<usize>, order: Seq<usize>) -> bool {
    &&& order.len() == items.len()
    &&& order.no_duplicates()
    &&& forall|p: int| 0 <= p < items.len() ==> order.contains(#[trigger] items[p])
    &&& forall|k: int| 0 <= k < order.len() ==> items.contains(#[trigger] order[k])
    &&& forall|k: int| 0 <= k < order.len() ==> (#[trigger] order[k]) < keys.len()
    &&& forall|k: int| 0 <= k < order.len() - 1 ==> in_order(keys, #[trigger] order[k] as int, order[k + 1] as int)
}

/// `items` is strictly increasing and indexes `keys`.
pub open spec fn increasing_below(items: Seq<usize>, n: nat) -> bool {
    &&& forall|p: int, q: int| 0 <= p < q < items.len() ==> items[p] < items[q]
    &&& forall|p: int| 0 <= p < items.len() ==> (#[trigger] items[p]) < n
}

fn key_less(a: &SortKey, b: &SortKey) -> (r: bool)
    ensures
        r == key_lt(a, b),
{
    a.rank < b.rank || (a.rank == b.rank && lex_less(&a.text, &b.text))
}

proof fn lemma_insert_order(keys: Seq<SortKey>, item: usize, before: Seq<usize>, p: int)
    requires
        0 <= p <= before.len(),
        forall|k: int| 0 <= k < before.len() - 1 ==> in_order(keys, #[trigger] before[k] as int, before[k + 1] as int),
        p > 0 ==> in_order(keys, before[p - 1] as int, item as int),
        p < before.len() ==> key_lt(&keys[item as int], &keys[before[p] as int]),
    ensures
        forall|k: int| 0 <= k < before.len() ==> in_order(keys, #[trigger] before.insert(p, item)[k] as int, before.insert(p, item)[k + 1] as int),
{
    let after = before.insert(p, item);
    assert forall|k: int| 0 <= k < after.len() - 1 implies in_order(
        keys,
        #[trigger] after[k] as int,
        after[k + 1] as int,
    ) by {
        if k + 1 < p {
            assert(after[k] == before[k] && after[k + 1] == before[k + 1]);
        } else if k + 1 == p {
        } else if k == p {
        } else {
            assert(after[k] == before[k - 1] && after[k + 1] == before[k]);
        }
    }
}

proof fn lemma_insert_distinct(before: Seq<usize>, p: int, item: usize)
    requires
        0 <= p <= before.len(),
        before.no_duplicates(),
        forall|k: int| 0 <= k < before.len() ==> #[trigger] before[k] < item,
    ensures
        before.insert(p, item).no_duplicates(),
{
    let after = before.insert(p, item);
    assert forall|i: int, j: int| 0 <= i < after.len() && 0 <= j < after.len() && i != j
        implies after[i] != after[j] by {
        if i != p && j != p {
            let bi = if i < p { i } else { i - 1 };
            let bj = if j < p { j } else { j - 1 };
            assert(after[i] == before[bi] && after[j] == before[bj]);
        } else if i == p {
            let bj = if j < p { j } else { j - 1 };
            assert(after[j] == before[bj]);
        } else {
            let bi = if i < p { i } else { i - 1 };
            assert(after[i] == before[bi]);
        }
    }
}

proof fn lemma_insert_members(items: Seq<usize>, before: Seq<usize>, p: int, n: int)
    requires
        0 <= n < items.len(),
        before.len() == n,
        0 <= p <= n,
        forall|p: int, q: int| 0 <= p < q < items.len() ==> items[p] < items[q],
        forall|j: int| 0 <= j < n ==> before.contains(#[trigger] items[j]),
        forall|k: int| 0 <= k < before.len() ==> items.contains(#[trigger] before[k]),
        forall|k: int, j: int| 0 <= k < before.len() && n <= j < items.len() ==> #[trigger] before[k] < #[trigger] items[j],
    ensures
        ({
            let after = before.insert(p, items[n]);
            &&& forall|j: int| 0 <= j < n + 1 ==> after.contains(#[trigger] items[j])
            &&& forall|k: int| 0 <= k < after.len() ==> items.contains(#[trigger] after[k])
            &&& forall|k: int, j: int| 0 <= k < after.len() && n + 1 <= j < items.len() ==> #[trigger] after[k] < #[trigger] items[j]
        }),
{
    let after = before.insert(p, items[n]);
    assert forall|j: int| 0 <= j < n + 1 implies after.contains(#[trigger] items[j]) by {
        if j < n {
            assert(before.contains(items[j]));
            let q = choose|q: int| 0 <= q < before.len() && before[q] == items[j];
            if q < p {
                assert(after[q] == items[j]);
            } else {
                assert(after[q + 1] == items[j]);
            }
        } else {
            assert(after[p] == items[j]);
        }
    }
    assert forall|k: int| 0 <= k < after.len() implies items.contains(#[trigger] after[k]) by {
        if k < p {
            assert(after[k] == before[k]);
        } else if k > p {
            assert(after[k] == before[k - 1]);
        } else {
            assert(items[n] == after[k]);
        }
    }
    assert forall|k: int, j: int| 0 <= k < after.len() && n + 1 <= j < items.len() implies #[trigger] after[k] < #[trigger] items[j] by {
        if k < p {
            assert(after[k] == before[k]);
        } else if k > p {
            assert(after[k] == before[k - 1]);
        } else {
            assert(items[n] < items[j]);
        }
    }
}

/// The items, sorted by their keys; items with equal keys keep their order.
pub fn stable_sort(items: &Vec<usize>, keys: &Vec<SortKey>) -> (r: Vec<usize>)
    requires
        increasing_below(items@, keys@.len()),
    ensures
        stably_sorted(keys@, items@, r@),
{
    let mut order: Vec<usize> = Vec::new();
    let mut n: usize = 0;
    while n < items.len()
        invariant
            n <= items@.len(),
            increasing_below(items@, keys@.len()),
            order@.len() == n,
            order@.no_duplicates(),
            forall|j: int| 0 <= j < n ==> order@.contains(#[trigger] items@[j]),
            forall|k: int| 0 <= k < order@.len() ==> items@.contains(#[trigger] order@[k]),
            forall|k: int, j: int| 0 <= k < order@.len() && n <= j < items@.len() ==> #[trigger] order@[k] < #[trigger] items@[j],
            forall|k: int| 0 <= k < order@.len() - 1 ==> in_order(keys@, #[trigger] order@[k] as int, order@[k + 1] as int),
        decreases items@.len() - n,
    {
        let item = items[n];
        let mut p: usize = order.len();
        while p > 0 && key_less(&keys[item], &keys[order[p - 1]])
            invariant
                p <= order@.len(),
                order@.len() == n,
                n < items@.len(),
                item == items@[n as int],
                increasing_below(items@, keys@.len()),
                forall|k: int, j: int| 0 <= k < order@.len() && n <= j < items@.len() ==> #[trigger] order@[k] < #[trigger] items@[j],
                p < order@.len() ==> key_lt(&keys@[item as int], &keys@[order@[p as int] as int]),
            decreases p,
        {
            p = p - 1;
        }
        proof {
            if p > 0 {
                let prev = order@[p - 1] as int;
                assert(order@[p - 1] < items@[n as int]);
                lemma_lex_total(keys@[prev].text@, keys@[item as int].text@);
                assert(in_order(keys@, prev, item as int));
            }
        }
        let ghost before = order@;
        order.insert(p, item);
        proof {
            lemma_insert_order(keys@, item, before, p as int);
            assert forall|k: int| 0 <= k < before.len() implies #[trigger] before[k] < item by {
                assert(before[k] < items@[n as int]);
            }
            lemma_insert_distinct(before, p as int, item);
            lemma_insert_members(items@, before, p as int, n as int);
        }
        n = n + 1;
    }
    proof {
        assert forall|k: int| 0 <= k < order@.len() implies (#[trigger] order@[k]) < keys@.len() by {
            assert(items@.contains(order@[k]));
        }
    }
    order
}

} // verus!
