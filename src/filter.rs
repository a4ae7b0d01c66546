//! Fuzzy filtering and ranking of the catalog against the filter text.
use vstd::prelude::*;
use fuzzy_matcher::FuzzyMatcher;
use fuzzy_matcher::skim::SkimMatcherV2;
use crate::entry::LauncherEntry;
use crate::sort::{SortKey, stable_sort, in_order};

verus! {

/// The skim fuzzy score of `pattern` against `choice`; `None` when the
/// characters of `pattern` cannot be matched in `choice`.
pub uninterp spec fn skim_score(choice: Seq<char>, pattern: Seq<char>) -> Option<i64>;

/// Relies on `fuzzy_matcher::skim::SkimMatcherV2::default().fuzzy_match`:
/// the score of `pattern` against `choice`, a function of the two texts alone.
#[verifier::external_body]
fn fuzzy_score(choice: &String, pattern: &Vec<char>) -> (r: Option<i64>)
    ensures
        r == skim_score(choice@, pattern@),
{
    let pattern: String = pattern.iter().collect();
    SkimMatcherV2::default().fuzzy_match(choice, &pattern)
}

/// Entry `i` of `entries` matches `term`.
pub open spec fn matches(entries: Seq<LauncherEntry>, term: Seq<char>, i: int) -> bool {
    skim_score(entries[i].label@, term) is Some
}

/// The score of entry `i` against `term`, where it matches.
pub open spec fn score_of(entries: Seq<LauncherEntry>, term: Seq<char>, i: int) -> int {
    skim_score(entries[i].label@, term)->0 as int
}

/// Entry `i` ranks before entry `j`: a higher score, or an equal score and an
/// earlier place in the catalog.
pub open spec fn ranks_before(entries: Seq<LauncherEntry>, term: Seq<char>, i: int, j: int) -> bool {
    score_of(entries, term, i) > score_of(entries, term, j)
        || (score_of(entries, term, i) == score_of(entries, term, j) && i < j)
}

/// The positions of the whole catalog, in catalog order.
pub open spec fn identity_view(n: nat) -> Seq<usize> {
    Seq::new(n, |i: int| i as usize)
}

/// `view` is the filtered view of `entries` for `term`: the whole catalog in
/// order when `term` is empty; otherwise each matching entry exactly once,
/// no other entry, by descending score with ties in catalog order.
pub open spec fn is_filtered_view(entries: Seq<LauncherEntry>, term: Seq<char>, view: Seq<usize>) -> bool {
    if term.len() == 0 {
        view == identity_view(entries.len())
    } else {
        &&& view.no_duplicates()
        &&& forall|k: int| 0 <= k < view.len() ==> (#[trigger] view[k]) < entries.len()
            && matches(entries, term, view[k] as int)
        &&& forall|i: int| 0 <= i < entries.len() && matches(entries, term, i) ==> view.contains(i as usize)
        &&& forall|k: int| 0 <= k < view.len() - 1 ==> ranks_before(entries, term, #[trigger] view[k] as int, view[k + 1] as int)
    }
}

/// The filtered view of `entries` for `term`, as positions into `entries`.
pub fn filter_entries(entries: &Vec<LauncherEntry>, term: &Vec<char>) -> (r: Vec<usize>)
    ensures
        is_filtered_view(entries@, term@, r@),
{
    let mut r: Vec<usize> = Vec::new();
    if term.len() == 0 {
        let mut i: usize = 0;
        while i < entries.len()
            invariant
                i <= entries@.len(),
                r@ == identity_view(i as nat),
            decreases entries@.len() - i,
        {
            r.push(i);
            i = i + 1;
            assert(r@ =~= identity_view(i as nat));
        }
        return r;
    }
    let mut matched: Vec<usize> = Vec::new();
    let mut keys: Vec<SortKey> = Vec::new();
    let mut i: usize = 0;
    while i < entries.len()
        invariant
            i <= entries@.len(),
            term@.len() > 0,
            keys@.len() == i,
            forall|j: int| 0 <= j < i ==> (#[trigger] keys@[j]).text@.len() == 0
                && (matches(entries@, term@, j) ==> keys@[j].rank == -score_of(entries@, term@, j)),
            forall|p: int| 0 <= p < matched@.len() ==> (#[trigger] matched@[p]) < i
                && matches(entries@, term@, matched@[p] as int),
            forall|p: int, q: int| 0 <= p < q < matched@.len() ==> matched@[p] < matched@[q],
            forall|j: int| 0 <= j < i && matches(entries@, term@, j) ==> matched@.contains(j as usize),
        decreases entries@.len() - i,
    {
        let ghost prev = matched@;
        match fuzzy_score(&entries[i].label, term) {
            Some(score) => {
                matched.push(i);
                keys.push(SortKey { rank: -(score as i128), text: Vec::new() });
            },
            None => {
                keys.push(SortKey { rank: 0, text: Vec::new() });
            },
        }
        i = i + 1;
        proof {
            assert forall|j: int| 0 <= j < i && matches(entries@, term@, j) implies matched@.contains(j as usize) by {
                if j == i - 1 {
                    assert(matched@[matched@.len() - 1] == j as usize);
                } else {
                    assert(prev.contains(j as usize));
                    let p = choose|p: int| 0 <= p < prev.len() && prev[p] == j as usize;
                    assert(matched@[p] == j as usize);
                }
            }
        }
    }
    let r = stable_sort(&matched, &keys);
    proof {
        assert forall|k: int| 0 <= k < r@.len() implies (#[trigger] r@[k]) < entries@.len()
            && matches(entries@, term@, r@[k] as int) by {
            assert(matched@.contains(r@[k]));
        }
        assert forall|t: int| 0 <= t < r@.len() - 1 implies ranks_before(
            entries@,
            term@,
            #[trigger] r@[t] as int,
            r@[t + 1] as int,
        ) by {
            let a = r@[t] as int;
            let b = r@[t + 1] as int;
            assert(in_order(keys@, a, b));
            assert(matched@.contains(r@[t]) && matched@.contains(r@[t + 1]));
            assert(keys@[a].text@.len() == 0 && keys@[b].text@.len() == 0);
            assert(!crate::text::lex_lt(keys@[a].text@, keys@[b].text@));
        }
        assert forall|j: int| 0 <= j < entries@.len() && matches(entries@, term@, j) implies r@.contains(j as usize) by {
            assert(matched@.contains(j as usize));
            let p = choose|p: int| 0 <= p < matched@.len() && matched@[p] == j as usize;
            assert(r@.contains(matched@[p]));
        }
    }
    r
}

/// With a non-empty filter text, every row of the filtered view is an entry
/// that the text matches, and no entry that it fails to match appears.
pub proof fn lemma_filtered_rows_match(entries: Seq<LauncherEntry>, term: Seq<char>, view: Seq<usize>)
    requires
        entries.len() <= usize::MAX,
        term.len() > 0,
        is_filtered_view(entries, term, view),
    ensures
        forall|k: int| 0 <= k < view.len() ==> matches(entries, term, #[trigger] view[k] as int),
        forall|i: int| 0 <= i < entries.len() && !matches(entries, term, i) ==> !view.contains(i as usize),
{
    assert forall|i: int| 0 <= i < entries.len() && !matches(entries, term, i) implies !view.contains(i as usize) by {
        if view.contains(i as usize) {
            let k = choose|k: int| 0 <= k < view.len() && view[k] == i as usize;
            assert(matches(entries, term, view[k] as int));
        }
    }
}

/// With an empty filter text the filtered view is the whole catalog, in
/// catalog order.
pub proof fn lemma_empty_filter_is_catalog(entries: Seq<LauncherEntry>, term: Seq<char>, view: Seq<usize>)
    requires
        entries.len() <= usize::MAX,
        term.len() == 0,
        is_filtered_view(entries, term, view),
    ensures
        view.len() == entries.len(),
        forall|k: int| 0 <= k < view.len() ==> #[trigger] view[k] == k,
{
    assert forall|k: int| 0 <= k < view.len() implies #[trigger] view[k] == k by {
        assert(view[k] == identity_view(entries.len())[k]);
    }
}

} // verus!
