//! The two-tier matching policy: exact case-insensitive equality first,
//! case-insensitive substring containment as the fallback.

use vstd::prelude::*;

use crate::entry::Entry;
use crate::entry::EntryView;
use crate::text::chars_of;
use crate::text::contains_chars;
use crate::text::is_substring;
use crate::text::to_upper;
use crate::text::upper_of;

verus! {

/// The entry's acronym equals the query, ignoring case.
pub open spec fn is_exact_match(e: EntryView, query: Seq<char>) -> bool {
    upper_of(e.acronym) == upper_of(query)
}

/// The entry's acronym contains the query as a substring, ignoring case.
pub open spec fn is_partial_match(e: EntryView, query: Seq<char>) -> bool {
    is_substring(upper_of(query), upper_of(e.acronym))
}

/// The exact matches among `entries`, in their original order.
pub open spec fn exact_matches(entries: Seq<EntryView>, query: Seq<char>) -> Seq<EntryView> {
    entries.filter(|e: EntryView| is_exact_match(e, query))
}

/// The partial matches among `entries`, in their original order.
pub open spec fn partial_matches(entries: Seq<EntryView>, query: Seq<char>) -> Seq<EntryView> {
    entries.filter(|e: EntryView| is_partial_match(e, query))
}

/// What a query returns: every exact match if there is one,
/// otherwise every partial match.
pub open spec fn matches_of(entries: Seq<EntryView>, query: Seq<char>) -> Seq<EntryView> {
    if exact_matches(entries, query).len() > 0 {
        exact_matches(entries, query)
    } else {
        partial_matches(entries, query)
    }
}

proof fn lemma_exact_matches_push(s: Seq<EntryView>, query: Seq<char>, x: EntryView)
    ensures
        exact_matches(s.push(x), query) == (if is_exact_match(x, query) {
            exact_matches(s, query).push(x)
        } else {
            exact_matches(s, query)
        }),
{
    reveal(Seq::filter);
    assert(s.push(x).drop_last() =~= s);
}

proof fn lemma_partial_matches_push(s: Seq<EntryView>, query: Seq<char>, x: EntryView)
    ensures
        partial_matches(s.push(x), query) == (if is_partial_match(x, query) {
            partial_matches(s, query).push(x)
        } else {
            partial_matches(s, query)
        }),
{
    reveal(Seq::filter);
    assert(s.push(x).drop_last() =~= s);
}

/// `xs` can be read off `ys` left to right: it is `ys` with zero or more
/// elements left out.
pub open spec fn is_subsequence_of(xs: Seq<EntryView>, ys: Seq<EntryView>) -> bool
    decreases ys.len(),
{
    if xs.len() == 0 {
        true
    } else if ys.len() == 0 {
        false
    } else if xs.last() == ys.last() && is_subsequence_of(xs.drop_last(), ys.drop_last()) {
        true
    } else {
        is_subsequence_of(xs, ys.drop_last())
    }
}

proof fn lemma_filter_is_subsequence(s: Seq<EntryView>, pred: spec_fn(EntryView) -> bool)
    ensures
        is_subsequence_of(s.filter(pred), s),
    decreases s.len(),
{
    reveal(Seq::filter);
    if s.len() == 0 {
    } else {
        lemma_filter_is_subsequence(s.drop_last(), pred);
        if pred(s.last()) {
            assert(s.filter(pred).drop_last() =~= s.drop_last().filter(pred));
        }
    }
}

proof fn lemma_subsequence_contains(xs: Seq<EntryView>, ys: Seq<EntryView>)
    requires
        is_subsequence_of(xs, ys),
    ensures
        forall|i: int| 0 <= i < xs.len() ==> ys.contains(#[trigger] xs[i]),
    decreases ys.len(),
{
    if xs.len() == 0 {
    } else if xs.last() == ys.last() && is_subsequence_of(xs.drop_last(), ys.drop_last()) {
        lemma_subsequence_contains(xs.drop_last(), ys.drop_last());
        assert forall|i: int| 0 <= i < xs.len() implies ys.contains(#[trigger] xs[i]) by {
            if i < xs.len() - 1 {
                assert(xs.drop_last()[i] == xs[i]);
                let j = choose|j: int| 0 <= j < ys.drop_last().len() && ys.drop_last()[j] == xs[i];
                assert(ys[j] == xs[i]);
            } else {
                assert(ys[ys.len() - 1] == xs[i]);
            }
        }
    } else {
        lemma_subsequence_contains(xs, ys.drop_last());
        assert forall|i: int| 0 <= i < xs.len() implies ys.contains(#[trigger] xs[i]) by {
            let j = choose|j: int| 0 <= j < ys.drop_last().len() && ys.drop_last()[j] == xs[i];
            assert(ys[j] == xs[i]);
        }
    }
}

/// Law: for every entry collection and query, the match result is a
/// subset of the collection, preserving its order.
pub proof fn lemma_match_preserves_order(entries: Seq<EntryView>, query: Seq<char>)
    ensures
        is_subsequence_of(matches_of(entries, query), entries),
        forall|i: int|
            0 <= i < matches_of(entries, query).len() ==> entries.contains(
                #[trigger] matches_of(entries, query)[i],
            ),
{
    lemma_filter_is_subsequence(entries, |e: EntryView| is_exact_match(e, query));
    lemma_filter_is_subsequence(entries, |e: EntryView| is_partial_match(e, query));
    lemma_subsequence_contains(matches_of(entries, query), entries);
}

/// Law: when some entry matches the query exactly, the result is exactly
/// the exact matches — every one of them appears, nothing else does.
pub proof fn lemma_exact_match_wins(entries: Seq<EntryView>, query: Seq<char>)
    requires
        exists|i: int| 0 <= i < entries.len() && is_exact_match(#[trigger] entries[i], query),
    ensures
        matches_of(entries, query) == exact_matches(entries, query),
        forall|j: int|
            0 <= j < exact_matches(entries, query).len() ==> is_exact_match(
                #[trigger] exact_matches(entries, query)[j],
                query,
            ),
        forall|i: int|
            0 <= i < entries.len() && is_exact_match(#[trigger] entries[i], query)
                ==> exact_matches(entries, query).contains(entries[i]),
{
    broadcast use vstd::seq_lib::group_filter_ensures;

    let witness = choose|i: int|
        0 <= i < entries.len() && is_exact_match(#[trigger] entries[i], query);
    assert(exact_matches(entries, query).contains(entries[witness]));
}

/// Law: when no entry matches the query exactly, the result is exactly
/// the partial matches, which may be empty.
pub proof fn lemma_fallback_to_partial(entries: Seq<EntryView>, query: Seq<char>)
    requires
        forall|i: int| 0 <= i < entries.len() ==> !is_exact_match(#[trigger] entries[i], query),
    ensures
        matches_of(entries, query) == partial_matches(entries, query),
        forall|j: int|
            0 <= j < partial_matches(entries, query).len() ==> is_partial_match(
                #[trigger] partial_matches(entries, query)[j],
                query,
            ),
        forall|i: int|
            0 <= i < entries.len() && is_partial_match(#[trigger] entries[i], query)
                ==> partial_matches(entries, query).contains(entries[i]),
{
    broadcast use vstd::seq_lib::group_filter_ensures;

    let exact = exact_matches(entries, query);
    if exact.len() > 0 {
        lemma_filter_is_subsequence(entries, |e: EntryView| is_exact_match(e, query));
        lemma_subsequence_contains(exact, entries);
        assert(is_exact_match(exact[0], query));
        assert(entries.contains(exact[0]));
        let i = choose|i: int| 0 <= i < entries.len() && entries[i] == exact[0];
        assert(false);
    }
}

/// Law: matching is a function of the entries and the query alone, so
/// re-running it with the same inputs yields an identical result.
pub proof fn lemma_match_rerun_identical(
    entries: Seq<EntryView>,
    query: Seq<char>,
    first: Seq<EntryView>,
    second: Seq<EntryView>,
)
    requires
        first == matches_of(entries, query),
        second == matches_of(entries, query),
    ensures
        first == second,
{
}

/// All entries whose acronym equals `acro` ignoring case, in input order.
pub fn find_exact_match(entries: &Vec<Entry>, acro: &str) -> (matching: Vec<Entry>)
    ensures
        matching.deep_view() == exact_matches(entries.deep_view(), acro@),
{
    let ghost edv = entries.deep_view();
    let upper_query = to_upper(acro);
    let mut matching: Vec<Entry> = Vec::new();
    let n = entries.len();
    let mut i: usize = 0;
    while i < n
        invariant
            edv == entries.deep_view(),
            n == entries@.len(),
            i <= n,
            upper_query@ == upper_of(acro@),
            matching.deep_view() == exact_matches(edv.subrange(0, i as int), acro@),
        decreases n - i,
    {
        let e = &entries[i];
        let upper_acronym = to_upper(e.acronym.as_str());
        proof {
            assert(edv[i as int] == entries@[i as int].deep_view());
            assert(edv.subrange(0, i + 1) =~= edv.subrange(0, i as int).push(edv[i as int]));
            lemma_exact_matches_push(edv.subrange(0, i as int), acro@, edv[i as int]);
        }
        if upper_acronym == upper_query {
            let found = Entry { acronym: e.acronym.clone(), definition: e.definition.clone() };
            matching.push(found);
            assert(matching.deep_view() =~= exact_matches(edv.subrange(0, i + 1), acro@));
        }
        i = i + 1;
    }
    proof {
        assert(edv.subrange(0, n as int) =~= edv);
    }
    matching
}

/// All entries whose acronym contains `acro` ignoring case, in input order.
pub fn find_partial_match(entries: &Vec<Entry>, acro: &str) -> (matching: Vec<Entry>)
    ensures
        matching.deep_view() == partial_matches(entries.deep_view(), acro@),
{
    let ghost edv = entries.deep_view();
    let upper_query = to_upper(acro);
    let query_chars = chars_of(upper_query.as_str());
    let mut matching: Vec<Entry> = Vec::new();
    let n = entries.len();
    let mut i: usize = 0;
    while i < n
        invariant
            edv == entries.deep_view(),
            n == entries@.len(),
            i <= n,
            query_chars@ == upper_of(acro@),
            matching.deep_view() == partial_matches(edv.subrange(0, i as int), acro@),
        decreases n - i,
    {
        let e = &entries[i];
        let upper_acronym = to_upper(e.acronym.as_str());
        let acronym_chars = chars_of(upper_acronym.as_str());
        proof {
            assert(edv[i as int] == entries@[i as int].deep_view());
            assert(edv.subrange(0, i + 1) =~= edv.subrange(0, i as int).push(edv[i as int]));
            lemma_partial_matches_push(edv.subrange(0, i as int), acro@, edv[i as int]);
        }
        if contains_chars(&acronym_chars, &query_chars) {
            let found = Entry { acronym: e.acronym.clone(), definition: e.definition.clone() };
            matching.push(found);
            assert(matching.deep_view() =~= partial_matches(edv.subrange(0, i + 1), acro@));
        }
        i = i + 1;
    }
    proof {
        assert(edv.subrange(0, n as int) =~= edv);
    }
    matching
}

/// The matching pipeline: the exact matches when any exist,
/// the partial matches otherwise.
pub fn find_matching_entries(entries: &Vec<Entry>, acro: &str) -> (matching: Vec<Entry>)
    ensures
        matching.deep_view() == matches_of(entries.deep_view(), acro@),
{
    let matching = find_exact_match(entries, acro);
    if matching.is_empty() {
        assert(exact_matches(entries.deep_view(), acro@).len() == 0);
        return find_partial_match(entries, acro);
    }
    matching
}

} // verus!
