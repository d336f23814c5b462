//! What holds of the filter whatever the query and the text.

use super::casefold::{fold_case, lemma_fold_case_keeps_occurrence};
use super::lines::{lemma_lines_hold_no_break, split_lines};
use super::pattern::{has_substring, lemma_empty_occurs, lemma_substring_elements};
use super::{filter, line_matches, matching_lines};
use vstd::prelude::*;

verus! {

/// `places` names, in rising order, where in `whole` each element of `part`
/// stands.
pub open spec fn picks_in_order<A>(places: Seq<int>, part: Seq<A>, whole: Seq<A>) -> bool {
    &&& places.len() == part.len()
    &&& forall|i: int|
        0 <= i < places.len() ==> 0 <= #[trigger] places[i] < whole.len() && whole[places[i]]
            == part[i]
    &&& forall|i: int, j: int| 0 <= i < j < places.len() ==> places[i] < places[j]
}

/// `part` is what is left of `whole` when some of its elements are taken
/// out: the others stay in their order, and one that stands twice in `whole`
/// may stay twice.
pub open spec fn is_subsequence<A>(part: Seq<A>, whole: Seq<A>) -> bool {
    exists|places: Seq<int>| picks_in_order(places, part, whole)
}

/// The places, in rising order, of the lines among `lines` that `query`
/// selects.
pub open spec fn matching_places(lines: Seq<Seq<char>>, query: Seq<char>, ignore_case: bool) -> Seq<
    int,
>
    decreases lines.len(),
{
    if lines.len() == 0 {
        Seq::empty()
    } else {
        let before = matching_places(lines.drop_last(), query, ignore_case);
        if line_matches(lines.last(), query, ignore_case) {
            before.push(lines.len() - 1)
        } else {
            before
        }
    }
}

/// A filter that every element passes changes nothing.
proof fn lemma_filter_all<A>(s: Seq<A>, pred: spec_fn(A) -> bool)
    requires
        forall|i: int| 0 <= i < s.len() ==> pred(#[trigger] s[i]),
    ensures
        s.filter(pred) == s,
    decreases s.len(),
{
    reveal(Seq::filter);
    if s.len() > 0 {
        lemma_filter_all(s.drop_last(), pred);
        assert(s.drop_last().push(s.last()) =~= s);
    }
}

/// A filter that no element passes leaves nothing.
proof fn lemma_filter_none<A>(s: Seq<A>, pred: spec_fn(A) -> bool)
    requires
        forall|i: int| 0 <= i < s.len() ==> !pred(#[trigger] s[i]),
    ensures
        s.filter(pred) == Seq::<A>::empty(),
    decreases s.len(),
{
    reveal(Seq::filter);
    if s.len() > 0 {
        lemma_filter_none(s.drop_last(), pred);
    }
}

/// Where every element that passes `narrow` passes `wide`, filtering by
/// `narrow` is the same as filtering by `wide` first and by `narrow` then.
proof fn lemma_filter_twice<A>(s: Seq<A>, narrow: spec_fn(A) -> bool, wide: spec_fn(A) -> bool)
    requires
        forall|i: int| 0 <= i < s.len() && narrow(#[trigger] s[i]) ==> wide(s[i]),
    ensures
        s.filter(narrow) == s.filter(wide).filter(narrow),
    decreases s.len(),
{
    reveal(Seq::filter);
    if s.len() > 0 {
        let front = s.drop_last();
        lemma_filter_twice(front, narrow, wide);
        if wide(s.last()) {
            front.filter(wide).lemma_filter_push(s.last(), narrow);
        }
    }
}

/// The places at which `pred` holds in `s`, in rising order.
spec fn places_of<A>(s: Seq<A>, pred: spec_fn(A) -> bool) -> Seq<int>
    decreases s.len(),
{
    if s.len() == 0 {
        Seq::empty()
    } else {
        let before = places_of(s.drop_last(), pred);
        if pred(s.last()) {
            before.push(s.len() - 1)
        } else {
            before
        }
    }
}

/// A filter keeps the elements that pass it, each once for each place where
/// it stands, in their order.
proof fn lemma_filter_picks_in_order<A>(s: Seq<A>, pred: spec_fn(A) -> bool)
    ensures
        picks_in_order(places_of(s, pred), s.filter(pred), s),
        forall|i: int|
            0 <= i < places_of(s, pred).len() ==> pred(s[#[trigger] places_of(s, pred)[i]]),
        forall|k: int|
            0 <= k < s.len() && pred(#[trigger] s[k]) ==> places_of(s, pred).contains(k),
    decreases s.len(),
{
    reveal(Seq::filter);
    if s.len() > 0 {
        let front = s.drop_last();
        lemma_filter_picks_in_order(front, pred);
        let places = places_of(s, pred);
        let before = places_of(front, pred);
        assert forall|k: int| 0 <= k < s.len() && pred(#[trigger] s[k]) implies places.contains(
            k,
        ) by {
            if k < s.len() - 1 {
                assert(front[k] == s[k]);
                assert(before.contains(k));
                let i = choose|i: int| 0 <= i < before.len() && before[i] == k;
                assert(places[i] == k);
            } else {
                assert(places[places.len() - 1] == k);
            }
        }
        assert forall|i: int| 0 <= i < places.len() implies 0 <= #[trigger] places[i] < s.len()
            && s[places[i]] == s.filter(pred)[i] && pred(s[places[i]]) by {
            if i < before.len() {
                assert(places[i] == before[i]);
                assert(front[before[i]] == s[before[i]]);
            }
        }
    }
}

/// An empty query selects every line, with case or without.
pub proof fn law_empty_query_selects_every_line(contents: Seq<char>, ignore_case: bool)
    ensures
        matching_lines(Seq::empty(), contents, ignore_case) == split_lines(contents),
{
    let lines = split_lines(contents);
    let selects = |line: Seq<char>| line_matches(line, Seq::empty(), ignore_case);
    assert forall|i: int| 0 <= i < lines.len() implies selects(#[trigger] lines[i]) by {
        lemma_empty_occurs(lines[i]);
        lemma_empty_occurs(fold_case(lines[i]));
    }
    lemma_filter_all(lines, selects);
}

/// A line that a query selects with case, it selects without case too. So
/// what a search with case finds is what is left of the search without case
/// when the lines that fail with case are taken out. This holds of a query in
/// lower case, which is its own lower case, as of any other.
pub proof fn law_ignoring_case_loses_no_line(query: Seq<char>, contents: Seq<char>)
    ensures
        forall|i: int|
            0 <= i < split_lines(contents).len() && line_matches(
                #[trigger] split_lines(contents)[i],
                query,
                false,
            ) ==> line_matches(split_lines(contents)[i], query, true),
        matching_lines(query, contents, false) == matching_lines(query, contents, true).filter(
            |line: Seq<char>| line_matches(line, query, false),
        ),
        is_subsequence(
            matching_lines(query, contents, false),
            matching_lines(query, contents, true),
        ),
        fold_case(query) == query ==> is_subsequence(
            matching_lines(query, contents, false),
            matching_lines(fold_case(query), contents, true),
        ),
{
    let lines = split_lines(contents);
    let with_case = |line: Seq<char>| line_matches(line, query, false);
    let without_case = |line: Seq<char>| line_matches(line, query, true);
    assert forall|i: int| 0 <= i < lines.len() && with_case(#[trigger] lines[i]) implies without_case(
        lines[i],
    ) by {
        lemma_fold_case_keeps_occurrence(lines[i], query);
        lemma_lines_hold_no_break(contents, i);
        if query.contains('\n') {
            lemma_substring_elements(lines[i], query, '\n');
        }
    }
    lemma_filter_twice(lines, with_case, without_case);
    lemma_filter_picks_in_order(lines.filter(without_case), with_case);
}

/// Whoever calls the filter twice with the same arguments gets the same
/// lines in the same order.
pub proof fn law_same_arguments_same_lines(
    query: &str,
    contents: &str,
    ignore_case: bool,
    once: Vec<&str>,
    again: Vec<&str>,
)
    requires
        call_ensures(filter, (query, contents, ignore_case), once),
        call_ensures(filter, (query, contents, ignore_case), again),
    ensures
        once.deep_view() == again.deep_view(),
{
}

/// The lines found are the lines of the text that the query selects, each
/// once for each place where it stands, in the order of the text.
pub proof fn law_lines_found_keep_their_order(
    query: Seq<char>,
    contents: Seq<char>,
    ignore_case: bool,
)
    ensures
        picks_in_order(
            matching_places(split_lines(contents), query, ignore_case),
            matching_lines(query, contents, ignore_case),
            split_lines(contents),
        ),
        is_subsequence(matching_lines(query, contents, ignore_case), split_lines(contents)),
        forall|k: int|
            0 <= k < split_lines(contents).len() ==> (line_matches(
                #[trigger] split_lines(contents)[k],
                query,
                ignore_case,
            ) <==> matching_places(split_lines(contents), query, ignore_case).contains(k)),
{
    let lines = split_lines(contents);
    let selects = |line: Seq<char>| line_matches(line, query, ignore_case);
    lemma_matching_places(lines, query, ignore_case);
    lemma_filter_picks_in_order(lines, selects);
    let places = matching_places(lines, query, ignore_case);
    assert forall|k: int| 0 <= k < lines.len() && places.contains(k) implies line_matches(
        #[trigger] lines[k],
        query,
        ignore_case,
    ) by {
        let i = choose|i: int| 0 <= i < places.len() && places[i] == k;
        assert(selects(lines[places[i]]));
    }
}

/// `matching_places` names the places at which the query selects a line.
proof fn lemma_matching_places(lines: Seq<Seq<char>>, query: Seq<char>, ignore_case: bool)
    ensures
        matching_places(lines, query, ignore_case) == places_of(
            lines,
            |line: Seq<char>| line_matches(line, query, ignore_case),
        ),
    decreases lines.len(),
{
    if lines.len() > 0 {
        lemma_matching_places(lines.drop_last(), query, ignore_case);
    }
}

/// An empty text has no line to select, whatever the query.
pub proof fn law_empty_text_selects_nothing(query: Seq<char>, ignore_case: bool)
    ensures
        split_lines(Seq::empty()) == Seq::<Seq<char>>::empty(),
        matching_lines(query, Seq::empty(), ignore_case) == Seq::<Seq<char>>::empty(),
{
    reveal(Seq::filter);
}

/// A query that runs over a line break selects nothing, even where two
/// lines that follow each other would hold it between them.
pub proof fn law_query_over_line_break_selects_nothing(
    query: Seq<char>,
    contents: Seq<char>,
    ignore_case: bool,
)
    requires
        query.contains('\n'),
    ensures
        matching_lines(query, contents, ignore_case) == Seq::<Seq<char>>::empty(),
{
    let lines = split_lines(contents);
    let selects = |line: Seq<char>| line_matches(line, query, ignore_case);
    assert forall|i: int| 0 <= i < lines.len() implies !selects(#[trigger] lines[i]) by {
        lemma_lines_hold_no_break(contents, i);
        if has_substring(lines[i], query) {
            lemma_substring_elements(lines[i], query, '\n');
        }
    }
    lemma_filter_none(lines, selects);
}

} // verus!
