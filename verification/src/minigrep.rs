//! A line filter: the lines of a text that hold a query, in the order in
//! which they stand in the text.
//!
//! The filter cuts the text into its lines and keeps those that the query
//! selects. A line is selected when the query occurs in it, either character
//! for character or, where case is ignored, after both have been put in
//! lower case.

pub mod casefold;
pub mod laws;
pub mod lines;
pub mod pattern;

use self::casefold::{fold_case, to_lowercase};
use self::lines::{lines, split_lines};
use self::pattern::{contains, has_substring};
use vstd::prelude::*;

verus! {

/// What to search for, where, and how.
pub struct Config {
    pub query: String,
    pub file_path: String,
    pub ignore_case: bool,
}

impl Config {
    /// Reads a configuration off the arguments of a command line: the
    /// program's name, the query, the path of the file to search. What
    /// follows them is ignored. `ignore_case` tells how to compare.
    ///
    /// Fails where the query or the path is missing.
    pub fn build(args: &[String], ignore_case: bool) -> (built: Result<Config, &'static str>)
        ensures
            built is Err <==> args@.len() < 3,
            built matches Err(message) ==> message@ == "not enough arguments"@,
            built matches Ok(config) ==> {
                &&& config.query@ == args@[1]@
                &&& config.file_path@ == args@[2]@
                &&& config.ignore_case == ignore_case
            },
    {
        if args.len() < 3 {
            return Err("not enough arguments");
        }
        let query = args[1].clone();
        let file_path = args[2].clone();
        Ok(Config { query, file_path, ignore_case })
    }
}

/// Whether `query` selects `line`.
///
/// With case, `query` has to occur in `line` as it stands. Without, the lower
/// case of `query` has to occur in the lower case of `line`, and `query` may
/// hold no line feed: a query that runs over a line break fits in no line.
pub open spec fn line_matches(line: Seq<char>, query: Seq<char>, ignore_case: bool) -> bool {
    if ignore_case {
        !query.contains('\n') && has_substring(fold_case(line), fold_case(query))
    } else {
        has_substring(line, query)
    }
}

/// The lines of `contents` that `query` selects, in the order of `contents`.
pub open spec fn matching_lines(
    query: Seq<char>,
    contents: Seq<char>,
    ignore_case: bool,
) -> Seq<Seq<char>> {
    split_lines(contents).filter(|line: Seq<char>| line_matches(line, query, ignore_case))
}

/// The lines of `contents` in which `query` occurs, in order. Each is a slice
/// of `contents`.
pub fn search<'a>(query: &str, contents: &'a str) -> (results: Vec<&'a str>)
    ensures
        results.deep_view() == matching_lines(query@, contents@, false),
{
    let all = lines(contents);
    let mut results: Vec<&'a str> = Vec::new();
    let ghost selects = |line: Seq<char>| line_matches(line, query@, false);
    proof {
        assert(all.deep_view().take(0) =~= Seq::<Seq<char>>::empty());
        assert(results.deep_view() =~= Seq::<Seq<char>>::empty());
        reveal(Seq::filter);
    }
    for i in 0..all.len()
        invariant
            all.deep_view() == split_lines(contents@),
            selects == |line: Seq<char>| line_matches(line, query@, false),
            results.deep_view() == all.deep_view().take(i as int).filter(selects),
    {
        let line = all[i];
        let ghost before = results.deep_view();
        proof {
            assert(all.deep_view().take(i + 1) =~= all.deep_view().take(i as int).push(line@));
            all.deep_view().take(i as int).lemma_filter_push(line@, selects);
        }
        if contains(line, query) {
            results.push(line);
            proof {
                assert(results.deep_view() =~= before.push(line@));
            }
        }
    }
    proof {
        assert(all.deep_view().take(all.len() as int) =~= all.deep_view());
    }
    results
}

/// The lines of `contents` in which `query` occurs when case is ignored, in
/// order. Each is a slice of `contents`.
pub fn search_case_insensitive<'a>(query: &str, contents: &'a str) -> (results: Vec<&'a str>)
    ensures
        results.deep_view() == matching_lines(query@, contents@, true),
{
    let all = lines(contents);
    let mut results: Vec<&'a str> = Vec::new();
    let folded_query = to_lowercase(query);
    let one_line = !contains(query, "\n");
    let ghost selects = |line: Seq<char>| line_matches(line, query@, true);
    proof {
        reveal_strlit("\n");
        assert("\n"@ =~= seq!['\n']);
        lemma_single_occurs(query@, '\n');
        assert(all.deep_view().take(0) =~= Seq::<Seq<char>>::empty());
        assert(results.deep_view() =~= Seq::<Seq<char>>::empty());
        reveal(Seq::filter);
    }
    for i in 0..all.len()
        invariant
            all.deep_view() == split_lines(contents@),
            one_line == !query@.contains('\n'),
            folded_query@ == fold_case(query@),
            selects == |line: Seq<char>| line_matches(line, query@, true),
            results.deep_view() == all.deep_view().take(i as int).filter(selects),
    {
        let line = all[i];
        let ghost before = results.deep_view();
        proof {
            assert(all.deep_view().take(i + 1) =~= all.deep_view().take(i as int).push(line@));
            all.deep_view().take(i as int).lemma_filter_push(line@, selects);
        }
        if one_line && contains(to_lowercase(line).as_str(), folded_query.as_str()) {
            results.push(line);
            proof {
                assert(results.deep_view() =~= before.push(line@));
            }
        }
    }
    proof {
        assert(all.deep_view().take(all.len() as int) =~= all.deep_view());
    }
    results
}

/// The lines of `contents` that `query` selects, in order: with case, or
/// without where `ignore_case` is set.
pub fn filter<'a>(query: &str, contents: &'a str, ignore_case: bool) -> (results: Vec<&'a str>)
    ensures
        results.deep_view() == matching_lines(query@, contents@, ignore_case),
{
    if ignore_case {
        search_case_insensitive(query, contents)
    } else {
        search(query, contents)
    }
}

/// A text holds the one-character text of `c` exactly when it holds `c`.
proof fn lemma_single_occurs(text: Seq<char>, c: char)
    ensures
        has_substring(text, seq![c]) <==> text.contains(c),
{
    if has_substring(text, seq![c]) {
        let at = choose|at: int| pattern::occurs_at(text, seq![c], at);
        assert(text.subrange(at, at + 1)[0] == text[at]);
    }
    if text.contains(c) {
        let i = choose|i: int| 0 <= i < text.len() && text[i] == c;
        assert(text.subrange(i, i + 1) =~= seq![c]);
        assert(pattern::occurs_at(text, seq![c], i));
    }
}

} // verus!
