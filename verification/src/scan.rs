//! Scanning the lines of one file for the search term.

use crate::paths::clone_path;
use crate::result::{match_views, MatchView, SearchResult};
use std::path::PathBuf;
use vstd::prelude::*;

verus! {

/// `term` stands in `line` from position `at` on.
pub open spec fn occurs_at(line: Seq<char>, term: Seq<char>, at: int) -> bool {
    &&& 0 <= at
    &&& at + term.len() <= line.len()
    &&& line.subrange(at, at + term.len()) == term
}

/// `term` occurs somewhere in `line`. The empty term occurs in every line.
pub open spec fn contains_term(line: Seq<char>, term: Seq<char>) -> bool {
    exists|at: int| occurs_at(line, term, at)
}

/// The texts of a list of lines, in the same order.
pub open spec fn line_views(lines: Seq<String>) -> Seq<Seq<char>> {
    lines.map_values(|line: String| line@)
}

/// The matches of a file, as a scan from its first line to its last finds
/// them: one for each line that contains the term, numbered from 1.
pub open spec fn matches_in(path: PathBuf, lines: Seq<Seq<char>>, term: Seq<char>) -> Seq<MatchView>
    decreases lines.len(),
{
    if lines.len() == 0 {
        Seq::empty()
    } else {
        let before = matches_in(path, lines.drop_last(), term);
        if contains_term(lines.last(), term) {
            before.push(MatchView { path, line_number: lines.len(), line: lines.last() })
        } else {
            before
        }
    }
}

/// `str::contains` with a string as the pattern: whether the pattern occurs
/// in the line as a run of consecutive characters.
#[verifier::external_body]
pub(crate) fn line_contains(line: &String, term: &String) -> (found: bool)
    ensures
        found == contains_term(line@, term@),
{
    line.contains(term.as_str())
}

/// Scans the lines of the file at `path` for `term` and returns one match
/// for every line that contains it, in line order.
pub fn scan_lines(path: &PathBuf, lines: &Vec<String>, term: &String) -> (found: Vec<SearchResult>)
    ensures
        match_views(found@) == matches_in(*path, line_views(lines@), term@),
{
    let mut found: Vec<SearchResult> = Vec::new();
    let mut index: usize = 0;
    let ghost texts = line_views(lines@);
    assert(texts.take(0) =~= Seq::<Seq<char>>::empty());
    assert(match_views(found@) =~= Seq::<MatchView>::empty());
    while index < lines.len()
        invariant
            index <= lines.len(),
            texts == line_views(lines@),
            match_views(found@) == matches_in(*path, texts.take(index as int), term@),
        decreases lines.len() - index,
    {
        let line = &lines[index];
        let ghost seen = texts.take(index + 1);
        assert(seen.drop_last() =~= texts.take(index as int));
        assert(seen.last() == line@);
        if line_contains(line, term) {
            let ghost earlier = found@;
            found.push(SearchResult::new(clone_path(path), index + 1, line.clone()));
            assert(match_views(found@) =~= match_views(earlier).push(found@.last()@));
        }
        index += 1;
    }
    assert(texts.take(index as int) =~= texts);
    found
}

/// A match names a line of the file that contains the term, and carries
/// that line's number, its text and the file's path.
pub open spec fn is_match_of(
    found: MatchView,
    path: PathBuf,
    lines: Seq<Seq<char>>,
    term: Seq<char>,
) -> bool {
    &&& found.path == path
    &&& 1 <= found.line_number <= lines.len()
    &&& found.line == lines[found.line_number - 1]
    &&& contains_term(found.line, term)
}

/// Matches come out in line order: each is a match of the file, and their
/// line numbers rise strictly.
pub proof fn lemma_matches_in_line_order(path: PathBuf, lines: Seq<Seq<char>>, term: Seq<char>)
    ensures
        forall|i: int|
            0 <= i < matches_in(path, lines, term).len() ==> is_match_of(
                #[trigger] matches_in(path, lines, term)[i],
                path,
                lines,
                term,
            ),
        forall|i: int, j: int|
            0 <= i < j < matches_in(path, lines, term).len() ==> (#[trigger] matches_in(
                path,
                lines,
                term,
            )[i]).line_number < (#[trigger] matches_in(path, lines, term)[j]).line_number,
    decreases lines.len(),
{
    if lines.len() > 0 {
        let all = matches_in(path, lines, term);
        let shorter = lines.drop_last();
        let before = matches_in(path, shorter, term);
        lemma_matches_in_line_order(path, shorter, term);
        assert forall|i: int| 0 <= i < all.len() implies is_match_of(
            #[trigger] all[i],
            path,
            lines,
            term,
        ) by {
            if i < before.len() {
                assert(is_match_of(before[i], path, shorter, term));
                assert(shorter[before[i].line_number - 1] == lines[before[i].line_number - 1]);
            }
        }
        assert forall|i: int, j: int| 0 <= i < j < all.len() implies (#[trigger] all[i]).line_number
            < (#[trigger] all[j]).line_number by {
            assert(is_match_of(before[i], path, shorter, term));
            if j < before.len() {
                assert(before[i].line_number < before[j].line_number);
            }
        }
    }
}

/// No matching line is left out: every line that contains the term has a
/// match that carries its number.
pub proof fn lemma_matches_in_complete(
    path: PathBuf,
    lines: Seq<Seq<char>>,
    term: Seq<char>,
    number: int,
)
    requires
        1 <= number <= lines.len(),
        contains_term(lines[number - 1], term),
    ensures
        matches_in(path, lines, term).contains(
            MatchView { path, line_number: number as nat, line: lines[number - 1] },
        ),
    decreases lines.len(),
{
    let all = matches_in(path, lines, term);
    if number == lines.len() {
        assert(all.last() == MatchView { path, line_number: number as nat, line: lines[number - 1] });
        assert(all[all.len() - 1] == all.last());
    } else {
        lemma_matches_in_complete(path, lines.drop_last(), term, number);
        let before = matches_in(path, lines.drop_last(), term);
        let wanted = MatchView { path, line_number: number as nat, line: lines[number - 1] };
        let at = choose|at: int| 0 <= at < before.len() && before[at] == wanted;
        assert(all[at] == wanted);
    }
}

} // verus!
