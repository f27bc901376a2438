//! Matching lines and how they are reported.

use crate::paths::{display_path, path_text};
use std::path::PathBuf;
use vstd::prelude::*;
use vstd::string::*;

verus! {

/// One matching line: the file it was found in, its 1-based line number and
/// a copy of its text.
pub struct SearchResult {
    pub path: PathBuf,
    pub line_number: usize,
    pub line: String,
}

/// What a [`SearchResult`] stands for.
pub ghost struct MatchView {
    pub path: PathBuf,
    pub line_number: nat,
    pub line: Seq<char>,
}

impl View for SearchResult {
    type V = MatchView;

    open spec fn view(&self) -> MatchView {
        MatchView { path: self.path, line_number: self.line_number as nat, line: self.line@ }
    }
}

/// The views of a list of results, in the same order.
pub open spec fn match_views(results: Seq<SearchResult>) -> Seq<MatchView> {
    results.map_values(|r: SearchResult| r@)
}

/// The decimal digit that stands for `d`, for `d` below ten.
pub open spec fn digit_char(d: nat) -> char {
    if d == 0 {
        '0'
    } else if d == 1 {
        '1'
    } else if d == 2 {
        '2'
    } else if d == 3 {
        '3'
    } else if d == 4 {
        '4'
    } else if d == 5 {
        '5'
    } else if d == 6 {
        '6'
    } else if d == 7 {
        '7'
    } else if d == 8 {
        '8'
    } else {
        '9'
    }
}

/// The decimal numeral of `n`, without leading zeros.
pub open spec fn decimal_digits(n: nat) -> Seq<char>
    decreases n,
{
    if n < 10 {
        seq![digit_char(n)]
    } else {
        decimal_digits(n / 10).push(digit_char(n % 10))
    }
}

/// The report line of a match: `<path>[<line_number>]: <line text>`.
pub open spec fn report_line(path: Seq<char>, line_number: nat, line: Seq<char>) -> Seq<char> {
    path + seq!['['] + decimal_digits(line_number) + seq![']', ':', ' '] + line
}

/// The numeral of a single digit.
fn digit_str(digit: usize) -> (text: &'static str)
    requires
        digit < 10,
    ensures
        text@ == seq![digit_char(digit as nat)],
{
    proof {
        reveal_strlit("0");
        reveal_strlit("1");
        reveal_strlit("2");
        reveal_strlit("3");
        reveal_strlit("4");
        reveal_strlit("5");
        reveal_strlit("6");
        reveal_strlit("7");
        reveal_strlit("8");
        reveal_strlit("9");
    }
    let text = if digit == 0 {
        "0"
    } else if digit == 1 {
        "1"
    } else if digit == 2 {
        "2"
    } else if digit == 3 {
        "3"
    } else if digit == 4 {
        "4"
    } else if digit == 5 {
        "5"
    } else if digit == 6 {
        "6"
    } else if digit == 7 {
        "7"
    } else if digit == 8 {
        "8"
    } else {
        "9"
    };
    assert(text@ =~= seq![digit_char(digit as nat)]);
    text
}

/// Writes a number in decimal.
pub fn decimal_string(n: usize) -> (text: String)
    ensures
        text@ == decimal_digits(n as nat),
    decreases n,
{
    if n < 10 {
        String::from_str(digit_str(n))
    } else {
        let mut text = decimal_string(n / 10);
        text.append(digit_str(n % 10));
        assert(text@ =~= decimal_digits(n as nat));
        text
    }
}

/// Puts a report line together from the text of the path, the line number
/// and the text of the line.
pub fn format_match(path: &str, line_number: usize, line: &str) -> (text: String)
    ensures
        text@ == report_line(path@, line_number as nat, line@),
{
    let mut text = String::from_str(path);
    proof {
        reveal_strlit("[");
        reveal_strlit("]: ");
    }
    text.append("[");
    assert(text@ == path@ + seq!['[']);
    let number = decimal_string(line_number);
    text.append(number.as_str());
    text.append("]: ");
    assert("]: "@ == seq![']', ':', ' ']);
    text.append(line);
    text
}

impl SearchResult {
    /// The match of line `line_number` of the file at `path`, whose text
    /// is `line`.
    pub fn new(path: PathBuf, line_number: usize, line: String) -> (result: Self)
        ensures
            result.path == path,
            result.line_number == line_number,
            result.line == line,
    {
        Self { path, line_number, line }
    }

    /// The line that reports this match, ready to be printed.
    pub fn display(&self) -> (text: String)
        ensures
            text@ == report_line(path_text(self.path), self.line_number as nat, self.line@),
    {
        let shown = display_path(&self.path);
        format_match(shown.as_str(), self.line_number, self.line.as_str())
    }
}

} // verus!
