use file_search::job::Job;
use file_search::result::{decimal_string, format_match, SearchResult};
use file_search::scan::scan_lines;
use std::path::PathBuf;

fn lines_of(text: &[&str]) -> Vec<String> {
    text.iter().map(|line| line.to_string()).collect()
}

fn triples(found: &[SearchResult]) -> Vec<(PathBuf, usize, String)> {
    found
        .iter()
        .map(|m| (m.path.clone(), m.line_number, m.line.clone()))
        .collect()
}

#[test]
fn job_keeps_its_path() {
    let job = Job::new(PathBuf::from("root/a.txt"));
    assert_eq!(job.into_inner(), PathBuf::from("root/a.txt"));
}

#[test]
fn job_keeps_an_empty_path() {
    let job = Job::new(PathBuf::new());
    assert_eq!(job.into_inner(), PathBuf::new());
}

#[test]
fn search_result_new_keeps_fields() {
    let m = SearchResult::new(PathBuf::from("dir/file"), 7, "some text".to_string());
    assert_eq!(m.path, PathBuf::from("dir/file"));
    assert_eq!(m.line_number, 7);
    assert_eq!(m.line, "some text");
}

#[test]
fn display_gives_path_number_and_line() {
    let m = SearchResult::new(PathBuf::from("root/a.txt"), 1, "foo".to_string());
    assert_eq!(m.display(), "root/a.txt[1]: foo");
}

#[test]
fn display_writes_the_number_in_decimal() {
    let m = SearchResult::new(PathBuf::from("x"), 1205, "a: b".to_string());
    assert_eq!(m.display(), "x[1205]: a: b");
    let zero = SearchResult::new(PathBuf::from("x"), 0, String::new());
    assert_eq!(zero.display(), "x[0]: ");
}

#[test]
fn format_match_joins_the_parts() {
    assert_eq!(format_match("p", 10, "line"), "p[10]: line");
    assert_eq!(format_match("", 9, ""), "[9]: ");
    assert_eq!(
        format_match("a/b", usize::MAX, "t"),
        format!("a/b[{}]: t", usize::MAX)
    );
}

#[test]
fn scan_finds_matching_lines_with_numbers_from_one() {
    let path = PathBuf::from("root/a.txt");
    let found = scan_lines(&path, &lines_of(&["foo", "bar"]), &"foo".to_string());
    assert_eq!(triples(&found), vec![(path, 1, "foo".to_string())]);
}

#[test]
fn scan_finds_term_inside_a_line() {
    let path = PathBuf::from("root/sub/b.txt");
    let found = scan_lines(&path, &lines_of(&["foobar"]), &"foo".to_string());
    assert_eq!(triples(&found), vec![(path, 1, "foobar".to_string())]);
}

#[test]
fn scan_keeps_line_order() {
    let path = PathBuf::from("f");
    let found = scan_lines(
        &path,
        &lines_of(&["x", "a foo", "y", "foo b", "", "ofo", "xfoox"]),
        &"foo".to_string(),
    );
    assert_eq!(
        triples(&found),
        vec![
            (path.clone(), 2, "a foo".to_string()),
            (path.clone(), 4, "foo b".to_string()),
            (path.clone(), 7, "xfoox".to_string()),
        ]
    );
}

#[test]
fn scan_of_no_lines_finds_nothing() {
    let found = scan_lines(&PathBuf::from("f"), &Vec::new(), &"foo".to_string());
    assert!(found.is_empty());
}

#[test]
fn scan_without_a_match_finds_nothing() {
    let found = scan_lines(
        &PathBuf::from("f"),
        &lines_of(&["bar", "fo", "oof", "f o o"]),
        &"foo".to_string(),
    );
    assert!(found.is_empty());
}

#[test]
fn scan_is_case_sensitive() {
    let found = scan_lines(
        &PathBuf::from("f"),
        &lines_of(&["Foo", "FOO", "foo"]),
        &"foo".to_string(),
    );
    assert_eq!(triples(&found), vec![(PathBuf::from("f"), 3, "foo".to_string())]);
}

#[test]
fn empty_term_matches_every_line() {
    let path = PathBuf::from("f");
    let found = scan_lines(&path, &lines_of(&["a", "", "b"]), &String::new());
    assert_eq!(
        triples(&found),
        vec![
            (path.clone(), 1, "a".to_string()),
            (path.clone(), 2, String::new()),
            (path.clone(), 3, "b".to_string()),
        ]
    );
}

#[test]
fn scan_matches_beyond_ascii() {
    let path = PathBuf::from("f");
    let found = scan_lines(
        &path,
        &lines_of(&["grüße", "gruesse", "ßen"]),
        &"üß".to_string(),
    );
    assert_eq!(triples(&found), vec![(path, 1, "grüße".to_string())]);
}

#[test]
fn term_longer_than_line_does_not_match() {
    let found = scan_lines(
        &PathBuf::from("f"),
        &lines_of(&["fo", "f"]),
        &"foo".to_string(),
    );
    assert!(found.is_empty());
}

#[test]
fn decimal_string_writes_numbers_without_leading_zeros() {
    assert_eq!(decimal_string(0), "0");
    assert_eq!(decimal_string(7), "7");
    assert_eq!(decimal_string(10), "10");
    assert_eq!(decimal_string(109), "109");
    assert_eq!(decimal_string(1234567890), "1234567890");
    assert_eq!(decimal_string(usize::MAX), usize::MAX.to_string());
}
