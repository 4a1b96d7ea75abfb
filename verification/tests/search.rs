use sidecar_edit::range::{Position, Range};
use sidecar_edit::search::{get_last_newline_line_number, get_range_for_search_block};

fn lines(start: usize, end: usize) -> Range {
    Range::new(Position::new(start, 0, 0), Position::new(end, 0, 0))
}

#[test]
fn range_of_first_occurrence() {
    let code = "a\nb\nc\nb\nc";
    assert_eq!(get_range_for_search_block(code, 0, "b\nc"), Some(lines(1, 2)));
}

#[test]
fn range_counts_from_start_line() {
    let code = "a\nb\nc";
    assert_eq!(get_range_for_search_block(code, 10, "c"), Some(lines(12, 12)));
}

#[test]
fn range_of_missing_block_is_none() {
    assert_eq!(get_range_for_search_block("a\nb", 0, "x"), None);
}

#[test]
fn range_of_block_longer_than_code_is_none() {
    assert_eq!(get_range_for_search_block("a", 0, "a\nb"), None);
}

#[test]
fn range_ignores_carriage_returns_and_final_newline() {
    let code = "x\r\ny\r\nz\n";
    assert_eq!(get_range_for_search_block(code, 0, "y\nz\n"), Some(lines(1, 2)));
}

#[test]
fn range_matches_whole_lines_only() {
    assert_eq!(get_range_for_search_block("abc\nd", 0, "b"), None);
}

#[test]
fn last_newline_line_number_counts_newlines() {
    assert_eq!(get_last_newline_line_number(""), None);
    assert_eq!(get_last_newline_line_number("no newline"), None);
    assert_eq!(get_last_newline_line_number("a\nb"), Some(1));
    assert_eq!(get_last_newline_line_number("a\nb\n"), Some(2));
    assert_eq!(get_last_newline_line_number("\n\n\nx"), Some(3));
}
