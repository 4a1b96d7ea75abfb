use sidecar_edit::accumulator::{EditDelta, SearchAndReplaceAccumulator};
use sidecar_edit::range::{Position, Range};
use tokio::sync::mpsc::UnboundedReceiver;

fn lines(start: usize, end: usize) -> Range {
    Range::new(Position::new(start, 0, 0), Position::new(end, 0, 0))
}

#[derive(Debug, PartialEq)]
enum Event {
    Started(Range),
    Delta(Range, String),
    End(Range),
}

fn drain(receiver: &mut UnboundedReceiver<EditDelta>) -> Vec<Event> {
    let mut events = Vec::new();
    while let Ok(delta) = receiver.try_recv() {
        events.push(match delta {
            EditDelta::EditStarted(r) => Event::Started(r),
            EditDelta::EditDelta((r, s)) => Event::Delta(r, s),
            EditDelta::EditEnd(r) => Event::End(r),
        });
    }
    events
}

fn run(code: &str, start_line: usize, pieces: &[&str]) -> (String, Vec<Event>) {
    let (sender, mut receiver) = tokio::sync::mpsc::unbounded_channel();
    let mut accumulator = SearchAndReplaceAccumulator::new(code.to_owned(), start_line, sender);
    for piece in pieces {
        assert!(accumulator.delta_fits(piece));
        accumulator.add_delta((*piece).to_owned());
    }
    (accumulator.code(), drain(&mut receiver))
}

const CODE: &str = "fn a() {}\nfn b() {}\nfn c() {}";

const ANSWER: &str = "Here is the edit:\n```\n<<<<<<< SEARCH\nfn b() {}\n=======\nfn b() {\n    1\n}\n>>>>>>> REPLACE\n```\n";

#[test]
fn block_replaces_the_search_lines_and_streams_the_edit() {
    let (code, events) = run(CODE, 0, &[ANSWER]);
    assert_eq!(code, "fn a() {}\nfn b() {\n    1\n}\nfn c() {}");
    assert_eq!(
        events,
        vec![
            Event::Started(lines(1, 1)),
            Event::Delta(lines(1, 1), "fn b() {".to_owned()),
            Event::Delta(lines(1, 1), "\n    1".to_owned()),
            Event::Delta(lines(1, 1), "\n}".to_owned()),
            Event::End(lines(1, 1)),
        ]
    );
}

#[test]
fn feeding_in_pieces_gives_the_same_edit() {
    let whole = run(CODE, 0, &[ANSWER]);
    let pieces: Vec<String> = ANSWER.chars().map(|c| c.to_string()).collect();
    let piece_refs: Vec<&str> = pieces.iter().map(|s| s.as_str()).collect();
    let one_by_one = run(CODE, 0, &piece_refs);
    assert_eq!(whole, one_by_one);
    let split = run(CODE, 0, &[&ANSWER[..30], &ANSWER[30..31], &ANSWER[31..]]);
    assert_eq!(whole, split);
}

#[test]
fn incomplete_last_line_is_not_read() {
    let (code, events) = run(CODE, 0, &["<<<<<<< SEARCH\nfn b() {}\n======="]);
    assert_eq!(code, CODE);
    assert!(events.is_empty());
}

#[test]
fn text_outside_blocks_changes_nothing() {
    let (code, events) = run(CODE, 0, &["fn b() {}\n=======\n>>>>>>> REPLACE\nsome words\n"]);
    assert_eq!(code, CODE);
    assert!(events.is_empty());
}

#[test]
fn block_that_matches_nothing_changes_nothing() {
    let answer = "<<<<<<< SEARCH\nfn z() {}\n=======\nfn y() {}\n>>>>>>> REPLACE\n";
    let (code, events) = run(CODE, 0, &[answer]);
    assert_eq!(code, CODE);
    assert!(events.is_empty());
}

#[test]
fn every_match_is_replaced() {
    let code = "x\na\nx";
    let answer = "<<<<<<< SEARCH\nx\n=======\ny\n>>>>>>> REPLACE\n";
    let (code, events) = run(code, 0, &[answer]);
    assert_eq!(code, "y\na\ny");
    assert_eq!(
        events,
        vec![
            Event::Started(lines(0, 0)),
            Event::Delta(lines(0, 0), "y".to_owned()),
            Event::End(lines(0, 0)),
        ]
    );
}

#[test]
fn matches_are_taken_from_the_start_without_overlap() {
    let answer = "<<<<<<< SEARCH\nx\nx\n=======\ny\n>>>>>>> REPLACE\n";
    let (code, _events) = run("x\nx\nx", 0, &[answer]);
    assert_eq!(code, "y\nx");
}

#[test]
fn second_divider_closes_the_block() {
    let answer = "<<<<<<< SEARCH\nfn c() {}\n=======\nfn d() {}\n=======\n";
    let (code, events) = run(CODE, 0, &[answer]);
    assert_eq!(code, "fn a() {}\nfn b() {}\nfn d() {}");
    assert_eq!(events.last(), Some(&Event::End(lines(2, 2))));
}

#[test]
fn empty_replacement_deletes_the_search_lines() {
    let answer = "<<<<<<< SEARCH\nfn b() {}\n=======\n>>>>>>> REPLACE\n";
    let (code, events) = run(CODE, 0, &[answer]);
    assert_eq!(code, "fn a() {}\nfn c() {}");
    assert_eq!(events, vec![Event::Started(lines(1, 1)), Event::End(lines(1, 1))]);
    let (code, _events) = run("a\nb\nc", 0, &[answer.replace("fn b() {}", "b").as_str()]);
    assert_eq!(code, "a\nc");
}

#[test]
fn empty_replacement_deletes_a_trailing_blank_search_line_too() {
    let answer = "<<<<<<< SEARCH\nb\n\n=======\n>>>>>>> REPLACE\n";
    let (code, events) = run("a\nb\n\nc", 0, &[answer]);
    assert_eq!(code, "a\nc");
    assert_eq!(events, vec![Event::Started(lines(1, 2)), Event::End(lines(1, 2))]);
}

#[test]
fn edit_ranges_count_from_start_line() {
    let (code, events) = run(CODE, 7, &[ANSWER]);
    assert_eq!(code, "fn a() {}\nfn b() {\n    1\n}\nfn c() {}");
    assert_eq!(events[0], Event::Started(lines(8, 8)));
}

#[test]
fn two_blocks_apply_one_after_the_other() {
    let answer = "<<<<<<< SEARCH\nfn a() {}\n=======\nfn a2() {}\n>>>>>>> REPLACE\n\n<<<<<<< SEARCH\nfn c() {}\n=======\nfn c2() {}\n>>>>>>> REPLACE\n";
    let (code, events) = run(CODE, 0, &[answer]);
    assert_eq!(code, "fn a2() {}\nfn b() {}\nfn c2() {}");
    assert_eq!(events.len(), 6);
}

#[test]
fn a_blank_search_line_matches_blank_lines() {
    let answer = "<<<<<<< SEARCH\n\n=======\nX\n>>>>>>> REPLACE\n";
    let (code, events) = run("a\n\nb", 0, &[answer]);
    assert_eq!(code, "a\nX\nb");
    assert_eq!(events[0], Event::Started(lines(1, 1)));
}

#[test]
fn code_lines_are_the_lines_of_the_code() {
    let (sender, _receiver) = tokio::sync::mpsc::unbounded_channel();
    let accumulator =
        SearchAndReplaceAccumulator::new("a\r\nb\n\nc\n".to_owned(), 0, sender);
    assert_eq!(accumulator.code_lines(), vec!["a", "b", "", "c"]);
    assert_eq!(accumulator.code(), "a\nb\n\nc");
}
