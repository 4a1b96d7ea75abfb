//! What holds of the accumulator over whole answers and whole blocks, and of
//! the messages sent to the model.

use vstd::prelude::*;

use crate::accumulator::{
    closes_block, complete_lines, delta_text, divider, events_of, feed, feed_fits, first_range,
    initial_machine, replace_end, run, run_fits, search_head, step, step_fits, BlockStatus,
    EditEvent, EditMachine,
};
use crate::editing::{
    completion_messages_of, example_messages_spec, message, stream_events_for,
    user_context_message, user_messages_of, wrapped, LlmRole, MessageView, RequestView,
    StreamEvent, main_user_message,
};
use crate::prompts::{
    EXTRA_DATA_CLOSE, EXTRA_DATA_OPEN, EXTRA_SYMBOLS_CLOSE, EXTRA_SYMBOLS_OPEN,
    INSTRUCTIONS_OPEN, INSTRUCTIONS_TO_PATH, PATH_CLOSE, SELECTION_CLOSE, SELECTION_OPEN,
    SYSTEM_PROMPT,
};
use crate::range::Range;
use crate::search::{block_matches_at, first_match_from, lemma_first_match_from, replace_all};
use crate::text::{
    join, law_line_count, law_lines_join_round_trip, lemma_join_push, lemma_lines_prefix,
    lemma_newline_count_add, lines, newline, newline_count,
};

verus! {

/// The answer lines of one block: the SEARCH line, the lines to search for,
/// the divider, the replacement lines and the closing line.
pub open spec fn block_lines(
    search: Seq<Seq<char>>,
    replacement: Seq<Seq<char>>,
    closing: Seq<char>,
) -> Seq<Seq<char>> {
    seq![search_head()] + search + seq![divider()] + replacement + seq![closing]
}

/// The events sent while the replacement lines `rs` of range `r` are read,
/// after `before` lines of the same replacement.
pub open spec fn replacement_events(r: Range, before: nat, rs: Seq<Seq<char>>) -> Seq<EditEvent> {
    Seq::new(rs.len(), |j: int| EditEvent::Delta(r, delta_text(before + j == 0, rs[j])))
}

/// The closing line of a block is not the SEARCH line.
proof fn lemma_closing_is_not_head(closing: Seq<char>)
    requires
        closes_block(closing),
    ensures
        closing != search_head(),
{
    reveal_strlit(">>>>>>> REPLACE");
    reveal_strlit("=======");
    reveal_strlit("<<<<<<< SEARCH");
    assert(replace_end().len() != search_head().len());
    assert(divider().len() != search_head().len());
}

/// Reading `x` then `y` is reading `x + y`.
pub proof fn lemma_run_append(m: EditMachine, x: Seq<Seq<char>>, y: Seq<Seq<char>>)
    ensures
        run(m, x + y) == (run(run(m, x).0, y).0, run(m, x).1 + run(run(m, x).0, y).1),
        run_fits(m, x + y) == (run_fits(m, x) && run_fits(run(m, x).0, y)),
    decreases x.len(),
{
    if x.len() == 0 {
        assert(x + y =~= y);
        assert(Seq::<EditEvent>::empty() + run(m, y).1 =~= run(m, y).1);
    } else {
        let (m1, e) = step(m, x[0]);
        lemma_run_append(m1, x.drop_first(), y);
        assert((x + y)[0] == x[0]);
        assert((x + y).drop_first() =~= x.drop_first() + y);
        let r1 = run(m1, x.drop_first());
        let r2 = run(r1.0, y);
        assert(events_of(e) + (r1.1 + r2.1) =~= (events_of(e) + r1.1) + r2.1);
    }
}

/// Reading a single line.
pub proof fn lemma_run_one(m: EditMachine, line: Seq<char>)
    ensures
        run(m, seq![line]) == (step(m, line).0, events_of(step(m, line).1)),
        run_fits(m, seq![line]) == step_fits(m, line),
{
    reveal_with_fuel(run, 2);
    reveal_with_fuel(run_fits, 2);
    assert(seq![line].drop_first() =~= Seq::<Seq<char>>::empty());
    assert(events_of(step(m, line).1) + Seq::<EditEvent>::empty() =~= events_of(step(m, line).1));
}

/// Outside a block, lines other than the SEARCH line change nothing and send
/// nothing.
pub proof fn law_text_outside_blocks_changes_nothing(m: EditMachine, ls: Seq<Seq<char>>)
    requires
        m.status is NoBlock,
        forall|j: int| 0 <= j < ls.len() ==> ls[j] != search_head(),
    ensures
        run(m, ls) == (m, Seq::<EditEvent>::empty()),
        run_fits(m, ls),
    decreases ls.len(),
{
    if ls.len() > 0 {
        let tail = ls.drop_first();
        assert forall|j: int| 0 <= j < tail.len() implies tail[j] != search_head() by {
            assert(tail[j] == ls[j + 1]);
        }
        assert(ls[0] != search_head());
        law_text_outside_blocks_changes_nothing(m, tail);
        assert(Seq::<EditEvent>::empty() + Seq::<EditEvent>::empty() =~= Seq::<
            EditEvent,
        >::empty());
    }
}

/// While the lines to search for are read, each is added to the block.
pub proof fn lemma_run_accumulate(m: EditMachine, search: Seq<Seq<char>>, ls: Seq<Seq<char>>)
    requires
        m.status == BlockStatus::Accumulate(search),
        forall|j: int| 0 <= j < ls.len() ==> ls[j] != divider(),
    ensures
        run(m, ls) == (
            EditMachine { status: BlockStatus::Accumulate(search + ls), ..m },
            Seq::<EditEvent>::empty(),
        ),
        run_fits(m, ls),
    decreases ls.len(),
{
    if ls.len() == 0 {
        assert(search + ls =~= search);
    } else {
        let tail = ls.drop_first();
        assert forall|j: int| 0 <= j < tail.len() implies tail[j] != divider() by {
            assert(tail[j] == ls[j + 1]);
        }
        assert(ls[0] != divider());
        let m1 = EditMachine { status: BlockStatus::Accumulate(search.push(ls[0])), ..m };
        assert(step(m, ls[0]) == (m1, None::<EditEvent>));
        lemma_run_accumulate(m1, search.push(ls[0]), tail);
        assert(search.push(ls[0]) + tail =~= search + ls);
        assert(Seq::<EditEvent>::empty() + Seq::<EditEvent>::empty() =~= Seq::<
            EditEvent,
        >::empty());
    }
}

/// While the replacement lines of a found block are read, each is added to
/// the replacement and sent at the block's range: the first line of the
/// replacement as it is, each later one after a line feed.
pub proof fn law_replacement_lines(
    m: EditMachine,
    search: Seq<Seq<char>>,
    r: Range,
    ls: Seq<Seq<char>>,
)
    requires
        m.status == BlockStatus::Found(search, r),
        forall|j: int| 0 <= j < ls.len() ==> !closes_block(ls[j]),
    ensures
        run(m, ls) == (
            EditMachine { updated: m.updated + ls, ..m },
            replacement_events(r, m.updated.len(), ls),
        ),
        run_fits(m, ls),
    decreases ls.len(),
{
    if ls.len() == 0 {
        assert(m.updated + ls =~= m.updated);
        assert(replacement_events(r, m.updated.len(), ls) =~= Seq::<EditEvent>::empty());
    } else {
        let tail = ls.drop_first();
        assert forall|j: int| 0 <= j < tail.len() implies !closes_block(tail[j]) by {
            assert(tail[j] == ls[j + 1]);
        }
        assert(!closes_block(ls[0]));
        let m1 = EditMachine { updated: m.updated.push(ls[0]), ..m };
        let ev = EditEvent::Delta(r, delta_text(m.updated.len() == 0, ls[0]));
        assert(step(m, ls[0]) == (m1, Some(ev)));
        law_replacement_lines(m1, search, r, tail);
        assert(m.updated.push(ls[0]) + tail =~= m.updated + ls);
        assert(seq![ev] + replacement_events(r, m1.updated.len(), tail) =~= replacement_events(
            r,
            m.updated.len(),
            ls,
        ));
    }
}

/// The opening of a block: the SEARCH line, the lines to search for and the
/// divider. Where the search lines stand in the code, the range of the first
/// place is found and the start of the edit is sent; where they stand
/// nowhere, nothing changes and nothing is sent.
pub proof fn lemma_run_block_opening(m: EditMachine, search: Seq<Seq<char>>, rest: Seq<Seq<char>>)
    requires
        m.status is NoBlock,
        m.start_line + m.code.len() <= usize::MAX + 1,
        search.len() > 0,
        forall|j: int| 1 <= j < search.len() ==> search[j] != divider(),
    ensures
        ({
            let ls = seq![search_head()] + search + seq![divider()] + rest;
            match first_range(m, search) {
                Some(r) => {
                    let mf = EditMachine { status: BlockStatus::Found(search, r), ..m };
                    &&& run(m, ls) == (run(mf, rest).0, seq![EditEvent::Started(r)] + run(
                        mf,
                        rest,
                    ).1)
                    &&& run_fits(m, ls) == run_fits(mf, rest)
                },
                None => {
                    &&& run(m, ls) == run(m, rest)
                    &&& run_fits(m, ls) == run_fits(m, rest)
                },
            }
        }),
{
    let h = seq![search_head()];
    let d = seq![divider()];
    let s_rest = search.drop_first();
    let ls = seq![search_head()] + search + seq![divider()] + rest;
    let tail_d = d + rest;
    assert(ls =~= h + (seq![search[0]] + (s_rest + tail_d)));
    // The SEARCH line.
    let m_bs = EditMachine { status: BlockStatus::BlockStart, ..m };
    lemma_run_one(m, search_head());
    lemma_run_append(m, h, seq![search[0]] + (s_rest + tail_d));
    // The first search line.
    let m_acc0 = EditMachine { status: BlockStatus::Accumulate(seq![search[0]]), ..m };
    lemma_run_one(m_bs, search[0]);
    lemma_run_append(m_bs, seq![search[0]], s_rest + tail_d);
    // The other search lines.
    assert forall|j: int| 0 <= j < s_rest.len() implies s_rest[j] != divider() by {
        assert(s_rest[j] == search[j + 1]);
    }
    lemma_run_accumulate(m_acc0, seq![search[0]], s_rest);
    assert(seq![search[0]] + s_rest =~= search);
    let m_acc = EditMachine { status: BlockStatus::Accumulate(search), ..m };
    lemma_run_append(m_acc0, s_rest, tail_d);
    // The divider.
    lemma_run_one(m_acc, divider());
    lemma_run_append(m_acc, d, rest);
    assert(step_fits(m_acc, divider()));
    match first_range(m, search) {
        Some(r) => {
            let mf = EditMachine { status: BlockStatus::Found(search, r), ..m };
            assert(step(m_acc, divider()) == (mf, Some(EditEvent::Started(r))));
            assert(run(m, ls).1 =~= seq![EditEvent::Started(r)] + run(mf, rest).1);
        },
        None => {
            assert(step(m_acc, divider()) == (m, None::<EditEvent>));
            assert(run(m, ls).1 =~= run(m, rest).1);
        },
    }
}

/// A block replaces every place where its search lines stand in the code by
/// its replacement lines; with no replacement lines it deletes them. It sends
/// the start of the edit at the first place, each replacement line, and the
/// end of the edit. The block may close with the REPLACE line or with a second
/// divider. Where the search lines stand nowhere in the code, the block changes
/// nothing and sends nothing, as long as no replacement line is a SEARCH line,
/// which would open a block of its own.
///
/// The search lines are not empty and hold no divider after the first; the
/// replacement lines hold no divider and no REPLACE line, which would close
/// the block; the code's line numbers fit in a `usize`.
pub proof fn law_block_replaces_all_matches(
    m: EditMachine,
    search: Seq<Seq<char>>,
    replacement: Seq<Seq<char>>,
    closing: Seq<char>,
)
    requires
        closes_block(closing),
        m.status is NoBlock,
        m.updated.len() == 0,
        m.start_line + m.code.len() <= usize::MAX + 1,
        search.len() > 0,
        forall|j: int| 1 <= j < search.len() ==> search[j] != divider(),
        forall|j: int| 0 <= j < replacement.len() ==> !closes_block(replacement[j]),
    ensures
        (first_range(m, search) is Some || forall|j: int|
            0 <= j < replacement.len() ==> replacement[j] != search_head()) ==> run_fits(
            m,
            block_lines(search, replacement, closing),
        ),
        match first_range(m, search) {
            Some(r) => run(m, block_lines(search, replacement, closing)) == (
                EditMachine {
                    code: replace_all(m.code, search, replacement),
                    start_line: m.start_line,
                    status: BlockStatus::NoBlock,
                    updated: Seq::empty(),
                },
                seq![EditEvent::Started(r)] + replacement_events(r, 0, replacement) + seq![
                    EditEvent::End(r),
                ],
            ),
            None => (forall|j: int| 0 <= j < replacement.len() ==> replacement[j] != search_head())
                ==> run(m, block_lines(search, replacement, closing)) == (
                m,
                Seq::<EditEvent>::empty(),
            ),
        },
{
    let e = seq![closing];
    let rest = replacement + e;
    assert(block_lines(search, replacement, closing) =~= seq![search_head()] + search + seq![
        divider(),
    ] + rest);
    lemma_run_block_opening(m, search, rest);
    match first_range(m, search) {
        Some(r) => {
            let mf = EditMachine { status: BlockStatus::Found(search, r), ..m };
            law_replacement_lines(mf, search, r, replacement);
            assert(mf.updated + replacement =~= replacement);
            let mr = EditMachine { updated: replacement, ..mf };
            lemma_run_append(mf, replacement, e);
            lemma_run_one(mr, closing);
            let final_m = EditMachine {
                code: replace_all(m.code, search, replacement),
                start_line: m.start_line,
                status: BlockStatus::NoBlock,
                updated: Seq::empty(),
            };
            assert(step(mr, closing) == (final_m, Some(EditEvent::End(r))));
            assert(run(m, block_lines(search, replacement, closing)).1 =~= seq![
                EditEvent::Started(r),
            ] + replacement_events(r, 0, replacement) + seq![EditEvent::End(r)]);
        },
        None => if forall|j: int| 0 <= j < replacement.len() ==> replacement[j] != search_head() {
            assert forall|j: int| 0 <= j < rest.len() implies rest[j] != search_head() by {
                if j < replacement.len() {
                    assert(rest[j] == replacement[j]);
                } else {
                    assert(rest[j] == closing);
                    lemma_closing_is_not_head(closing);
                }
            }
            law_text_outside_blocks_changes_nothing(m, rest);
        },
    }
}

/// Looking from line `j + 1` of `code` is looking from line `j` of the code
/// without its first line.
proof fn lemma_first_match_shift(code: Seq<Seq<char>>, search: Seq<Seq<char>>, j: int)
    requires
        0 <= j,
        code.len() > 0,
    ensures
        first_match_from(code, search, j + 1) == match first_match_from(
            code.drop_first(),
            search,
            j,
        ) {
            Some(x) => Some(x + 1),
            None => None::<int>,
        },
    decreases code.len() + 1 - j,
{
    let t = code.drop_first();
    if j + 1 + search.len() <= code.len() {
        assert(code.subrange(j + 1, j + 1 + search.len()) =~= t.subrange(j, j + search.len()));
        assert(block_matches_at(code, search, j + 1) == block_matches_at(t, search, j));
        if !block_matches_at(t, search, j) {
            lemma_first_match_shift(code, search, j + 1);
        }
    }
}

/// Where a block's search lines first stand at line `i`, the lines before
/// stay, the place is replaced, and the replacing goes on after it; where they
/// stand nowhere, the code stays as it is.
pub proof fn law_replace_all_first_match(
    code: Seq<Seq<char>>,
    search: Seq<Seq<char>>,
    replacement: Seq<Seq<char>>,
)
    requires
        search.len() > 0,
    ensures
        match first_match_from(code, search, 0) {
            Some(i) => replace_all(code, search, replacement) == code.take(i) + replacement
                + replace_all(code.skip(i + search.len()), search, replacement),
            None => replace_all(code, search, replacement) == code,
        },
    decreases code.len(),
{
    let k = search.len() as int;
    if code.len() < k {
    } else if code.take(k) == search {
        assert(code.subrange(0, k) =~= code.take(k));
        assert(block_matches_at(code, search, 0));
        assert(code.take(0) + replacement =~= replacement);
    } else {
        assert(code.subrange(0, k) =~= code.take(k));
        assert(!block_matches_at(code, search, 0));
        let t = code.drop_first();
        lemma_first_match_shift(code, search, 0);
        law_replace_all_first_match(t, search, replacement);
        match first_match_from(t, search, 0) {
            Some(x) => {
                lemma_first_match_from(t, search, 0);
                assert(t.skip(x + k) =~= code.skip(x + 1 + k));
                assert(seq![code[0]] + (t.take(x) + replacement + replace_all(
                    t.skip(x + k),
                    search,
                    replacement,
                )) =~= code.take(x + 1) + replacement + replace_all(
                    code.skip(x + 1 + k),
                    search,
                    replacement,
                ));
            },
            None => {
                assert(seq![code[0]] + t =~= code);
            },
        }
    }
}

/// Where an edit is open, as the status of a state tells it.
pub open spec fn open_edit(m: EditMachine) -> Option<Range> {
    match m.status {
        BlockStatus::Found(_, r) => Some(r),
        _ => None,
    }
}

/// Where an edit is open after the events `es`, starting with `open`; none
/// where the events are not in groups of a start, deltas of the same range
/// and an end of the same range.
pub open spec fn open_after(open: Option<Range>, es: Seq<EditEvent>) -> Option<Option<Range>>
    decreases es.len(),
{
    if es.len() == 0 {
        Some(open)
    } else {
        match es[0] {
            EditEvent::Started(r) => if open is None {
                open_after(Some(r), es.drop_first())
            } else {
                None
            },
            EditEvent::Delta(r, _) => if open == Some(r) {
                open_after(open, es.drop_first())
            } else {
                None
            },
            EditEvent::End(r) => if open == Some(r) {
                open_after(None, es.drop_first())
            } else {
                None
            },
        }
    }
}

/// The groups go on across two runs of events.
proof fn lemma_open_after_append(open: Option<Range>, x: Seq<EditEvent>, y: Seq<EditEvent>)
    ensures
        open_after(open, x + y) == match open_after(open, x) {
            Some(o) => open_after(o, y),
            None => None,
        },
    decreases x.len(),
{
    if x.len() == 0 {
        assert(x + y =~= y);
    } else {
        assert((x + y)[0] == x[0]);
        assert((x + y).drop_first() =~= x.drop_first() + y);
        match x[0] {
            EditEvent::Started(r) => lemma_open_after_append(Some(r), x.drop_first(), y),
            EditEvent::Delta(r, _) => lemma_open_after_append(open, x.drop_first(), y),
            EditEvent::End(r) => lemma_open_after_append(None, x.drop_first(), y),
        }
    }
}

/// The events sent while any lines are read come in groups: the start of an
/// edit at a range, deltas at that range, and the end of the edit at that
/// range; a group left open at the end is the edit the state has open.
pub proof fn law_events_come_in_groups(m: EditMachine, ls: Seq<Seq<char>>)
    ensures
        open_after(open_edit(m), run(m, ls).1) == Some(open_edit(run(m, ls).0)),
    decreases ls.len(),
{
    if ls.len() > 0 {
        let (m1, e) = step(m, ls[0]);
        law_events_come_in_groups(m1, ls.drop_first());
        lemma_open_after_append(open_edit(m), events_of(e), run(m1, ls.drop_first()).1);
        reveal_with_fuel(open_after, 2);
        assert(open_after(open_edit(m), events_of(e)) == Some(open_edit(m1)));
    }
}

/// Feeding an answer in two pieces reads the same lines, reaches the same
/// state and sends the same events as feeding it in one piece; and the two
/// pieces can be taken exactly when the whole can.
pub proof fn law_feed_in_pieces(m: EditMachine, answer: Seq<char>, d1: Seq<char>, d2: Seq<char>)
    ensures
        feed(m, answer, d1 + d2) == (
            feed(feed(m, answer, d1).0, answer + d1, d2).0,
            feed(m, answer, d1).1 + feed(feed(m, answer, d1).0, answer + d1, d2).1,
        ),
        feed_fits(m, answer, d1 + d2) == (feed_fits(m, answer, d1) && feed_fits(
            feed(m, answer, d1).0,
            answer + d1,
            d2,
        )),
{
    let a1 = answer + d1;
    let a12 = a1 + d2;
    assert(answer + (d1 + d2) =~= a12);
    lemma_newline_count_add(answer, d1);
    lemma_newline_count_add(a1, d2);
    lemma_lines_prefix(a1, d2);
    lemma_lines_prefix(a12, Seq::empty());
    assert(a12 + Seq::<char>::empty() =~= a12);
    let c0 = newline_count(answer) as int;
    let c1 = newline_count(a1) as int;
    let c2 = newline_count(a12) as int;
    let x = lines(a1).subrange(c0, c1);
    let y = lines(a12).subrange(c1, c2);
    assert(lines(a12).take(c1) == lines(a1).take(c1));
    assert(x =~= lines(a12).take(c1).subrange(c0, c1));
    assert(x + y =~= lines(a12).subrange(c0, c2));
    lemma_run_append(m, x, y);
}

/// Feeding a whole answer at once reads exactly its complete lines, in order.
pub proof fn law_feed_whole_answer(m: EditMachine, answer: Seq<char>)
    ensures
        feed(m, Seq::empty(), answer) == run(m, complete_lines(answer)),
        feed_fits(m, Seq::empty(), answer) == run_fits(m, complete_lines(answer)),
{
    assert(Seq::<char>::empty() + answer =~= answer);
    assert(newline_count(Seq::<char>::empty()) == 0);
    assert(lines(answer).subrange(0, newline_count(answer) as int) =~= complete_lines(answer));
}

/// Context from the user adds one message, before the others, and leaves the
/// main message as it is without it.
pub proof fn law_user_context_adds_one_message(req: RequestView, user_context: Seq<char>)
    ensures
        user_messages_of(RequestView { user_context: Some(user_context), ..req }) == seq![
            user_context_message(user_context),
        ] + user_messages_of(RequestView { user_context: None, ..req }),
        user_messages_of(RequestView { user_context: None, ..req }) == seq![
            message(LlmRole::User, main_user_message(req)),
        ],
{
    let with = RequestView { user_context: Some(user_context), ..req };
    let without = RequestView { user_context: None, ..req };
    assert(main_user_message(with) == main_user_message(req));
    assert(main_user_message(without) == main_user_message(req));
    assert(user_messages_of(without) =~= seq![message(LlmRole::User, main_user_message(req))]);
    assert(user_messages_of(with) =~= seq![user_context_message(user_context)] + user_messages_of(
        without,
    ));
}

/// A new accumulator holds the lines of the code it is given, in order, one
/// per line feed and one more for a last line without one; with no carriage
/// return and no final line feed, joining them gives the code back. No block
/// is open and no replacement line has been read.
pub proof fn law_new_holds_the_code(code: Seq<char>, start_line: usize)
    ensures
        initial_machine(code, start_line).code == lines(code),
        initial_machine(code, start_line).code.len() == newline_count(code) + if code.len() > 0
            && code.last() != '\n' {
            1nat
        } else {
            0nat
        },
        (forall|i: int| 0 <= i < code.len() ==> code[i] != '\r') && (code.len() == 0
            || code.last() != '\n') ==> join(initial_machine(code, start_line).code) == code,
        initial_machine(code, start_line).start_line == start_line,
        initial_machine(code, start_line).status == BlockStatus::NoBlock,
        initial_machine(code, start_line).updated.len() == 0,
{
    law_line_count(code);
    if (forall|i: int| 0 <= i < code.len() ==> code[i] != '\r') && (code.len() == 0
        || code.last() != '\n') {
        law_lines_join_round_trip(code);
    }
}

/// The editor events for a list of edit events, one after the other.
pub open spec fn stream_all(es: Seq<EditEvent>, code: Seq<char>) -> Seq<StreamEvent>
    decreases es.len(),
{
    if es.len() == 0 {
        Seq::empty()
    } else {
        stream_all(es.drop_last(), code) + stream_events_for(es.last(), code)
    }
}

/// The text the editor receives from a list of editor events: the texts of
/// its deltas, one after the other.
pub open spec fn streamed_text(ss: Seq<StreamEvent>) -> Seq<char>
    decreases ss.len(),
{
    if ss.len() == 0 {
        Seq::empty()
    } else {
        streamed_text(ss.drop_last()) + match ss.last() {
            StreamEvent::Delta(_, s) => s,
            _ => Seq::<char>::empty(),
        }
    }
}

/// The text of a delta edit event reaches the editor as it is, at its range.
pub proof fn law_delta_text_is_forwarded(r: Range, s: Seq<char>, code: Seq<char>)
    ensures
        stream_events_for(EditEvent::Delta(r, s), code) == seq![StreamEvent::Delta(r, s)],
        streamed_text(stream_events_for(EditEvent::Delta(r, s), code)) == s,
{
    let ss = stream_events_for(EditEvent::Delta(r, s), code);
    assert(ss.drop_last() =~= Seq::<StreamEvent>::empty());
    assert(streamed_text(ss.drop_last()) == Seq::<char>::empty());
    assert(ss.last() == StreamEvent::Delta(r, s));
    assert(Seq::<char>::empty() + s =~= s);
}

proof fn lemma_stream_all_append(a: Seq<EditEvent>, b: Seq<EditEvent>, code: Seq<char>)
    ensures
        stream_all(a + b, code) == stream_all(a, code) + stream_all(b, code),
    decreases b.len(),
{
    if b.len() == 0 {
        assert(a + b =~= a);
        assert(stream_all(a, code) + Seq::<StreamEvent>::empty() =~= stream_all(a, code));
    } else {
        lemma_stream_all_append(a, b.drop_last(), code);
        assert((a + b).drop_last() =~= a + b.drop_last());
        assert((a + b).last() == b.last());
        assert(stream_all(a + b, code) =~= stream_all(a, code) + stream_all(b, code));
    }
}

proof fn lemma_streamed_text_append(a: Seq<StreamEvent>, b: Seq<StreamEvent>)
    ensures
        streamed_text(a + b) == streamed_text(a) + streamed_text(b),
    decreases b.len(),
{
    if b.len() == 0 {
        assert(a + b =~= a);
        assert(streamed_text(a) + Seq::<char>::empty() =~= streamed_text(a));
    } else {
        lemma_streamed_text_append(a, b.drop_last());
        assert((a + b).drop_last() =~= a + b.drop_last());
        assert((a + b).last() == b.last());
        assert(streamed_text(a + b) =~= streamed_text(a) + streamed_text(b));
    }
}

/// The editor receives the replacement lines of a block joined with line
/// feeds.
proof fn lemma_replacement_text(r: Range, rs: Seq<Seq<char>>, code: Seq<char>)
    requires
        rs.len() > 0,
    ensures
        streamed_text(stream_all(replacement_events(r, 0, rs), code)) == join(rs),
    decreases rs.len(),
{
    let x = rs.last();
    let front = rs.drop_last();
    let ev = EditEvent::Delta(r, delta_text(front.len() == 0, x));
    assert(replacement_events(r, 0, rs) =~= replacement_events(r, 0, front).push(ev));
    assert(replacement_events(r, 0, rs).drop_last() =~= replacement_events(r, 0, front));
    law_delta_text_is_forwarded(r, delta_text(front.len() == 0, x), code);
    lemma_streamed_text_append(
        stream_all(replacement_events(r, 0, front), code),
        stream_events_for(ev, code),
    );
    if front.len() == 0 {
        assert(replacement_events(r, 0, front) =~= Seq::<EditEvent>::empty());
        assert(rs =~= seq![x]);
        assert(Seq::<char>::empty() + x =~= x);
    } else {
        lemma_replacement_text(r, front, code);
        lemma_join_push(front, x);
        assert(front.push(x) =~= rs);
    }
}

/// What the editor receives while a block found at `r` streams its
/// replacement lines `rs`: a code fence, the replacement lines joined with
/// line feeds, which is the text put in place of the block, and the closing
/// fence.
pub proof fn law_editor_receives_the_replacement(r: Range, rs: Seq<Seq<char>>, code: Seq<char>)
    requires
        rs.len() > 0,
    ensures
        streamed_text(
            stream_all(
                seq![EditEvent::Started(r)] + replacement_events(r, 0, rs) + seq![EditEvent::End(r)],
                code,
            ),
        ) == "```\n"@ + join(rs) + "\n```"@,
{
    let start = seq![EditEvent::Started(r)];
    let end = seq![EditEvent::End(r)];
    let mid = replacement_events(r, 0, rs);
    lemma_stream_all_append(start + mid, end, code);
    lemma_stream_all_append(start, mid, code);
    assert(start.drop_last() =~= Seq::<EditEvent>::empty());
    assert(end.drop_last() =~= Seq::<EditEvent>::empty());
    assert(stream_all(start.drop_last(), code) == Seq::<StreamEvent>::empty());
    assert(stream_all(end.drop_last(), code) == Seq::<StreamEvent>::empty());
    assert(start.last() == EditEvent::Started(r));
    assert(end.last() == EditEvent::End(r));
    assert(stream_all(start, code) =~= stream_events_for(EditEvent::Started(r), code));
    assert(stream_all(end, code) =~= stream_events_for(EditEvent::End(r), code));
    lemma_streamed_text_append(
        stream_all(start, code) + stream_all(mid, code),
        stream_all(end, code),
    );
    lemma_streamed_text_append(stream_all(start, code), stream_all(mid, code));
    lemma_replacement_text(r, rs, code);
    let s1 = stream_events_for(EditEvent::Started(r), code);
    assert(s1.drop_last() =~= seq![StreamEvent::Start(r)]);
    assert(s1.drop_last().drop_last() =~= Seq::<StreamEvent>::empty());
    assert(streamed_text(s1.drop_last().drop_last()) == Seq::<char>::empty());
    assert(s1.drop_last().last() == StreamEvent::Start(r));
    assert(streamed_text(s1.drop_last()) =~= Seq::<char>::empty());
    assert(s1.last() == StreamEvent::Delta(r, "```\n"@));
    assert(streamed_text(s1) =~= "```\n"@);
    let s2 = stream_events_for(EditEvent::End(r), code);
    assert(s2.drop_last() =~= seq![StreamEvent::Delta(r, "\n```"@)]);
    assert(s2.drop_last().drop_last() =~= Seq::<StreamEvent>::empty());
    assert(streamed_text(s2.drop_last().drop_last()) == Seq::<char>::empty());
    assert(s2.drop_last().last() == StreamEvent::Delta(r, "\n```"@));
    assert(streamed_text(s2.drop_last()) =~= "\n```"@);
    assert(s2.last() == StreamEvent::End(r, code));
    assert(streamed_text(s2) =~= "\n```"@);
}

/// The part of the main user message that gives the instructions and the
/// file to edit.
pub open spec fn instruction_part(instructions: Seq<char>, fs_file_path: Seq<char>) -> Seq<char> {
    INSTRUCTIONS_OPEN@ + instructions + INSTRUCTIONS_TO_PATH@ + fs_file_path + PATH_CLOSE@
}

/// The main user message ends with the request's instructions, whole, and its
/// file path; other instructions change that part alone.
pub proof fn law_main_message_holds_the_instructions(req: RequestView, other: Seq<char>)
    ensures
        ({
            let m = main_user_message(req);
            let t = instruction_part(req.instructions, req.fs_file_path);
            &&& m.len() >= t.len()
            &&& m.skip(m.len() - t.len()) == t
            &&& main_user_message(RequestView { instructions: other, ..req }) == m.take(
                m.len() - t.len(),
            ) + instruction_part(other, req.fs_file_path)
        }),
{
    let m = main_user_message(req);
    let t = instruction_part(req.instructions, req.fs_file_path);
    let head = (match req.new_symbols {
        Some(symbols) => wrapped(EXTRA_SYMBOLS_OPEN, symbols, EXTRA_SYMBOLS_CLOSE),
        None => Seq::<char>::empty(),
    }) + wrapped(EXTRA_DATA_OPEN, req.extra_data, EXTRA_DATA_CLOSE) + "\n"@ + wrapped(
        SELECTION_OPEN,
        req.context_in_edit_selection,
        SELECTION_CLOSE,
    ) + "\n"@;
    assert(m =~= head + t);
    assert(m.skip(head.len() as int) =~= t);
    assert(m.take(head.len() as int) =~= head);
    let o = RequestView { instructions: other, ..req };
    assert(main_user_message(o) =~= head + instruction_part(other, req.fs_file_path));
}

/// A warmup request asks for the same messages as any other request: the
/// system prompt, the example exchange with its cache point, and the user
/// messages.
pub proof fn law_warmup_asks_for_the_same_messages(req: RequestView)
    ensures
        completion_messages_of(RequestView { is_warmup: true, ..req }) == completion_messages_of(
            RequestView { is_warmup: false, ..req },
        ),
        user_messages_of(RequestView { is_warmup: true, ..req }) == user_messages_of(
            RequestView { is_warmup: false, ..req },
        ),
        completion_messages_of(req).len() == 3 + user_messages_of(req).len(),
        completion_messages_of(req)[0] == message(LlmRole::System, SYSTEM_PROMPT@),
        completion_messages_of(req).subrange(1, 3) == example_messages_spec(),
        completion_messages_of(req)[2].cache_point,
        completion_messages_of(req).skip(3) == user_messages_of(req),
{
    let w = RequestView { is_warmup: true, ..req };
    let n = RequestView { is_warmup: false, ..req };
    assert(main_user_message(w) == main_user_message(n));
    assert(user_messages_of(w) =~= user_messages_of(n));
    assert(completion_messages_of(w) =~= completion_messages_of(n));
    let c = completion_messages_of(req);
    assert(c.subrange(1, 3) =~= example_messages_spec());
    assert(c.skip(3) =~= user_messages_of(req));
}

} // verus!
