//! The search-and-replace accumulator: it reads a streamed answer line by
//! line, finds each SEARCH block in the code, and applies its replacement.

use vstd::prelude::*;

use tokio::sync::mpsc::UnboundedSender;

use crate::channel::EditSink;
use crate::range::{line_range, Range};
use crate::search::{find_block, first_match_from, last_newline_line_number_chars, replace_all, replace_all_lines};
use crate::text::{
    append_chars, chars_eq, chars_of, copy_lines, copy_range, count_newlines, join, join_range,
    lemma_lines_prefix, lemma_newline_count_add, lemma_newline_count_le_len, lines, newline,
    newline_count, split_lines, string_of, views,
};

verus! {

/// An edit event as it is sent to the editor.
pub enum EditDelta {
    /// A search block was found: the edit of this range starts.
    EditStarted(Range),
    /// One more piece of the replacement of this range.
    EditDelta((Range, String)),
    /// The replacement of this range is complete.
    EditEnd(Range),
}

/// What an edit event says, as a value of the model.
pub enum EditEvent {
    Started(Range),
    Delta(Range, Seq<char>),
    End(Range),
}

impl View for EditDelta {
    type V = EditEvent;

    open spec fn view(&self) -> EditEvent {
        match self {
            EditDelta::EditStarted(r) => EditEvent::Started(*r),
            EditDelta::EditDelta((r, s)) => EditEvent::Delta(*r, s@),
            EditDelta::EditEnd(r) => EditEvent::End(*r),
        }
    }
}

/// Where the accumulator stands with respect to a SEARCH/REPLACE block.
pub enum SearchBlockStatus {
    /// Outside any block.
    NoBlock,
    /// The SEARCH line was just read.
    BlockStart,
    /// Reading the lines to search for.
    BlockAccumulate(Vec<Vec<char>>),
    /// The lines were found in the code, first at this range; reading the
    /// replacement.
    BlockFound((Vec<Vec<char>>, Range)),
}

/// The block status as a value of the model.
pub enum BlockStatus {
    NoBlock,
    BlockStart,
    Accumulate(Seq<Seq<char>>),
    Found(Seq<Seq<char>>, Range),
}

impl View for SearchBlockStatus {
    type V = BlockStatus;

    open spec fn view(&self) -> BlockStatus {
        match self {
            SearchBlockStatus::NoBlock => BlockStatus::NoBlock,
            SearchBlockStatus::BlockStart => BlockStatus::BlockStart,
            SearchBlockStatus::BlockAccumulate(s) => BlockStatus::Accumulate(views(s@)),
            SearchBlockStatus::BlockFound((s, r)) => BlockStatus::Found(views(s@), *r),
        }
    }
}

/// The state of the accumulator that its decisions depend on.
pub struct EditMachine {
    /// The lines of the code as edited so far.
    pub code: Seq<Seq<char>>,
    /// The number of the first line of the code.
    pub start_line: usize,
    pub status: BlockStatus,
    /// The replacement lines read so far.
    pub updated: Seq<Seq<char>>,
}

/// The line that opens a block.
pub open spec fn search_head() -> Seq<char> {
    "<<<<<<< SEARCH"@
}

/// The line between the lines to search for and their replacement.
pub open spec fn divider() -> Seq<char> {
    "======="@
}

/// The line that closes a block.
pub open spec fn replace_end() -> Seq<char> {
    ">>>>>>> REPLACE"@
}

/// Whether `line` closes the replacement of a block: the closing line, or a
/// second divider.
pub open spec fn closes_block(line: Seq<char>) -> bool {
    line == replace_end() || line == divider()
}

/// The range of the first place where the lines `search` stand in the code of
/// `m`, numbered from its first line.
pub open spec fn first_range(m: EditMachine, search: Seq<Seq<char>>) -> Option<Range> {
    match first_match_from(m.code, search, 0) {
        Some(i) => Some(line_range(m.start_line + i, m.start_line + i + search.len() - 1)),
        None => None,
    }
}

/// The text sent for a replacement line: the first as it is, each later one
/// after a line feed.
pub open spec fn delta_text(first: bool, line: Seq<char>) -> Seq<char> {
    if first {
        line
    } else {
        newline() + line
    }
}

/// One line of the answer read by the accumulator: the next state and the
/// event it sends, if any.
///
/// A block's search lines are looked up in the code when the divider is read.
/// When the block closes, every place where they stand, taken from the start
/// and not overlapping, is replaced by the replacement lines; with no
/// replacement lines, those places are deleted. The events speak of the
/// first place.
pub open spec fn step(m: EditMachine, line: Seq<char>) -> (EditMachine, Option<EditEvent>) {
    match m.status {
        BlockStatus::NoBlock => {
            if line == search_head() {
                (EditMachine { status: BlockStatus::BlockStart, ..m }, None)
            } else {
                (m, None)
            }
        },
        BlockStatus::BlockStart => (
            EditMachine { status: BlockStatus::Accumulate(seq![line]), ..m },
            None,
        ),
        BlockStatus::Accumulate(search) => {
            if line == divider() {
                match first_range(m, search) {
                    Some(r) => (
                        EditMachine { status: BlockStatus::Found(search, r), ..m },
                        Some(EditEvent::Started(r)),
                    ),
                    None => (EditMachine { status: BlockStatus::NoBlock, ..m }, None),
                }
            } else {
                (EditMachine { status: BlockStatus::Accumulate(search.push(line)), ..m }, None)
            }
        },
        BlockStatus::Found(search, r) => {
            if closes_block(line) {
                (
                    EditMachine {
                        code: replace_all(m.code, search, m.updated),
                        start_line: m.start_line,
                        status: BlockStatus::NoBlock,
                        updated: Seq::empty(),
                    },
                    Some(EditEvent::End(r)),
                )
            } else {
                (
                    EditMachine { updated: m.updated.push(line), ..m },
                    Some(EditEvent::Delta(r, delta_text(m.updated.len() == 0, line))),
                )
            }
        },
    }
}

/// Reading `line` asks for no line number past a `usize`.
pub open spec fn step_fits(m: EditMachine, line: Seq<char>) -> bool {
    match m.status {
        BlockStatus::Accumulate(_) => line == divider() ==> m.start_line + m.code.len()
            <= usize::MAX + 1,
        _ => true,
    }
}

/// The events of an optional event.
pub open spec fn events_of(e: Option<EditEvent>) -> Seq<EditEvent> {
    match e {
        Some(ev) => seq![ev],
        None => Seq::empty(),
    }
}

/// Reading the lines `ls` one after the other: the final state and the events
/// sent, in order.
pub open spec fn run(m: EditMachine, ls: Seq<Seq<char>>) -> (EditMachine, Seq<EditEvent>)
    decreases ls.len(),
{
    if ls.len() == 0 {
        (m, Seq::empty())
    } else {
        let (m1, e) = step(m, ls[0]);
        let (m2, es) = run(m1, ls.drop_first());
        (m2, events_of(e) + es)
    }
}

/// Every line of `ls` fits when it is read.
pub open spec fn run_fits(m: EditMachine, ls: Seq<Seq<char>>) -> bool
    decreases ls.len(),
{
    if ls.len() == 0 {
        true
    } else {
        step_fits(m, ls[0]) && run_fits(step(m, ls[0]).0, ls.drop_first())
    }
}

/// The lines of an answer that are complete, that is, followed by a line feed.
pub open spec fn complete_lines(answer: Seq<char>) -> Seq<Seq<char>> {
    lines(answer).take(newline_count(answer) as int)
}

/// The lines that become complete when `delta` is added to `answer`.
pub open spec fn new_complete_lines(answer: Seq<char>, delta: Seq<char>) -> Seq<Seq<char>> {
    lines(answer + delta).subrange(
        newline_count(answer) as int,
        newline_count(answer + delta) as int,
    )
}

/// Adding `delta` to the answer `answer` read so far: the lines that become
/// complete are read.
pub open spec fn feed(m: EditMachine, answer: Seq<char>, delta: Seq<char>) -> (
    EditMachine,
    Seq<EditEvent>,
) {
    run(m, new_complete_lines(answer, delta))
}

/// Adding `delta` asks for no line number past a `usize`.
pub open spec fn feed_fits(m: EditMachine, answer: Seq<char>, delta: Seq<char>) -> bool {
    run_fits(m, new_complete_lines(answer, delta))
}

/// The state of an accumulator made for `code`, whose first line is numbered
/// `start_line`.
pub open spec fn initial_machine(code: Seq<char>, start_line: usize) -> EditMachine {
    EditMachine {
        code: lines(code),
        start_line,
        status: BlockStatus::NoBlock,
        updated: Seq::empty(),
    }
}

/// What every reachable state keeps: a block being read has search lines,
/// and replacement lines are read only within a found block.
pub open spec fn machine_wf(m: EditMachine) -> bool {
    &&& m.status matches BlockStatus::Accumulate(search) ==> search.len() > 0
    &&& m.status matches BlockStatus::Found(search, _) ==> search.len() > 0
    &&& !(m.status is Found) ==> m.updated.len() == 0
}

/// The code being edited and where the reading of the answer stands.
pub(crate) struct EditState {
    code_lines: Vec<Vec<char>>,
    start_line: usize,
    search_block_status: SearchBlockStatus,
    updated_block: Vec<Vec<char>>,
}

/// The answer lines that open, split and close a block.
pub(crate) struct Markers {
    head: Vec<char>,
    divider: Vec<char>,
    end: Vec<char>,
}

impl Markers {
    pub(crate) closed spec fn wf(&self) -> bool {
        &&& self.head@ == search_head()
        &&& self.divider@ == divider()
        &&& self.end@ == replace_end()
    }

    pub(crate) fn new() -> (res: Self)
        ensures
            res.wf(),
    {
        Markers {
            head: chars_of("<<<<<<< SEARCH"),
            divider: chars_of("======="),
            end: chars_of(">>>>>>> REPLACE"),
        }
    }
}

impl EditState {
    pub(crate) closed spec fn model(&self) -> EditMachine {
        EditMachine {
            code: views(self.code_lines@),
            start_line: self.start_line,
            status: self.search_block_status@,
            updated: views(self.updated_block@),
        }
    }

    /// A copy of this state.
    fn duplicate(&self) -> (res: Self)
        ensures
            res.model() == self.model(),
    {
        let search_block_status = match &self.search_block_status {
            SearchBlockStatus::NoBlock => SearchBlockStatus::NoBlock,
            SearchBlockStatus::BlockStart => SearchBlockStatus::BlockStart,
            SearchBlockStatus::BlockAccumulate(s) => SearchBlockStatus::BlockAccumulate(
                copy_lines(s),
            ),
            SearchBlockStatus::BlockFound((s, r)) => SearchBlockStatus::BlockFound(
                (copy_lines(s), *r),
            ),
        };
        EditState {
            code_lines: copy_lines(&self.code_lines),
            start_line: self.start_line,
            search_block_status,
            updated_block: copy_lines(&self.updated_block),
        }
    }

    /// Whether reading `line` asks for no line number past a `usize`.
    fn line_fits(&self, line: &Vec<char>, markers: &Markers) -> (res: bool)
        requires
            markers.wf(),
        ensures
            res == step_fits(self.model(), line@),
    {
        match &self.search_block_status {
            SearchBlockStatus::BlockAccumulate(_) => {
                if chars_eq(line, &markers.divider) {
                    let n = self.code_lines.len();
                    n == 0 || self.start_line <= usize::MAX - (n - 1)
                } else {
                    true
                }
            },
            _ => true,
        }
    }

    /// Reads one complete line of the answer; the event to send, if any.
    fn read_line(&mut self, line: &Vec<char>, markers: &Markers) -> (res: Option<EditDelta>)
        requires
            machine_wf(old(self).model()),
            step_fits(old(self).model(), line@),
            markers.wf(),
        ensures
            machine_wf(final(self).model()),
            final(self).model() == step(old(self).model(), line@).0,
            match res {
                Some(d) => step(old(self).model(), line@).1 == Some(d@),
                None => step(old(self).model(), line@).1 is None,
            },
    {
        let ghost m = self.model();
        let line_copy = copy_range(line, 0, line.len());
        assert(line@.subrange(0, line@.len() as int) =~= line@);
        match &self.search_block_status {
            SearchBlockStatus::NoBlock => {
                if chars_eq(line, &markers.head) {
                    self.search_block_status = SearchBlockStatus::BlockStart;
                }
                None
            },
            SearchBlockStatus::BlockStart => {
                let mut search: Vec<Vec<char>> = Vec::new();
                search.push(line_copy);
                assert(views(search@) =~= seq![line@]);
                self.search_block_status = SearchBlockStatus::BlockAccumulate(search);
                None
            },
            SearchBlockStatus::BlockAccumulate(search_ref) => {
                let mut search = copy_lines(search_ref);
                if chars_eq(line, &markers.divider) {
                    match find_block(&self.code_lines, self.start_line, &search) {
                        Some(r) => {
                            self.search_block_status = SearchBlockStatus::BlockFound((search, r));
                            Some(EditDelta::EditStarted(r))
                        },
                        None => {
                            self.search_block_status = SearchBlockStatus::NoBlock;
                            None
                        },
                    }
                } else {
                    let ghost before = views(search@);
                    search.push(line_copy);
                    assert(views(search@) =~= before.push(line@));
                    self.search_block_status = SearchBlockStatus::BlockAccumulate(search);
                    None
                }
            },
            SearchBlockStatus::BlockFound((search_ref, r_ref)) => {
                let r = *r_ref;
                if chars_eq(line, &markers.end) || chars_eq(line, &markers.divider) {
                    let code = replace_all_lines(&self.code_lines, search_ref, &self.updated_block);
                    self.code_lines = code;
                    self.search_block_status = SearchBlockStatus::NoBlock;
                    self.updated_block = Vec::new();
                    assert(views(self.updated_block@) =~= Seq::<Seq<char>>::empty());
                    Some(EditDelta::EditEnd(r))
                } else {
                    let piece = if self.updated_block.len() == 0 {
                        string_of(line)
                    } else {
                        let mut text: Vec<char> = Vec::new();
                        text.push('\n');
                        append_chars(&mut text, line);
                        assert(text@ =~= newline() + line@);
                        string_of(&text)
                    };
                    let ghost before = views(self.updated_block@);
                    self.updated_block.push(line_copy);
                    assert(views(self.updated_block@) =~= before.push(line@));
                    Some(EditDelta::EditDelta((r, piece)))
                }
            },
        }
    }
}

/// Reads the lines of a streamed answer and applies its SEARCH/REPLACE blocks
/// to the code, sending an event for each step of each edit. Each block
/// replaces every place where its search lines stand in the code.
pub struct SearchAndReplaceAccumulator {
    edit: EditState,
    answer_up_until_now: Vec<char>,
    previous_answer_line_number: Option<usize>,
    sink: EditSink,
}

impl SearchAndReplaceAccumulator {
    /// The state the decisions of the accumulator depend on.
    pub closed spec fn state(&self) -> EditMachine {
        self.edit.model()
    }

    /// The answer received so far.
    pub closed spec fn answer(&self) -> Seq<char> {
        self.answer_up_until_now@
    }

    /// The events handed to the sender so far, in order.
    pub closed spec fn sent(&self) -> Seq<EditEvent> {
        self.sink.handed()
    }

    /// The number of answer lines read so far.
    pub closed spec fn lines_read(&self) -> nat {
        read_count(self.previous_answer_line_number)
    }

    /// The accumulator is consistent: its state is reachable, and the lines
    /// read so far are exactly the complete lines of the answer.
    pub closed spec fn wf(&self) -> bool {
        &&& machine_wf(self.state())
        &&& self.previous_answer_line_number == if newline_count(self.answer()) == 0 {
            None::<usize>
        } else {
            Some((newline_count(self.answer()) - 1) as usize)
        }
    }

    /// An accumulator for the code `code_to_edit`, whose first line is
    /// numbered `start_line`, that sends its edit events on `sender`.
    pub fn new(code_to_edit: String, start_line: usize, sender: UnboundedSender<EditDelta>) -> (res:
        Self)
        ensures
            res.wf(),
            res.state() == initial_machine(code_to_edit@, start_line),
            res.answer() == Seq::<char>::empty(),
            res.sent() == Seq::<EditEvent>::empty(),
            res.lines_read() == 0,
    {
        let code = chars_of(code_to_edit.as_str());
        let code_lines = split_lines(&code);
        let updated_block: Vec<Vec<char>> = Vec::new();
        assert(views(updated_block@) =~= Seq::<Seq<char>>::empty());
        SearchAndReplaceAccumulator {
            edit: EditState {
                code_lines,
                start_line,
                search_block_status: SearchBlockStatus::NoBlock,
                updated_block,
            },
            answer_up_until_now: Vec::new(),
            previous_answer_line_number: None,
            sink: EditSink::new(sender),
        }
    }

    /// The lines of the code as edited so far.
    pub fn code_lines(&self) -> (res: Vec<String>)
        ensures
            res@.len() == self.state().code.len(),
            forall|i: int| 0 <= i < res@.len() ==> #[trigger] res@[i]@ == self.state().code[i],
    {
        let lines = &self.edit.code_lines;
        let mut res: Vec<String> = Vec::new();
        let mut i: usize = 0;
        while i < lines.len()
            invariant
                i <= lines.len(),
                res@.len() == i,
                forall|j: int| 0 <= j < i ==> #[trigger] res@[j]@ == lines@[j]@,
            decreases lines.len() - i,
        {
            res.push(string_of(&lines[i]));
            i = i + 1;
        }
        res
    }

    /// The code as edited so far: its lines joined with line feeds.
    pub fn code(&self) -> (res: String)
        ensures
            res@ == join(self.state().code),
    {
        let lines = &self.edit.code_lines;
        let text = join_range(lines, 0, lines.len());
        assert(views(lines@).subrange(0, lines@.len() as int) =~= views(lines@));
        string_of(&text)
    }

    /// Whether `add_delta` can take `delta`: reading the lines it completes
    /// asks for no line number past a `usize`.
    pub fn delta_fits(&self, delta: &str) -> (res: bool)
        requires
            self.wf(),
        ensures
            res == feed_fits(self.state(), self.answer(), delta@),
    {
        let d = chars_of(delta);
        let mut answer = copy_range(&self.answer_up_until_now, 0, self.answer_up_until_now.len());
        assert(self.answer().subrange(0, self.answer().len() as int) =~= self.answer());
        let from = count_newlines(&answer);
        append_chars(&mut answer, &d);
        let to = count_newlines(&answer);
        let answer_lines = split_lines(&answer);
        proof {
            lemma_newline_count_add(self.answer(), delta@);
            lemma_lines_prefix(answer@, Seq::empty());
            assert(answer@ + Seq::<char>::empty() =~= answer@);
        }
        let markers = Markers::new();
        let mut state = self.edit.duplicate();
        let ghost all = lines(answer@).subrange(from as int, to as int);
        let mut k = from;
        assert(answer@ =~= self.answer() + delta@);
        while k < to
            invariant
                answer@ == self.answer() + delta@,
                from == newline_count(self.answer()),
                to == newline_count(answer@),
                from <= k <= to,
                to <= lines(answer@).len(),
                views(answer_lines@) == lines(answer@),
                markers.wf(),
                machine_wf(state.model()),
                all == lines(answer@).subrange(from as int, to as int),
                run_fits(self.state(), all) == run_fits(
                    state.model(),
                    lines(answer@).subrange(k as int, to as int),
                ),
            decreases to - k,
        {
            let ghost rest = lines(answer@).subrange(k as int, to as int);
            assert(rest[0] == answer_lines@[k as int]@);
            assert(rest.drop_first() =~= lines(answer@).subrange(k + 1, to as int));
            if !state.line_fits(&answer_lines[k], &markers) {
                assert(!run_fits(state.model(), rest));
                return false;
            }
            let _ = state.read_line(&answer_lines[k], &markers);
            k = k + 1;
        }
        true
    }

    /// Adds a piece of the streamed answer and reads the lines it completes.
    pub fn add_delta(&mut self, delta: String)
        requires
            old(self).wf(),
            feed_fits(old(self).state(), old(self).answer(), delta@),
        ensures
            final(self).wf(),
            final(self).answer() == old(self).answer() + delta@,
            final(self).lines_read() == newline_count(final(self).answer()),
            final(self).state() == feed(old(self).state(), old(self).answer(), delta@).0,
            final(self).sent() == old(self).sent() + feed(
                old(self).state(),
                old(self).answer(),
                delta@,
            ).1,
    {
        let d = chars_of(delta.as_str());
        let ghost read = self.previous_answer_line_number;
        let _ = self.answer_up_until_now.len();
        append_chars(&mut self.answer_up_until_now, &d);
        proof {
            lemma_newline_count_add(old(self).answer(), delta@);
            lemma_newline_count_le_len(old(self).answer());
            assert(read_count(read) == newline_count(old(self).answer()));
            assert(self.answer() == old(self).answer() + delta@);
            assert(self.state() == old(self).state());
        }
        self.process_answer();
        let _ = self.answer_up_until_now.len();
        proof {
            lemma_newline_count_le_len(self.answer());
        }
    }

    /// Reads the complete lines of the answer not read yet.
    fn process_answer(&mut self)
        requires
            machine_wf(old(self).state()),
            read_count(old(self).previous_answer_line_number) <= newline_count(old(self).answer()),
            run_fits(
                old(self).state(),
                lines(old(self).answer()).subrange(
                    read_count(old(self).previous_answer_line_number) as int,
                    newline_count(old(self).answer()) as int,
                ),
            ),
        ensures
            final(self).wf(),
            final(self).answer() == old(self).answer(),
            final(self).state() == run(
                old(self).state(),
                lines(old(self).answer()).subrange(
                    read_count(old(self).previous_answer_line_number) as int,
                    newline_count(old(self).answer()) as int,
                ),
            ).0,
            final(self).sent() == old(self).sent() + run(
                old(self).state(),
                lines(old(self).answer()).subrange(
                    read_count(old(self).previous_answer_line_number) as int,
                    newline_count(old(self).answer()) as int,
                ),
            ).1,
    {
        let ghost a = self.answer();
        let ghost m0 = self.state();
        let ghost start = read_count(self.previous_answer_line_number);
        let n = match last_newline_line_number_chars(&self.answer_up_until_now) {
            None => {
                assert(lines(a).subrange(0, 0) =~= Seq::<Seq<char>>::empty());
                assert(self.sent() + Seq::<EditEvent>::empty() =~= self.sent());
                return ;
            },
            Some(n) => n,
        };
        let until = n - 1;
        let answer_lines = split_lines(&self.answer_up_until_now);
        proof {
            lemma_lines_prefix(a, Seq::empty());
            assert(a + Seq::<char>::empty() =~= a);
        }
        let start_index = match self.previous_answer_line_number {
            None => 0,
            Some(p) => p + 1,
        };
        let markers = Markers::new();
        let mut line_number = start_index;
        let ghost all = lines(a).subrange(start as int, n as int);
        let ghost mut done: Seq<EditEvent> = Seq::empty();
        assert(lines(a).subrange(start_index as int, n as int) == all);
        while line_number <= until
            invariant
                n == newline_count(a),
                n >= 1,
                until == n - 1,
                n <= lines(a).len(),
                views(answer_lines@) == lines(a),
                start == start_index,
                start_index <= line_number <= n,
                self.answer() == a,
                markers.wf(),
                machine_wf(self.state()),
                all == lines(a).subrange(start as int, n as int),
                run(m0, all) == (
                    run(self.state(), lines(a).subrange(line_number as int, n as int)).0,
                    done + run(self.state(), lines(a).subrange(line_number as int, n as int)).1,
                ),
                run_fits(self.state(), lines(a).subrange(line_number as int, n as int)),
                self.sent() == old(self).sent() + done,
                line_number == start_index ==> self.previous_answer_line_number == old(
                    self,
                ).previous_answer_line_number,
                line_number > start_index ==> self.previous_answer_line_number == Some(
                    (line_number - 1) as usize,
                ),
            decreases n - line_number,
        {
            let ghost cur = self.state();
            let ghost rest = lines(a).subrange(line_number as int, n as int);
            let ghost line = lines(a)[line_number as int];
            assert(rest[0] == line);
            assert(rest.drop_first() =~= lines(a).subrange(line_number + 1, n as int));
            self.previous_answer_line_number = Some(line_number);
            assert(answer_lines@[line_number as int]@ == line);
            let event = self.edit.read_line(&answer_lines[line_number], &markers);
            match event {
                Some(delta) => {
                    self.sink.send(delta);
                },
                None => {},
            }
            proof {
                let (m1, e) = step(cur, line);
                assert(self.sent() =~= old(self).sent() + (done + events_of(e)));
                assert((done + events_of(e)) + run(m1, rest.drop_first()).1 =~= done + (events_of(
                    e,
                ) + run(m1, rest.drop_first()).1));
                done = done + events_of(e);
            }
            line_number = line_number + 1;
        }
        proof {
            assert(lines(a).subrange(n as int, n as int) =~= Seq::<Seq<char>>::empty());
            assert(done + Seq::<EditEvent>::empty() =~= done);
        }
    }
}

/// The number of answer lines read, given the index of the last one read.
pub open spec fn read_count(previous: Option<usize>) -> nat {
    match previous {
        Some(p) => (p + 1) as nat,
        None => 0,
    }
}

} // verus!
