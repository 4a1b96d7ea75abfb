//! Finding where a search block stands in the code.

use vstd::prelude::*;

use crate::range::{line_range, Position, Range};
use crate::text::{
    chars_eq, chars_of, copy_lines, copy_range, count_newlines, lines, newline_count, split_lines,
    views,
};

verus! {

/// The lines of `block` stand in `code` from line `i` on.
pub open spec fn block_matches_at(code: Seq<Seq<char>>, block: Seq<Seq<char>>, i: int) -> bool {
    &&& 0 <= i
    &&& i + block.len() <= code.len()
    &&& code.subrange(i, i + block.len()) == block
}

/// The first line at or after `i` where `block` stands in `code`.
pub open spec fn first_match_from(code: Seq<Seq<char>>, block: Seq<Seq<char>>, i: int) -> Option<
    int,
>
    decreases code.len() + 1 - i,
{
    if i < 0 || i + block.len() > code.len() {
        None
    } else if block_matches_at(code, block, i) {
        Some(i)
    } else {
        first_match_from(code, block, i + 1)
    }
}

/// Where the lines of the text `block` first stand in the lines of the text
/// `code`, as a range of lines numbered from `start_line`.
pub open spec fn search_block_range(code: Seq<char>, start_line: int, block: Seq<char>) -> Option<
    Range,
> {
    match first_match_from(lines(code), lines(block), 0) {
        Some(i) => Some(line_range(start_line + i, start_line + i + lines(block).len() - 1)),
        None => None,
    }
}

/// What `get_range_for_search_block` needs to run: a search block of at least
/// one line, and line numbers that fit in a `usize`.
pub open spec fn search_block_fits(code: Seq<char>, start_line: int, block: Seq<char>) -> bool {
    &&& lines(block).len() > 0
    &&& start_line + lines(code).len() <= usize::MAX + 1
}

/// `first_match_from` gives the first match at or after `i`, and none means
/// there is none there.
pub proof fn lemma_first_match_from(code: Seq<Seq<char>>, block: Seq<Seq<char>>, i: int)
    requires
        0 <= i,
    ensures
        first_match_from(code, block, i) matches Some(k) ==> {
            &&& i <= k
            &&& block_matches_at(code, block, k)
            &&& forall|j: int| i <= j < k ==> !block_matches_at(code, block, j)
        },
        first_match_from(code, block, i) is None ==> forall|j: int|
            i <= j ==> !block_matches_at(code, block, j),
    decreases code.len() + 1 - i,
{
    if i + block.len() <= code.len() && !block_matches_at(code, block, i) {
        lemma_first_match_from(code, block, i + 1);
    }
}

/// Whether the lines of `block` stand in `code` from line `i` on.
pub(crate) fn lines_match_at(code: &Vec<Vec<char>>, block: &Vec<Vec<char>>, i: usize) -> (res: bool)
    requires
        i + block.len() <= code.len(),
    ensures
        res == block_matches_at(views(code@), views(block@), i as int),
{
    let mut j: usize = 0;
    while j < block.len()
        invariant
            j <= block.len(),
            i + block.len() <= code.len(),
            forall|t: int| 0 <= t < j ==> code@[i + t]@ == block@[t]@,
        decreases block.len() - j,
    {
        if !chars_eq(&code[i + j], &block[j]) {
            assert(views(code@).subrange(i as int, i + block.len())[j as int] != views(
                block@,
            )[j as int]);
            return false;
        }
        j = j + 1;
    }
    assert(views(code@).subrange(i as int, i + block.len()) =~= views(block@));
    true
}

/// The range of the first place where the lines `block` stand in `code`.
pub fn find_block(code: &Vec<Vec<char>>, start_line: usize, block: &Vec<Vec<char>>) -> (res:
    Option<Range>)
    requires
        block.len() > 0,
        start_line + code.len() <= usize::MAX + 1,
    ensures
        res == match first_match_from(views(code@), views(block@), 0) {
            Some(i) => Some(line_range(start_line + i, start_line + i + block.len() - 1)),
            None => None,
        },
{
    if code.len() < block.len() {
        return None;
    }
    let last = code.len() - block.len();
    let mut i: usize = 0;
    while i <= last
        invariant
            last == code.len() - block.len(),
            block.len() > 0,
            start_line + code.len() <= usize::MAX + 1,
            first_match_from(views(code@), views(block@), 0) == first_match_from(
                views(code@),
                views(block@),
                i as int,
            ),
        decreases last + 1 - i,
    {
        if lines_match_at(code, block, i) {
            let start = Position::new(i + start_line, 0, 0);
            let end = Position::new(i + block.len() - 1 + start_line, 0, 0);
            return Some(Range::new(start, end));
        }
        i = i + 1;
    }
    None
}

/// The range of lines, numbered from `start_line`, where the lines of
/// `search_block` first stand in the lines of `code_to_look_at`.
pub fn get_range_for_search_block(code_to_look_at: &str, start_line: usize, search_block: &str) -> (res:
    Option<Range>)
    requires
        search_block_fits(code_to_look_at@, start_line as int, search_block@),
    ensures
        res == search_block_range(code_to_look_at@, start_line as int, search_block@),
        res is None <==> forall|i: int|
            !block_matches_at(lines(code_to_look_at@), lines(search_block@), i),
        res matches Some(r) ==> {
            let i = r.start_position.line - start_line;
            &&& block_matches_at(lines(code_to_look_at@), lines(search_block@), i)
            &&& forall|j: int|
                0 <= j < i ==> !block_matches_at(lines(code_to_look_at@), lines(search_block@), j)
            &&& r.end_position.line == r.start_position.line + lines(search_block@).len() - 1
        },
{
    let code = chars_of(code_to_look_at);
    let block = chars_of(search_block);
    search_range_chars(&code, start_line, &block)
}

/// `get_range_for_search_block` on texts held as characters.
pub fn search_range_chars(code: &Vec<char>, start_line: usize, block: &Vec<char>) -> (res: Option<
    Range,
>)
    requires
        search_block_fits(code@, start_line as int, block@),
    ensures
        res == search_block_range(code@, start_line as int, block@),
        res is None <==> forall|i: int| !block_matches_at(lines(code@), lines(block@), i),
        res matches Some(r) ==> {
            let i = r.start_position.line - start_line;
            &&& block_matches_at(lines(code@), lines(block@), i)
            &&& forall|j: int| 0 <= j < i ==> !block_matches_at(lines(code@), lines(block@), j)
            &&& r.end_position.line == r.start_position.line + lines(block@).len() - 1
        },
{
    let code_lines = split_lines(code);
    let block_lines = split_lines(block);
    let res = find_block(&code_lines, start_line, &block_lines);
    proof {
        lemma_first_match_from(lines(code@), lines(block@), 0);
        assert forall|i: int| i < 0 implies !block_matches_at(lines(code@), lines(block@), i) by {}
    }
    res
}

/// The number of lines that end in a line feed, which is the number of line
/// feeds; none where the text has no line feed.
pub fn get_last_newline_line_number(s: &str) -> (res: Option<usize>)
    ensures
        res is None <==> newline_count(s@) == 0,
        res matches Some(k) ==> k == newline_count(s@),
{
    let chars = chars_of(s);
    last_newline_line_number_chars(&chars)
}

/// `get_last_newline_line_number` on a text held as characters.
pub fn last_newline_line_number_chars(s: &Vec<char>) -> (res: Option<usize>)
    ensures
        res is None <==> newline_count(s@) == 0,
        res matches Some(k) ==> k == newline_count(s@),
{
    let n = count_newlines(s);
    if n == 0 {
        None
    } else {
        Some(n)
    }
}

/// The lines of `code` with every place where the lines `search` stand
/// replaced by the lines `replacement`: the places are taken from the start
/// on, and a place that overlaps one already replaced is not taken.
pub open spec fn replace_all(
    code: Seq<Seq<char>>,
    search: Seq<Seq<char>>,
    replacement: Seq<Seq<char>>,
) -> Seq<Seq<char>>
    decreases code.len(),
{
    if search.len() == 0 || code.len() < search.len() {
        code
    } else if code.take(search.len() as int) == search {
        replacement + replace_all(code.skip(search.len() as int), search, replacement)
    } else {
        seq![code[0]] + replace_all(code.drop_first(), search, replacement)
    }
}

/// The lines `code` with every place where the lines `search` stand replaced
/// by the lines `replacement`.
pub fn replace_all_lines(
    code: &Vec<Vec<char>>,
    search: &Vec<Vec<char>>,
    replacement: &Vec<Vec<char>>,
) -> (res: Vec<Vec<char>>)
    requires
        search.len() > 0,
    ensures
        views(res@) == replace_all(views(code@), views(search@), views(replacement@)),
{
    let ghost c = views(code@);
    let ghost s = views(search@);
    let ghost r = views(replacement@);
    let mut res: Vec<Vec<char>> = Vec::new();
    let n = code.len();
    let k = search.len();
    let mut i: usize = 0;
    assert(c.skip(0) =~= c);
    while i < n
        invariant
            i <= n == code.len(),
            k == search.len() > 0,
            c == views(code@),
            s == views(search@),
            r == views(replacement@),
            views(res@) + replace_all(c.skip(i as int), s, r) == replace_all(c, s, r),
        decreases n - i,
    {
        let ghost rest = c.skip(i as int);
        let ghost before = views(res@);
        if k <= n - i && lines_match_at(code, search, i) {
            assert(rest.take(k as int) =~= c.subrange(i as int, i + k));
            assert(rest.skip(k as int) =~= c.skip(i + k));
            let copies = copy_lines(replacement);
            let mut j: usize = 0;
            while j < copies.len()
                invariant
                    j <= copies.len(),
                    views(copies@) == r,
                    views(res@) == before + r.take(j as int),
                decreases copies.len() - j,
            {
                let line = &copies[j];
                let ghost old_res = res@;
                res.push(copy_range(line, 0, line.len()));
                assert(line@.subrange(0, line@.len() as int) =~= line@);
                assert(views(copies@)[j as int] == copies@[j as int]@);
                assert(r.take(j + 1) =~= r.take(j as int).push(copies@[j as int]@));
                assert(views(res@) =~= views(old_res).push(line@));
                assert(views(res@) =~= before + r.take(j + 1));
                j = j + 1;
            }
            assert(r.take(r.len() as int) =~= r);
            assert(views(res@) + replace_all(c.skip(i + k), s, r) =~= before + (r + replace_all(
                rest.skip(k as int),
                s,
                r,
            )));
            i = i + k;
        } else {
            let line = &code[i];
            let ghost old_res = res@;
            res.push(copy_range(line, 0, line.len()));
            assert(line@.subrange(0, line@.len() as int) =~= line@);
            assert(rest.drop_first() =~= c.skip(i + 1));
            assert(views(res@) =~= views(old_res).push(line@));
            assert(views(res@) =~= before.push(c[i as int]));
            if k <= n - i {
                assert(rest.take(k as int) =~= c.subrange(i as int, i + k));
                assert(replace_all(rest, s, r) == seq![c[i as int]] + replace_all(
                    rest.drop_first(),
                    s,
                    r,
                ));
            } else {
                assert(replace_all(rest, s, r) == rest);
                assert(replace_all(rest.drop_first(), s, r) == rest.drop_first());
                assert(rest =~= seq![c[i as int]] + rest.drop_first());
            }
            assert(views(res@) + replace_all(c.skip(i + 1), s, r) =~= before + (seq![c[i as int]]
                + replace_all(rest.drop_first(), s, r)));
            i = i + 1;
        }
    }
    assert(c.skip(n as int).len() == 0);
    assert(views(res@) + replace_all(c.skip(n as int), s, r) =~= views(res@));
    res
}

} // verus!
