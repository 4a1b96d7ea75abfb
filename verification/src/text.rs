//! Characters, lines and joining: the text model the editor works on.
//!
//! A text is a sequence of characters. Its lines are cut the way `str::lines`
//! cuts them: at each `'\n'`, dropping a `'\r'` just before it, with no empty
//! line after a final `'\n'`.

use vstd::prelude::*;

verus! {

broadcast use vstd::string::group_string_axioms;

/// The one-character text holding a line feed.
pub open spec fn newline() -> Seq<char> {
    seq!['\n']
}

/// The index of the first `'\n'` of `s`, or `s.len()` where there is none.
pub open spec fn first_newline(s: Seq<char>) -> nat
    decreases s.len(),
{
    if s.len() == 0 {
        0
    } else if s[0] == '\n' {
        0
    } else {
        1 + first_newline(s.drop_first())
    }
}

/// A line without its carriage return, where it ends in one.
pub open spec fn strip_cr(line: Seq<char>) -> Seq<char> {
    if line.len() > 0 && line.last() == '\r' {
        line.drop_last()
    } else {
        line
    }
}

/// The lines of a text, as `str::lines` gives them.
pub open spec fn lines(s: Seq<char>) -> Seq<Seq<char>>
    decreases s.len(),
{
    if s.len() == 0 {
        seq![]
    } else {
        let k = first_newline(s);
        if k >= s.len() {
            seq![s]
        } else {
            seq![strip_cr(s.take(k as int))] + lines(s.skip(k + 1 as int))
        }
    }
}

/// The lines of `ls` put back together with a `'\n'` between each two.
pub open spec fn join(ls: Seq<Seq<char>>) -> Seq<char>
    decreases ls.len(),
{
    if ls.len() == 0 {
        seq![]
    } else if ls.len() == 1 {
        ls[0]
    } else {
        ls[0] + newline() + join(ls.drop_first())
    }
}

/// The number of `'\n'` in `s`.
pub open spec fn newline_count(s: Seq<char>) -> nat
    decreases s.len(),
{
    if s.len() == 0 {
        0
    } else {
        newline_count(s.drop_last()) + if s.last() == '\n' {
            1nat
        } else {
            0nat
        }
    }
}

/// The texts held by a vector of character vectors.
pub open spec fn views(ls: Seq<Vec<char>>) -> Seq<Seq<char>> {
    Seq::new(ls.len(), |i: int| ls[i]@)
}

/// No character of `s` is a line feed.
pub open spec fn has_no_newline(s: Seq<char>) -> bool {
    forall|i: int| 0 <= i < s.len() ==> s[i] != '\n'
}

/// The position of the first line feed, when every character before `k` is
/// none and `k` is one or the end.
pub proof fn lemma_first_newline_at(s: Seq<char>, k: int)
    requires
        0 <= k <= s.len(),
        forall|i: int| 0 <= i < k ==> s[i] != '\n',
        k == s.len() || s[k] == '\n',
    ensures
        first_newline(s) == k,
    decreases k,
{
    if k > 0 {
        let t = s.drop_first();
        assert forall|i: int| 0 <= i < k - 1 implies t[i] != '\n' by {
            assert(t[i] == s[i + 1]);
        }
        lemma_first_newline_at(t, k - 1);
    }
}

/// `first_newline` is at most the length.
pub proof fn lemma_first_newline_bound(s: Seq<char>)
    ensures
        first_newline(s) <= s.len(),
        first_newline(s) < s.len() ==> s[first_newline(s) as int] == '\n',
        forall|i: int| 0 <= i < first_newline(s) ==> s[i] != '\n',
    decreases s.len(),
{
    if s.len() > 0 && s[0] != '\n' {
        let t = s.drop_first();
        lemma_first_newline_bound(t);
        assert forall|i: int| 0 <= i < first_newline(s) implies s[i] != '\n' by {
            if i > 0 {
                assert(s[i] == t[i - 1]);
            }
        }
    }
}

/// A line feed in front: the lines of `x + "\n" + rest`, where `x` has none.
pub proof fn lemma_lines_of_line_then_rest(x: Seq<char>, rest: Seq<char>)
    requires
        has_no_newline(x),
    ensures
        lines(x + newline() + rest) == seq![strip_cr(x)] + lines(rest),
{
    let s = x + newline() + rest;
    lemma_first_newline_at(s, x.len() as int);
    assert(s.take(x.len() as int) =~= x);
    assert(s.skip(x.len() + 1 as int) =~= rest);
}

/// Joining one more line at the end.
pub proof fn lemma_join_push(ls: Seq<Seq<char>>, x: Seq<char>)
    requires
        ls.len() > 0,
    ensures
        join(ls.push(x)) == join(ls) + newline() + x,
    decreases ls.len(),
{
    if ls.len() == 1 {
        assert(ls.push(x).drop_first() =~= seq![x]);
        assert(join(seq![x]) == x);
        assert(join(ls) == ls[0]);
        assert(join(ls.push(x)) == ls[0] + newline() + join(seq![x]));
    } else {
        let rest = ls.drop_first();
        lemma_join_push(rest, x);
        assert(ls.push(x).drop_first() =~= rest.push(x));
        assert(join(ls.push(x)) == ls[0] + newline() + join(rest.push(x)));
        assert(join(ls.push(x)) =~= join(ls) + newline() + x);
    }
}

/// The count of line feeds adds up over concatenation.
pub proof fn lemma_newline_count_add(a: Seq<char>, b: Seq<char>)
    ensures
        newline_count(a + b) == newline_count(a) + newline_count(b),
    decreases b.len(),
{
    if b.len() == 0 {
        assert(a + b =~= a);
    } else {
        lemma_newline_count_add(a, b.drop_last());
        assert((a + b).drop_last() =~= a + b.drop_last());
        assert((a + b).last() == b.last());
    }
}

/// A text without line feeds counts none.
pub proof fn lemma_no_newline_count(x: Seq<char>)
    requires
        has_no_newline(x),
    ensures
        newline_count(x) == 0,
    decreases x.len(),
{
    if x.len() > 0 {
        lemma_no_newline_count(x.drop_last());
    }
}

/// The complete lines of a text stay as they are when text is added after it,
/// and there are at least as many lines as line feeds.
pub proof fn lemma_lines_prefix(a: Seq<char>, d: Seq<char>)
    ensures
        newline_count(a) <= lines(a).len(),
        newline_count(a) <= lines(a + d).len(),
        lines(a + d).take(newline_count(a) as int) == lines(a).take(newline_count(a) as int),
    decreases a.len(),
{
    let c = newline_count(a);
    if c == 0 {
        assert(lines(a + d).take(0) =~= lines(a).take(0));
    } else {
        lemma_first_newline_bound(a);
        let k = first_newline(a);
        if k == a.len() {
            lemma_no_newline_count(a);
        }
        let x = a.take(k as int);
        let rest = a.skip(k + 1 as int);
        assert(has_no_newline(x));
        assert(a =~= x + newline() + rest);
        assert(a + d =~= x + newline() + (rest + d));
        lemma_lines_of_line_then_rest(x, rest);
        lemma_lines_of_line_then_rest(x, rest + d);
        lemma_no_newline_count(x);
        lemma_newline_count_add(x, newline());
        lemma_newline_count_add(x + newline(), rest);
        assert(newline_count(newline()) == 1) by {
            reveal_with_fuel(newline_count, 2);
            assert(newline().drop_last() =~= Seq::<char>::empty());
        }
        lemma_lines_prefix(rest, d);
        assert(c == newline_count(rest) + 1);
        assert(lines(a) == seq![strip_cr(x)] + lines(rest));
        assert(lines(a + d) == seq![strip_cr(x)] + lines(rest + d));
        assert(lines(a + d).take(c as int) =~= seq![strip_cr(x)] + lines(rest + d).take(
            c - 1,
        ));
        assert(lines(a).take(c as int) =~= seq![strip_cr(x)] + lines(rest).take(c - 1));
    }
}

/// There are no more line feeds than characters.
pub proof fn lemma_newline_count_le_len(s: Seq<char>)
    ensures
        newline_count(s) <= s.len(),
    decreases s.len(),
{
    if s.len() > 0 {
        lemma_newline_count_le_len(s.drop_last());
    }
}

/// A line is exactly the characters before its line feed: a carriage return
/// just before the line feed is dropped and nothing else is. A last line
/// without a line feed is kept whole, and an empty text has no lines.
pub proof fn law_lines_cut_at_line_feeds(x: Seq<char>, rest: Seq<char>)
    requires
        has_no_newline(x),
    ensures
        (x.len() == 0 || x.last() != '\r') ==> lines(x + newline() + rest) == seq![x] + lines(
            rest,
        ),
        lines(x + seq!['\r', '\n'] + rest) == seq![x] + lines(rest),
        x.len() > 0 ==> lines(x) == seq![x],
        lines(Seq::<char>::empty()) == Seq::<Seq<char>>::empty(),
{
    lemma_lines_of_line_then_rest(x, rest);
    let xr = x.push('\r');
    assert(has_no_newline(xr)) by {
        assert forall|i: int| 0 <= i < xr.len() implies xr[i] != '\n' by {
            if i < x.len() {
                assert(xr[i] == x[i]);
            }
        }
    }
    lemma_lines_of_line_then_rest(xr, rest);
    assert(x + seq!['\r', '\n'] + rest =~= xr + newline() + rest);
    assert(xr.drop_last() =~= x);
    if x.len() > 0 {
        lemma_first_newline_at(x, x.len() as int);
    }
}

/// A text has one line per line feed, and one more where it ends in
/// something other than a line feed.
pub proof fn law_line_count(t: Seq<char>)
    ensures
        lines(t).len() == newline_count(t) + if t.len() > 0 && t.last() != '\n' {
            1nat
        } else {
            0nat
        },
    decreases t.len(),
{
    if t.len() > 0 {
        lemma_first_newline_bound(t);
        let k = first_newline(t);
        if k == t.len() {
            lemma_no_newline_count(t);
        } else {
            let x = t.take(k as int);
            let rest = t.skip(k + 1 as int);
            assert(has_no_newline(x));
            assert(t =~= x + newline() + rest);
            lemma_lines_of_line_then_rest(x, rest);
            law_line_count(rest);
            lemma_no_newline_count(x);
            lemma_newline_count_add(x, newline());
            lemma_newline_count_add(x + newline(), rest);
            assert(newline_count(newline()) == 1) by {
                reveal_with_fuel(newline_count, 2);
                assert(newline().drop_last() =~= Seq::<char>::empty());
            }
            if rest.len() > 0 {
                assert(t.last() == rest.last());
            } else {
                assert(t.last() == '\n');
            }
        }
    }
}

/// Cutting a text into lines and joining them with line feeds gives the text
/// back, where it holds no carriage return and does not end in a line feed.
pub proof fn law_lines_join_round_trip(t: Seq<char>)
    requires
        forall|i: int| 0 <= i < t.len() ==> t[i] != '\r',
        t.len() == 0 || t.last() != '\n',
    ensures
        join(lines(t)) == t,
    decreases t.len(),
{
    if t.len() > 0 {
        lemma_first_newline_bound(t);
        let k = first_newline(t);
        if k < t.len() {
            let x = t.take(k as int);
            let rest = t.skip(k + 1 as int);
            assert(has_no_newline(x));
            assert(t =~= x + newline() + rest);
            assert(rest.len() > 0) by {
                if rest.len() == 0 {
                    assert(t.last() == t[k as int]);
                }
            }
            assert(x.len() == 0 || x.last() != '\r') by {
                if x.len() > 0 {
                    assert(x.last() == t[k - 1]);
                }
            }
            law_lines_cut_at_line_feeds(x, rest);
            assert(rest.last() == t.last());
            assert forall|i: int| 0 <= i < rest.len() implies rest[i] != '\r' by {
                assert(rest[i] == t[k + 1 + i]);
            }
            law_lines_join_round_trip(rest);
            law_line_count(rest);
            let ls = seq![x] + lines(rest);
            assert(ls.len() >= 2);
            assert(ls.drop_first() =~= lines(rest));
            assert(join(ls) == x + newline() + join(lines(rest)));
        }
    }
}

/// Copies the characters of `s` into a vector.
pub fn chars_of(s: &str) -> (res: Vec<char>)
    ensures
        res@ == s@,
{
    let mut res: Vec<char> = Vec::new();
    for c in it: s.chars()
        invariant
            res@ == it.seq().take(it.index() as int),
            it.seq() == s@,
    {
        res.push(c);
    }
    res
}

/// Copies the characters `v[from..to]` into a new vector.
pub fn copy_range(v: &Vec<char>, from: usize, to: usize) -> (res: Vec<char>)
    requires
        from <= to <= v.len(),
    ensures
        res@ == v@.subrange(from as int, to as int),
{
    let mut res: Vec<char> = Vec::new();
    let mut i = from;
    while i < to
        invariant
            from <= i <= to <= v.len(),
            res@ == v@.subrange(from as int, i as int),
        decreases to - i,
    {
        res.push(v[i]);
        i = i + 1;
    }
    res
}

/// Copies the lines of `v`.
pub fn copy_lines(v: &Vec<Vec<char>>) -> (res: Vec<Vec<char>>)
    ensures
        views(res@) == views(v@),
{
    let mut res: Vec<Vec<char>> = Vec::new();
    let mut i: usize = 0;
    while i < v.len()
        invariant
            i <= v.len(),
            res@.len() == i,
            forall|j: int| 0 <= j < i ==> #[trigger] res@[j]@ == v@[j]@,
        decreases v.len() - i,
    {
        let line = &v[i];
        res.push(copy_range(line, 0, line.len()));
        assert(line@.subrange(0, line@.len() as int) =~= line@);
        i = i + 1;
    }
    assert(views(res@) =~= views(v@));
    res
}

/// Appends the characters of `b` to `a`.
pub fn append_chars(a: &mut Vec<char>, b: &Vec<char>)
    ensures
        final(a)@ == old(a)@ + b@,
{
    let mut i: usize = 0;
    while i < b.len()
        invariant
            i <= b.len(),
            a@ == old(a)@ + b@.take(i as int),
        decreases b.len() - i,
    {
        a.push(b[i]);
        i = i + 1;
        assert(b@.take(i as int) =~= b@.take(i - 1).push(b@[i - 1]));
    }
    assert(b@.take(b.len() as int) =~= b@);
}

/// Whether two texts are the same.
pub fn chars_eq(a: &Vec<char>, b: &Vec<char>) -> (res: bool)
    ensures
        res == (a@ == b@),
{
    if a.len() != b.len() {
        return false;
    }
    let mut i: usize = 0;
    while i < a.len()
        invariant
            i <= a.len() == b.len(),
            forall|j: int| 0 <= j < i ==> a@[j] == b@[j],
        decreases a.len() - i,
    {
        if a[i] != b[i] {
            return false;
        }
        i = i + 1;
    }
    assert(a@ =~= b@);
    true
}

/// The lines of the text `s`.
pub fn split_lines(s: &Vec<char>) -> (res: Vec<Vec<char>>)
    ensures
        views(res@) == lines(s@),
{
    let mut res: Vec<Vec<char>> = Vec::new();
    let mut pos: usize = 0;
    assert(s@.skip(0) =~= s@);
    while pos < s.len()
        invariant
            pos <= s.len(),
            views(res@) + lines(s@.skip(pos as int)) == lines(s@),
        decreases s.len() - pos,
    {
        let ghost rest = s@.skip(pos as int);
        let mut j = pos;
        while j < s.len() && s[j] != '\n'
            invariant
                pos <= j <= s.len(),
                forall|t: int| pos <= t < j ==> s@[t] != '\n',
            decreases s.len() - j,
        {
            j = j + 1;
        }
        proof {
            assert forall|t: int| 0 <= t < j - pos implies rest[t] != '\n' by {
                assert(rest[t] == s@[pos + t]);
            }
            lemma_first_newline_at(rest, j - pos);
        }
        let mut piece = copy_range(s, pos, j);
        assert(piece@ == rest.take(j - pos));
        if j < s.len() {
            if piece.len() > 0 && piece[piece.len() - 1] == '\r' {
                piece.pop();
            }
            assert(piece@ == strip_cr(rest.take(j - pos)));
            let ghost old_res = views(res@);
            let ghost old_vec = res@;
            res.push(piece);
            proof {
                assert(rest.skip(j - pos + 1) =~= s@.skip(j + 1));
                assert(res@ == old_vec.push(piece));
                assert(views(res@) =~= old_res.push(piece@));
                assert(lines(rest) == seq![strip_cr(rest.take(j - pos))] + lines(
                    s@.skip(j + 1),
                ));
                assert(views(res@) + lines(s@.skip(j + 1)) =~= old_res + lines(rest));
            }
            pos = j + 1;
        } else {
            let ghost old_res = views(res@);
            let ghost old_vec = res@;
            res.push(piece);
            proof {
                assert(res@ == old_vec.push(piece));
                assert(views(res@) =~= old_res.push(piece@));
                assert(rest.take(j - pos) =~= rest);
                assert(lines(rest) == seq![rest]);
                assert(s@.skip(j as int).len() == 0);
                assert(lines(s@.skip(j as int)) =~= Seq::<Seq<char>>::empty());
                assert(views(res@) + lines(s@.skip(j as int)) =~= old_res + lines(rest));
            }
            pos = j;
        }
    }
    proof {
        assert(s@.skip(pos as int).len() == 0);
        assert(lines(s@.skip(pos as int)) =~= Seq::<Seq<char>>::empty());
        assert(views(res@) + lines(s@.skip(pos as int)) =~= views(res@));
    }
    res
}

/// The lines `ls[from..to]` joined with line feeds.
pub fn join_range(ls: &Vec<Vec<char>>, from: usize, to: usize) -> (res: Vec<char>)
    requires
        from <= to <= ls.len(),
    ensures
        res@ == join(views(ls@).subrange(from as int, to as int)),
{
    let mut res: Vec<char> = Vec::new();
    if from == to {
        return res;
    }
    let mut i = from;
    while i < to
        invariant
            from <= i <= to <= ls.len(),
            from < to,
            i == from ==> res@.len() == 0,
            i > from ==> res@ == join(views(ls@).subrange(from as int, i as int)),
        decreases to - i,
    {
        let ghost before = views(ls@).subrange(from as int, i as int);
        if i > from {
            res.push('\n');
        }
        append_chars(&mut res, &ls[i]);
        proof {
            let after = views(ls@).subrange(from as int, i + 1);
            if i > from {
                assert(after =~= before.push(views(ls@)[i as int]));
                lemma_join_push(before, views(ls@)[i as int]);
                assert(res@ =~= join(after));
            } else {
                assert(after =~= seq![views(ls@)[i as int]]);
                assert(res@ =~= join(after));
            }
        }
        i = i + 1;
    }
    res
}

/// The number of line feeds in `s`.
pub fn count_newlines(s: &Vec<char>) -> (res: usize)
    ensures
        res == newline_count(s@),
{
    let mut n: usize = 0;
    let mut i: usize = 0;
    assert(s@.take(0) =~= Seq::<char>::empty());
    while i < s.len()
        invariant
            i <= s.len(),
            n == newline_count(s@.take(i as int)),
            n <= i,
        decreases s.len() - i,
    {
        assert(s@.take(i + 1).drop_last() =~= s@.take(i as int));
        if s[i] == '\n' {
            n = n + 1;
        }
        i = i + 1;
    }
    assert(s@.take(s.len() as int) =~= s@);
    n
}

/// Appends `c` to `s` with std's `String::push`; the contract claims what its
/// documentation says: the string afterwards is the old one followed by `c`.
#[verifier::external_body]
pub fn push_char(s: &mut String, c: char)
    ensures
        final(s)@ == old(s)@.push(c),
{
    s.push(c)
}

/// A `String` holding the characters of `v`.
pub fn string_of(v: &Vec<char>) -> (res: String)
    ensures
        res@ == v@,
{
    let mut res = String::new();
    let mut i: usize = 0;
    while i < v.len()
        invariant
            i <= v.len(),
            res@ == v@.take(i as int),
        decreases v.len() - i,
    {
        push_char(&mut res, v[i]);
        i = i + 1;
        assert(v@.take(i as int) =~= v@.take(i - 1).push(v@[i - 1]));
    }
    assert(v@.take(v.len() as int) =~= v@);
    res
}

} // verus!
