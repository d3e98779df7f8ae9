//! Text files as lists of lines.

use crate::text::{chars_of, texts};
use vstd::prelude::*;
use vstd::string::*;

verus! {

/// The lines as one text, with a line feed behind each of them.
pub open spec fn framed(lines: Seq<Seq<char>>) -> Seq<char>
    decreases lines.len(),
{
    if lines.len() == 0 {
        Seq::empty()
    } else {
        framed(lines.drop_last()) + lines.last() + seq!['\n']
    }
}

/// The index of the first line feed from index `i` on, or the length where there is
/// none.
pub open spec fn line_end(s: Seq<char>, i: int) -> int
    decreases s.len() - i,
{
    if 0 <= i < s.len() && s[i] != '\n' {
        line_end(s, i + 1)
    } else {
        i
    }
}

/// A line without the carriage return that it ends in, if it does.
pub open spec fn without_return(line: Seq<char>) -> Seq<char> {
    if line.len() > 0 && line.last() == '\r' {
        line.drop_last()
    } else {
        line
    }
}

/// The lines of a text from index `i` on. A line ends at a line feed, which is not part
/// of it and neither is a carriage return before it; what follows the last line feed
/// is a line unless it is empty.
pub open spec fn line_list(s: Seq<char>, i: int) -> Seq<Seq<char>>
    decreases s.len() - i,
    via line_list_decreases
{
    if 0 <= i < s.len() {
        let end = line_end(s, i);
        if end < s.len() {
            seq![without_return(s.subrange(i, end))] + line_list(s, end + 1)
        } else {
            seq![s.skip(i)]
        }
    } else {
        Seq::empty()
    }
}

#[via_fn]
proof fn line_list_decreases(s: Seq<char>, i: int) {
    if 0 <= i < s.len() {
        lemma_line_end(s, i);
    }
}

/// Where a line ends.
pub(crate) proof fn lemma_line_end(s: Seq<char>, i: int)
    requires
        0 <= i <= s.len(),
    ensures
        i <= line_end(s, i) <= s.len(),
        line_end(s, i) < s.len() ==> s[line_end(s, i)] == '\n',
        forall|j: int| i <= j < line_end(s, i) ==> #[trigger] s[j] != '\n',
    decreases s.len() - i,
{
    if i < s.len() && s[i] != '\n' {
        lemma_line_end(s, i + 1);
    }
}

/// The characters with the Unicode property `White_Space`.
pub open spec fn white_space(c: char) -> bool {
    let n = c as int;
    ||| 0x9 <= n <= 0xd
    ||| n == 0x20
    ||| n == 0x85
    ||| n == 0xa0
    ||| n == 0x1680
    ||| 0x2000 <= n <= 0x200a
    ||| n == 0x2028
    ||| n == 0x2029
    ||| n == 0x202f
    ||| n == 0x205f
    ||| n == 0x3000
}

/// A line of white space alone.
pub open spec fn blank(line: Seq<char>) -> bool {
    forall|i: int| 0 <= i < line.len() ==> white_space(#[trigger] line[i])
}

/// The lines that are not blank, in their order.
pub open spec fn rows(lines: Seq<Seq<char>>) -> Seq<Seq<char>> {
    lines.filter(|line: Seq<char>| !blank(line))
}

/// The lines as one text, with a line feed behind each of them.
pub fn frame(lines: &Vec<String>) -> (body: String)
    ensures
        body@ == framed(texts(lines@)),
{
    let mut body = "".to_owned();
    proof {
        reveal_strlit("");
        reveal_strlit("\n");
    }
    let ghost all = texts(lines@);
    let mut i: usize = 0;
    while i < lines.len()
        invariant
            i <= lines.len(),
            all == texts(lines@),
            body@ == framed(all.take(i as int)),
            "\n"@ == seq!['\n'],
        decreases lines.len() - i,
    {
        body.append(lines[i].as_str());
        body.append("\n");
        proof {
            let next = all.take(i + 1);
            assert(next.drop_last() =~= all.take(i as int));
            assert(next.last() == lines@[i as int]@);
        }
        i = i + 1;
    }
    assert(all.take(all.len() as int) =~= all);
    body
}

/// `String::push` puts a character behind the text.
pub assume_specification[ String::push ](s: &mut String, c: char)
    ensures
        final(s)@ == old(s)@.push(c),
;

/// The text of some consecutive characters.
fn text_of(chars: &Vec<char>, from: usize, to: usize) -> (r: String)
    requires
        from <= to <= chars.len(),
    ensures
        r@ == chars@.subrange(from as int, to as int),
{
    let mut r = String::new();
    let mut i: usize = from;
    while i < to
        invariant
            from <= i <= to <= chars.len(),
            r@ == chars@.subrange(from as int, i as int),
        decreases to - i,
    {
        r.push(chars[i]);
        assert(chars@.subrange(from as int, i + 1) =~= chars@.subrange(from as int, i as int).push(
            chars@[i as int],
        ));
        i = i + 1;
    }
    r
}

/// The lines of a text.
pub fn split_lines(text: &str) -> (lines: Vec<String>)
    ensures
        texts(lines@) == line_list(text@, 0),
{
    let chars = chars_of(text);
    let ghost s = text@;
    let mut lines: Vec<String> = Vec::new();
    let mut start: usize = 0;
    while start < chars.len()
        invariant
            chars@ == s,
            start <= chars.len(),
            texts(lines@) + line_list(s, start as int) == line_list(s, 0),
        decreases chars.len() - start,
    {
        let mut end: usize = start;
        while end < chars.len() && chars[end] != '\n'
            invariant
                chars@ == s,
                start <= end <= chars.len(),
                line_end(s, start as int) == line_end(s, end as int),
            decreases chars.len() - end,
        {
            end = end + 1;
        }
        let ghost before = lines@;
        let ghost line = s.subrange(start as int, end as int);
        assert(end == line_end(s, start as int));
        if end < chars.len() {
            let stop: usize = if start < end && chars[end - 1] == '\r' {
                end - 1
            } else {
                end
            };
            proof {
                if stop < end {
                    assert(line.drop_last() =~= s.subrange(start as int, stop as int));
                }
                assert(without_return(line) == s.subrange(start as int, stop as int));
            }
            lines.push(text_of(&chars, start, stop));
            proof {
                assert(texts(lines@) =~= texts(before).push(without_return(line)));
                assert(texts(lines@) + line_list(s, end + 1) =~= texts(before) + line_list(
                    s,
                    start as int,
                ));
            }
            start = end + 1;
        } else {
            lines.push(text_of(&chars, start, end));
            proof {
                assert(line =~= s.skip(start as int));
                assert(texts(lines@) =~= texts(before).push(line));
                assert(texts(lines@) =~= texts(before) + line_list(s, start as int));
            }
            start = end;
        }
    }
    assert(texts(lines@) + line_list(s, start as int) =~= texts(lines@));
    lines
}

/// Whether a character has the Unicode property `White_Space`.
pub fn is_white_space(c: char) -> (r: bool)
    ensures
        r == white_space(c),
{
    let n: u32 = c as u32;
    (0x9 <= n && n <= 0xd) || n == 0x20 || n == 0x85 || n == 0xa0 || n == 0x1680 || (0x2000 <= n
        && n <= 0x200a) || n == 0x2028 || n == 0x2029 || n == 0x202f || n == 0x205f || n == 0x3000
}

/// Whether a line is white space alone.
pub fn is_blank(line: &str) -> (r: bool)
    ensures
        r == blank(line@),
{
    let chars = chars_of(line);
    let mut i: usize = 0;
    while i < chars.len()
        invariant
            chars@ == line@,
            i <= chars.len(),
            forall|j: int| 0 <= j < i ==> white_space(#[trigger] chars@[j]),
        decreases chars.len() - i,
    {
        if !is_white_space(chars[i]) {
            assert(!white_space(line@[i as int]));
            return false;
        }
        i = i + 1;
    }
    true
}

/// The lines that are not blank, in their order.
pub fn keep_rows(lines: &Vec<String>) -> (kept: Vec<String>)
    ensures
        texts(kept@) == rows(texts(lines@)),
{
    let ghost all = texts(lines@);
    let mut kept: Vec<String> = Vec::new();
    proof {
        reveal(Seq::filter);
        assert(all.take(0) =~= Seq::<Seq<char>>::empty());
    }
    let mut i: usize = 0;
    while i < lines.len()
        invariant
            i <= lines.len(),
            all == texts(lines@),
            texts(kept@) == rows(all.take(i as int)),
        decreases lines.len() - i,
    {
        let ghost before = kept@;
        proof {
            reveal(Seq::filter);
            let next = all.take(i + 1);
            assert(next.drop_last() =~= all.take(i as int));
            assert(next.last() == lines@[i as int]@);
        }
        if !is_blank(lines[i].as_str()) {
            kept.push(lines[i].clone());
            assert(texts(kept@) =~= texts(before).push(lines@[i as int]@));
        }
        i = i + 1;
    }
    assert(all.take(all.len() as int) =~= all);
    kept
}

// ---------------------------------------------------------------------------
// Laws
// ---------------------------------------------------------------------------

/// A text that is one line as it stands: no line feed in it, and no carriage return at
/// its end.
pub open spec fn one_line(line: Seq<char>) -> bool {
    &&& forall|i: int| 0 <= i < line.len() ==> #[trigger] line[i] != '\n'
    &&& line.len() > 0 ==> line.last() != '\r'
}

proof fn lemma_framed_concat(a: Seq<Seq<char>>, b: Seq<Seq<char>>)
    ensures
        framed(a + b) == framed(a) + framed(b),
    decreases b.len(),
{
    if b.len() == 0 {
        assert(a + b =~= a);
        assert(framed(a) + framed(b) =~= framed(a));
    } else {
        lemma_framed_concat(a, b.drop_last());
        assert((a + b).drop_last() =~= a + b.drop_last());
        assert(framed(a + b) =~= framed(a) + framed(b));
    }
}

proof fn lemma_frame_from(lines: Seq<Seq<char>>, k: int)
    requires
        0 <= k <= lines.len(),
        forall|i: int| 0 <= i < lines.len() ==> one_line(#[trigger] lines[i]),
    ensures
        line_list(framed(lines), framed(lines.take(k)).len() as int) == lines.skip(k),
    decreases lines.len() - k,
{
    let s = framed(lines);
    let from = framed(lines.take(k)).len() as int;
    assert(lines =~= lines.take(k) + lines.skip(k));
    lemma_framed_concat(lines.take(k), lines.skip(k));
    if k == lines.len() {
        assert(lines.skip(k) =~= Seq::empty());
        assert(framed(lines.skip(k)).len() == 0);
        assert(from == s.len());
    } else {
        let line = lines[k];
        let rest = framed(lines.skip(k + 1));
        let one = seq![line];
        assert(lines.skip(k) =~= one + lines.skip(k + 1));
        lemma_framed_concat(one, lines.skip(k + 1));
        assert(one.drop_last() =~= Seq::empty());
        assert(framed(one.drop_last()) =~= Seq::empty());
        assert(framed(one) =~= line + seq!['\n']);
        assert(lines.take(k + 1) =~= lines.take(k) + one);
        lemma_framed_concat(lines.take(k), one);
        let end = from + line.len();
        assert(framed(lines.take(k + 1)).len() == end + 1);
        assert(s =~= framed(lines.take(k)) + line + seq!['\n'] + rest);
        assert(forall|j: int| 0 <= j < line.len() ==> #[trigger] line[j] == s[from + j]);
        assert(s[end] == '\n');
        lemma_line_end(s, from);
        assert(line_end(s, from) == end) by {
            let e = line_end(s, from);
            if e < end {
                assert(line[e - from] == s[e]);
            }
        }
        assert(s.subrange(from, end) =~= line);
        assert(without_return(line) == line);
        lemma_frame_from(lines, k + 1);
        assert(lines.skip(k) =~= seq![line] + lines.skip(k + 1));
    }
}

/// Splitting gives back the lines that were framed.
pub proof fn law_split_undoes_frame(lines: Seq<Seq<char>>)
    requires
        forall|i: int| 0 <= i < lines.len() ==> one_line(#[trigger] lines[i]),
    ensures
        line_list(framed(lines), 0) == lines,
{
    lemma_frame_from(lines, 0);
    assert(lines.take(0) =~= Seq::empty());
    assert(framed(lines.take(0)).len() == 0);
    assert(lines.skip(0) =~= lines);
}

/// Where no line is blank, every line is a row.
pub proof fn law_rows_keep_the_rest(lines: Seq<Seq<char>>)
    requires
        forall|i: int| 0 <= i < lines.len() ==> !blank(#[trigger] lines[i]),
    ensures
        rows(lines) == lines,
    decreases lines.len(),
{
    reveal(Seq::filter);
    if lines.len() > 0 {
        let init = lines.drop_last();
        assert forall|i: int| 0 <= i < init.len() implies !blank(#[trigger] init[i]) by {
            assert(init[i] == lines[i]);
        }
        law_rows_keep_the_rest(init);
        assert(lines[lines.len() - 1] == lines.last());
        assert(rows(lines) =~= rows(init).push(lines.last()));
        assert(lines =~= init.push(lines.last()));
    } else {
        assert(rows(lines) =~= lines);
    }
}

/// A row is not blank, and is one of the lines.
pub proof fn law_rows_are_lines(lines: Seq<Seq<char>>, i: int)
    requires
        0 <= i < rows(lines).len(),
    ensures
        !blank(rows(lines)[i]),
        lines.contains(rows(lines)[i]),
{
    let keep = |line: Seq<char>| !blank(line);
    lines.lemma_filter_contains_rev(keep, rows(lines)[i]);
}

/// The second list is the first with blank lines put in: any number of them, anywhere.
pub open spec fn blanks_put_in(lines: Seq<Seq<char>>, more: Seq<Seq<char>>) -> bool
    decreases more.len(),
{
    if more.len() == 0 {
        lines.len() == 0
    } else {
        ||| blank(more.last()) && blanks_put_in(lines, more.drop_last())
        ||| lines.len() > 0 && lines.last() == more.last() && blanks_put_in(
            lines.drop_last(),
            more.drop_last(),
        )
    }
}

/// Blank lines that are put in, anywhere, leave the rows as they were.
pub proof fn law_blank_lines_are_ignored(lines: Seq<Seq<char>>, more: Seq<Seq<char>>)
    requires
        blanks_put_in(lines, more),
    ensures
        rows(more) == rows(lines),
    decreases more.len(),
{
    reveal(Seq::filter);
    if more.len() == 0 {
        assert(more =~= lines);
    } else if blank(more.last()) && blanks_put_in(lines, more.drop_last()) {
        law_blank_lines_are_ignored(lines, more.drop_last());
    } else {
        law_blank_lines_are_ignored(lines.drop_last(), more.drop_last());
    }
}

/// A block of blank lines can be put in between any two lines.
pub proof fn law_blank_block_is_put_in(
    before: Seq<Seq<char>>,
    blanks: Seq<Seq<char>>,
    after: Seq<Seq<char>>,
)
    requires
        forall|i: int| 0 <= i < blanks.len() ==> blank(#[trigger] blanks[i]),
    ensures
        blanks_put_in(before + after, before + blanks + after),
        rows(before + blanks + after) == rows(before + after),
    decreases before.len() + blanks.len() + after.len(),
{
    let (lines, more) = (before + after, before + blanks + after);
    if after.len() > 0 {
        law_blank_block_is_put_in(before, blanks, after.drop_last());
        assert(lines.drop_last() =~= before + after.drop_last());
        assert(more.drop_last() =~= before + blanks + after.drop_last());
    } else if blanks.len() > 0 {
        let rest = blanks.drop_last();
        assert forall|i: int| 0 <= i < rest.len() implies blank(#[trigger] rest[i]) by {
            assert(rest[i] == blanks[i]);
        }
        law_blank_block_is_put_in(before, rest, after);
        assert(more.drop_last() =~= before + rest + after);
        assert(more.last() == blanks[blanks.len() - 1]);
    } else if before.len() > 0 {
        law_blank_block_is_put_in(before.drop_last(), blanks, after);
        assert(lines.drop_last() =~= before.drop_last() + after);
        assert(more.drop_last() =~= before.drop_last() + blanks + after);
    }
    law_blank_lines_are_ignored(lines, more);
}

/// A framed list is the frames of its parts one behind the other, and the frame of one
/// line is the line and a line feed.
pub proof fn law_frames_follow_each_other(
    a: Seq<Seq<char>>,
    b: Seq<Seq<char>>,
    line: Seq<char>,
)
    ensures
        framed(a + b) == framed(a) + framed(b),
        framed(seq![line]) == line.push('\n'),
        framed(Seq::<Seq<char>>::empty()) == Seq::<char>::empty(),
{
    lemma_framed_concat(a, b);
    let one = seq![line];
    assert(one.drop_last() =~= Seq::empty());
    assert(framed(one.drop_last()) =~= Seq::empty());
    assert(framed(one) =~= line.push('\n'));
}

proof fn lemma_line_end_shift(p: Seq<char>, s: Seq<char>, i: int)
    requires
        0 <= i <= s.len(),
    ensures
        line_end(p + s, p.len() + i) == p.len() + line_end(s, i),
    decreases s.len() - i,
{
    if i < s.len() {
        assert((p + s)[p.len() + i] == s[i]);
        if s[i] != '\n' {
            lemma_line_end_shift(p, s, i + 1);
        }
    }
}

proof fn lemma_line_list_shift(p: Seq<char>, s: Seq<char>, i: int)
    requires
        0 <= i <= s.len(),
    ensures
        line_list(p + s, p.len() + i) == line_list(s, i),
    decreases s.len() - i,
{
    if i < s.len() {
        lemma_line_end_shift(p, s, i);
        lemma_line_end(s, i);
        let end = line_end(s, i);
        if end < s.len() {
            lemma_line_list_shift(p, s, end + 1);
            assert((p + s).subrange(p.len() + i, p.len() + end) =~= s.subrange(i, end));
        } else {
            assert((p + s).skip(p.len() + i) =~= s.skip(i));
        }
    }
}

/// The first line of a text is what stands before its first line feed, without the one
/// carriage return before that; the other lines are those of the rest.
pub proof fn law_first_line_ends_at_the_line_feed(line: Seq<char>, rest: Seq<char>)
    requires
        forall|i: int| 0 <= i < line.len() ==> #[trigger] line[i] != '\n',
    ensures
        (line.len() == 0 || line.last() != '\r') ==> line_list(line + seq!['\n'] + rest, 0)
            == seq![line] + line_list(rest, 0),
        line_list(line + seq!['\r', '\n'] + rest, 0) == seq![line] + line_list(rest, 0),
{
    lemma_first_line(line, rest);
    let returned = line.push('\r');
    assert forall|i: int| 0 <= i < returned.len() implies #[trigger] returned[i] != '\n' by {
        if i < line.len() {
            assert(returned[i] == line[i]);
        }
    }
    lemma_first_line(returned, rest);
    assert(returned + seq!['\n'] + rest =~= line + seq!['\r', '\n'] + rest);
    assert(returned.drop_last() =~= line);
}

proof fn lemma_first_line(line: Seq<char>, rest: Seq<char>)
    requires
        forall|i: int| 0 <= i < line.len() ==> #[trigger] line[i] != '\n',
    ensures
        line_list(line + seq!['\n'] + rest, 0) == seq![without_return(line)] + line_list(rest, 0),
{
    let head = line + seq!['\n'];
    let s = head + rest;
    let n = line.len() as int;
    lemma_line_end(s, 0);
    assert(s[n] == '\n');
    assert(line_end(s, 0) == n) by {
        let e = line_end(s, 0);
        if e < n {
            assert(s[e] == line[e]);
        }
    }
    assert(s.subrange(0, n) =~= line);
    lemma_line_list_shift(head, rest, 0);
}

/// A text without a line feed is one line, carriage returns and all, unless it is empty.
pub proof fn law_last_line_needs_no_line_feed(line: Seq<char>)
    requires
        forall|i: int| 0 <= i < line.len() ==> #[trigger] line[i] != '\n',
    ensures
        line.len() > 0 ==> line_list(line, 0) == seq![line],
        line.len() == 0 ==> line_list(line, 0) == Seq::<Seq<char>>::empty(),
{
    lemma_line_end(line, 0);
    if line.len() > 0 {
        assert(line.skip(0) =~= line);
    }
}

/// A line is blank where it has no character but white space.
pub proof fn law_blank_goes_by_the_characters(a: Seq<char>, c: char)
    ensures
        blank(Seq::<char>::empty()),
        blank(a.push(c)) <==> blank(a) && white_space(c),
{
    let b = a.push(c);
    if blank(b) {
        assert(white_space(b[a.len() as int]));
        assert forall|i: int| 0 <= i < a.len() implies white_space(#[trigger] a[i]) by {
            assert(b[i] == a[i]);
        }
    }
}

/// White space: the five control characters from the tab on, the space, the next-line
/// character, the no-break space, and the spaces and separators of the other scripts.
pub proof fn law_white_space_is_unicodes(c: char)
    ensures
        white_space(c) <==> c == '\t' || c == '\n' || c == '\u{b}' || c == '\u{c}' || c == '\r' || c
            == ' ' || c == '\u{85}' || c == '\u{a0}' || c == '\u{1680}' || ('\u{2000}' <= c && c
            <= '\u{200a}') || c == '\u{2028}' || c == '\u{2029}' || c == '\u{202f}' || c
            == '\u{205f}' || c == '\u{3000}',
{
}

/// Every line that is not blank is a row, in its place; no blank line is.
pub proof fn law_rows_go_line_by_line(a: Seq<Seq<char>>, line: Seq<char>)
    ensures
        rows(Seq::<Seq<char>>::empty()) == Seq::<Seq<char>>::empty(),
        blank(line) ==> rows(a.push(line)) == rows(a),
        !blank(line) ==> rows(a.push(line)) == rows(a).push(line),
{
    reveal(Seq::filter);
    assert(a.push(line).drop_last() =~= a);
    assert(rows(Seq::<Seq<char>>::empty()) =~= Seq::<Seq<char>>::empty());
}

} // verus!
