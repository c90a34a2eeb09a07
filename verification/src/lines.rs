//! Text as a sequence of lines: splitting at line feeds, and joining back.

use crate::text::{find_char, lemma_position_is, position};
use vstd::prelude::*;

verus! {

/// `line` without the carriage return at its end, if it has one.
pub open spec fn strip_cr(line: Seq<char>) -> Seq<char> {
    if line.len() > 0 && line.last() == '\r' {
        line.drop_last()
    } else {
        line
    }
}

/// The lines of `s`. A line ends at a line feed, or at a carriage return
/// followed directly by a line feed; neither belongs to the line. Text after
/// the last line feed is a line of its own, kept as it stands. Empty text has
/// no lines.
pub open spec fn split_lines(s: Seq<char>) -> Seq<Seq<char>>
    decreases s.len(),
{
    if s.len() == 0 {
        Seq::empty()
    } else {
        let i = position(s, '\n');
        if 0 <= i < s.len() {
            seq![strip_cr(s.take(i))] + split_lines(s.skip(i + 1))
        } else {
            seq![s]
        }
    }
}

/// The text whose lines are `lines`, each one closed by a line feed.
pub open spec fn join_lines(lines: Seq<Seq<char>>) -> Seq<char>
    decreases lines.len(),
{
    if lines.len() == 0 {
        Seq::empty()
    } else {
        join_lines(lines.drop_last()) + lines.last() + seq!['\n']
    }
}

/// Whether `s` can stand on one line and be read back unchanged: it holds no
/// line feed and does not end in a carriage return.
pub open spec fn fits_on_line(s: Seq<char>) -> bool {
    &&& forall|i: int| 0 <= i < s.len() ==> s[i] != '\n'
    &&& s.len() > 0 ==> s.last() != '\r'
}

/// Whether every one of `lines` fits on a line.
pub open spec fn all_fit(lines: Seq<Seq<char>>) -> bool {
    forall|i: int| 0 <= i < lines.len() ==> fits_on_line(#[trigger] lines[i])
}

/// Joining distributes over concatenation.
pub proof fn lemma_join_concat(a: Seq<Seq<char>>, b: Seq<Seq<char>>)
    ensures
        join_lines(a + b) == join_lines(a) + join_lines(b),
    decreases b.len(),
{
    if b.len() > 0 {
        lemma_join_concat(a, b.drop_last());
        assert((a + b).drop_last() == a + b.drop_last());
    }
}

/// Joining one more line appends it and a line feed.
pub proof fn lemma_join_push(lines: Seq<Seq<char>>, line: Seq<char>)
    ensures
        join_lines(lines.push(line)) == join_lines(lines) + line + seq!['\n'],
{
    assert(lines.push(line).drop_last() == lines);
}

/// A line that fits, followed by a line feed, is split off whole.
pub proof fn lemma_split_first(line: Seq<char>, rest: Seq<char>)
    requires
        fits_on_line(line),
    ensures
        split_lines(line + seq!['\n'] + rest) == seq![line] + split_lines(rest),
{
    let s = line + seq!['\n'] + rest;
    let i = line.len() as int;
    lemma_position_is(s, '\n', i);
    assert(s.take(i) == line);
    assert(s.skip(i + 1) == rest);
}

/// Lines that fit are read back, one for one, from their joined text.
pub proof fn lemma_split_join(lines: Seq<Seq<char>>)
    requires
        all_fit(lines),
    ensures
        split_lines(join_lines(lines)) == lines,
    decreases lines.len(),
{
    if lines.len() > 0 {
        let first = lines[0];
        let rest = lines.skip(1);
        assert(lines == seq![first] + rest);
        lemma_join_concat(seq![first], rest);
        assert(join_lines(seq![first]) == first + seq!['\n']) by {
            lemma_join_push(Seq::empty(), first);
        }
        lemma_split_join(rest);
        lemma_split_first(first, join_lines(rest));
    }
}

/// Where the line that starts at `start` ends, and where the next one starts.
pub struct LineBounds {
    /// One past the last character of the line.
    pub end: usize,
    /// The start of the following line, or the length of the text.
    pub next: usize,
}

/// Finds the line of `v` that starts at `start`.
pub fn next_line(v: &Vec<char>, start: usize) -> (b: LineBounds)
    requires
        start < v.len(),
    ensures
        start <= b.end <= b.next <= v.len(),
        start < b.next,
        split_lines(v@.skip(start as int)) == seq![v@.subrange(start as int, b.end as int)]
            + split_lines(v@.skip(b.next as int)),
{
    let len = v.len();
    let ghost s = v@.skip(start as int);
    let nl = find_char(v, start, len, '\n');
    if nl == len {
        LineBounds { end: len, next: len }
    } else {
        let end = if nl > start && v[nl - 1] == '\r' {
            nl - 1
        } else {
            nl
        };
        proof {
            let i = nl - start;
            let raw = s.take(i);
            assert(strip_cr(raw) == v@.subrange(start as int, end as int));
            assert(s.skip(i + 1) == v@.skip(nl + 1));
        }
        LineBounds { end, next: nl + 1 }
    }
}

} // verus!
