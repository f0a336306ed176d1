//! Splitting log text into lines.
//!
//! A line ends at a line feed; text after the last line feed is a line of its
//! own. The line feed, and a carriage return directly before it, do not
//! belong to the line.

use vstd::prelude::*;
use crate::text::{chars_of, string_of_range};

verus! {

/// The number of characters before the first line feed of `text`, or the
/// length of `text` if it holds none.
pub open spec fn line_end(text: Seq<char>) -> int
    decreases text.len(),
{
    if text.len() == 0 || text[0] == '\n' {
        0
    } else {
        1 + line_end(text.drop_first())
    }
}

/// A line as read up to a line feed, without a carriage return at its end.
pub open spec fn strip_carriage_return(line: Seq<char>) -> Seq<char> {
    if line.len() > 0 && line.last() == '\r' {
        line.drop_last()
    } else {
        line
    }
}

/// The lines of `text`, in order.
pub open spec fn lines_of(text: Seq<char>) -> Seq<Seq<char>>
    decreases text.len(),
{
    let end = line_end(text);
    if text.len() == 0 {
        Seq::empty()
    } else if !(0 <= end < text.len()) {
        seq![text]
    } else {
        seq![strip_carriage_return(text.take(end))] + lines_of(text.skip(end + 1))
    }
}

/// The last `n` elements of `lines`, or all of them if there are fewer.
pub open spec fn last_n(lines: Seq<Seq<char>>, n: nat) -> Seq<Seq<char>> {
    if lines.len() > n {
        lines.skip(lines.len() - n)
    } else {
        lines
    }
}

/// `line_end` is the position of the first line feed.
pub proof fn lemma_line_end(text: Seq<char>, end: int)
    requires
        0 <= end <= text.len(),
        forall|j: int| 0 <= j < end ==> text[j] != '\n',
        end < text.len() ==> text[end] == '\n',
    ensures
        line_end(text) == end,
    decreases end,
{
    if end > 0 {
        lemma_line_end(text.drop_first(), end - 1);
    }
}

/// Splits `text` into its lines.
pub fn split_lines(text: &str) -> (lines: Vec<String>)
    ensures
        lines.deep_view() == lines_of(text@),
{
    let chars = chars_of(text);
    let mut lines: Vec<String> = Vec::new();
    let mut start: usize = 0;
    let mut i: usize = 0;
    assert(chars@.skip(0) == chars@);
    assert(lines.deep_view() + lines_of(chars@) == lines_of(chars@));
    while i < chars.len()
        invariant
            start <= i <= chars.len(),
            chars@ == text@,
            forall|j: int| start <= j < i ==> chars@[j] != '\n',
            lines.deep_view() + lines_of(chars@.skip(start as int)) == lines_of(chars@),
        decreases chars.len() - i,
    {
        if chars[i] == '\n' {
            let ghost rest = chars@.skip(start as int);
            let ghost before = lines.deep_view();
            proof {
                lemma_line_end(rest, i - start);
                assert(rest.skip(i - start + 1) == chars@.skip(i + 1));
                assert(rest.take(i - start) == chars@.subrange(start as int, i as int));
            }
            let end = if i > start && chars[i - 1] == '\r' {
                i - 1
            } else {
                i
            };
            let line = string_of_range(&chars, start, end);
            proof {
                let raw = chars@.subrange(start as int, i as int);
                if i > start && chars[i - 1] == '\r' {
                    assert(raw.last() == '\r');
                    assert(raw.drop_last() == chars@.subrange(start as int, end as int));
                }
                assert(line@ == strip_carriage_return(raw));
            }
            lines.push(line);
            proof {
                assert(lines.deep_view() == before.push(line@));
                assert(before.push(line@) + lines_of(chars@.skip(i + 1)) == before + (seq![line@]
                    + lines_of(chars@.skip(i + 1))));
            }
            start = i + 1;
        }
        i += 1;
    }
    if start < chars.len() {
        let ghost rest = chars@.skip(start as int);
        let ghost before = lines.deep_view();
        proof {
            lemma_line_end(rest, rest.len() as int);
            assert(lines_of(rest) == seq![rest]);
        }
        let line = string_of_range(&chars, start, chars.len());
        assert(line@ == rest);
        lines.push(line);
        assert(lines.deep_view() == before.push(rest));
    } else {
        assert(chars@.skip(start as int).len() == 0);
        assert(lines.deep_view() + Seq::<Seq<char>>::empty() == lines.deep_view());
    }
    lines
}

/// The last `n` lines of `text`, or all of them if there are fewer.
pub fn last_lines(text: &str, n: u64) -> (lines: Vec<String>)
    ensures
        lines.deep_view() == last_n(lines_of(text@), n as nat),
{
    let mut all = split_lines(text);
    if all.len() as u64 > n {
        let ghost whole = all.deep_view();
        let first: usize = all.len() - (n as usize);
        let tail = all.split_off(first);
        assert(tail.deep_view() == whole.skip(first as int));
        tail
    } else {
        all
    }
}

} // verus!
