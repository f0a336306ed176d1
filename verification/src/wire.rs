//! Frames: how a list of words becomes one line of text and back.
//!
//! A frame is its words with one space between neighbours. Inside a word a
//! space is written `\s`, a line feed `\n` and a backslash `\\`, so that a
//! frame holds no line feed and a space always parts two words.

use vstd::prelude::*;

verus! {

/// How one character of a word is written in a frame.
pub open spec fn escape_char(c: char) -> Seq<char> {
    if c == '\\' {
        seq!['\\', '\\']
    } else if c == ' ' {
        seq!['\\', 's']
    } else if c == '\n' {
        seq!['\\', 'n']
    } else {
        seq![c]
    }
}

/// How a word is written in a frame.
pub open spec fn escape(word: Seq<char>) -> Seq<char>
    decreases word.len(),
{
    if word.len() == 0 {
        Seq::empty()
    } else {
        escape_char(word[0]) + escape(word.drop_first())
    }
}

/// The frame of `words`: the words as they are written, with one space
/// between neighbours.
pub open spec fn frame(words: Seq<Seq<char>>) -> Seq<char>
    decreases words.len(),
{
    if words.len() == 0 {
        Seq::empty()
    } else if words.len() == 1 {
        escape(words[0])
    } else {
        escape(words[0]) + seq![' '] + frame(words.drop_first())
    }
}

/// The character that stands behind a backslash for `c`, if one does.
pub open spec fn unescape_char(c: char) -> Option<char> {
    if c == '\\' {
        Some('\\')
    } else if c == 's' {
        Some(' ')
    } else if c == 'n' {
        Some('\n')
    } else {
        None
    }
}

/// Reads `text` from position `at` on as the rest of a frame, of which
/// the words `words` and the beginning `word` of one more have been read.
/// There are no words where a backslash is followed by nothing it can
/// stand before, or a line feed stands in the text.
pub open spec fn scan(text: Seq<char>, at: int, word: Seq<char>, words: Seq<Seq<char>>) -> Option<
    Seq<Seq<char>>,
>
    decreases text.len() - at,
{
    if at < 0 || at >= text.len() {
        Some(words.push(word))
    } else if text[at] == ' ' {
        scan(text, at + 1, Seq::empty(), words.push(word))
    } else if text[at] == '\n' {
        None
    } else if text[at] == '\\' {
        if at + 1 >= text.len() {
            None
        } else {
            match unescape_char(text[at + 1]) {
                Some(c) => scan(text, at + 2, word.push(c), words),
                None => None,
            }
        }
    } else {
        scan(text, at + 1, word.push(text[at]), words)
    }
}

/// The words of the frame `text`.
pub open spec fn words_of(text: Seq<char>) -> Option<Seq<Seq<char>>> {
    scan(text, 0, Seq::empty(), Seq::empty())
}

/// A word as it is written holds neither a space nor a line feed.
pub proof fn lemma_escape_is_plain(word: Seq<char>)
    ensures
        forall|i: int|
            0 <= i < escape(word).len() ==> (#[trigger] escape(word)[i]) != ' ' && escape(word)[i]
                != '\n',
    decreases word.len(),
{
    if word.len() > 0 {
        lemma_escape_is_plain(word.drop_first());
        let head = escape_char(word[0]);
        let tail = escape(word.drop_first());
        assert forall|i: int| 0 <= i < escape(word).len() implies (#[trigger] escape(word)[i])
            != ' ' && escape(word)[i] != '\n' by {
            if i >= head.len() {
                assert(escape(word)[i] == tail[i - head.len()]);
            }
        }
    }
}

/// A frame holds no line feed.
pub proof fn frame_holds_no_line_feed(words: Seq<Seq<char>>)
    ensures
        forall|i: int| 0 <= i < frame(words).len() ==> (#[trigger] frame(words)[i]) != '\n',
    decreases words.len(),
{
    if words.len() > 0 {
        lemma_escape_is_plain(words[0]);
        if words.len() > 1 {
            frame_holds_no_line_feed(words.drop_first());
            let head = escape(words[0]) + seq![' '];
            let tail = frame(words.drop_first());
            assert forall|i: int| 0 <= i < frame(words).len() implies (#[trigger] frame(
                words,
            )[i]) != '\n' by {
                if i >= head.len() {
                    assert(frame(words)[i] == tail[i - head.len()]);
                } else if i < escape(words[0]).len() {
                    assert(frame(words)[i] == escape(words[0])[i]);
                }
            }
        }
    }
}

/// Reading a written word gives the word.
pub proof fn lemma_scan_word(
    text: Seq<char>,
    at: int,
    begun: Seq<char>,
    words: Seq<Seq<char>>,
    word: Seq<char>,
)
    requires
        0 <= at,
        at + escape(word).len() <= text.len(),
        text.subrange(at, at + escape(word).len()) == escape(word),
    ensures
        scan(text, at, begun, words) == scan(text, at + escape(word).len(), begun + word, words),
    decreases word.len(),
{
    if word.len() == 0 {
        assert(begun + word == begun);
    } else {
        let written = escape(word);
        let head = escape_char(word[0]);
        let rest = word.drop_first();
        assert(written == head + escape(rest));
        assert(text[at] == written[0]);
        let step = head.len() as int;
        if step == 2 {
            assert(text[at + 1] == written[1]);
        }
        assert(text.subrange(at + step, at + step + escape(rest).len()) == escape(rest)) by {
            assert forall|i: int| 0 <= i < escape(rest).len() implies text.subrange(
                at + step,
                at + step + escape(rest).len(),
            )[i] == escape(rest)[i] by {
                assert(text[at + step + i] == text.subrange(at, at + written.len())[step + i]);
            }
        }
        lemma_scan_word(text, at + step, begun.push(word[0]), words, rest);
        assert(begun.push(word[0]) + rest == begun + word);
    }
}

/// Reading a frame gives its words.
pub proof fn lemma_scan_frame(
    text: Seq<char>,
    at: int,
    read: Seq<Seq<char>>,
    words: Seq<Seq<char>>,
)
    requires
        0 <= at <= text.len(),
        words.len() >= 1,
        text.subrange(at, text.len() as int) == frame(words),
    ensures
        scan(text, at, Seq::empty(), read) == Some(read + words),
    decreases words.len(),
{
    let first = escape(words[0]);
    let whole = frame(words);
    assert(whole.len() == text.len() - at);
    if words.len() == 1 {
        assert(text.subrange(at, at + first.len()) == first);
        lemma_scan_word(text, at, Seq::empty(), read, words[0]);
        assert(Seq::<char>::empty() + words[0] == words[0]);
        assert(read.push(words[0]) == read + words);
    } else {
        let rest = words.drop_first();
        assert(whole == first + seq![' '] + frame(rest));
        assert(text.subrange(at, at + first.len()) == first) by {
            assert forall|i: int| 0 <= i < first.len() implies text.subrange(
                at,
                at + first.len(),
            )[i] == first[i] by {
                assert(text[at + i] == text.subrange(at, text.len() as int)[i]);
                assert(whole[i] == first[i]);
            }
        }
        lemma_scan_word(text, at, Seq::empty(), read, words[0]);
        assert(Seq::<char>::empty() + words[0] == words[0]);
        let space = at + first.len();
        assert(text[space] == text.subrange(at, text.len() as int)[first.len() as int]);
        assert(whole[first.len() as int] == ' ');
        assert(text.subrange(space + 1, text.len() as int) == frame(rest)) by {
            assert forall|i: int| 0 <= i < frame(rest).len() implies text.subrange(
                space + 1,
                text.len() as int,
            )[i] == frame(rest)[i] by {
                assert(text[space + 1 + i] == text.subrange(at, text.len() as int)[first.len() + 1
                    + i]);
                assert(whole[first.len() + 1 + i] == frame(rest)[i]);
            }
        }
        lemma_scan_frame(text, space + 1, read.push(words[0]), rest);
        assert(read.push(words[0]) + rest == read + words);
    }
}

/// What is written is read: the words of the frame of `words` are `words`.
pub proof fn frame_round_trip(words: Seq<Seq<char>>)
    requires
        words.len() >= 1,
    ensures
        words_of(frame(words)) == Some(words),
{
    let text = frame(words);
    assert(text.subrange(0, text.len() as int) == text);
    lemma_scan_frame(text, 0, Seq::empty(), words);
    assert(Seq::<Seq<char>>::empty() + words == words);
}

} // verus!
