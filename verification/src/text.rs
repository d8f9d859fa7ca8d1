//! Counting the lines and the words of a text.

use vstd::prelude::*;
use vstd::string::StringSliceAdditionalSpecFns;
use vstd::utf8::*;
use crate::utf8::{bytes_from, next_scalar};
use crate::whitespace::{is_whitespace, scalar_is_whitespace};

verus! {

/// The line feed, which ends a line.
pub open spec fn is_line_end(c: char) -> bool {
    c == '\n'
}

/// The number of line feeds in `text`.
pub open spec fn line_end_count(text: Seq<char>) -> nat
    decreases text.len(),
{
    if text.len() == 0 {
        0
    } else {
        line_end_count(text.drop_last()) + if is_line_end(text.last()) {
            1nat
        } else {
            0nat
        }
    }
}

/// Whether `text` ends in a line that no line feed closes.
pub open spec fn has_open_last_line(text: Seq<char>) -> bool {
    text.len() > 0 && !is_line_end(text.last())
}

/// The number of lines of `text`: one for each line feed, and one more for
/// what follows the last line feed, if anything does. A carriage return
/// before a line feed belongs to that line's end; alone it ends nothing.
pub open spec fn line_count(text: Seq<char>) -> nat {
    line_end_count(text) + if has_open_last_line(text) {
        1nat
    } else {
        0nat
    }
}

/// Whether a word starts at position `i` of `text`: a character that is not
/// white space, at the start of the text or right after white space.
pub open spec fn is_word_start(text: Seq<char>, i: int) -> bool {
    &&& 0 <= i < text.len()
    &&& !is_whitespace(text[i])
    &&& (i == 0 || is_whitespace(text[i - 1]))
}

/// The number of words of `text`: of its maximal runs of characters that are
/// not white space, counted by where they start.
pub open spec fn word_count(text: Seq<char>) -> nat
    decreases text.len(),
{
    if text.len() == 0 {
        0
    } else {
        word_count(text.drop_last()) + if is_word_start(text, text.len() - 1) {
            1nat
        } else {
            0nat
        }
    }
}

/// Only the empty text has no lines.
pub proof fn lemma_line_count_zero_iff_empty(text: Seq<char>)
    ensures
        line_count(text) == 0 <==> text.len() == 0,
{
}

/// A text that is not empty and holds no line feed is one line.
pub proof fn lemma_line_count_of_unbroken(text: Seq<char>)
    requires
        text.len() > 0,
        forall|i: int| 0 <= i < text.len() ==> !is_line_end(#[trigger] text[i]),
    ensures
        line_count(text) == 1,
{
    lemma_line_end_count_zero(text);
}

/// A text without line feeds has none to count.
proof fn lemma_line_end_count_zero(text: Seq<char>)
    requires
        forall|i: int| 0 <= i < text.len() ==> !is_line_end(#[trigger] text[i]),
    ensures
        line_end_count(text) == 0,
    decreases text.len(),
{
    if text.len() > 0 {
        let front = text.drop_last();
        assert forall|i: int| 0 <= i < front.len() implies !is_line_end(#[trigger] front[i]) by {
            assert(front[i] == text[i]);
        }
        lemma_line_end_count_zero(front);
        assert(!is_line_end(text[text.len() - 1]));
    }
}

/// No text has more lines than characters.
pub proof fn lemma_line_count_at_most_len(text: Seq<char>)
    ensures
        line_end_count(text) <= text.len(),
        line_count(text) <= text.len(),
    decreases text.len(),
{
    if text.len() > 0 {
        lemma_line_count_at_most_len(text.drop_last());
    }
}

/// The line feeds of two texts set one after the other are those of the
/// first and those of the second.
pub proof fn lemma_line_end_count_concat(first: Seq<char>, second: Seq<char>)
    ensures
        line_end_count(first + second) == line_end_count(first) + line_end_count(second),
    decreases second.len(),
{
    if second.len() == 0 {
        assert(first + second =~= first);
    } else {
        assert((first + second).drop_last() =~= first + second.drop_last());
        lemma_line_end_count_concat(first, second.drop_last());
    }
}

/// Where the first of two texts leaves no line open, the lines of the two
/// set one after the other are those of the first and those of the second.
pub proof fn lemma_line_count_concat(first: Seq<char>, second: Seq<char>)
    requires
        !has_open_last_line(first),
    ensures
        line_count(first + second) == line_count(first) + line_count(second),
{
    lemma_line_end_count_concat(first, second);
    if second.len() == 0 {
        assert(first + second =~= first);
    }
}

/// A line feed at the end of a text closes its last line where that is open,
/// and adds no line; elsewhere it adds an empty line.
pub proof fn lemma_line_count_closing_line_feed(text: Seq<char>)
    ensures
        has_open_last_line(text) ==> line_count(text.push('\n')) == line_count(text),
        !has_open_last_line(text) ==> line_count(text.push('\n')) == line_count(text) + 1,
{
    assert(text.push('\n').drop_last() =~= text);
}

/// A text has no words exactly where all its characters are white space.
pub proof fn lemma_word_count_zero_iff_blank(text: Seq<char>)
    ensures
        word_count(text) == 0 <==> forall|i: int| 0 <= i < text.len() ==> is_whitespace(#[trigger] text[i]),
    decreases text.len(),
{
    if text.len() > 0 {
        let front = text.drop_last();
        lemma_word_count_zero_iff_blank(front);
        if word_count(text) == 0 {
            assert forall|i: int| 0 <= i < text.len() implies is_whitespace(#[trigger] text[i]) by {
                if i < text.len() - 1 {
                    assert(front[i] == text[i]);
                } else if text.len() >= 2 {
                    assert(front[text.len() - 2] == text[text.len() - 2]);
                }
            }
        } else if forall|i: int| 0 <= i < text.len() ==> is_whitespace(#[trigger] text[i]) {
            assert forall|i: int| 0 <= i < front.len() implies is_whitespace(#[trigger] front[i]) by {
                assert(front[i] == text[i]);
            }
            assert(is_whitespace(text[text.len() - 1]));
        }
    }
}

/// A text that is not empty and holds no white space is one word.
pub proof fn lemma_word_count_of_run(text: Seq<char>)
    requires
        text.len() > 0,
        forall|i: int| 0 <= i < text.len() ==> !is_whitespace(#[trigger] text[i]),
    ensures
        word_count(text) == 1,
    decreases text.len(),
{
    let front = text.drop_last();
    if front.len() > 0 {
        assert forall|i: int| 0 <= i < front.len() implies !is_whitespace(#[trigger] front[i]) by {
            assert(front[i] == text[i]);
        }
        lemma_word_count_of_run(front);
        assert(!is_whitespace(text[text.len() - 2]));
    } else {
        assert(word_count(front) == 0);
        assert(!is_whitespace(text[0]));
    }
}

/// Where two texts meet at white space, or one of them is empty, the words
/// of the two set one after the other are those of the first and those of
/// the second.
pub proof fn lemma_word_count_concat(first: Seq<char>, second: Seq<char>)
    requires
        first.len() == 0 || second.len() == 0 || is_whitespace(first.last()) || is_whitespace(
            second[0],
        ),
    ensures
        word_count(first + second) == word_count(first) + word_count(second),
    decreases second.len(),
{
    let joined = first + second;
    if second.len() == 0 {
        assert(joined =~= first);
    } else {
        assert(joined.drop_last() =~= first + second.drop_last());
        if second.len() >= 2 {
            assert(second.drop_last()[0] == second[0]);
        }
        lemma_word_count_concat(first, second.drop_last());
        assert(joined[joined.len() - 1] == second[second.len() - 1]);
        if second.len() >= 2 {
            assert(joined[joined.len() - 2] == second[second.len() - 2]);
        } else if first.len() > 0 {
            assert(joined[joined.len() - 2] == first.last());
        }
    }
}

/// No text has more words than characters.
pub proof fn lemma_word_count_at_most_len(text: Seq<char>)
    ensures
        word_count(text) <= text.len(),
    decreases text.len(),
{
    if text.len() > 0 {
        lemma_word_count_at_most_len(text.drop_last());
    }
}

/// Counts the lines of `text`.
pub fn count_lines(text: &str) -> (count: usize)
    ensures
        count == line_count(text@),
{
    let bytes = text.as_bytes();
    let len = bytes.len();
    let ghost mut seen: Seq<char> = Seq::empty();
    let mut pos: usize = 0;
    let mut ends: usize = 0;
    let mut open_line = false;
    proof {
        encode_utf8_valid_utf8(text@);
        encode_utf8_decode_utf8(text@);
        assert(bytes_from(bytes@, 0) =~= bytes@);
        assert(text@ =~= seen + decode_utf8(bytes_from(bytes@, 0)));
    }
    while pos < len
        invariant
            len == bytes@.len(),
            pos <= len,
            valid_utf8(bytes_from(bytes@, pos as int)),
            text@ == seen + decode_utf8(bytes_from(bytes@, pos as int)),
            ends == line_end_count(seen),
            open_line == has_open_last_line(seen),
            ends + if open_line { 1nat } else { 0nat } <= pos,
        decreases len - pos,
    {
        let (code, after) = next_scalar(bytes, pos);
        let ghost c = code as char;
        proof {
            assert(seen.push(c).drop_last() =~= seen);
            assert(seen.push(c) + decode_utf8(bytes_from(bytes@, after as int)) =~= seen + (seq![c]
                + decode_utf8(bytes_from(bytes@, after as int))));
            seen = seen.push(c);
        }
        if code == 0x0A {
            ends = ends + 1;
            open_line = false;
        } else {
            open_line = true;
        }
        pos = after;
    }
    proof {
        assert(bytes_from(bytes@, len as int) =~= Seq::<u8>::empty());
        assert(text@ =~= seen);
    }
    if open_line {
        ends + 1
    } else {
        ends
    }
}

/// Counts the words of `text`.
pub fn count_words(text: &str) -> (count: usize)
    ensures
        count == word_count(text@),
{
    let bytes = text.as_bytes();
    let len = bytes.len();
    let ghost mut seen: Seq<char> = Seq::empty();
    let mut pos: usize = 0;
    let mut count: usize = 0;
    let mut in_word = false;
    proof {
        encode_utf8_valid_utf8(text@);
        encode_utf8_decode_utf8(text@);
        assert(bytes_from(bytes@, 0) =~= bytes@);
        assert(text@ =~= seen + decode_utf8(bytes_from(bytes@, 0)));
    }
    while pos < len
        invariant
            len == bytes@.len(),
            pos <= len,
            valid_utf8(bytes_from(bytes@, pos as int)),
            text@ == seen + decode_utf8(bytes_from(bytes@, pos as int)),
            count == word_count(seen),
            in_word == (seen.len() > 0 && !is_whitespace(seen.last())),
            count <= pos,
        decreases len - pos,
    {
        let (code, after) = next_scalar(bytes, pos);
        let ghost c = code as char;
        proof {
            assert(seen.push(c).drop_last() =~= seen);
            assert(seen.push(c) + decode_utf8(bytes_from(bytes@, after as int)) =~= seen + (seq![c]
                + decode_utf8(bytes_from(bytes@, after as int))));
            seen = seen.push(c);
        }
        let white = scalar_is_whitespace(code);
        if !white && !in_word {
            count = count + 1;
        }
        in_word = !white;
        pos = after;
    }
    proof {
        assert(bytes_from(bytes@, len as int) =~= Seq::<u8>::empty());
        assert(text@ =~= seen);
    }
    count
}

} // verus!
