//! Reading a text piece by piece. A text is a sequence of characters, and a
//! place in it is the number of characters before it.

use crate::sdp::decimal::{digits_value, read_decimal};
use vstd::prelude::*;
use vstd::string::*;

verus! {

/// A set of characters at which a piece of a line ends.
#[derive(Debug, Clone, Copy, PartialEq, Eq)]
pub enum Stop {
    /// A space, a carriage return or a line feed: the end of a field.
    Field,
    /// A carriage return or a line feed: the end of the text of a line.
    Line,
    /// A colon, a carriage return or a line feed: the end of a name.
    Name,
    /// Whatever is no digit from `0` to `9`.
    NonDigit,
    /// Whatever is no digit from `0` to `9` and no letter from `a` to `z` or
    /// from `A` to `Z`.
    NonAlphanumeric,
}

/// Whether `c` is a digit from `0` to `9`.
pub open spec fn is_digit(c: char) -> bool {
    '0' <= c && c <= '9'
}

/// Whether `c` is a letter from `a` to `z` or from `A` to `Z`.
pub open spec fn is_letter(c: char) -> bool {
    ('a' <= c && c <= 'z') || ('A' <= c && c <= 'Z')
}

impl Stop {
    /// Whether `c` is in the set.
    pub open spec fn stops(self, c: char) -> bool {
        match self {
            Stop::Field => c == ' ' || c == '\r' || c == '\n',
            Stop::Line => c == '\r' || c == '\n',
            Stop::Name => c == ':' || c == '\r' || c == '\n',
            Stop::NonDigit => !is_digit(c),
            Stop::NonAlphanumeric => !is_digit(c) && !is_letter(c),
        }
    }

    /// Whether `c` is in the set.
    pub fn stops_at(&self, c: char) -> (stops: bool)
        ensures
            stops == self.stops(c),
    {
        match self {
            Stop::Field => c == ' ' || c == '\r' || c == '\n',
            Stop::Line => c == '\r' || c == '\n',
            Stop::Name => c == ':' || c == '\r' || c == '\n',
            Stop::NonDigit => !('0' <= c && c <= '9'),
            Stop::NonAlphanumeric => !('0' <= c && c <= '9') && !(('a' <= c && c <= 'z') || ('A'
                <= c && c <= 'Z')),
        }
    }
}

/// The first place at or after `from` where the text ends or a character of
/// `stop` stands.
pub open spec fn scan(text: Seq<char>, from: int, stop: Stop) -> int
    decreases text.len() - from,
{
    if from < 0 || from >= text.len() || stop.stops(text[from]) {
        from
    } else {
        scan(text, from + 1, stop)
    }
}

/// The end of the piece that starts at `from` and runs up to a character of
/// `stop` or the end of the text, if the piece is not empty.
pub open spec fn token(text: Seq<char>, from: int, stop: Stop) -> Option<int> {
    if scan(text, from, stop) > from {
        Some(scan(text, from, stop))
    } else {
        None
    }
}

/// The place after the line ending at `from`, if one stands there: a line
/// feed, or a carriage return and a line feed.
pub open spec fn line_ending(text: Seq<char>, from: int) -> Option<int> {
    if 0 <= from < text.len() && text[from] == '\n' {
        Some(from + 1)
    } else if 0 <= from && from + 1 < text.len() && text[from] == '\r' && text[from + 1] == '\n' {
        Some(from + 2)
    } else {
        None
    }
}

/// The place after `word` at `from`, if `word` stands there.
pub open spec fn literal(text: Seq<char>, from: int, word: Seq<char>) -> Option<int> {
    if 0 <= from && from + word.len() <= text.len() && text.subrange(from, from + word.len())
        == word {
        Some(from + word.len())
    } else {
        None
    }
}

/// Where a scan ends: not before its start, not after the text, at a
/// character of `stop` unless at the end, and past no such character.
pub proof fn lemma_scan(text: Seq<char>, from: int, stop: Stop)
    requires
        0 <= from <= text.len(),
    ensures
        from <= scan(text, from, stop) <= text.len(),
        scan(text, from, stop) < text.len() ==> stop.stops(text[scan(text, from, stop)]),
        forall|i: int| from <= i < scan(text, from, stop) ==> !stop.stops(#[trigger] text[i]),
    decreases text.len() - from,
{
    if from < text.len() && !stop.stops(text[from]) {
        lemma_scan(text, from + 1, stop);
    }
}

/// Finds the first place at or after `from` where the text ends or a
/// character of `stop` stands.
pub fn scan_until(input: &str, len: usize, from: usize, stop: Stop) -> (end: usize)
    requires
        len == input@.len(),
        from <= len,
    ensures
        end == scan(input@, from as int, stop),
        from <= end <= len,
{
    let mut i: usize = from;
    while i < len && !stop.stops_at(input.get_char(i))
        invariant
            len == input@.len(),
            from <= i <= len,
            scan(input@, from as int, stop) == scan(input@, i as int, stop),
        decreases len - i,
    {
        i += 1;
    }
    i
}

/// Finds the end of the piece that starts at `from` and runs up to a
/// character of `stop` or the end of the text, if the piece is not empty.
pub fn take_token(input: &str, len: usize, from: usize, stop: Stop) -> (end: Option<usize>)
    requires
        len == input@.len(),
        from <= len,
    ensures
        match token(input@, from as int, stop) {
            Some(e) => end == Some(e as usize) && from < e <= len,
            None => end is None,
        },
{
    let end = scan_until(input, len, from, stop);
    if end > from {
        Some(end)
    } else {
        None
    }
}

/// Finds the place after the line ending at `from`, if one stands there.
pub fn take_line_ending(input: &str, len: usize, from: usize) -> (end: Option<usize>)
    requires
        len == input@.len(),
        from <= len,
    ensures
        match line_ending(input@, from as int) {
            Some(e) => end == Some(e as usize) && from < e <= len,
            None => end is None,
        },
{
    if from < len && input.get_char(from) == '\n' {
        Some(from + 1)
    } else if from < len && len - from >= 2 && input.get_char(from) == '\r' && input.get_char(
        from + 1,
    ) == '\n' {
        Some(from + 2)
    } else {
        None
    }
}

/// Finds the place after `word` at `from`, if `word` stands there.
pub fn take_literal(input: &str, len: usize, from: usize, word: &str) -> (end: Option<usize>)
    requires
        len == input@.len(),
        from <= len,
    ensures
        match literal(input@, from as int, word@) {
            Some(e) => end == Some(e as usize) && from <= e <= len && e == from + word@.len(),
            None => end is None,
        },
{
    let word_len = word.unicode_len();
    if len - from < word_len {
        return None;
    }
    let mut i: usize = 0;
    while i < word_len
        invariant
            len == input@.len(),
            word_len == word@.len(),
            from + word_len <= len,
            i <= word_len,
            forall|j: int| 0 <= j < i ==> input@[from + j] == word@[j],
        decreases word_len - i,
    {
        if input.get_char(from + i) != word.get_char(i) {
            assert(input@.subrange(from as int, from + word_len)[i as int] != word@[i as int]);
            return None;
        }
        i += 1;
    }
    assert(input@.subrange(from as int, from + word_len) =~= word@);
    Some(from + word_len)
}

/// The characters of the text from `from` up to `to`, as a string of its own.
pub fn piece(input: &str, from: usize, to: usize) -> (text: String)
    requires
        from <= to <= input@.len(),
    ensures
        text@ == input@.subrange(from as int, to as int),
{
    input.substring_char(from, to).to_owned()
}

/// What reading a field at `from` comes to: the characters up to a space or
/// the end of the line, at least one, and the place after them.
#[verifier::opaque]
pub open spec fn parsed_field(text: Seq<char>, from: int) -> Option<(Seq<char>, int)> {
    match token(text, from, Stop::Field) {
        Some(end) => Some((text.subrange(from, end), end)),
        None => None,
    }
}

/// Reads a field at `from`: the characters up to a space or the end of the
/// line, at least one.
pub fn parse_field(input: &str, len: usize, from: usize) -> (read: Option<(String, usize)>)
    requires
        len == input@.len(),
        from <= len,
    ensures
        match parsed_field(input@, from as int) {
            Some((field, end)) => read matches Some((made, e)) && made@ == field && e == end
                && from < e <= len,
            None => read is None,
        },
{
    proof {
        reveal(parsed_field);
    }
    match take_token(input, len, from, Stop::Field) {
        Some(end) => Some((piece(input, from, end), end)),
        None => None,
    }
}

/// What reading a field at `from` as a number comes to: a plus sign where
/// there is one, then digits up to the end of the field, at least one, which
/// stand for a number that fits in `u64`.
pub open spec fn parsed_number_field(text: Seq<char>, from: int) -> Option<(u64, int)> {
    match token(text, from, Stop::Field) {
        None => None,
        Some(end) => {
            let start = if text[from] == '+' {
                from + 1
            } else {
                from
            };
            if start < end && scan(text, start, Stop::NonDigit) == end && digits_value(
                text,
                start,
                end,
            ) <= u64::MAX {
                Some((digits_value(text, start, end) as u64, end))
            } else {
                None
            }
        },
    }
}

/// Reads a field at `from` as a number.
pub fn try_parse_field(input: &str, len: usize, from: usize) -> (read: Option<(u64, usize)>)
    requires
        len == input@.len(),
        from <= len,
    ensures
        match parsed_number_field(input@, from as int) {
            Some((number, end)) => read == Some((number, end as usize)) && from < end <= len,
            None => read is None,
        },
{
    let end = match take_token(input, len, from, Stop::Field) {
        Some(end) => end,
        None => {
            return None;
        },
    };
    let start: usize = if input.get_char(from) == '+' {
        from + 1
    } else {
        from
    };
    if start >= end {
        return None;
    }
    proof {
        lemma_scan(input@, from as int, Stop::Field);
        lemma_scan(input@, start as int, Stop::NonDigit);
    }
    let digits_end = scan_until(input, len, start, Stop::NonDigit);
    if digits_end != end {
        return None;
    }
    match read_decimal(input, start, end) {
        Some(number) => Some((number, end)),
        None => None,
    }
}

/// What reading a line with text comes to: the letters `tag`, then text up
/// to the end of the line, at least one character, then a line ending. The
/// text and the place after the line ending are given.
pub open spec fn parsed_nonempty_line(text: Seq<char>, from: int, tag: Seq<char>) -> Option<
    (Seq<char>, int),
> {
    match literal(text, from, tag) {
        None => None,
        Some(start) => match token(text, start, Stop::Line) {
            None => None,
            Some(end) => match line_ending(text, end) {
                None => None,
                Some(after) => Some((text.subrange(start, end), after)),
            },
        },
    }
}

/// Reads a line with text: the letters `tag`, then text up to the end of
/// the line, at least one character, then a line ending.
pub fn parse_nonempty_line(input: &str, len: usize, from: usize, tag: &str) -> (read: Option<
    (String, usize),
>)
    requires
        len == input@.len(),
        from <= len,
    ensures
        match parsed_nonempty_line(input@, from as int, tag@) {
            Some((value, after)) => read matches Some((made, e)) && made@ == value && e == after
                && from < e <= len,
            None => read is None,
        },
{
    let start = match take_literal(input, len, from, tag) {
        Some(start) => start,
        None => {
            return None;
        },
    };
    let end = match take_token(input, len, start, Stop::Line) {
        Some(end) => end,
        None => {
            return None;
        },
    };
    match take_line_ending(input, len, end) {
        Some(after) => Some((piece(input, start, end), after)),
        None => None,
    }
}

/// The end of a line as it is written: a carriage return and a line feed.
pub open spec fn crlf() -> Seq<char> {
    seq!['\r', '\n']
}

/// Writes the end of a line after what `out` holds.
pub fn push_crlf(out: &mut String)
    ensures
        final(out)@ == old(out)@ + crlf(),
{
    proof {
        reveal_strlit("\r\n");
    }
    out.append("\r\n");
    assert(out@ =~= old(out)@ + crlf());
}

} // verus!
