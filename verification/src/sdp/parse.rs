//! Reading values from text, and reading them optionally or repeatedly.

use crate::sdp::util::{literal, parse_field, parsed_field, take_literal};
use vstd::prelude::*;
use vstd::string::*;

verus! {

/// A text that is no session description, or no line of the kind asked for.
#[derive(Debug, Clone, Copy, PartialEq, Eq)]
pub struct ParseSdpError;

/// A value that is read from text.
pub trait Parse: Sized + DeepView {
    /// What reading a value at the place `from` of `text` comes to: what the
    /// value holds and the place after it, or `None` where no value of this
    /// kind stands there.
    spec fn parsed(text: Seq<char>, from: int) -> Option<(<Self as DeepView>::V, int)>;

    /// Reads a value at the place `from` of `input`, which is `len`
    /// characters long.
    fn parse_at(input: &str, len: usize, from: usize) -> (read: Option<(Self, usize)>)
        requires
            len == input@.len(),
            from <= len,
        ensures
            match Self::parsed(input@, from as int) {
                Some((value, end)) => {
                    &&& read matches Some((made, e))
                    &&& made.deep_view() == value
                    &&& e == end
                    &&& from <= e <= len
                },
                None => read is None,
            },
    ;

    /// Reads a value from the front of `input`, and gives the rest of
    /// `input` with it.
    fn parse(input: &str) -> (read: Result<(&str, Self), ParseSdpError>)
        ensures
            match Self::parsed(input@, 0) {
                Some((value, end)) => {
                    &&& read matches Ok((rest, made))
                    &&& made.deep_view() == value
                    &&& 0 <= end <= input@.len()
                    &&& rest@ == input@.skip(end)
                },
                None => read is Err,
            },
    {
        let len = input.unicode_len();
        match Self::parse_at(input, len, 0) {
            Some((made, end)) => Ok((input.substring_char(end, len), made)),
            None => Err(ParseSdpError),
        }
    }
}

/// A value that is written as text.
pub trait Format: DeepView {
    /// The text of a value, by what the value holds.
    spec fn formatted(value: <Self as DeepView>::V) -> Seq<char>;

    /// The text of the value.
    fn to_string(&self) -> (text: String)
        ensures
            text@ == Self::formatted(self.deep_view()),
    ;
}

/// The texts of values, one after the other.
pub open spec fn formatted_all<T: Format>(values: Seq<<T as DeepView>::V>) -> Seq<char>
    decreases values.len(),
{
    if values.len() == 0 {
        Seq::empty()
    } else {
        formatted_all::<T>(values.drop_last()) + T::formatted(values.last())
    }
}

/// The text of a value where there is one, and else no text.
pub open spec fn formatted_option<T: Format>(value: Option<<T as DeepView>::V>) -> Seq<char> {
    match value {
        Some(value) => T::formatted(value),
        None => Seq::empty(),
    }
}

/// Writes the texts of values, one after the other, after what `out` holds.
pub fn push_all<T: Format>(out: &mut String, values: &Vec<T>)
    ensures
        final(out)@ == old(out)@ + formatted_all::<T>(values.deep_view()),
{
    let ghost all = values.deep_view();
    let mut i: usize = 0;
    assert(all.take(0) =~= Seq::<<T as DeepView>::V>::empty());
    assert(out@ =~= old(out)@ + formatted_all::<T>(all.take(0)));
    while i < values.len()
        invariant
            i <= values.len(),
            all == values.deep_view(),
            out@ == old(out)@ + formatted_all::<T>(all.take(i as int)),
        decreases values.len() - i,
    {
        let text = values[i].to_string();
        out.append(text.as_str());
        proof {
            assert(all.take(i + 1).drop_last() =~= all.take(i as int));
            assert(all.take(i + 1).last() == values@[i as int].deep_view());
            assert(out@ =~= old(out)@ + formatted_all::<T>(all.take(i + 1)));
        }
        i += 1;
    }
    assert(all.take(i as int) =~= all);
}

/// Writes the text of a value, where there is one, after what `out` holds.
pub fn push_option<T: Format>(out: &mut String, value: &Option<T>)
    ensures
        final(out)@ == old(out)@ + formatted_option::<T>(value.deep_view()),
{
    match value {
        Some(value) => {
            let text = value.to_string();
            out.append(text.as_str());
        },
        None => {
            assert(out@ =~= old(out)@ + Seq::<char>::empty());
        },
    }
}

/// Writes the text of a value after what `out` holds.
pub fn push_one<T: Format>(out: &mut String, value: &T)
    ensures
        final(out)@ == old(out)@ + T::formatted(value.deep_view()),
{
    let text = value.to_string();
    out.append(text.as_str());
}

impl Parse for String {
    /// A field: the characters up to a space or the end of the line, at
    /// least one.
    open spec fn parsed(text: Seq<char>, from: int) -> Option<(Seq<char>, int)> {
        parsed_field(text, from)
    }

    fn parse_at(input: &str, len: usize, from: usize) -> (read: Option<(String, usize)>) {
        parse_field(input, len, from)
    }
}

/// What reading a value where one stands comes to: the value and the place
/// after it, or nothing and the same place.
pub open spec fn parsed_opt<T: Parse>(text: Seq<char>, from: int) -> (
    Option<<T as DeepView>::V>,
    int,
) {
    match T::parsed(text, from) {
        Some((value, end)) => (Some(value), end),
        None => (None, from),
    }
}

/// Reads a value where one stands.
pub fn opt<T: Parse>(input: &str, len: usize, from: usize) -> (read: (Option<T>, usize))
    requires
        len == input@.len(),
        from <= len,
    ensures
        read.0.deep_view() == parsed_opt::<T>(input@, from as int).0,
        read.1 == parsed_opt::<T>(input@, from as int).1,
        from <= read.1 <= len,
{
    match T::parse_at(input, len, from) {
        Some((made, end)) => (Some(made), end),
        None => (None, from),
    }
}

/// Reads values one after the other, for as long as one stands there.
pub fn many0<T: Parse>(input: &str, len: usize, from: usize) -> (read: (Vec<T>, usize))
    requires
        len == input@.len(),
        from <= len,
    ensures
        read.0.deep_view() == parsed_many::<T>(input@, from as int).0,
        read.1 == parsed_many::<T>(input@, from as int).1,
        from <= read.1 <= len,
{
    let mut values: Vec<T> = Vec::new();
    let mut at: usize = from;
    assert(values.deep_view() =~= Seq::<<T as DeepView>::V>::empty());
    loop
        invariant
            len == input@.len(),
            from <= at <= len,
            parsed_many::<T>(input@, from as int) == (
                values.deep_view() + parsed_many::<T>(input@, at as int).0,
                parsed_many::<T>(input@, at as int).1,
            ),
        decreases len - at,
    {
        let (made, end) = match T::parse_at(input, len, at) {
            Some((made, end)) if end > at => (made, end),
            _ => {
                assert(parsed_many::<T>(input@, at as int) == (
                    Seq::<<T as DeepView>::V>::empty(),
                    at as int,
                ));
                assert(values.deep_view() + Seq::<<T as DeepView>::V>::empty()
                    =~= values.deep_view());
                return (values, at);
            },
        };
        let ghost before = values.deep_view();
        let ghost value = made.deep_view();
        values.push(made);
        proof {
            let others = parsed_many::<T>(input@, end as int);
            assert(values.deep_view() =~= before + seq![value]);
            assert(parsed_many::<T>(input@, at as int) == (seq![value] + others.0, others.1));
            assert(before + (seq![value] + others.0) =~= values.deep_view() + others.0);
        }
        at = end;
    }
}

/// What reading values one after the other, for as long as one stands
/// there, comes to: what the values hold, in their order, and the place
/// after the last.
pub open spec fn parsed_many<T: Parse>(text: Seq<char>, from: int) -> (
    Seq<<T as DeepView>::V>,
    int,
)
    decreases text.len() - from,
{
    match T::parsed(text, from) {
        Some((value, end)) if from < end <= text.len() => {
            let (others, last) = parsed_many::<T>(text, end);
            (seq![value] + others, last)
        },
        _ => (Seq::empty(), from),
    }
}

/// What reading values with `separator` between them comes to, for as long
/// as a separator and a value stand there: `None` where not even one value
/// stands at `from`. A separator that no value follows is not taken.
pub open spec fn parsed_separated<T: Parse>(text: Seq<char>, from: int, separator: Seq<char>)
    -> Option<(Seq<<T as DeepView>::V>, int)> {
    match T::parsed(text, from) {
        Some((value, end)) => {
            let (others, last) = parsed_more::<T>(text, end, separator);
            Some((seq![value] + others, last))
        },
        None => None,
    }
}

/// What reading further values, each after a separator, comes to.
pub open spec fn parsed_more<T: Parse>(text: Seq<char>, from: int, separator: Seq<char>) -> (
    Seq<<T as DeepView>::V>,
    int,
)
    decreases text.len() - from,
{
    match literal(text, from, separator) {
        Some(start) => match T::parsed(text, start) {
            Some((value, end)) if from < end <= text.len() => {
                let (others, last) = parsed_more::<T>(text, end, separator);
                (seq![value] + others, last)
            },
            _ => (Seq::empty(), from),
        },
        None => (Seq::empty(), from),
    }
}

impl<T: Parse> Parse for Option<T> {
    /// A value where one stands, and else nothing, with no character taken.
    open spec fn parsed(text: Seq<char>, from: int) -> Option<(Option<<T as DeepView>::V>, int)> {
        match T::parsed(text, from) {
            Some((value, end)) => Some((Some(value), end)),
            None => Some((None, from)),
        }
    }

    fn parse_at(input: &str, len: usize, from: usize) -> (read: Option<(Option<T>, usize)>) {
        match T::parse_at(input, len, from) {
            Some((made, end)) => Some((Some(made), end)),
            None => Some((None, from)),
        }
    }
}

impl<T: Parse> Parse for Vec<T> {
    /// As many values as stand there, one after the other; none is no error.
    open spec fn parsed(text: Seq<char>, from: int) -> Option<(Seq<<T as DeepView>::V>, int)> {
        Some(parsed_many::<T>(text, from))
    }

    fn parse_at(input: &str, len: usize, from: usize) -> (read: Option<(Vec<T>, usize)>) {
        let (values, end) = many0::<T>(input, len, from);
        Some((values, end))
    }
}

/// Reads values one after the other, for as long as one stands there, and
/// at least one.
pub fn many1<T: Parse>(input: &str, len: usize, from: usize) -> (read: Option<(Vec<T>, usize)>)
    requires
        len == input@.len(),
        from <= len,
    ensures
        match parsed_many::<T>(input@, from as int) {
            (values, end) => if values.len() > 0 {
                &&& read matches Some((made, e))
                &&& made.deep_view() == values
                &&& made@.len() > 0
                &&& e == end
                &&& from <= e <= len
            } else {
                read is None
            },
        },
{
    match <Vec<T> as Parse>::parse_at(input, len, from) {
        Some((values, end)) => {
            if values.len() > 0 {
                Some((values, end))
            } else {
                None
            }
        },
        None => None,
    }
}

/// Reads values with `separator` between them, for as long as a separator
/// and a value stand there, and at least one value.
pub fn separated_nonempty_list<T: Parse>(input: &str, len: usize, from: usize, separator: &str)
    -> (read: Option<(Vec<T>, usize)>)
    requires
        len == input@.len(),
        from <= len,
    ensures
        match parsed_separated::<T>(input@, from as int, separator@) {
            Some((values, end)) => {
                &&& read matches Some((made, e))
                &&& made.deep_view() == values
                &&& made@.len() > 0
                &&& e == end
                &&& from <= e <= len
            },
            None => read is None,
        },
{
    let (first, after) = match T::parse_at(input, len, from) {
        Some(pair) => pair,
        None => {
            return None;
        },
    };
    let ghost first_value = first.deep_view();
    let mut values: Vec<T> = Vec::new();
    values.push(first);
    let mut at: usize = after;
    assert(values.deep_view() =~= seq![first_value]);
    loop
        invariant
            len == input@.len(),
            from <= at <= len,
            values@.len() > 0,
            parsed_separated::<T>(input@, from as int, separator@) == Some(
                (
                    values.deep_view() + parsed_more::<T>(input@, at as int, separator@).0,
                    parsed_more::<T>(input@, at as int, separator@).1,
                ),
            ),
        decreases len - at,
    {
        let start = match take_literal(input, len, at, separator) {
            Some(start) => start,
            None => {
                assert(values.deep_view() + Seq::<<T as DeepView>::V>::empty()
                    =~= values.deep_view());
                return Some((values, at));
            },
        };
        match T::parse_at(input, len, start) {
            Some((made, end)) => {
                if end <= at {
                    assert(values.deep_view() + Seq::<<T as DeepView>::V>::empty()
                        =~= values.deep_view());
                    return Some((values, at));
                }
                let ghost before = values.deep_view();
                let ghost value = made.deep_view();
                values.push(made);
                proof {
                    assert(values.deep_view() =~= before + seq![value]);
                    let others = parsed_more::<T>(input@, end as int, separator@).0;
                    assert(before + (seq![value] + others) =~= values.deep_view() + others);
                }
                at = end;
            },
            None => {
                assert(values.deep_view() + Seq::<<T as DeepView>::V>::empty()
                    =~= values.deep_view());
                return Some((values, at));
            },
        }
    }
}

} // verus!
