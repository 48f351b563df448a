use crate::sdp::parse::{Format, Parse};
use crate::sdp::util::{crlf, parse_nonempty_line, parsed_nonempty_line, push_crlf};
use vstd::prelude::*;
use vstd::string::*;

verus! {

/// The phone number of who is responsible for the session: the line `p=`.
#[derive(Clone, Debug, PartialEq)]
pub struct PhoneNumber(pub String);

impl DeepView for PhoneNumber {
    type V = Seq<char>;

    /// The number, with what stands beside it.
    open spec fn deep_view(&self) -> Seq<char> {
        self.0@
    }
}

impl Format for PhoneNumber {
    /// `p=`, the text, and the end of the line.
    open spec fn formatted(value: Seq<char>) -> Seq<char> {
        "p="@ + value + crlf()
    }

    fn to_string(&self) -> (text: String) {
        let mut text = String::from_str("p=");
        text.append(self.0.as_str());
        push_crlf(&mut text);
        text
    }
}

impl Parse for PhoneNumber {
    /// `p=`, then text up to the end of the line, at least one character,
    /// then a line ending.
    open spec fn parsed(text: Seq<char>, from: int) -> Option<(Seq<char>, int)> {
        parsed_nonempty_line(text, from, "p="@)
    }

    fn parse_at(input: &str, len: usize, from: usize) -> (read: Option<(PhoneNumber, usize)>) {
        match parse_nonempty_line(input, len, from, "p=") {
            Some((value, after)) => Some((PhoneNumber(value), after)),
            None => None,
        }
    }
}

} // verus!
