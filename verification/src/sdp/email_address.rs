use crate::sdp::parse::{Format, Parse};
use crate::sdp::util::{crlf, parse_nonempty_line, parsed_nonempty_line, push_crlf};
use vstd::prelude::*;
use vstd::string::*;

verus! {

/// The email address of who is responsible for the session: the line `e=`.
#[derive(Clone, Debug, PartialEq)]
pub struct EmailAddress(pub String);

impl DeepView for EmailAddress {
    type V = Seq<char>;

    /// The address, with what stands beside it.
    open spec fn deep_view(&self) -> Seq<char> {
        self.0@
    }
}

impl Format for EmailAddress {
    /// `e=`, the text, and the end of the line.
    open spec fn formatted(value: Seq<char>) -> Seq<char> {
        "e="@ + value + crlf()
    }

    fn to_string(&self) -> (text: String) {
        let mut text = String::from_str("e=");
        text.append(self.0.as_str());
        push_crlf(&mut text);
        text
    }
}

impl Parse for EmailAddress {
    /// `e=`, then text up to the end of the line, at least one character,
    /// then a line ending.
    open spec fn parsed(text: Seq<char>, from: int) -> Option<(Seq<char>, int)> {
        parsed_nonempty_line(text, from, "e="@)
    }

    fn parse_at(input: &str, len: usize, from: usize) -> (read: Option<(EmailAddress, usize)>) {
        match parse_nonempty_line(input, len, from, "e=") {
            Some((value, after)) => Some((EmailAddress(value), after)),
            None => None,
        }
    }
}

} // verus!
