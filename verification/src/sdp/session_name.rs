use crate::sdp::parse::{Format, Parse};
use crate::sdp::util::{crlf, parse_nonempty_line, parsed_nonempty_line, push_crlf};
use vstd::prelude::*;
use vstd::string::*;

verus! {

/// The name of the session: the line `s=`.
#[derive(Clone, Debug, PartialEq)]
pub struct SessionName(pub String);

impl DeepView for SessionName {
    type V = Seq<char>;

    /// The name.
    open spec fn deep_view(&self) -> Seq<char> {
        self.0@
    }
}

impl Format for SessionName {
    /// `s=`, the text, and the end of the line.
    open spec fn formatted(value: Seq<char>) -> Seq<char> {
        "s="@ + value + crlf()
    }

    fn to_string(&self) -> (text: String) {
        let mut text = String::from_str("s=");
        text.append(self.0.as_str());
        push_crlf(&mut text);
        text
    }
}

impl Parse for SessionName {
    /// `s=`, then text up to the end of the line, at least one character,
    /// then a line ending.
    open spec fn parsed(text: Seq<char>, from: int) -> Option<(Seq<char>, int)> {
        parsed_nonempty_line(text, from, "s="@)
    }

    fn parse_at(input: &str, len: usize, from: usize) -> (read: Option<(SessionName, usize)>) {
        match parse_nonempty_line(input, len, from, "s=") {
            Some((value, after)) => Some((SessionName(value), after)),
            None => None,
        }
    }
}

} // verus!
