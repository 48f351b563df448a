use crate::sdp::parse::{Format, Parse};
use crate::sdp::util::{crlf, parse_nonempty_line, parsed_nonempty_line, push_crlf};
use vstd::prelude::*;
use vstd::string::*;

verus! {

/// What a session or a media stream is about: the line `i=`.
#[derive(Clone, Debug, PartialEq)]
pub struct Information(pub String);

impl DeepView for Information {
    type V = Seq<char>;

    /// The text.
    open spec fn deep_view(&self) -> Seq<char> {
        self.0@
    }
}

impl Format for Information {
    /// `i=`, the text, and the end of the line.
    open spec fn formatted(value: Seq<char>) -> Seq<char> {
        "i="@ + value + crlf()
    }

    fn to_string(&self) -> (text: String) {
        let mut text = String::from_str("i=");
        text.append(self.0.as_str());
        push_crlf(&mut text);
        text
    }
}

impl Parse for Information {
    /// `i=`, then text up to the end of the line, at least one character,
    /// then a line ending.
    open spec fn parsed(text: Seq<char>, from: int) -> Option<(Seq<char>, int)> {
        parsed_nonempty_line(text, from, "i="@)
    }

    fn parse_at(input: &str, len: usize, from: usize) -> (read: Option<(Information, usize)>) {
        match parse_nonempty_line(input, len, from, "i=") {
            Some((value, after)) => Some((Information(value), after)),
            None => None,
        }
    }
}

} // verus!
