use crate::sdp::parse::{Format, Parse};
use crate::sdp::util::{crlf, line_ending, literal, push_crlf, take_line_ending, take_literal};
use vstd::prelude::*;
use vstd::string::*;

verus! {

/// The version of the protocol: the line `v=0`. No other version is known.
#[derive(Clone, Copy, Debug, PartialEq)]
pub struct Version;

impl DeepView for Version {
    type V = ();

    open spec fn deep_view(&self) -> () {
        ()
    }
}

impl Format for Version {
    /// `v=0` and the end of the line.
    open spec fn formatted(value: ()) -> Seq<char> {
        "v=0"@ + crlf()
    }

    fn to_string(&self) -> (text: String) {
        let mut text = String::from_str("v=0");
        push_crlf(&mut text);
        text
    }
}

impl Parse for Version {
    /// `v=0`, then a line ending.
    open spec fn parsed(text: Seq<char>, from: int) -> Option<((), int)> {
        match literal(text, from, "v=0"@) {
            None => None,
            Some(end) => match line_ending(text, end) {
                None => None,
                Some(after) => Some(((), after)),
            },
        }
    }

    fn parse_at(input: &str, len: usize, from: usize) -> (read: Option<(Version, usize)>) {
        let end = match take_literal(input, len, from, "v=0") {
            Some(end) => end,
            None => {
                return None;
            },
        };
        match take_line_ending(input, len, end) {
            Some(after) => Some((Version, after)),
            None => None,
        }
    }
}

} // verus!
