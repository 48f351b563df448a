use crate::sdp::parse::{Format, Parse};
use crate::sdp::util::{
    crlf, line_ending, literal, piece, push_crlf, scan, scan_until, take_line_ending, take_literal,
    take_token, token, Stop,
};
use vstd::prelude::*;
use vstd::string::*;

verus! {

/// An attribute of a session or of a media stream: the line `a=`, with a
/// name alone or with a name and a value.
#[derive(Clone, Debug, PartialEq)]
pub struct Attribute {
    pub name: String,
    pub value: Option<String>,
}

/// What an attribute holds.
pub struct AttributeView {
    pub name: Seq<char>,
    pub value: Option<Seq<char>>,
}

impl DeepView for Attribute {
    type V = AttributeView;

    open spec fn deep_view(&self) -> AttributeView {
        AttributeView { name: self.name@, value: self.value.deep_view() }
    }
}

impl Format for Attribute {
    /// `a=`, the name, a colon and the value where there is a value, and the
    /// end of the line.
    open spec fn formatted(value: AttributeView) -> Seq<char> {
        match value.value {
            Some(text) => "a="@ + value.name + ":"@ + text + crlf(),
            None => "a="@ + value.name + crlf(),
        }
    }

    fn to_string(&self) -> (text: String) {
        let mut text = String::from_str("a=");
        text.append(self.name.as_str());
        match &self.value {
            Some(value) => {
                text.append(":");
                text.append(value.as_str());
            },
            None => {},
        }
        push_crlf(&mut text);
        text
    }
}

impl Parse for Attribute {
    /// `a=`, then a name up to a colon or the end of the line, at least one
    /// character; then, where a colon follows, the value up to the end of
    /// the line, which may be empty; then a line ending.
    open spec fn parsed(text: Seq<char>, from: int) -> Option<(AttributeView, int)> {
        match literal(text, from, "a="@) {
            None => None,
            Some(start) => match token(text, start, Stop::Name) {
                None => None,
                Some(name_end) => if name_end < text.len() && text[name_end] == ':' {
                    let value_end = scan(text, name_end + 1, Stop::Line);
                    match line_ending(text, value_end) {
                        None => None,
                        Some(after) => Some(
                            (
                                AttributeView {
                                    name: text.subrange(start, name_end),
                                    value: Some(text.subrange(name_end + 1, value_end)),
                                },
                                after,
                            ),
                        ),
                    }
                } else {
                    match line_ending(text, name_end) {
                        None => None,
                        Some(after) => Some(
                            (
                                AttributeView { name: text.subrange(start, name_end), value: None },
                                after,
                            ),
                        ),
                    }
                },
            },
        }
    }

    fn parse_at(input: &str, len: usize, from: usize) -> (read: Option<(Attribute, usize)>) {
        let start = match take_literal(input, len, from, "a=") {
            Some(start) => start,
            None => {
                return None;
            },
        };
        let name_end = match take_token(input, len, start, Stop::Name) {
            Some(end) => end,
            None => {
                return None;
            },
        };
        let name = piece(input, start, name_end);
        if name_end < len && input.get_char(name_end) == ':' {
            let value_end = scan_until(input, len, name_end + 1, Stop::Line);
            match take_line_ending(input, len, value_end) {
                Some(after) => Some(
                    (Attribute { name, value: Some(piece(input, name_end + 1, value_end)) }, after),
                ),
                None => None,
            }
        } else {
            match take_line_ending(input, len, name_end) {
                Some(after) => Some((Attribute { name, value: None }, after)),
                None => None,
            }
        }
    }
}

} // verus!
