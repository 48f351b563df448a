use crate::sdp::decimal::{decimal, push_decimal};
use crate::sdp::parse::{Format, Parse};
use crate::sdp::util::{
    crlf, line_ending, literal, parsed_number_field, piece, push_crlf, take_line_ending,
    take_literal, take_token, token, try_parse_field, Stop,
};
use vstd::prelude::*;
use vstd::string::*;

verus! {

/// The bandwidth that a session or a media stream is to use: the line `b=`.
#[derive(Clone, Debug, PartialEq)]
pub struct Bandwidth {
    /// Whether the type is an experimental one, written with `X-` before it.
    pub experimental: bool,
    pub bwtype: String,
    pub bandwidth: u64,
}

/// What a bandwidth line holds.
pub struct BandwidthView {
    pub experimental: bool,
    pub bwtype: Seq<char>,
    pub bandwidth: u64,
}

impl DeepView for Bandwidth {
    type V = BandwidthView;

    open spec fn deep_view(&self) -> BandwidthView {
        BandwidthView {
            experimental: self.experimental,
            bwtype: self.bwtype@,
            bandwidth: self.bandwidth,
        }
    }
}

impl Format for Bandwidth {
    /// `b=`, `X-` where the type is experimental, the type, a colon, the
    /// bandwidth in decimal notation, and the end of the line.
    open spec fn formatted(value: BandwidthView) -> Seq<char> {
        if value.experimental {
            "b=X-"@ + value.bwtype + ":"@ + decimal(value.bandwidth as nat) + crlf()
        } else {
            "b="@ + value.bwtype + ":"@ + decimal(value.bandwidth as nat) + crlf()
        }
    }

    fn to_string(&self) -> (text: String) {
        let mut text = if self.experimental {
            String::from_str("b=X-")
        } else {
            String::from_str("b=")
        };
        text.append(self.bwtype.as_str());
        text.append(":");
        push_decimal(&mut text, self.bandwidth);
        push_crlf(&mut text);
        text
    }
}

impl Parse for Bandwidth {
    /// `b=`, then `X-` where the type is experimental, then the type, which
    /// is letters and digits, at least one; then a colon; then the bandwidth,
    /// a number that runs to the end of its field; then a line ending.
    open spec fn parsed(text: Seq<char>, from: int) -> Option<(BandwidthView, int)> {
        match literal(text, from, "b="@) {
            None => None,
            Some(start) => {
                let experimental = literal(text, start, "X-"@) is Some;
                let type_start = if experimental {
                    start + 2
                } else {
                    start
                };
                match token(text, type_start, Stop::NonAlphanumeric) {
                    None => None,
                    Some(type_end) => match literal(text, type_end, ":"@) {
                        None => None,
                        Some(number_start) => match parsed_number_field(text, number_start) {
                            None => None,
                            Some((bandwidth, end)) => match line_ending(text, end) {
                                None => None,
                                Some(after) => Some(
                                    (
                                        BandwidthView {
                                            experimental,
                                            bwtype: text.subrange(type_start, type_end),
                                            bandwidth,
                                        },
                                        after,
                                    ),
                                ),
                            },
                        },
                    },
                }
            },
        }
    }

    fn parse_at(input: &str, len: usize, from: usize) -> (read: Option<(Bandwidth, usize)>) {
        let start = match take_literal(input, len, from, "b=") {
            Some(start) => start,
            None => {
                return None;
            },
        };
        proof {
            reveal_strlit("X-");
        }
        let (experimental, type_start) = match take_literal(input, len, start, "X-") {
            Some(type_start) => (true, type_start),
            None => (false, start),
        };
        let type_end = match take_token(input, len, type_start, Stop::NonAlphanumeric) {
            Some(end) => end,
            None => {
                return None;
            },
        };
        let number_start = match take_literal(input, len, type_end, ":") {
            Some(start) => start,
            None => {
                return None;
            },
        };
        let (bandwidth, end) = match try_parse_field(input, len, number_start) {
            Some(pair) => pair,
            None => {
                return None;
            },
        };
        match take_line_ending(input, len, end) {
            Some(after) => Some(
                (
                    Bandwidth { experimental, bwtype: piece(input, type_start, type_end), bandwidth },
                    after,
                ),
            ),
            None => None,
        }
    }
}

} // verus!
