use crate::sdp::decimal::{decimal, push_decimal};
use crate::sdp::ntp::Instant;
use crate::sdp::parse::{Format, Parse};
use crate::sdp::util::{crlf, line_ending, literal, push_crlf, take_line_ending, take_literal};
use vstd::prelude::*;
use vstd::string::*;

verus! {

/// When a session starts and stops: the line `t=`.
#[derive(Clone, Debug, PartialEq)]
pub struct Timing {
    pub start_time: Instant,
    pub stop_time: Instant,
}

/// What a timing line holds: two points in time, in seconds.
pub struct TimingView {
    pub start_time: u64,
    pub stop_time: u64,
}

impl DeepView for Timing {
    type V = TimingView;

    open spec fn deep_view(&self) -> TimingView {
        TimingView {
            start_time: self.start_time.deep_view(),
            stop_time: self.stop_time.deep_view(),
        }
    }
}

impl Format for Timing {
    /// `t=`, the two times in seconds with a space between them, and the
    /// end of the line.
    open spec fn formatted(value: TimingView) -> Seq<char> {
        "t="@ + decimal(value.start_time as nat) + " "@ + decimal(value.stop_time as nat) + crlf()
    }

    fn to_string(&self) -> (text: String) {
        let mut text = String::from_str("t=");
        push_decimal(&mut text, self.start_time.as_secs());
        text.append(" ");
        push_decimal(&mut text, self.stop_time.as_secs());
        push_crlf(&mut text);
        text
    }
}

impl Parse for Timing {
    /// `t=`, then two times with one space between them, then a line ending.
    open spec fn parsed(text: Seq<char>, from: int) -> Option<(TimingView, int)> {
        match literal(text, from, "t="@) {
            None => None,
            Some(at0) => match Instant::parsed(text, at0) {
                None => None,
                Some((start_time, at1)) => match literal(text, at1, " "@) {
                    None => None,
                    Some(at2) => match Instant::parsed(text, at2) {
                        None => None,
                        Some((stop_time, at3)) => match line_ending(text, at3) {
                            None => None,
                            Some(after) => Some((TimingView { start_time, stop_time }, after)),
                        },
                    },
                },
            },
        }
    }

    fn parse_at(input: &str, len: usize, from: usize) -> (read: Option<(Timing, usize)>) {
        let at0 = match take_literal(input, len, from, "t=") {
            Some(p) => p,
            None => {
                return None;
            },
        };
        let (start_time, at1) = match Instant::parse_at(input, len, at0) {
            Some(pair) => pair,
            None => {
                return None;
            },
        };
        let at2 = match take_literal(input, len, at1, " ") {
            Some(p) => p,
            None => {
                return None;
            },
        };
        let (stop_time, at3) = match Instant::parse_at(input, len, at2) {
            Some(pair) => pair,
            None => {
                return None;
            },
        };
        match take_line_ending(input, len, at3) {
            Some(after) => Some((Timing { start_time, stop_time }, after)),
            None => None,
        }
    }
}

} // verus!
