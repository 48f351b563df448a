use crate::sdp::decimal::{push_signed_decimal, signed_decimal};
use crate::sdp::ntp::Duration;
use crate::sdp::parse::{parsed_separated, separated_nonempty_list, Format, Parse};
use crate::sdp::util::{crlf, line_ending, literal, push_crlf, take_line_ending, take_literal};
use vstd::prelude::*;
use vstd::string::*;

verus! {

/// How a session repeats: the line `r=`.
#[derive(Clone, Debug, PartialEq)]
pub struct RepeatTimes {
    pub interval: Duration,
    pub duration: Duration,
    /// The offsets from the start time: at least one.
    pub offsets: Vec<Duration>,
}

/// What a repeat line holds: spans of time in seconds.
pub struct RepeatTimesView {
    pub interval: i64,
    pub duration: i64,
    pub offsets: Seq<i64>,
}

impl DeepView for RepeatTimes {
    type V = RepeatTimesView;

    open spec fn deep_view(&self) -> RepeatTimesView {
        RepeatTimesView {
            interval: self.interval.deep_view(),
            duration: self.duration.deep_view(),
            offsets: self.offsets.deep_view(),
        }
    }
}

/// Spans of time in seconds, each with a space before it.
pub open spec fn spaced_seconds(spans: Seq<i64>) -> Seq<char>
    decreases spans.len(),
{
    if spans.len() == 0 {
        Seq::empty()
    } else {
        spaced_seconds(spans.drop_last()) + " "@ + signed_decimal(spans.last() as int)
    }
}

impl Format for RepeatTimes {
    /// `r=`, the interval, the duration and the offsets in seconds with a
    /// space between them, and the end of the line.
    open spec fn formatted(value: RepeatTimesView) -> Seq<char> {
        "r="@ + signed_decimal(value.interval as int) + " "@ + signed_decimal(
            value.duration as int,
        ) + spaced_seconds(value.offsets) + crlf()
    }

    fn to_string(&self) -> (text: String) {
        let mut text = String::from_str("r=");
        push_signed_decimal(&mut text, self.interval.as_secs());
        text.append(" ");
        push_signed_decimal(&mut text, self.duration.as_secs());
        let ghost head = text@;
        let ghost offsets = self.offsets.deep_view();
        let mut i: usize = 0;
        assert(offsets.take(0) =~= Seq::<i64>::empty());
        assert(text@ =~= head + spaced_seconds(offsets.take(0)));
        while i < self.offsets.len()
            invariant
                i <= self.offsets.len(),
                offsets == self.offsets.deep_view(),
                text@ == head + spaced_seconds(offsets.take(i as int)),
            decreases self.offsets.len() - i,
        {
            text.append(" ");
            push_signed_decimal(&mut text, self.offsets[i].as_secs());
            proof {
                assert(offsets.take(i + 1).drop_last() =~= offsets.take(i as int));
                assert(offsets.take(i + 1).last() == self.offsets@[i as int].deep_view());
                assert(text@ =~= head + spaced_seconds(offsets.take(i + 1)));
            }
            i += 1;
        }
        assert(offsets.take(i as int) =~= offsets);
        push_crlf(&mut text);
        text
    }
}

impl Parse for RepeatTimes {
    /// `r=`, then the interval, the duration and the offsets, spans of time
    /// with one space between them, at least one offset; then a line ending.
    open spec fn parsed(text: Seq<char>, from: int) -> Option<(RepeatTimesView, int)> {
        match literal(text, from, "r="@) {
            None => None,
            Some(at0) => match Duration::parsed(text, at0) {
                None => None,
                Some((interval, at1)) => match literal(text, at1, " "@) {
                    None => None,
                    Some(at2) => match Duration::parsed(text, at2) {
                        None => None,
                        Some((duration, at3)) => match literal(text, at3, " "@) {
                            None => None,
                            Some(at4) => match parsed_separated::<Duration>(text, at4, " "@) {
                                None => None,
                                Some((offsets, at5)) => match line_ending(text, at5) {
                                    None => None,
                                    Some(after) => Some(
                                        (RepeatTimesView { interval, duration, offsets }, after),
                                    ),
                                },
                            },
                        },
                    },
                },
            },
        }
    }

    fn parse_at(input: &str, len: usize, from: usize) -> (read: Option<(RepeatTimes, usize)>) {
        let at0 = match take_literal(input, len, from, "r=") {
            Some(p) => p,
            None => {
                return None;
            },
        };
        let (interval, at1) = match Duration::parse_at(input, len, at0) {
            Some(pair) => pair,
            None => {
                return None;
            },
        };
        let at2 = match take_literal(input, len, at1, " ") {
            Some(p) => p,
            None => {
                return None;
            },
        };
        let (duration, at3) = match Duration::parse_at(input, len, at2) {
            Some(pair) => pair,
            None => {
                return None;
            },
        };
        let at4 = match take_literal(input, len, at3, " ") {
            Some(p) => p,
            None => {
                return None;
            },
        };
        let (offsets, at5) = match separated_nonempty_list::<Duration>(input, len, at4, " ") {
            Some(pair) => pair,
            None => {
                return None;
            },
        };
        match take_line_ending(input, len, at5) {
            Some(after) => Some((RepeatTimes { interval, duration, offsets }, after)),
            None => None,
        }
    }
}

impl RepeatTimesView {
    /// Whether the value is one that a line can hold: it has at least one offset.
    pub open spec fn wf(self) -> bool {
        self.offsets.len() > 0
    }
}

/// What is read is a value that a line can hold.
pub proof fn lemma_parsed_repeat_times_wf(text: Seq<char>, from: int)
    ensures
        RepeatTimes::parsed(text, from) matches Some((value, _)) ==> value.wf(),
{
}

} // verus!
