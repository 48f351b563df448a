use crate::sdp::parse::{formatted_all, parsed_many, push_all, Format, Parse};
use crate::sdp::repeat_times::{RepeatTimes, RepeatTimesView};
use crate::sdp::timing::{Timing, TimingView};
use vstd::prelude::*;
use vstd::string::*;

verus! {

/// When a session is active: a timing line and the repeat lines after it.
#[derive(Clone, Debug, PartialEq)]
pub struct TimeDescription {
    pub timing: Timing,
    pub repeat_times: Vec<RepeatTimes>,
}

/// What a time description holds.
pub struct TimeDescriptionView {
    pub timing: TimingView,
    pub repeat_times: Seq<RepeatTimesView>,
}

impl DeepView for TimeDescription {
    type V = TimeDescriptionView;

    open spec fn deep_view(&self) -> TimeDescriptionView {
        TimeDescriptionView {
            timing: self.timing.deep_view(),
            repeat_times: self.repeat_times.deep_view(),
        }
    }
}

impl Format for TimeDescription {
    /// The timing line, then the repeat lines in their order.
    open spec fn formatted(value: TimeDescriptionView) -> Seq<char> {
        Timing::formatted(value.timing) + formatted_all::<RepeatTimes>(value.repeat_times)
    }

    fn to_string(&self) -> (text: String) {
        let mut text = self.timing.to_string();
        push_all(&mut text, &self.repeat_times);
        text
    }
}

impl Parse for TimeDescription {
    /// A timing line, then as many repeat lines as follow it.
    open spec fn parsed(text: Seq<char>, from: int) -> Option<(TimeDescriptionView, int)> {
        match Timing::parsed(text, from) {
            None => None,
            Some((timing, at0)) => {
                let (repeat_times, end) = parsed_many::<RepeatTimes>(text, at0);
                Some((TimeDescriptionView { timing, repeat_times }, end))
            },
        }
    }

    fn parse_at(input: &str, len: usize, from: usize) -> (read: Option<(TimeDescription, usize)>) {
        let (timing, at0) = match Timing::parse_at(input, len, from) {
            Some(pair) => pair,
            None => {
                return None;
            },
        };
        match <Vec<RepeatTimes> as Parse>::parse_at(input, len, at0) {
            Some((repeat_times, end)) => Some((TimeDescription { timing, repeat_times }, end)),
            None => None,
        }
    }
}

} // verus!
