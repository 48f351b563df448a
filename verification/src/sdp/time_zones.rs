use crate::sdp::decimal::{decimal, push_decimal, push_signed_decimal, signed_decimal};
use crate::sdp::ntp::{Duration, Instant};
use crate::sdp::parse::{parsed_separated, separated_nonempty_list, Format, Parse};
use crate::sdp::util::{crlf, line_ending, literal, push_crlf, take_line_ending, take_literal};
use vstd::prelude::*;
use vstd::string::*;

verus! {

/// The adjustments of the time zone of a session: the line `z=`. It holds
/// at least one adjustment.
#[derive(Clone, Debug, PartialEq)]
pub struct TimeZones(pub Vec<TimeZone>);

/// One adjustment: from when it holds, and by how much.
#[derive(Clone, Debug, PartialEq)]
pub struct TimeZone {
    pub adjustment_time: Instant,
    pub offset: Duration,
}

/// What an adjustment holds, in seconds.
pub struct TimeZoneView {
    pub adjustment_time: u64,
    pub offset: i64,
}

impl DeepView for TimeZone {
    type V = TimeZoneView;

    open spec fn deep_view(&self) -> TimeZoneView {
        TimeZoneView {
            adjustment_time: self.adjustment_time.deep_view(),
            offset: self.offset.deep_view(),
        }
    }
}

impl DeepView for TimeZones {
    type V = Seq<TimeZoneView>;

    open spec fn deep_view(&self) -> Seq<TimeZoneView> {
        self.0.deep_view()
    }
}

/// The text of one adjustment: its time and its offset in seconds, with a
/// space between them.
pub open spec fn formatted_time_zone(zone: TimeZoneView) -> Seq<char> {
    decimal(zone.adjustment_time as nat) + " "@ + signed_decimal(zone.offset as int)
}

/// Adjustments, with a space before each but the first.
pub open spec fn formatted_time_zones(zones: Seq<TimeZoneView>) -> Seq<char>
    decreases zones.len(),
{
    if zones.len() == 0 {
        Seq::empty()
    } else if zones.len() == 1 {
        formatted_time_zone(zones[0])
    } else {
        formatted_time_zones(zones.drop_last()) + " "@ + formatted_time_zone(zones.last())
    }
}

impl Format for TimeZones {
    /// `z=`, the adjustments with a space between them, and the end of the
    /// line.
    open spec fn formatted(value: Seq<TimeZoneView>) -> Seq<char> {
        "z="@ + formatted_time_zones(value) + crlf()
    }

    fn to_string(&self) -> (text: String) {
        let mut text = String::from_str("z=");
        let ghost head = text@;
        let ghost zones = self.0.deep_view();
        let mut i: usize = 0;
        assert(zones.take(0) =~= Seq::<TimeZoneView>::empty());
        assert(text@ =~= head + formatted_time_zones(zones.take(0)));
        while i < self.0.len()
            invariant
                i <= self.0.len(),
                zones == self.0.deep_view(),
                text@ == head + formatted_time_zones(zones.take(i as int)),
            decreases self.0.len() - i,
        {
            if i > 0 {
                text.append(" ");
            }
            push_decimal(&mut text, self.0[i].adjustment_time.as_secs());
            text.append(" ");
            push_signed_decimal(&mut text, self.0[i].offset.as_secs());
            proof {
                assert(zones.take(i + 1).drop_last() =~= zones.take(i as int));
                assert(zones.take(i + 1).last() == self.0@[i as int].deep_view());
                assert(text@ =~= head + formatted_time_zones(zones.take(i + 1)));
            }
            i += 1;
        }
        assert(zones.take(i as int) =~= zones);
        push_crlf(&mut text);
        text
    }
}

impl Parse for TimeZones {
    /// `z=`, then adjustments with one space between them, at least one;
    /// then a line ending.
    open spec fn parsed(text: Seq<char>, from: int) -> Option<(Seq<TimeZoneView>, int)> {
        match literal(text, from, "z="@) {
            None => None,
            Some(at0) => match parsed_separated::<TimeZone>(text, at0, " "@) {
                None => None,
                Some((zones, at1)) => match line_ending(text, at1) {
                    None => None,
                    Some(after) => Some((zones, after)),
                },
            },
        }
    }

    fn parse_at(input: &str, len: usize, from: usize) -> (read: Option<(TimeZones, usize)>) {
        let at0 = match take_literal(input, len, from, "z=") {
            Some(p) => p,
            None => {
                return None;
            },
        };
        let (zones, at1) = match separated_nonempty_list::<TimeZone>(input, len, at0, " ") {
            Some(pair) => pair,
            None => {
                return None;
            },
        };
        match take_line_ending(input, len, at1) {
            Some(after) => Some((TimeZones(zones), after)),
            None => None,
        }
    }
}

impl Parse for TimeZone {
    /// A time, one space, and a span of time.
    open spec fn parsed(text: Seq<char>, from: int) -> Option<(TimeZoneView, int)> {
        match Instant::parsed(text, from) {
            None => None,
            Some((adjustment_time, at0)) => match literal(text, at0, " "@) {
                None => None,
                Some(at1) => match Duration::parsed(text, at1) {
                    None => None,
                    Some((offset, end)) => Some((TimeZoneView { adjustment_time, offset }, end)),
                },
            },
        }
    }

    fn parse_at(input: &str, len: usize, from: usize) -> (read: Option<(TimeZone, usize)>) {
        let (adjustment_time, at0) = match Instant::parse_at(input, len, from) {
            Some(pair) => pair,
            None => {
                return None;
            },
        };
        let at1 = match take_literal(input, len, at0, " ") {
            Some(p) => p,
            None => {
                return None;
            },
        };
        match Duration::parse_at(input, len, at1) {
            Some((offset, end)) => Some((TimeZone { adjustment_time, offset }, end)),
            None => None,
        }
    }
}

/// What is read holds at least one adjustment.
pub proof fn lemma_parsed_time_zones_nonempty(text: Seq<char>, from: int)
    ensures
        TimeZones::parsed(text, from) matches Some((zones, _)) ==> zones.len() > 0,
{
}

} // verus!
