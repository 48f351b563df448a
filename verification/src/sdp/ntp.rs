//! Times in seconds, and how they are written: a number, then at most one
//! letter that gives its unit.

use crate::sdp::decimal::{digits_value, read_decimal};
use crate::sdp::parse::Parse;
use crate::sdp::util::{lemma_scan, take_token, token, Stop};
use vstd::prelude::*;
use vstd::string::*;

verus! {

/// The seconds of a minute.
pub const SECS_PER_MIN: u64 = 60;

/// The seconds of an hour.
pub const SECS_PER_HOUR: u64 = 3600;

/// The seconds of a day.
pub const SECS_PER_DAY: u64 = 86400;

/// The seconds that one unit is worth, and the place after the letter of the
/// unit, where one stands at `at`: `d` for days, `h` for hours, `m` for
/// minutes, `s` for seconds. Without a letter the unit is seconds.
pub open spec fn unit(text: Seq<char>, at: int) -> (nat, int) {
    if 0 <= at < text.len() && text[at] == 'd' {
        (SECS_PER_DAY as nat, at + 1)
    } else if 0 <= at < text.len() && text[at] == 'h' {
        (SECS_PER_HOUR as nat, at + 1)
    } else if 0 <= at < text.len() && text[at] == 'm' {
        (SECS_PER_MIN as nat, at + 1)
    } else if 0 <= at < text.len() && text[at] == 's' {
        (1, at + 1)
    } else {
        (1, at)
    }
}

/// Reads the letter of a unit at `at`, where one stands there.
pub fn take_unit(input: &str, len: usize, at: usize) -> (read: (u64, usize))
    requires
        len == input@.len(),
        at <= len,
    ensures
        read.0 == unit(input@, at as int).0,
        read.1 == unit(input@, at as int).1,
        at <= read.1 <= len,
{
    if at < len {
        let c: char = input.get_char(at);
        if c == 'd' {
            return (SECS_PER_DAY, at + 1);
        } else if c == 'h' {
            return (SECS_PER_HOUR, at + 1);
        } else if c == 'm' {
            return (SECS_PER_MIN, at + 1);
        } else if c == 's' {
            return (1, at + 1);
        }
    }
    (1, at)
}

/// What reading a number of seconds at `from` comes to: as many digits as
/// stand there, at least one, then the letter of a unit where there is one.
/// The number of seconds must not be above `max`.
#[verifier::opaque]
pub open spec fn parsed_seconds(text: Seq<char>, from: int, max: nat) -> Option<(nat, int)> {
    match token(text, from, Stop::NonDigit) {
        None => None,
        Some(end) => {
            let (factor, after) = unit(text, end);
            if digits_value(text, from, end) * factor <= max {
                Some((digits_value(text, from, end) * factor, after))
            } else {
                None
            }
        },
    }
}

/// Reads a number of seconds at `from`, which must not be above `max`.
pub fn take_seconds(input: &str, len: usize, from: usize, max: u64) -> (read: Option<
    (u64, usize),
>)
    requires
        len == input@.len(),
        from <= len,
    ensures
        match parsed_seconds(input@, from as int, max as nat) {
            Some((seconds, end)) => read == Some((seconds as u64, end as usize)) && from < end
                <= len && seconds <= max,
            None => read is None,
        },
{
    proof {
        reveal(parsed_seconds);
    }
    let end = match take_token(input, len, from, Stop::NonDigit) {
        Some(end) => end,
        None => {
            return None;
        },
    };
    proof {
        lemma_scan(input@, from as int, Stop::NonDigit);
    }
    let (factor, after) = take_unit(input, len, end);
    let ghost number = digits_value(input@, from as int, end as int);
    let value = match read_decimal(input, from, end) {
        Some(value) => value,
        None => {
            assert(number * factor > max) by (nonlinear_arith)
                requires
                    number > u64::MAX,
                    factor >= 1,
                    max <= u64::MAX,
            ;
            return None;
        },
    };
    match value.checked_mul(factor) {
        Some(seconds) => {
            if seconds <= max {
                Some((seconds, after))
            } else {
                None
            }
        },
        None => None,
    }
}

/// A point in time, in seconds since the start of the year 1900.
#[derive(Clone, Copy, Debug, PartialEq)]
pub struct Instant(u64);

impl DeepView for Instant {
    type V = u64;

    /// The point in time in seconds.
    closed spec fn deep_view(&self) -> u64 {
        self.0
    }
}

impl Instant {
    pub fn from_secs(secs: u64) -> (instant: Instant)
        ensures
            instant.deep_view() == secs,
    {
        Instant(secs)
    }

    pub fn from_mins(mins: u64) -> (instant: Instant)
        requires
            mins * SECS_PER_MIN <= u64::MAX,
        ensures
            instant.deep_view() == mins * SECS_PER_MIN,
    {
        Instant(mins * SECS_PER_MIN)
    }

    pub fn from_hours(hours: u64) -> (instant: Instant)
        requires
            hours * SECS_PER_HOUR <= u64::MAX,
        ensures
            instant.deep_view() == hours * SECS_PER_HOUR,
    {
        Instant(hours * SECS_PER_HOUR)
    }

    pub fn from_days(days: u64) -> (instant: Instant)
        requires
            days * SECS_PER_DAY <= u64::MAX,
        ensures
            instant.deep_view() == days * SECS_PER_DAY,
    {
        Instant(days * SECS_PER_DAY)
    }

    pub fn as_secs(&self) -> (secs: u64)
        ensures
            secs == self.deep_view(),
    {
        self.0
    }
}

impl Parse for Instant {
    /// A number of seconds that fits in `u64`.
    open spec fn parsed(text: Seq<char>, from: int) -> Option<(u64, int)> {
        match parsed_seconds(text, from, u64::MAX as nat) {
            Some((seconds, end)) => Some((seconds as u64, end)),
            None => None,
        }
    }

    fn parse_at(input: &str, len: usize, from: usize) -> (read: Option<(Instant, usize)>) {
        match take_seconds(input, len, from, u64::MAX) {
            Some((seconds, end)) => Some((Instant(seconds), end)),
            None => None,
        }
    }
}

/// A span of time in seconds, which may be negative.
#[derive(Clone, Copy, Debug, PartialEq)]
pub struct Duration(i64);

impl DeepView for Duration {
    type V = i64;

    /// The span in seconds.
    closed spec fn deep_view(&self) -> i64 {
        self.0
    }
}

impl Duration {
    pub fn from_secs(secs: i64) -> (duration: Duration)
        ensures
            duration.deep_view() == secs,
    {
        Duration(secs)
    }

    pub fn from_mins(mins: i64) -> (duration: Duration)
        requires
            i64::MIN <= mins * SECS_PER_MIN <= i64::MAX,
        ensures
            duration.deep_view() == mins * SECS_PER_MIN,
    {
        Duration(mins * 60)
    }

    pub fn from_hours(hours: i64) -> (duration: Duration)
        requires
            i64::MIN <= hours * SECS_PER_HOUR <= i64::MAX,
        ensures
            duration.deep_view() == hours * SECS_PER_HOUR,
    {
        Duration(hours * 3600)
    }

    pub fn from_days(days: i64) -> (duration: Duration)
        requires
            i64::MIN <= days * SECS_PER_DAY <= i64::MAX,
        ensures
            duration.deep_view() == days * SECS_PER_DAY,
    {
        Duration(days * 86400)
    }

    pub fn as_secs(&self) -> (secs: i64)
        ensures
            secs == self.deep_view(),
    {
        self.0
    }
}

/// The place after a sign at `from`, and whether what follows is negative:
/// a plus sign or a minus sign is taken where one stands there.
pub open spec fn sign(text: Seq<char>, from: int) -> (bool, int) {
    if 0 <= from < text.len() && text[from] == '+' {
        (false, from + 1)
    } else if 0 <= from < text.len() && text[from] == '-' {
        (true, from + 1)
    } else {
        (false, from)
    }
}

impl Parse for Duration {
    /// A sign where there is one, then a number of seconds that fits in
    /// `i64` without its sign.
    open spec fn parsed(text: Seq<char>, from: int) -> Option<(i64, int)> {
        let (negative, start) = sign(text, from);
        match parsed_seconds(text, start, i64::MAX as nat) {
            Some((seconds, end)) => Some(
                (
                    if negative {
                        (-seconds) as i64
                    } else {
                        seconds as i64
                    },
                    end,
                ),
            ),
            None => None,
        }
    }

    fn parse_at(input: &str, len: usize, from: usize) -> (read: Option<(Duration, usize)>) {
        let mut negative: bool = false;
        let mut start: usize = from;
        if from < len {
            let c: char = input.get_char(from);
            if c == '+' {
                start = from + 1;
            } else if c == '-' {
                negative = true;
                start = from + 1;
            }
        }
        match take_seconds(input, len, start, i64::MAX as u64) {
            Some((seconds, end)) => {
                let seconds: i64 = seconds as i64;
                Some(
                    (
                        Duration(
                            if negative {
                                -seconds
                            } else {
                                seconds
                            },
                        ),
                        end,
                    ),
                )
            },
            None => None,
        }
    }
}

} // verus!
