use crate::sdp::ntp::{parsed_seconds, take_seconds, SECS_PER_DAY, SECS_PER_HOUR, SECS_PER_MIN};
use crate::sdp::parse::Parse;
use vstd::prelude::*;

verus! {

/// A time of the network time protocol, in seconds.
#[derive(Clone, Copy, Debug, PartialEq)]
pub struct NtpTime(u64);

impl DeepView for NtpTime {
    type V = u64;

    /// The time in seconds.
    closed spec fn deep_view(&self) -> u64 {
        self.0
    }
}

impl NtpTime {
    pub fn from_secs(secs: u64) -> (time: NtpTime)
        ensures
            time.deep_view() == secs,
    {
        NtpTime(secs)
    }

    pub fn from_mins(mins: u64) -> (time: NtpTime)
        requires
            mins * SECS_PER_MIN <= u64::MAX,
        ensures
            time.deep_view() == mins * SECS_PER_MIN,
    {
        NtpTime(mins * SECS_PER_MIN)
    }

    pub fn from_hours(hours: u64) -> (time: NtpTime)
        requires
            hours * SECS_PER_HOUR <= u64::MAX,
        ensures
            time.deep_view() == hours * SECS_PER_HOUR,
    {
        NtpTime(hours * SECS_PER_HOUR)
    }

    pub fn from_days(days: u64) -> (time: NtpTime)
        requires
            days * SECS_PER_DAY <= u64::MAX,
        ensures
            time.deep_view() == days * SECS_PER_DAY,
    {
        NtpTime(days * SECS_PER_DAY)
    }

    pub fn to_secs(&self) -> (secs: u64)
        ensures
            secs == self.deep_view(),
    {
        self.0
    }
}

impl Parse for NtpTime {
    /// A number of seconds that fits in `u64`.
    open spec fn parsed(text: Seq<char>, from: int) -> Option<(u64, int)> {
        match parsed_seconds(text, from, u64::MAX as nat) {
            Some((seconds, end)) => Some((seconds as u64, end)),
            None => None,
        }
    }

    fn parse_at(input: &str, len: usize, from: usize) -> (read: Option<(NtpTime, usize)>) {
        match take_seconds(input, len, from, u64::MAX) {
            Some((seconds, end)) => Some((NtpTime(seconds), end)),
            None => None,
        }
    }
}

} // verus!
