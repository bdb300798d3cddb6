//! The time of day, as the local clock gives it and as a transcript
//! writes it.
use vstd::prelude::*;
use crate::bytes::decimal;

verus! {

/// A time of day.
#[derive(Debug, Clone, Copy, PartialEq, Eq, Structural)]
pub struct Timestamp {
    pub hour: u8,
    pub minute: u8,
    pub second: u8,
}

impl Timestamp {
    /// The hour, the minute and the second are those of a clock; the
    /// second may be a leap second.
    pub open spec fn valid(self) -> bool {
        self.hour < 24 && self.minute < 60 && self.second <= 60
    }
}

/// A number in decimal, with a zero before a single digit.
pub open spec fn two_digits(n: u8) -> Seq<u8> {
    if n < 10 {
        seq![0x30u8] + decimal(n as nat)
    } else {
        decimal(n as nat)
    }
}

/// A time as it stands in a transcript: hour, minute and second, each of
/// two digits, with colons between them.
pub open spec fn clock(at: Timestamp) -> Seq<u8> {
    two_digits(at.hour) + seq![0x3Au8] + two_digits(at.minute) + seq![0x3Au8] + two_digits(
        at.second,
    )
}

/// The time of day on the local clock, from `time::now`.
///
/// The contract claims what the fields of a `Tm` are documented to hold:
/// an hour below 24, a minute below 60, and a second of at most 60.
#[verifier::external_body]
pub(crate) fn local_time() -> (now: Timestamp)
    ensures
        now.valid(),
{
    let tm = time::now();
    Timestamp { hour: tm.tm_hour as u8, minute: tm.tm_min as u8, second: tm.tm_sec as u8 }
}

/// A time of day written by `Tm::strftime` with the format `%H:%M:%S`.
///
/// The contract claims that each of the three fields is written as a
/// decimal number padded with a zero to two digits, which is how the
/// crate formats `%H`, `%M` and `%S`.
#[verifier::external_body]
pub(crate) fn clock_text(at: Timestamp) -> (text: Vec<u8>)
    ensures
        text@ == clock(at),
{
    let mut tm = time::empty_tm();
    tm.tm_hour = at.hour as i32;
    tm.tm_min = at.minute as i32;
    tm.tm_sec = at.second as i32;
    tm.strftime("%H:%M:%S").unwrap().to_string().into_bytes()
}

impl Timestamp {
    /// The time of day on the local clock.
    pub fn now() -> (now: Timestamp)
        ensures
            now.valid(),
    {
        local_time()
    }
}

/// The latest second that `local_date` is asked about: the last one of
/// the year 9999.
pub const LAST_SECOND: i64 = 253_402_300_799;

/// A second of the epoch as a date in local time, written by
/// `time::at` and `Tm::rfc822`.
///
/// What comes back depends on the time zone of the machine, so nothing
/// is claimed of it. Seconds before the epoch and after the year 9999 are
/// left out: the conversion to local time may fail far from the epoch.
#[verifier::external_body]
pub(crate) fn local_date(seconds: i64) -> (text: Vec<u8>)
    requires
        0 <= seconds <= LAST_SECOND,
{
    time::at(time::Timespec::new(seconds, 0)).rfc822().to_string().into_bytes()
}

} // verus!
