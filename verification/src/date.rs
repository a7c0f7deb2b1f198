//! Points in time as git writes them, and the reading of dates from text.
use std::time::SystemTime;
use vstd::prelude::*;

verus! {

/// The sign of a time zone offset, which tells `-0000` from `+0000`.
#[derive(Debug, Clone, Copy, PartialEq, Eq)]
pub enum Sign {
    /// At or ahead of UTC.
    Plus,
    /// Behind UTC.
    Minus,
}

/// A point in time together with the time zone it was written in.
#[derive(Debug, Clone, Copy, PartialEq, Eq)]
pub struct Time {
    /// Seconds since the start of 1970 in UTC.
    pub seconds_since_unix_epoch: u32,
    /// The offset of the time zone from UTC in seconds.
    pub offset_in_seconds: i32,
    /// The sign of the offset.
    pub sign: Sign,
}

/// Why text could not be read as a date.
#[derive(Debug, Clone, Copy, PartialEq, Eq)]
pub enum DateError {
    /// The date lies before 1970.
    TooEarly {
        /// The seconds since the start of 1970, which are negative.
        timestamp: i64,
    },
    /// A span of time could not be taken off the current time.
    RelativeTimeConversion,
    /// The text is in none of the known formats.
    InvalidDateString,
    /// The date is out of the range that can be represented.
    InvalidDate,
    /// The text names a time relative to now, and the current time was not
    /// given.
    MissingCurrentTime,
}

/// A point on the system clock.
#[verifier::external_type_specification]
#[verifier::external_body]
pub struct ExSystemTime(SystemTime);

/// What reading `input` as a date gives when the current time is not known.
pub uninterp spec fn parsed_without_clock(input: Seq<char>) -> Result<Time, DateError>;

/// `git_date::parse`: reads `input` as a date in one of the formats git knows.
///
/// Only for text that names a time relative to now does the outcome depend on
/// `now`, and such text is what gives `MissingCurrentTime` without it. With
/// `now` given that error does not occur.
#[verifier::external_body]
pub(crate) fn parse(input: &str, now: Option<SystemTime>) -> (parsed: Result<Time, DateError>)
    ensures
        now is None ==> parsed == parsed_without_clock(input@),
        !(parsed_without_clock(input@) matches Err(DateError::MissingCurrentTime)) ==> parsed
            == parsed_without_clock(input@),
        now is Some ==> !(parsed matches Err(DateError::MissingCurrentTime)),
{
    match git_date::parse(input, now) {
        Ok(time) => Ok(Time {
            seconds_since_unix_epoch: time.seconds_since_unix_epoch,
            offset_in_seconds: time.offset_in_seconds,
            sign: match time.sign { git_date::time::Sign::Plus => Sign::Plus, git_date::time::Sign::Minus => Sign::Minus },
        }),
        Err(git_date::parse::Error::TooEarly { timestamp }) => Err(DateError::TooEarly { timestamp }),
        Err(git_date::parse::Error::RelativeTimeConversion) => Err(DateError::RelativeTimeConversion),
        Err(git_date::parse::Error::InvalidDateString { .. }) => Err(DateError::InvalidDateString),
        Err(git_date::parse::Error::InvalidDate(_)) => Err(DateError::InvalidDate),
        Err(git_date::parse::Error::MissingCurrentTime) => Err(DateError::MissingCurrentTime),
    }
}

/// Whether reading `input` as a date may end with `parsed`, where `clock`
/// says whether the current time is at hand.
///
/// Text that reads as a date without the current time, or as none at all,
/// always ends the same. Text that names a time relative to now ends with
/// `MissingCurrentTime` without a clock, and with anything but that with one.
pub open spec fn may_parse_to(input: Seq<char>, clock: bool, parsed: Result<Time, DateError>) -> bool {
    let fixed = parsed_without_clock(input);
    if fixed matches Err(DateError::MissingCurrentTime) {
        if clock {
            !(parsed matches Err(DateError::MissingCurrentTime))
        } else {
            parsed == fixed
        }
    } else {
        parsed == fixed
    }
}

/// Whether reading `input` as a date may succeed when the current time is at
/// hand.
pub open spec fn may_succeed(input: Seq<char>) -> bool {
    ||| parsed_without_clock(input) is Ok
    ||| parsed_without_clock(input) matches Err(DateError::MissingCurrentTime)
}

/// `std::time::SystemTime::now`: the current time of the system clock.
#[verifier::external_body]
pub(crate) fn now() -> SystemTime {
    SystemTime::now()
}

} // verus!
