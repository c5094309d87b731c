//! The clock and the calendar, both had from `chrono`.
//!
//! What the clock shows differs from call to call, so nothing is claimed of
//! it. The text of a date is a function of the instant, held as Unix time in
//! whole seconds, and is given a name.

use vstd::prelude::*;

verus! {

/// The UTC calendar date `days` days after the instant `seconds`, written
/// `YYYY-MM-DD`; `None` where `chrono` cannot represent the instant or the day.
pub uninterp spec fn date_text(seconds: i64, days: i64) -> Option<Seq<char>>;

/// What the clock showed when it was read.
#[derive(Debug)]
pub struct ClockReading {
    /// The instant as Unix time in whole seconds.
    pub seconds: i64,
    /// The instant written in RFC 3339.
    pub timestamp: String,
}

/// Reads the clock with `chrono::Utc::now` and hands the instant out in two
/// forms: as Unix time in seconds (`DateTime::timestamp`) and written in
/// RFC 3339 (`DateTime::to_rfc3339`). Nothing is claimed of the result.
#[verifier::external_body]
pub(crate) fn read_clock() -> ClockReading {
    let now = chrono::Utc::now();
    ClockReading { seconds: now.timestamp(), timestamp: now.to_rfc3339() }
}

/// Adds `days` days to the instant `seconds` with
/// `DateTime::checked_add_signed` and writes the date with `DateTime::format`
/// and the pattern `%Y-%m-%d`. The contract only gives the result its name: it
/// is a function of the two numbers alone, and `None` where `chrono` reports
/// that the instant, the span or the sum is out of its range.
#[verifier::external_body]
pub(crate) fn date_after(seconds: i64, days: i64) -> (r: Option<String>)
    ensures
        r.deep_view() == date_text(seconds, days),
{
    let start = chrono::DateTime::from_timestamp(seconds, 0)?;
    let span = chrono::TimeDelta::try_days(days)?;
    let day = start.checked_add_signed(span)?;
    Some(day.format("%Y-%m-%d").to_string())
}

} // verus!
