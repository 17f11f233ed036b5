//! Calls into chrono for the instants the store reads and writes.
use vstd::prelude::*;
use crate::ticket::{TicketError, Timestamp};

verus! {

/// The instant that a note timestamp written `YYYY-MM-DD HH:MM:SS` (UTC) denotes, in
/// milliseconds since the epoch; `None` where the text is not such a timestamp.
pub uninterp spec fn note_time_value(s: Seq<char>) -> Option<i64>;

/// The text `YYYY-MM-DD HH:MM:SS` (UTC) of an instant given in milliseconds;
/// `None` where the instant is outside what chrono represents.
pub uninterp spec fn note_time_text(millis: i64) -> Option<Seq<char>>;

/// Relies on chrono's `NaiveDateTime::parse_from_str` with `%Y-%m-%d %H:%M:%S`,
/// read as UTC: the result depends on the text alone.
#[verifier::external_body]
pub(crate) fn parse_note_time(s: &str) -> (r: Option<i64>)
    ensures
        r == note_time_value(s@),
{
    chrono::NaiveDateTime::parse_from_str(s, "%Y-%m-%d %H:%M:%S").ok().map(
        |t| t.and_utc().timestamp_millis(),
    )
}

/// Relies on chrono's `DateTime::<Utc>::from_timestamp_millis` and `format` with
/// `%Y-%m-%d %H:%M:%S`: the result depends on the instant alone; `None` where chrono
/// cannot represent the instant.
#[verifier::external_body]
pub(crate) fn format_note_time(millis: i64) -> (r: Option<String>)
    ensures
        match r {
            Some(t) => note_time_text(millis) == Some(t@),
            None => note_time_text(millis) is None,
        },
{
    chrono::DateTime::from_timestamp_millis(millis).map(|t| t.format("%Y-%m-%d %H:%M:%S").to_string())
}

/// Relies on std's `SystemTime::now` measured by `duration_since(UNIX_EPOCH)`: the
/// milliseconds since the epoch, whatever the clock says; `None` where the clock
/// reads before the epoch.
#[verifier::external_body]
fn clock_millis() -> (r: Option<u128>) {
    std::time::SystemTime::now().duration_since(std::time::UNIX_EPOCH).ok().map(|d| d.as_millis())
}

/// The instant that a clock reading in milliseconds since the epoch gives: a clock
/// error where there is no reading (the clock reads before the epoch) or it lies
/// beyond what a millisecond count of `i64` holds.
pub fn timestamp_of_reading(reading: Option<u128>) -> (r: Result<Timestamp, TicketError>)
    ensures
        match reading {
            Some(ms) => if ms <= 9223372036854775807u128 {
                r == Ok::<Timestamp, TicketError>(Timestamp { millis: ms as i64 })
            } else {
                r == Err::<Timestamp, TicketError>(TicketError::ClockError)
            },
            None => r == Err::<Timestamp, TicketError>(TicketError::ClockError),
        },
{
    match reading {
        Some(ms) => {
            if ms <= 9223372036854775807u128 {
                Ok(Timestamp { millis: ms as i64 })
            } else {
                Err(TicketError::ClockError)
            }
        },
        None => Err(TicketError::ClockError),
    }
}

/// The current instant, read from the system clock; a clock error only where the
/// clock is unavailable (see `timestamp_of_reading`).
pub fn read_clock() -> (r: Result<Timestamp, TicketError>)
    ensures
        match r {
            Ok(t) => t.millis >= 0,
            Err(e) => e is ClockError,
        },
{
    timestamp_of_reading(clock_millis())
}

} // verus!
