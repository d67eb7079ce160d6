//! The current time: reading the system clock, and writing an instant as
//! RFC 3339 text in UTC.
use vstd::prelude::*;
use vstd::string::*;
use crate::bindings::{
    clock_now, is_rfc3339_utc, rfc3339_at, rfc3339_text, since_unix_epoch,
    LAST_FOUR_DIGIT_YEAR_SECOND,
};
use crate::error::Error;

verus! {

pub open spec fn clock_failure_message() -> Seq<char> {
    "The system clock does not read a time that can be written"@
}

/// Whether `t` is the text written for the instant `secs` seconds and
/// `nanos` nanoseconds after the Unix epoch (an RFC 3339 text in UTC, of
/// the shape `is_rfc3339_utc` describes up to the end of the year 9999).
pub open spec fn time_text_of(secs: int, nanos: int, t: Seq<char>) -> bool {
    &&& 0 <= secs <= i64::MAX
    &&& 0 <= nanos < 1_000_000_000
    &&& rfc3339_text(secs as i64, nanos as u32) == Some(t)
    &&& secs <= LAST_FOUR_DIGIT_YEAR_SECOND ==> is_rfc3339_utc(t)
}

/// Whether `t` is the text written for some instant at or after the Unix
/// epoch.
pub open spec fn is_time_text(t: Seq<char>) -> bool {
    exists|secs: int, nanos: int| #[trigger] time_text_of(secs, nanos, t)
}

/// The number of whole milliseconds in `secs` seconds and `nanos`
/// nanoseconds.
pub open spec fn millis(secs: int, nanos: int) -> int {
    secs * 1000 + nanos / 1_000_000
}

/// The text written for the instant `secs` seconds and `nanos` nanoseconds
/// after the Unix epoch, or the clock error where none can be written.
pub fn timestamp_text(secs: u64, nanos: u32) -> (text: Result<String, Error>)
    ensures
        match text {
            Ok(t) => {
                &&& secs <= i64::MAX
                &&& rfc3339_text(secs as i64, nanos) == Some(t@)
                &&& secs <= LAST_FOUR_DIGIT_YEAR_SECOND && nanos < 1_000_000_000
                    ==> is_rfc3339_utc(t@)
            },
            Err(e) => {
                &&& e matches Error::Other(m) && m@ == clock_failure_message()
                &&& secs > i64::MAX || rfc3339_text(secs as i64, nanos) is None
                &&& !(secs <= LAST_FOUR_DIGIT_YEAR_SECOND && nanos < 1_000_000_000)
            },
        },
{
    if secs > i64::MAX as u64 {
        return Err(
            Error::Other(
                String::from_str("The system clock does not read a time that can be written"),
            ),
        );
    }
    match rfc3339_at(secs as i64, nanos) {
        Some(t) => Ok(t),
        None => Err(
            Error::Other(
                String::from_str("The system clock does not read a time that can be written"),
            ),
        ),
    }
}

/// The current instant, as whole seconds and nanoseconds since the Unix
/// epoch, or none where the clock reads a time before it.
pub fn now_since_epoch() -> (now: Option<(u64, u32)>)
    ensures
        now matches Some((_, nanos)) ==> nanos < 1_000_000_000,
{
    since_unix_epoch(&clock_now())
}

/// The current time as RFC 3339 text in UTC, or the clock error where the
/// clock reads a time before the Unix epoch or one that cannot be written.
pub fn current_timestamp() -> (text: Result<String, Error>)
    ensures
        match text {
            Ok(t) => is_time_text(t@),
            Err(e) => e matches Error::Other(m) && m@ == clock_failure_message(),
        },
{
    let (secs, nanos) = match now_since_epoch() {
        Some(instant) => instant,
        None => {
            return Err(
                Error::Other(
                    String::from_str("The system clock does not read a time that can be written"),
                ),
            );
        },
    };
    let text = timestamp_text(secs, nanos);
    if let Ok(t) = &text {
        assert(time_text_of(secs as int, nanos as int, t@));
    }
    text
}

} // verus!
