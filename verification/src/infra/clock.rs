//! The system clock and the text form of an instant.

use std::fmt::Write;
use vstd::prelude::*;

verus! {

/// The nanoseconds in a second.
pub const NANOS_PER_SECOND: u32 = 1_000_000_000;

/// The pattern of a timestamp: year, month, day, `T`, hours, minutes,
/// seconds, milliseconds and `Z`, as in `2024-03-01T12:00:00.000Z`.
pub open spec fn time_pattern() -> Seq<char> {
    "%Y-%m-%dT%H:%M:%S%.3fZ"@
}

/// The text that chrono gives for the UTC instant `secs` seconds and
/// `nanos` nanoseconds after the start of 1970 under the pattern
/// `pattern`; `None` where chrono has no such instant or cannot read the
/// pattern.
pub uninterp spec fn utc_timestamp_text(secs: int, nanos: int, pattern: Seq<char>) -> Option<
    Seq<char>,
>;

/// An instant on the system clock.
#[verifier::external_type_specification]
#[verifier::external_body]
pub struct ExSystemTime(std::time::SystemTime);

/// `std::time::SystemTime::now`: the present instant. It depends on the
/// clock, so nothing is claimed of it.
#[verifier::external_body]
fn system_now() -> (r: std::time::SystemTime) {
    std::time::SystemTime::now()
}

/// `std::time::SystemTime::duration_since` the start of 1970: the whole
/// seconds and the nanoseconds between then and `instant`, or `None` when
/// `instant` is earlier. The nanoseconds are the part of a second, and
/// so below one billion; nothing else is claimed of the numbers.
#[verifier::external_body]
fn since_unix_epoch(instant: std::time::SystemTime) -> (r: Option<(u64, u32)>)
    ensures
        r matches Some((_, nanos)) ==> nanos < NANOS_PER_SECOND,
{
    instant.duration_since(std::time::UNIX_EPOCH).ok().map(|d| (d.as_secs(), d.subsec_nanos()))
}

/// The time on the system clock as whole seconds and nanoseconds since the
/// start of 1970, or `None` when the clock reads an earlier time. What
/// the clock reads is not known beforehand; the nanoseconds are the part
/// of a second.
pub fn since_epoch() -> (r: Option<(u64, u32)>)
    ensures
        r matches Some((_, nanos)) ==> nanos < NANOS_PER_SECOND,
{
    since_unix_epoch(system_now())
}

/// `chrono::DateTime::from_timestamp` followed by `DateTime::format` with
/// the given pattern. The text depends on the two numbers and the pattern
/// alone; there is none where chrono has no such instant or finds a fault
/// in the pattern.
#[verifier::external_body]
fn format_utc(secs: i64, nanos: u32, pattern: &str) -> (r: Option<String>)
    ensures
        match r {
            Some(text) => utc_timestamp_text(secs as int, nanos as int, pattern@) == Some(text@),
            None => utc_timestamp_text(secs as int, nanos as int, pattern@) is None,
        },
{
    let instant = chrono::DateTime::from_timestamp(secs, nanos)?;
    let mut text = String::new();
    write!(text, "{}", instant.format(pattern)).ok().map(|_| text)
}

/// The text form of the instant `secs` seconds and `nanos` nanoseconds
/// after the start of 1970: what chrono gives for it under
/// `time_pattern()`, and nothing for an instant beyond chrono's reach.
pub open spec fn spec_timestamp_text(secs: u64, nanos: u32) -> Option<Seq<char>> {
    if secs <= i64::MAX {
        utc_timestamp_text(secs as int, nanos as int, time_pattern())
    } else {
        None
    }
}

/// The text form of the instant given by a reading of the clock, where
/// there is a reading and the instant has a text form.
pub open spec fn reading_text(reading: Option<(u64, u32)>) -> Option<Seq<char>> {
    match reading {
        Some((secs, nanos)) => spec_timestamp_text(secs, nanos),
        None => None,
    }
}

/// The text form of the instant `secs` seconds and `nanos` nanoseconds
/// after the start of 1970, where there is one.
pub fn timestamp_text(secs: u64, nanos: u32) -> (r: Option<String>)
    ensures
        match r {
            Some(text) => spec_timestamp_text(secs, nanos) == Some(text@),
            None => spec_timestamp_text(secs, nanos) is None,
        },
{
    if secs > i64::MAX as u64 {
        return None;
    }
    format_utc(secs as i64, nanos, "%Y-%m-%dT%H:%M:%S%.3fZ")
}

/// The text form of the instant given by a reading of the clock.
pub fn reading_as_text(reading: Option<(u64, u32)>) -> (r: Option<String>)
    ensures
        match r {
            Some(text) => reading_text(reading) == Some(text@),
            None => reading_text(reading) is None,
        },
{
    match reading {
        Some((secs, nanos)) => timestamp_text(secs, nanos),
        None => None,
    }
}

/// Whether `text` is the text form of an instant at or after the start of
/// 1970.
pub open spec fn is_timestamp_text(text: Seq<char>) -> bool {
    exists|secs: u64, nanos: u32|
        nanos < NANOS_PER_SECOND && #[trigger] spec_timestamp_text(secs, nanos) == Some(text)
}

/// The text form of the present instant, or `None` when the clock cannot
/// be read or chrono has no such instant. Which instant that is is not
/// known beforehand; the text is the text form of an instant.
pub fn current_time_text() -> (r: Option<String>)
    ensures
        r matches Some(text) ==> is_timestamp_text(text@),
{
    reading_as_text(since_epoch())
}

} // verus!
