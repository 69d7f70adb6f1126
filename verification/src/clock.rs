//! The wall clock, as chrono reads it.

use vstd::prelude::*;

verus! {

/// Calls `chrono::Utc::now` and `DateTime::timestamp_millis`: the
/// milliseconds since the Unix epoch at the moment of the call. Nothing is
/// claimed of the value: it is whatever the system clock says, and chrono
/// panics where that clock stands before 1970.
#[verifier::external_body]
pub(crate) fn now_millis() -> (now: i64) {
    chrono::Utc::now().timestamp_millis()
}

/// Calls `chrono::Utc::now` and `DateTime::timestamp`: the seconds since the
/// Unix epoch at the moment of the call. Nothing is claimed of the value.
#[verifier::external_body]
pub(crate) fn now_seconds() -> (now: i64) {
    chrono::Utc::now().timestamp()
}

/// chrono has a moment for the timestamp: it lies between the first
/// second of the year -262143 and the last second of the year 262142.
pub open spec fn has_moment(timestamp: i64) -> bool {
    -8_334_601_228_800 <= timestamp <= 8_210_266_876_799
}

/// One of the ten digits.
pub open spec fn is_digit(c: char) -> bool {
    0x30 <= c as u32 <= 0x39
}

/// A moment as month, day, hour and minute: two digits each, with a hyphen,
/// a space and a colon between them.
pub open spec fn is_moment_text(text: Seq<char>) -> bool {
    &&& text.len() == 11
    &&& is_digit(text[0]) && is_digit(text[1])
    &&& text[2] == '-'
    &&& is_digit(text[3]) && is_digit(text[4])
    &&& text[5] == ' '
    &&& is_digit(text[6]) && is_digit(text[7])
    &&& text[8] == ':'
    &&& is_digit(text[9]) && is_digit(text[10])
}

/// Calls `chrono::TimeZone::timestamp_opt` on `chrono::Local`, takes the
/// single moment it names, and formats it with `DateTime::format` as month,
/// day, hour and minute. chrono has a moment exactly for the timestamps
/// whose day lies in the range of its dates, and writes each of the four
/// numbers with two digits. Which digits depends on the machine's time zone,
/// so nothing is claimed of them. chrono panics where the zone's data names
/// an offset of a day or more.
#[verifier::external_body]
pub(crate) fn local_time_text(timestamp: i64) -> (text: Option<String>)
    ensures
        text is Some <==> has_moment(timestamp),
        text is Some ==> is_moment_text(text->Some_0@),
{
    match chrono::TimeZone::timestamp_opt(&chrono::Local, timestamp, 0).single() {
        Some(moment) => Some(moment.format("%m-%d %H:%M").to_string()),
        None => None,
    }
}

} // verus!
