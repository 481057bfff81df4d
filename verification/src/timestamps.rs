//! Points in time, as they are stored and as they are shown.

use crate::text::{self, parse_number};
use vstd::prelude::*;
use vstd::string::*;

verus! {

/// A point in time: whole seconds since the start of 1970 in UTC, and the
/// nanoseconds since the last whole second.
#[derive(Debug, Clone, Copy, PartialEq, Eq, Structural)]
pub struct Instant {
    pub seconds: i64,
    pub subsecond: u32,
}

/// How a point in time is shown: the month, the day, the hour and the minute.
pub open spec fn label_pattern() -> Seq<char> {
    "%b %d · %H:%M UTC"@
}

/// The seconds and nanoseconds of a point in time in RFC 3339 notation.
pub uninterp spec fn rfc3339_parts(text: Seq<char>) -> Option<(i64, u32)>;

/// The text of a point in time in UTC by a pattern of chrono.
pub uninterp spec fn utc_text_of(seconds: i64, subsecond: u32, pattern: Seq<char>) -> Option<
    Seq<char>,
>;

/// The point in time that a text in RFC 3339 notation means.
pub open spec fn rfc3339_instant(text: Seq<char>) -> Option<Instant> {
    match rfc3339_parts(text) {
        Some((seconds, subsecond)) => Some(Instant { seconds, subsecond }),
        None => None,
    }
}

/// `chrono::DateTime::parse_from_rfc3339`, with `timestamp` and
/// `timestamp_subsec_nanos` of its result: what a text in RFC 3339 notation
/// means, and nothing for any other text. The result is named and not
/// described, but for this: chrono can show every time that it can read.
#[verifier::external_body]
fn parse_rfc3339(value: &str) -> (parts: Option<(i64, u32)>)
    ensures
        parts == rfc3339_parts(value@),
        match parts {
            Some((seconds, subsecond)) => utc_text_of(
                seconds,
                subsecond,
                label_pattern(),
            ) is Some,
            None => true,
        },
{
    chrono::DateTime::parse_from_rfc3339(value).map(
        |time| (time.timestamp(), time.timestamp_subsec_nanos()),
    ).ok()
}

/// `chrono::DateTime::<chrono::Utc>::from_timestamp`, and `format` of its
/// result: the text of a point in time, where chrono can represent it. The
/// text is named and not described; every time that 64 bits of nanoseconds
/// can tell has one.
#[verifier::external_body]
fn format_utc(seconds: i64, subsecond: u32, pattern: &str) -> (shown: Option<String>)
    requires
        pattern@ == label_pattern(),
    ensures
        match shown {
            Some(shown) => utc_text_of(seconds, subsecond, pattern@) == Some(shown@),
            None => utc_text_of(seconds, subsecond, pattern@) is None,
        },
        0 <= seconds <= 18_446_744_073 && subsecond < 1_000_000_000 ==> shown is Some,
{
    chrono::DateTime::<chrono::Utc>::from_timestamp(seconds, subsecond).map(
        |time| time.format(pattern).to_string(),
    )
}

/// The point in time so many nanoseconds after the start of 1970.
pub open spec fn from_nanoseconds(nanoseconds: nat) -> Instant {
    Instant {
        seconds: (nanoseconds / 1_000_000_000) as i64,
        subsecond: (nanoseconds % 1_000_000_000) as u32,
    }
}

/// The point in time that a text means, given what it means in RFC 3339
/// notation: else it counts nanoseconds.
pub open spec fn instant_from(value: Seq<char>, rfc3339: Option<Instant>) -> Option<Instant> {
    match rfc3339 {
        Some(instant) => Some(instant),
        None => match text::parsed_number(value) {
            Some(nanoseconds) => Some(from_nanoseconds(nanoseconds)),
            None => None,
        },
    }
}

/// The point in time that a text means, given what it means in RFC 3339
/// notation.
pub fn instant_of(value: &str, rfc3339: Option<Instant>) -> (instant: Option<Instant>)
    ensures
        instant == instant_from(value@, rfc3339),
{
    match rfc3339 {
        Some(instant) => Some(instant),
        None => match parse_number(value) {
            Some(nanoseconds) => Some(
                Instant {
                    seconds: (nanoseconds / 1_000_000_000) as i64,
                    subsecond: (nanoseconds % 1_000_000_000) as u32,
                },
            ),
            None => None,
        },
    }
}

/// What is shown of a text, given the point in time that it means: that time,
/// or else the text itself.
pub open spec fn timestamp_label(value: Seq<char>, instant: Option<Instant>) -> Seq<char> {
    match instant {
        Some(instant) => match utc_text_of(instant.seconds, instant.subsecond, label_pattern()) {
            Some(label) => label,
            None => value,
        },
        None => value,
    }
}

/// What is shown of a time stamp.
pub open spec fn shown_timestamp(value: Seq<char>) -> Seq<char> {
    timestamp_label(value, instant_from(value, rfc3339_instant(value)))
}

/// The text of a point in time, or else the given text.
pub fn label_or(label: Option<String>, value: &str) -> (shown: String)
    ensures
        shown@ == (match label {
            Some(label) => label@,
            None => value@,
        }),
{
    match label {
        Some(label) => label,
        None => value.to_owned(),
    }
}

/// What is shown of a time stamp in RFC 3339 notation or in nanoseconds; any
/// other text is shown as it is.
pub fn display_timestamp(value: &str) -> (shown: String)
    ensures
        shown@ == shown_timestamp(value@),
        text::parsed_number(value@) is Some && rfc3339_instant(value@) is None ==> {
            let instant = from_nanoseconds(text::parsed_number(value@)->0);
            utc_text_of(instant.seconds, instant.subsecond, label_pattern()) == Some(shown@)
        },
{
    let rfc3339 = match parse_rfc3339(value) {
        Some(parts) => Some(Instant { seconds: parts.0, subsecond: parts.1 }),
        None => None,
    };
    match instant_of(value, rfc3339) {
        Some(instant) => {
            let label = format_utc(instant.seconds, instant.subsecond, "%b %d · %H:%M UTC");
            label_or(label, value)
        },
        None => value.to_owned(),
    }
}

/// Without RFC 3339 notation, a number counts nanoseconds and any other text
/// is shown as it is.
pub proof fn other_texts_stay(value: Seq<char>)
    requires
        rfc3339_instant(value) is None,
    ensures
        text::parsed_number(value) is None ==> shown_timestamp(value) == value,
        text::parsed_number(value) is Some ==> shown_timestamp(value) == timestamp_label(
            value,
            Some(from_nanoseconds(text::parsed_number(value)->0)),
        ),
{
}

/// Nanoseconds are told apart into whole seconds and the rest of a second.
pub proof fn nanoseconds_make_up_seconds(nanoseconds: u64)
    ensures
        from_nanoseconds(nanoseconds as nat).seconds * 1_000_000_000 + from_nanoseconds(
            nanoseconds as nat,
        ).subsecond == nanoseconds,
        from_nanoseconds(nanoseconds as nat).subsecond < 1_000_000_000,
{
}

/// A point in time is shown by month, day, hour and minute of universal time;
/// an RFC 3339 text is read as such before it is read as nanoseconds, and a
/// text that cannot be shown stays.
pub proof fn points_in_time_are_shown_in_universal_time(value: Seq<char>, seconds: i64, subsecond: u32)
    ensures
        rfc3339_parts(value) == Some((seconds, subsecond)) ==> shown_timestamp(value) == (
        match utc_text_of(seconds, subsecond, "%b %d · %H:%M UTC"@) {
            Some(label) => label,
            None => value,
        }),
        rfc3339_parts(value) is None && text::parsed_number(value) == Some(
            (seconds * 1_000_000_000 + subsecond) as nat,
        ) && seconds >= 0 && subsecond < 1_000_000_000 ==> shown_timestamp(value) == (
        match utc_text_of(seconds, subsecond, "%b %d · %H:%M UTC"@) {
            Some(label) => label,
            None => value,
        }),
        rfc3339_parts(value) is None && text::parsed_number(value) is None ==> shown_timestamp(
            value,
        ) == value,
{
    if seconds >= 0 && subsecond < 1_000_000_000 {
        let total = (seconds * 1_000_000_000 + subsecond) as nat;
        assert(total / 1_000_000_000 == seconds && total % 1_000_000_000 == subsecond);
    }
}

} // verus!
