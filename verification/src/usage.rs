//! How the dates of a usage report are shown.
use chrono::TimeZone;
use vstd::prelude::*;

use crate::number;
use crate::number::parse_i64;
use crate::text;
use crate::text::{chars_of, trimmed};

verus! {

/// The pattern that moments are shown in: date, then time of day.
pub const CLOCK_PATTERN: &'static str = "%Y-%m-%d %H:%M:%S";

/// The first and the last second that the calendar reaches, counted from the
/// start of 1970.
pub const FIRST_SECOND: i64 = -8334601228800;

pub const LAST_SECOND: i64 = 8210266876799;

/// A moment in a report, counted from the start of 1970.
#[derive(Debug, Clone, Copy, PartialEq, Eq, Structural)]
pub enum Moment {
    Seconds(i64),
    Millis(i64),
}

impl Moment {
    /// The second that the moment falls in.
    pub open spec fn second(self) -> int {
        match self {
            Moment::Seconds(n) => n as int,
            Moment::Millis(n) => n as int / 1000,
        }
    }
}

/// Whether the calendar reaches the second.
pub open spec fn in_calendar(second: int) -> bool {
    FIRST_SECOND <= second <= LAST_SECOND
}

/// Whether `offset` can be that of a time zone: less than a day.
pub open spec fn is_offset(offset: int) -> bool {
    -86400 < offset < 86400
}

/// The second `second` as clocks show it that are `offset` seconds ahead: what
/// `DateTime::format` of the crate `chrono` makes of it, in the pattern above.
pub uninterp spec fn clock_text(second: int, offset: int) -> Seq<char>;

/// The moment that `value` writes down by RFC 3339, as clocks show it that are
/// `offset` seconds ahead, where it does write one down: what
/// `DateTime::parse_from_rfc3339` of the crate `chrono` makes of it, and
/// `DateTime::format` of that, in the pattern above.
pub uninterp spec fn rfc3339_text(value: Seq<char>, offset: int) -> Option<Seq<char>>;

/// Whether `shown` is the second, as it is shown in some time zone.
pub open spec fn shows_second(shown: Seq<char>, second: int) -> bool {
    exists|offset: int| is_offset(offset) && shown == #[trigger] clock_text(second, offset)
}

/// Whether `value` writes down a moment by RFC 3339.
pub open spec fn is_rfc3339(value: Seq<char>) -> bool {
    exists|offset: int| is_offset(offset) && #[trigger] rfc3339_text(value, offset) is Some
}

/// Whether `shown` is the moment that `value` writes down, as it is shown in
/// some time zone.
pub open spec fn shows_rfc3339(shown: Seq<char>, value: Seq<char>) -> bool {
    exists|offset: int|
        is_offset(offset) && #[trigger] rfc3339_text(value, offset) == Some(shown)
}

/// `Local.timestamp_opt` of the crate `chrono`, and `DateTime::format` of the
/// result. Claims that there is one just where the calendar reaches the second,
/// and that it is that second in some time zone: which, depends on the machine.
#[verifier::external_body]
fn local_second(seconds: i64, pattern: &str) -> (shown: Option<String>)
    requires
        pattern@ == CLOCK_PATTERN@,
    ensures
        match shown {
            Some(found) => in_calendar(seconds as int) && exists|offset: int|
                is_offset(offset) && found@ == #[trigger] clock_text(seconds as int, offset),
            None => !in_calendar(seconds as int),
        },
{
    let local = chrono::Local.timestamp_opt(seconds, 0).single();
    local.map(|moment| moment.format(pattern).to_string())
}

/// `Local.timestamp_millis_opt` of the crate `chrono`, and `DateTime::format` of
/// the result. Claims that there is one just where the calendar reaches the
/// second that the millisecond falls in, and that it is that second in some time
/// zone: which, depends on the machine.
#[verifier::external_body]
fn local_milli(millis: i64, pattern: &str) -> (shown: Option<String>)
    requires
        pattern@ == CLOCK_PATTERN@,
    ensures
        match shown {
            Some(found) => in_calendar(millis as int / 1000) && exists|offset: int|
                is_offset(offset) && found@ == #[trigger] clock_text(millis as int / 1000, offset),
            None => !in_calendar(millis as int / 1000),
        },
{
    let local = chrono::Local.timestamp_millis_opt(millis).single();
    local.map(|moment| moment.format(pattern).to_string())
}

/// `DateTime::parse_from_rfc3339` of the crate `chrono`, with `with_timezone` to
/// the local time zone and `DateTime::format` of the result. Claims that there
/// is a result just where the text is a moment by RFC 3339, and that it is that
/// moment in some time zone: which, depends on the machine.
#[verifier::external_body]
fn local_rfc3339(value: &str, pattern: &str) -> (shown: Option<String>)
    requires
        pattern@ == CLOCK_PATTERN@,
    ensures
        match shown {
            Some(found) => exists|offset: int|
                is_offset(offset) && #[trigger] rfc3339_text(value@, offset) == Some(found@),
            None => forall|offset: int| #[trigger] rfc3339_text(value@, offset) is None,
        },
{
    let parsed = chrono::DateTime::parse_from_rfc3339(value).ok();
    parsed.map(|moment| moment.with_timezone(&chrono::Local).format(pattern).to_string())
}

/// The moment that a number stands for: long and large numbers count
/// milliseconds, others seconds.
pub open spec fn moment_of(value: Seq<char>) -> Option<Moment> {
    match number::i64_value(value) {
        Some(n) => Some(
            if value.len() > 10 || n > 10_000_000_000 || n < -10_000_000_000 {
                Moment::Millis(n)
            } else {
                Moment::Seconds(n)
            },
        ),
        None => None,
    }
}

/// The moment that `value` stands for, where it is a number.
pub fn usage_moment(value: &str) -> (moment: Option<Moment>)
    ensures
        moment == moment_of(value@),
{
    let length = chars_of(value).len();
    match parse_i64(value) {
        Some(n) => Some(
            if length > 10 || n > 10_000_000_000 || n < -10_000_000_000 {
                Moment::Millis(n)
            } else {
                Moment::Seconds(n)
            },
        ),
        None => None,
    }
}

/// What is shown of `value`, given what its reading as a number and its reading
/// by RFC 3339 are shown as.
pub open spec fn date_of(
    value: Seq<char>,
    numeric: Option<Seq<char>>,
    rfc3339: Option<Seq<char>>,
) -> Seq<char> {
    match numeric {
        Some(shown) => shown,
        None => match rfc3339 {
            Some(shown) => shown,
            None => value,
        },
    }
}

/// What is shown of `value`, given what its readings are shown as: the number
/// first, then RFC 3339, else the text itself.
pub fn choose_date(value: String, numeric: Option<String>, rfc3339: Option<String>) -> (shown:
    String)
    ensures
        shown@ == date_of(value@, text::text_option(numeric), text::text_option(rfc3339)),
{
    match numeric {
        Some(found) => found,
        None => match rfc3339 {
            Some(found) => found,
            None => value,
        },
    }
}

/// Whether `shown` is what a date of a report may be shown as: a number that the
/// calendar reaches, or a moment by RFC 3339, in some time zone; other text as it
/// is.
pub open spec fn date_is_shown(value: Seq<char>, shown: Seq<char>) -> bool {
    if moment_of(value) is Some && in_calendar(moment_of(value)->0.second()) {
        shows_second(shown, moment_of(value)->0.second())
    } else if is_rfc3339(value) {
        shows_rfc3339(shown, value)
    } else {
        shown == value
    }
}

/// How a date of a report is shown.
pub fn format_usage_date(value: Option<&str>) -> (shown: String)
    ensures
        match value {
            Some(date) if !text::is_blank(date@) => date_is_shown(text::trim(date@), shown@),
            _ => shown@ == "未返回"@,
        },
{
    let date = match value {
        Some(found) => trimmed(found),
        None => return "未返回".to_owned(),
    };
    if date.as_str().is_empty() {
        return "未返回".to_owned();
    }
    let numeric = match usage_moment(date.as_str()) {
        Some(Moment::Seconds(n)) => local_second(n, CLOCK_PATTERN),
        Some(Moment::Millis(n)) => local_milli(n, CLOCK_PATTERN),
        None => None,
    };
    let rfc3339 = match numeric {
        Some(_) => None,
        None => local_rfc3339(date.as_str(), CLOCK_PATTERN),
    };
    choose_date(date, numeric, rfc3339)
}

} // verus!
