//! Instants as seconds since the Unix epoch, the calendar of the `chrono`
//! crate behind contracts, and the rules that pick a record's sort time.

use vstd::prelude::*;
use vstd::string::StringSliceAdditionalSpecFns;
use crate::text::{chars_of, signed_decimal, signed_decimal_string};

verus! {

/// The calendar year in which `chrono` places an instant, in UTC; `None`
/// outside the range of dates that it can hold.
pub uninterp spec fn year_at(secs: int) -> Option<int>;

/// The instant that `NaiveDateTime::parse_from_str` reads from a text under
/// a format, taken as UTC; `None` where it refuses the text.
pub uninterp spec fn parsed_instant(text: Seq<char>, format: Seq<char>) -> Option<int>;

/// The text that `NaiveDateTime::format` writes for an instant under a
/// format; `None` outside the range of dates that `chrono` can hold.
pub uninterp spec fn formatted_instant(secs: int, format: Seq<char>) -> Option<Seq<char>>;

/// The text that `DateTime::to_rfc3339` writes for an instant in UTC; `None`
/// outside the range of dates that `chrono` can hold.
pub uninterp spec fn rfc3339_text(secs: int) -> Option<Seq<char>>;

/// `Utc::now` as whole seconds since the epoch. Nothing is promised of a
/// clock.
#[verifier::external_body]
pub(crate) fn now_secs() -> (r: i64) {
    chrono::Utc::now().timestamp()
}

/// `DateTime::from_timestamp`, then `Datelike::year`: the year named by
/// [`year_at`].
#[verifier::external_body]
pub(crate) fn year_of(secs: i64) -> (r: Option<i32>)
    ensures
        r is Some == year_at(secs as int) is Some,
        r matches Some(y) ==> year_at(secs as int) == Some(y as int),
{
    chrono::DateTime::from_timestamp(secs, 0).map(|t| chrono::Datelike::year(&t))
}

/// `NaiveDateTime::parse_from_str`; the result, read as UTC, is handed out
/// as seconds since the epoch and is the one named by [`parsed_instant`].
#[verifier::external_body]
pub(crate) fn parse_instant(text: &str, format: &str) -> (r: Option<i64>)
    ensures
        r is Some == parsed_instant(text@, format@) is Some,
        r matches Some(t) ==> parsed_instant(text@, format@) == Some(t as int),
{
    chrono::NaiveDateTime::parse_from_str(text, format).ok().map(|t| t.and_utc().timestamp())
}

/// The formats that the library writes instants in.
pub open spec fn is_known_format(format: Seq<char>) -> bool {
    format == "%Y-%m-%d %H:%M:%S"@ || format == "%Y-%m-%dT%H:%M:%S"@ || format == "%Y-%m-%d"@
}

/// `DateTime::from_timestamp`, then `NaiveDateTime::format` and
/// `to_string`: the text named by [`formatted_instant`]. The format is one
/// of the library's own, which `chrono` accepts.
#[verifier::external_body]
pub(crate) fn format_instant(secs: i64, format: &str) -> (r: Option<String>)
    requires
        is_known_format(format@),
    ensures
        r is Some == formatted_instant(secs as int, format@) is Some,
        r matches Some(t) ==> formatted_instant(secs as int, format@) == Some(t@),
{
    chrono::DateTime::from_timestamp(secs, 0).map(|t| t.naive_utc().format(format).to_string())
}

/// `DateTime::from_timestamp`, then `DateTime::to_rfc3339`: the text named
/// by [`rfc3339_text`].
#[verifier::external_body]
pub(crate) fn format_rfc3339(secs: i64) -> (r: Option<String>)
    ensures
        r is Some == rfc3339_text(secs as int) is Some,
        r matches Some(t) ==> rfc3339_text(secs as int) == Some(t@),
{
    chrono::DateTime::from_timestamp(secs, 0).map(|t| t.to_rfc3339())
}

/// Time validation errors.
#[derive(Debug, Clone, Copy, PartialEq, Eq, Structural)]
pub enum TimeValidationError {
    /// The year lies outside 1900 to the current year plus one.
    InvalidYear(i32),
    /// The instant, in seconds since the epoch, lies in the future.
    FutureTimestamp(i64),
}

/// The first year that an EXIF timestamp may carry.
pub const MIN_EXIF_YEAR: i32 = 1900;

/// Whether an EXIF timestamp is believable at `now`: its year lies between
/// 1900 and the year after the current one.
pub open spec fn valid_exif_at(time: i64, now: i64) -> bool {
    match (year_at(time as int), year_at(now as int)) {
        (Some(y), Some(current)) => MIN_EXIF_YEAR <= y <= current + 1,
        _ => false,
    }
}

/// Whether a creation time is believable at `now`: it does not lie in the
/// future.
pub open spec fn valid_create_at(time: i64, now: i64) -> bool {
    time <= now
}

/// The effective sort time of a record at `now`: the EXIF timestamp where it
/// is valid, else the creation time where it is valid, else the
/// modification time.
pub open spec fn effective_sort_time_at(
    exif_timestamp: Option<i64>,
    create_time: Option<i64>,
    modify_time: Option<i64>,
    now: i64,
) -> Option<i64> {
    if exif_timestamp is Some && valid_exif_at(exif_timestamp.unwrap(), now) {
        exif_timestamp
    } else if create_time is Some && valid_create_at(create_time.unwrap(), now) {
        create_time
    } else {
        modify_time
    }
}

/// A date filter is ten bytes long with a dash as fifth and as eighth
/// character.
pub open spec fn is_date_filter(s: Seq<char>) -> bool {
    vstd::utf8::encode_utf8(s).len() == 10 && s.len() > 7 && s[4] == '-' && s[7] == '-'
}

/// Time utilities for sorting and validation.
pub struct TimeUtils;

impl TimeUtils {
    /// Whether an EXIF timestamp is valid, judged at the instant `now`.
    pub fn is_valid_exif_timestamp_at(time: i64, now: i64) -> (r: bool)
        ensures
            r == valid_exif_at(time, now),
    {
        match (year_of(time), year_of(now)) {
            (Some(y), Some(current)) => MIN_EXIF_YEAR <= y && y as i64 <= current as i64 + 1,
            _ => false,
        }
    }

    /// Validate EXIF timestamp: must be between 1900 and current year + 1.
    /// The clock is read once; the answer is the one that
    /// [`TimeUtils::is_valid_exif_timestamp_at`] gives at that reading.
    pub fn is_valid_exif_timestamp(time: i64) -> (r: bool)
        ensures
            exists|now: i64| r == valid_exif_at(time, now),
    {
        let now = now_secs();
        Self::is_valid_exif_timestamp_at(time, now)
    }

    /// Whether a creation time is valid, judged at the instant `now`.
    pub fn is_valid_create_time_at(time: i64, now: i64) -> (r: bool)
        ensures
            r == valid_create_at(time, now),
    {
        time <= now
    }

    /// Validate create time: cannot be in the future. The clock is read
    /// once.
    pub fn is_valid_create_time(time: i64) -> (r: bool)
        ensures
            exists|now: i64| r == valid_create_at(time, now),
    {
        let now = now_secs();
        Self::is_valid_create_time_at(time, now)
    }

    /// The effective sort time judged at the instant `now`.
    pub fn get_effective_sort_time_at(
        exif_timestamp: Option<i64>,
        create_time: Option<i64>,
        modify_time: Option<i64>,
        now: i64,
    ) -> (r: Option<i64>)
        ensures
            r == effective_sort_time_at(exif_timestamp, create_time, modify_time, now),
    {
        if let Some(ts) = exif_timestamp {
            if Self::is_valid_exif_timestamp_at(ts, now) {
                return Some(ts);
            }
        }
        if let Some(ct) = create_time {
            if Self::is_valid_create_time_at(ct, now) {
                return Some(ct);
            }
        }
        modify_time
    }

    /// Get effective sort time for a media file. Priority: EXIF timestamp,
    /// then create time, then modify time. The clock is read once.
    pub fn get_effective_sort_time(
        exif_timestamp: Option<i64>,
        create_time: Option<i64>,
        modify_time: Option<i64>,
    ) -> (r: Option<i64>)
        ensures
            exists|now: i64|
                r == effective_sort_time_at(exif_timestamp, create_time, modify_time, now),
            r is Some ==> r == exif_timestamp || r == create_time || r == modify_time,
            exif_timestamp is None && create_time is None ==> r == modify_time,
    {
        let now = now_secs();
        Self::get_effective_sort_time_at(exif_timestamp, create_time, modify_time, now)
    }

    /// Parse EXIF date string (format: "YYYY:MM:DD HH:MM:SS").
    pub fn parse_exif_datetime(s: &str) -> (r: Option<i64>)
        ensures
            r is Some == parsed_instant(s@, "%Y:%m:%d %H:%M:%S"@) is Some,
            r matches Some(t) ==> parsed_instant(s@, "%Y:%m:%d %H:%M:%S"@) == Some(t as int),
    {
        parse_instant(s, "%Y:%m:%d %H:%M:%S")
    }

    /// Format timestamp for display: `2024-06-15 12:30:45`.
    pub fn format_for_display(time: i64) -> (r: Option<String>)
        ensures
            r is Some == formatted_instant(time as int, "%Y-%m-%d %H:%M:%S"@) is Some,
            r matches Some(t) ==> formatted_instant(time as int, "%Y-%m-%d %H:%M:%S"@) == Some(
                t@,
            ),
    {
        format_instant(time, "%Y-%m-%d %H:%M:%S")
    }

    /// Format timestamp for API response (ISO 8601): `2024-06-15T12:30:45`.
    pub fn format_iso8601(time: i64) -> (r: Option<String>)
        ensures
            r is Some == formatted_instant(time as int, "%Y-%m-%dT%H:%M:%S"@) is Some,
            r matches Some(t) ==> formatted_instant(time as int, "%Y-%m-%dT%H:%M:%S"@) == Some(
                t@,
            ),
    {
        format_instant(time, "%Y-%m-%dT%H:%M:%S")
    }

    /// Format just the date for calendar grouping: `2024-06-15`.
    pub fn format_date_only(time: i64) -> (r: Option<String>)
        ensures
            r is Some == formatted_instant(time as int, "%Y-%m-%d"@) is Some,
            r matches Some(t) ==> formatted_instant(time as int, "%Y-%m-%d"@) == Some(t@),
    {
        format_instant(time, "%Y-%m-%d")
    }

    /// Parse date filter string (YYYY-MM-DD): the pattern that matches every
    /// text starting with the date, `None` for a text of another shape.
    pub fn parse_date_filter(s: &str) -> (r: Option<String>)
        ensures
            r is Some == is_date_filter(s@),
            r matches Some(p) ==> p@ == s@.push('%'),
    {
        if s.as_bytes().len() != 10 {
            return None;
        }
        let v = chars_of(s);
        if v.len() > 7 && v[4] == '-' && v[7] == '-' {
            let mut out = String::from_str(s);
            out.append("%");
            proof {
                reveal_strlit("%");
                assert("%"@ == seq!['%']);
                assert(s@ + seq!['%'] == s@.push('%'));
            }
            Some(out)
        } else {
            None
        }
    }
}

impl TimeValidationError {
    /// The error as a line of text. A future timestamp is shown as seconds
    /// since the epoch.
    pub open spec fn text(&self) -> Seq<char> {
        match *self {
            TimeValidationError::InvalidYear(y) => "Year out of valid range (1900-current year+1): "@
                + signed_decimal(y as int),
            TimeValidationError::FutureTimestamp(t) => "Future timestamp not allowed: "@
                + signed_decimal(t as int),
        }
    }

    /// The error as a line of text.
    pub fn message(&self) -> (r: String)
        ensures
            r@ == self.text(),
    {
        match *self {
            TimeValidationError::InvalidYear(y) => String::from_str(
                "Year out of valid range (1900-current year+1): ",
            ).concat(signed_decimal_string(y as i64).as_str()),
            TimeValidationError::FutureTimestamp(t) => String::from_str(
                "Future timestamp not allowed: ",
            ).concat(signed_decimal_string(t).as_str()),
        }
    }
}

/// A record with an EXIF timestamp that is valid at `now` is sorted by it,
/// whatever its other times are.
pub proof fn lemma_valid_exif_is_sort_time(
    exif_timestamp: i64,
    create_time: Option<i64>,
    modify_time: Option<i64>,
    now: i64,
)
    requires
        valid_exif_at(exif_timestamp, now),
    ensures
        effective_sort_time_at(Some(exif_timestamp), create_time, modify_time, now) == Some(
            exif_timestamp,
        ),
{
}

} // verus!
