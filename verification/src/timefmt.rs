//! Calendar texts of points in time, as the `chrono` crate writes them.

use vstd::prelude::*;
use crate::recorder::UtcTime;
use crate::text::zero_padded_text;

verus! {

/// Whether `y` is a leap year of the (proleptic) Gregorian calendar.
pub open spec fn is_leap_year(y: int) -> bool {
    (y % 4 == 0 && y % 100 != 0) || y % 400 == 0
}

/// Number of days of month `m` (1 to 12) of year `y`.
pub open spec fn days_in_month(y: int, m: int) -> int {
    if m == 2 {
        if is_leap_year(y) {
            29
        } else {
            28
        }
    } else if m == 4 || m == 6 || m == 9 || m == 11 {
        30
    } else {
        31
    }
}

/// Number of leap years from year 1 up to year `y`, counted from year 0
/// when `y` is negative (`y / 4` rounds down).
pub open spec fn leap_years_through(y: int) -> int {
    y / 4 - y / 100 + y / 400
}

/// Days from 1 January 1970 to 1 January of year `y` (negative before 1970).
pub open spec fn days_before_year(y: int) -> int {
    365 * (y - 1970) + leap_years_through(y - 1) - leap_years_through(1969)
}

/// Days from 1 January of year `y` to the first day of month `m`.
pub open spec fn days_before_month(y: int, m: int) -> int
    decreases m,
{
    if m <= 1 {
        0
    } else {
        days_before_month(y, m - 1) + days_in_month(y, m - 1)
    }
}

/// Seconds since 1970-01-01 00:00:00 UTC of the UTC time
/// `y`-`mo`-`d` `h`:`mi`:`s`.
pub open spec fn epoch_seconds(y: int, mo: int, d: int, h: int, mi: int, s: int) -> int {
    (days_before_year(y) + days_before_month(y, mo) + d - 1) * 86400 + h * 3600 + mi * 60 + s
}

/// Whether `y`-`mo`-`d` `h`:`mi`:`s` is a date and time of a year from 0 to
/// 9999 (no leap second).
pub open spec fn is_civil_time(y: int, mo: int, d: int, h: int, mi: int, s: int) -> bool {
    &&& 0 <= y <= 9999
    &&& 1 <= mo <= 12
    &&& 1 <= d <= days_in_month(y, mo)
    &&& 0 <= h < 24
    &&& 0 <= mi < 60
    &&& 0 <= s < 60
}

/// The text `YYYYMMDD_HHMMSS` of a date and time, each field filled with
/// leading zeros.
pub open spec fn civil_stamp_text(y: int, mo: int, d: int, h: int, mi: int, s: int) -> Seq<char> {
    zero_padded_text(y as nat, 4) + zero_padded_text(mo as nat, 2) + zero_padded_text(d as nat, 2)
        + "_"@ + zero_padded_text(h as nat, 2) + zero_padded_text(mi as nat, 2) + zero_padded_text(
        s as nat,
        2,
    )
}

/// RFC 3339 text that `chrono` writes for the UTC time `secs`, `nanos`
/// (`None` when `chrono` cannot represent that time).
pub uninterp spec fn rfc3339_of(secs: i64, nanos: u32) -> Option<Seq<char>>;

/// Text `YYYYMMDD_HHMMSS` that `chrono` writes for the UTC time `secs`,
/// `nanos` (`None` when `chrono` cannot represent that time).
pub uninterp spec fn compact_stamp_of(secs: i64, nanos: u32) -> Option<Seq<char>>;

/// Calls `chrono::DateTime::<Utc>::to_rfc3339` on the time that
/// `DateTime::from_timestamp` makes of `t`. The text is named `rfc3339_of`;
/// what it spells is not stated here.
#[verifier::external_body]
pub(crate) fn rfc3339(t: UtcTime) -> (r: Option<String>)
    ensures
        r.deep_view() == rfc3339_of(t.secs, t.nanos),
{
    chrono::DateTime::from_timestamp(t.secs, t.nanos).map(|d| d.to_rfc3339())
}

/// Calls `chrono::DateTime::<Utc>::format` with `%Y%m%d_%H%M%S` on the time
/// that `DateTime::from_timestamp` makes of `t`. The text is named
/// `compact_stamp_of`. For a time in the years 0 to 9999 (and no leap
/// second) it is the Gregorian date and time of `t.secs` in UTC, each field
/// zero-filled: `chrono` counts days in the proleptic Gregorian calendar,
/// and `%Y` writes such a year with four digits. Other times are not
/// spelled out here.
#[verifier::external_body]
pub(crate) fn compact_stamp(t: UtcTime) -> (r: Option<String>)
    ensures
        r.deep_view() == compact_stamp_of(t.secs, t.nanos),
        forall|y: int, mo: int, d: int, h: int, mi: int, s: int|
            is_civil_time(y, mo, d, h, mi, s) && #[trigger] epoch_seconds(y, mo, d, h, mi, s)
                == t.secs && t.nanos < 1_000_000_000 ==> r.deep_view() == Some(
                civil_stamp_text(y, mo, d, h, mi, s),
            ),
{
    chrono::DateTime::from_timestamp(t.secs, t.nanos).map(|d| d.format("%Y%m%d_%H%M%S").to_string())
}

/// The calendar counts time as the Gregorian calendar does: the epoch is
/// 1970-01-01 00:00:00, a year has 366 days when it is a leap year and 365
/// otherwise, twelve months make up the year, and the day after the last of
/// a month is the first of the next.
pub proof fn law_calendar_counts(y: int, mo: int)
    requires
        1 <= mo <= 12,
    ensures
        epoch_seconds(1970, 1, 1, 0, 0, 0) == 0,
        days_before_year(y + 1) - days_before_year(y) == if is_leap_year(y) {
            366int
        } else {
            365int
        },
        days_before_month(y, 13) == if is_leap_year(y) {
            366int
        } else {
            365int
        },
        mo < 12 ==> epoch_seconds(y, mo + 1, 1, 0, 0, 0) == epoch_seconds(
            y,
            mo,
            days_in_month(y, mo),
            0,
            0,
            0,
        ) + 86400,
        epoch_seconds(y + 1, 1, 1, 0, 0, 0) == epoch_seconds(y, 12, 31, 0, 0, 0) + 86400,
{
    reveal_with_fuel(days_before_month, 13);
    assert(leap_years_through(y) - leap_years_through(y - 1) == if is_leap_year(y) {
        1int
    } else {
        0int
    }) by (nonlinear_arith);
}

} // verus!
