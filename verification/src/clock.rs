//! Calls into `chrono` for reading and writing times. Times are carried in
//! the library as whole seconds since the Unix epoch.
use vstd::prelude::*;

verus! {

/// What `chrono::DateTime::parse_from_str` gives for a text and a format
/// with an offset, as whole seconds since the epoch.
pub uninterp spec fn offset_datetime_secs(raw: Seq<char>, fmt: Seq<char>) -> Option<i64>;

/// What `chrono::DateTime::parse_from_rfc3339` gives, as whole seconds.
pub uninterp spec fn rfc3339_secs(raw: Seq<char>) -> Option<i64>;

/// What `chrono::NaiveDateTime::parse_from_str` gives: the wall-clock
/// reading, counted as seconds as though it were UTC.
pub uninterp spec fn naive_datetime_secs(raw: Seq<char>, fmt: Seq<char>) -> Option<i64>;

/// What `chrono::NaiveDate::parse_from_str` gives: that day's midnight,
/// counted as seconds as though it were UTC.
pub uninterp spec fn naive_date_secs(raw: Seq<char>, fmt: Seq<char>) -> Option<i64>;

/// The formats read with an offset. None holds `%s`: a format that reads
/// a timestamp as well as a leap second can make chrono step back past its
/// earliest instant and panic.
pub open spec fn offset_format(fmt: Seq<char>) -> bool {
    fmt == "%Y-%m-%dT%H:%M:%S%z"@
}

/// The wall-clock formats read; none holds `%s`, for the same reason.
pub open spec fn naive_format(fmt: Seq<char>) -> bool {
    ||| fmt == "%Y-%m-%d %H:%M"@
    ||| fmt == "%Y-%m-%d %H:%M:%S"@
    ||| fmt == "%Y-%m-%dT%H:%M:%S"@
    ||| fmt == "%Y%m%dT%H%M%S"@
}

/// `chrono::DateTime::parse_from_str`: a date and time carrying its own UTC
/// offset. The result is the instant, in seconds; fractions are dropped.
#[verifier::external_body]
pub(crate) fn parse_offset_datetime(raw: &str, fmt: &str) -> (r: Option<i64>)
    requires
        offset_format(fmt@),
    ensures
        r == offset_datetime_secs(raw@, fmt@),
{
    chrono::DateTime::parse_from_str(raw, fmt).ok().map(|dt| dt.timestamp())
}

/// `chrono::DateTime::parse_from_rfc3339`: the instant, in whole seconds.
#[verifier::external_body]
pub(crate) fn parse_rfc3339(raw: &str) -> (r: Option<i64>)
    ensures
        r == rfc3339_secs(raw@),
{
    chrono::DateTime::parse_from_rfc3339(raw).ok().map(|dt| dt.timestamp())
}

/// `chrono::NaiveDateTime::parse_from_str`: a wall-clock reading without a
/// zone, returned as the seconds it would be if it were UTC.
#[verifier::external_body]
pub(crate) fn parse_naive_datetime(raw: &str, fmt: &str) -> (r: Option<i64>)
    requires
        naive_format(fmt@),
    ensures
        r == naive_datetime_secs(raw@, fmt@),
{
    chrono::NaiveDateTime::parse_from_str(raw, fmt).ok().map(|n| n.and_utc().timestamp())
}

/// `chrono::NaiveDate::parse_from_str`: a calendar day, returned as the
/// seconds of its midnight as if it were UTC.
#[verifier::external_body]
pub(crate) fn parse_naive_date(raw: &str, fmt: &str) -> (r: Option<i64>)
    ensures
        r == naive_date_secs(raw@, fmt@),
{
    chrono::NaiveDate::parse_from_str(raw, fmt).ok().map(|d| d.and_time(chrono::NaiveTime::MIN).and_utc().timestamp())
}

/// `chrono::Local.from_local_datetime(..).earliest()`: the instant that a
/// wall-clock reading names in this machine's zone, taking the earlier one
/// when the reading repeats. It depends on the machine's time zone, so
/// nothing is stated of it.
#[verifier::external_body]
pub(crate) fn local_earliest(wall_secs: i64) -> (r: Option<i64>)
{
    let naive = chrono::DateTime::from_timestamp(wall_secs, 0)?.naive_utc();
    chrono::TimeZone::from_local_datetime(&chrono::Local, &naive).earliest().map(|dt| dt.timestamp())
}

/// `chrono::Local.from_local_datetime(..).single()`: the instant a
/// wall-clock reading names in this machine's zone, or `None` when there is
/// not exactly one. It depends on the machine's time zone, so nothing is
/// stated of it.
#[verifier::external_body]
pub(crate) fn local_single(wall_secs: i64) -> (r: Option<i64>)
{
    let naive = chrono::DateTime::from_timestamp(wall_secs, 0)?.naive_utc();
    chrono::TimeZone::from_local_datetime(&chrono::Local, &naive).single().map(|dt| dt.timestamp())
}


/// Whole local calendar days from the day of `secs` to the day of `now`,
/// in this machine's zone (`date_naive` of each, subtracted). It depends
/// on the zone; stated is only that each local date is within a day of the
/// UTC one (chrono's offsets stay under 24 hours), so the count is within
/// two days of the count of UTC days. `None` for an instant chrono cannot
/// represent. Only instants in `in_clock_range` are taken:
/// `date_naive` panics when the local reading falls outside chrono's range.
#[verifier::external_body]
pub(crate) fn local_days_ago(secs: i64, now: i64) -> (r: Option<i64>)
    requires
        in_clock_range(secs),
        in_clock_range(now),
    ensures
        r matches Some(d) ==> utc_day(now) - utc_day(secs) - 2 <= d <= utc_day(now) - utc_day(secs) + 2,
{
    let when = chrono::DateTime::from_timestamp(secs, 0)?.with_timezone(&chrono::Local);
    let today = chrono::DateTime::from_timestamp(now, 0)?.with_timezone(&chrono::Local);
    Some((today.date_naive() - when.date_naive()).num_days())
}

/// The instants the local-calendar calls take: chrono's own range (1
/// January of year -262143 to the last second of year 262142, UTC), less
/// one day at each end, so that reading one in any zone's offset (under a
/// day) stays representable. Outside it chrono panics.
pub const CLOCK_MIN_SECS: i64 = -8_334_601_228_800;

pub const CLOCK_MAX_SECS: i64 = 8_210_266_790_399;

pub open spec fn in_clock_range(secs: i64) -> bool {
    CLOCK_MIN_SECS <= secs <= CLOCK_MAX_SECS
}

/// Whether `secs` is an instant the local-calendar calls accept.
pub fn clock_accepts(secs: i64) -> (r: bool)
    ensures
        r == in_clock_range(secs),
{
    CLOCK_MIN_SECS <= secs && secs <= CLOCK_MAX_SECS
}

/// The seven English weekday names, as chrono's `%A` writes them.
pub open spec fn weekday_names() -> Seq<Seq<char>> {
    seq!["Monday"@, "Tuesday"@, "Wednesday"@, "Thursday"@, "Friday"@, "Saturday"@, "Sunday"@]
}

/// The twelve English month names, as chrono's `%B` writes them.
pub open spec fn month_names() -> Seq<Seq<char>> {
    seq![
        "January"@, "February"@, "March"@, "April"@, "May"@, "June"@, "July"@, "August"@,
        "September"@, "October"@, "November"@, "December"@,
    ]
}

/// The UTC day of an instant, counted in whole days from 1970-01-01.
pub open spec fn utc_day(secs: i64) -> int {
    secs as int / 86400
}

/// The UTC weekday of an instant, Monday 0 to Sunday 6 (1970-01-01 was a
/// Thursday).
pub open spec fn utc_weekday(secs: i64) -> int {
    (utc_day(secs) + 3) % 7
}

/// Weekday `k` (Monday 0) is the UTC weekday of `secs` or one either side:
/// a local reading is never a whole day away from UTC, since chrono's
/// offsets stay under 24 hours either way.
pub open spec fn weekday_near(k: int, secs: i64) -> bool {
    let u = utc_weekday(secs);
    k == u || k == (u + 1) % 7 || k == (u + 6) % 7
}

/// The proleptic Gregorian (month, day of month) of a day counted from
/// 1970-01-01, months 1 to 12 (days to civil date, by 400-year eras).
pub open spec fn civil_month_day(days: int) -> (int, int) {
    let z = days + 719468;
    let era = z / 146097;
    let doe = z - era * 146097;
    let yoe = (doe - doe / 1460 + doe / 36524 - doe / 146096) / 365;
    let doy = doe - (365 * yoe + yoe / 4 - yoe / 100);
    let mp = (5 * doy + 2) / 153;
    let d = doy - (153 * mp + 2) / 5 + 1;
    let m = if mp < 10 { mp + 3 } else { mp - 9 };
    (m, d)
}

/// Day of the month `n` is that of the UTC day of `secs` or of a day
/// either side of it.
pub open spec fn day_of_month_near(n: int, secs: i64) -> bool {
    ||| civil_month_day(utc_day(secs) - 1).1 == n
    ||| civil_month_day(utc_day(secs)).1 == n
    ||| civil_month_day(utc_day(secs) + 1).1 == n
}

/// Month `k` (January 0) is that of the UTC day of `secs` or of a day
/// either side of it.
pub open spec fn month_near(k: int, secs: i64) -> bool {
    ||| civil_month_day(utc_day(secs) - 1).0 == k + 1
    ||| civil_month_day(utc_day(secs)).0 == k + 1
    ||| civil_month_day(utc_day(secs) + 1).0 == k + 1
}

/// The English name of the local weekday of `secs` (`format("%A")`).
/// Which day it is depends on the zone. Stated: it is one of the seven
/// names, and the UTC weekday of `secs` or a neighbour of it, since the
/// local date is the UTC date moved by an offset under a day (chrono's
/// `FixedOffset` keeps offsets strictly between -24 and +24 hours).
#[verifier::external_body]
pub(crate) fn local_weekday_name(secs: i64) -> (r: Option<String>)
    ensures
        r matches Some(n) ==> weekday_names().contains(n@),
        r matches Some(n) ==> exists|k: int| 0 <= k < 7 && #[trigger] weekday_names()[k] == n@ && weekday_near(k, secs),
{
    let when = chrono::DateTime::from_timestamp(secs, 0)?.with_timezone(&chrono::Local);
    Some(when.format("%A").to_string())
}

/// The local day of the month of `secs` (`Datelike::day`), from 1 to 31.
/// Which day it is depends on the zone; stated is that it is the day of
/// the month of the UTC date or of a date either side (chrono's offsets
/// stay under 24 hours).
/// Only instants in `in_clock_range` are taken: `date_naive` panics when
/// the local reading falls outside chrono's range.
#[verifier::external_body]
pub(crate) fn local_day_of_month(secs: i64) -> (r: Option<u32>)
    requires
        in_clock_range(secs),
    ensures
        r matches Some(d) ==> 1 <= d <= 31,
        r matches Some(d) ==> day_of_month_near(d as int, secs),
{
    let when = chrono::DateTime::from_timestamp(secs, 0)?.with_timezone(&chrono::Local);
    Some(chrono::Datelike::day(&when.date_naive()))
}

/// The English name of the local month of `secs` (`format("%B")`). Which
/// month it is depends on the zone; stated is that it is one of the twelve
/// names, that of the UTC date or of a date either side (chrono's offsets
/// stay under 24 hours).
#[verifier::external_body]
pub(crate) fn local_month_name(secs: i64) -> (r: Option<String>)
    ensures
        r matches Some(n) ==> month_names().contains(n@),
        r matches Some(n) ==> exists|k: int| 0 <= k < 12 && #[trigger] month_names()[k] == n@ && month_near(k, secs),
{
    let when = chrono::DateTime::from_timestamp(secs, 0)?.with_timezone(&chrono::Local);
    Some(when.format("%B").to_string())
}

/// `chrono::Utc::now`, in whole seconds since the epoch. It is the clock's
/// reading, so nothing is stated of it.
#[verifier::external_body]
pub(crate) fn now_secs() -> (r: i64)
{
    chrono::Utc::now().timestamp()
}

/// An offset from UTC as chrono's `FixedOffset` allows: under 24 hours
/// either way.
pub open spec fn offset_ok(o: int) -> bool {
    -86400 < o < 86400
}

/// `r` is the instant whose local reading is `secs`'s local reading with
/// the hour set to `hour`, when `secs` is read at offset `os` and `r` at
/// offset `or`: the same local date, the same minute and second, and hour
/// `hour`.
pub open spec fn at_hour_with(secs: int, hour: int, r: int, os: int, or: int) -> bool {
    &&& (r + or) / 86400 == (secs + os) / 86400
    &&& (r + or) % 86400 == hour * 3600 + (secs + os) % 3600
}

/// `at_hour_with` for some offsets chrono allows: all that holds in every
/// zone.
pub open spec fn at_hour(secs: int, hour: int, r: int) -> bool {
    exists|os: int, or: int| offset_ok(os) && offset_ok(or) && #[trigger] at_hour_with(secs, hour, r, os, or)
}

/// `r` is the start of the local day holding `secs`, when `secs` is read
/// at offset `os` and `r` at offset `or`.
pub open spec fn midnight_with(secs: int, r: int, os: int, or: int) -> bool {
    r + or == ((secs + os) / 86400) * 86400
}

/// `midnight_with` for some offsets chrono allows.
pub open spec fn midnight_of(secs: int, r: int) -> bool {
    exists|os: int, or: int| offset_ok(os) && offset_ok(or) && #[trigger] midnight_with(secs, r, os, or)
}

/// Midnight at the start of the local day that holds `secs`, as an
/// instant (`date_naive().and_hms_opt(0, 0, 0)` read through
/// `Local.from_local_datetime(..).single()`); `None` when that wall-clock
/// time does not name exactly one instant. It depends on the machine's
/// time zone; stated is only that it is midnight of `secs`'s local date
/// read at some offset under 24 hours (chrono's `FixedOffset`).
/// Only instants in `in_clock_range` are taken: `date_naive` panics when
/// the local reading falls outside chrono's range.
#[verifier::external_body]
pub(crate) fn local_midnight(secs: i64) -> (r: Option<i64>)
    requires
        in_clock_range(secs),
    ensures
        r matches Some(t) ==> midnight_of(secs as int, t as int),
{
    let when = chrono::DateTime::from_timestamp(secs, 0)?.with_timezone(&chrono::Local);
    let midnight = when.date_naive().and_hms_opt(0, 0, 0)?;
    chrono::TimeZone::from_local_datetime(&chrono::Local, &midnight).single().map(|dt| dt.timestamp())
}

/// The local instant `secs` with its hour set to `hour`
/// (`DateTime<Local>::with_hour`); `None` when that time does not exist
/// locally. It depends on the machine's time zone; stated is only what
/// holds for every offset chrono allows: the result reads, at its own
/// offset, as `secs` read at its offset with the hour replaced.
#[verifier::external_body]
pub(crate) fn local_with_hour(secs: i64, hour: u32) -> (r: Option<i64>)
    ensures
        r matches Some(t) ==> at_hour(secs as int, hour as int, t as int),
{
    let when = chrono::DateTime::from_timestamp(secs, 0)?.with_timezone(&chrono::Local);
    chrono::Timelike::with_hour(&when, hour).map(|dt| dt.timestamp())
}

/// The instant `secs` as RFC 3339 text in the machine's zone
/// (`DateTime<Local>::to_rfc3339`). It depends on the zone, so nothing is
/// stated of it; `None` for an instant chrono cannot represent.
#[verifier::external_body]
pub(crate) fn local_rfc3339(secs: i64) -> (r: Option<String>)
{
    chrono::DateTime::from_timestamp(secs, 0).map(|dt| dt.with_timezone(&chrono::Local).to_rfc3339())
}

} // verus!
