//! Instants as whole seconds since 1970-01-01 00:00 UTC, and the calls into
//! chrono (and std) that read the clock, parse user dates and lowercase text.
use vstd::prelude::*;

verus! {

/// The first second that chrono's `NaiveDateTime` can hold (-262143-01-01 00:00:00).
pub const MIN_TIMESTAMP: i64 = -8334601315200i64;

/// The last second that chrono's `NaiveDateTime` can hold (+262142-12-31 23:59:59).
pub const MAX_TIMESTAMP: i64 = 8210266876799i64;

/// Whether `t` is a second that chrono's date-times can hold.
pub open spec fn in_range(t: int) -> bool {
    MIN_TIMESTAMP <= t <= MAX_TIMESTAMP
}

/// The current instant as chrono's `Utc::now()` builds it: the system time since
/// the epoch (`SystemTime::duration_since(UNIX_EPOCH)`), made into a
/// `chrono::DateTime<Utc>` by `DateTime::from_timestamp`, read back as
/// `timestamp()` and `timestamp_subsec_nanos()`. Where `Utc::now()` would panic
/// (a clock before 1970, or past what chrono can hold) this gives `None`. A
/// `DateTime<Utc>` lies in chrono's range and `from_timestamp` keeps the
/// sub-second part it is given, which is under one second; which instant it is
/// depends on the clock and is not stated.
#[verifier::external_body]
fn utc_now() -> (r: Option<(i64, u32)>)
    ensures
        r matches Some(t) ==> 0 <= t.0 && in_range(t.0 as int) && t.1 < 1_000_000_000,
{
    let since = std::time::SystemTime::now().duration_since(std::time::UNIX_EPOCH).ok()?;
    let secs = i64::try_from(since.as_secs()).ok()?;
    let now = chrono::DateTime::from_timestamp(secs, since.subsec_nanos())?;
    Some((now.timestamp(), now.timestamp_subsec_nanos()))
}

/// The current instant: whole seconds since the epoch, and the nanoseconds of
/// the current second; `None` when the system clock reads before 1970 or beyond
/// chrono's range.
pub fn current_instant_precise() -> (r: Option<(i64, u32)>)
    ensures
        r matches Some(t) ==> 0 <= t.0 && in_range(t.0 as int) && t.1 < 1_000_000_000,
{
    utc_now()
}

/// The current instant, in whole seconds since the epoch; `None` when the
/// system clock reads before 1970 or beyond chrono's range.
pub fn current_instant() -> (t: Option<i64>)
    ensures
        t matches Some(s) ==> 0 <= s && in_range(s as int),
{
    match utc_now() {
        Some(p) => Some(p.0),
        None => None,
    }
}

/// What `NaiveDateTime::parse_from_str(s, "%d/%m/%Y %H:%M")` yields, taken as a
/// UTC timestamp (`.and_utc().timestamp()`), or `None` where chrono refuses `s`.
pub uninterp spec fn day_month_year_stamp(s: Seq<char>) -> Option<i64>;

/// Calls `chrono::NaiveDateTime::parse_from_str` with the format
/// `%d/%m/%Y %H:%M` and reads the result as seconds since the epoch. The contract
/// names the result and states that a parsed date-time lies in chrono's range
/// (every `NaiveDateTime` does); which strings chrono accepts is not stated.
#[verifier::external_body]
pub(crate) fn parse_day_month_year(s: &str) -> (r: Option<i64>)
    ensures
        r == day_month_year_stamp(s@),
        r matches Some(t) ==> in_range(t as int),
{
    match chrono::NaiveDateTime::parse_from_str(s, "%d/%m/%Y %H:%M") {
        Ok(dt) => Some(dt.and_utc().timestamp()),
        Err(_) => None,
    }
}

/// What `NaiveTime::parse_from_str(s, "%H:%M")` yields, as (hour, minute).
pub uninterp spec fn clock_time(s: Seq<char>) -> Option<(u32, u32)>;

/// Calls `chrono::NaiveTime::parse_from_str` with the format `%H:%M` and returns
/// the hour and minute of the result. The contract names the result and states
/// chrono's documented ranges of `hour()` (0 to 23) and `minute()` (0 to 59);
/// which strings chrono accepts is not stated.
#[verifier::external_body]
pub(crate) fn parse_clock_time(s: &str) -> (r: Option<(u32, u32)>)
    ensures
        r == clock_time(s@),
        r matches Some(hm) ==> hm.0 < 24 && hm.1 < 60,
{
    match chrono::NaiveTime::parse_from_str(s, "%H:%M") {
        Ok(t) => Some((chrono::Timelike::hour(&t), chrono::Timelike::minute(&t))),
        Err(_) => None,
    }
}

/// What `str::to_lowercase` yields (Unicode lowercase mapping).
pub uninterp spec fn lowercased(s: Seq<char>) -> Seq<char>;

/// Calls `str::to_lowercase`. The contract names the result; the Unicode
/// lowercase mapping itself is not stated.
#[verifier::external_body]
pub(crate) fn to_lowercase(s: &str) -> (r: String)
    ensures
        r@ == lowercased(s@),
{
    s.to_lowercase()
}

} // verus!
