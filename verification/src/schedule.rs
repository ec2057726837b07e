//! The weekly leaderboard reset: converting a local schedule to UTC, and
//! finding the UTC weekday, hour and minute of an instant.
use vstd::prelude::*;
use vstd::arithmetic::div_mod::*;
use crate::weekday::{WeekdayChoice, days_from_monday, weekday_name};
use crate::text::{dec_int, dec_int_pad2, push_i64, push_i64_pad2, push_str};
use crate::clock::{in_range, current_instant};

verus! {

/// A minute of the week in UTC: weekday counted from Monday, hour and minute.
#[derive(Debug, Clone, Copy, PartialEq, Eq, Structural)]
pub struct ResetSlot {
    pub day: i64,
    pub hour: i64,
    pub minute: i64,
}

/// Why a schedule or an offset was refused.
#[derive(Debug, Clone, Copy, PartialEq, Eq, Structural)]
pub enum ScheduleError {
    /// The hour is not in 0..24 or the minute not in 0..60.
    InvalidTime,
    /// The UTC offset is not in -12..=14.
    InvalidOffset,
}

pub open spec fn valid_time(hour: int, minute: int) -> bool {
    0 <= hour < 24 && 0 <= minute < 60
}

pub open spec fn valid_offset(offset: int) -> bool {
    -12 <= offset <= 14
}

/// The UTC slot of a local weekly time `day hour:minute` at UTC offset `offset`:
/// the hour moves by the offset, and the day with it when the hour leaves the day.
pub open spec fn utc_slot_of(day: WeekdayChoice, hour: int, minute: int, offset: int) -> ResetSlot {
    let h = hour - offset;
    let d = days_from_monday(day) as int;
    if h < 0 {
        ResetSlot { day: ((d - 1) % 7) as i64, hour: (h + 24) as i64, minute: minute as i64 }
    } else if h >= 24 {
        ResetSlot { day: ((d + 1) % 7) as i64, hour: (h - 24) as i64, minute: minute as i64 }
    } else {
        ResetSlot { day: d as i64, hour: h as i64, minute: minute as i64 }
    }
}

/// What the schedule command does with its time arguments: the time is checked
/// first, then the offset.
pub open spec fn schedule_result(day: WeekdayChoice, hour: int, minute: int, offset: int) -> Result<
    ResetSlot,
    ScheduleError,
> {
    if !valid_time(hour, minute) {
        Err(ScheduleError::InvalidTime)
    } else if !valid_offset(offset) {
        Err(ScheduleError::InvalidOffset)
    } else {
        Ok(utc_slot_of(day, hour, minute, offset))
    }
}

/// Converts a local weekly reset time to the UTC slot stored for the guild.
pub fn to_utc_schedule(day: WeekdayChoice, hour: i64, minute: i64, utc_offset: i64) -> (r: Result<
    ResetSlot,
    ScheduleError,
>)
    ensures
        r == schedule_result(day, hour as int, minute as int, utc_offset as int),
{
    if !(0 <= hour && hour < 24) || !(0 <= minute && minute < 60) {
        return Err(ScheduleError::InvalidTime);
    }
    if !(-12 <= utc_offset && utc_offset <= 14) {
        return Err(ScheduleError::InvalidOffset);
    }
    let mut utc_hour = hour - utc_offset;
    let mut utc_day = day.to_chrono_num() as i64;
    if utc_hour < 0 {
        utc_hour = utc_hour + 24;
        utc_day = if utc_day == 0 { 6 } else { utc_day - 1 };
    } else if utc_hour >= 24 {
        utc_hour = utc_hour - 24;
        utc_day = if utc_day == 6 { 0 } else { utc_day + 1 };
    }
    Ok(ResetSlot { day: utc_day, hour: utc_hour, minute })
}

/// Checks a personal UTC offset.
pub fn check_offset(offset: i64) -> (r: Result<(), ScheduleError>)
    ensures
        r is Ok <==> valid_offset(offset as int),
        r is Err ==> r == Err::<(), ScheduleError>(ScheduleError::InvalidOffset),
{
    if -12 <= offset && offset <= 14 {
        Ok(())
    } else {
        Err(ScheduleError::InvalidOffset)
    }
}

impl ScheduleError {
    /// The reply that explains the refusal.
    pub fn message(&self) -> (s: &'static str)
        ensures
            s@ == schedule_error_text(*self),
    {
        match self {
            ScheduleError::InvalidTime => "Invalid time constraint. Hour must be 0-23 and minute 0-59.",
            ScheduleError::InvalidOffset => "Invalid UTC offset. Must be between -12 and 14.",
        }
    }
}

pub open spec fn schedule_error_text(e: ScheduleError) -> Seq<char> {
    match e {
        ScheduleError::InvalidTime => "Invalid time constraint. Hour must be 0-23 and minute 0-59."@,
        ScheduleError::InvalidOffset => "Invalid UTC offset. Must be between -12 and 14."@,
    }
}

/// The confirmation of a configured schedule, which repeats the local time.
pub open spec fn schedule_confirmation_text(
    day: WeekdayChoice,
    hour: int,
    minute: int,
    offset: int,
) -> Seq<char> {
    "Schedule configured. Leaderboard will reset locally every "@ + weekday_name(day) + " at "@
        + dec_int_pad2(hour) + ":"@ + dec_int_pad2(minute) + " (UTC Offset: "@ + dec_int(offset)
        + ")."@
}

pub fn schedule_confirmation(day: WeekdayChoice, hour: i64, minute: i64, offset: i64) -> (s:
    String)
    ensures
        s@ == schedule_confirmation_text(day, hour as int, minute as int, offset as int),
{
    let mut s = String::new();
    push_str(&mut s, "Schedule configured. Leaderboard will reset locally every ");
    push_str(&mut s, day.name());
    push_str(&mut s, " at ");
    push_i64_pad2(&mut s, hour);
    push_str(&mut s, ":");
    push_i64_pad2(&mut s, minute);
    push_str(&mut s, " (UTC Offset: ");
    push_i64(&mut s, offset);
    push_str(&mut s, ").");
    assert(s@ =~= schedule_confirmation_text(day, hour as int, minute as int, offset as int));
    s
}

/// The confirmation of a personal offset: `UTC+2`, `UTC-5`, `UTC+0`.
pub open spec fn timezone_confirmation_text(offset: int) -> Seq<char> {
    "Your personal timezone offset has been set to UTC"@ + (if offset >= 0 {
        "+"@
    } else {
        ""@
    }) + dec_int(offset) + "."@
}

pub fn timezone_confirmation(offset: i64) -> (s: String)
    ensures
        s@ == timezone_confirmation_text(offset as int),
{
    let mut s = String::new();
    push_str(&mut s, "Your personal timezone offset has been set to UTC");
    if offset >= 0 {
        push_str(&mut s, "+");
    } else {
        push_str(&mut s, "");
    }
    push_i64(&mut s, offset);
    push_str(&mut s, ".");
    assert(s@ =~= timezone_confirmation_text(offset as int));
    s
}

// ---------------------------------------------------------------------------
// Weekday, hour and minute of an instant (seconds since 1970-01-01 00:00 UTC)
// ---------------------------------------------------------------------------

/// Days since 1970-01-01, rounded down.
pub open spec fn day_number(t: int) -> int {
    t / 86400
}

/// The weekday of instant `t`, counted from Monday; 1970-01-01 was a Thursday.
pub open spec fn weekday_of(t: int) -> int {
    (day_number(t) + 3) % 7
}

pub open spec fn hour_of(t: int) -> int {
    (t % 86400) / 3600
}

pub open spec fn minute_of(t: int) -> int {
    (t % 3600) / 60
}

/// The UTC slot that instant `t` falls in.
pub open spec fn slot_at(t: int) -> ResetSlot {
    ResetSlot { day: weekday_of(t) as i64, hour: hour_of(t) as i64, minute: minute_of(t) as i64 }
}

/// A shift that makes every `i64` non-negative and is a whole number of weeks.
spec fn weeks_shift() -> int {
    9223372036855065600
}

proof fn lemma_shift(t: int)
    ensures
        (t + weeks_shift()) / 86400 == t / 86400 + weeks_shift() / 86400,
        (t + weeks_shift()) % 86400 == t % 86400,
        (t + weeks_shift()) % 3600 == t % 3600,
        (weeks_shift() / 86400) % 7 == 0,
{
    assert(weeks_shift() == 86400 * 106751991167304);
    assert(weeks_shift() == 3600 * 2562047788015296);
    assert(106751991167304 == 7 * 15250284452472);
    lemma_fundamental_div_mod(t, 86400);
    lemma_fundamental_div_mod_converse(
        t + weeks_shift(),
        86400,
        t / 86400 + 106751991167304,
        t % 86400,
    );
    lemma_fundamental_div_mod(t, 3600);
    lemma_fundamental_div_mod_converse(t + weeks_shift(), 3600, t / 3600 + 2562047788015296, t % 3600);
}

/// The UTC weekday, hour and minute of instant `t`, as chrono's
/// `weekday().num_days_from_monday()`, `hour()` and `minute()` give them.
pub fn slot_of_instant(t: i64) -> (s: ResetSlot)
    ensures
        s == slot_at(t as int),
        0 <= s.day < 7,
        0 <= s.hour < 24,
        0 <= s.minute < 60,
{
    let u: u128 = ((t as i128) + 9223372036855065600i128) as u128;
    let days: u128 = u / 86400;
    let day = ((days + 3) % 7) as i64;
    let hour = ((u % 86400) / 3600) as i64;
    let minute = ((u % 3600) / 60) as i64;
    proof {
        lemma_shift(t as int);
        let k = weeks_shift() / 86400;
        assert((t / 86400 + k + 3) % 7 == (t / 86400 + 3) % 7) by {
            lemma_fundamental_div_mod(k, 7);
            lemma_mod_multiples_vanish(k / 7, t / 86400 + 3, 7);
            assert(t / 86400 + k + 3 == 7 * (k / 7) + (t / 86400 + 3));
        }
    }
    ResetSlot { day, hour, minute }
}

/// The UTC slot of the current instant: the guilds scheduled for it are reset.
/// `None` when the system clock cannot be read (before 1970 or beyond chrono's
/// range).
pub fn current_slot() -> (s: Option<ResetSlot>)
    ensures
        s matches Some(slot) ==> exists|t: int| 0 <= t && in_range(t) && slot == #[trigger] slot_at(t),
{
    match current_instant() {
        Some(t) => Some(slot_of_instant(t)),
        None => None,
    }
}

// ---------------------------------------------------------------------------
// The reset fires at the configured local time
// ---------------------------------------------------------------------------

/// Minute of the week of a slot.
pub open spec fn slot_minute(s: ResetSlot) -> int {
    s.day * 1440 + s.hour * 60 + s.minute
}

proof fn lemma_slot_minute(t: int)
    ensures
        slot_minute(slot_at(t)) == (t / 60 + 4320) % 10080,
        0 <= weekday_of(t) < 7,
        0 <= hour_of(t) < 24,
        0 <= minute_of(t) < 60,
{
    let d = t / 86400;
    let r = t % 86400;
    lemma_fundamental_div_mod(t, 86400);
    lemma_mod_bound(t, 86400);
    let h = r / 3600;
    let r2 = r % 3600;
    lemma_fundamental_div_mod(r, 3600);
    lemma_mod_bound(r, 3600);
    assert(0 <= h < 24) by {
        lemma_div_pos_is_pos(r, 3600);
        lemma_div_is_ordered(r, 86399, 3600);
    }
    // t % 3600 is r % 3600
    assert(t % 3600 == r2) by {
        assert(t == 3600 * (24 * d + h) + r2);
        lemma_fundamental_div_mod_converse(t, 3600, 24 * d + h, r2);
    }
    let m = r2 / 60;
    let r3 = r2 % 60;
    lemma_fundamental_div_mod(r2, 60);
    lemma_mod_bound(r2, 60);
    assert(0 <= m < 60) by {
        lemma_div_pos_is_pos(r2, 60);
        lemma_div_is_ordered(r2, 3599, 60);
    }
    assert(t / 60 == 1440 * d + 60 * h + m) by {
        assert(t == 60 * (1440 * d + 60 * h + m) + r3);
        lemma_fundamental_div_mod_converse(t, 60, 1440 * d + 60 * h + m, r3);
    }
    let w = (d + 3) % 7;
    let q = (d + 3) / 7;
    lemma_fundamental_div_mod(d + 3, 7);
    lemma_mod_bound(d + 3, 7);
    assert(t / 60 + 4320 == 10080 * q + (1440 * w + 60 * h + m));
    lemma_fundamental_div_mod_converse(t / 60 + 4320, 10080, q, 1440 * w + 60 * h + m);
}

proof fn lemma_slot_shift(t: int, offset: int)
    ensures
        slot_minute(slot_at(t + 3600 * offset)) == (slot_minute(slot_at(t)) + 60 * offset)
            % 10080,
{
    lemma_slot_minute(t);
    lemma_slot_minute(t + 3600 * offset);
    assert((t + 3600 * offset) / 60 == t / 60 + 60 * offset) by {
        lemma_fundamental_div_mod(t, 60);
        lemma_mod_bound(t, 60);
        lemma_fundamental_div_mod_converse(t + 3600 * offset, 60, t / 60 + 60 * offset, t % 60);
    }
    lemma_add_mod_noop(t / 60 + 4320, 60 * offset, 10080);
    lemma_mod_twice(60 * offset, 10080);
    lemma_add_mod_noop((t / 60 + 4320) % 10080, 60 * offset, 10080);
    lemma_mod_twice(t / 60 + 4320, 10080);
}

proof fn lemma_mod_twice(x: int, m: int)
    requires
        m > 0,
    ensures
        (x % m) % m == x % m,
{
    lemma_mod_bound(x, m);
    lemma_small_mod((x % m) as nat, m as nat);
}

proof fn lemma_utc_slot_minute(day: WeekdayChoice, hour: int, minute: int, offset: int)
    requires
        valid_time(hour, minute),
        valid_offset(offset),
    ensures
        slot_minute(utc_slot_of(day, hour, minute, offset)) == (days_from_monday(day) * 1440
            + hour * 60 + minute - 60 * offset) % 10080,
        0 <= utc_slot_of(day, hour, minute, offset).day < 7,
        0 <= utc_slot_of(day, hour, minute, offset).hour < 24,
{
    let d = days_from_monday(day) as int;
    let x = d * 1440 + hour * 60 + minute - 60 * offset;
    let h = hour - offset;
    if h < 0 {
        if d == 0 {
            assert(x + 10080 == 6 * 1440 + (h + 24) * 60 + minute);
            lemma_fundamental_div_mod_converse(x, 10080, -1, 6 * 1440 + (h + 24) * 60 + minute);
            lemma_fundamental_div_mod_converse(d - 1, 7, -1, 6);
        } else {
            lemma_fundamental_div_mod_converse(x, 10080, 0, x);
            lemma_fundamental_div_mod_converse(d - 1, 7, 0, d - 1);
        }
    } else if h >= 24 {
        if d == 6 {
            lemma_fundamental_div_mod_converse(x, 10080, 1, (h - 24) * 60 + minute);
            lemma_fundamental_div_mod_converse(d + 1, 7, 1, 0);
        } else {
            lemma_fundamental_div_mod_converse(x, 10080, 0, x);
            lemma_fundamental_div_mod_converse(d + 1, 7, 0, d + 1);
        }
    } else {
        lemma_fundamental_div_mod_converse(x, 10080, 0, x);
    }
}

proof fn lemma_slot_minute_injective(a: ResetSlot, b: ResetSlot)
    requires
        0 <= a.hour < 24,
        0 <= a.minute < 60,
        0 <= b.hour < 24,
        0 <= b.minute < 60,
        slot_minute(a) == slot_minute(b),
    ensures
        a == b,
{
    let (ad, ah, am) = (a.day as int, a.hour as int, a.minute as int);
    let (bd, bh, bm) = (b.day as int, b.hour as int, b.minute as int);
    lemma_fundamental_div_mod_converse(slot_minute(a), 60, ad * 24 + ah, am);
    lemma_fundamental_div_mod_converse(slot_minute(b), 60, bd * 24 + bh, bm);
    lemma_fundamental_div_mod_converse(ad * 24 + ah, 24, ad, ah);
    lemma_fundamental_div_mod_converse(bd * 24 + bh, 24, bd, bh);
}

/// The weekly reset happens at the configured local time: for a valid schedule,
/// an instant `t` falls in the stored UTC slot exactly when, on the clock of the
/// given UTC offset, `t` is the configured weekday, hour and minute.
pub proof fn lemma_reset_at_local_time(
    day: WeekdayChoice,
    hour: int,
    minute: int,
    offset: int,
    t: int,
)
    requires
        valid_time(hour, minute),
        valid_offset(offset),
    ensures
        (slot_at(t) == utc_slot_of(day, hour, minute, offset)) <==> (weekday_of(t + 3600 * offset)
            == days_from_monday(day) && hour_of(t + 3600 * offset) == hour && minute_of(
            t + 3600 * offset,
        ) == minute),
{
    let u = utc_slot_of(day, hour, minute, offset);
    let s = slot_at(t);
    let l = slot_at(t + 3600 * offset);
    let target = days_from_monday(day) * 1440 + hour * 60 + minute;
    lemma_slot_minute(t);
    lemma_slot_minute(t + 3600 * offset);
    lemma_slot_shift(t, offset);
    lemma_utc_slot_minute(day, hour, minute, offset);
    assert(0 <= target < 10080);
    // Slots with hour < 24 and minute < 60 are equal iff their minutes of week are.
    assert(s == u <==> slot_minute(s) == slot_minute(u)) by {
        if slot_minute(s) == slot_minute(u) {
            lemma_slot_minute_injective(s, u);
        }
    }
    let want = ResetSlot { day: days_from_monday(day) as i64, hour: hour as i64, minute: minute as i64 };
    assert(slot_minute(want) == target);
    assert((l.day == days_from_monday(day) && l.hour == hour && l.minute == minute)
        <==> slot_minute(l) == target) by {
        if slot_minute(l) == target {
            lemma_slot_minute_injective(l, want);
        }
    }
    // slot_minute(l) == (slot_minute(s) + 60 offset) % 10080 and
    // slot_minute(u) == (target - 60 offset) % 10080.
    let a = slot_minute(s);
    assert(((a + 60 * offset) % 10080 == target) <==> (a == (target - 60 * offset) % 10080)) by {
        lemma_mod_bound(target - 60 * offset, 10080);
        if (a + 60 * offset) % 10080 == target {
            lemma_fundamental_div_mod(a + 60 * offset, 10080);
            let q = (a + 60 * offset) / 10080;
            assert(target - 60 * offset == 10080 * (-q) + a) by (nonlinear_arith)
                requires
                    a + 60 * offset == 10080 * q + target,
            ;
            lemma_fundamental_div_mod_converse(target - 60 * offset, 10080, -q, a);
        }
        if a == (target - 60 * offset) % 10080 {
            lemma_fundamental_div_mod(target - 60 * offset, 10080);
            let q = (target - 60 * offset) / 10080;
            assert(a + 60 * offset == 10080 * (-q) + target) by (nonlinear_arith)
                requires
                    target - 60 * offset == 10080 * q + a,
            ;
            lemma_fundamental_div_mod_converse(a + 60 * offset, 10080, -q, target);
        }
    }
}

/// A slot recurs every week: an instant and the instant one week later fall in
/// the same slot.
pub proof fn lemma_slot_weekly(t: int)
    ensures
        slot_at(t + 604800) == slot_at(t),
{
    lemma_slot_minute(t);
    lemma_slot_minute(t + 604800);
    let s = slot_at(t);
    let l = slot_at(t + 604800);
    assert((t + 604800) / 60 == t / 60 + 10080) by {
        lemma_fundamental_div_mod(t, 60);
        lemma_mod_bound(t, 60);
        lemma_fundamental_div_mod_converse(t + 604800, 60, t / 60 + 10080, t % 60);
    }
    lemma_mod_add_multiples_vanish(t / 60 + 4320, 10080);
    lemma_slot_minute_injective(s, l);
}

} // verus!
