//! Task deadlines as users type them: `in 24 hours`, `in 7 days`,
//! `today HH:MM` and `DD/MM/YYYY HH:MM`, read on the user's own UTC offset.
use vstd::prelude::*;
use vstd::arithmetic::div_mod::*;
use crate::clock::{
    in_range, day_month_year_stamp, clock_time, lowercased, parse_day_month_year,
    parse_clock_time, to_lowercase, current_instant,
};
use crate::text::{
    trimmed, starts_with, has_prefix, trim, parse_i64, parsed_i64, before_first, text_before,
    push_str, text_eq,
};

verus! {

/// A deadline input once its form is known and chrono has read its date or time.
#[derive(Debug, Clone, Copy)]
pub enum DeadlineKind {
    /// `in 24 hours`
    In24Hours,
    /// `in 7 days`
    In7Days,
    /// `today HH:MM`, with the hour and minute chrono read, if it read them.
    Today(Option<(u32, u32)>),
    /// `DD/MM/YYYY HH:MM`, with the instant chrono read (as if the text were UTC).
    Dated(Option<i64>),
}

/// Why a deadline input was refused.
#[derive(Debug, Clone, Copy, PartialEq, Eq, Structural)]
pub enum DeadlineError {
    /// `today ...` whose time is not `HH:MM`.
    BadTodayTime,
    /// Text in none of the accepted forms.
    BadFormat,
    /// The offset or the resulting instant leaves chrono's range, where chrono's
    /// arithmetic panics.
    OutOfRange,
}

/// Whether chrono can make a `TimeDelta` of this many seconds.
pub open spec fn delta_ok(secs: int) -> bool {
    -9223372036854775 <= secs <= 9223372036854775
}

/// Start of the local day that contains `now` on the clock of `offset`, plus
/// the given hour and minute: the local instant meant by `today HH:MM`.
pub open spec fn today_at(now: int, offset: int, hour: int, minute: int) -> int {
    ((now + 3600 * offset) / 86400) * 86400 + 3600 * hour + 60 * minute
}

/// The instants that chrono computes on the way stay in its range (elsewhere it
/// panics): the user's local now, and the deadline itself.
pub open spec fn deadline_defined(kind: DeadlineKind, offset: int, now: int) -> bool {
    &&& delta_ok(3600 * offset)
    &&& in_range(now + 3600 * offset)
    &&& match kind {
        DeadlineKind::In24Hours => in_range(now + 86400),
        DeadlineKind::In7Days => in_range(now + 604800),
        DeadlineKind::Today(Some(hm)) => in_range(
            today_at(now, offset, hm.0 as int, hm.1 as int) - 3600 * offset,
        ),
        DeadlineKind::Today(None) => true,
        DeadlineKind::Dated(Some(t)) => in_range(t - 3600 * offset),
        DeadlineKind::Dated(None) => true,
    }
}

/// The UTC deadline of an input read on the clock of UTC offset `offset` at `now`.
pub open spec fn deadline_value(kind: DeadlineKind, offset: int, now: int) -> Result<
    i64,
    DeadlineError,
> {
    match kind {
        DeadlineKind::In24Hours => Ok((now + 86400) as i64),
        DeadlineKind::In7Days => Ok((now + 604800) as i64),
        DeadlineKind::Today(Some(hm)) => Ok(
            (today_at(now, offset, hm.0 as int, hm.1 as int) - 3600 * offset) as i64,
        ),
        DeadlineKind::Today(None) => Err(DeadlineError::BadTodayTime),
        DeadlineKind::Dated(Some(t)) => Ok((t - 3600 * offset) as i64),
        DeadlineKind::Dated(None) => Err(DeadlineError::BadFormat),
    }
}

proof fn lemma_day_start(x: int)
    requires
        x >= -8640000000000,
    ensures
        (x + 8640000000000) / 86400 == x / 86400 + 100000000,
        x / 86400 * 86400 <= x < x / 86400 * 86400 + 86400,
{
    lemma_fundamental_div_mod(x, 86400);
    lemma_mod_bound(x, 86400);
    lemma_fundamental_div_mod_converse(x + 8640000000000, 86400, x / 86400 + 100000000, x % 86400);
}

/// The UTC deadline of an input whose form and parsed parts are known.
pub fn deadline_stamp(kind: DeadlineKind, offset: i64, now: i64) -> (r: Result<i64, DeadlineError>)
    requires
        in_range(now as int),
        deadline_defined(kind, offset as int, now as int),
    ensures
        r == deadline_value(kind, offset as int, now as int),
{
    let shift: i64 = offset * 3600;
    match kind {
        DeadlineKind::In24Hours => Ok(now + 86400),
        DeadlineKind::In7Days => Ok(now + 604800),
        DeadlineKind::Today(None) => Err(DeadlineError::BadTodayTime),
        DeadlineKind::Today(Some(hm)) => {
            let user_now: i64 = now + shift;
            proof {
                lemma_day_start(user_now as int);
            }
            let u: u64 = (user_now + 8640000000000i64) as u64;
            let days: i64 = (u / 86400) as i64 - 100000000;
            let start: i64 = days * 86400;
            let local: i64 = start + (hm.0 as i64) * 3600 + (hm.1 as i64) * 60;
            Ok(local - shift)
        },
        DeadlineKind::Dated(None) => Err(DeadlineError::BadFormat),
        DeadlineKind::Dated(Some(t)) => Ok(t - shift),
    }
}

/// `today HH:MM` means that time of the user's current local day: the deadline,
/// read on the user's clock, falls on the same local day as `now` and shows the
/// requested hour and minute.
pub proof fn lemma_today_is_local_day(offset: int, now: int, hour: int, minute: int)
    requires
        0 <= hour < 24,
        0 <= minute < 60,
        deadline_defined(DeadlineKind::Today(Some((hour as u32, minute as u32))), offset, now),
    ensures
        ({
            let local = deadline_value(
                DeadlineKind::Today(Some((hour as u32, minute as u32))),
                offset,
                now,
            )->Ok_0 + 3600 * offset;
            &&& local / 86400 == (now + 3600 * offset) / 86400
            &&& local % 86400 == 3600 * hour + 60 * minute
        }),
{
    let x = now + 3600 * offset;
    let d = x / 86400;
    let r = 3600 * hour + 60 * minute;
    assert(today_at(now, offset, hour, minute) == d * 86400 + r);
    lemma_fundamental_div_mod_converse(d * 86400 + r, 86400, d, r);
}

/// A dated deadline is the typed local date-time moved to UTC: read back on
/// the user's clock it shows exactly what was typed.
pub proof fn lemma_dated_reads_back(t: i64, offset: int, now: int)
    requires
        deadline_defined(DeadlineKind::Dated(Some(t)), offset, now),
    ensures
        deadline_value(DeadlineKind::Dated(Some(t)), offset, now)->Ok_0 + 3600 * offset == t,
{
}

/// How the lowercased input reads: which form it has, before any parsing.
pub open spec fn deadline_kind(input: Seq<char>) -> DeadlineKind {
    let lowered = lowercased(input);
    if lowered == "in 24 hours"@ {
        DeadlineKind::In24Hours
    } else if lowered == "in 7 days"@ {
        DeadlineKind::In7Days
    } else if starts_with(lowered, "today "@) {
        DeadlineKind::Today(clock_time(trimmed(lowered.skip(6))))
    } else {
        DeadlineKind::Dated(day_month_year_stamp(input))
    }
}

/// Reads the form of a deadline input and lets chrono parse its date or time:
/// the lowercased text is compared with `in 24 hours` and `in 7 days`, then
/// checked for the prefix `today ` (whose rest is trimmed and read as `%H:%M`);
/// anything else is read as `%d/%m/%Y %H:%M`, as typed.
pub fn read_deadline_kind(input: &str) -> (k: DeadlineKind)
    ensures
        k == deadline_kind(input@),
{
    let lowered = to_lowercase(input);
    let l = lowered.as_str();
    proof {
        reveal_strlit("today ");
    }
    if text_eq(l, "in 24 hours") {
        DeadlineKind::In24Hours
    } else if text_eq(l, "in 7 days") {
        DeadlineKind::In7Days
    } else if has_prefix(l, "today ") {
        let n = l.unicode_len();
        let rest = l.substring_char(6, n);
        assert(rest@ == l@.skip(6));
        let time_text = trim(rest);
        DeadlineKind::Today(parse_clock_time(time_text.as_str()))
    } else {
        DeadlineKind::Dated(parse_day_month_year(input))
    }
}

/// What adding a task does with its deadline text at instant `now`.
pub open spec fn deadline_result(input: Seq<char>, offset: int, now: int) -> Result<
    i64,
    DeadlineError,
> {
    if deadline_defined(deadline_kind(input), offset, now) {
        deadline_value(deadline_kind(input), offset, now)
    } else {
        Err(DeadlineError::OutOfRange)
    }
}

/// The UTC deadline of a deadline text typed by a user with UTC offset `offset`,
/// at instant `now`; `OutOfRange` where chrono's arithmetic would panic.
pub fn resolve_deadline(input: &str, offset: i64, now: i64) -> (r: Result<i64, DeadlineError>)
    requires
        in_range(now as int),
    ensures
        r == deadline_result(input@, offset as int, now as int),
{
    let kind = read_deadline_kind(input);
    if deadline_is_defined(kind, offset, now) {
        deadline_stamp(kind, offset, now)
    } else {
        Err(DeadlineError::OutOfRange)
    }
}

/// The UTC deadline of a deadline text, read at the current instant; `None` when
/// the system clock cannot be read (before 1970 or beyond chrono's range).
pub fn deadline_from_now(input: &str, offset: i64) -> (r: Option<Result<i64, DeadlineError>>)
    ensures
        r matches Some(res) ==> exists|now: int|
            0 <= now && in_range(now) && res == #[trigger] deadline_result(
                input@,
                offset as int,
                now,
            ),
{
    match current_instant() {
        Some(now) => Some(resolve_deadline(input, offset, now)),
        None => None,
    }
}

fn in_range_exec(t: i128) -> (b: bool)
    ensures
        b == in_range(t as int),
{
    -8334601315200i128 <= t && t <= 8210266876799i128
}

/// Decides `deadline_defined`.
pub fn deadline_is_defined(kind: DeadlineKind, offset: i64, now: i64) -> (b: bool)
    requires
        in_range(now as int),
    ensures
        b == deadline_defined(kind, offset as int, now as int),
{
    let off = offset as i128;
    let shift = off * 3600;
    if !(-9223372036854775i128 <= shift && shift <= 9223372036854775i128) {
        return false;
    }
    let now_w = now as i128;
    let user_now = now_w + shift;
    if !in_range_exec(user_now) {
        return false;
    }
    match kind {
        DeadlineKind::In24Hours => in_range_exec(now_w + 86400),
        DeadlineKind::In7Days => in_range_exec(now_w + 604800),
        DeadlineKind::Today(Some(hm)) => {
            proof {
                lemma_day_start(user_now as int);
            }
            let u = (user_now + 8640000000000i128) as u128;
            let days = (u / 86400) as i128 - 100000000;
            let local = days * 86400 + (hm.0 as i128) * 3600 + (hm.1 as i128) * 60;
            in_range_exec(local - shift)
        },
        DeadlineKind::Today(None) => true,
        DeadlineKind::Dated(Some(t)) => in_range_exec((t as i128) - shift),
        DeadlineKind::Dated(None) => true,
    }
}

impl DeadlineError {
    /// The reply to a refused deadline when adding a task.
    pub fn add_task_message(&self) -> (s: &'static str)
        requires
            !(*self is OutOfRange),
        ensures
            s@ == add_task_error_text(*self),
    {
        match self {
            DeadlineError::BadTodayTime => "Invalid time format. Use `today HH:MM` (e.g., `today 15:30`).",
            _ => "Invalid deadline format. Use `DD/MM/YYYY HH:MM`, `today HH:MM`, `in 24 hours`, or `in 7 days`.",
        }
    }
}

pub open spec fn add_task_error_text(e: DeadlineError) -> Seq<char> {
    match e {
        DeadlineError::BadTodayTime => "Invalid time format. Use `today HH:MM` (e.g., `today 15:30`)."@,
        _ => "Invalid deadline format. Use `DD/MM/YYYY HH:MM`, `today HH:MM`, `in 24 hours`, or `in 7 days`."@,
    }
}

// ---------------------------------------------------------------------------
// Editing a deadline
// ---------------------------------------------------------------------------

/// What editing a task's deadline does with the new deadline text: `clear` (in
/// any case) removes it; anything else must read as `%d/%m/%Y %H:%M`.
pub open spec fn deadline_edit(input: Seq<char>, offset: int) -> Result<Option<i64>, DeadlineError> {
    if lowercased(input) == "clear"@ {
        Ok(None)
    } else {
        match day_month_year_stamp(input) {
            None => Err(DeadlineError::BadFormat),
            Some(t) => if delta_ok(3600 * offset) && in_range(t - 3600 * offset) {
                Ok(Some((t - 3600 * offset) as i64))
            } else {
                Err(DeadlineError::OutOfRange)
            },
        }
    }
}

/// Whether an edit asks to remove the deadline: the input, lowercased, is `clear`.
pub fn clears_deadline(input: &str) -> (b: bool)
    ensures
        b == (lowercased(input@) == "clear"@),
{
    let lowered = to_lowercase(input);
    text_eq(lowered.as_str(), "clear")
}

/// The new deadline of an edited task: `None` to clear it.
pub fn resolve_deadline_edit(input: &str, offset: i64) -> (r: Result<Option<i64>, DeadlineError>)
    ensures
        r == deadline_edit(input@, offset as int),
{
    if clears_deadline(input) {
        return Ok(None);
    }
    match parse_day_month_year(input) {
        None => Err(DeadlineError::BadFormat),
        Some(t) => {
            let shift = (offset as i128) * 3600;
            if -9223372036854775i128 <= shift && shift <= 9223372036854775i128 && in_range_exec(
                (t as i128) - shift,
            ) {
                Ok(Some(((t as i128) - shift) as i64))
            } else {
                Err(DeadlineError::OutOfRange)
            }
        },
    }
}

impl DeadlineError {
    /// The reply to a refused deadline when editing a task.
    pub fn edit_message(&self) -> (s: &'static str)
        requires
            !(*self is OutOfRange),
        ensures
            s@ == edit_error_text(*self),
    {
        "Invalid deadline format. Use `DD/MM/YYYY HH:MM` (e.g., `31/12/2026 23:59`) or type `clear`."
    }
}

pub open spec fn edit_error_text(e: DeadlineError) -> Seq<char> {
    "Invalid deadline format. Use `DD/MM/YYYY HH:MM` (e.g., `31/12/2026 23:59`) or type `clear`."@
}

/// The task id chosen in the edit command: the text before the first ` - `
/// read as an integer (the autocomplete labels read `ID - description`).
pub open spec fn selected_task(selection: Seq<char>) -> Option<i64> {
    parsed_i64(before_first(selection, " - "@))
}

pub fn parse_task_selection(selection: &str) -> (r: Option<i64>)
    ensures
        r == selected_task(selection@),
{
    proof {
        reveal_strlit(" - ");
    }
    let head = text_before(selection, " - ");
    parse_i64(head.as_str())
}

/// The reply after the deadline update: whether a row of this user changed, and
/// whether the deadline was set or cleared.
pub open spec fn edit_reply_text(updated_rows: int, deadline: Option<i64>, input: Seq<char>) -> Seq<
    char,
> {
    if updated_rows == 0 {
        "Task not found or you do not have permission to edit it."@
    } else {
        match deadline {
            Some(_) => "Task deadline updated to **"@ + input + "**."@,
            None => "Task deadline has been cleared."@,
        }
    }
}

pub fn edit_reply(updated_rows: u64, deadline: Option<i64>, input: &str) -> (s: String)
    ensures
        s@ == edit_reply_text(updated_rows as int, deadline, input@),
{
    let mut s = String::new();
    if updated_rows == 0 {
        push_str(&mut s, "Task not found or you do not have permission to edit it.");
    } else {
        match deadline {
            Some(_) => {
                push_str(&mut s, "Task deadline updated to **");
                push_str(&mut s, input);
                push_str(&mut s, "**.");
            },
            None => push_str(&mut s, "Task deadline has been cleared."),
        }
    }
    assert(s@ =~= edit_reply_text(updated_rows as int, deadline, input@));
    s
}

} // verus!
