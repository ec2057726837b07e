//! The bot's decisions on commands and the texts it answers with: leaderboards,
//! the weekly report, resets, cancellations, tracking toggles and task limits.
use vstd::prelude::*;
use crate::text::{
    dec_int, dec_nat, hours_minutes_of, hours_minutes, push_i64, push_u64, push_str, text_eq, rem,
};
use crate::sessions::{Sessions, SessionData};

verus! {

// ---------------------------------------------------------------------------
// Leaderboard
// ---------------------------------------------------------------------------

/// How many users the leaderboard shows: 5 unless asked, kept within 1..=50.
pub open spec fn leaderboard_size(limit: Option<i64>) -> i64 {
    let l = match limit {
        Some(l) => l,
        None => 5,
    };
    if l < 1 {
        1
    } else if l > 50 {
        50
    } else {
        l
    }
}

pub fn leaderboard_limit(limit: Option<i64>) -> (n: i64)
    ensures
        n == leaderboard_size(limit),
        1 <= n <= 50,
{
    let l = match limit {
        Some(l) => l,
        None => 5,
    };
    if l < 1 {
        1
    } else if l > 50 {
        50
    } else {
        l
    }
}

pub open spec fn leaderboard_title_text(n: int) -> Seq<char> {
    "Top "@ + dec_int(n) + " Users in Voice Activity"@
}

pub fn leaderboard_title(n: i64) -> (s: String)
    ensures
        s@ == leaderboard_title_text(n as int),
{
    let mut s = String::new();
    push_str(&mut s, "Top ");
    push_i64(&mut s, n);
    push_str(&mut s, " Users in Voice Activity");
    assert(s@ =~= leaderboard_title_text(n as int));
    s
}

/// A user's voice time in a guild.
#[derive(Debug, Clone, Copy, PartialEq, Eq, Structural)]
pub struct VoiceTotal {
    pub user_id: i64,
    pub total_seconds: i64,
    pub personal_record: i64,
}

/// `Xh Ym`.
pub open spec fn hm_text(s: int) -> Seq<char> {
    dec_int(hours_minutes_of(s).0) + "h "@ + dec_int(hours_minutes_of(s).1) + "m"@
}

fn push_hm(out: &mut String, s: i64)
    ensures
        final(out)@ == old(out)@ + hm_text(s as int),
{
    let (h, m) = hours_minutes(s);
    push_i64(out, h);
    push_str(out, "h ");
    push_i64(out, m);
    push_str(out, "m");
    assert(out@ =~= old(out)@ + hm_text(s as int));
}

/// The `Xh Ym` text of `s >= 0` seconds shows the whole hours, however many,
/// and the whole minutes left over: `X = s / 3600` and `Y = (s % 3600) / 60`,
/// so that `3600 X + 60 Y` falls short of `s` by less than a minute.
pub proof fn lemma_hm_text_shows_hours_and_minutes(s: int)
    requires
        s >= 0,
    ensures
        hm_text(s) == dec_int(s / 3600) + "h "@ + dec_int((s % 3600) / 60) + "m"@,
        0 <= (s % 3600) / 60 < 60,
        0 <= s - 3600 * (s / 3600) - 60 * ((s % 3600) / 60) < 60,
{
    vstd::arithmetic::div_mod::lemma_fundamental_div_mod(s, 3600);
    vstd::arithmetic::div_mod::lemma_mod_bound(s, 3600);
    vstd::arithmetic::div_mod::lemma_fundamental_div_mod(s % 3600, 60);
    vstd::arithmetic::div_mod::lemma_mod_bound(s % 3600, 60);
    vstd::arithmetic::div_mod::lemma_div_is_ordered(s % 3600, 3599, 60);
    vstd::arithmetic::div_mod::lemma_div_pos_is_pos(s % 3600, 60);
    assert(rem(s, 3600) == s % 3600);
}

/// Line `i` (from 0) of the leaderboard: `**N.** <@user> • Xh Ym`.
pub open spec fn leaderboard_line(i: int, r: VoiceTotal) -> Seq<char> {
    "**"@ + dec_int(i + 1) + ".** <@"@ + dec_int(r.user_id as int) + "> \u{2022} "@ + hm_text(
        r.total_seconds as int,
    ) + "\n"@
}

fn push_leaderboard_line(s: &mut String, i: usize, r: VoiceTotal)
    requires
        i < usize::MAX,
    ensures
        final(s)@ == old(s)@ + leaderboard_line(i as int, r),
{
    push_str(s, "**");
    push_u64(s, (i as u64) + 1);
    push_str(s, ".** <@");
    push_i64(s, r.user_id);
    push_str(s, "> \u{2022} ");
    push_hm(s, r.total_seconds);
    push_str(s, "\n");
    assert(s@ =~= old(s)@ + leaderboard_line(i as int, r));
}

/// The concatenated lines of the first `k` rows.
pub open spec fn leaderboard_lines(rows: Seq<VoiceTotal>, k: int) -> Seq<char>
    decreases k,
{
    if k <= 0 {
        Seq::empty()
    } else {
        leaderboard_lines(rows, k - 1) + leaderboard_line(k - 1, rows[k - 1])
    }
}

/// The leaderboard's text, or `None` when nobody has voice time.
pub fn leaderboard_description(rows: &Vec<VoiceTotal>) -> (s: Option<String>)
    ensures
        s is None <==> rows@.len() == 0,
        s matches Some(t) ==> t@ == leaderboard_lines(rows@, rows@.len() as int),
{
    let n = rows.len();
    if n == 0 {
        return None;
    }
    let mut s = String::new();
    let mut i: usize = 0;
    while i < n
        invariant
            n == rows@.len(),
            i <= n,
            s@ == leaderboard_lines(rows@, i as int),
        decreases n - i,
    {
        push_leaderboard_line(&mut s, i, rows[i]);
        assert(s@ =~= leaderboard_lines(rows@, i + 1));
        i = i + 1;
    }
    Some(s)
}

// ---------------------------------------------------------------------------
// Weekly report
// ---------------------------------------------------------------------------

/// The week number after a reset.
pub fn next_week(weeks_tracked: i64) -> (w: i64)
    requires
        weeks_tracked < i64::MAX,
    ensures
        w == weeks_tracked + 1,
{
    weeks_tracked + 1
}

/// Line `i` (from 0) of the weekly report, with a note on a new personal record.
pub open spec fn report_line(i: int, r: VoiceTotal) -> Seq<char> {
    dec_int(i + 1) + ". <@"@ + dec_int(r.user_id as int) + ">: "@ + hm_text(r.total_seconds as int)
        + if r.total_seconds > r.personal_record {
        "- New personal record!\n"@
    } else {
        "\n"@
    }
}

/// Whether `s` ends with `suffix`.
pub open spec fn ends_with(s: Seq<char>, suffix: Seq<char>) -> bool {
    s.len() >= suffix.len() && s.subrange(s.len() - suffix.len(), s.len() as int) == suffix
}

/// A line of the weekly report ends with `- New personal record!` exactly when
/// the week's total beats the stored record, whatever that record is (0 for a
/// user's first week included); otherwise it ends with the minutes.
pub proof fn lemma_report_line_marks_records(i: int, r: VoiceTotal)
    ensures
        ends_with(report_line(i, r), "- New personal record!\n"@) <==> r.total_seconds
            > r.personal_record,
        r.total_seconds <= r.personal_record ==> ends_with(report_line(i, r), "m\n"@),
{
    reveal_strlit("- New personal record!\n");
    reveal_strlit("\n");
    reveal_strlit("m");
    reveal_strlit("m\n");
    let head = dec_int(i + 1) + ". <@"@ + dec_int(r.user_id as int) + ">: "@ + hm_text(
        r.total_seconds as int,
    );
    let line = report_line(i, r);
    assert(head[head.len() - 1] == 'm');
    if r.total_seconds > r.personal_record {
        assert(line =~= head + "- New personal record!\n"@);
        assert(line.subrange(line.len() - 23, line.len() as int) =~= "- New personal record!\n"@);
    } else {
        assert(line =~= head + "\n"@);
        assert(line[line.len() - 2] == 'm');
        assert(line.subrange(line.len() - 2, line.len() as int) =~= "m\n"@);
        if line.len() >= 23 {
            assert(line.subrange(line.len() - 23, line.len() as int)[21] == 'm');
            assert("- New personal record!\n"@[21] == '!');
        }
    }
}

fn push_report_line(s: &mut String, i: usize, r: VoiceTotal)
    requires
        i < usize::MAX,
    ensures
        final(s)@ == old(s)@ + report_line(i as int, r),
{
    push_u64(s, (i as u64) + 1);
    push_str(s, ". <@");
    push_i64(s, r.user_id);
    push_str(s, ">: ");
    push_hm(s, r.total_seconds);
    if r.total_seconds > r.personal_record {
        push_str(s, "- New personal record!\n");
    } else {
        push_str(s, "\n");
    }
    assert(s@ =~= old(s)@ + report_line(i as int, r));
}

pub open spec fn report_lines(rows: Seq<VoiceTotal>, k: int) -> Seq<char>
    decreases k,
{
    if k <= 0 {
        Seq::empty()
    } else {
        report_lines(rows, k - 1) + report_line(k - 1, rows[k - 1])
    }
}

/// The weekly report posted before the totals are reset.
pub open spec fn weekly_report_text(week: int, rows: Seq<VoiceTotal>) -> Seq<char> {
    "**Weekly Voice Leaderboard (Week "@ + dec_int(week) + ")**\n"@ + if rows.len() == 0 {
        "No voice activity recorded this week."@
    } else {
        report_lines(rows, rows.len() as int)
    }
}

pub fn weekly_report(week: i64, rows: &Vec<VoiceTotal>) -> (s: String)
    ensures
        s@ == weekly_report_text(week as int, rows@),
{
    let mut s = String::new();
    push_str(&mut s, "**Weekly Voice Leaderboard (Week ");
    push_i64(&mut s, week);
    push_str(&mut s, ")**\n");
    let ghost head = s@;
    let n = rows.len();
    if n == 0 {
        push_str(&mut s, "No voice activity recorded this week.");
    } else {
        let mut i: usize = 0;
        while i < n
            invariant
                n == rows@.len(),
                i <= n,
                s@ == head + report_lines(rows@, i as int),
            decreases n - i,
        {
            push_report_line(&mut s, i, rows[i]);
            assert(s@ =~= head + report_lines(rows@, i + 1));
            i = i + 1;
        }
    }
    assert(s@ =~= weekly_report_text(week as int, rows@));
    s
}

// ---------------------------------------------------------------------------
// Resetting statistics by command
// ---------------------------------------------------------------------------

/// What a reset command asks to reset.
pub open spec fn reset_target_text(user: Option<u64>) -> Seq<char> {
    match user {
        Some(u) => "<@"@ + dec_nat(u as nat) + ">'s"@,
        None => "the entire server's"@,
    }
}

pub open spec fn reset_prompt_text(user: Option<u64>) -> Seq<char> {
    "Are you sure you want to reset "@ + reset_target_text(user) + " voice statistics?"@
}

pub fn reset_prompt(user: Option<u64>) -> (s: String)
    ensures
        s@ == reset_prompt_text(user),
{
    let mut s = String::new();
    push_str(&mut s, "Are you sure you want to reset ");
    match user {
        Some(u) => {
            push_str(&mut s, "<@");
            push_u64(&mut s, u);
            push_str(&mut s, ">'s");
        },
        None => push_str(&mut s, "the entire server's"),
    }
    push_str(&mut s, " voice statistics?");
    assert(s@ =~= reset_prompt_text(user));
    s
}

/// What the confirmation of a reset leads to.
#[derive(Debug, Clone, Copy, PartialEq, Eq, Structural)]
pub enum ResetAction {
    /// Nothing is reset.
    Keep,
    /// The user's total in this guild becomes 0.
    ResetUser(i64),
    /// Every total in this guild becomes 0.
    ResetGuild,
}

/// The answer to a reset prompt: the button clicked, or `None` on timeout.
pub open spec fn reset_decision(user: Option<u64>, answer: Option<Seq<char>>) -> (ResetAction, Seq<
    char,
>) {
    match answer {
        None => (ResetAction::Keep, "Reset cancelled (timeout)."@),
        Some(a) => if a == "confirm_reset"@ {
            match user {
                Some(u) => (
                    ResetAction::ResetUser(u as i64),
                    "Reset voice statistics for <@"@ + dec_int((u as i64) as int) + ">."@,
                ),
                None => (ResetAction::ResetGuild, "Reset all voice statistics for this server."@),
            }
        } else {
            (ResetAction::Keep, "Reset cancelled."@)
        },
    }
}

/// Confirming the reset of user `u` resets exactly that user, whose id the
/// reply names; any other answer, or none, resets nothing.
pub proof fn lemma_reset_targets_the_named_user(u: u64, answer: Option<Seq<char>>)
    ensures
        reset_decision(Some(u), answer).0 is ResetUser <==> answer == Some("confirm_reset"@),
        reset_decision(Some(u), answer).0 is Keep <==> answer != Some("confirm_reset"@),
        reset_decision(Some(u), answer).0 matches ResetAction::ResetUser(id) ==> {
            &&& u <= i64::MAX ==> id as int == u as int
            &&& id == u as i64
            &&& reset_decision(Some(u), answer).1 == "Reset voice statistics for <@"@ + dec_int(
                id as int,
            ) + ">."@
        },
{
}

pub fn reset_outcome(user: Option<u64>, answer: Option<&str>) -> (r: (ResetAction, String))
    ensures
        r.0 == reset_decision(
            user,
            match answer {
                Some(a) => Some(a@),
                None => None,
            },
        ).0,
        r.1@ == reset_decision(
            user,
            match answer {
                Some(a) => Some(a@),
                None => None,
            },
        ).1,
{
    let mut s = String::new();
    match answer {
        None => {
            push_str(&mut s, "Reset cancelled (timeout).");
            (ResetAction::Keep, s)
        },
        Some(a) => {
            if text_eq(a, "confirm_reset") {
                match user {
                    Some(u) => {
                        let uid = u as i64;
                        push_str(&mut s, "Reset voice statistics for <@");
                        push_i64(&mut s, uid);
                        push_str(&mut s, ">.");
                        assert(s@ =~= "Reset voice statistics for <@"@ + dec_int(uid as int)
                            + ">."@);
                        (ResetAction::ResetUser(uid), s)
                    },
                    None => {
                        push_str(&mut s, "Reset all voice statistics for this server.");
                        (ResetAction::ResetGuild, s)
                    },
                }
            } else {
                push_str(&mut s, "Reset cancelled.");
                (ResetAction::Keep, s)
            }
        },
    }
}

// ---------------------------------------------------------------------------
// Cancelling a session
// ---------------------------------------------------------------------------

/// The answer to "cancel this session?": the button clicked, or `None` on timeout.
pub open spec fn cancel_text(answer: Option<Seq<char>>) -> Seq<char> {
    match answer {
        None => "Didn't cancel (timeout)."@,
        Some(a) => if a == "confirm_cancel"@ {
            "Session cancelled!"@
        } else {
            "Didn't cancel."@
        },
    }
}

/// Cancels the user's session in this guild on confirmation: the session is
/// dropped without crediting any time.
pub fn cancel_session(sessions: &mut Sessions, user_id: u64, guild_id: u64, answer: Option<&str>) -> (s:
    String)
    ensures
        s@ == cancel_text(
            match answer {
                Some(a) => Some(a@),
                None => None,
            },
        ),
        (answer matches Some(a) && a@ == "confirm_cancel"@) ==> final(sessions)@ == old(
            sessions,
        )@.remove((user_id, guild_id)),
        !(answer matches Some(a) && a@ == "confirm_cancel"@) ==> final(sessions)@ == old(
            sessions,
        )@,
{
    let mut s = String::new();
    match answer {
        None => push_str(&mut s, "Didn't cancel (timeout)."),
        Some(a) => {
            if text_eq(a, "confirm_cancel") {
                sessions.remove(user_id, guild_id);
                push_str(&mut s, "Session cancelled!");
            } else {
                push_str(&mut s, "Didn't cancel.");
            }
        },
    }
    s
}

// ---------------------------------------------------------------------------
// Tracked channels and the changelog channel
// ---------------------------------------------------------------------------

/// Toggling a channel stops tracking it if it was tracked, else starts.
pub open spec fn tracking_text(was_tracked: bool, channel_id: int) -> Seq<char> {
    (if was_tracked {
        "Stopped"@
    } else {
        "Started"@
    }) + " tracking voice activity in <#"@ + dec_int(channel_id) + ">."@
}

pub fn tracking_reply(was_tracked: bool, channel_id: i64) -> (s: String)
    ensures
        s@ == tracking_text(was_tracked, channel_id as int),
{
    let mut s = String::new();
    if was_tracked {
        push_str(&mut s, "Stopped");
    } else {
        push_str(&mut s, "Started");
    }
    push_str(&mut s, " tracking voice activity in <#");
    push_i64(&mut s, channel_id);
    push_str(&mut s, ">.");
    assert(s@ =~= tracking_text(was_tracked, channel_id as int));
    s
}

pub open spec fn changelog_channel_text(channel_id: int) -> Seq<char> {
    "Update changelogs will now be broadcast to <#"@ + dec_int(channel_id) + ">."@
}

pub fn changelog_channel_reply(channel_id: i64) -> (s: String)
    ensures
        s@ == changelog_channel_text(channel_id as int),
{
    let mut s = String::new();
    push_str(&mut s, "Update changelogs will now be broadcast to <#");
    push_i64(&mut s, channel_id);
    push_str(&mut s, ">.");
    assert(s@ =~= changelog_channel_text(channel_id as int));
    s
}

// ---------------------------------------------------------------------------
// Adding a task
// ---------------------------------------------------------------------------

/// The number of tasks a user may keep before adding one trims the oldest.
pub const TASK_LIMIT: i64 = 100;

/// Whether adding a task must first ask to trim the oldest one.
pub fn at_task_limit(task_count: i64) -> (b: bool)
    ensures
        b == (task_count >= TASK_LIMIT),
{
    task_count >= TASK_LIMIT
}

pub open spec fn limit_prompt_text() -> Seq<char> {
    "You have reached the maximum of **"@ + dec_int(TASK_LIMIT as int)
        + "** tasks. Adding this"@ + " task will automatically delete your oldest task (prioritizing terminated, then completed, then pending)."@ + " Do you want to proceed?"@
}

pub fn limit_prompt() -> (s: String)
    ensures
        s@ == limit_prompt_text(),
{
    let mut s = String::new();
    push_str(&mut s, "You have reached the maximum of **");
    push_i64(&mut s, TASK_LIMIT);
    push_str(&mut s, "** tasks. Adding this");
    push_str(
        &mut s,
        " task will automatically delete your oldest task (prioritizing terminated, then completed, then pending).",
    );
    push_str(&mut s, " Do you want to proceed?");
    assert(s@ =~= limit_prompt_text());
    s
}

/// What the answer to the trim prompt leads to.
#[derive(Debug, Clone, Copy, PartialEq, Eq, Structural)]
pub enum TrimDecision {
    /// Cancel: no task is added.
    Cancel,
    /// Delete the oldest task, then add the new one.
    TrimAndAdd,
    /// No answer in time: no task is added.
    TimedOut,
}

/// Only the cancel button cancels; any other click trims and adds.
pub open spec fn trim_decision(answer: Option<Seq<char>>) -> TrimDecision {
    match answer {
        None => TrimDecision::TimedOut,
        Some(a) => if a == "cancel_trim"@ {
            TrimDecision::Cancel
        } else {
            TrimDecision::TrimAndAdd
        },
    }
}

pub fn decide_trim(answer: Option<&str>) -> (d: TrimDecision)
    ensures
        d == trim_decision(
            match answer {
                Some(a) => Some(a@),
                None => None,
            },
        ),
{
    match answer {
        None => TrimDecision::TimedOut,
        Some(a) => if text_eq(a, "cancel_trim") {
            TrimDecision::Cancel
        } else {
            TrimDecision::TrimAndAdd
        },
    }
}

/// The message that ends the trim prompt.
pub open spec fn trim_text(d: TrimDecision, description: Seq<char>) -> Seq<char> {
    match d {
        TrimDecision::Cancel => "Task creation cancelled."@,
        TrimDecision::TrimAndAdd => "Task added: **"@ + description + "** (Oldest task was trimmed)"@,
        TrimDecision::TimedOut => "Task creation timed out."@,
    }
}

pub fn trim_message(d: TrimDecision, description: &str) -> (s: String)
    ensures
        s@ == trim_text(d, description@),
{
    let mut s = String::new();
    match d {
        TrimDecision::Cancel => push_str(&mut s, "Task creation cancelled."),
        TrimDecision::TrimAndAdd => {
            push_str(&mut s, "Task added: **");
            push_str(&mut s, description);
            push_str(&mut s, "** (Oldest task was trimmed)");
        },
        TrimDecision::TimedOut => push_str(&mut s, "Task creation timed out."),
    }
    assert(s@ =~= trim_text(d, description@));
    s
}

/// `<prefix>**<description>**`: the confirmations of an added task.
pub open spec fn bold_task_text(prefix: Seq<char>, description: Seq<char>) -> Seq<char> {
    prefix + "**"@ + description + "**"@
}

/// `Task added: **..**`, sent when no trim was needed.
pub fn task_added_message(description: &str) -> (s: String)
    ensures
        s@ == bold_task_text("Task added: "@, description@),
{
    let mut s = String::new();
    push_str(&mut s, "Task added: ");
    push_str(&mut s, "**");
    push_str(&mut s, description);
    push_str(&mut s, "**");
    assert(s@ =~= bold_task_text("Task added: "@, description@));
    s
}

/// `Added task: **..**`, sent once the task is stored.
pub fn task_stored_message(description: &str) -> (s: String)
    ensures
        s@ == bold_task_text("Added task: "@, description@),
{
    let mut s = String::new();
    push_str(&mut s, "Added task: ");
    push_str(&mut s, "**");
    push_str(&mut s, description);
    push_str(&mut s, "**");
    assert(s@ =~= bold_task_text("Added task: "@, description@));
    s
}

} // verus!
