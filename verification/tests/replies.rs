use discord_vc_statsmaster::replies::{
    at_task_limit, cancel_session, changelog_channel_reply, decide_trim, leaderboard_description,
    leaderboard_limit, leaderboard_title, limit_prompt, next_week, reset_outcome, reset_prompt,
    task_added_message, task_stored_message, tracking_reply, trim_message, weekly_report,
    ResetAction, TrimDecision, VoiceTotal, TASK_LIMIT,
};
use discord_vc_statsmaster::sessions::Sessions;

#[test]
fn leaderboard_size_is_clamped() {
    assert_eq!(leaderboard_limit(None), 5);
    assert_eq!(leaderboard_limit(Some(0)), 1);
    assert_eq!(leaderboard_limit(Some(-7)), 1);
    assert_eq!(leaderboard_limit(Some(20)), 20);
    assert_eq!(leaderboard_limit(Some(500)), 50);
    assert_eq!(leaderboard_title(5), "Top 5 Users in Voice Activity");
}

#[test]
fn leaderboard_lines() {
    let rows = vec![
        VoiceTotal { user_id: 11, total_seconds: 7500, personal_record: 0 },
        VoiceTotal { user_id: 22, total_seconds: 59, personal_record: 0 },
    ];
    assert_eq!(
        leaderboard_description(&rows).unwrap(),
        "**1.** <@11> \u{2022} 2h 5m\n**2.** <@22> \u{2022} 0h 0m\n"
    );
    assert!(leaderboard_description(&Vec::new()).is_none());
}

#[test]
fn weekly_report_marks_new_records() {
    let rows = vec![
        VoiceTotal { user_id: 1, total_seconds: 36000, personal_record: 3600 },
        VoiceTotal { user_id: 2, total_seconds: 3660, personal_record: 3660 },
    ];
    assert_eq!(
        weekly_report(4, &rows),
        "**Weekly Voice Leaderboard (Week 4)**\n1. <@1>: 10h 0m- New personal record!\n2. <@2>: 1h 1m\n"
    );
    assert_eq!(
        weekly_report(1, &Vec::new()),
        "**Weekly Voice Leaderboard (Week 1)**\nNo voice activity recorded this week."
    );
    assert_eq!(next_week(0), 1);
}

#[test]
fn reset_prompts_and_outcomes() {
    assert_eq!(reset_prompt(Some(42)), "Are you sure you want to reset <@42>'s voice statistics?");
    assert_eq!(reset_prompt(None), "Are you sure you want to reset the entire server's voice statistics?");
    let (a, m) = reset_outcome(Some(42), Some("confirm_reset"));
    assert_eq!(a, ResetAction::ResetUser(42));
    assert_eq!(m, "Reset voice statistics for <@42>.");
    let (a, m) = reset_outcome(None, Some("confirm_reset"));
    assert_eq!(a, ResetAction::ResetGuild);
    assert_eq!(m, "Reset all voice statistics for this server.");
    let (a, m) = reset_outcome(None, Some("cancel_reset"));
    assert_eq!(a, ResetAction::Keep);
    assert_eq!(m, "Reset cancelled.");
    let (a, m) = reset_outcome(Some(1), None);
    assert_eq!(a, ResetAction::Keep);
    assert_eq!(m, "Reset cancelled (timeout).");
}

#[test]
fn cancelling_a_session() {
    let mut s = Sessions::new();
    s.open_session(1, 2, 10, &Vec::new());
    assert_eq!(cancel_session(&mut s, 1, 2, Some("cancel_cancel")), "Didn't cancel.");
    assert!(s.contains(1, 2));
    assert_eq!(cancel_session(&mut s, 1, 2, None), "Didn't cancel (timeout).");
    assert!(s.contains(1, 2));
    assert_eq!(cancel_session(&mut s, 1, 2, Some("confirm_cancel")), "Session cancelled!");
    assert!(!s.contains(1, 2));
    // A cancelled session credits nothing when the user leaves.
    assert_eq!(s.finish(1, 2, 5000), None);
}

#[test]
fn tracking_and_changelog_channel() {
    assert_eq!(tracking_reply(true, 77), "Stopped tracking voice activity in <#77>.");
    assert_eq!(tracking_reply(false, 77), "Started tracking voice activity in <#77>.");
    assert_eq!(changelog_channel_reply(9), "Update changelogs will now be broadcast to <#9>.");
}

#[test]
fn task_limit_and_trimming() {
    assert_eq!(TASK_LIMIT, 100);
    assert!(!at_task_limit(99));
    assert!(at_task_limit(100));
    assert!(at_task_limit(150));
    assert!(limit_prompt().starts_with("You have reached the maximum of **100** tasks."));
    assert_eq!(decide_trim(Some("cancel_trim")), TrimDecision::Cancel);
    assert_eq!(decide_trim(Some("confirm_trim")), TrimDecision::TrimAndAdd);
    assert_eq!(decide_trim(None), TrimDecision::TimedOut);
    assert_eq!(trim_message(TrimDecision::Cancel, "x"), "Task creation cancelled.");
    assert_eq!(trim_message(TrimDecision::TrimAndAdd, "Essay"), "Task added: **Essay** (Oldest task was trimmed)");
    assert_eq!(trim_message(TrimDecision::TimedOut, "x"), "Task creation timed out.");
    assert_eq!(task_added_message("Essay"), "Task added: **Essay**");
    assert_eq!(task_stored_message("Essay"), "Added task: **Essay**");
}
