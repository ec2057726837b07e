use discord_vc_statsmaster::deadline::{
    clears_deadline, deadline_from_now, deadline_is_defined, deadline_stamp, edit_reply, parse_task_selection,
    read_deadline_kind, resolve_deadline, resolve_deadline_edit, DeadlineError, DeadlineKind,
};

const NOW: i64 = 1715380215; // 2024-05-10 22:30:15 UTC

#[test]
fn relative_deadlines() {
    assert_eq!(resolve_deadline("in 24 hours", 0, NOW), Ok(NOW + 86400));
    assert_eq!(resolve_deadline("In 7 Days", 5, NOW), Ok(NOW + 604800));
    assert_eq!(resolve_deadline("IN 24 HOURS", -3, NOW), Ok(NOW + 86400));
}

#[test]
fn today_deadline_uses_local_day() {
    // At UTC+3 it is already 2024-05-11 01:30 locally; 08:15 that day is 05:15 UTC.
    assert_eq!(resolve_deadline("today 08:15", 3, NOW), Ok(1715404500));
    assert_eq!(resolve_deadline("TODAY   08:15  ", 3, NOW), Ok(1715404500));
    // At UTC it is still 2024-05-10; 08:15 that day is in the past.
    assert_eq!(resolve_deadline("today 08:15", 0, NOW), Ok(1715328900));
}

#[test]
fn today_with_bad_time_is_refused() {
    assert_eq!(resolve_deadline("today 25:00", 0, NOW), Err(DeadlineError::BadTodayTime));
    assert_eq!(resolve_deadline("today noon", 0, NOW), Err(DeadlineError::BadTodayTime));
    assert_eq!(
        DeadlineError::BadTodayTime.add_task_message(),
        "Invalid time format. Use `today HH:MM` (e.g., `today 15:30`)."
    );
}

#[test]
fn dated_deadline_is_moved_to_utc() {
    // 31/12/2026 23:59 at UTC+2 is 21:59 UTC.
    assert_eq!(resolve_deadline("31/12/2026 23:59", 2, NOW), Ok(1798761540 - 7200));
    assert_eq!(resolve_deadline("01/03/2024 12:00", -5, NOW), Ok(1709294400 + 5 * 3600));
}

#[test]
fn dated_deadline_reads_back_on_user_clock() {
    for off in [-12i64, -1, 0, 7, 14] {
        let t = resolve_deadline("01/03/2024 12:00", off, NOW).unwrap();
        assert_eq!(t + 3600 * off, 1709294400);
    }
}

#[test]
fn unreadable_deadline_is_refused() {
    assert_eq!(resolve_deadline("next week", 0, NOW), Err(DeadlineError::BadFormat));
    assert_eq!(resolve_deadline("2026-12-31 23:59", 0, NOW), Err(DeadlineError::BadFormat));
    assert_eq!(
        DeadlineError::BadFormat.add_task_message(),
        "Invalid deadline format. Use `DD/MM/YYYY HH:MM`, `today HH:MM`, `in 24 hours`, or `in 7 days`."
    );
}

#[test]
fn out_of_range_offset_is_reported() {
    assert_eq!(resolve_deadline("in 24 hours", 3_000_000_000_000, NOW), Err(DeadlineError::OutOfRange));
}

#[test]
fn kinds_read_from_text() {
    assert!(matches!(read_deadline_kind("in 24 hours"), DeadlineKind::In24Hours));
    assert!(matches!(read_deadline_kind("in 7 days"), DeadlineKind::In7Days));
    assert!(matches!(read_deadline_kind("today 7:05"), DeadlineKind::Today(Some((7, 5)))));
    assert!(matches!(read_deadline_kind("in 3 days"), DeadlineKind::Dated(None)));
}

#[test]
fn stamp_from_kind() {
    assert!(deadline_is_defined(DeadlineKind::Today(Some((0, 0))), 0, NOW));
    assert_eq!(deadline_stamp(DeadlineKind::Today(Some((0, 0))), 0, NOW), Ok(1715299200));
    assert_eq!(deadline_stamp(DeadlineKind::Dated(Some(1000)), 1, NOW), Ok(1000 - 3600));
    assert_eq!(deadline_stamp(DeadlineKind::Dated(None), 1, NOW), Err(DeadlineError::BadFormat));
    assert!(!deadline_is_defined(DeadlineKind::Dated(Some(-8334601315200)), 1, NOW));
}

#[test]
fn deadline_from_now_is_in_the_future() {
    let t = deadline_from_now("in 7 days", 0).unwrap().unwrap();
    assert!(t > 1_700_000_000);
}

#[test]
fn editing_deadlines() {
    assert_eq!(resolve_deadline_edit("clear", 3), Ok(None));
    assert_eq!(resolve_deadline_edit("CLEAR", 3), Ok(None));
    assert_eq!(resolve_deadline_edit("01/03/2024 12:00", 1), Ok(Some(1709294400 - 3600)));
    assert_eq!(resolve_deadline_edit("tomorrow", 1), Err(DeadlineError::BadFormat));
    assert_eq!(
        DeadlineError::BadFormat.edit_message(),
        "Invalid deadline format. Use `DD/MM/YYYY HH:MM` (e.g., `31/12/2026 23:59`) or type `clear`."
    );
}

#[test]
fn task_selection_is_read_before_the_dash() {
    assert_eq!(parse_task_selection("42 - Write report"), Some(42));
    assert_eq!(parse_task_selection("7"), Some(7));
    assert_eq!(parse_task_selection("-3 - negative"), Some(-3));
    assert_eq!(parse_task_selection("Write report"), None);
    assert_eq!(parse_task_selection(""), None);
}

#[test]
fn edit_replies() {
    assert_eq!(edit_reply(0, Some(5), "x"), "Task not found or you do not have permission to edit it.");
    assert_eq!(edit_reply(1, Some(5), "31/12/2026 23:59"), "Task deadline updated to **31/12/2026 23:59**.");
    assert_eq!(edit_reply(1, None, "clear"), "Task deadline has been cleared.");
}

#[test]
fn clear_is_recognised_in_any_case() {
    assert!(clears_deadline("clear"));
    assert!(clears_deadline("ClEaR"));
    assert!(!clears_deadline(" clear"));
    assert!(!clears_deadline("01/03/2024 12:00"));
}
