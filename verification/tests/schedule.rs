use discord_vc_statsmaster::schedule::{
    check_offset, current_slot, schedule_confirmation, slot_of_instant, timezone_confirmation,
    to_utc_schedule, ResetSlot, ScheduleError,
};
use discord_vc_statsmaster::weekday::WeekdayChoice;

#[test]
fn weekday_numbers_count_from_monday() {
    assert_eq!(WeekdayChoice::Monday.to_chrono_num(), 0);
    assert_eq!(WeekdayChoice::Thursday.to_chrono_num(), 3);
    assert_eq!(WeekdayChoice::Sunday.to_chrono_num(), 6);
    assert_eq!(WeekdayChoice::Wednesday.name(), "Wednesday");
}

#[test]
fn schedule_without_wrap_moves_only_the_hour() {
    let s = to_utc_schedule(WeekdayChoice::Friday, 18, 30, 2).unwrap();
    assert_eq!(s, ResetSlot { day: 4, hour: 16, minute: 30 });
}

#[test]
fn schedule_wraps_back_to_previous_day() {
    // Monday 01:00 at UTC+2 is Sunday 23:00 UTC.
    let s = to_utc_schedule(WeekdayChoice::Monday, 1, 0, 2).unwrap();
    assert_eq!(s, ResetSlot { day: 6, hour: 23, minute: 0 });
}

#[test]
fn schedule_wraps_forward_to_next_day() {
    // Sunday 22:15 at UTC-5 is Monday 03:15 UTC.
    let s = to_utc_schedule(WeekdayChoice::Sunday, 22, 15, -5).unwrap();
    assert_eq!(s, ResetSlot { day: 0, hour: 3, minute: 15 });
}

#[test]
fn schedule_refuses_bad_time_before_bad_offset() {
    assert_eq!(to_utc_schedule(WeekdayChoice::Monday, 24, 0, 0), Err(ScheduleError::InvalidTime));
    assert_eq!(to_utc_schedule(WeekdayChoice::Monday, 3, 60, 99), Err(ScheduleError::InvalidTime));
    assert_eq!(to_utc_schedule(WeekdayChoice::Monday, -1, 0, 0), Err(ScheduleError::InvalidTime));
    assert_eq!(to_utc_schedule(WeekdayChoice::Monday, 3, 0, 15), Err(ScheduleError::InvalidOffset));
    assert_eq!(to_utc_schedule(WeekdayChoice::Monday, 3, 0, -13), Err(ScheduleError::InvalidOffset));
    assert!(to_utc_schedule(WeekdayChoice::Monday, 3, 0, 14).is_ok());
    assert!(to_utc_schedule(WeekdayChoice::Monday, 3, 0, -12).is_ok());
}

#[test]
fn schedule_error_messages() {
    assert_eq!(
        ScheduleError::InvalidTime.message(),
        "Invalid time constraint. Hour must be 0-23 and minute 0-59."
    );
    assert_eq!(ScheduleError::InvalidOffset.message(), "Invalid UTC offset. Must be between -12 and 14.");
}

#[test]
fn offset_check_bounds() {
    assert!(check_offset(-12).is_ok());
    assert!(check_offset(14).is_ok());
    assert_eq!(check_offset(15), Err(ScheduleError::InvalidOffset));
    assert_eq!(check_offset(-13), Err(ScheduleError::InvalidOffset));
}

#[test]
fn confirmations_are_formatted() {
    assert_eq!(
        schedule_confirmation(WeekdayChoice::Sunday, 9, 5, -3),
        "Schedule configured. Leaderboard will reset locally every Sunday at 09:05 (UTC Offset: -3)."
    );
    assert_eq!(
        schedule_confirmation(WeekdayChoice::Tuesday, 18, 45, 2),
        "Schedule configured. Leaderboard will reset locally every Tuesday at 18:45 (UTC Offset: 2)."
    );
    assert_eq!(timezone_confirmation(2), "Your personal timezone offset has been set to UTC+2.");
    assert_eq!(timezone_confirmation(0), "Your personal timezone offset has been set to UTC+0.");
    assert_eq!(timezone_confirmation(-5), "Your personal timezone offset has been set to UTC-5.");
}

#[test]
fn slot_of_known_instants() {
    // 1970-01-01 00:00 UTC was a Thursday.
    assert_eq!(slot_of_instant(0), ResetSlot { day: 3, hour: 0, minute: 0 });
    // 2024-05-10 22:30:15 UTC was a Friday.
    assert_eq!(slot_of_instant(1715380215), ResetSlot { day: 4, hour: 22, minute: 30 });
    // One second before the epoch: Wednesday 23:59.
    assert_eq!(slot_of_instant(-1), ResetSlot { day: 2, hour: 23, minute: 59 });
    assert_eq!(slot_of_instant(i64::MIN).hour >= 0, true);
    assert_eq!(slot_of_instant(i64::MAX).minute < 60, true);
}

#[test]
fn reset_fires_at_local_time() {
    // Configured Saturday 10:00 at UTC+2; the stored slot is Saturday 08:00 UTC.
    let slot = to_utc_schedule(WeekdayChoice::Saturday, 10, 0, 2).unwrap();
    // 2024-05-11 08:00:30 UTC is Saturday 10:00:30 at UTC+2.
    let t = 1715414430;
    assert_eq!(slot_of_instant(t), slot);
    assert_eq!(slot_of_instant(t + 2 * 3600), ResetSlot { day: 5, hour: 10, minute: 0 });
    // A minute later it no longer fires.
    assert_ne!(slot_of_instant(t + 60), slot);
}

#[test]
fn slot_recurs_weekly() {
    for t in [0i64, 1715380215, -86399, 123456789] {
        assert_eq!(slot_of_instant(t), slot_of_instant(t + 604800));
    }
}

#[test]
fn current_slot_is_a_valid_slot() {
    let s = current_slot().unwrap();
    assert!((0..7).contains(&s.day));
    assert!((0..24).contains(&s.hour));
    assert!((0..60).contains(&s.minute));
}
