use discord_vc_statsmaster::sessions::{PendingTask, SessionData, Sessions, VoiceCredit};

fn pending(id: i64, desc: &str, last: bool) -> PendingTask {
    PendingTask { task_id: id, description: desc.to_string(), is_last_selected: last }
}

#[test]
fn joining_starts_a_session_with_the_last_selected_task() {
    let mut s = Sessions::new();
    let tasks = vec![pending(3, "Math", false), pending(4, "Physics", true)];
    let prompt = s.open_session(10, 20, 1000, &tasks).unwrap();
    assert_eq!(prompt.content, "<@10> Currently working on.. Physics. Change status?");
    assert_eq!(prompt.menu_id, "task_select_10");
    assert_eq!(prompt.options.len(), 3);
    assert_eq!(prompt.options[0].label, "Nothing in particular");
    assert_eq!(prompt.options[0].value, "none");
    assert!(!prompt.options[0].default_selected);
    assert_eq!(prompt.options[2].value, "4");
    assert!(prompt.options[2].default_selected);
    assert_eq!(s.get(10, 20), Some(SessionData { start_time: 1000, active_task_id: Some(4) }));
}

#[test]
fn joining_again_keeps_the_session() {
    let mut s = Sessions::new();
    assert!(s.open_session(1, 2, 100, &Vec::new()).is_some());
    assert!(s.open_session(1, 2, 500, &Vec::new()).is_none());
    assert_eq!(s.get(1, 2), Some(SessionData { start_time: 100, active_task_id: None }));
}

#[test]
fn prompt_without_tasks_defaults_to_nothing() {
    let mut s = Sessions::new();
    let p = s.open_session(7, 8, 1, &Vec::new()).unwrap();
    assert_eq!(p.content, "<@7> Currently working on.. Nothing in particular. Change status?");
    assert_eq!(p.options.len(), 1);
    assert!(p.options[0].default_selected);
}

#[test]
fn prompt_offers_at_most_25_options() {
    let mut s = Sessions::new();
    let tasks: Vec<PendingTask> = (0..40).map(|i| pending(i, "t", false)).collect();
    let p = s.open_session(1, 1, 1, &tasks).unwrap();
    assert_eq!(p.options.len(), 25);
    assert_eq!(p.options[24].value, "23");
}

#[test]
fn leaving_credits_the_duration() {
    let mut s = Sessions::new();
    s.open_session(5, 6, 1000, &vec![pending(9, "Essay", true)]);
    let c = s.finish(5, 6, 1600);
    assert_eq!(c, Some(VoiceCredit { user_id: 5, guild_id: 6, seconds: 600, task_id: Some(9) }));
    assert!(!s.contains(5, 6));
    assert_eq!(s.finish(5, 6, 2000), None);
}

#[test]
fn zero_length_session_credits_nothing() {
    let mut s = Sessions::new();
    s.open_session(5, 6, 1000, &Vec::new());
    assert_eq!(s.finish(5, 6, 1000), None);
    assert!(!s.contains(5, 6));
}

#[test]
fn switching_tasks_splits_the_time() {
    let mut s = Sessions::new();
    s.open_session(1, 2, 100, &vec![pending(3, "A", true)]);
    let first = s.switch_task(1, 2, 400, Some(8)).unwrap();
    assert_eq!(first, VoiceCredit { user_id: 1, guild_id: 2, seconds: 300, task_id: Some(3) });
    let second = s.finish(1, 2, 1000).unwrap();
    assert_eq!(second, VoiceCredit { user_id: 1, guild_id: 2, seconds: 600, task_id: Some(8) });
    assert_eq!(first.seconds + second.seconds, 900);
}

#[test]
fn switching_without_session_does_nothing() {
    let mut s = Sessions::new();
    assert_eq!(s.switch_task(1, 2, 400, None), None);
    assert!(!s.contains(1, 2));
}

#[test]
fn sessions_are_per_user_and_guild() {
    let mut s = Sessions::new();
    s.open_session(1, 1, 10, &Vec::new());
    s.open_session(1, 2, 20, &Vec::new());
    s.open_session(2, 1, 30, &Vec::new());
    assert_eq!(s.remove(1, 2), Some(SessionData { start_time: 20, active_task_id: None }));
    assert!(s.contains(1, 1));
    assert!(s.contains(2, 1));
    assert!(!s.contains(1, 2));
    assert_eq!(s.get(2, 1).unwrap().start_time, 30);
}

#[test]
fn many_switches_credit_the_whole_time() {
    let mut s = Sessions::new();
    assert!(s.open_session(5, 6, 1000, &vec![pending(1, "Read", true)]).is_some());
    let mut credits: Vec<VoiceCredit> = Vec::new();
    credits.extend(s.switch_task(5, 6, 1100, Some(2)));
    credits.extend(s.switch_task(5, 6, 1100, None));
    credits.extend(s.switch_task(5, 6, 1250, Some(3)));
    credits.extend(s.finish(5, 6, 1400));
    let seconds: Vec<(i64, Option<i64>)> = credits.iter().map(|c| (c.seconds, c.task_id)).collect();
    assert_eq!(seconds, vec![(100, Some(1)), (150, None), (150, Some(3))]);
    assert_eq!(credits.iter().map(|c| c.seconds).sum::<i64>(), 400);
    assert!(!s.contains(5, 6));
}

#[test]
fn sessions_of_other_users_and_guilds_are_kept_apart() {
    let mut s = Sessions::new();
    assert!(s.start(1, 2, SessionData { start_time: 10, active_task_id: None }));
    assert!(s.start(2, 1, SessionData { start_time: 20, active_task_id: Some(9) }));
    assert!(s.start(u64::MAX, u64::MAX, SessionData { start_time: 30, active_task_id: None }));
    assert!(!s.start(1, 2, SessionData { start_time: 40, active_task_id: None }));
    assert_eq!(s.remove(2, 1), Some(SessionData { start_time: 20, active_task_id: Some(9) }));
    assert_eq!(s.get(1, 2), Some(SessionData { start_time: 10, active_task_id: None }));
    assert_eq!(s.get(u64::MAX, u64::MAX), Some(SessionData { start_time: 30, active_task_id: None }));
    assert!(!s.contains(2, 1));
}
