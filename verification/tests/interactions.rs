use discord_vc_statsmaster::sessions::Sessions;
use discord_vc_statsmaster::todo::{delete_menu, todo_button, TodoTask};
use discord_vc_statsmaster::interactions::click_is_valid;
use discord_vc_statsmaster::interactions::{
    classify_click, deleted_message, task_chosen_message, ComponentAction,
};

fn vals(v: &[&str]) -> Vec<String> {
    v.iter().map(|s| s.to_string()).collect()
}

#[test]
fn outside_a_guild_clicks_are_ignored() {
    assert!(matches!(classify_click(false, "task_select_5", 5, Some(&vals(&["none"]))), ComponentAction::Ignore));
}

#[test]
fn own_prompt_selects_a_task() {
    assert!(matches!(
        classify_click(true, "task_select_5", 5, Some(&vals(&["17"]))),
        ComponentAction::SelectTask(Some(17))
    ));
    assert!(matches!(
        classify_click(true, "task_select_5", 5, Some(&vals(&["none"]))),
        ComponentAction::SelectTask(None)
    ));
    assert!(matches!(classify_click(true, "task_select_5", 5, None), ComponentAction::Ignore));
}

#[test]
fn someone_elses_prompt_is_rejected() {
    let a = classify_click(true, "task_select_5", 6, Some(&vals(&["none"])));
    assert!(matches!(a, ComponentAction::RejectSelect));
    assert_eq!(a.rejection_message(), "Nuh huh, can't touch it!");
}

#[test]
fn prefix_is_removed_wherever_it_occurs() {
    // `replace` removes every occurrence of the prefix.
    assert!(matches!(
        classify_click(true, "task_select_task_select_5", 5, Some(&vals(&["none"]))),
        ComponentAction::SelectTask(None)
    ));
}

#[test]
fn toggle_buttons() {
    assert!(matches!(classify_click(true, "task_toggle_12_99", 99, None), ComponentAction::ToggleTask(12)));
    let a = classify_click(true, "task_toggle_12_99", 98, None);
    assert!(matches!(a, ComponentAction::RejectToggle));
    assert_eq!(a.rejection_message(), "You cannot modify another user's todo list.");
    assert!(matches!(classify_click(true, "task_toggle_12_99_1", 99, None), ComponentAction::Ignore));
}

#[test]
fn delete_menus() {
    match classify_click(true, "task_delete_3", 3, Some(&vals(&["4", "8", "-1"]))) {
        ComponentAction::DeleteTasks(ids) => assert_eq!(ids, vec![4, 8, -1]),
        _ => panic!("expected a deletion"),
    }
    let a = classify_click(true, "task_delete_3", 4, Some(&vals(&["4"])));
    assert!(matches!(a, ComponentAction::RejectDelete));
    assert_eq!(a.rejection_message(), "Nope, not gonna happen...");
    assert!(matches!(classify_click(true, "confirm_reset", 3, None), ComponentAction::Ignore));
}

#[test]
fn confirmations() {
    assert_eq!(task_chosen_message(5, Some("Essay")), "<@5> Active task updated to: **Essay**.");
    assert_eq!(task_chosen_message(5, None), "<@5> Active task updated to: **Nothing in particular**.");
    assert_eq!(deleted_message(3), "Successfully deleted 3 task(s).");
}

#[test]
fn malformed_clicks_are_detected() {
    assert!(click_is_valid("task_select_5", 5, Some(&vals(&["none"]))));
    assert!(!click_is_valid("task_select_5", 5, Some(&vals(&[]))));
    assert!(!click_is_valid("task_select_5", 5, Some(&vals(&["abc"]))));
    // Another user's prompt is rejected before its values are read.
    assert!(click_is_valid("task_select_5", 6, Some(&vals(&[]))));
    assert!(!click_is_valid("task_toggle_x_5", 5, None));
    assert!(click_is_valid("task_toggle_x_5_1", 5, None));
    assert!(!click_is_valid("task_delete_5", 5, Some(&vals(&["1", "two"]))));
    assert!(click_is_valid("unrelated", 5, None));
}

#[test]
fn generated_ids_answer_their_owner_only() {
    let t = TodoTask {
        task_id: -12,
        description: "x".to_string(),
        completed: false,
        terminated: false,
        time_spent_seconds: 0,
        deadline: None,
    };
    let b = todo_button(&t, 77, 0, 0);
    assert!(matches!(classify_click(true, &b.custom_id, 77, None), ComponentAction::ToggleTask(-12)));
    assert!(matches!(classify_click(true, &b.custom_id, 78, None), ComponentAction::RejectToggle));

    let mut s = Sessions::new();
    let p = s.open_session(77, 1, 5, &Vec::new()).unwrap();
    assert!(matches!(
        classify_click(true, &p.menu_id, 77, Some(&vals(&["none"]))),
        ComponentAction::SelectTask(None)
    ));
    assert!(matches!(classify_click(true, &p.menu_id, 7, Some(&vals(&["none"]))), ComponentAction::RejectSelect));

    let m = delete_menu(&vec![t], 77).unwrap();
    assert!(matches!(classify_click(true, &m.custom_id, 77, Some(&vals(&["-12"]))), ComponentAction::DeleteTasks(_)));
    assert!(matches!(classify_click(true, &m.custom_id, 770, Some(&vals(&["-12"]))), ComponentAction::RejectDelete));
}
