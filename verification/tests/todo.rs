use discord_vc_statsmaster::todo::{
    can_render, choice_labels, contains_pattern, delete_menu, todo_button, todo_rows,
    todo_rows_now, ButtonStyle, TaskChoice, TodoTask,
};

fn task(id: i64, desc: &str, completed: bool, terminated: bool, spent: i64, deadline: Option<i64>) -> TodoTask {
    TodoTask {
        task_id: id,
        description: desc.to_string(),
        completed,
        terminated,
        time_spent_seconds: spent,
        deadline,
    }
}

const NOW: i64 = 1_000_000;

#[test]
fn pending_task_button() {
    let b = todo_button(&task(12, "Read chapter 3", false, false, 5400, None), 99, NOW, 0);
    assert_eq!(b.custom_id, "task_toggle_12_99");
    assert_eq!(b.label, "[ ] Read chapter 3(1h 30m)");
    assert_eq!(b.style, ButtonStyle::Secondary);
    assert!(!b.disabled);
}

#[test]
fn completed_and_terminated_buttons() {
    let c = todo_button(&task(1, "Done", true, false, 59, None), 5, NOW, 0);
    assert_eq!(c.label, "[x] Done(0h 0m)");
    assert_eq!(c.style, ButtonStyle::Success);
    let t = todo_button(&task(2, "Dropped", true, true, 3600, None), 5, NOW, 0);
    assert_eq!(t.label, "[-] Dropped(1h 0m)");
    assert_eq!(t.style, ButtonStyle::Danger);
    assert!(t.disabled);
}

#[test]
fn time_left_badges() {
    let label = |dl: i64, ns: u32| todo_button(&task(1, "T", false, false, 0, Some(dl)), 1, NOW, ns).label;
    assert_eq!(label(NOW - 1, 0), "[ ] T [Overdue](0h 0m)");
    assert_eq!(label(NOW + 3 * 86400 + 5, 0), "[ ] T [3d left](0h 0m)");
    assert_eq!(label(NOW + 5 * 3600, 0), "[ ] T [5h left](0h 0m)");
    assert_eq!(label(NOW + 60, 0), "[ ] T [1m left](0h 0m)");
    // With a fraction of a second elapsed, one minute is no longer whole.
    assert_eq!(label(NOW + 60, 500_000_000), "[ ] T [<1m left](0h 0m)");
    assert_eq!(label(NOW, 500_000_000), "[ ] T [<1m left](0h 0m)");
    assert_eq!(label(NOW + 86400, 1), "[ ] T [23h left](0h 0m)");
}

#[test]
fn long_description_is_shortened_to_fit() {
    let desc = "a".repeat(100);
    let b = todo_button(&task(3, &desc, false, false, 0, None), 1, NOW, 0);
    // 80 - 3 ("[ ]") - 7 ("(0h 0m)") - 0 - 3 = 67 bytes allowed; cut at 64.
    assert_eq!(b.label, format!("[ ] {}...(0h 0m)", "a".repeat(64)));
    let fits = "b".repeat(67);
    let b2 = todo_button(&task(3, &fits, false, false, 0, None), 1, NOW, 0);
    assert_eq!(b2.label, format!("[ ] {}(0h 0m)", fits));
}

#[test]
fn cut_inside_a_character_cannot_render() {
    let desc = format!("{}é{}", "a".repeat(63), "a".repeat(40));
    let t = task(3, &desc, false, false, 0, None);
    assert!(!can_render(&t, NOW, 0));
    let ok = task(3, &"a".repeat(100), false, false, 0, None);
    assert!(can_render(&ok, NOW, 0));
}

#[test]
fn rows_hold_five_buttons() {
    let tasks: Vec<TodoTask> = (0..12).map(|i| task(i, "x", false, false, 0, None)).collect();
    let rows = todo_rows(&tasks, 7, NOW, 0);
    assert_eq!(rows.len(), 3);
    assert_eq!(rows[0].len(), 5);
    assert_eq!(rows[1].len(), 5);
    assert_eq!(rows[2].len(), 2);
    assert_eq!(rows[2][1].custom_id, "task_toggle_11_7");
    assert!(todo_rows(&Vec::new(), 7, NOW, 0).is_empty());
}

#[test]
fn rows_now() {
    let tasks = vec![task(1, "x", false, false, 0, Some(4_000_000_000))];
    let rows = todo_rows_now(&tasks, 2).unwrap().unwrap();
    assert_eq!(rows.len(), 1);
    assert!(rows[0][0].label.contains("d left]"));
}

#[test]
fn delete_menu_lists_up_to_25() {
    assert!(delete_menu(&Vec::new(), 1).is_none());
    let tasks: Vec<TodoTask> = (0..30).map(|i| task(i, "job", i % 2 == 0, i % 3 == 0, 0, None)).collect();
    let m = delete_menu(&tasks, 8).unwrap();
    assert_eq!(m.custom_id, "task_delete_8");
    assert_eq!(m.options.len(), 25);
    assert_eq!(m.min_values, 1);
    assert_eq!(m.max_values, 25);
    assert_eq!(m.options[0].label, "[-] job");
    assert_eq!(m.options[1].label, "[ ] job");
    assert_eq!(m.options[2].label, "[x] job");
    assert_eq!(m.options[4].value, "4");
    let long = vec![task(5, &"z".repeat(77), false, false, 0, None)];
    let m2 = delete_menu(&long, 8).unwrap();
    assert_eq!(m2.options[0].label, format!("[ ] {}...", "z".repeat(73)));
    assert_eq!(m2.max_values, 1);
}

#[test]
fn autocomplete_labels() {
    let tasks = vec![
        TaskChoice { task_id: Some(4), description: "Essay".to_string() },
        TaskChoice { task_id: None, description: "q".repeat(81) },
    ];
    let labels = choice_labels(&tasks);
    assert_eq!(labels[0], "4 - Essay");
    assert_eq!(labels[1], format!("0 - {}...", "q".repeat(80)));
    assert_eq!(contains_pattern("ess"), "%ess%");
}
