//! The interactive todo list: button labels with time spent and time left,
//! the multi-select menu for deleting tasks, and autocomplete choices.
use vstd::prelude::*;
use crate::clock::{in_range, current_instant_precise};
use crate::text::{
    dec_int, hours_minutes_of, byte_len, shortened, cut_ok, ascii, lemma_ascii_byte_len,
    lemma_dec_i64, lemma_dec_small, push_i64, push_str, hours_minutes, shorten, byte_length,
    quot, rem, bytes_prefix, lemma_byte_len_concat, lemma_bytes_prefix_len,
};

verus! {

/// A task row as the todo list reads it.
#[derive(Debug)]
pub struct TodoTask {
    pub task_id: i64,
    pub description: String,
    pub completed: bool,
    pub terminated: bool,
    pub time_spent_seconds: i64,
    pub deadline: Option<i64>,
}

/// Colour of a todo button.
#[derive(Debug, Clone, Copy, PartialEq, Eq, Structural)]
pub enum ButtonStyle {
    Secondary,
    Success,
    Danger,
}

/// One button of the todo list: clicking it toggles the task's completion.
#[derive(Debug)]
pub struct TodoButton {
    pub custom_id: String,
    pub label: String,
    pub style: ButtonStyle,
    pub disabled: bool,
}

/// `[-]` for a terminated task, `[x]` for a completed one, `[ ]` otherwise.
pub open spec fn status_mark(t: TodoTask) -> Seq<char> {
    if t.terminated {
        "[-]"@
    } else if t.completed {
        "[x]"@
    } else {
        "[ ]"@
    }
}

pub open spec fn status_style(t: TodoTask) -> ButtonStyle {
    if t.terminated {
        ButtonStyle::Danger
    } else if t.completed {
        ButtonStyle::Success
    } else {
        ButtonStyle::Secondary
    }
}

/// Whole seconds from the instant (`now_secs` and `now_nanos`) to the deadline,
/// rounded toward zero, as chrono's `TimeDelta::num_seconds` gives them.
pub open spec fn seconds_left(deadline: int, now_secs: int, now_nanos: int) -> int {
    let d = deadline - now_secs;
    if d >= 1 && now_nanos > 0 {
        d - 1
    } else {
        d
    }
}

/// ` [Overdue]`, or the time left in whole days, else hours, else minutes.
pub open spec fn deadline_badge(left: int) -> Seq<char> {
    if left < 0 {
        " [Overdue]"@
    } else if left / 86400 > 0 {
        " ["@ + dec_int(left / 86400) + "d left]"@
    } else if left / 3600 > 0 {
        " ["@ + dec_int(left / 3600) + "h left]"@
    } else if left / 60 > 0 {
        " ["@ + dec_int(left / 60) + "m left]"@
    } else {
        " [<1m left]"@
    }
}

/// `(Xh Ym)`: the time spent on a task.
pub open spec fn time_spent_text(s: int) -> Seq<char> {
    "("@ + dec_int(hours_minutes_of(s).0) + "h "@ + dec_int(hours_minutes_of(s).1) + "m)"@
}

pub open spec fn deadline_text(t: TodoTask, now_secs: int, now_nanos: int) -> Seq<char> {
    match t.deadline {
        Some(ts) => deadline_badge(seconds_left(ts as int, now_secs, now_nanos)),
        None => ""@,
    }
}

/// Bytes left for the description in an 80-byte label.
pub open spec fn description_budget(t: TodoTask, now_secs: int, now_nanos: int) -> int {
    80 - byte_len(status_mark(t)) - byte_len(time_spent_text(t.time_spent_seconds as int))
        - byte_len(deadline_text(t, now_secs, now_nanos)) - 3
}

/// The label of a todo button: mark, description (shortened to the budget),
/// time left and time spent.
pub open spec fn todo_label(t: TodoTask, now_secs: int, now_nanos: int) -> Seq<char> {
    let budget = description_budget(t, now_secs, now_nanos);
    status_mark(t) + " "@ + shortened(t.description@, budget, budget - 3) + deadline_text(
        t,
        now_secs,
        now_nanos,
    ) + time_spent_text(t.time_spent_seconds as int)
}

/// `task_toggle_<task>_<user>`.
pub open spec fn toggle_id(task_id: int, user_id: int) -> Seq<char> {
    "task_toggle_"@ + dec_int(task_id) + "_"@ + dec_int(user_id)
}

/// A task can be shown: its deadline is an instant chrono can hold (else
/// `timestamp_opt(..).unwrap()` panics) and a shortened description is cut on
/// a character boundary (else slicing panics).
pub open spec fn renderable(t: TodoTask, now_secs: int, now_nanos: int) -> bool {
    &&& (t.deadline matches Some(ts) ==> in_range(ts as int))
    &&& cut_ok(
        t.description@,
        description_budget(t, now_secs, now_nanos),
        description_budget(t, now_secs, now_nanos) - 3,
    )
}

pub open spec fn button_for(b: TodoButton, t: TodoTask, user_id: int, now_secs: int, now_nanos: int) -> bool {
    &&& b.custom_id@ == toggle_id(t.task_id as int, user_id)
    &&& b.label@ == todo_label(t, now_secs, now_nanos)
    &&& b.style == status_style(t)
    &&& b.disabled == t.terminated
}

/// The label with the description shown whole: mark, description, time left
/// and time spent.
pub open spec fn full_label(t: TodoTask, now_secs: int, now_nanos: int) -> Seq<char> {
    status_mark(t) + " "@ + t.description@ + deadline_text(t, now_secs, now_nanos)
        + time_spent_text(t.time_spent_seconds as int)
}

/// Every todo label fits Discord's 80-byte limit once shortened: a label that
/// would fit in 78 bytes shows the description whole; any longer one is cut to
/// exactly 78 bytes, the deadline badge and the time spent counted, its
/// description replaced by a prefix of it followed by `...`.
pub proof fn lemma_todo_label_fits(t: TodoTask, now_secs: int, now_nanos: int)
    requires
        renderable(t, now_secs, now_nanos),
    ensures
        byte_len(full_label(t, now_secs, now_nanos)) <= 78 ==> todo_label(t, now_secs, now_nanos)
            == full_label(t, now_secs, now_nanos),
        byte_len(full_label(t, now_secs, now_nanos)) > 78 ==> {
            &&& byte_len(todo_label(t, now_secs, now_nanos)) == 78
            &&& exists|k: int|
                0 <= k <= byte_len(t.description@) && todo_label(t, now_secs, now_nanos)
                    == status_mark(t) + " "@ + bytes_prefix(t.description@, k) + "..."@
                    + deadline_text(t, now_secs, now_nanos) + time_spent_text(
                    t.time_spent_seconds as int,
                )
        },
        byte_len(todo_label(t, now_secs, now_nanos)) <= 80 || todo_label(t, now_secs, now_nanos)
            == full_label(t, now_secs, now_nanos),
{
    reveal_strlit(" ");
    reveal_strlit("...");
    let m = status_mark(t);
    let d = t.description@;
    let dl = deadline_text(t, now_secs, now_nanos);
    let ts = time_spent_text(t.time_spent_seconds as int);
    let budget = description_budget(t, now_secs, now_nanos);
    lemma_ascii_byte_len(" "@);
    lemma_ascii_byte_len("..."@);
    lemma_byte_len_concat(m, " "@);
    lemma_byte_len_concat(m + " "@, d);
    lemma_byte_len_concat(m + " "@ + d, dl);
    lemma_byte_len_concat(m + " "@ + d + dl, ts);
    if byte_len(d) > budget {
        let cut = budget - 3;
        let p = bytes_prefix(d, cut);
        lemma_bytes_prefix_len(d, cut);
        lemma_byte_len_concat(p, "..."@);
        lemma_byte_len_concat(m + " "@, p + "..."@);
        lemma_byte_len_concat(m + " "@ + (p + "..."@), dl);
        lemma_byte_len_concat(m + " "@ + (p + "..."@) + dl, ts);
        assert(todo_label(t, now_secs, now_nanos) =~= m + " "@ + (p + "..."@) + dl + ts);
        assert(m + " "@ + (p + "..."@) + dl + ts =~= m + " "@ + p + "..."@ + dl + ts);
    }
}

fn mark(t: &TodoTask) -> (s: &'static str)
    ensures
        s@ == status_mark(*t),
        byte_len(s@) == 3,
        ascii(s@),
{
    proof {
        reveal_strlit("[-]");
        reveal_strlit("[x]");
        reveal_strlit("[ ]");
    }
    let s = if t.terminated {
        "[-]"
    } else if t.completed {
        "[x]"
    } else {
        "[ ]"
    };
    proof {
        lemma_ascii_byte_len(s@);
    }
    s
}

proof fn lemma_ascii_concat(a: Seq<char>, b: Seq<char>)
    requires
        ascii(a),
        ascii(b),
    ensures
        ascii(a + b),
{
    vstd::utf8::is_ascii_chars_concat(a + b, a, b);
}

fn time_spent(s: i64) -> (r: String)
    ensures
        r@ == time_spent_text(s as int),
        ascii(r@),
        r@.len() <= 28,
{
    let (h, m) = hours_minutes(s);
    let mut r = String::new();
    push_str(&mut r, "(");
    push_i64(&mut r, h);
    push_str(&mut r, "h ");
    push_i64(&mut r, m);
    push_str(&mut r, "m)");
    proof {
        reveal_strlit("(");
        reveal_strlit("h ");
        reveal_strlit("m)");
        lemma_dec_i64(h);
        assert(-60 < m < 60) by {
            let w = s as int;
            let rr = rem(w, 3600);
            assert(-3600 < rr < 3600) by {
                if w >= 0 {
                    vstd::arithmetic::div_mod::lemma_fundamental_div_mod(w, 3600);
                    vstd::arithmetic::div_mod::lemma_mod_bound(w, 3600);
                } else {
                    vstd::arithmetic::div_mod::lemma_fundamental_div_mod(-w, 3600);
                    vstd::arithmetic::div_mod::lemma_mod_bound(-w, 3600);
                }
            }
            if rr >= 0 {
                vstd::arithmetic::div_mod::lemma_div_is_ordered(rr, 3599, 60);
                vstd::arithmetic::div_mod::lemma_div_pos_is_pos(rr, 60);
            } else {
                vstd::arithmetic::div_mod::lemma_div_is_ordered(-rr, 3599, 60);
                vstd::arithmetic::div_mod::lemma_div_pos_is_pos(-rr, 60);
            }
        }
        lemma_dec_small(m as int);
        lemma_ascii_concat("("@, dec_int(h as int));
        lemma_ascii_concat("("@ + dec_int(h as int), "h "@);
        lemma_ascii_concat("("@ + dec_int(h as int) + "h "@, dec_int(m as int));
        lemma_ascii_concat("("@ + dec_int(h as int) + "h "@ + dec_int(m as int), "m)"@);
    }
    assert(r@ =~= time_spent_text(s as int));
    r
}

fn badge(left: i64) -> (r: String)
    ensures
        r@ == deadline_badge(left as int),
        ascii(r@),
        r@.len() <= 29,
{
    let mut r = String::new();
    proof {
        reveal_strlit(" [Overdue]");
        reveal_strlit(" [");
        reveal_strlit("d left]");
        reveal_strlit("h left]");
        reveal_strlit("m left]");
        reveal_strlit(" [<1m left]");
    }
    if left < 0 {
        push_str(&mut r, " [Overdue]");
    } else if left / 86400 > 0 {
        push_str(&mut r, " [");
        push_i64(&mut r, left / 86400);
        push_str(&mut r, "d left]");
        proof {
            lemma_dec_i64((left / 86400) as i64);
            lemma_ascii_concat(" ["@, dec_int((left / 86400) as int));
            lemma_ascii_concat(" ["@ + dec_int((left / 86400) as int), "d left]"@);
        }
    } else if left / 3600 > 0 {
        push_str(&mut r, " [");
        push_i64(&mut r, left / 3600);
        push_str(&mut r, "h left]");
        proof {
            lemma_dec_i64((left / 3600) as i64);
            lemma_ascii_concat(" ["@, dec_int((left / 3600) as int));
            lemma_ascii_concat(" ["@ + dec_int((left / 3600) as int), "h left]"@);
        }
    } else if left / 60 > 0 {
        push_str(&mut r, " [");
        push_i64(&mut r, left / 60);
        push_str(&mut r, "m left]");
        proof {
            lemma_dec_i64((left / 60) as i64);
            lemma_ascii_concat(" ["@, dec_int((left / 60) as int));
            lemma_ascii_concat(" ["@ + dec_int((left / 60) as int), "m left]"@);
        }
    } else {
        push_str(&mut r, " [<1m left]");
    }
    assert(r@ =~= deadline_badge(left as int));
    r
}

fn deadline_part(t: &TodoTask, now_secs: i64, now_nanos: u32) -> (r: String)
    requires
        t.deadline matches Some(ts) ==> in_range(ts as int),
        in_range(now_secs as int),
        0 <= now_secs,
    ensures
        r@ == deadline_text(*t, now_secs as int, now_nanos as int),
        ascii(r@),
        r@.len() <= 29,
{
    match t.deadline {
        Some(ts) => {
            let d = ts - now_secs;
            let left = if d >= 1 && now_nanos > 0 { d - 1 } else { d };
            badge(left)
        },
        None => {
            let r = String::new();
            assert(r@ =~= ""@) by {
                reveal_strlit("");
            }
            r
        },
    }
}

/// The button of one task on the todo list.
pub fn todo_button(t: &TodoTask, user_id: i64, now_secs: i64, now_nanos: u32) -> (b: TodoButton)
    requires
        renderable(*t, now_secs as int, now_nanos as int),
        in_range(now_secs as int),
        0 <= now_secs,
    ensures
        button_for(b, *t, user_id as int, now_secs as int, now_nanos as int),
{
    let m = mark(t);
    let time_str = time_spent(t.time_spent_seconds);
    let dl = deadline_part(t, now_secs, now_nanos);
    proof {
        lemma_ascii_byte_len(time_str@);
        lemma_ascii_byte_len(dl@);
    }
    let budget: usize = 80 - byte_length(m) - byte_length(time_str.as_str()) - byte_length(
        dl.as_str(),
    ) - 3;
    let desc = shorten(t.description.as_str(), budget, budget - 3);
    let mut label = String::new();
    push_str(&mut label, m);
    push_str(&mut label, " ");
    push_str(&mut label, desc.as_str());
    push_str(&mut label, dl.as_str());
    push_str(&mut label, time_str.as_str());
    assert(label@ =~= todo_label(*t, now_secs as int, now_nanos as int));
    let mut id = String::new();
    push_str(&mut id, "task_toggle_");
    push_i64(&mut id, t.task_id);
    push_str(&mut id, "_");
    push_i64(&mut id, user_id);
    assert(id@ =~= toggle_id(t.task_id as int, user_id as int));
    let style = if t.terminated {
        ButtonStyle::Danger
    } else if t.completed {
        ButtonStyle::Success
    } else {
        ButtonStyle::Secondary
    };
    TodoButton { custom_id: id, label, style, disabled: t.terminated }
}

/// The rows of the todo list: the tasks in order, five buttons per row.
pub fn todo_rows(tasks: &Vec<TodoTask>, user_id: i64, now_secs: i64, now_nanos: u32) -> (rows:
    Vec<Vec<TodoButton>>)
    requires
        forall|i: int|
            0 <= i < tasks@.len() ==> renderable(
                #[trigger] tasks@[i],
                now_secs as int,
                now_nanos as int,
            ),
        in_range(now_secs as int),
        0 <= now_secs,
    ensures
        rows@.len() == (tasks@.len() + 4) / 5,
        forall|r: int|
            0 <= r < rows@.len() ==> #[trigger] rows@[r]@.len() == if tasks@.len() - 5 * r < 5 {
                tasks@.len() - 5 * r
            } else {
                5
            },
        forall|r: int, c: int|
            0 <= r < rows@.len() && 0 <= c < rows@[r]@.len() ==> button_for(
                #[trigger] rows@[r]@[c],
                tasks@[5 * r + c],
                user_id as int,
                now_secs as int,
                now_nanos as int,
            ),
{
    let n = tasks.len();
    let mut rows: Vec<Vec<TodoButton>> = Vec::new();
    let mut start: usize = 0;
    while start < n
        invariant
            n == tasks@.len(),
            start <= n,
            start < n ==> start == 5 * rows@.len(),
            start == n ==> rows@.len() == (n + 4) / 5,
            forall|i: int|
                0 <= i < tasks@.len() ==> renderable(
                    #[trigger] tasks@[i],
                    now_secs as int,
                    now_nanos as int,
                ),
            in_range(now_secs as int),
            0 <= now_secs,
            forall|r: int|
                0 <= r < rows@.len() ==> #[trigger] rows@[r]@.len() == if n - 5 * r < 5 {
                    n - 5 * r
                } else {
                    5
                },
            forall|r: int, c: int|
                0 <= r < rows@.len() && 0 <= c < rows@[r]@.len() ==> button_for(
                    #[trigger] rows@[r]@[c],
                    tasks@[5 * r + c],
                    user_id as int,
                    now_secs as int,
                    now_nanos as int,
                ),
        decreases n - start,
    {
        let end: usize = if n - start < 5 { n } else { start + 5 };
        let mut row: Vec<TodoButton> = Vec::new();
        let mut i: usize = start;
        while i < end
            invariant
                n == tasks@.len(),
                start <= i <= end <= n,
                row@.len() == i - start,
                forall|k: int|
                    0 <= k < tasks@.len() ==> renderable(
                        #[trigger] tasks@[k],
                        now_secs as int,
                        now_nanos as int,
                    ),
                in_range(now_secs as int),
                0 <= now_secs,
                forall|c: int|
                    0 <= c < row@.len() ==> button_for(
                        #[trigger] row@[c],
                        tasks@[start + c],
                        user_id as int,
                        now_secs as int,
                        now_nanos as int,
                    ),
            decreases end - i,
        {
            let b = todo_button(&tasks[i], user_id, now_secs, now_nanos);
            row.push(b);
            i = i + 1;
        }
        let ghost r0 = rows@.len();
        rows.push(row);
        start = end;
        assert forall|r: int, c: int|
            0 <= r < rows@.len() && 0 <= c < rows@[r]@.len() implies button_for(
            #[trigger] rows@[r]@[c],
            tasks@[5 * r + c],
            user_id as int,
            now_secs as int,
            now_nanos as int,
        ) by {
            if r == r0 {
                assert(5 * r == 5 * r0);
            }
        }
    }
    rows
}

/// Decides `renderable`.
pub fn can_render(t: &TodoTask, now_secs: i64, now_nanos: u32) -> (b: bool)
    requires
        in_range(now_secs as int),
        0 <= now_secs,
    ensures
        b == renderable(*t, now_secs as int, now_nanos as int),
{
    if let Some(ts) = t.deadline {
        if !(-8334601315200i64 <= ts && ts <= 8210266876799i64) {
            return false;
        }
    }
    let m = mark(t);
    let time_str = time_spent(t.time_spent_seconds);
    let dl = deadline_part(t, now_secs, now_nanos);
    proof {
        lemma_ascii_byte_len(time_str@);
        lemma_ascii_byte_len(dl@);
    }
    let budget: usize = 80 - byte_length(m) - byte_length(time_str.as_str()) - byte_length(
        dl.as_str(),
    ) - 3;
    let d = t.description.as_str();
    let n = byte_length(d);
    if n > budget {
        d.is_char_boundary(budget - 3)
    } else {
        true
    }
}

/// What the todo list shows at instant `s` (with `ns` nanoseconds): nothing if a
/// task cannot be shown then, else the tasks' buttons in rows of five.
pub open spec fn rows_at(
    rows: Option<Vec<Vec<TodoButton>>>,
    tasks: Seq<TodoTask>,
    user_id: int,
    s: int,
    ns: int,
) -> bool {
    &&& (rows is None <==> exists|i: int| 0 <= i < tasks.len() && !renderable(#[trigger] tasks[i], s, ns))
    &&& (rows matches Some(rs) ==> {
        &&& rs@.len() == (tasks.len() + 4) / 5
        &&& forall|r: int|
            0 <= r < rs@.len() ==> #[trigger] rs@[r]@.len() == if tasks.len() - 5 * r < 5 {
                tasks.len() - 5 * r
            } else {
                5
            }
        &&& forall|r: int, c: int|
            0 <= r < rs@.len() && 0 <= c < rs@[r]@.len() ==> button_for(
                #[trigger] rs@[r]@[c],
                tasks[5 * r + c],
                user_id,
                s,
                ns,
            )
    })
}

/// The todo list rows at the current instant: `None` when the system clock
/// cannot be read (before 1970 or beyond chrono's range); else `Some(None)`
/// where a task cannot be shown at that instant (where building its label
/// panics), and `Some(Some(rows))` otherwise.
pub fn todo_rows_now(tasks: &Vec<TodoTask>, user_id: i64) -> (rows: Option<
    Option<Vec<Vec<TodoButton>>>,
>)
    ensures
        rows matches Some(r) ==> exists|s: int, ns: int|
            0 <= s && in_range(s) && 0 <= ns < 1_000_000_000 && #[trigger] rows_at(
                r,
                tasks@,
                user_id as int,
                s,
                ns,
            ),
{
    let (s, ns) = match current_instant_precise() {
        Some(p) => p,
        None => {
            return None;
        },
    };
    let n = tasks.len();
    let mut i: usize = 0;
    while i < n
        invariant
            n == tasks@.len(),
            i <= n,
            0 <= s,
            in_range(s as int),
            ns < 1_000_000_000,
            forall|k: int| 0 <= k < i ==> renderable(#[trigger] tasks@[k], s as int, ns as int),
        decreases n - i,
    {
        if !can_render(&tasks[i], s, ns) {
            assert(!renderable(tasks@[i as int], s as int, ns as int));
            assert(rows_at(None, tasks@, user_id as int, s as int, ns as int));
            return Some(None);
        }
        i = i + 1;
    }
    let rows = todo_rows(tasks, user_id, s, ns);
    assert(rows_at(Some(rows), tasks@, user_id as int, s as int, ns as int));
    Some(Some(rows))
}

// ---------------------------------------------------------------------------
// Deleting tasks
// ---------------------------------------------------------------------------

/// One option of a select menu.
#[derive(Debug)]
pub struct MenuOption {
    pub label: String,
    pub value: String,
    pub default_selected: bool,
}

/// The multi-select menu that deletes tasks.
#[derive(Debug)]
pub struct DeleteMenu {
    pub custom_id: String,
    pub options: Vec<MenuOption>,
    pub min_values: u8,
    pub max_values: u8,
}

/// `[-] `, `[x] ` or `[ ] `.
pub open spec fn delete_mark(t: TodoTask) -> Seq<char> {
    status_mark(t) + " "@
}

/// The label of a task in the delete menu: its mark and its description,
/// shortened to 76 bytes (73 bytes and `...`).
pub open spec fn delete_label(t: TodoTask) -> Seq<char> {
    delete_mark(t) + shortened(t.description@, 76, 73)
}

pub open spec fn delete_menu_id(user_id: int) -> Seq<char> {
    "task_delete_"@ + dec_int(user_id)
}

/// The menu offers the first 25 tasks, any number of them from one.
pub open spec fn delete_menu_for(m: DeleteMenu, tasks: Seq<TodoTask>, user_id: int) -> bool {
    let k = if tasks.len() < 25 {
        tasks.len()
    } else {
        25
    };
    &&& m.custom_id@ == delete_menu_id(user_id)
    &&& m.options@.len() == k
    &&& m.min_values == 1
    &&& m.max_values == k
    &&& forall|i: int|
        0 <= i < k ==> {
            &&& (#[trigger] m.options@[i]).label@ == delete_label(tasks[i])
            &&& m.options@[i].value@ == dec_int(tasks[i].task_id as int)
            &&& !m.options@[i].default_selected
        }
}

/// The delete menu for the user's tasks, or `None` when there are none.
pub fn delete_menu(tasks: &Vec<TodoTask>, user_id: i64) -> (m: Option<DeleteMenu>)
    requires
        forall|i: int| 0 <= i < tasks@.len() ==> cut_ok((#[trigger] tasks@[i]).description@, 76, 73),
    ensures
        m is None <==> tasks@.len() == 0,
        m matches Some(menu) ==> delete_menu_for(menu, tasks@, user_id as int),
{
    let n = tasks.len();
    if n == 0 {
        return None;
    }
    let k: usize = if n < 25 { n } else { 25 };
    let mut options: Vec<MenuOption> = Vec::new();
    let mut i: usize = 0;
    while i < k
        invariant
            n == tasks@.len(),
            k <= n,
            k <= 25,
            i <= k,
            options@.len() == i,
            forall|j: int| 0 <= j < tasks@.len() ==> cut_ok((#[trigger] tasks@[j]).description@, 76, 73),
            forall|j: int|
                0 <= j < i ==> {
                    &&& (#[trigger] options@[j]).label@ == delete_label(tasks@[j])
                    &&& options@[j].value@ == dec_int(tasks@[j].task_id as int)
                    &&& !options@[j].default_selected
                },
        decreases k - i,
    {
        let t = &tasks[i];
        let mut label = String::new();
        push_str(&mut label, mark(t));
        push_str(&mut label, " ");
        let desc = shorten(t.description.as_str(), 76, 73);
        push_str(&mut label, desc.as_str());
        assert(label@ =~= delete_label(*t));
        let mut value = String::new();
        push_i64(&mut value, t.task_id);
        assert(value@ =~= dec_int(t.task_id as int));
        options.push(MenuOption { label, value, default_selected: false });
        i = i + 1;
    }
    let mut id = String::new();
    push_str(&mut id, "task_delete_");
    push_i64(&mut id, user_id);
    assert(id@ =~= delete_menu_id(user_id as int));
    Some(DeleteMenu { custom_id: id, options, min_values: 1, max_values: k as u8 })
}

// ---------------------------------------------------------------------------
// Autocomplete of pending tasks
// ---------------------------------------------------------------------------

/// A pending task offered by autocomplete.
#[derive(Debug)]
pub struct TaskChoice {
    pub task_id: Option<i64>,
    pub description: String,
}

/// `ID - description`, the description shortened to 80 bytes plus `...`; a
/// missing id reads as 0.
pub open spec fn choice_label(c: TaskChoice) -> Seq<char> {
    dec_int(
        match c.task_id {
            Some(id) => id as int,
            None => 0,
        },
    ) + " - "@ + shortened(c.description@, 80, 80)
}

/// The autocomplete labels of the given tasks, in order.
pub fn choice_labels(tasks: &Vec<TaskChoice>) -> (labels: Vec<String>)
    requires
        forall|i: int| 0 <= i < tasks@.len() ==> cut_ok((#[trigger] tasks@[i]).description@, 80, 80),
    ensures
        labels@.len() == tasks@.len(),
        forall|i: int| 0 <= i < tasks@.len() ==> (#[trigger] labels@[i])@ == choice_label(tasks@[i]),
{
    let n = tasks.len();
    let mut labels: Vec<String> = Vec::new();
    let mut i: usize = 0;
    while i < n
        invariant
            n == tasks@.len(),
            i <= n,
            labels@.len() == i,
            forall|j: int| 0 <= j < tasks@.len() ==> cut_ok((#[trigger] tasks@[j]).description@, 80, 80),
            forall|j: int| 0 <= j < i ==> (#[trigger] labels@[j])@ == choice_label(tasks@[j]),
        decreases n - i,
    {
        let c = &tasks[i];
        let mut s = String::new();
        let id = match c.task_id {
            Some(id) => id,
            None => 0,
        };
        push_i64(&mut s, id);
        push_str(&mut s, " - ");
        let d = shorten(c.description.as_str(), 80, 80);
        push_str(&mut s, d.as_str());
        assert(s@ =~= choice_label(*c));
        labels.push(s);
        i = i + 1;
    }
    labels
}

/// The `LIKE` pattern that finds descriptions containing `partial`.
pub open spec fn like_pattern(partial: Seq<char>) -> Seq<char> {
    "%"@ + partial + "%"@
}

pub fn contains_pattern(partial: &str) -> (p: String)
    ensures
        p@ == like_pattern(partial@),
{
    let mut p = String::new();
    push_str(&mut p, "%");
    push_str(&mut p, partial);
    push_str(&mut p, "%");
    assert(p@ =~= like_pattern(partial@));
    p
}

} // verus!
