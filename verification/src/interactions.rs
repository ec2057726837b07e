//! Clicks on the bot's menus and buttons: whose they are and what they ask for.
use vstd::prelude::*;
use crate::text::{
    dec_int, starts_with, remove_all, split_on, parsed_i64, has_prefix, remove_occurrences,
    split_char, parse_i64, i64_text, push_i64, push_str, text_eq, lemma_dec_int_reads_back,
    lemma_dec_int_injective, lemma_dec_int_chars, lemma_split_without, lemma_split_after,
    lemma_remove_prefix, is_digit,
};
use crate::todo::{toggle_id, delete_menu_id};
use crate::sessions::select_menu_id;

verus! {

/// What a click on one of the bot's components asks for.
#[derive(Debug)]
pub enum ComponentAction {
    /// Not a component of this bot, outside a guild, or without selected values.
    Ignore,
    /// Someone else's task prompt was used.
    RejectSelect,
    /// The user chose the task of their session (`None`: nothing in particular).
    SelectTask(Option<i64>),
    /// Someone else's todo list was clicked.
    RejectToggle,
    /// The user toggled the completion of a task.
    ToggleTask(i64),
    /// Someone else's delete menu was used.
    RejectDelete,
    /// The user chose tasks to delete.
    DeleteTasks(Vec<i64>),
}

/// The task chosen in the prompt: `none`, or a task id.
pub open spec fn selection_of(v: Seq<char>) -> Option<i64> {
    if v == "none"@ {
        None
    } else {
        Some(parsed_i64(v)->0)
    }
}

/// A selected value reads as `none` or as a task id (elsewhere `parse().unwrap()`
/// panics).
pub open spec fn selection_ok(v: Seq<char>) -> bool {
    v == "none"@ || parsed_i64(v) is Some
}

/// The custom id, the clicking user and the selected values are ones on which the
/// bot does not panic: a used prompt has a value, and every value, and the ids of a
/// toggle button, read as integers.
pub open spec fn click_ok(custom_id: Seq<char>, user_id: int, values: Option<Seq<Seq<char>>>) -> bool {
    if starts_with(custom_id, "task_select_"@) {
        remove_all(custom_id, "task_select_"@) == dec_int(user_id) ==> match values {
            Some(vs) => vs.len() > 0 && selection_ok(vs[0]),
            None => true,
        }
    } else if starts_with(custom_id, "task_toggle_"@) {
        let parts = split_on(custom_id, '_');
        parts.len() == 4 ==> parsed_i64(parts[2]) is Some && parsed_i64(parts[3]) is Some
    } else if starts_with(custom_id, "task_delete_"@) {
        remove_all(custom_id, "task_delete_"@) == dec_int(user_id) ==> match values {
            Some(vs) => forall|i: int| 0 <= i < vs.len() ==> parsed_i64(#[trigger] vs[i]) is Some,
            None => true,
        }
    } else {
        true
    }
}

fn selection_ok_exec(v: &str) -> (b: bool)
    ensures
        b == selection_ok(v@),
{
    text_eq(v, "none") || parse_i64(v).is_some()
}

/// Decides `click_ok`: whether the bot can handle the click without panicking.
#[verifier::loop_isolation(false)]
pub fn click_is_valid(custom_id: &str, user_id: i64, values: Option<&Vec<String>>) -> (b: bool)
    ensures
        b == click_ok(
            custom_id@,
            user_id as int,
            match values {
                Some(vs) => Some(vs@.map_values(|s: String| s@)),
                None => None,
            },
        ),
{
    let me = i64_text(user_id);
    proof {
        reveal_strlit("task_select_");
        reveal_strlit("task_toggle_");
        reveal_strlit("task_delete_");
    }
    if has_prefix(custom_id, "task_select_") {
        let extracted = remove_occurrences(custom_id, "task_select_");
        if !text_eq(extracted.as_str(), me.as_str()) {
            return true;
        }
        match values {
            None => true,
            Some(vs) => {
                if vs.len() == 0 {
                    false
                } else {
                    assert(vs@.map_values(|s: String| s@)[0] == vs@[0]@);
                    selection_ok_exec(vs[0].as_str())
                }
            },
        }
    } else if has_prefix(custom_id, "task_toggle_") {
        let parts = split_char(custom_id, '_');
        if parts.len() != 4 {
            return true;
        }
        assert(parts@.map_values(|t: String| t@)[2] == parts@[2]@);
        assert(parts@.map_values(|t: String| t@)[3] == parts@[3]@);
        parse_i64(parts[2].as_str()).is_some() && parse_i64(parts[3].as_str()).is_some()
    } else if has_prefix(custom_id, "task_delete_") {
        let extracted = remove_occurrences(custom_id, "task_delete_");
        if !text_eq(extracted.as_str(), me.as_str()) {
            return true;
        }
        match values {
            None => true,
            Some(vs) => {
                let ghost views = vs@.map_values(|s: String| s@);
                let n = vs.len();
                let mut i: usize = 0;
                while i < n
                    invariant
                        n == vs@.len(),
                        views == vs@.map_values(|s: String| s@),
                        i <= n,
                        forall|j: int| 0 <= j < i ==> parsed_i64(#[trigger] views[j]) is Some,
                    decreases n - i,
                {
                    assert(views[i as int] == vs@[i as int]@);
                    if parse_i64(vs[i].as_str()).is_none() {
                        assert(parsed_i64(views[i as int]) is None);
                        return false;
                    }
                    i = i + 1;
                }
                true
            },
        }
    } else {
        true
    }
}

/// What the bot makes of a click by `user_id` on the component `custom_id`;
/// `values` are the selected values of a select menu, `None` for a button.
pub open spec fn click_action_ok(
    a: ComponentAction,
    in_guild: bool,
    custom_id: Seq<char>,
    user_id: int,
    values: Option<Seq<Seq<char>>>,
) -> bool {
    if !in_guild {
        a == ComponentAction::Ignore
    } else if starts_with(custom_id, "task_select_"@) {
        if remove_all(custom_id, "task_select_"@) != dec_int(user_id) {
            a == ComponentAction::RejectSelect
        } else {
            match values {
                None => a == ComponentAction::Ignore,
                Some(vs) => a == ComponentAction::SelectTask(selection_of(vs[0])),
            }
        }
    } else if starts_with(custom_id, "task_toggle_"@) {
        let parts = split_on(custom_id, '_');
        if parts.len() != 4 {
            a == ComponentAction::Ignore
        } else if parsed_i64(parts[3])->0 != user_id {
            a == ComponentAction::RejectToggle
        } else {
            a == ComponentAction::ToggleTask(parsed_i64(parts[2])->0)
        }
    } else if starts_with(custom_id, "task_delete_"@) {
        if remove_all(custom_id, "task_delete_"@) != dec_int(user_id) {
            a == ComponentAction::RejectDelete
        } else {
            match values {
                None => a == ComponentAction::Ignore,
                Some(vs) => a matches ComponentAction::DeleteTasks(ids) && ids@.len() == vs.len()
                    && forall|i: int| 0 <= i < vs.len() ==> ids@[i] == parsed_i64(#[trigger] vs[i])->0,
            }
        }
    } else {
        a == ComponentAction::Ignore
    }
}

fn read_selection(v: &str) -> (r: Option<i64>)
    requires
        selection_ok(v@),
    ensures
        r == selection_of(v@),
{
    if text_eq(v, "none") {
        None
    } else {
        match parse_i64(v) {
            Some(x) => Some(x),
            None => None,
        }
    }
}

/// Decides what a click asks for.
pub fn classify_click(in_guild: bool, custom_id: &str, user_id: i64, values: Option<&Vec<String>>) -> (a:
    ComponentAction)
    requires
        in_guild ==> click_ok(
            custom_id@,
            user_id as int,
            match values {
                Some(vs) => Some(vs@.map_values(|s: String| s@)),
                None => None,
            },
        ),
    ensures
        click_action_ok(
            a,
            in_guild,
            custom_id@,
            user_id as int,
            match values {
                Some(vs) => Some(vs@.map_values(|s: String| s@)),
                None => None,
            },
        ),
{
    if !in_guild {
        return ComponentAction::Ignore;
    }
    let me = i64_text(user_id);
    proof {
        reveal_strlit("task_select_");
        reveal_strlit("task_toggle_");
        reveal_strlit("task_delete_");
    }
    if has_prefix(custom_id, "task_select_") {
        let extracted = remove_occurrences(custom_id, "task_select_");
        if !text_eq(extracted.as_str(), me.as_str()) {
            return ComponentAction::RejectSelect;
        }
        match values {
            None => ComponentAction::Ignore,
            Some(vs) => {
                assert(vs@.map_values(|s: String| s@)[0] == vs@[0]@);
                ComponentAction::SelectTask(read_selection(vs[0].as_str()))
            },
        }
    } else if has_prefix(custom_id, "task_toggle_") {
        let parts = split_char(custom_id, '_');
        if parts.len() != 4 {
            return ComponentAction::Ignore;
        }
        assert(parts@.map_values(|t: String| t@)[2] == parts@[2]@);
        assert(parts@.map_values(|t: String| t@)[3] == parts@[3]@);
        let task_id = match parse_i64(parts[2].as_str()) {
            Some(x) => x,
            None => 0,
        };
        let target = match parse_i64(parts[3].as_str()) {
            Some(x) => x,
            None => 0,
        };
        if target != user_id {
            ComponentAction::RejectToggle
        } else {
            ComponentAction::ToggleTask(task_id)
        }
    } else if has_prefix(custom_id, "task_delete_") {
        let extracted = remove_occurrences(custom_id, "task_delete_");
        if !text_eq(extracted.as_str(), me.as_str()) {
            return ComponentAction::RejectDelete;
        }
        match values {
            None => ComponentAction::Ignore,
            Some(vs) => {
                let ghost views = vs@.map_values(|s: String| s@);
                let n = vs.len();
                let mut ids: Vec<i64> = Vec::new();
                let mut i: usize = 0;
                while i < n
                    invariant
                        n == vs@.len(),
                        views == vs@.map_values(|s: String| s@),
                        forall|j: int| 0 <= j < views.len() ==> parsed_i64(#[trigger] views[j]) is Some,
                        i <= n,
                        ids@.len() == i,
                        forall|j: int| 0 <= j < i ==> ids@[j] == parsed_i64(#[trigger] views[j])->0,
                    decreases n - i,
                {
                    assert(views[i as int] == vs@[i as int]@);
                    let x = match parse_i64(vs[i].as_str()) {
                        Some(x) => x,
                        None => 0,
                    };
                    ids.push(x);
                    i = i + 1;
                }
                ComponentAction::DeleteTasks(ids)
            },
        }
    } else {
        ComponentAction::Ignore
    }
}

/// The reply to a click on someone else's component.
pub open spec fn rejection_text(a: ComponentAction) -> Seq<char> {
    match a {
        ComponentAction::RejectSelect => "Nuh huh, can't touch it!"@,
        ComponentAction::RejectToggle => "You cannot modify another user's todo list."@,
        _ => "Nope, not gonna happen..."@,
    }
}

impl ComponentAction {
    pub fn rejection_message(&self) -> (s: &'static str)
        requires
            *self is RejectSelect || *self is RejectToggle || *self is RejectDelete,
        ensures
            s@ == rejection_text(*self),
    {
        match self {
            ComponentAction::RejectSelect => "Nuh huh, can't touch it!",
            ComponentAction::RejectToggle => "You cannot modify another user's todo list.",
            _ => "Nope, not gonna happen...",
        }
    }
}

/// The confirmation of a chosen task, which replaces the prompt.
pub open spec fn task_chosen_text(user_id: int, description: Option<Seq<char>>) -> Seq<char> {
    "<@"@ + dec_int(user_id) + "> Active task updated to: **"@ + match description {
        Some(d) => d,
        None => "Nothing in particular"@,
    } + "**."@
}

pub fn task_chosen_message(user_id: i64, description: Option<&str>) -> (s: String)
    ensures
        s@ == task_chosen_text(
            user_id as int,
            match description {
                Some(d) => Some(d@),
                None => None,
            },
        ),
{
    let mut s = String::new();
    push_str(&mut s, "<@");
    push_i64(&mut s, user_id);
    push_str(&mut s, "> Active task updated to: **");
    match description {
        Some(d) => push_str(&mut s, d),
        None => push_str(&mut s, "Nothing in particular"),
    }
    push_str(&mut s, "**.");
    proof {
        assert(s@ =~= task_chosen_text(
            user_id as int,
            match description {
                Some(d) => Some(d@),
                None => None,
            },
        ));
    }
    s
}

/// The reply after deleting the chosen tasks.
pub open spec fn deleted_text(count: int) -> Seq<char> {
    "Successfully deleted "@ + dec_int(count) + " task(s)."@
}

pub fn deleted_message(count: u64) -> (s: String)
    ensures
        s@ == deleted_text(count as int),
{
    let mut s = String::new();
    push_str(&mut s, "Successfully deleted ");
    crate::text::push_u64(&mut s, count);
    push_str(&mut s, " task(s).");
    assert(s@ =~= deleted_text(count as int));
    s
}

// ---------------------------------------------------------------------------
// Components answer their owner only
// ---------------------------------------------------------------------------

proof fn lemma_dec_has_no(n: i64, c: char)
    requires
        !is_digit(c),
        c != '-',
    ensures
        forall|i: int| 0 <= i < dec_int(n as int).len() ==> dec_int(n as int)[i] != c,
{
    assert forall|i: int| 0 <= i < dec_int(n as int).len() implies dec_int(n as int)[i] != c by {
        lemma_dec_int_chars(n, i);
    }
}

/// A todo button (`task_toggle_<task>_<owner>`) toggles its task when its owner
/// clicks it, and is refused to anyone else; the bot reads it without panicking.
pub proof fn lemma_toggle_button_owner(
    task_id: i64,
    owner: i64,
    clicker: i64,
    values: Option<Seq<Seq<char>>>,
    a: ComponentAction,
)
    ensures
        click_ok(toggle_id(task_id as int, owner as int), clicker as int, values),
        click_action_ok(a, true, toggle_id(task_id as int, owner as int), clicker as int, values)
            ==> (if clicker == owner {
            a == ComponentAction::ToggleTask(task_id)
        } else {
            a == ComponentAction::RejectToggle
        }),
{
    reveal_strlit("task_toggle_");
    reveal_strlit("task_select_");
    reveal_strlit("task_delete_");
    reveal_strlit("_");
    let id = toggle_id(task_id as int, owner as int);
    let dt = dec_int(task_id as int);
    let du = dec_int(owner as int);
    let task = seq!['t', 'a', 's', 'k'];
    let toggle = seq!['t', 'o', 'g', 'g', 'l', 'e'];
    assert(id =~= ((task + seq!['_'] + toggle) + seq!['_'] + dt) + seq!['_'] + du);
    lemma_dec_has_no(task_id, '_');
    lemma_dec_has_no(owner, '_');
    lemma_split_without(task, '_');
    lemma_split_after(task, toggle, '_');
    lemma_split_after(task + seq!['_'] + toggle, dt, '_');
    lemma_split_after((task + seq!['_'] + toggle) + seq!['_'] + dt, du, '_');
    let parts = split_on(id, '_');
    assert(parts =~= seq![task, toggle, dt, du]);
    lemma_dec_int_reads_back(task_id);
    lemma_dec_int_reads_back(owner);
    assert(starts_with(id, "task_toggle_"@)) by {
        assert(id.subrange(0, 12) =~= "task_toggle_"@);
    }
    assert(!starts_with(id, "task_select_"@)) by {
        assert(id.subrange(0, 12)[5] != "task_select_"@[5]);
    }
}

/// The task prompt of a user (`task_select_<owner>`) is refused to anyone else.
pub proof fn lemma_select_menu_owner(
    owner: u64,
    clicker: i64,
    values: Option<Seq<Seq<char>>>,
    a: ComponentAction,
)
    ensures
        click_action_ok(a, true, select_menu_id(owner), clicker as int, values) ==> (clicker != (
        owner as i64) <==> a == ComponentAction::RejectSelect),
        click_action_ok(a, true, select_menu_id(owner), clicker as int, values) && clicker == (
        owner as i64) ==> (a is SelectTask || a is Ignore),
{
    reveal_strlit("task_select_");
    let id = select_menu_id(owner);
    let du = dec_int((owner as i64) as int);
    lemma_dec_has_no(owner as i64, 't');
    lemma_remove_prefix("task_select_"@, du);
    assert(starts_with(id, "task_select_"@)) by {
        assert(id.subrange(0, 12) =~= "task_select_"@);
    }
    lemma_dec_int_injective(clicker, owner as i64);
}

/// The delete menu of a user (`task_delete_<owner>`) is refused to anyone else.
pub proof fn lemma_delete_menu_owner(
    owner: i64,
    clicker: i64,
    values: Option<Seq<Seq<char>>>,
    a: ComponentAction,
)
    ensures
        click_action_ok(a, true, delete_menu_id(owner as int), clicker as int, values) ==> (clicker
            != owner <==> a == ComponentAction::RejectDelete),
        click_action_ok(a, true, delete_menu_id(owner as int), clicker as int, values) && clicker
            == owner ==> (a is DeleteTasks || a is Ignore),
{
    reveal_strlit("task_select_");
    reveal_strlit("task_toggle_");
    reveal_strlit("task_delete_");
    let id = delete_menu_id(owner as int);
    let du = dec_int(owner as int);
    lemma_dec_has_no(owner, 't');
    lemma_remove_prefix("task_delete_"@, du);
    assert(starts_with(id, "task_delete_"@)) by {
        assert(id.subrange(0, 12) =~= "task_delete_"@);
    }
    assert(!starts_with(id, "task_select_"@)) by {
        assert(id.subrange(0, 12)[5] != "task_select_"@[5]);
    }
    assert(!starts_with(id, "task_toggle_"@)) by {
        assert(id.subrange(0, 12)[5] != "task_toggle_"@[5]);
    }
    lemma_dec_int_injective(clicker, owner);
}

} // verus!
