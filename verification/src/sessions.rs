//! Voice sessions in progress: who is in a tracked channel since when, on
//! which task, and the time credited when a session ends or changes task.
use vstd::prelude::*;
use crate::clock::in_range;
use crate::text::{dec_int, push_i64, push_str};
use crate::todo::MenuOption;
use std::collections::HashMap;

verus! {

broadcast use vstd::std_specs::hash::group_hash_axioms;

/// A session in progress.
#[derive(Debug, Clone, Copy, PartialEq, Eq, Structural)]
pub struct SessionData {
    /// Instant the session (or its current task) started, in seconds.
    pub start_time: i64,
    /// The task being worked on, if any.
    pub active_task_id: Option<i64>,
}

/// Time to add to a user's voice statistics (and to a task).
#[derive(Debug, Clone, Copy, PartialEq, Eq, Structural)]
pub struct VoiceCredit {
    pub user_id: i64,
    pub guild_id: i64,
    pub seconds: i64,
    pub task_id: Option<i64>,
}

/// The sessions in progress, at most one per (user, guild), keyed by
/// `user * 2^64 + guild`.
#[derive(Debug)]
pub struct Sessions {
    map: HashMap<u128, SessionData>,
}

/// The map key of a (user, guild) pair: the user in the high 64 bits, the
/// guild in the low ones.
pub closed spec fn key_of(user_id: u64, guild_id: u64) -> u128 {
    (user_id * 0x1_0000_0000_0000_0000int + guild_id) as u128
}

proof fn lemma_key_exact(user_id: u64, guild_id: u64)
    ensures
        key_of(user_id, guild_id) as int == user_id * 0x1_0000_0000_0000_0000int + guild_id,
{
    assert(user_id * 0x1_0000_0000_0000_0000int <= 0xffff_ffff_ffff_ffffint
        * 0x1_0000_0000_0000_0000int) by (nonlinear_arith)
        requires
            user_id <= 0xffff_ffff_ffff_ffffint,
    ;
}

proof fn lemma_key_injective(a: u64, b: u64, c: u64, d: u64)
    requires
        key_of(a, b) == key_of(c, d),
    ensures
        a == c,
        b == d,
{
    let m: int = 0x1_0000_0000_0000_0000int;
    lemma_key_exact(a, b);
    lemma_key_exact(c, d);
    let x = key_of(a, b) as int;
    vstd::arithmetic::div_mod::lemma_fundamental_div_mod_converse(x, m, a as int, b as int);
    vstd::arithmetic::div_mod::lemma_fundamental_div_mod_converse(x, m, c as int, d as int);
}

fn key(user_id: u64, guild_id: u64) -> (k: u128)
    ensures
        k == key_of(user_id, guild_id),
{
    proof {
        lemma_key_exact(user_id, guild_id);
    }
    (user_id as u128) * 0x1_0000_0000_0000_0000u128 + (guild_id as u128)
}

/// The credit of a session that ran from `start` to `now`: nothing unless it
/// lasted a positive number of seconds.
pub open spec fn credit_of(user_id: u64, guild_id: u64, data: SessionData, now: int) -> Option<
    VoiceCredit,
> {
    if now - data.start_time > 0 {
        Some(
            VoiceCredit {
                user_id: user_id as i64,
                guild_id: guild_id as i64,
                seconds: (now - data.start_time) as i64,
                task_id: data.active_task_id,
            },
        )
    } else {
        None
    }
}

impl View for Sessions {
    type V = Map<(u64, u64), SessionData>;

    /// The sessions in progress, keyed by (user, guild).
    closed spec fn view(&self) -> Map<(u64, u64), SessionData> {
        Map::new(
            |k: (u64, u64)| self.map@.contains_key(key_of(k.0, k.1)),
            |k: (u64, u64)| self.map@[key_of(k.0, k.1)],
        )
    }
}

/// Seconds credited, zero when nothing is.
pub open spec fn credited(c: Option<VoiceCredit>) -> int {
    match c {
        Some(v) => v.seconds as int,
        None => 0,
    }
}

/// Switching tasks splits a session without losing time: a session started at
/// `start`, switched to another task at `t1` and ended at `t2` is credited
/// `t2 - start` seconds in all, the part before `t1` to the previous task and the
/// rest to the new one.
pub proof fn lemma_switch_keeps_total(
    user_id: u64,
    guild_id: u64,
    d: SessionData,
    t1: int,
    t2: int,
    task: Option<i64>,
)
    requires
        in_range(d.start_time as int),
        in_range(t1),
        in_range(t2),
        d.start_time <= t1 <= t2,
    ensures
        credited(credit_of(user_id, guild_id, d, t1)) + credited(
            credit_of(
                user_id,
                guild_id,
                SessionData { start_time: t1 as i64, active_task_id: task },
                t2,
            ),
        ) == t2 - d.start_time,
        credit_of(user_id, guild_id, d, t1) matches Some(c) ==> c.task_id == d.active_task_id,
        credit_of(
            user_id,
            guild_id,
            SessionData { start_time: t1 as i64, active_task_id: task },
            t2,
        ) matches Some(c) ==> c.task_id == task,
{
}

/// The time credited over a session started as `d`, switched to
/// `switches[i].1` at instant `switches[i].0` in turn (each switch credits the
/// part before it, as `Sessions::switch_task` does), and ended at `end` (as
/// `Sessions::finish` does).
pub open spec fn credits_over(
    user_id: u64,
    guild_id: u64,
    d: SessionData,
    switches: Seq<(i64, Option<i64>)>,
    end: int,
) -> int
    decreases switches.len(),
{
    if switches.len() == 0 {
        credited(credit_of(user_id, guild_id, d, end))
    } else {
        credited(credit_of(user_id, guild_id, d, switches[0].0 as int)) + credits_over(
            user_id,
            guild_id,
            SessionData { start_time: switches[0].0, active_task_id: switches[0].1 },
            switches.drop_first(),
            end,
        )
    }
}

/// Switch instants that are valid clock readings, come in order, and lie
/// between the start and the end of the session.
pub open spec fn switches_in_order(start: int, switches: Seq<(i64, Option<i64>)>, end: int) -> bool {
    &&& start <= end
    &&& forall|i: int| 0 <= i < switches.len() ==> in_range(#[trigger] switches[i].0 as int)
    &&& forall|i: int| 0 <= i < switches.len() ==> start <= #[trigger] switches[i].0 <= end
    &&& forall|i: int, j: int|
        0 <= i <= j < switches.len() ==> #[trigger] switches[i].0 <= #[trigger] switches[j].0
}

/// The logged voice time equals the time spent: however many times the task
/// of a session is switched, the credits of all its parts add up to the time
/// from its start to its end.
pub proof fn lemma_switches_keep_total(
    user_id: u64,
    guild_id: u64,
    d: SessionData,
    switches: Seq<(i64, Option<i64>)>,
    end: int,
)
    requires
        in_range(d.start_time as int),
        in_range(end),
        switches_in_order(d.start_time as int, switches, end),
    ensures
        credits_over(user_id, guild_id, d, switches, end) == end - d.start_time,
    decreases switches.len(),
{
    if switches.len() > 0 {
        let first = switches[0];
        let next = SessionData { start_time: first.0, active_task_id: first.1 };
        let rest = switches.drop_first();
        assert(in_range(first.0 as int));
        assert forall|i: int| 0 <= i < rest.len() implies in_range(#[trigger] rest[i].0 as int)
            && first.0 <= rest[i].0 <= end by {
            assert(rest[i] == switches[i + 1]);
            assert(in_range(switches[i + 1].0 as int));
            assert(switches[0].0 <= switches[i + 1].0);
        }
        assert forall|i: int, j: int| 0 <= i <= j < rest.len() implies #[trigger] rest[i].0
            <= #[trigger] rest[j].0 by {
            assert(rest[i] == switches[i + 1]);
            assert(rest[j] == switches[j + 1]);
            assert(switches[i + 1].0 <= switches[j + 1].0);
        }
        lemma_switches_keep_total(user_id, guild_id, next, rest, end);
    }
}

impl Sessions {
    #[verifier::type_invariant]
    spec fn well_formed(&self) -> bool {
        forall|k: u128| #[trigger] self.map@.contains_key(k) ==> in_range(self.map@[k].start_time as int)
    }

    proof fn lemma_view_starts(&self)
        requires
            self.well_formed(),
        ensures
            forall|k: (u64, u64)|
                #[trigger] self.view().contains_key(k) ==> in_range(self.view()[k].start_time as int),
    {
    }

    /// The view after the map changed at the key of (user, guild) alone.
    proof fn lemma_view_insert(
        before: Map<u128, SessionData>,
        after: Map<u128, SessionData>,
        user_id: u64,
        guild_id: u64,
        data: SessionData,
    )
        requires
            after == before.insert(key_of(user_id, guild_id), data),
        ensures
            Sessions::view_of(after) == Sessions::view_of(before).insert((user_id, guild_id), data),
    {
        assert forall|k: (u64, u64)| k != (user_id, guild_id) implies key_of(k.0, k.1) != key_of(
            user_id,
            guild_id,
        ) by {
            if key_of(k.0, k.1) == key_of(user_id, guild_id) {
                lemma_key_injective(k.0, k.1, user_id, guild_id);
            }
        }
        assert(Sessions::view_of(after) =~= Sessions::view_of(before).insert((user_id, guild_id), data));
    }

    proof fn lemma_view_remove(
        before: Map<u128, SessionData>,
        after: Map<u128, SessionData>,
        user_id: u64,
        guild_id: u64,
    )
        requires
            after == before.remove(key_of(user_id, guild_id)),
        ensures
            Sessions::view_of(after) == Sessions::view_of(before).remove((user_id, guild_id)),
    {
        assert forall|k: (u64, u64)| k != (user_id, guild_id) implies key_of(k.0, k.1) != key_of(
            user_id,
            guild_id,
        ) by {
            if key_of(k.0, k.1) == key_of(user_id, guild_id) {
                lemma_key_injective(k.0, k.1, user_id, guild_id);
            }
        }
        assert(Sessions::view_of(after) =~= Sessions::view_of(before).remove((user_id, guild_id)));
    }

    spec fn view_of(m: Map<u128, SessionData>) -> Map<(u64, u64), SessionData> {
        Map::new(|k: (u64, u64)| m.contains_key(key_of(k.0, k.1)), |k: (u64, u64)| m[key_of(k.0, k.1)])
    }

    pub fn new() -> (s: Self)
        ensures
            s@ == Map::<(u64, u64), SessionData>::empty(),
    {
        let s = Sessions { map: HashMap::new() };
        assert(s@ =~= Map::<(u64, u64), SessionData>::empty());
        s
    }

    /// Whether `user_id` has a session in progress in `guild_id`.
    pub fn contains(&self, user_id: u64, guild_id: u64) -> (b: bool)
        ensures
            b == self@.contains_key((user_id, guild_id)),
    {
        let k = key(user_id, guild_id);
        self.map.contains_key(&k)
    }

    /// The session of `user_id` in `guild_id`, if any.
    pub fn get(&self, user_id: u64, guild_id: u64) -> (r: Option<SessionData>)
        ensures
            r is Some <==> self@.contains_key((user_id, guild_id)),
            r matches Some(d) ==> d == self@[(user_id, guild_id)],
    {
        let k = key(user_id, guild_id);
        match self.map.get(&k) {
            Some(d) => Some(*d),
            None => None,
        }
    }

    /// Starts a session unless one is in progress; returns whether it started.
    pub fn start(&mut self, user_id: u64, guild_id: u64, data: SessionData) -> (started: bool)
        requires
            in_range(data.start_time as int),
        ensures
            started == !old(self)@.contains_key((user_id, guild_id)),
            started ==> final(self)@ == old(self)@.insert((user_id, guild_id), data),
            !started ==> final(self)@ == old(self)@,
    {
        proof {
            use_type_invariant(&*self);
        }
        if self.contains(user_id, guild_id) {
            return false;
        }
        let ghost before = self.map@;
        let k = key(user_id, guild_id);
        let mut m: HashMap<u128, SessionData> = HashMap::new();
        std::mem::swap(&mut m, &mut self.map);
        m.insert(k, data);
        proof {
            Sessions::lemma_view_insert(before, m@, user_id, guild_id, data);
        }
        self.map = m;
        true
    }

    /// Ends the session of `user_id` in `guild_id`, if any, and returns it.
    pub fn remove(&mut self, user_id: u64, guild_id: u64) -> (r: Option<SessionData>)
        ensures
            r is Some <==> old(self)@.contains_key((user_id, guild_id)),
            r matches Some(d) ==> d == old(self)@[(user_id, guild_id)],
            final(self)@ == old(self)@.remove((user_id, guild_id)),
    {
        proof {
            use_type_invariant(&*self);
        }
        let ghost before = self.map@;
        let k = key(user_id, guild_id);
        let mut m: HashMap<u128, SessionData> = HashMap::new();
        std::mem::swap(&mut m, &mut self.map);
        let r = m.remove(&k);
        proof {
            Sessions::lemma_view_remove(before, m@, user_id, guild_id);
        }
        self.map = m;
        r
    }

    /// Ends the session of `user_id` in `guild_id` at `now` (the user left the
    /// tracked channels), and returns the time to credit, if any.
    pub fn finish(&mut self, user_id: u64, guild_id: u64, now: i64) -> (c: Option<VoiceCredit>)
        requires
            in_range(now as int),
        ensures
            final(self)@ == old(self)@.remove((user_id, guild_id)),
            c == (if old(self)@.contains_key((user_id, guild_id)) {
                credit_of(user_id, guild_id, old(self)@[(user_id, guild_id)], now as int)
            } else {
                None
            }),
    {
        proof {
            use_type_invariant(&*self);
            self.lemma_view_starts();
        }
        match self.remove(user_id, guild_id) {
            None => None,
            Some(d) => credit(user_id, guild_id, d, now),
        }
    }

    /// Switches the task of a session in progress at `now`: the time so far is
    /// credited to the previous task and the session restarts on `task_id`.
    /// Nothing happens without a session.
    pub fn switch_task(&mut self, user_id: u64, guild_id: u64, now: i64, task_id: Option<i64>) -> (c:
        Option<VoiceCredit>)
        requires
            in_range(now as int),
        ensures
            old(self)@.contains_key((user_id, guild_id)) ==> {
                &&& c == credit_of(user_id, guild_id, old(self)@[(user_id, guild_id)], now as int)
                &&& final(self)@ == old(self)@.insert(
                    (user_id, guild_id),
                    SessionData { start_time: now, active_task_id: task_id },
                )
            },
            !old(self)@.contains_key((user_id, guild_id)) ==> c is None && final(self)@ == old(
                self,
            )@,
    {
        proof {
            use_type_invariant(&*self);
            self.lemma_view_starts();
        }
        match self.remove(user_id, guild_id) {
            None => None,
            Some(d) => {
                let c = credit(user_id, guild_id, d, now);
                let ghost mid = self@;
                let started = self.start(
                    user_id,
                    guild_id,
                    SessionData { start_time: now, active_task_id: task_id },
                );
                assert(self@ =~= old(self)@.insert(
                    (user_id, guild_id),
                    SessionData { start_time: now, active_task_id: task_id },
                ));
                c
            },
        }
    }
}

fn credit(user_id: u64, guild_id: u64, d: SessionData, now: i64) -> (c: Option<VoiceCredit>)
    requires
        in_range(now as int),
        in_range(d.start_time as int),
    ensures
        c == credit_of(user_id, guild_id, d, now as int),
{
    let duration = now - d.start_time;
    if duration > 0 {
        Some(
            VoiceCredit {
                user_id: user_id as i64,
                guild_id: guild_id as i64,
                seconds: duration,
                task_id: d.active_task_id,
            },
        )
    } else {
        None
    }
}

// ---------------------------------------------------------------------------
// Joining a tracked channel: the session and the task prompt
// ---------------------------------------------------------------------------

/// A pending task of the user joining a tracked channel.
#[derive(Debug)]
pub struct PendingTask {
    pub task_id: i64,
    pub description: String,
    pub is_last_selected: bool,
}

/// The prompt that asks which task the new session is for.
#[derive(Debug)]
pub struct SessionPrompt {
    pub content: String,
    pub menu_id: String,
    pub options: Vec<MenuOption>,
}

/// Index of the last pending task marked as last selected.
pub open spec fn last_selected(p: Seq<PendingTask>) -> Option<int>
    decreases p.len(),
{
    if p.len() == 0 {
        None
    } else if p.last().is_last_selected {
        Some(p.len() - 1)
    } else {
        last_selected(p.drop_last())
    }
}

proof fn lemma_last_selected_bound(p: Seq<PendingTask>)
    ensures
        last_selected(p) matches Some(i) ==> 0 <= i < p.len(),
    decreases p.len(),
{
    if p.len() > 0 {
        lemma_last_selected_bound(p.drop_last());
    }
}

/// `last_selected` finds the last flagged task, and none when no task is flagged.
proof fn lemma_last_selected_is_last_flagged(p: Seq<PendingTask>)
    ensures
        last_selected(p) matches Some(i) ==> 0 <= i < p.len() && p[i].is_last_selected && forall|
            k: int,
        | i < k < p.len() ==> !(#[trigger] p[k]).is_last_selected,
        last_selected(p) is None ==> forall|k: int| 0 <= k < p.len() ==> !(#[trigger] p[k]).is_last_selected,
    decreases p.len(),
{
    if p.len() > 0 {
        let q = p.drop_last();
        lemma_last_selected_is_last_flagged(q);
        if !p.last().is_last_selected {
            assert(last_selected(p) == last_selected(q));
            match last_selected(q) {
                Some(i) => {
                    assert forall|k: int| i < k < p.len() implies !(#[trigger] p[k]).is_last_selected by {
                        if k < q.len() {
                            assert(q[k] == p[k]);
                        }
                    }
                },
                None => {
                    assert forall|k: int| 0 <= k < p.len() implies !(#[trigger] p[k]).is_last_selected by {
                        if k < q.len() {
                            assert(q[k] == p[k]);
                        }
                    }
                },
            }
        }
    }
}

/// The task a new session starts on: the last one selected before, if pending.
pub open spec fn initial_task(p: Seq<PendingTask>) -> Option<i64> {
    match last_selected(p) {
        Some(i) => Some(p[i].task_id),
        None => None,
    }
}

pub open spec fn active_name(p: Seq<PendingTask>) -> Seq<char> {
    match last_selected(p) {
        Some(i) => p[i].description@,
        None => "Nothing in particular"@,
    }
}

pub open spec fn prompt_content(user_id: u64, p: Seq<PendingTask>) -> Seq<char> {
    "<@"@ + dec_int((user_id as i64) as int) + "> Currently working on.. "@ + active_name(p)
        + ". Change status?"@
}

pub open spec fn select_menu_id(user_id: u64) -> Seq<char> {
    "task_select_"@ + dec_int((user_id as i64) as int)
}

/// Option `i` of the prompt: first "Nothing in particular", then the pending tasks.
pub open spec fn prompt_option_ok(o: MenuOption, p: Seq<PendingTask>, i: int) -> bool {
    if i == 0 {
        &&& o.label@ == "Nothing in particular"@
        &&& o.value@ == "none"@
        &&& o.default_selected == (initial_task(p) is None)
    } else {
        &&& o.label@ == p[i - 1].description@
        &&& o.value@ == dec_int(p[i - 1].task_id as int)
        &&& o.default_selected == p[i - 1].is_last_selected
    }
}

/// The prompt: its text names the current task, and its menu offers at most 25
/// options.
pub open spec fn prompt_for(pr: SessionPrompt, user_id: u64, p: Seq<PendingTask>) -> bool {
    let k = if p.len() + 1 < 25 {
        p.len() + 1
    } else {
        25
    };
    &&& pr.content@ == prompt_content(user_id, p)
    &&& pr.menu_id@ == select_menu_id(user_id)
    &&& pr.options@.len() == k
    &&& forall|i: int| 0 <= i < k ==> prompt_option_ok(#[trigger] pr.options@[i], p, i)
}

fn find_last_selected(p: &Vec<PendingTask>) -> (r: Option<usize>)
    ensures
        r matches Some(i) ==> last_selected(p@) == Some(i as int) && i < p@.len(),
        r is None ==> last_selected(p@) is None,
{
    let n = p.len();
    let mut found: Option<usize> = None;
    let mut i: usize = 0;
    while i < n
        invariant
            n == p@.len(),
            i <= n,
            found matches Some(j) ==> last_selected(p@.take(i as int)) == Some(j as int) && j < i,
            found is None ==> last_selected(p@.take(i as int)) is None,
        decreases n - i,
    {
        assert(p@.take(i + 1).drop_last() =~= p@.take(i as int));
        if p[i].is_last_selected {
            found = Some(i);
        }
        i = i + 1;
    }
    assert(p@.take(n as int) =~= p@);
    found
}

/// A session opened on joining runs on the task whose "last selected" flag is
/// set (the last such task if several are), the very task the prompt names as
/// current; with no flagged task it runs on no task and the prompt says
/// "Nothing in particular".
pub proof fn lemma_session_starts_on_flagged_task(user_id: u64, p: Seq<PendingTask>)
    ensures
        initial_task(p) is Some <==> exists|j: int| 0 <= j < p.len() && (#[trigger] p[j]).is_last_selected,
        initial_task(p) matches Some(id) ==> exists|j: int|
            {
                &&& 0 <= j < p.len()
                &&& (#[trigger] p[j]).is_last_selected
                &&& p[j].task_id == id
                &&& prompt_content(user_id, p) == "<@"@ + dec_int((user_id as i64) as int)
                    + "> Currently working on.. "@ + p[j].description@ + ". Change status?"@
                &&& forall|k: int| j < k < p.len() ==> !p[k].is_last_selected
            },
        initial_task(p) is None ==> prompt_content(user_id, p) == "<@"@ + dec_int(
            (user_id as i64) as int,
        ) + "> Currently working on.. "@ + "Nothing in particular"@ + ". Change status?"@,
{
    lemma_last_selected_is_last_flagged(p);
    if let Some(i) = last_selected(p) {
        assert(p[i].is_last_selected);
    }
}

impl Sessions {
    /// A user joined a tracked channel at `now`: unless a session is already in
    /// progress, one starts on the last selected pending task, and the prompt to
    /// change the task is returned.
    pub fn open_session(
        &mut self,
        user_id: u64,
        guild_id: u64,
        now: i64,
        pending: &Vec<PendingTask>,
    ) -> (r: Option<SessionPrompt>)
        requires
            in_range(now as int),
        ensures
            old(self)@.contains_key((user_id, guild_id)) ==> r is None && final(self)@ == old(
                self,
            )@,
            !old(self)@.contains_key((user_id, guild_id)) ==> {
                &&& r matches Some(pr) && prompt_for(pr, user_id, pending@)
                &&& final(self)@ == old(self)@.insert(
                    (user_id, guild_id),
                    SessionData { start_time: now, active_task_id: initial_task(pending@) },
                )
            },
    {
        if self.contains(user_id, guild_id) {
            return None;
        }
        let last = find_last_selected(pending);
        proof {
            lemma_last_selected_bound(pending@);
        }
        let initial: Option<i64> = match last {
            Some(i) => Some(pending[i].task_id),
            None => None,
        };
        self.start(user_id, guild_id, SessionData { start_time: now, active_task_id: initial });
        let uid = user_id as i64;
        let mut content = String::new();
        push_str(&mut content, "<@");
        push_i64(&mut content, uid);
        push_str(&mut content, "> Currently working on.. ");
        match last {
            Some(i) => push_str(&mut content, pending[i].description.as_str()),
            None => push_str(&mut content, "Nothing in particular"),
        }
        push_str(&mut content, ". Change status?");
        assert(content@ =~= prompt_content(user_id, pending@));
        let mut menu_id = String::new();
        push_str(&mut menu_id, "task_select_");
        push_i64(&mut menu_id, uid);
        assert(menu_id@ =~= select_menu_id(user_id));
        let mut options: Vec<MenuOption> = Vec::new();
        options.push(
            MenuOption {
                label: String::from_str("Nothing in particular"),
                value: String::from_str("none"),
                default_selected: initial.is_none(),
            },
        );
        let n = pending.len();
        let k: usize = if n < 24 { n + 1 } else { 25 };
        let mut i: usize = 1;
        while i < k
            invariant
                n == pending@.len(),
                k <= n + 1,
                1 <= i <= k,
                options@.len() == i,
                initial == initial_task(pending@),
                forall|j: int| 0 <= j < i ==> prompt_option_ok(#[trigger] options@[j], pending@, j),
            decreases k - i,
        {
            let t = &pending[i - 1];
            options.push(
                MenuOption {
                    label: String::from_str(t.description.as_str()),
                    value: crate::text::i64_text(t.task_id),
                    default_selected: t.is_last_selected,
                },
            );
            i = i + 1;
        }
        Some(SessionPrompt { content, menu_id, options })
    }
}

} // verus!
