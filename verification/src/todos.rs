//! The to-do commands: adding, editing, completing, postponing and deleting to-dos, and
//! buying a theme with points.
use vstd::prelude::*;

use crate::clock::{clock_time, parse_time_today};
use crate::logic::{gain_total, loss_total, ledger_totals, add_points_at, badges_checked, check_badges_at, day_has_timed_completion, early_done_on, fits_i64, is_palette_color, ledger_after, palette_contains, reward_due, reward_if_due_at, reward_info_of, reward_step, points_on_day, theme_price, theme_price_of, total_after, RewardInfo, BADGE_COUNT, DAY_BONUS};
use crate::siren::SIREN_LEAD_MS;
use crate::store::{ledger_view, Data, Todo};
use crate::text::{opt_str, chars_of, has_prefix, i64_text, int_text, push_all, push_str, same_text, str_starts_with, string_from_chars, trim, trim_ws, holds_text};

verus! {

// ---------------------------------------------------------------------------
// Finding a to-do
// ---------------------------------------------------------------------------

/// Whether the to-do has the id (and, when a day is given, is on that day).
pub open spec fn todo_matches(t: Todo, id: Seq<char>, day: Option<Seq<char>>) -> bool {
    t.id@ == id && (day matches Some(d) ==> t.date@ == d)
}

/// The first index of a to-do that matches.
pub open spec fn first_todo_with(todos: Seq<Todo>, id: Seq<char>, day: Option<Seq<char>>) -> Option<int>
    decreases todos.len(),
{
    if todos.len() == 0 {
        None
    } else {
        match first_todo_with(todos.drop_last(), id, day) {
            Some(i) => Some(i),
            None => if todo_matches(todos.last(), id, day) {
                Some(todos.len() - 1)
            } else {
                None
            },
        }
    }
}

/// The to-do a command with this id is about: the first one of `today` with the id, else
/// the first one with the id. (Notion items of an earlier day can share an id.)
pub open spec fn todo_index_for(todos: Seq<Todo>, id: Seq<char>, today: Seq<char>) -> Option<int> {
    match first_todo_with(todos, id, Some(today)) {
        Some(i) => Some(i),
        None => first_todo_with(todos, id, None),
    }
}

pub proof fn lemma_first_todo_with_bounds(todos: Seq<Todo>, id: Seq<char>, day: Option<Seq<char>>)
    ensures
        first_todo_with(todos, id, day) matches Some(i) ==> 0 <= i < todos.len() && todo_matches(
            todos[i],
            id,
            day,
        ),
    decreases todos.len(),
{
    if todos.len() > 0 {
        lemma_first_todo_with_bounds(todos.drop_last(), id, day);
    }
}

pub proof fn lemma_todo_index_for_bounds(todos: Seq<Todo>, id: Seq<char>, today: Seq<char>)
    ensures
        todo_index_for(todos, id, today) matches Some(i) ==> 0 <= i < todos.len() && todos[i].id@ == id,
{
    lemma_first_todo_with_bounds(todos, id, Some(today));
    lemma_first_todo_with_bounds(todos, id, None);
}

fn first_with(todos: &Vec<Todo>, id: &str, day: Option<&str>) -> (r: Option<usize>)
    ensures
        r matches Some(i) ==> first_todo_with(todos@, id@, opt_str(day)) == Some(i as int),
        r is None ==> first_todo_with(todos@, id@, opt_str(day)) is None,
{
    let ghost dv = match day {
        Some(d) => Some(d@),
        None => None,
    };
    let mut i: usize = 0;
    while i < todos.len()
        invariant
            i <= todos@.len(),
            dv == opt_str(day),
            first_todo_with(todos@.take(i as int), id@, dv) is None,
        decreases todos@.len() - i,
    {
        assert(todos@.take(i + 1).drop_last() =~= todos@.take(i as int));
        let t = &todos[i];
        let day_ok = match day {
            Some(d) => same_text(t.date.as_str(), d),
            None => true,
        };
        if day_ok && same_text(t.id.as_str(), id) {
            assert(first_todo_with(todos@.take(i + 1), id@, dv) == Some(i as int));
            proof {
                lemma_first_todo_with_extend(todos@, id@, dv, i as int, todos@.len() as int);
                assert(todos@.take(todos@.len() as int) =~= todos@);
            }
            return Some(i);
        }
        i = i + 1;
    }
    assert(todos@.take(todos@.len() as int) =~= todos@);
    None
}

proof fn lemma_first_todo_with_extend(todos: Seq<Todo>, id: Seq<char>, day: Option<Seq<char>>, k: int, m: int)
    requires
        0 <= k < m <= todos.len(),
        first_todo_with(todos.take(k + 1), id, day) == Some(k),
    ensures
        first_todo_with(todos.take(m), id, day) == Some(k),
    decreases m - k,
{
    if m > k + 1 {
        lemma_first_todo_with_extend(todos, id, day, k, m - 1);
        assert(todos.take(m).drop_last() =~= todos.take(m - 1));
    }
}

pub fn find_todo_index(data: &Data, id: &str, today: &str) -> (r: Option<usize>)
    ensures
        r matches Some(i) ==> todo_index_for(data.todos@, id@, today@) == Some(i as int),
        r is None ==> todo_index_for(data.todos@, id@, today@) is None,
{
    match first_with(&data.todos, id, Some(today)) {
        Some(i) => Some(i),
        None => first_with(&data.todos, id, None),
    }
}

// ---------------------------------------------------------------------------
// Adding
// ---------------------------------------------------------------------------

/// The colour a new or edited to-do gets: the one asked for when it is in the palette.
pub open spec fn chosen_color(color: Option<Seq<char>>) -> Seq<char> {
    match color {
        Some(c) if is_palette_color(c) => c,
        _ => "yellow"@,
    }
}

/// A deadline already past when it is set counts as dealt with.
pub open spec fn ack_for(due: Option<i64>, now: i64) -> Option<i64> {
    match due {
        Some(d) if d < now => Some(d),
        _ => None,
    }
}

/// `t` is the new to-do for these inputs, with the deadline `due`.
pub open spec fn new_todo_ok(
    t: Todo,
    title: Seq<char>,
    color: Option<Seq<char>>,
    today: Seq<char>,
    now: i64,
    suffix: Seq<char>,
    due: Option<i64>,
) -> bool {
    &&& t.id@ == "t"@ + int_text(now as int) + suffix
    &&& t.title@ == trim_ws(title)
    &&& t.color@ == chosen_color(color)
    &&& t.date@ == today
    &&& !t.done
    &&& t.created_at == now
    &&& t.due_at == due
    &&& t.done_at is None
    &&& t.awarded is None
    &&& t.postpones is None
    &&& t.ack_due == ack_for(due, now)
    &&& t.notion_page_id is None
    &&& t.notion_due_at is None
    &&& t.notion_done is None
    &&& t.bridge_source is None
    &&& t.bridge_synced_at is None
    &&& t.deferred_from is None
    &&& t.deferred_at is None
}

/// The deadline asked for: none without a time, else one only where the time reads as a
/// time of day.
pub open spec fn due_from_time(time: Option<Seq<char>>, due: Option<i64>) -> bool {
    match time {
        None => due is None,
        Some(s) => (s.len() == 0 || clock_time(s) is None) ==> due is None,
    }
}

fn chosen_color_of(color: Option<&str>) -> (r: String)
    ensures
        r@ == chosen_color(opt_str(color)),
{
    match color {
        Some(c) => {
            if palette_contains(c) {
                String::from_str(c)
            } else {
                String::from_str("yellow")
            }
        },
        None => String::from_str("yellow"),
    }
}

/// The deadline a new to-do asks for: none without a time or with an empty one; else
/// today at that time, as the clock's time zone gives it (`parse_time_today`).
pub fn deadline_for(time: Option<&str>) -> (r: Option<i64>)
    ensures
        due_from_time(opt_str(time), r),
{
    match time {
        Some(s) => {
            if s.is_empty() {
                None
            } else {
                parse_time_today(s)
            }
        },
        None => None,
    }
}

/// Adds a to-do for `today` created at `now` with the deadline `due`, its id made of
/// `now` and `suffix`; nothing happens when the title is blank.
pub fn todos_add(
    data: &mut Data,
    title: &str,
    due: Option<i64>,
    color: Option<&str>,
    today: &str,
    now: i64,
    suffix: &str,
) -> (r: Option<Todo>)
    ensures
        r is None <==> trim_ws(title@).len() == 0,
        r is None ==> *final(data) == *old(data),
        r matches Some(t) ==> new_todo_ok(t, title@, opt_str(color), today@, now, suffix@, due),
        r matches Some(t) ==> final(data).todos@ == old(data).todos@.push(t),
        final(data).settings == old(data).settings,
        final(data).streak == old(data).streak,
        final(data).last_reward_date == old(data).last_reward_date,
        final(data).points == old(data).points,
        final(data).stats == old(data).stats,
        final(data).badges == old(data).badges,
        final(data).suppressed_notion_ids == old(data).suppressed_notion_ids,
{
    let tv = chars_of(title);
    let tt = trim(&tv);
    if tt.len() == 0 {
        return None;
    }
    let mut id: Vec<char> = chars_of("t");
    let nt = i64_text(now);
    push_all(&mut id, &nt);
    push_str(&mut id, suffix);
    let ack = match due {
        Some(d) => if d < now {
            Some(d)
        } else {
            None
        },
        None => None,
    };
    let t = Todo {
        id: string_from_chars(&id),
        title: string_from_chars(&tt),
        color: chosen_color_of(color),
        date: String::from_str(today),
        done: false,
        created_at: now,
        due_at: due,
        done_at: None,
        awarded: None,
        postpones: None,
        ack_due: ack,
        notion_page_id: None,
        notion_due_at: None,
        notion_done: None,
        bridge_source: None,
        bridge_synced_at: None,
        deferred_from: None,
        deferred_at: None,
    };
    assert(new_todo_ok(
        t,
        title@,
        opt_str(color),
        today@,
        now,
        suffix@,
        due,
    ));
    data.todos.push(t.clone());
    Some(t)
}

// ---------------------------------------------------------------------------
// Deleting
// ---------------------------------------------------------------------------

/// A to-do brought in from Notion by the bridge.
pub open spec fn from_notion_bridge(t: Todo) -> bool {
    t.bridge_source matches Some(b) && has_prefix(b@, "notion-"@)
}

/// Removes the to-do with this id (see `todo_index_for`); a bridged Notion page is then
/// suppressed so that it is not fetched again.
pub fn todos_delete(data: &mut Data, id: &str, today: &str) -> (r: bool)
    ensures
        r,
        match todo_index_for(old(data).todos@, id@, today@) {
            None => *final(data) == *old(data),
            Some(i) => {
                let t = old(data).todos@[i];
                &&& final(data).todos@ == old(data).todos@.remove(i)
                &&& final(data).suppressed_notion_ids@ == if from_notion_bridge(t) && t.notion_page_id is Some
                    && !holds_text(old(data).suppressed_notion_ids@, t.notion_page_id->0@) {
                    old(data).suppressed_notion_ids@.push(t.notion_page_id->0)
                } else {
                    old(data).suppressed_notion_ids@
                }
                &&& final(data).settings == old(data).settings
                &&& final(data).streak == old(data).streak
                &&& final(data).last_reward_date == old(data).last_reward_date
                &&& final(data).points == old(data).points
                &&& final(data).stats == old(data).stats
                &&& final(data).badges == old(data).badges
            },
        },
{
    proof {
        lemma_todo_index_for_bounds(data.todos@, id@, today@);
    }
    let i = match find_todo_index(data, id, today) {
        Some(i) => i,
        None => return true,
    };
    let t = data.todos.remove(i);
    let bridged = match &t.bridge_source {
        Some(b) => str_starts_with(b.as_str(), "notion-"),
        None => false,
    };
    if bridged {
        match t.notion_page_id {
            Some(pid) => {
                let mut k: usize = 0;
                let mut seen = false;
                while k < data.suppressed_notion_ids.len()
                    invariant
                        k <= data.suppressed_notion_ids@.len(),
                        seen == exists|j: int| 0 <= j < k && (#[trigger] data.suppressed_notion_ids@[j])@ == pid@,
                    decreases data.suppressed_notion_ids@.len() - k,
                {
                    if same_text(data.suppressed_notion_ids[k].as_str(), pid.as_str()) {
                        seen = true;
                    }
                    k = k + 1;
                }
                if !seen {
                    data.suppressed_notion_ids.push(pid);
                }
            },
            None => {},
        }
    }
    true
}

// ---------------------------------------------------------------------------
// Postponing
// ---------------------------------------------------------------------------

/// Points taken for postponing.
pub const POSTPONE_COST: i64 = 3;

pub open spec fn due_or_zero(t: Todo) -> int {
    match t.due_at {
        Some(d) => d as int,
        None => 0,
    }
}

/// A delay of at least one minute: asking for less postpones by one.
pub open spec fn postpone_minutes(minutes: i64) -> i64 {
    if minutes < 1 {
        1
    } else {
        minutes
    }
}

/// The new deadline: `minutes` after the later of now and the current deadline.
pub open spec fn postponed_due(t: Todo, minutes: int, now: int) -> int {
    (if now >= due_or_zero(t) { now } else { due_or_zero(t) }) + minutes * 60000
}

/// The counts and sums of postponing fit in an `i64`.
pub open spec fn postpone_arith_ok(d: Data, i: int, minutes: i64, now: i64) -> bool {
    &&& fits_i64(postponed_due(d.todos@[i], postpone_minutes(minutes) as int, now as int))
    &&& fits_i64(postpone_minutes(minutes) * 60000)
    &&& (match d.todos@[i].postpones { Some(p) => p < i64::MAX, None => true })
    &&& fits_i64(d.points.total - POSTPONE_COST)
}

pub open spec fn postpones_or_zero(t: Todo) -> int {
    match t.postpones {
        Some(p) => p as int,
        None => 0,
    }
}

/// Moves the deadline of the to-do with this id `minutes` (at least one) past the later of
/// now and its deadline, counts the postponement and takes 3 points.
pub fn todos_postpone(data: &mut Data, id: &str, today: &str, minutes: i64, now: i64) -> (r: Option<Todo>)
    requires
        todo_index_for(old(data).todos@, id@, today@) matches Some(i) ==> postpone_arith_ok(*old(data), i, minutes, now),
    ensures
        match todo_index_for(old(data).todos@, id@, today@) {
            None => r is None && *final(data) == *old(data),
            Some(i) => {
                let t = old(data).todos@[i];
                let nt = Todo {
                    due_at: Some(postponed_due(t, postpone_minutes(minutes) as int, now as int) as i64),
                    postpones: Some((postpones_or_zero(t) + 1) as i64),
                    ack_due: None,
                    ..t
                };
                &&& r == Some(nt)
                &&& final(data).todos@ == old(data).todos@.update(i, nt)
                &&& final(data).points.total == total_after(old(data).points.total as int, -POSTPONE_COST)
                &&& ledger_view(final(data).points.ledger@) == ledger_after(
                    ledger_view(old(data).points.ledger@),
                    (now, (-POSTPONE_COST) as i64, "미루기: "@ + t.title@),
                )
                &&& final(data).settings == old(data).settings
                &&& final(data).streak == old(data).streak
                &&& final(data).last_reward_date == old(data).last_reward_date
                &&& final(data).stats == old(data).stats
                &&& final(data).badges == old(data).badges
                &&& final(data).suppressed_notion_ids == old(data).suppressed_notion_ids
            },
        },
{
    proof {
        lemma_todo_index_for_bounds(data.todos@, id@, today@);
    }
    let i = match find_todo_index(data, id, today) {
        Some(i) => i,
        None => return None,
    };
    let mut t = data.todos[i].clone();
    let d0 = match t.due_at {
        Some(d) => d,
        None => 0,
    };
    let base = if now >= d0 {
        now
    } else {
        d0
    };
    let minutes: i64 = if minutes < 1 {
        1
    } else {
        minutes
    };
    t.due_at = Some(base + minutes * 60000);
    t.postpones = Some(
        match t.postpones {
            Some(p) => p,
            None => 0,
        } + 1,
    );
    t.ack_due = None;
    let mut reason = chars_of("미루기: ");
    push_str(&mut reason, t.title.as_str());
    let reason_s = string_from_chars(&reason);
    data.todos.set(i, t.clone());
    add_points_at(data, -POSTPONE_COST, reason_s.as_str(), now);
    Some(t)
}

/// The to-do deferred to another day (the day it leaves being its own, or `today` when it
/// has none, given second): its deadline becomes `moved_due` when it has one, the postponement
/// is counted, the siren of the old deadline forgotten, and the deferral recorded at `now`.
pub open spec fn deferred_todo(t: Todo, today: Seq<char>, moved_due: Option<i64>, now: i64) -> (
    Todo,
    Seq<char>,
) {
    let from = if t.date@.len() == 0 { today } else { t.date@ };
    (
        Todo {
            due_at: if t.due_at is Some { moved_due } else { None },
            postpones: Some((postpones_or_zero(t) + 1) as i64),
            ack_due: None,
            deferred_at: Some(now),
            ..t
        },
        from,
    )
}

/// Moves the open to-do with this id to the day `target`, its deadline (if it has one) to
/// `moved_due`, the same local time on that day as the caller computes it; a done to-do is
/// given back unchanged.
pub fn todos_defer(
    data: &mut Data,
    id: &str,
    today: &str,
    target: &str,
    moved_due: Option<i64>,
    now: i64,
) -> (r: Option<Todo>)
    requires
        todo_index_for(old(data).todos@, id@, today@) matches Some(i) ==> postpones_or_zero(
            old(data).todos@[i],
        ) < i64::MAX,
    ensures
        match todo_index_for(old(data).todos@, id@, today@) {
            None => r is None && *final(data) == *old(data),
            Some(i) => {
                let t = old(data).todos@[i];
                if t.done {
                    r == Some(t) && *final(data) == *old(data)
                } else {
                    let (nt, from) = deferred_todo(t, today@, moved_due, now);
                    &&& r matches Some(x) && x.date@ == target@ && (x.deferred_from matches Some(f) && f@ == from)
                        && x == (Todo { date: x.date, deferred_from: x.deferred_from, ..nt })
                    &&& final(data).todos@ == old(data).todos@.update(i, r->0)
                    &&& final(data).settings == old(data).settings
                    &&& final(data).streak == old(data).streak
                    &&& final(data).last_reward_date == old(data).last_reward_date
                    &&& final(data).points == old(data).points
                    &&& final(data).stats == old(data).stats
                    &&& final(data).badges == old(data).badges
                    &&& final(data).suppressed_notion_ids == old(data).suppressed_notion_ids
                }
            },
        },
{
    proof {
        lemma_todo_index_for_bounds(data.todos@, id@, today@);
    }
    let i = match find_todo_index(data, id, today) {
        Some(i) => i,
        None => return None,
    };
    let mut t = data.todos[i].clone();
    if t.done {
        return Some(t);
    }
    let ghost t0 = t;
    let from = if t.date.as_str().is_empty() {
        String::from_str(today)
    } else {
        t.date.clone()
    };
    t.date = String::from_str(target);
    t.due_at = match t.due_at {
        Some(_) => moved_due,
        None => None,
    };
    let p = match t.postpones {
        Some(p) => p,
        None => 0,
    };
    t.postpones = Some(p + 1);
    t.ack_due = None;
    t.deferred_from = Some(from);
    t.deferred_at = Some(now);
    data.todos.set(i, t.clone());
    Some(t)
}

// ---------------------------------------------------------------------------
// Editing
// ---------------------------------------------------------------------------

/// What an edit does to the deadline.
#[derive(Clone, Copy, Debug, PartialEq, Eq)]
pub enum DeadlineEdit {
    /// The deadline stays.
    Keep,
    /// The deadline is removed.
    Clear,
    /// The deadline becomes this instant.
    SetTo(i64),
}

/// The fields an edit may change; absent ones stay.
pub struct TodoPatch {
    pub title: Option<String>,
    pub color: Option<String>,
    pub deadline: DeadlineEdit,
}

/// The deadline edit a time asks for: none without a time, removal for an empty one, and
/// for a time of day today at that time (as the clock's time zone gives it), the deadline
/// staying where that time does not read or does not exist today.
pub fn deadline_edit(time: Option<&str>) -> (r: DeadlineEdit)
    ensures
        time is None ==> r == DeadlineEdit::Keep,
        time matches Some(s) && s@.len() == 0 ==> r == DeadlineEdit::Clear,
        time matches Some(s) && s@.len() > 0 && clock_time(s@) is None ==> r == DeadlineEdit::Keep,
        time matches Some(s) && s@.len() > 0 ==> (r is Keep || r is SetTo),
{
    match time {
        None => DeadlineEdit::Keep,
        Some(s) => {
            if s.is_empty() {
                DeadlineEdit::Clear
            } else {
                match parse_time_today(s) {
                    Some(d) => DeadlineEdit::SetTo(d),
                    None => DeadlineEdit::Keep,
                }
            }
        },
    }
}

/// The title after an edit: the trimmed new one unless it is blank.
pub open spec fn edited_title(t: Todo, title: Option<String>) -> Seq<char> {
    match title {
        Some(s) if trim_ws(s@).len() > 0 => trim_ws(s@),
        _ => t.title@,
    }
}

/// The colour after an edit: the new one when it is in the palette.
pub open spec fn edited_color(t: Todo, color: Option<String>) -> Seq<char> {
    match color {
        Some(c) if is_palette_color(c@) => c@,
        _ => t.color@,
    }
}

/// The deadline and its acknowledgement after an edit: a new deadline already past counts
/// as dealt with.
pub open spec fn edited_deadline(t: Todo, e: DeadlineEdit, now: i64) -> (Option<i64>, Option<i64>) {
    match e {
        DeadlineEdit::Keep => (t.due_at, t.ack_due),
        DeadlineEdit::Clear => (None, None),
        DeadlineEdit::SetTo(d) => (Some(d), ack_for(Some(d), now)),
    }
}

/// Edits the to-do with this id.
pub fn todos_update(data: &mut Data, id: &str, today: &str, patch: &TodoPatch, now: i64) -> (r: Option<Todo>)
    ensures
        match todo_index_for(old(data).todos@, id@, today@) {
            None => r is None && *final(data) == *old(data),
            Some(i) => {
                let t = old(data).todos@[i];
                &&& r matches Some(nt) && {
                    &&& nt.title@ == edited_title(t, patch.title)
                    &&& nt.color@ == edited_color(t, patch.color)
                    &&& (nt.due_at, nt.ack_due) == edited_deadline(t, patch.deadline, now)
                    &&& nt == Todo { title: nt.title, color: nt.color, due_at: nt.due_at, ack_due: nt.ack_due, ..t }
                    &&& final(data).todos@ == old(data).todos@.update(i, nt)
                }
                &&& final(data).settings == old(data).settings
                &&& final(data).streak == old(data).streak
                &&& final(data).last_reward_date == old(data).last_reward_date
                &&& final(data).points == old(data).points
                &&& final(data).stats == old(data).stats
                &&& final(data).badges == old(data).badges
                &&& final(data).suppressed_notion_ids == old(data).suppressed_notion_ids
            },
        },
{
    proof {
        lemma_todo_index_for_bounds(data.todos@, id@, today@);
    }
    let i = match find_todo_index(data, id, today) {
        Some(i) => i,
        None => return None,
    };
    let mut t = data.todos[i].clone();
    let ghost t0 = t;
    match &patch.title {
        Some(s) => {
            let v = chars_of(s.as_str());
            let tr = trim(&v);
            if tr.len() > 0 {
                t.title = string_from_chars(&tr);
            }
        },
        None => {},
    }
    match &patch.color {
        Some(c) => {
            if palette_contains(c.as_str()) {
                t.color = c.clone();
            }
        },
        None => {},
    }
    match patch.deadline {
        DeadlineEdit::Keep => {},
        DeadlineEdit::Clear => {
            t.due_at = None;
            t.ack_due = None;
        },
        DeadlineEdit::SetTo(d) => {
            t.due_at = Some(d);
            t.ack_due = if d < now {
                Some(d)
            } else {
                None
            };
        },
    }
    assert(t.title@ == edited_title(t0, patch.title));
    assert(t.color@ == edited_color(t0, patch.color));
    assert((t.due_at, t.ack_due) == edited_deadline(t0, patch.deadline, now));
    assert(t == Todo { title: t.title, color: t.color, due_at: t.due_at, ack_due: t.ack_due, ..t0 });
    data.todos.set(i, t.clone());
    Some(t)
}


// ---------------------------------------------------------------------------
// Completing and reopening
// ---------------------------------------------------------------------------

/// Completed no later than its deadline.
pub open spec fn on_time(t: Todo, now: i64) -> bool {
    t.due_at matches Some(d) && now <= d
}

/// Points for completing: 10, and 10 more when on time.
pub open spec fn completion_points(t: Todo, now: i64) -> i64 {
    if on_time(t, now) {
        20
    } else {
        10
    }
}

/// Completed on time while the siren would sound (within three minutes of the deadline).
pub open spec fn saved_by_siren(t: Todo, now: i64) -> bool {
    t.due_at matches Some(d) && now <= d && d - now <= SIREN_LEAD_MS
}

pub open spec fn completion_reason(t: Todo, now: i64) -> Seq<char> {
    "완료: "@ + t.title@ + if on_time(t, now) {
        " (정시 +10)"@
    } else {
        Seq::<char>::empty()
    }
}

/// The points taken back when a completion is undone: what was awarded (10 if unknown).
pub open spec fn undo_points(t: Todo) -> i64 {
    match t.awarded {
        Some(a) => a,
        None => 10,
    }
}

/// `mid` is `d` with to-do `i` completed at `now` and its points and counts added.
pub open spec fn completed(d: Data, mid: Data, i: int, now: i64) -> bool {
    let t = d.todos@[i];
    let pts = completion_points(t, now);
    &&& mid.todos@ == d.todos@.update(
        i,
        Todo { done: true, done_at: Some(now), awarded: Some(pts), ..t },
    )
    &&& mid.points.total == total_after(d.points.total as int, pts as int)
    &&& ledger_view(mid.points.ledger@) == ledger_after(
        ledger_view(d.points.ledger@),
        (now, pts, completion_reason(t, now)),
    )
    &&& mid.stats.total_done == d.stats.total_done + 1
    &&& mid.stats.siren_saves == d.stats.siren_saves + if saved_by_siren(t, now) { 1int } else { 0 }
    &&& mid.settings == d.settings
    &&& mid.streak == d.streak
    &&& mid.last_reward_date == d.last_reward_date
    &&& mid.badges == d.badges
    &&& mid.suppressed_notion_ids == d.suppressed_notion_ids
}

/// `nd` is `d` with to-do `i` reopened at `now`: its points taken back, the count of
/// completions one lower (never below zero).
pub open spec fn reopened(d: Data, nd: Data, i: int, now: i64) -> bool {
    let t = d.todos@[i];
    &&& nd.todos@ == d.todos@.update(i, Todo { done: false, done_at: None, awarded: Some(0), ..t })
    &&& nd.points.total == total_after(d.points.total as int, -undo_points(t))
    &&& ledger_view(nd.points.ledger@) == ledger_after(
        ledger_view(d.points.ledger@),
        ((now, (-undo_points(t)) as i64, "완료 취소: "@ + t.title@)),
    )
    &&& nd.stats.total_done == if d.stats.total_done - 1 < 0 { 0 } else { d.stats.total_done - 1 }
    &&& nd.stats.siren_saves == d.stats.siren_saves
    &&& nd.settings == d.settings
    &&& nd.streak == d.streak
    &&& nd.last_reward_date == d.last_reward_date
    &&& nd.badges == d.badges
    &&& nd.suppressed_notion_ids == d.suppressed_notion_ids
}

/// Reopening a to-do takes back exactly the points its completion gave: the to-do is open
/// again as before, and with the point total untouched in between (and not negative
/// before), the total returns to what it was.
pub proof fn lemma_reopen_undoes_completion(d: Data, mid: Data, d2: Data, nd: Data, i: int, now: i64, now2: i64)
    requires
        0 <= i < d.todos@.len(),
        i < d2.todos@.len(),
        completed(d, mid, i, now),
        d2.todos@[i] == mid.todos@[i],
        reopened(d2, nd, i, now2),
    ensures
        undo_points(d2.todos@[i]) == completion_points(d.todos@[i], now),
        nd.todos@[i] == (Todo { done: false, done_at: None, awarded: Some(0), ..d.todos@[i] }),
        d2.points.total == mid.points.total && d.points.total >= 0 ==> nd.points.total == d.points.total,
{
}

/// Completing a to-do always earns the base 10 points; 10 more only when it is completed
/// at or before its deadline. Without a deadline, or after it, it earns exactly 10.
pub proof fn lemma_completion_points_base(t: Todo, now: i64)
    ensures
        completion_points(t, now) >= 10,
        t.due_at is None ==> completion_points(t, now) == 10,
        (t.due_at matches Some(d) && now > d) ==> completion_points(t, now) == 10,
        (t.due_at matches Some(d) && now <= d) ==> completion_points(t, now) == 20,
{
}

/// A completion records its points three times over, all alike: on the to-do
/// (`awarded`), as the newest ledger entry, and in the total (from a total not below
/// zero). They are 10, or 20 when completed by the deadline.
pub proof fn lemma_completion_records_points(d: Data, mid: Data, i: int, now: i64)
    requires
        0 <= i < d.todos@.len(),
        completed(d, mid, i, now),
    ensures
        mid.todos@[i].done,
        mid.todos@[i].done_at == Some(now),
        mid.todos@[i].awarded matches Some(p) && (p == 10 || p == 20),
        mid.todos@[i].awarded == Some(
            if d.todos@[i].due_at matches Some(x) && now <= x { 20i64 } else { 10i64 },
        ),
        ledger_view(mid.points.ledger@)[0].0 == now,
        ledger_view(mid.points.ledger@)[0].1 == mid.todos@[i].awarded->0,
        d.points.total >= 0 ==> mid.points.total == d.points.total + mid.todos@[i].awarded->0,
        mid.stats.total_done == d.stats.total_done + 1,
{
    lemma_completion_points_base(d.todos@[i], now);
    let e = (now, completion_points(d.todos@[i], now), completion_reason(d.todos@[i], now));
    let l = ledger_view(d.points.ledger@);
    assert((seq![e] + l)[0] == e);
}

/// What toggling returns: the to-do after the change, the reward screen when the change
/// completed the day, and whether the change is to be written back to Notion.
pub struct Toggled {
    pub todo: Todo,
    pub reward: Option<RewardInfo>,
    pub sync_notion: bool,
}

/// The sums and counts of toggling to-do `i` fit in an `i64`.
pub open spec fn toggle_headroom(d: Data, i: int, now: i64) -> bool {
    let t = d.todos@[i];
    if !t.done {
        &&& d.points.total <= i64::MAX - 20 - 25 * BADGE_COUNT - DAY_BONUS - 25 * BADGE_COUNT
        &&& gain_total(ledger_view(d.points.ledger@)) <= i64::MAX - 20 - 25 * BADGE_COUNT - DAY_BONUS - 25 * BADGE_COUNT
        &&& loss_total(ledger_view(d.points.ledger@)) >= i64::MIN
        &&& d.stats.total_done < i64::MAX
        &&& d.stats.siren_saves < i64::MAX
        &&& d.streak.count < i64::MAX
        &&& (t.due_at matches Some(dd) ==> fits_i64(dd - now))
    } else {
        &&& undo_points(t) != i64::MIN
        &&& fits_i64(d.points.total - undo_points(t))
        &&& d.stats.total_done > i64::MIN
    }
}



/// After completing to-do `i`: badges are checked (with `e1` saying whether a to-do of the
/// day was done before 9 o'clock), then the daily reward is given when due (with `e2`).
pub open spec fn completion_outcome(
    d: Data,
    nd: Data,
    i: int,
    today: Seq<char>,
    yesterday: Seq<char>,
    now: i64,
    out: Toggled,
) -> bool {
    exists|mid: Data, mid2: Data, e1: bool, e2: bool|
        #[trigger] completed(d, mid, i, now) && (e1 ==> day_has_timed_completion(mid.todos@, today))
            && #[trigger] badges_checked(mid, mid2, today, e1, now) && (e2 ==> day_has_timed_completion(
            mid2.todos@,
            today,
        )) && #[trigger] reward_step(mid2, nd, today, yesterday, e2, now) && (out.reward is Some) == reward_due(
            mid2,
            today,
        ) && out.todo == mid.todos@[i]
}

/// Toggles the to-do with this id at `now`: completing it adds its points, counts it,
/// checks the badges and may give the daily reward of `today` (`yesterday` being the day
/// before); reopening it takes its points back.
pub fn todos_toggle(data: &mut Data, id: &str, today: &str, yesterday: &str, now: i64) -> (r: Option<Toggled>)
    requires
        todo_index_for(old(data).todos@, id@, today@) matches Some(i) ==> toggle_headroom(*old(data), i, now),
    ensures
        match todo_index_for(old(data).todos@, id@, today@) {
            None => r is None && *final(data) == *old(data),
            Some(i) => r matches Some(out) && out.sync_notion == (old(data).todos@[i].notion_page_id is Some)
                && if !old(data).todos@[i].done {
                completion_outcome(*old(data), *final(data), i, today@, yesterday@, now, out)
            } else {
                reopened(*old(data), *final(data), i, now) && out.todo == final(data).todos@[i]
                    && out.reward is None
            },
        },
        r matches Some(out) ==> (out.reward is Some ==> exists|dates: Seq<Seq<char>>, day: Seq<char>|
            dates.len() == final(data).points.ledger@.len() && #[trigger] reward_info_of(
                *final(data),
                points_on_day(ledger_view(final(data).points.ledger@), dates, day),
                out.reward->0,
            )),
{
    proof {
        lemma_todo_index_for_bounds(data.todos@, id@, today@);
    }
    let i = match find_todo_index(data, id, today) {
        Some(i) => i,
        None => return None,
    };
    let ghost d0 = *data;
    let mut t = data.todos[i].clone();
    let sync_notion = t.notion_page_id.is_some();
    if !t.done {
        let mut pts: i64 = 10;
        let mut reason = chars_of("완료: ");
        push_str(&mut reason, t.title.as_str());
        let mut siren_save = false;
        match t.due_at {
            Some(d) => {
                if now <= d {
                    pts = pts + 10;
                    push_str(&mut reason, " (정시 +10)");
                    if d - now <= SIREN_LEAD_MS {
                        siren_save = true;
                    }
                }
            },
            None => {},
        }
        assert(reason@ =~= completion_reason(d0.todos@[i as int], now));
        t.done = true;
        t.done_at = Some(now);
        t.awarded = Some(pts);
        data.todos.set(i, t.clone());
        let reason_s = string_from_chars(&reason);
        add_points_at(data, pts, reason_s.as_str(), now);
        data.stats.total_done = data.stats.total_done + 1;
        if siren_save {
            data.stats.siren_saves = data.stats.siren_saves + 1;
        }
        let ghost mid = *data;
        assert(completed(d0, mid, i as int, now));
        let e1 = early_done_on(&data.todos, today);
        check_badges_at(data, today, e1, now);
        let ghost mid2 = *data;
        let e2 = early_done_on(&data.todos, today);
        proof {
            crate::logic::lemma_ledger_after_sums(
                ledger_view(d0.points.ledger@),
                (now, pts, completion_reason(d0.todos@[i as int], now)),
            );
            crate::logic::lemma_badges_checked_headroom(mid, mid2, today@, e1, now);
        }
        let reward = reward_if_due_at(data, today, yesterday, e2, now);
        let out = Toggled { todo: t, reward, sync_notion };
        assert(completion_outcome(d0, *data, i as int, today@, yesterday@, now, out));
        Some(out)
    } else {
        let undo = match t.awarded {
            Some(a) => a,
            None => 10,
        };
        let mut reason = chars_of("완료 취소: ");
        push_str(&mut reason, t.title.as_str());
        t.done = false;
        t.done_at = None;
        t.awarded = Some(0);
        data.todos.set(i, t.clone());
        let reason_s = string_from_chars(&reason);
        add_points_at(data, -undo, reason_s.as_str(), now);
        let n = data.stats.total_done - 1;
        data.stats.total_done = if n < 0 {
            0
        } else {
            n
        };
        Some(Toggled { todo: t, reward: None, sync_notion })
    }
}


// ---------------------------------------------------------------------------
// The theme shop
// ---------------------------------------------------------------------------

/// Why a theme could not be bought.
#[derive(Debug, PartialEq, Eq)]
pub enum ShopError {
    UnknownTheme,
    /// The price that the point total does not reach.
    NotEnoughPoints(i64),
}

pub open spec fn shop_error_text(e: ShopError) -> Seq<char> {
    match e {
        ShopError::UnknownTheme => "알 수 없는 테마"@,
        ShopError::NotEnoughPoints(cost) => "포인트 부족 ("@ + int_text(cost as int) + "P 필요)"@,
    }
}

impl ShopError {
    /// The message shown to the user.
    pub fn message(&self) -> (r: String)
        ensures
            r@ == shop_error_text(*self),
    {
        match self {
            ShopError::UnknownTheme => String::from_str("알 수 없는 테마"),
            ShopError::NotEnoughPoints(cost) => {
                let mut v = chars_of("포인트 부족 (");
                let c = i64_text(*cost);
                push_all(&mut v, &c);
                push_str(&mut v, "P 필요)");
                string_from_chars(&v)
            },
        }
    }
}

/// The unlocked themes, the classic one standing in for none.
pub open spec fn unlocked_or_classic(v: Seq<String>) -> Seq<Seq<char>> {
    if v.len() == 0 {
        seq!["classic"@]
    } else {
        v.map_values(|s: String| s@)
    }
}

/// Selects the theme `id`, buying it first when it is not unlocked yet.
pub fn buy_theme(data: &mut Data, id: &str, now: i64) -> (r: Result<(), ShopError>)
    ensures
        match theme_price_of(id@) {
            None => r == Err::<(), ShopError>(ShopError::UnknownTheme) && *final(data) == *old(data),
            Some(cost) => {
                let owned = unlocked_or_classic(old(data).settings.unlocked_themes@);
                let have = owned.contains(id@);
                &&& final(data).todos == old(data).todos
                &&& final(data).streak == old(data).streak
                &&& final(data).last_reward_date == old(data).last_reward_date
                &&& final(data).stats == old(data).stats
                &&& final(data).badges == old(data).badges
                &&& final(data).suppressed_notion_ids == old(data).suppressed_notion_ids
                &&& final(data).settings.notion_token == old(data).settings.notion_token
                &&& final(data).settings.notion_db == old(data).settings.notion_db
                &&& final(data).settings.notion_assignee == old(data).settings.notion_assignee
                &&& final(data).settings.open_at_login == old(data).settings.open_at_login
                &&& final(data).settings.postit_pos == old(data).settings.postit_pos
                &&& if !have && old(data).points.total < cost {
                    &&& r == Err::<(), ShopError>(ShopError::NotEnoughPoints(cost))
                    &&& final(data).settings.unlocked_themes@.map_values(|s: String| s@) == owned
                    &&& final(data).settings.postit_theme == old(data).settings.postit_theme
                    &&& final(data).points == old(data).points
                } else {
                    &&& r is Ok
                    &&& final(data).settings.postit_theme@ == id@
                    &&& if have {
                        &&& final(data).settings.unlocked_themes@.map_values(|s: String| s@) == owned
                        &&& final(data).points == old(data).points
                    } else {
                        &&& final(data).settings.unlocked_themes@.map_values(|s: String| s@) == owned.push(id@)
                        &&& final(data).points.total == old(data).points.total - cost
                        &&& ledger_view(final(data).points.ledger@) == ledger_after(
                            ledger_view(old(data).points.ledger@),
                            (now, (-cost) as i64, "테마 구입: "@ + id@),
                        )
                    }
                }
            },
        },
{
    let cost = match theme_price(id) {
        Some(c) => c,
        None => return Err(ShopError::UnknownTheme),
    };
    if data.settings.unlocked_themes.len() == 0 {
        let mut v: Vec<String> = Vec::new();
        v.push(String::from_str("classic"));
        data.settings.unlocked_themes = v;
        assert(data.settings.unlocked_themes@.map_values(|s: String| s@) =~= seq!["classic"@]);
    }
    let ghost owned = data.settings.unlocked_themes@.map_values(|s: String| s@);
    assert(owned == unlocked_or_classic(old(data).settings.unlocked_themes@));
    let mut have = false;
    let mut k: usize = 0;
    while k < data.settings.unlocked_themes.len()
        invariant
            k <= data.settings.unlocked_themes@.len(),
            owned == data.settings.unlocked_themes@.map_values(|s: String| s@),
            have == exists|j: int| 0 <= j < k && #[trigger] owned[j] == id@,
        decreases data.settings.unlocked_themes@.len() - k,
    {
        assert(owned[k as int] == data.settings.unlocked_themes@[k as int]@);
        if same_text(data.settings.unlocked_themes[k].as_str(), id) {
            have = true;
        }
        k = k + 1;
    }
    assert(have == owned.contains(id@));
    if !have {
        if data.points.total < cost {
            return Err(ShopError::NotEnoughPoints(cost));
        }
        let mut reason = chars_of("테마 구입: ");
        push_str(&mut reason, id);
        let reason_s = string_from_chars(&reason);
        add_points_at(data, -cost, reason_s.as_str(), now);
        data.settings.unlocked_themes.push(String::from_str(id));
        assert(data.settings.unlocked_themes@.map_values(|s: String| s@) =~= owned.push(id@));
    }
    data.settings.postit_theme = String::from_str(id);
    Ok(())
}

/// The theme the notes show: the chosen one, the classic one when none is set.
pub fn theme_or_default(data: &Data) -> (r: String)
    ensures
        r@ == if data.settings.postit_theme@.len() == 0 { "classic"@ } else { data.settings.postit_theme@ },
{
    if data.settings.postit_theme.as_str().is_empty() {
        String::from_str("classic")
    } else {
        data.settings.postit_theme.clone()
    }
}


// ---------------------------------------------------------------------------
// Limits
// ---------------------------------------------------------------------------

/// Whether toggling the to-do with this id keeps every sum and count within an `i64`.
pub fn toggle_fits(data: &Data, id: &str, today: &str, now: i64) -> (r: bool)
    ensures
        r == match todo_index_for(data.todos@, id@, today@) {
            Some(i) => toggle_headroom(*data, i, now),
            None => true,
        },
{
    proof {
        lemma_todo_index_for_bounds(data.todos@, id@, today@);
    }
    let i = match find_todo_index(data, id, today) {
        Some(i) => i,
        None => return true,
    };
    let t = &data.todos[i];
    let gain: i64 = 20 + 25 * 8 + 50 + 25 * 8;
    assert(gain == 20 + 25 * BADGE_COUNT + DAY_BONUS + 25 * BADGE_COUNT);
    if !t.done {
        let ledger_ok = match ledger_totals(&data.points.ledger) {
            Some((g, _)) => g <= i64::MAX - gain,
            None => false,
        };
        let due_ok = match t.due_at {
            Some(dd) => dd.checked_sub(now).is_some(),
            None => true,
        };
        data.points.total <= i64::MAX - gain && ledger_ok && data.stats.total_done < i64::MAX
            && data.stats.siren_saves < i64::MAX && data.streak.count < i64::MAX && due_ok
    } else {
        let undo = match t.awarded {
            Some(a) => a,
            None => 10,
        };
        undo != i64::MIN && data.points.total.checked_sub(undo).is_some() && data.stats.total_done
            > i64::MIN
    }
}

/// Whether postponing the to-do with this id by `minutes` at `now` keeps every sum and
/// count within an `i64`.
pub fn postpone_fits(data: &Data, id: &str, today: &str, minutes: i64, now: i64) -> (r: bool)
    ensures
        r == match todo_index_for(data.todos@, id@, today@) {
            Some(i) => postpone_arith_ok(*data, i, minutes, now),
            None => true,
        },
{
    proof {
        lemma_todo_index_for_bounds(data.todos@, id@, today@);
    }
    let i = match find_todo_index(data, id, today) {
        Some(i) => i,
        None => return true,
    };
    let t = &data.todos[i];
    let base: i64 = match t.due_at {
        Some(d) => if now >= d {
            now
        } else {
            d
        },
        None => if now >= 0 {
            now
        } else {
            0
        },
    };
    let minutes: i64 = if minutes < 1 {
        1
    } else {
        minutes
    };
    let due_ok = match minutes.checked_mul(60000) {
        Some(m) => base.checked_add(m).is_some(),
        None => false,
    };
    let count_ok = match t.postpones {
        Some(p) => p < i64::MAX,
        None => true,
    };
    due_ok && count_ok && data.points.total >= i64::MIN + POSTPONE_COST
}

} // verus!
