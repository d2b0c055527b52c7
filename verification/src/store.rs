//! The saved state of the application: to-dos, settings, streak, points, statistics and
//! badges, as plain values.
use vstd::prelude::*;

verus! {

/// One to-do on one day.
pub struct Todo {
    pub id: String,
    pub title: String,
    pub color: String,
    /// The local day it belongs to, `YYYY-MM-DD`.
    pub date: String,
    pub done: bool,
    pub created_at: i64,
    pub due_at: Option<i64>,
    pub done_at: Option<i64>,
    /// Points given when it was last completed.
    pub awarded: Option<i64>,
    pub postpones: Option<i64>,
    /// The deadline whose siren was already dealt with.
    pub ack_due: Option<i64>,
    pub notion_page_id: Option<String>,
    pub notion_due_at: Option<i64>,
    pub notion_done: Option<bool>,
    pub bridge_source: Option<String>,
    pub bridge_synced_at: Option<String>,
    pub deferred_from: Option<String>,
    pub deferred_at: Option<i64>,
}

pub fn copy_opt_string(o: &Option<String>) -> (r: Option<String>)
    ensures
        r == *o,
{
    match o {
        Some(s) => Some(s.clone()),
        None => None,
    }
}

impl Clone for Todo {
    fn clone(&self) -> (r: Self)
        ensures
            r == *self,
    {
        Todo {
            id: self.id.clone(),
            title: self.title.clone(),
            color: self.color.clone(),
            date: self.date.clone(),
            done: self.done,
            created_at: self.created_at,
            due_at: self.due_at,
            done_at: self.done_at,
            awarded: self.awarded,
            postpones: self.postpones,
            ack_due: self.ack_due,
            notion_page_id: copy_opt_string(&self.notion_page_id),
            notion_due_at: self.notion_due_at,
            notion_done: self.notion_done,
            bridge_source: copy_opt_string(&self.bridge_source),
            bridge_synced_at: copy_opt_string(&self.bridge_synced_at),
            deferred_from: copy_opt_string(&self.deferred_from),
            deferred_at: self.deferred_at,
        }
    }
}

/// The Notion person whose pages are synchronised.
pub struct Assignee {
    pub id: String,
    pub name: String,
}

impl Clone for Assignee {
    fn clone(&self) -> (r: Self)
        ensures
            r == *self,
    {
        Assignee { id: self.id.clone(), name: self.name.clone() }
    }
}

/// Where the sticky-note window was left, in logical pixels.
#[derive(Clone, Copy)]
pub struct PostitPos {
    pub x: i32,
    pub y: i32,
}

/// User settings. (The siren volume, a fraction, stays with the application shell.)
pub struct Settings {
    pub notion_token: String,
    pub notion_db: String,
    pub notion_assignee: Option<Assignee>,
    pub open_at_login: bool,
    pub postit_theme: String,
    pub unlocked_themes: Vec<String>,
    pub postit_pos: Option<PostitPos>,
}

/// Consecutive days on which every to-do of the day was completed.
pub struct Streak {
    pub count: i64,
    pub last_date: Option<String>,
}

/// One change of the point total.
pub struct LedgerEntry {
    pub at: i64,
    pub delta: i64,
    pub reason: String,
}

impl View for LedgerEntry {
    type V = (i64, i64, Seq<char>);

    open spec fn view(&self) -> (i64, i64, Seq<char>) {
        (self.at, self.delta, self.reason@)
    }
}

impl Clone for LedgerEntry {
    fn clone(&self) -> (r: Self)
        ensures
            r == *self,
    {
        LedgerEntry { at: self.at, delta: self.delta, reason: self.reason.clone() }
    }
}

/// The point total and its most recent changes, newest first.
pub struct Points {
    pub total: i64,
    pub ledger: Vec<LedgerEntry>,
}

pub struct Stats {
    pub total_done: i64,
    pub siren_saves: i64,
}

/// A badge and when it was earned.
pub struct BadgeOwned {
    pub id: String,
    pub at: i64,
}

impl Clone for BadgeOwned {
    fn clone(&self) -> (r: Self)
        ensures
            r == *self,
    {
        BadgeOwned { id: self.id.clone(), at: self.at }
    }
}

pub struct Data {
    pub todos: Vec<Todo>,
    pub settings: Settings,
    pub streak: Streak,
    pub last_reward_date: Option<String>,
    pub points: Points,
    pub stats: Stats,
    pub badges: Vec<BadgeOwned>,
    /// Notion pages the user deleted and does not want back.
    pub suppressed_notion_ids: Vec<String>,
}

/// The ledger as plain values.
pub open spec fn ledger_view(l: Seq<LedgerEntry>) -> Seq<(i64, i64, Seq<char>)> {
    l.map_values(|e: LedgerEntry| e@)
}

/// The fresh settings: no Notion account, the classic theme, which is unlocked.
pub open spec fn default_settings(s: Settings) -> bool {
    &&& s.notion_token@ == Seq::<char>::empty()
    &&& s.notion_db@ == Seq::<char>::empty()
    &&& s.notion_assignee is None
    &&& !s.open_at_login
    &&& s.postit_theme@ == "classic"@
    &&& s.unlocked_themes@.len() == 1
    &&& s.unlocked_themes@[0]@ == "classic"@
    &&& s.postit_pos is None
}

pub fn default_theme() -> (r: String)
    ensures
        r@ == "classic"@,
{
    String::from_str("classic")
}

pub fn default_unlocked() -> (r: Vec<String>)
    ensures
        r@.len() == 1,
        r@[0]@ == "classic"@,
{
    let mut v: Vec<String> = Vec::new();
    v.push(default_theme());
    v
}

impl Settings {
    pub fn new_default() -> (s: Settings)
        ensures
            default_settings(s),
    {
        Settings {
            notion_token: String::new(),
            notion_db: String::new(),
            notion_assignee: None,
            open_at_login: false,
            postit_theme: default_theme(),
            unlocked_themes: default_unlocked(),
            postit_pos: None,
        }
    }
}

/// Fresh data: nothing recorded, fresh settings.
pub open spec fn default_data(d: Data) -> bool {
    &&& d.todos@.len() == 0
    &&& default_settings(d.settings)
    &&& d.streak.count == 0
    &&& d.streak.last_date is None
    &&& d.last_reward_date is None
    &&& d.points.total == 0
    &&& d.points.ledger@.len() == 0
    &&& d.stats.total_done == 0
    &&& d.stats.siren_saves == 0
    &&& d.badges@.len() == 0
    &&& d.suppressed_notion_ids@.len() == 0
}

impl Data {
    pub fn new_default() -> (d: Data)
        ensures
            default_data(d),
    {
        Data {
            todos: Vec::new(),
            settings: Settings::new_default(),
            streak: Streak { count: 0, last_date: None },
            last_reward_date: None,
            points: Points { total: 0, ledger: Vec::new() },
            stats: Stats { total_done: 0, siren_saves: 0 },
            badges: Vec::new(),
            suppressed_notion_ids: Vec::new(),
        }
    }
}

/// Thirty days, in milliseconds.
pub const THIRTY_DAYS: i64 = 2_592_000_000;

/// The to-dos created at `cutoff` or later, in order.
pub open spec fn recent_todos(todos: Seq<Todo>, cutoff: int) -> Seq<Todo> {
    todos.filter(|t: Todo| t.created_at >= cutoff)
}

/// Drops the to-dos created more than thirty days before `now`, as loading does.
pub fn prune_old_todos(data: &mut Data, now: i64)
    requires
        now >= i64::MIN + THIRTY_DAYS,
    ensures
        final(data).todos@ == recent_todos(old(data).todos@, now - THIRTY_DAYS),
        final(data).settings == old(data).settings,
        final(data).streak == old(data).streak,
        final(data).last_reward_date == old(data).last_reward_date,
        final(data).points == old(data).points,
        final(data).stats == old(data).stats,
        final(data).badges == old(data).badges,
        final(data).suppressed_notion_ids == old(data).suppressed_notion_ids,
{
    let cutoff = now - THIRTY_DAYS;
    let ghost src = data.todos@;
    let mut kept: Vec<Todo> = Vec::new();
    let mut i: usize = 0;
    while i < data.todos.len()
        invariant
            i <= src.len(),
            data.todos@ == src,
            kept@ == recent_todos(src.take(i as int), cutoff as int),
        decreases src.len() - i,
    {
        assert(src.take(i + 1).drop_last() =~= src.take(i as int));
        proof {
            reveal_with_fuel(Seq::<_>::filter, 1);
        }
        if data.todos[i].created_at >= cutoff {
            kept.push(data.todos[i].clone());
        }
        i = i + 1;
    }
    assert(src.take(src.len() as int) =~= src);
    data.todos = kept;
}

} // verus!
