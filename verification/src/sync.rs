//! Merging the pages that Notion lists for today into the to-dos.
use vstd::prelude::*;

use crate::logic::{gain_total, loss_total, ledger_totals, abs_int, add_points_at, badges_checked, check_badges_at, color_hash, day_has_timed_completion, early_done_on, fits_i64, ledger_after, lemma_badges_checked_headroom, lemma_ledger_after_sums, palette, pick_color, reward_due, reward_if_due_at, reward_step, total_after, RewardInfo, BADGE_COUNT, DAY_BONUS};
use crate::notion::NotionPage;
use crate::store::{ledger_view, Data, Todo};
use crate::text::{chars_of, i64_text, int_text, push_all, push_str, same_text, string_from_chars};
use crate::todos::{ack_for, undo_points};

verus! {

/// The first to-do linked to the Notion page `pid`.
pub open spec fn page_todo(todos: Seq<Todo>, pid: Seq<char>) -> Option<int>
    decreases todos.len(),
{
    if todos.len() == 0 {
        None
    } else {
        match page_todo(todos.drop_last(), pid) {
            Some(i) => Some(i),
            None => if todos.last().notion_page_id matches Some(x) && x@ == pid {
                Some(todos.len() - 1)
            } else {
                None
            },
        }
    }
}

proof fn lemma_page_todo_bounds(todos: Seq<Todo>, pid: Seq<char>)
    ensures
        page_todo(todos, pid) matches Some(i) ==> 0 <= i < todos.len(),
    decreases todos.len(),
{
    if todos.len() > 0 {
        lemma_page_todo_bounds(todos.drop_last(), pid);
    }
}

proof fn lemma_page_todo_extend(todos: Seq<Todo>, pid: Seq<char>, k: int, m: int)
    requires
        0 <= k < m <= todos.len(),
        page_todo(todos.take(k + 1), pid) == Some(k),
    ensures
        page_todo(todos.take(m), pid) == Some(k),
    decreases m - k,
{
    if m > k + 1 {
        lemma_page_todo_extend(todos, pid, k, m - 1);
        assert(todos.take(m).drop_last() =~= todos.take(m - 1));
    }
}

fn find_page_todo(todos: &Vec<Todo>, pid: &str) -> (r: Option<usize>)
    ensures
        r matches Some(i) ==> page_todo(todos@, pid@) == Some(i as int) && i < todos@.len(),
        r is None ==> page_todo(todos@, pid@) is None,
{
    let mut i: usize = 0;
    while i < todos.len()
        invariant
            i <= todos@.len(),
            page_todo(todos@.take(i as int), pid@) is None,
        decreases todos@.len() - i,
    {
        assert(todos@.take(i + 1).drop_last() =~= todos@.take(i as int));
        let hit = match &todos[i].notion_page_id {
            Some(x) => same_text(x.as_str(), pid),
            None => false,
        };
        if hit {
            proof {
                lemma_page_todo_extend(todos@, pid@, i as int, todos@.len() as int);
                assert(todos@.take(todos@.len() as int) =~= todos@);
            }
            return Some(i);
        }
        i = i + 1;
    }
    assert(todos@.take(todos@.len() as int) =~= todos@);
    None
}

/// A to-do made for a new page of `today`, seen at `now`, its id made of `now` and
/// `suffix`.
pub open spec fn notion_new_todo(t: Todo, p: NotionPage, today: Seq<char>, now: i64, suffix: Seq<char>) -> bool {
    &&& t.id@ == "n"@ + int_text(now as int) + suffix
    &&& t.title == p.title
    &&& t.color@ == palette((color_hash(p.title@) % 6) as int)
    &&& t.date@ == today
    &&& t.done == p.done
    &&& t.created_at == now
    &&& t.due_at == p.due_at
    &&& t.done_at is None
    &&& t.awarded is None
    &&& t.postpones is None
    &&& t.ack_due == ack_for(p.due_at, now)
    &&& t.notion_page_id == Some(p.id)
    &&& t.notion_due_at == p.due_at
    &&& t.notion_done == Some(p.done)
    &&& t.bridge_source is None
    &&& t.bridge_synced_at is None
    &&& t.deferred_from is None
    &&& t.deferred_at is None
}

/// The linked to-do with the page's title, and its deadline when the page's deadline
/// changed (the siren then sounds again).
pub open spec fn synced_fields(t: Todo, p: NotionPage) -> Todo {
    if p.due_at != t.notion_due_at {
        Todo { title: p.title, due_at: p.due_at, notion_due_at: p.due_at, ack_due: None, ..t }
    } else {
        Todo { title: p.title, ..t }
    }
}

/// Everything but the to-dos, points and statistics is unchanged.
pub open spec fn same_but_todos_points_stats(d: Data, nd: Data) -> bool {
    &&& nd.settings == d.settings
    &&& nd.streak == d.streak
    &&& nd.last_reward_date == d.last_reward_date
    &&& nd.badges == d.badges
    &&& nd.suppressed_notion_ids == d.suppressed_notion_ids
}

/// What merging one page gives back.
pub struct PageOutcome {
    /// A new to-do was made.
    pub added: bool,
    /// The to-do's own done state, to be written back to the page.
    pub push_done: Option<bool>,
    /// The reward screen, when the page completed the day.
    pub reward: Option<RewardInfo>,
}

pub open spec fn completed_by_page(d: Data, mid: Data, i: int, p: NotionPage, now: i64) -> bool {
    let t1 = synced_fields(d.todos@[i], p);
    &&& mid.todos@ == d.todos@.update(
        i,
        Todo { done: true, notion_done: Some(true), done_at: Some(now), awarded: Some(10), ..t1 },
    )
    &&& mid.points.total == total_after(d.points.total as int, 10)
    &&& ledger_view(mid.points.ledger@) == ledger_after(
        ledger_view(d.points.ledger@),
        (now, 10, "완료(노션): "@ + p.title@),
    )
    &&& mid.stats.total_done == d.stats.total_done + 1
    &&& mid.stats.siren_saves == d.stats.siren_saves
    &&& same_but_todos_points_stats(d, mid)
}

pub open spec fn reopened_by_page(d: Data, nd: Data, i: int, p: NotionPage, now: i64) -> bool {
    let t = d.todos@[i];
    let t1 = synced_fields(t, p);
    &&& nd.todos@ == d.todos@.update(
        i,
        Todo { done: false, notion_done: Some(false), done_at: None, awarded: Some(0), ..t1 },
    )
    &&& nd.points.total == total_after(d.points.total as int, -undo_points(t))
    &&& ledger_view(nd.points.ledger@) == ledger_after(
        ledger_view(d.points.ledger@),
        (now, (-undo_points(t)) as i64, "완료 취소(노션): "@ + p.title@),
    )
    &&& nd.stats.total_done == if d.stats.total_done - 1 < 0 { 0 } else { d.stats.total_done - 1 }
    &&& nd.stats.siren_saves == d.stats.siren_saves
    &&& same_but_todos_points_stats(d, nd)
}

/// Merging page `p` into `d` gives `nd` and `out`.
pub open spec fn page_step(
    d: Data,
    nd: Data,
    p: NotionPage,
    suffix: Seq<char>,
    today: Seq<char>,
    yesterday: Seq<char>,
    now: i64,
    out: PageOutcome,
) -> bool {
    match page_todo(d.todos@, p.id@) {
        None => {
            &&& out.added
            &&& out.push_done is None
            &&& out.reward is None
            &&& nd.todos@.len() == d.todos@.len() + 1
            &&& nd.todos@.drop_last() == d.todos@
            &&& notion_new_todo(nd.todos@.last(), p, today, now, suffix)
            &&& nd.points == d.points
            &&& nd.stats == d.stats
            &&& same_but_todos_points_stats(d, nd)
        },
        Some(i) => {
            let t = d.todos@[i];
            let t1 = synced_fields(t, p);
            &&& !out.added
            &&& if Some(p.done) != t.notion_done {
                &&& out.push_done is None
                &&& if p.done {
                    exists|mid: Data, mid2: Data, e1: bool, e2: bool|
                        #[trigger] completed_by_page(d, mid, i, p, now) && (e1 ==> day_has_timed_completion(
                            mid.todos@,
                            today,
                        )) && #[trigger] badges_checked(mid, mid2, today, e1, now) && (e2
                            ==> day_has_timed_completion(mid2.todos@, today)) && #[trigger] reward_step(
                            mid2,
                            nd,
                            today,
                            yesterday,
                            e2,
                            now,
                        ) && (out.reward is Some) == reward_due(mid2, today)
                } else {
                    reopened_by_page(d, nd, i, p, now) && out.reward is None
                }
            } else {
                &&& out.reward is None
                &&& nd.points == d.points
                &&& nd.stats == d.stats
                &&& same_but_todos_points_stats(d, nd)
                &&& if t.done != p.done {
                    &&& out.push_done == Some(t.done)
                    &&& nd.todos@ == d.todos@.update(i, Todo { notion_done: Some(t.done), ..t1 })
                } else {
                    &&& out.push_done is None
                    &&& nd.todos@ == d.todos@.update(i, t1)
                }
            }
        },
    }
}

/// The sums and counts of merging a page fit in an `i64`.
pub open spec fn page_headroom(d: Data, p: NotionPage) -> bool {
    &&& d.points.total <= i64::MAX - 10 - 25 * BADGE_COUNT - DAY_BONUS - 25 * BADGE_COUNT
    &&& gain_total(ledger_view(d.points.ledger@)) <= i64::MAX - 10 - 25 * BADGE_COUNT - DAY_BONUS - 25 * BADGE_COUNT
    &&& loss_total(ledger_view(d.points.ledger@)) >= i64::MIN
    &&& d.stats.total_done < i64::MAX
    &&& d.stats.total_done > i64::MIN
    &&& d.streak.count < i64::MAX
    &&& (page_todo(d.todos@, p.id@) matches Some(i) ==> undo_points(d.todos@[i]) != i64::MIN && fits_i64(
        d.points.total - undo_points(d.todos@[i]),
    ))
}

/// Merges one page of `today` into the to-dos at `now`.
pub fn apply_notion_page(
    data: &mut Data,
    p: &NotionPage,
    suffix: &str,
    today: &str,
    yesterday: &str,
    now: i64,
) -> (out: PageOutcome)
    requires
        page_headroom(*old(data), *p),
    ensures
        page_step(*old(data), *final(data), *p, suffix@, today@, yesterday@, now, out),
{
    let ghost d0 = *data;
    match find_page_todo(&data.todos, p.id.as_str()) {
        None => {
            let mut id = chars_of("n");
            let nt = i64_text(now);
            push_all(&mut id, &nt);
            push_str(&mut id, suffix);
            let ack = match p.due_at {
                Some(d) => if d < now {
                    Some(d)
                } else {
                    None
                },
                None => None,
            };
            let t = Todo {
                id: string_from_chars(&id),
                title: p.title.clone(),
                color: pick_color(p.title.as_str()),
                date: String::from_str(today),
                done: p.done,
                created_at: now,
                due_at: p.due_at,
                done_at: None,
                awarded: None,
                postpones: None,
                ack_due: ack,
                notion_page_id: Some(p.id.clone()),
                notion_due_at: p.due_at,
                notion_done: Some(p.done),
                bridge_source: None,
                bridge_synced_at: None,
                deferred_from: None,
                deferred_at: None,
            };
            data.todos.push(t);
            assert(data.todos@.drop_last() =~= d0.todos@);
            PageOutcome { added: true, push_done: None, reward: None }
        },
        Some(i) => {
            let mut t = data.todos[i].clone();
            let ghost t0 = t;
            t.title = p.title.clone();
            if p.due_at != t.notion_due_at {
                t.due_at = p.due_at;
                t.notion_due_at = p.due_at;
                t.ack_due = None;
            }
            assert(t == synced_fields(t0, *p));
            let notion_done = t.notion_done;
            let same_state = match notion_done {
                Some(b) => b == p.done,
                None => false,
            };
            if !same_state {
                t.done = p.done;
                t.notion_done = Some(p.done);
                if p.done {
                    t.done_at = Some(now);
                    t.awarded = Some(10);
                    data.todos.set(i, t);
                    let mut reason = chars_of("완료(노션): ");
                    push_str(&mut reason, p.title.as_str());
                    let reason_s = string_from_chars(&reason);
                    add_points_at(data, 10, reason_s.as_str(), now);
                    data.stats.total_done = data.stats.total_done + 1;
                    let ghost mid = *data;
                    assert(completed_by_page(d0, mid, i as int, *p, now));
                    let e1 = early_done_on(&data.todos, today);
                    check_badges_at(data, today, e1, now);
                    let ghost mid2 = *data;
                    let e2 = early_done_on(&data.todos, today);
                    proof {
                        lemma_ledger_after_sums(
                            ledger_view(d0.points.ledger@),
                            (now, 10, "완료(노션): "@ + p.title@),
                        );
                        lemma_badges_checked_headroom(mid, mid2, today@, e1, now);
                    }
                    let reward = reward_if_due_at(data, today, yesterday, e2, now);
                    PageOutcome { added: false, push_done: None, reward }
                } else {
                    t.done_at = None;
                    let undo = match t.awarded {
                        Some(a) => a,
                        None => 10,
                    };
                    t.awarded = Some(0);
                    data.todos.set(i, t);
                    let mut reason = chars_of("완료 취소(노션): ");
                    push_str(&mut reason, p.title.as_str());
                    let reason_s = string_from_chars(&reason);
                    add_points_at(data, -undo, reason_s.as_str(), now);
                    let n = data.stats.total_done - 1;
                    data.stats.total_done = if n < 0 {
                        0
                    } else {
                        n
                    };
                    PageOutcome { added: false, push_done: None, reward: None }
                }
            } else if t.done != p.done {
                let own = t.done;
                t.notion_done = Some(own);
                data.todos.set(i, t);
                PageOutcome { added: false, push_done: Some(own), reward: None }
            } else {
                data.todos.set(i, t);
                PageOutcome { added: false, push_done: None, reward: None }
            }
        },
    }
}


// ---------------------------------------------------------------------------
// Merging all of a day's pages
// ---------------------------------------------------------------------------

/// The most a page can add to the point total or the ledger: 10 for the completion,
/// the badges it brings, the daily bonus and the badges that brings.
pub const PAGE_GAIN: i64 = 460;

/// Bounds under which `k` more pages can be merged without overflow, `u` bounding the
/// points any completion can take back.
pub open spec fn sync_bounds(d: Data, k: int, u: int) -> bool {
    &&& 10 <= u <= i64::MAX
    &&& k >= 0
    &&& k * (PAGE_GAIN + u) <= i64::MAX
    &&& forall|i: int| 0 <= i < d.todos@.len() ==> abs_int(undo_points(#[trigger] d.todos@[i]) as int) <= u
    &&& d.points.total >= i64::MIN + u
    &&& d.points.total <= i64::MAX - k * (PAGE_GAIN + u)
    &&& gain_total(ledger_view(d.points.ledger@)) <= i64::MAX - k * (PAGE_GAIN + u)
    &&& loss_total(ledger_view(d.points.ledger@)) >= i64::MIN + k * u
    &&& d.stats.total_done > i64::MIN + k
    &&& d.stats.total_done < i64::MAX - k
    &&& d.streak.count < i64::MAX - k
}

/// Merging `n` pages into `d` cannot overflow.
pub open spec fn sync_headroom(d: Data, n: int) -> bool {
    exists|u: int| #[trigger] sync_bounds(d, n, u)
}

/// Checks that merging `n` pages into `data` cannot overflow, bounding the points a
/// completion can take back by the largest any to-do holds (at least 10).
pub fn sync_fits(data: &Data, n: usize) -> (r: bool)
    ensures
        r == sync_headroom(*data, n as int),
{
    let mut u: i64 = 10;
    let mut i: usize = 0;
    while i < data.todos.len()
        invariant
            i <= data.todos@.len(),
            10 <= u,
            forall|j: int| 0 <= j < i ==> abs_int(undo_points(#[trigger] data.todos@[j]) as int) <= u,
            u == 10 || exists|j: int| 0 <= j < i && abs_int(undo_points(#[trigger] data.todos@[j]) as int) == u,
        decreases data.todos@.len() - i,
    {
        let a = match data.todos[i].awarded {
            Some(a) => a,
            None => 10,
        };
        assert(a == undo_points(data.todos@[i as int]));
        if a == i64::MIN {
            proof {
                assert forall|u2: int| !#[trigger] sync_bounds(*data, n as int, u2) by {
                    if sync_bounds(*data, n as int, u2) {
                        assert(abs_int(undo_points(data.todos@[i as int]) as int) <= u2);
                    }
                }
            }
            return false;
        }
        let m: i64 = if a < 0 {
            -a
        } else {
            a
        };
        if m > u {
            u = m;
        }
        i = i + 1;
    }
    proof {
        assert forall|u2: int| #[trigger] sync_bounds(*data, n as int, u2) implies u <= u2 by {
            if u != 10 {
                let j = choose|j: int| 0 <= j < data.todos@.len() && abs_int(undo_points(#[trigger] data.todos@[j]) as int) == u;
                assert(abs_int(undo_points(data.todos@[j]) as int) <= u2);
            }
        }
    }
    let g: i128 = u as i128 + 460;
    let k: i128 = n as i128;
    let tg: i128 = match k.checked_mul(g) {
        Some(x) => x,
        None => {
            proof {
                assert forall|u2: int| !#[trigger] sync_bounds(*data, n as int, u2) by {
                    if sync_bounds(*data, n as int, u2) {
                        lemma_mul_mono(k as int, g as int, PAGE_GAIN + u2);
                    }
                }
            }
            return false;
        },
    };
    assert(tg == k * g);
    let max: i128 = i64::MAX as i128;
    let min: i128 = i64::MIN as i128;
    let (gain, loss): (i128, i128) = match ledger_totals(&data.points.ledger) {
        Some((g, l)) => (g as i128, l as i128),
        None => (max + 1, min - 1),
    };
    assert(k * (u as int) <= k * g) by {
        lemma_mul_mono(k as int, u as int, g as int);
    }
    let ku: i128 = if tg <= max { k * (u as i128) } else { 0 };
    let total = data.points.total as i128;
    let ok = tg <= max && total >= min + u as i128 && total <= max - tg && gain <= max - tg && loss >= min + ku
        && (data.stats.total_done as i128) > min + k && (data.stats.total_done as i128) < max - k
        && (data.streak.count as i128) < max - k;
    proof {
        if ok {
            assert(sync_bounds(*data, n as int, u as int));
        } else {
            assert forall|u2: int| !#[trigger] sync_bounds(*data, n as int, u2) by {
                if sync_bounds(*data, n as int, u2) {
                    lemma_mul_mono(k as int, g as int, PAGE_GAIN + u2);
                    lemma_mul_mono(k as int, u as int, u2);
                    assert(k * (PAGE_GAIN + u2) >= 0) by (nonlinear_arith)
                        requires
                            k >= 0,
                            PAGE_GAIN + u2 >= 0,
                    ;
                }
            }
        }
    }
    ok
}

proof fn lemma_mul_mono(k: int, a: int, b: int)
    requires
        k >= 0,
        0 <= a <= b,
    ensures
        k * a <= k * b,
{
    assert(k * a <= k * b) by (nonlinear_arith)
        requires
            k >= 0,
            0 <= a <= b,
    ;
}

proof fn lemma_mul_step(k: int, g: int)
    requires
        k >= 0,
        g >= 0,
    ensures
        (k + 1) * g == k * g + g,
        k * g >= 0,
{
    assert((k + 1) * g == k * g + g) by (nonlinear_arith);
    assert(k * g >= 0) by (nonlinear_arith)
        requires
            k >= 0,
            g >= 0,
    ;
}

proof fn lemma_bounds_give_headroom(d: Data, p: NotionPage, k: int, u: int)
    requires
        sync_bounds(d, k + 1, u),
        k >= 0,
    ensures
        page_headroom(d, p),
{
    lemma_mul_step(k, PAGE_GAIN + u);
    lemma_page_todo_bounds(d.todos@, p.id@);
    match page_todo(d.todos@, p.id@) {
        Some(i) => {
            assert(abs_int(undo_points(d.todos@[i]) as int) <= u);
        },
        None => {},
    }
}

proof fn lemma_page_step_keeps_bounds(
    d: Data,
    nd: Data,
    p: NotionPage,
    suffix: Seq<char>,
    today: Seq<char>,
    yesterday: Seq<char>,
    now: i64,
    out: PageOutcome,
    k: int,
    u: int,
)
    requires
        sync_bounds(d, k + 1, u),
        k >= 0,
        page_step(d, nd, p, suffix, today, yesterday, now, out),
    ensures
        sync_bounds(nd, k, u),
{
    lemma_mul_step(k, PAGE_GAIN + u);
    lemma_mul_step(k, u);
    lemma_page_todo_bounds(d.todos@, p.id@);
    match page_todo(d.todos@, p.id@) {
        None => {
            assert forall|i: int| 0 <= i < nd.todos@.len() implies abs_int(undo_points(#[trigger] nd.todos@[i]) as int) <= u by {
                if i < d.todos@.len() {
                    assert(nd.todos@[i] == nd.todos@.drop_last()[i]);
                }
            }
        },
        Some(i) => {
            let t = d.todos@[i];
            if Some(p.done) != t.notion_done {
                if p.done {
                    let (mid, mid2, e1, e2) = choose|mid: Data, mid2: Data, e1: bool, e2: bool|
                        #[trigger] completed_by_page(d, mid, i, p, now) && (e1 ==> day_has_timed_completion(
                            mid.todos@,
                            today,
                        )) && #[trigger] badges_checked(mid, mid2, today, e1, now) && (e2
                            ==> day_has_timed_completion(mid2.todos@, today)) && #[trigger] reward_step(
                            mid2,
                            nd,
                            today,
                            yesterday,
                            e2,
                            now,
                        ) && (out.reward is Some) == reward_due(mid2, today);
                    lemma_ledger_after_sums(ledger_view(d.points.ledger@), (now, 10, "완료(노션): "@ + p.title@));
                    crate::logic::lemma_badges_checked_bounds(mid, mid2, today, e1, now);
                    crate::logic::lemma_reward_step_bounds(mid2, nd, today, yesterday, e2, now);
                    assert forall|j: int| 0 <= j < nd.todos@.len() implies abs_int(undo_points(#[trigger] nd.todos@[j]) as int) <= u by {
                        if j != i {
                            assert(nd.todos@[j] == d.todos@[j]);
                        }
                    }
                } else {
                    lemma_ledger_after_sums(
                        ledger_view(d.points.ledger@),
                        (now, (-undo_points(t)) as i64, "완료 취소(노션): "@ + p.title@),
                    );
                    assert forall|j: int| 0 <= j < nd.todos@.len() implies abs_int(undo_points(#[trigger] nd.todos@[j]) as int) <= u by {
                        if j != i {
                            assert(nd.todos@[j] == d.todos@[j]);
                        }
                    }
                }
            } else {
                assert forall|j: int| 0 <= j < nd.todos@.len() implies abs_int(undo_points(#[trigger] nd.todos@[j]) as int) <= u by {
                    if j != i {
                        assert(nd.todos@[j] == d.todos@[j]);
                    }
                }
            }
        },
    }
}

/// The count of pages that made a new to-do.
pub open spec fn added_count(outs: Seq<PageOutcome>) -> int
    decreases outs.len(),
{
    if outs.len() == 0 {
        0
    } else {
        added_count(outs.drop_last()) + if outs.last().added { 1int } else { 0 }
    }
}

/// The pages (id and done state) whose to-do's state is to be written back, in order.
pub open spec fn write_backs(pages: Seq<NotionPage>, outs: Seq<PageOutcome>) -> Seq<(Seq<char>, bool)>
    decreases outs.len(),
{
    if outs.len() == 0 || pages.len() < outs.len() {
        Seq::empty()
    } else {
        let prev = write_backs(pages, outs.drop_last());
        match outs.last().push_done {
            Some(b) => prev.push((pages[outs.len() - 1].id@, b)),
            None => prev,
        }
    }
}

/// The last reward screen among the outcomes.
pub open spec fn last_reward(outs: Seq<PageOutcome>) -> Option<RewardInfo>
    decreases outs.len(),
{
    if outs.len() == 0 {
        None
    } else if outs.last().reward is Some {
        outs.last().reward
    } else {
        last_reward(outs.drop_last())
    }
}

/// A to-do of `today` linked to a page that the day's listing no longer has.
pub open spec fn unlisted_today(t: Todo, pages: Seq<NotionPage>, today: Seq<char>) -> bool {
    t.notion_page_id matches Some(pid) && t.date@ == today && !(exists|k: int|
        0 <= k < pages.len() && (#[trigger] pages[k]).id@ == pid@)
}

/// What a synchronisation gives back.
pub struct SyncOutcome {
    /// How many pages were listed.
    pub count: usize,
    pub added: i64,
    pub removed: usize,
    /// Pages whose done state is to be set to the to-do's.
    pub write_backs: Vec<(String, bool)>,
    pub reward: Option<RewardInfo>,
}

/// Merging the pages one after the other leads from `d` to `nd`, page `k` giving `outs[k]`.
pub open spec fn pages_merged(
    d: Data,
    nd: Data,
    pages: Seq<NotionPage>,
    suffixes: Seq<String>,
    today: Seq<char>,
    yesterday: Seq<char>,
    now: i64,
    outs: Seq<PageOutcome>,
) -> bool {
    exists|ds: Seq<Data>|
        #![trigger ds.len()]
        ds.len() == pages.len() + 1 && ds[0] == d && ds.last() == nd && outs.len() == pages.len()
            && forall|k: int|
            0 <= k < pages.len() ==> #[trigger] page_step(
                ds[k],
                ds[k + 1],
                pages[k],
                suffixes[k]@,
                today,
                yesterday,
                now,
                outs[k],
            )
}

fn index_of_page(pages: &Vec<NotionPage>, pid: &str) -> (r: bool)
    ensures
        r == exists|k: int| 0 <= k < pages@.len() && (#[trigger] pages@[k]).id@ == pid@,
{
    let mut k: usize = 0;
    while k < pages.len()
        invariant
            k <= pages@.len(),
            forall|j: int| 0 <= j < k ==> (#[trigger] pages@[j]).id@ != pid@,
        decreases pages@.len() - k,
    {
        if same_text(pages[k].id.as_str(), pid) {
            return true;
        }
        k = k + 1;
    }
    false
}

/// Drops the to-dos of `today` linked to pages that the listing no longer has; returns
/// how many were dropped.
pub fn drop_unlisted(data: &mut Data, pages: &Vec<NotionPage>, today: &str) -> (removed: usize)
    ensures
        final(data).todos@ == old(data).todos@.filter(|t: Todo| !unlisted_today(t, pages@, today@)),
        removed == old(data).todos@.len() - final(data).todos@.len(),
        final(data).points == old(data).points,
        final(data).stats == old(data).stats,
        final(data).streak == old(data).streak,
        final(data).settings == old(data).settings,
        final(data).last_reward_date == old(data).last_reward_date,
        final(data).badges == old(data).badges,
        final(data).suppressed_notion_ids == old(data).suppressed_notion_ids,
{
    let ghost src = data.todos@;
    let ghost f = |t: Todo| !unlisted_today(t, pages@, today@);
    let mut kept: Vec<Todo> = Vec::new();
    let mut i: usize = 0;
    while i < data.todos.len()
        invariant
            i <= src.len(),
            data.todos@ == src,
            f == (|t: Todo| !unlisted_today(t, pages@, today@)),
            kept@ == src.take(i as int).filter(f),
            kept@.len() <= i,
        decreases src.len() - i,
    {
        proof {
            reveal_with_fuel(Seq::<_>::filter, 1);
            assert(src.take(i + 1).drop_last() =~= src.take(i as int));
        }
        let t = &data.todos[i];
        let drop = match &t.notion_page_id {
            Some(pid) => same_text(t.date.as_str(), today) && !index_of_page(pages, pid.as_str()),
            None => false,
        };
        if !drop {
            kept.push(t.clone());
        }
        i = i + 1;
    }
    assert(src.take(src.len() as int) =~= src);
    let before = data.todos.len();
    data.todos = kept;
    before - data.todos.len()
}

/// Merges the pages that Notion lists for `today` at `now` (new pages become to-dos, with
/// ids made of `now` and the page's suffix), then drops the day's to-dos of pages no
/// longer listed.
pub fn sync_pages(
    data: &mut Data,
    pages: &Vec<NotionPage>,
    suffixes: &Vec<String>,
    today: &str,
    yesterday: &str,
    now: i64,
) -> (r: SyncOutcome)
    requires
        suffixes@.len() == pages@.len(),
        sync_headroom(*old(data), pages@.len() as int),
    ensures
        r.count == pages@.len(),
        exists|merged: Data, outs: Seq<PageOutcome>|
            #[trigger] pages_merged(*old(data), merged, pages@, suffixes@, today@, yesterday@, now, outs)
                && r.added == added_count(outs) && r.write_backs@.map_values(
                |w: (String, bool)| (w.0@, w.1),
            ) == write_backs(pages@, outs) && r.reward == last_reward(outs) && final(data).todos@
                == merged.todos@.filter(|t: Todo| !unlisted_today(t, pages@, today@)) && r.removed
                == merged.todos@.len() - final(data).todos@.len() && final(data).points == merged.points
                && final(data).stats == merged.stats && final(data).streak == merged.streak
                && final(data).settings == merged.settings && final(data).last_reward_date
                == merged.last_reward_date && final(data).badges == merged.badges
                && final(data).suppressed_notion_ids == merged.suppressed_notion_ids,
{
    let ghost d0 = *data;
    let ghost u = choose|u: int| #[trigger] sync_bounds(d0, pages@.len() as int, u);
    assert(pages@.len() <= i64::MAX) by (nonlinear_arith)
        requires
            pages@.len() * (PAGE_GAIN + u) <= i64::MAX,
            PAGE_GAIN + u >= 1,
    ;
    let ghost mut ds: Seq<Data> = seq![d0];
    let ghost mut outs: Seq<PageOutcome> = Seq::empty();
    let mut added: i64 = 0;
    let mut pushes: Vec<(String, bool)> = Vec::new();
    let mut reward: Option<RewardInfo> = None;
    let mut k: usize = 0;
    while k < pages.len()
        invariant
            k <= pages@.len(),
            suffixes@.len() == pages@.len(),
            ds.len() == k + 1,
            outs.len() == k,
            ds[0] == d0,
            ds.last() == *data,
            forall|j: int|
                0 <= j < k ==> #[trigger] page_step(
                    ds[j],
                    ds[j + 1],
                    pages@[j],
                    suffixes@[j]@,
                    today@,
                    yesterday@,
                    now,
                    outs[j],
                ),
            sync_bounds(*data, pages@.len() - k, u),
            added == added_count(outs),
            0 <= added <= k,
            pushes@.map_values(|w: (String, bool)| (w.0@, w.1)) == write_backs(pages@, outs),
            reward == last_reward(outs),
            pages@.len() <= i64::MAX,
        decreases pages@.len() - k,
    {
        proof {
            lemma_bounds_give_headroom(*data, pages@[k as int], pages@.len() - k - 1, u);
        }
        let ghost before = *data;
        let ghost old_outs = outs;
        let out = apply_notion_page(data, &pages[k], suffixes[k].as_str(), today, yesterday, now);
        proof {
            lemma_page_step_keeps_bounds(
                before,
                *data,
                pages@[k as int],
                suffixes@[k as int]@,
                today@,
                yesterday@,
                now,
                out,
                pages@.len() - k - 1,
                u,
            );
            ds = ds.push(*data);
            outs = outs.push(out);
            assert(outs.drop_last() =~= old_outs);
        }
        if out.added {
            added = added + 1;
        }
        match out.push_done {
            Some(b) => {
                pushes.push((pages[k].id.clone(), b));
            },
            None => {},
        }
        if out.reward.is_some() {
            reward = out.reward;
        }
        proof {
            assert forall|j: int| 0 <= j < k + 1 implies #[trigger] page_step(
                ds[j],
                ds[j + 1],
                pages@[j],
                suffixes@[j]@,
                today@,
                yesterday@,
                now,
                outs[j],
            ) by {
                if j < k {
                    assert(ds[j] == ds.drop_last()[j]);
                }
            }
        }
        k = k + 1;
    }
    let ghost merged = *data;
    assert(pages_merged(d0, merged, pages@, suffixes@, today@, yesterday@, now, outs));
    let removed = drop_unlisted(data, pages, today);
    assert(pages_merged(d0, merged, pages@, suffixes@, today@, yesterday@, now, outs));
    SyncOutcome { count: pages.len(), added, removed, write_backs: pushes, reward }
}


// ---------------------------------------------------------------------------
// Every listed page ends up linked
// ---------------------------------------------------------------------------

/// The to-do is linked to the page `pid`.
pub open spec fn links_to(t: Todo, pid: Seq<char>) -> bool {
    t.notion_page_id matches Some(x) && x@ == pid
}

/// Some to-do is linked to the page `pid`.
pub open spec fn page_linked(todos: Seq<Todo>, pid: Seq<char>) -> bool {
    exists|i: int| 0 <= i < todos.len() && links_to(#[trigger] todos[i], pid)
}

proof fn lemma_page_todo_links(todos: Seq<Todo>, pid: Seq<char>)
    ensures
        page_todo(todos, pid) matches Some(i) ==> 0 <= i < todos.len() && (todos[i].notion_page_id matches Some(
            x,
        ) && x@ == pid),
    decreases todos.len(),
{
    if todos.len() > 0 {
        lemma_page_todo_links(todos.drop_last(), pid);
    }
}

/// Merging a page links it, and keeps every link there was.
proof fn lemma_page_step_links(
    d: Data,
    nd: Data,
    p: NotionPage,
    suffix: Seq<char>,
    today: Seq<char>,
    yesterday: Seq<char>,
    now: i64,
    out: PageOutcome,
)
    requires
        page_step(d, nd, p, suffix, today, yesterday, now, out),
    ensures
        page_linked(nd.todos@, p.id@),
        forall|pid: Seq<char>| #[trigger] page_linked(d.todos@, pid) ==> page_linked(nd.todos@, pid),
{
    lemma_page_todo_links(d.todos@, p.id@);
    match page_todo(d.todos@, p.id@) {
        None => {
            assert(nd.todos@[nd.todos@.len() - 1] == nd.todos@.last());
            assert forall|pid: Seq<char>| #[trigger] page_linked(d.todos@, pid) implies page_linked(nd.todos@, pid) by {
                let i = choose|i: int| 0 <= i < d.todos@.len() && links_to(#[trigger] d.todos@[i], pid);
                assert(nd.todos@[i] == nd.todos@.drop_last()[i]);
            }
        },
        Some(i) => {
            let t = d.todos@[i];
            if Some(p.done) != t.notion_done && p.done {
                let (mid, mid2, e1, e2) = choose|mid: Data, mid2: Data, e1: bool, e2: bool|
                    #[trigger] completed_by_page(d, mid, i, p, now) && (e1 ==> day_has_timed_completion(
                        mid.todos@,
                        today,
                    )) && #[trigger] badges_checked(mid, mid2, today, e1, now) && (e2
                        ==> day_has_timed_completion(mid2.todos@, today)) && #[trigger] reward_step(
                        mid2,
                        nd,
                        today,
                        yesterday,
                        e2,
                        now,
                    ) && (out.reward is Some) == reward_due(mid2, today);
                crate::logic::lemma_reward_step_bounds(mid2, nd, today, yesterday, e2, now);
                assert(nd.todos@ == mid.todos@);
            }
            assert(nd.todos@[i].notion_page_id == t.notion_page_id);
            assert forall|pid: Seq<char>| #[trigger] page_linked(d.todos@, pid) implies page_linked(nd.todos@, pid) by {
                let j = choose|j: int| 0 <= j < d.todos@.len() && links_to(#[trigger] d.todos@[j], pid);
                if j != i {
                    assert(nd.todos@[j] == d.todos@[j]);
                } else {
                    assert(nd.todos@[j].notion_page_id == d.todos@[j].notion_page_id);
                }
            }
        },
    }
}

proof fn lemma_links_upto(
    ds: Seq<Data>,
    pages: Seq<NotionPage>,
    suffixes: Seq<String>,
    today: Seq<char>,
    yesterday: Seq<char>,
    now: i64,
    outs: Seq<PageOutcome>,
    j: int,
)
    requires
        0 <= j <= pages.len(),
        ds.len() == pages.len() + 1,
        forall|k: int|
            0 <= k < pages.len() ==> #[trigger] page_step(
                ds[k],
                ds[k + 1],
                pages[k],
                suffixes[k]@,
                today,
                yesterday,
                now,
                outs[k],
            ),
    ensures
        forall|k: int| 0 <= k < j ==> page_linked(ds[j].todos@, (#[trigger] pages[k]).id@),
    decreases j,
{
    if j > 0 {
        lemma_links_upto(ds, pages, suffixes, today, yesterday, now, outs, j - 1);
        let i = j - 1;
        assert(page_step(ds[i], ds[i + 1], pages[i], suffixes[i]@, today, yesterday, now, outs[i]));
        lemma_page_step_links(ds[i], ds[i + 1], pages[i], suffixes[i]@, today, yesterday, now, outs[i]);
        assert forall|k: int| 0 <= k < j implies page_linked(ds[j].todos@, (#[trigger] pages[k]).id@) by {
            if k < i {
                assert(page_linked(ds[i].todos@, pages[k].id@));
            }
        }
    }
}

/// A synchronisation brings every page Notion listed into the to-dos: after it, each of
/// them is linked to a to-do.
pub proof fn lemma_listed_pages_linked(
    d: Data,
    merged: Data,
    pages: Seq<NotionPage>,
    suffixes: Seq<String>,
    today: Seq<char>,
    yesterday: Seq<char>,
    now: i64,
    outs: Seq<PageOutcome>,
    result: Seq<Todo>,
)
    requires
        pages_merged(d, merged, pages, suffixes, today, yesterday, now, outs),
        result == merged.todos@.filter(|t: Todo| !unlisted_today(t, pages, today)),
    ensures
        forall|k: int| 0 <= k < pages.len() ==> page_linked(result, (#[trigger] pages[k]).id@),
{
    let ds = choose|ds: Seq<Data>|
        #![trigger ds.len()]
        ds.len() == pages.len() + 1 && ds[0] == d && ds.last() == merged && outs.len() == pages.len()
            && forall|k: int|
            0 <= k < pages.len() ==> #[trigger] page_step(
                ds[k],
                ds[k + 1],
                pages[k],
                suffixes[k]@,
                today,
                yesterday,
                now,
                outs[k],
            );
    let n = pages.len() as int;
    lemma_links_upto(ds, pages, suffixes, today, yesterday, now, outs, n);
    assert(ds[n] == merged);
    let f = |t: Todo| !unlisted_today(t, pages, today);
    assert forall|k: int| 0 <= k < pages.len() implies page_linked(result, (#[trigger] pages[k]).id@) by {
        assert(page_linked(merged.todos@, pages[k].id@));
        let i = choose|i: int| 0 <= i < merged.todos@.len() && links_to(#[trigger] merged.todos@[i], pages[k].id@);
        assert(f(merged.todos@[i]));
        merged.todos@.lemma_filter_contains(f, i);
        let r = choose|r: int| 0 <= r < result.len() && result[r] == merged.todos@[i];
        assert(result[r].notion_page_id == merged.todos@[i].notion_page_id);
    }
}


/// Forgets which Notion pages the user deleted, so that they come back at the next
/// synchronisation.
pub fn restore_hidden_pages(data: &mut Data)
    ensures
        final(data).suppressed_notion_ids@.len() == 0,
        final(data).todos == old(data).todos,
        final(data).settings == old(data).settings,
        final(data).streak == old(data).streak,
        final(data).last_reward_date == old(data).last_reward_date,
        final(data).points == old(data).points,
        final(data).stats == old(data).stats,
        final(data).badges == old(data).badges,
{
    data.suppressed_notion_ids = Vec::new();
}

} // verus!
