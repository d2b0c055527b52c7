use maxalert::logic::{level_info, pick_color, theme_price, LEVEL_COUNT};

#[test]
fn level_boundaries() {
    assert_eq!(level_info(0).n, 1);
    assert_eq!(level_info(99).n, 1);
    assert_eq!(level_info(100).n, 2);
    assert_eq!(level_info(249).n, 2);
    assert_eq!(level_info(250).n, 3);
    let top = level_info(5000);
    assert_eq!(top.n, LEVEL_COUNT);
    assert_eq!(top.title, "타임 마스터");
    assert_eq!(top.next, None);
    assert_eq!(level_info(100).next, Some(250));
}

#[test]
fn pick_color_is_deterministic_and_in_palette() {
    const PALETTE: [&str; 6] = ["yellow", "pink", "blue", "green", "purple", "orange"];
    let c1 = pick_color("회의 준비");
    let c2 = pick_color("회의 준비");
    assert_eq!(c1, c2);
    assert!(PALETTE.contains(&c1.as_str()));
    assert_eq!(pick_color("A"), "orange");
}

#[test]
fn negative_totals_stay_at_the_first_level() {
    let li = level_info(-5);
    assert_eq!(li.n, 1);
    assert_eq!(li.min, 0);
    assert_eq!(li.title, "산만한 금붕어");
    assert_eq!(li.icon, "🐠");
    assert_eq!(li.next, Some(100));
}

#[test]
fn theme_prices() {
    assert_eq!(theme_price("classic"), Some(0));
    assert_eq!(theme_price("neon"), Some(150));
    assert_eq!(theme_price("kraft"), Some(200));
    assert_eq!(theme_price("midnight"), Some(300));
    assert_eq!(theme_price("gold"), None);
}

#[test]
fn pick_color_hashes_astral_characters_by_their_lead_surrogate() {
    // "AB": h = 65*31 + 66 = 2081, 2081 % 6 = 5
    assert_eq!(pick_color("AB"), "orange");
    // "" hashes to 0
    assert_eq!(pick_color(""), "yellow");
    // U+1F600: first UTF-16 unit 0xD83D = 55357, 55357 % 6 = 1
    assert_eq!(pick_color("😀"), "pink");
}

use maxalert::clock::{now_ms, today_str};
use maxalert::logic::{
    add_points, add_points_at, check_badges, check_badges_at, maybe_reward, own_badge, reward_day_at,
    today_points, badge_times, recent_ledger, sum_points_on_day,
};
use maxalert::order::sort_todos;
use maxalert::siren::siren_eligible;
use maxalert::store::{Data, LedgerEntry, Todo};

fn todo(id: &str, done: bool, due_at: Option<i64>, created_at: i64) -> Todo {
    Todo {
        id: id.to_string(),
        title: id.to_string(),
        color: "yellow".to_string(),
        date: today_str(),
        done,
        created_at,
        due_at,
        done_at: None,
        awarded: None,
        postpones: None,
        ack_due: None,
        notion_page_id: None,
        notion_due_at: None,
        notion_done: None,
        bridge_source: None,
        bridge_synced_at: None,
        deferred_from: None,
        deferred_at: None,
    }
}

fn todo_on(id: &str, day: &str, done: bool) -> Todo {
    let mut t = todo(id, done, None, 0);
    t.date = day.to_string();
    t
}

#[test]
fn badges_awarded_once_and_by_condition() {
    let mut data = Data::new_default();
    data.stats.total_done = 100;
    data.todos.push(todo("a", true, None, now_ms()));
    check_badges(&mut data);
    assert!(own_badge(&data, "first-done"));
    assert!(own_badge(&data, "centurion"));
    assert!(!own_badge(&data, "streak-7"));
    let badge_count = data.badges.len();
    let total_after_first = data.points.total;
    check_badges(&mut data);
    assert_eq!(data.badges.len(), badge_count);
    assert_eq!(data.points.total, total_after_first);
}

#[test]
fn sort_order_done_last_then_due_then_created() {
    let mut v = vec![
        todo("done1", true, Some(1000), 1),
        todo("notime", false, None, 5),
        todo("late", false, Some(3000), 2),
        todo("early", false, Some(1000), 3),
    ];
    v.sort_by(sort_todos);
    let ids: Vec<&str> = v.iter().map(|t| t.id.as_str()).collect();
    assert_eq!(ids, vec!["early", "late", "notime", "done1"]);
}

#[test]
fn verified_sort_matches_std_sort() {
    let v = vec![
        todo("done1", true, Some(1000), 1),
        todo("notime", false, None, 5),
        todo("late", false, Some(3000), 2),
        todo("early", false, Some(1000), 3),
        todo("notime-older", false, None, 4),
        todo("early-twin", false, Some(1000), 9),
    ];
    let sorted = maxalert::sorting::sort_todo_list(&v);
    let ids: Vec<&str> = sorted.iter().map(|t| t.id.as_str()).collect();
    assert_eq!(ids, vec!["early", "early-twin", "late", "notime-older", "notime", "done1"]);
    let mut w = v.clone();
    w.sort_by(sort_todos);
    let wids: Vec<&str> = w.iter().map(|t| t.id.as_str()).collect();
    assert_eq!(ids, wids);
}

#[test]
fn siren_eligibility_respects_ack_and_lead() {
    let now = now_ms();
    let mut t = todo("s", false, Some(now + 2 * 60 * 1000), now);
    assert!(siren_eligible(&t, now));
    t.ack_due = t.due_at;
    assert!(!siren_eligible(&t, now));
    let mut d = todo("d", true, Some(now + 60 * 1000), now);
    d.ack_due = None;
    assert!(!siren_eligible(&d, now));
    let far = todo("f", false, Some(now + 10 * 60 * 1000), now);
    assert!(!siren_eligible(&far, now));
}

#[test]
fn points_are_clamped_and_ledger_capped() {
    let mut data = Data::new_default();
    add_points_at(&mut data, -5, "x", 1);
    assert_eq!(data.points.total, 0);
    assert_eq!(data.points.ledger.len(), 1);
    assert_eq!(data.points.ledger[0].delta, -5);
    for i in 0..250 {
        add_points_at(&mut data, 1, "y", i);
    }
    assert_eq!(data.points.total, 250);
    assert_eq!(data.points.ledger.len(), 200);
    // newest first
    assert_eq!(data.points.ledger[0].at, 249);
    assert_eq!(data.points.ledger[199].at, 50);
}

#[test]
fn badges_at_a_fixed_instant() {
    let mut data = Data::new_default();
    data.todos.push(todo_on("a", "2024-05-01", true));
    data.streak.count = 3;
    check_badges_at(&mut data, "2024-05-01", true, 42);
    // first-done is not earned (no completions counted), the rest of the day's badges are
    let ids: Vec<&str> = data.badges.iter().map(|b| b.id.as_str()).collect();
    assert_eq!(ids, vec!["early-bird", "perfect-day", "no-snooze", "streak-3"]);
    assert!(data.badges.iter().all(|b| b.at == 42));
    assert_eq!(data.points.total, 100);
    assert_eq!(data.points.ledger[0].reason, "🏅 뱃지 획득: 작심삼일 극복");
    assert_eq!(data.points.ledger[3].reason, "🏅 뱃지 획득: 얼리버드");
}

#[test]
fn postponed_todo_spoils_no_snooze() {
    let mut data = Data::new_default();
    let mut t = todo_on("a", "2024-05-01", true);
    t.postpones = Some(1);
    data.todos.push(t);
    check_badges_at(&mut data, "2024-05-01", false, 1);
    let ids: Vec<&str> = data.badges.iter().map(|b| b.id.as_str()).collect();
    assert_eq!(ids, vec!["perfect-day"]);
}

#[test]
fn daily_reward_extends_streak_and_is_given_once() {
    let mut data = Data::new_default();
    data.todos.push(todo_on("a", "2024-05-02", true));
    data.streak.count = 2;
    data.streak.last_date = Some("2024-05-01".to_string());
    assert!(reward_day_at(&mut data, "2024-05-02", "2024-05-01", false, 7));
    assert_eq!(data.streak.count, 3);
    assert_eq!(data.streak.last_date.as_deref(), Some("2024-05-02"));
    assert_eq!(data.last_reward_date.as_deref(), Some("2024-05-02"));
    // 50 bonus, then perfect-day, no-snooze and streak-3 badges at 25 each
    assert_eq!(data.points.total, 125);
    let total = data.points.total;
    assert!(!reward_day_at(&mut data, "2024-05-02", "2024-05-01", false, 8));
    assert_eq!(data.points.total, total);
}

#[test]
fn broken_streak_restarts_at_one() {
    let mut data = Data::new_default();
    data.todos.push(todo_on("a", "2024-05-05", true));
    data.streak.count = 9;
    data.streak.last_date = Some("2024-05-01".to_string());
    assert!(reward_day_at(&mut data, "2024-05-05", "2024-05-04", false, 7));
    assert_eq!(data.streak.count, 1);
}

#[test]
fn no_reward_while_a_todo_is_open() {
    let mut data = Data::new_default();
    data.todos.push(todo_on("a", "2024-05-02", true));
    data.todos.push(todo_on("b", "2024-05-02", false));
    assert!(!reward_day_at(&mut data, "2024-05-02", "2024-05-01", false, 7));
    assert_eq!(data.points.total, 0);
    assert!(data.last_reward_date.is_none());
    // a day without to-dos earns nothing either
    let mut empty = Data::new_default();
    assert!(!reward_day_at(&mut empty, "2024-05-02", "2024-05-01", false, 7));
}

#[test]
fn maybe_reward_reports_the_screen() {
    let mut data = Data::new_default();
    let mut t = todo("a", true, None, now_ms());
    t.date = today_str();
    data.todos.push(t);
    let info = maybe_reward(&mut data).expect("all of today is done");
    assert_eq!(info.streak, 1);
    assert_eq!(info.total, data.points.total);
    let li = level_info(data.points.total);
    assert_eq!(info.title, li.title);
    assert_eq!(info.icon, li.icon);
    assert_eq!(info.min, li.min);
    assert_eq!(info.next, li.next.map(|n| n.to_string()).unwrap_or_default());
    // 50 bonus plus at least the perfect-day and no-snooze badges
    assert!(data.points.total >= 100);
    assert!(maybe_reward(&mut data).is_none());
    assert_eq!(today_points(&data), info.today);
}

#[test]
fn points_of_a_day() {
    let ledger = vec![
        LedgerEntry { at: 1, delta: 10, reason: "a".into() },
        LedgerEntry { at: 2, delta: -3, reason: "b".into() },
        LedgerEntry { at: 3, delta: 25, reason: "c".into() },
    ];
    let dates = vec!["2024-01-02".to_string(), "2024-01-02".to_string(), "2024-01-01".to_string()];
    assert_eq!(sum_points_on_day(&ledger, &dates, "2024-01-02"), 7);
    assert_eq!(sum_points_on_day(&ledger, &dates, "2024-01-01"), 25);
    assert_eq!(sum_points_on_day(&ledger, &dates, "2024-01-03"), 0);
}

#[test]
fn profile_badge_times_and_recent_ledger() {
    let mut data = Data::new_default();
    data.todos.push(todo_on("a", "2024-05-01", true));
    check_badges_at(&mut data, "2024-05-01", false, 99);
    let times = badge_times(&data);
    assert_eq!(times.len(), 8);
    assert_eq!(times[0], None);
    assert_eq!(times[2], Some(99));
    let recent = recent_ledger(&data, 1);
    assert_eq!(recent.len(), 1);
    assert_eq!(recent[0].delta, 25);
    assert_eq!(recent_ledger(&data, 12).len(), data.points.ledger.len());
}

#[test]
fn add_points_records_on_the_clock() {
    let mut data = Data::new_default();
    let before = now_ms();
    add_points(&mut data, 7, "bonus");
    let after = now_ms();
    assert_eq!(data.points.total, 7);
    assert_eq!(data.points.ledger.len(), 1);
    assert_eq!(data.points.ledger[0].delta, 7);
    assert_eq!(data.points.ledger[0].reason, "bonus");
    assert!(before <= data.points.ledger[0].at && data.points.ledger[0].at <= after);
    add_points(&mut data, -10, "undo");
    assert_eq!(data.points.total, 0);
    assert_eq!(data.points.ledger[0].delta, -10);
}
