use maxalert::store::{Data, Todo};
use maxalert::todos::{
    buy_theme, find_todo_index, theme_or_default, todos_add, todos_delete, todos_postpone,
    todos_toggle, todos_update, ShopError, TodoPatch, deadline_for, deadline_edit, DeadlineEdit,
};
use maxalert::siren::siren_fits;
use maxalert::sync::{restore_hidden_pages, sync_fits};
use maxalert::todos::{postpone_fits, toggle_fits};

fn t(id: &str, day: &str) -> Todo {
    Todo {
        id: id.to_string(),
        title: format!("title {}", id),
        color: "yellow".to_string(),
        date: day.to_string(),
        done: false,
        created_at: 0,
        due_at: None,
        done_at: None,
        awarded: None,
        postpones: None,
        ack_due: None,
        notion_page_id: None,
        notion_due_at: None,
        notion_done: None,
        bridge_source: None,
        bridge_synced_at: None,
        deferred_from: None,
        deferred_at: None,
    }
}

#[test]
fn find_prefers_the_todo_of_today() {
    let mut data = Data::new_default();
    data.todos.push(t("x", "2024-01-01"));
    data.todos.push(t("x", "2024-01-02"));
    data.todos.push(t("y", "2024-01-01"));
    assert_eq!(find_todo_index(&data, "x", "2024-01-02"), Some(1));
    assert_eq!(find_todo_index(&data, "x", "2024-01-03"), Some(0));
    assert_eq!(find_todo_index(&data, "y", "2024-01-02"), Some(2));
    assert_eq!(find_todo_index(&data, "z", "2024-01-02"), None);
}

#[test]
fn adding_trims_the_title_and_checks_the_colour() {
    let mut data = Data::new_default();
    assert!(todos_add(&mut data, "   ", None, None, "2024-01-02", 5, "ab12").is_none());
    assert!(data.todos.is_empty());
    let a = todos_add(&mut data, "  Report  ", None, Some("pink"), "2024-01-02", 5, "ab12").unwrap();
    assert_eq!(a.id, "t5ab12");
    assert_eq!(a.title, "Report");
    assert_eq!(a.color, "pink");
    assert_eq!(a.date, "2024-01-02");
    assert!(!a.done);
    assert_eq!(a.created_at, 5);
    assert_eq!(a.due_at, None);
    assert_eq!(deadline_for(Some("")), None);
    assert_eq!(deadline_for(None), None);
    let b = todos_add(&mut data, "x", deadline_for(Some("")), Some("magenta"), "2024-01-02", -7, "zz").unwrap();
    assert_eq!(b.color, "yellow");
    assert_eq!(b.id, "t-7zz");
    assert_eq!(b.due_at, None);
    assert_eq!(deadline_for(Some("25:00")), None);
    let c = todos_add(&mut data, "x", deadline_for(Some("25:00")), None, "2024-01-02", 1, "q").unwrap();
    assert_eq!(c.due_at, None);
    assert_eq!(data.todos.len(), 3);
    assert_eq!(data.todos[0].title, "Report");
}

#[test]
fn adding_with_a_time_sets_a_deadline() {
    let mut data = Data::new_default();
    let now = maxalert::clock::now_ms();
    let due = deadline_for(Some("23:59"));
    let a = todos_add(&mut data, "x", due, None, "2024-01-02", now, "a").unwrap();
    assert_eq!(a.due_at, due);
    if let Some(d) = due {
        assert_eq!(a.ack_due, if d < now { Some(d) } else { None });
    }
    // a deadline given directly, one past and one to come
    let p = todos_add(&mut data, "past", Some(100), None, "2024-01-02", 200, "b").unwrap();
    assert_eq!((p.due_at, p.ack_due), (Some(100), Some(100)));
    let f = todos_add(&mut data, "future", Some(300), None, "2024-01-02", 200, "c").unwrap();
    assert_eq!((f.due_at, f.ack_due), (Some(300), None));
}

#[test]
fn completing_and_reopening_moves_points() {
    let mut data = Data::new_default();
    let mut a = t("a", "2024-01-02");
    a.due_at = Some(1_000_000);
    data.todos.push(a);
    data.todos.push(t("b", "2024-01-02"));
    // completed 100 s before its deadline: 20 points and a siren save
    let out = todos_toggle(&mut data, "a", "2024-01-02", "2024-01-01", 900_000).unwrap();
    assert!(out.todo.done);
    assert_eq!(out.todo.done_at, Some(900_000));
    assert_eq!(out.todo.awarded, Some(20));
    assert!(out.reward.is_none());
    assert!(!out.sync_notion);
    assert_eq!(data.stats.total_done, 1);
    assert_eq!(data.stats.siren_saves, 1);
    assert_eq!(data.points.ledger.last().unwrap().reason, "완료: title a (정시 +10)");
    // first-done badge: 25 more; early-bird too where 900 s after the epoch is before 9 am
    let early = if maxalert::clock::hour_of(900_000) < 9 { 25 } else { 0 };
    assert_eq!(data.points.total, 45 + early);
    let out = todos_toggle(&mut data, "a", "2024-01-02", "2024-01-01", 950_000).unwrap();
    assert!(!out.todo.done);
    assert_eq!(out.todo.awarded, Some(0));
    assert_eq!(data.points.total, 25 + early);
    assert_eq!(data.stats.total_done, 0);
    assert_eq!(data.points.ledger[0].reason, "완료 취소: title a");
    assert!(todos_toggle(&mut data, "nope", "2024-01-02", "2024-01-01", 1).is_none());
}

#[test]
fn completing_the_last_todo_of_the_day_gives_the_reward() {
    let mut data = Data::new_default();
    let mut a = t("a", "2024-01-02");
    a.notion_page_id = Some("p".into());
    data.todos.push(a);
    let out = todos_toggle(&mut data, "a", "2024-01-02", "2024-01-01", 5).unwrap();
    assert!(out.sync_notion);
    let r = out.reward.expect("the day is complete");
    assert_eq!(r.streak, 1);
    assert_eq!(r.total, data.points.total);
    assert_eq!(data.last_reward_date.as_deref(), Some("2024-01-02"));
}

#[test]
fn deleting_a_bridged_notion_todo_suppresses_its_page() {
    let mut data = Data::new_default();
    let mut a = t("a", "2024-01-02");
    a.bridge_source = Some("notion-bridge".into());
    a.notion_page_id = Some("page-1".into());
    data.todos.push(a.clone());
    data.todos.push(a.clone());
    let mut b = t("b", "2024-01-02");
    b.notion_page_id = Some("page-2".into());
    data.todos.push(b);
    assert!(todos_delete(&mut data, "a", "2024-01-02"));
    assert_eq!(data.suppressed_notion_ids, vec!["page-1".to_string()]);
    assert!(todos_delete(&mut data, "a", "2024-01-02"));
    assert_eq!(data.suppressed_notion_ids, vec!["page-1".to_string()]);
    // not bridged: no suppression
    assert!(todos_delete(&mut data, "b", "2024-01-02"));
    assert_eq!(data.suppressed_notion_ids.len(), 1);
    assert!(data.todos.is_empty());
    assert!(todos_delete(&mut data, "b", "2024-01-02"));
}

#[test]
fn postponing_moves_the_deadline_and_costs_points() {
    let mut data = Data::new_default();
    data.points.total = 10;
    let mut a = t("a", "2024-01-02");
    a.due_at = Some(100_000);
    a.ack_due = Some(100_000);
    data.todos.push(a);
    // deadline later than now: counted from the deadline
    let r = todos_postpone(&mut data, "a", "2024-01-02", 10, 50_000).unwrap();
    assert_eq!(r.due_at, Some(700_000));
    assert_eq!(r.postpones, Some(1));
    assert_eq!(r.ack_due, None);
    assert_eq!(data.points.total, 7);
    assert_eq!(data.points.ledger[0].reason, "미루기: title a");
    // now later than the deadline: counted from now
    let r = todos_postpone(&mut data, "a", "2024-01-02", 1, 900_000).unwrap();
    assert_eq!(r.due_at, Some(960_000));
    assert_eq!(r.postpones, Some(2));
    assert!(todos_postpone(&mut data, "zz", "2024-01-02", 1, 0).is_none());
}

#[test]
fn editing_keeps_what_the_patch_leaves_out() {
    let mut data = Data::new_default();
    let mut a = t("a", "2024-01-02");
    a.due_at = Some(5);
    a.ack_due = Some(5);
    data.todos.push(a);
    let patch = TodoPatch { title: Some("  new  ".into()), color: Some("nope".into()), deadline: deadline_edit(None) };
    let r = todos_update(&mut data, "a", "2024-01-02", &patch, 0).unwrap();
    assert_eq!(r.title, "new");
    assert_eq!(r.color, "yellow");
    assert_eq!(r.due_at, Some(5));
    let patch = TodoPatch { title: Some("   ".into()), color: Some("blue".into()), deadline: deadline_edit(Some("")) };
    let r = todos_update(&mut data, "a", "2024-01-02", &patch, 0).unwrap();
    assert_eq!(r.title, "new");
    assert_eq!(r.color, "blue");
    assert_eq!(r.due_at, None);
    assert_eq!(r.ack_due, None);
    assert_eq!(deadline_edit(Some("x:y")), DeadlineEdit::Keep);
    assert_eq!(deadline_edit(None), DeadlineEdit::Keep);
    assert_eq!(deadline_edit(Some("")), DeadlineEdit::Clear);
    let patch = TodoPatch { title: None, color: None, deadline: DeadlineEdit::SetTo(50) };
    let r = todos_update(&mut data, "a", "2024-01-02", &patch, 60).unwrap();
    assert_eq!((r.due_at, r.ack_due), (Some(50), Some(50)));
    let patch = TodoPatch { title: None, color: None, deadline: DeadlineEdit::SetTo(90) };
    let r = todos_update(&mut data, "a", "2024-01-02", &patch, 60).unwrap();
    assert_eq!((r.due_at, r.ack_due), (Some(90), None));
    let patch = TodoPatch { title: None, color: None, deadline: deadline_edit(Some("x:y")) };
    let r = todos_update(&mut data, "a", "2024-01-02", &patch, 0).unwrap();
    assert_eq!(r.due_at, Some(90));
    assert!(todos_update(&mut data, "b", "2024-01-02", &patch, 0).is_none());
}

#[test]
fn buying_themes() {
    let mut data = Data::new_default();
    data.points.total = 160;
    assert_eq!(buy_theme(&mut data, "gold", 1), Err(ShopError::UnknownTheme));
    assert_eq!(ShopError::UnknownTheme.message(), "알 수 없는 테마");
    assert_eq!(buy_theme(&mut data, "kraft", 1), Err(ShopError::NotEnoughPoints(200)));
    assert_eq!(ShopError::NotEnoughPoints(200).message(), "포인트 부족 (200P 필요)");
    assert_eq!(data.settings.postit_theme, "classic");
    assert_eq!(buy_theme(&mut data, "neon", 2), Ok(()));
    assert_eq!(data.points.total, 10);
    assert_eq!(data.settings.postit_theme, "neon");
    assert_eq!(data.settings.unlocked_themes, vec!["classic".to_string(), "neon".to_string()]);
    assert_eq!(data.points.ledger[0].reason, "테마 구입: neon");
    // owned themes cost nothing
    assert_eq!(buy_theme(&mut data, "classic", 3), Ok(()));
    assert_eq!(buy_theme(&mut data, "neon", 3), Ok(()));
    assert_eq!(data.points.total, 10);
    // an empty list counts as the classic theme only
    data.settings.unlocked_themes.clear();
    assert_eq!(buy_theme(&mut data, "classic", 4), Ok(()));
    assert_eq!(data.settings.unlocked_themes, vec!["classic".to_string()]);
    data.settings.postit_theme = String::new();
    assert_eq!(theme_or_default(&data), "classic");
}

#[test]
fn limits_before_changes() {
    let mut data = Data::new_default();
    let mut a = t("a", "2024-01-02");
    a.due_at = Some(i64::MIN + 5);
    data.todos.push(a);
    // the time left to the deadline would not fit
    assert!(!toggle_fits(&data, "a", "2024-01-02", 10));
    assert!(toggle_fits(&data, "a", "2024-01-02", 0));
    assert!(toggle_fits(&data, "missing", "2024-01-02", 0));
    assert!(!siren_fits(&data.todos, 10));
    assert!(siren_fits(&data.todos, 0));
    assert!(postpone_fits(&data, "a", "2024-01-02", 10, 0));
    assert!(!postpone_fits(&data, "a", "2024-01-02", i64::MAX, 0));
    data.points.total = i64::MIN + 2;
    assert!(!postpone_fits(&data, "a", "2024-01-02", 10, 0));
    data.points.total = 0;
    assert!(sync_fits(&data, 3));
    data.points.total = i64::MAX - 100;
    assert!(!sync_fits(&data, 3));
    assert!(sync_fits(&data, 0));
    data.suppressed_notion_ids.push("p".into());
    restore_hidden_pages(&mut data);
    assert!(data.suppressed_notion_ids.is_empty());
    assert_eq!(data.todos.len(), 1);
}
