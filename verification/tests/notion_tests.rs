use maxalert::logic::pick_color;
use maxalert::notion::{
    detect_schema, mark_notion_done, notion_write_back, page_from_fields, sync_credentials,
    users_from_page, NotionPage, PageFields, UserFields,
};
use maxalert::store::{Assignee, Data, Todo};
use maxalert::sync::{apply_notion_page, drop_unlisted, sync_pages};
use maxalert::notion::{query_conditions, QueryCondition, Schema};
use maxalert::notion::{api_error_text, next_users_cursor, schema_cache_key, users_query};

fn t(id: &str, day: &str) -> Todo {
    Todo {
        id: id.to_string(),
        title: format!("title {}", id),
        color: "yellow".to_string(),
        date: day.to_string(),
        done: false,
        created_at: 0,
        due_at: None,
        done_at: None,
        awarded: None,
        postpones: None,
        ack_due: None,
        notion_page_id: None,
        notion_due_at: None,
        notion_done: None,
        bridge_source: None,
        bridge_synced_at: None,
        deferred_from: None,
        deferred_at: None,
    }
}

fn page(id: &str, title: &str, due_at: Option<i64>, done: bool) -> NotionPage {
    NotionPage { id: id.to_string(), title: title.to_string(), due_at, done }
}

fn props(list: &[(&str, &str)]) -> Vec<(String, String)> {
    list.iter().map(|(a, b)| (a.to_string(), b.to_string())).collect()
}

#[test]
fn schema_takes_the_first_property_of_each_type() {
    let p = props(&[
        ("Memo", "rich_text"),
        ("Name", "title"),
        ("When", "date"),
        ("Also", "date"),
        ("Done", "checkbox"),
        ("Who", "people"),
    ]);
    let s = detect_schema(Some(&p)).unwrap();
    assert_eq!(s.title_prop, "Name");
    assert_eq!(s.date_prop, "When");
    assert_eq!(s.done_prop.as_deref(), Some("Done"));
    assert_eq!(s.person_prop.as_deref(), Some("Who"));
    let p = props(&[("Name", "title"), ("When", "date")]);
    let s = detect_schema(Some(&p)).unwrap();
    assert_eq!(s.done_prop, None);
    assert_eq!(s.person_prop, None);
}

#[test]
fn schema_errors() {
    assert_eq!(detect_schema(None).err().unwrap(), "데이터베이스 속성을 읽을 수 없습니다");
    let p = props(&[("When", "date")]);
    assert_eq!(detect_schema(Some(&p)).err().unwrap(), "데이터베이스에 제목(title) 속성이 없습니다");
    let p = props(&[("Name", "title")]);
    assert_eq!(detect_schema(Some(&p)).err().unwrap(), "데이터베이스에 날짜(date) 속성이 없습니다");
}

#[test]
fn users_keep_people_only() {
    let fs = vec![
        UserFields { kind: Some("bot".into()), id: Some("b".into()), name: Some("Bot".into()) },
        UserFields { kind: Some("person".into()), id: Some("u1".into()), name: Some("Kim".into()) },
        UserFields { kind: Some("person".into()), id: None, name: Some(String::new()) },
        UserFields { kind: None, id: Some("x".into()), name: None },
        UserFields { kind: Some("person".into()), id: Some("u3".into()), name: None },
    ];
    let us = users_from_page(&fs);
    assert_eq!(us.len(), 3);
    assert_eq!((us[0].id.as_str(), us[0].name.as_str()), ("u1", "Kim"));
    assert_eq!((us[1].id.as_str(), us[1].name.as_str()), ("", "(이름 없음)"));
    assert_eq!((us[2].id.as_str(), us[2].name.as_str()), ("u3", "(이름 없음)"));
}

#[test]
fn pages_read_from_their_fields() {
    let f = PageFields {
        id: Some("p1".into()),
        title_parts: Some(vec!["Call ".into(), "Lee".into()]),
        start: Some("2024-01-02T09:30:00.000+09:00".into()),
        checkbox: Some(true),
    };
    let p = page_from_fields(&f, true);
    assert_eq!(p.id, "p1");
    assert_eq!(p.title, "Call Lee");
    assert_eq!(p.due_at, Some(1_704_155_400_000));
    assert!(p.done);
    // without a checkbox property the page is never done
    assert!(!page_from_fields(&f, false).done);
    // a date without a time of day has no deadline; an empty title gets a placeholder
    let f = PageFields {
        id: None,
        title_parts: Some(vec![]),
        start: Some("2024-01-02".into()),
        checkbox: None,
    };
    let p = page_from_fields(&f, true);
    assert_eq!(p.id, "");
    assert_eq!(p.title, "(제목 없음)");
    assert_eq!(p.due_at, None);
    assert!(!p.done);
    let f = PageFields { id: None, title_parts: None, start: Some("garbage-garbage".into()), checkbox: None };
    let p = page_from_fields(&f, false);
    assert_eq!(p.title, "(제목 없음)");
    assert_eq!(p.due_at, None);
}

#[test]
fn credentials_need_a_token_and_a_database() {
    let mut data = Data::new_default();
    assert_eq!(sync_credentials(&data).err().unwrap(), "노션 토큰/DB가 설정되지 않았습니다");
    data.settings.notion_token = "secret".into();
    assert!(sync_credentials(&data).is_err());
    data.settings.notion_db = "db".into();
    let c = sync_credentials(&data).unwrap();
    assert_eq!(c.token, "secret");
    assert_eq!(c.db, "db");
    assert_eq!(c.assignee_id, None);
    data.settings.notion_assignee = Some(Assignee { id: "u1".into(), name: "Kim".into() });
    assert_eq!(sync_credentials(&data).unwrap().assignee_id.as_deref(), Some("u1"));
}

#[test]
fn write_back_needs_an_account_and_a_linked_page() {
    let mut data = Data::new_default();
    let mut a = t("a", "2024-01-02");
    a.notion_page_id = Some("pa".into());
    a.done = true;
    data.todos.push(a);
    data.todos.push(t("b", "2024-01-02"));
    assert!(notion_write_back(&data, "a").is_none());
    data.settings.notion_token = "tok".into();
    data.settings.notion_db = "db".into();
    let w = notion_write_back(&data, "a").unwrap();
    assert_eq!((w.token.as_str(), w.db.as_str(), w.page_id.as_str(), w.done), ("tok", "db", "pa", true));
    assert!(notion_write_back(&data, "b").is_none());
    assert!(notion_write_back(&data, "zz").is_none());
    mark_notion_done(&mut data, "a", true);
    assert_eq!(data.todos[0].notion_done, Some(true));
    mark_notion_done(&mut data, "zz", true);
    assert_eq!(data.todos[1].notion_done, None);
}

#[test]
fn a_new_page_becomes_a_todo() {
    let mut data = Data::new_default();
    let p = page("p1", "Meeting", Some(1_000), false);
    let out = apply_notion_page(&mut data, &p, "ab", "2024-01-02", "2024-01-01", 5_000);
    assert!(out.added);
    assert_eq!(out.push_done, None);
    assert!(out.reward.is_none());
    let n = &data.todos[0];
    assert_eq!(n.id, "n5000ab");
    assert_eq!(n.title, "Meeting");
    assert_eq!(n.color, pick_color("Meeting"));
    assert_eq!(n.date, "2024-01-02");
    assert_eq!(n.due_at, Some(1_000));
    // the deadline is already past: its siren counts as dealt with
    assert_eq!(n.ack_due, Some(1_000));
    assert_eq!(n.notion_page_id.as_deref(), Some("p1"));
    assert_eq!(n.notion_due_at, Some(1_000));
    assert_eq!(n.notion_done, Some(false));
    assert_eq!(data.points.total, 0);
}

#[test]
fn a_changed_deadline_resets_the_siren() {
    let mut data = Data::new_default();
    let mut a = t("a", "2024-01-02");
    a.notion_page_id = Some("p1".into());
    a.notion_due_at = Some(10);
    a.due_at = Some(10);
    a.ack_due = Some(10);
    a.notion_done = Some(false);
    data.todos.push(a);
    let out = apply_notion_page(&mut data, &page("p1", "New title", Some(20), false), "x", "2024-01-02", "2024-01-01", 5);
    assert!(!out.added);
    assert_eq!(out.push_done, None);
    let a = &data.todos[0];
    assert_eq!(a.title, "New title");
    assert_eq!(a.due_at, Some(20));
    assert_eq!(a.notion_due_at, Some(20));
    assert_eq!(a.ack_due, None);
}

#[test]
fn a_page_completed_in_notion_completes_the_todo() {
    let mut data = Data::new_default();
    let mut a = t("a", "2024-01-02");
    a.notion_page_id = Some("p1".into());
    a.notion_done = Some(false);
    data.todos.push(a);
    data.todos.push(t("b", "2024-01-02"));
    let out = apply_notion_page(&mut data, &page("p1", "Doc", None, true), "x", "2024-01-02", "2024-01-01", 5);
    assert!(out.reward.is_none());
    let a = &data.todos[0];
    assert!(a.done);
    assert_eq!(a.done_at, Some(5));
    assert_eq!(a.awarded, Some(10));
    assert_eq!(a.notion_done, Some(true));
    assert_eq!(data.stats.total_done, 1);
    // the completion, then the first-done badge (and early-bird where 5 ms after the epoch
    // is before 9 am)
    let early = if maxalert::clock::hour_of(5) < 9 { 25 } else { 0 };
    assert_eq!(data.points.total, 10 + 25 + early);
    assert_eq!(data.points.ledger.last().unwrap().reason, "완료(노션): Doc");
    // reopened in Notion: the ten points go back
    let out = apply_notion_page(&mut data, &page("p1", "Doc", None, false), "x", "2024-01-02", "2024-01-01", 6);
    assert!(out.reward.is_none());
    assert!(!data.todos[0].done);
    assert_eq!(data.todos[0].awarded, Some(0));
    assert_eq!(data.points.total, 25 + early);
    assert_eq!(data.points.ledger[0].reason, "완료 취소(노션): Doc");
    assert_eq!(data.stats.total_done, 0);
}

#[test]
fn a_todo_done_here_is_written_back() {
    let mut data = Data::new_default();
    let mut a = t("a", "2024-01-02");
    a.notion_page_id = Some("p1".into());
    a.notion_done = Some(false);
    a.done = true;
    data.todos.push(a);
    let out = apply_notion_page(&mut data, &page("p1", "Doc", None, false), "x", "2024-01-02", "2024-01-01", 5);
    assert_eq!(out.push_done, Some(true));
    assert_eq!(data.todos[0].notion_done, Some(true));
    assert!(data.todos[0].done);
}

#[test]
fn unlisted_pages_of_today_are_dropped() {
    let mut data = Data::new_default();
    let mut a = t("a", "2024-01-02");
    a.notion_page_id = Some("gone".into());
    let mut b = t("b", "2024-01-01");
    b.notion_page_id = Some("gone".into());
    let mut c = t("c", "2024-01-02");
    c.notion_page_id = Some("kept".into());
    data.todos.push(a);
    data.todos.push(b);
    data.todos.push(c);
    data.todos.push(t("d", "2024-01-02"));
    let pages = vec![page("kept", "K", None, false)];
    assert_eq!(drop_unlisted(&mut data, &pages, "2024-01-02"), 1);
    let ids: Vec<&str> = data.todos.iter().map(|t| t.id.as_str()).collect();
    assert_eq!(ids, vec!["b", "c", "d"]);
}

#[test]
fn a_whole_sync() {
    let mut data = Data::new_default();
    let mut old = t("old", "2024-01-02");
    old.notion_page_id = Some("stale".into());
    data.todos.push(old);
    let mut linked = t("l", "2024-01-02");
    linked.notion_page_id = Some("p2".into());
    linked.notion_done = Some(false);
    linked.done = true;
    data.todos.push(linked);
    let pages = vec![page("p1", "One", None, false), page("p2", "Two", None, false)];
    let suffixes = vec!["aa".to_string(), "bb".to_string()];
    let r = sync_pages(&mut data, &pages, &suffixes, "2024-01-02", "2024-01-01", 77);
    assert_eq!(r.count, 2);
    assert_eq!(r.added, 1);
    assert_eq!(r.removed, 1);
    assert_eq!(r.write_backs, vec![("p2".to_string(), true)]);
    assert!(r.reward.is_none());
    let ids: Vec<&str> = data.todos.iter().map(|t| t.id.as_str()).collect();
    assert_eq!(ids, vec!["l", "n77aa"]);
    assert_eq!(data.todos[0].title, "Two");
}

#[test]
fn query_conditions_for_a_day() {
    let s = Schema {
        title_prop: "Name".into(),
        date_prop: "When".into(),
        done_prop: None,
        person_prop: Some("Who".into()),
    };
    let c = query_conditions(&s, "2024-01-02", "2024-01-03", Some("u1"));
    assert_eq!(c.len(), 3);
    assert!(matches!(&c[0], QueryCondition::OnOrAfter { prop, day } if prop == "When" && day == "2024-01-02"));
    assert!(matches!(&c[1], QueryCondition::Before { prop, day } if prop == "When" && day == "2024-01-03"));
    assert!(matches!(&c[2], QueryCondition::PeopleContains { prop, person } if prop == "Who" && person == "u1"));
    assert_eq!(query_conditions(&s, "2024-01-02", "2024-01-03", None).len(), 2);
    let s2 = Schema { person_prop: None, ..s };
    assert_eq!(query_conditions(&s2, "2024-01-02", "2024-01-03", Some("u1")).len(), 2);
}

#[test]
fn user_list_paging_and_errors() {
    assert_eq!(users_query(&None), "?page_size=100");
    assert_eq!(users_query(&Some("abc".into())), "?start_cursor=abc&page_size=100");
    assert_eq!(next_users_cursor(true, Some("c2".into())), Some("c2".to_string()));
    assert_eq!(next_users_cursor(true, None), None);
    assert_eq!(next_users_cursor(false, Some("c2".into())), None);
    assert_eq!(api_error_text(401, "unauthorized"), "Notion API 401: unauthorized");
    let long = "가".repeat(301);
    let e = api_error_text(500, &long);
    assert_eq!(e, format!("Notion API 500: {}", "가".repeat(300)));
    assert_eq!(schema_cache_key("secret_0123456789", "db1"), "23456789:db1");
    assert_eq!(schema_cache_key("short", "db1"), "short:db1");
    assert_eq!(schema_cache_key("12345678", "d"), "12345678:d");
    assert_eq!(schema_cache_key("xx가나", "d"), "xx가나:d");
}
