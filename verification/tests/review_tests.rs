use maxalert::download::{silent_update_step, UpdateAction, UpdatePlan, UpdateStage};
use maxalert::logic::{early_done_with, sum_points_on_day};
use maxalert::store::{Data, LedgerEntry, Todo};
use maxalert::todos::{todos_defer, todos_postpone};
use maxalert::clock::{clock_reading_ms, hour_of, local_choice, local_of, now_ms, parse_time_today, LocalTime, INSTANT_BOUND};
use maxalert::update::urlencode;
use maxalert::update::{announce_version, parse_numeric_version, update_url_allowed};

const ABC_SHA512: &str =
    "3a81oZNherrMQXNJriBBMRLm+k6JqX6iCp7u5ktV05ohkpkqJ0/BqDa6PCOj/uu9RU1EI2Q86A4qmslPpUyknw==";

fn t(id: &str, day: &str) -> Todo {
    Todo {
        id: id.to_string(),
        title: format!("title {}", id),
        color: "yellow".to_string(),
        date: day.to_string(),
        done: false,
        created_at: 0,
        due_at: None,
        done_at: None,
        awarded: None,
        postpones: None,
        ack_due: None,
        notion_page_id: None,
        notion_due_at: None,
        notion_done: None,
        bridge_source: None,
        bridge_synced_at: None,
        deferred_from: None,
        deferred_at: None,
    }
}

#[test]
fn plain_http_only_to_the_loopback_host() {
    assert!(update_url_allowed("http://localhost"));
    assert!(update_url_allowed("http://localhost:8899/latest.yml"));
    assert!(update_url_allowed("http://localhost/latest.yml"));
    assert!(update_url_allowed("http://127.0.0.1?x=1"));
    assert!(update_url_allowed("http://127.0.0.1#f"));
    assert!(!update_url_allowed("http://localhost.evil.com/x"));
    assert!(!update_url_allowed("http://127.0.0.1.evil.com/latest.yml"));
    assert!(!update_url_allowed("http://localhostx"));
    assert!(update_url_allowed("https://localhost.evil.com/x"));
}

#[test]
fn early_bird_reads_the_given_hours() {
    let mut a = t("a", "2024-01-02");
    a.done = true;
    a.done_at = Some(1);
    let mut b = t("b", "2024-01-02");
    b.done = true;
    let mut c = t("c", "2024-01-01");
    c.done = true;
    c.done_at = Some(2);
    let todos = vec![a, b, c];
    assert!(early_done_with(&todos, "2024-01-02", &vec![8, 0, 3]));
    assert!(!early_done_with(&todos, "2024-01-02", &vec![9, 0, 3]));
    // the to-do without a completion time and the one of another day do not count
    assert!(!early_done_with(&todos, "2024-01-02", &vec![10, 1, 1]));
    assert!(early_done_with(&todos, "2024-01-01", &vec![10, 10, 1]));
}

fn plan(sha: &str) -> UpdatePlan {
    UpdatePlan {
        version: "2.0.0".into(),
        installer_url: "https://h/d/x.exe".into(),
        sha512_b64: sha.into(),
    }
}

#[test]
fn silent_update_waits_for_the_siren() {
    let url = "https://h/d/latest.yml";
    assert!(matches!(silent_update_step(url, "1.0.0", &UpdateStage::Start, false), UpdateAction::FetchManifest));
    assert!(matches!(silent_update_step(url, "1.0.0", &UpdateStage::Start, true), UpdateAction::Postpone));
    assert!(matches!(
        silent_update_step("http://localhost.evil.com/l.yml", "1.0.0", &UpdateStage::Start, true),
        UpdateAction::Stop
    ));
    let text = "version: 2.0.0\npath: x.exe\nsha512: abc==\n".to_string();
    match silent_update_step(url, "1.0.0", &UpdateStage::Manifest(Some(text.clone())), false) {
        UpdateAction::Download(p) => {
            assert_eq!(p.installer_url, "https://h/d/x.exe");
            assert_eq!(p.version, "2.0.0");
        }
        _ => panic!("expected a download"),
    }
    assert!(matches!(silent_update_step(url, "2.0.0", &UpdateStage::Manifest(Some(text)), false), UpdateAction::Stop));
    assert!(matches!(silent_update_step(url, "1.0.0", &UpdateStage::Manifest(None), false), UpdateAction::Stop));
    let good = UpdateStage::Installer(plan(ABC_SHA512), Some(b"abc".to_vec()));
    assert!(matches!(silent_update_step(url, "1.0.0", &good, false), UpdateAction::Install(_)));
    assert!(matches!(silent_update_step(url, "1.0.0", &good, true), UpdateAction::Postpone));
    let bad = UpdateStage::Installer(plan(ABC_SHA512), Some(b"abd".to_vec()));
    assert!(matches!(silent_update_step(url, "1.0.0", &bad, false), UpdateAction::Stop));
    assert!(matches!(silent_update_step(url, "1.0.0", &bad, true), UpdateAction::Stop));
    let none = UpdateStage::Installer(plan(ABC_SHA512), None);
    assert!(matches!(silent_update_step(url, "1.0.0", &none, true), UpdateAction::Stop));
}

#[test]
fn versions_are_announced_once() {
    let mut announced: Vec<String> = Vec::new();
    assert!(announce_version(&mut announced, "1.2.0", "1.1.0"));
    assert!(!announce_version(&mut announced, "1.2.0", "1.1.0"));
    assert!(!announce_version(&mut announced, "1.0.0", "1.1.0"));
    assert!(announce_version(&mut announced, "1.3.0", "1.1.0"));
    assert_eq!(announced, vec!["1.2.0".to_string(), "1.3.0".to_string()]);
}

#[test]
fn version_text_reads_back() {
    for (a, b, c) in [(0u64, 0u64, 0u64), (1, 22, 333), (u64::MAX, 7, 0)] {
        assert_eq!(parse_numeric_version(&format!("{}.{}.{}", a, b, c)), Some((a, b, c)));
    }
}

#[test]
fn deferring_moves_an_open_todo() {
    let mut data = Data::new_default();
    let mut a = t("a", "2024-01-05");
    a.due_at = Some(100);
    a.ack_due = Some(100);
    a.postpones = Some(2);
    data.todos.push(a);
    let mut d = t("d", "2024-01-05");
    d.done = true;
    data.todos.push(d);
    let mut e = t("e", "");
    e.due_at = None;
    data.todos.push(e);
    let r = todos_defer(&mut data, "a", "2024-01-05", "2024-01-08", Some(500), 77).unwrap();
    assert_eq!(r.date, "2024-01-08");
    assert_eq!(r.due_at, Some(500));
    assert_eq!(r.ack_due, None);
    assert_eq!(r.postpones, Some(3));
    assert_eq!(r.deferred_from.as_deref(), Some("2024-01-05"));
    assert_eq!(r.deferred_at, Some(77));
    assert_eq!(data.todos[0].date, "2024-01-08");
    // a done to-do comes back unchanged
    let r = todos_defer(&mut data, "d", "2024-01-05", "2024-01-08", Some(500), 77).unwrap();
    assert!(r.done);
    assert_eq!(r.date, "2024-01-05");
    assert_eq!(r.deferred_at, None);
    // no deadline stays no deadline; an empty day counts as today
    let r = todos_defer(&mut data, "e", "2024-01-05", "2024-01-08", Some(500), 77).unwrap();
    assert_eq!(r.due_at, None);
    assert_eq!(r.deferred_from.as_deref(), Some("2024-01-05"));
    assert_eq!(r.postpones, Some(1));
    assert!(todos_defer(&mut data, "zz", "2024-01-05", "2024-01-08", None, 1).is_none());
}

#[test]
fn points_of_a_day_only() {
    let ledger = vec![
        LedgerEntry { at: 0, delta: 10, reason: "a".into() },
        LedgerEntry { at: 0, delta: -3, reason: "b".into() },
        LedgerEntry { at: 0, delta: 50, reason: "c".into() },
    ];
    let dates = vec!["2024-01-02".to_string(), "2024-01-01".to_string(), "2024-01-02".to_string()];
    assert_eq!(sum_points_on_day(&ledger, &dates, "2024-01-02"), 60);
    assert_eq!(sum_points_on_day(&ledger, &dates, "2024-01-01"), -3);
    assert_eq!(sum_points_on_day(&ledger, &dates, "2024-01-03"), 0);
}

#[test]
fn postponing_by_less_than_a_minute_postpones_by_one() {
    let mut data = Data::new_default();
    let mut a = t("a", "2024-01-02");
    a.due_at = Some(1_000);
    data.todos.push(a);
    let r = todos_postpone(&mut data, "a", "2024-01-02", 0, 500).unwrap();
    assert_eq!(r.due_at, Some(61_000));
    let r = todos_postpone(&mut data, "a", "2024-01-02", -5, 500).unwrap();
    assert_eq!(r.due_at, Some(121_000));
}

#[test]
fn the_clock_reads_without_failing() {
    let now = now_ms();
    assert!(now > 1_600_000_000_000);
    let t = local_of(now);
    assert!((1..=12).contains(&t.month) && (1..=31).contains(&t.day) && t.hour <= 23 && t.minute <= 59);
    assert!(hour_of(i64::MIN) <= 23);
    assert_eq!(parse_time_today("7:61"), None);
}

#[test]
fn gains_and_losses_bound_a_day_separately() {
    use_ledger_sums();
}

fn use_ledger_sums() {
    let big = |d: i64| LedgerEntry { at: 0, delta: d, reason: String::new() };
    // all gains fit and all losses fit, though their absolute values together do not
    let ledger = vec![big(i64::MAX - 1), big(-(i64::MAX - 1)), big(1)];
    assert!(maxalert::logic::ledger_sums_ok(&ledger));
    assert_eq!(maxalert::logic::ledger_totals(&ledger), Some((i64::MAX, -(i64::MAX - 1))));
    let ledger = vec![big(i64::MAX), big(1)];
    assert!(!maxalert::logic::ledger_sums_ok(&ledger));
    let ledger = vec![big(i64::MIN), big(-1)];
    assert!(!maxalert::logic::ledger_sums_ok(&ledger));
    let mut data = Data::new_default();
    data.points.ledger = vec![big(i64::MAX - 1), big(-(i64::MAX - 1)), big(1)];
    // entries of 1970 are never today's
    assert_eq!(maxalert::logic::today_points(&data), 0);
}

#[test]
fn clock_readings_in_milliseconds() {
    assert_eq!(clock_reading_ms(true, 1, 500_000_000), 1_500);
    assert_eq!(clock_reading_ms(true, 0, 999_999), 0);
    // before the epoch, rounded down as timestamps are
    assert_eq!(clock_reading_ms(false, 0, 500_000), -1);
    assert_eq!(clock_reading_ms(false, 1, 0), -1_000);
    assert_eq!(clock_reading_ms(false, 1, 1_000_000), -1_001);
    assert_eq!(clock_reading_ms(true, u64::MAX, 0), INSTANT_BOUND);
    assert_eq!(clock_reading_ms(false, u64::MAX, 5), -INSTANT_BOUND);
}

#[test]
fn local_time_choice() {
    let a = LocalTime { year: 2024, month: 1, day: 2, hour: 3, minute: 4 };
    let b = LocalTime { year: 2025, month: 5, day: 6, hour: 7, minute: 8 };
    assert_eq!(local_choice(Some(a), Some(b)).year, 2024);
    assert_eq!(local_choice(None, Some(b)).minute, 8);
    let e = local_choice(None, None);
    assert_eq!((e.year, e.month, e.day, e.hour, e.minute), (1970, 1, 1, 0, 0));
}

#[test]
fn percent_encoding_reads_back() {
    let s = "두리번 a-b_c.d~e/f?g";
    let e = urlencode(s);
    assert!(e.is_ascii());
    let mut out: Vec<u8> = Vec::new();
    let b = e.as_bytes();
    let mut i = 0;
    while i < b.len() {
        if b[i] == b'%' {
            out.push(u8::from_str_radix(&e[i + 1..i + 3], 16).unwrap());
            i += 3;
        } else {
            out.push(b[i]);
            i += 1;
        }
    }
    assert_eq!(out, s.as_bytes());
}
