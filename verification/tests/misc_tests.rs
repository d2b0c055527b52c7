use maxalert::clock::{date_str_of, format_ymd, parse_clock_time, parse_rfc3339_ms, parse_time_today, today_str};
use maxalert::download::{installer_file_name, installer_matches, plan_update};
use maxalert::ids::{monitor_key, postit_mini_label, random_suffix};
use maxalert::report::{render_daily_report, todos_for_day, todos_on};
use maxalert::screen::{default_mini_position, point_on_monitor};
use maxalert::siren::{siren_decision, siren_eligible, tick_chores, tick_fits, SirenAction};
use maxalert::store::{default_theme, default_unlocked, prune_old_todos, Data, Settings, Todo, THIRTY_DAYS};
use maxalert::text::{chars_of, parse_u32, parse_u64, split, string_from_chars, trim};
use maxalert::screen::{is_primary_monitor, mini_window_position, secondary_monitors, MiniWindows};
use maxalert::screen::{cursor_step, CursorTrack};
use maxalert::siren::SirenState;
use maxalert::logic::{profile_payload, RewardInfo};
use maxalert::store::{BadgeOwned, LedgerEntry};
use maxalert::pages::{reward_page_url, siren_page_url};
use maxalert::update::{latest_worker_version, next_update_delay, update_poll_delays, WorkerFields};

fn t(id: &str, day: &str) -> Todo {
    Todo {
        id: id.to_string(),
        title: format!("title {}", id),
        color: "yellow".to_string(),
        date: day.to_string(),
        done: false,
        created_at: 0,
        due_at: None,
        done_at: None,
        awarded: None,
        postpones: None,
        ack_due: None,
        notion_page_id: None,
        notion_due_at: None,
        notion_done: None,
        bridge_source: None,
        bridge_synced_at: None,
        deferred_from: None,
        deferred_at: None,
    }
}

const ABC_SHA512: &str =
    "3a81oZNherrMQXNJriBBMRLm+k6JqX6iCp7u5ktV05ohkpkqJ0/BqDa6PCOj/uu9RU1EI2Q86A4qmslPpUyknw==";
const EMPTY_SHA512: &str =
    "z4PhNX7vuL3xVChQ1m2AB9Yg5AULVxXcg/SpIdNs6c5H0NE8XYXysP+DGNKHfuwvY7kxvUdBeoGlODJ6+SfaPg==";

#[test]
fn installer_digest_is_checked() {
    assert!(installer_matches(b"abc", ABC_SHA512));
    assert!(installer_matches(b"", EMPTY_SHA512));
    assert!(!installer_matches(b"abd", ABC_SHA512));
    assert!(!installer_matches(b"abc", EMPTY_SHA512));
    // an undecodable digest never matches
    assert!(!installer_matches(b"abc", "not base64!"));
    // the digest of "abc" handed back as its own base64 does not match either
    assert!(!installer_matches(b"abc", "YWJj"));
}

#[test]
fn update_plans() {
    let url = "https://github.com/o/r/releases/latest/download/latest.yml";
    let text = "version: 1.4.0\npath: MaxAlert-Setup-1.4.0.exe\nsha512: abc==\n";
    let p = plan_update(url, text, "1.3.9").unwrap();
    assert_eq!(p.version, "1.4.0");
    assert_eq!(
        p.installer_url,
        "https://github.com/o/r/releases/latest/download/MaxAlert-Setup-1.4.0.exe"
    );
    assert_eq!(p.sha512_b64, "abc==");
    assert!(plan_update(url, text, "1.4.0").is_none());
    assert!(plan_update(url, text, "2.0.0").is_none());
    assert!(plan_update("http://github.com/o/r/latest.yml", text, "1.0.0").is_none());
    assert!(plan_update(url, "version: 1.4.0\n", "1.0.0").is_none());
    assert_eq!(installer_file_name("1.4.0", "ab12"), "maxalert-update-1.4.0-ab12.exe");
}

#[test]
fn suffixes_are_four_base36_digits() {
    assert_eq!(random_suffix(0, 1), "pqrd");
    assert_eq!(random_suffix(123_456_789, 7), "u188");
    assert_eq!(random_suffix(0, 0), "0000");
    let s = random_suffix(999_999_999, 42);
    assert_eq!(s.len(), 4);
    assert!(s.chars().all(|c| c.is_ascii_digit() || c.is_ascii_lowercase()));
}

#[test]
fn mini_labels_and_monitor_keys() {
    let a = postit_mini_label("DISPLAY1");
    assert!(a.starts_with("postit-mini-"));
    assert_eq!(a.len(), "postit-mini-".len() + 16);
    assert!(a["postit-mini-".len()..].chars().all(|c| c.is_ascii_hexdigit() && !c.is_ascii_uppercase()));
    assert_eq!(a, postit_mini_label("DISPLAY1"));
    assert_ne!(a, postit_mini_label("DISPLAY2"));
    assert_eq!(monitor_key(Some("DP-1"), 0, 0), "DP-1");
    assert_eq!(monitor_key(Some(""), -1920, 0), "-1920,0");
    assert_eq!(monitor_key(None, 2560, -300), "2560,-300");
}

#[test]
fn dates_and_times() {
    assert_eq!(format_ymd(2024, 1, 2), "2024-01-02");
    assert_eq!(format_ymd(987, 12, 31), "0987-12-31");
    assert_eq!(format_ymd(-5, 3, 4), "-005-03-04");
    assert_eq!(format_ymd(12345, 6, 7), "12345-06-07");
    assert_eq!(parse_clock_time("09:30"), Some((9, 30)));
    assert_eq!(parse_clock_time(" 7 : 05 :99"), Some((7, 5)));
    assert_eq!(parse_clock_time("+7:5"), Some((7, 5)));
    assert_eq!(parse_clock_time("24:00"), None);
    assert_eq!(parse_clock_time("23:60"), None);
    assert_eq!(parse_clock_time("12"), None);
    assert_eq!(parse_clock_time("a:b"), None);
    assert_eq!(parse_time_today("nope"), None);
    assert_eq!(parse_rfc3339_ms("1970-01-01T00:00:01Z"), Some(1000));
    assert_eq!(parse_rfc3339_ms("2024-01-02T09:30:00+09:00"), Some(1_704_155_400_000));
    assert_eq!(parse_rfc3339_ms("2024-01-02"), None);
    let today = today_str();
    assert_eq!(today.len(), 10);
    assert_eq!(date_str_of(maxalert::clock::now_ms()).len(), 10);
}

#[test]
fn text_helpers() {
    let v = chars_of("  a b \t");
    assert_eq!(string_from_chars(&trim(&v)), "a b");
    assert_eq!(parse_u64(&chars_of("18446744073709551615")), Some(u64::MAX));
    assert_eq!(parse_u64(&chars_of("18446744073709551616")), None);
    assert_eq!(parse_u64(&chars_of("+12")), Some(12));
    assert_eq!(parse_u64(&chars_of("")), None);
    assert_eq!(parse_u64(&chars_of("-1")), None);
    assert_eq!(parse_u32(&chars_of("4294967296")), None);
    let parts = split(&chars_of("a::b"), ':');
    let parts: Vec<String> = parts.iter().map(string_from_chars).collect();
    assert_eq!(parts, vec!["a", "", "b"]);
}

#[test]
fn report_rendering() {
    let mut a = t("a", "2024-01-02");
    a.title = "Write".into();
    a.done = true;
    let mut b = t("b", "2024-01-02");
    b.title = "Call".into();
    b.done = true;
    let r = render_daily_report(&Some("Kim".into()), "2024-01-02", 3, &vec![a, b], &vec![Some((9, 5)), None]);
    assert_eq!(
        r,
        "## 📋 Kim | 2024-01-02 업무 보고\n\n완료 **2** / 전체 3\n\n- `09:05` Write\n- Call"
    );
    let r = render_daily_report(&Some(String::new()), "2024-01-02", 0, &vec![], &vec![]);
    assert_eq!(r, "## 📋 2024-01-02 업무 보고\n\n완료 **0** / 전체 0\n\n- (완료한 항목 없음)");
    let r = render_daily_report(&None, "2024-01-02", 1, &vec![], &vec![]);
    assert_eq!(r, "## 📋 2024-01-02 업무 보고\n\n완료 **0** / 전체 1\n\n- (완료한 항목 없음)");
}

#[test]
fn todos_of_a_day_in_display_order() {
    let mut data = Data::new_default();
    let mut a = t("a", "2024-01-02");
    a.due_at = Some(50);
    let mut b = t("b", "2024-01-02");
    b.due_at = Some(10);
    let c = t("c", "2024-01-01");
    let mut d = t("d", "2024-01-02");
    d.done = true;
    d.due_at = Some(1);
    let e = t("e", "2024-01-02");
    data.todos = vec![a, b, c, d, e];
    let ids: Vec<String> = todos_for_day(&data, "2024-01-02").into_iter().map(|t| t.id).collect();
    assert_eq!(ids, vec!["b", "a", "e", "d"]);
    let ids: Vec<String> = todos_on(&data.todos, "2024-01-01").into_iter().map(|t| t.id).collect();
    assert_eq!(ids, vec!["c"]);
}

#[test]
fn siren_choices() {
    let mut a = t("a", "2024-01-02");
    a.due_at = Some(1_000_000);
    assert!(siren_eligible(&a, 900_000));
    assert!(!siren_eligible(&a, 800_000));
    a.ack_due = Some(1_000_000);
    assert!(!siren_eligible(&a, 900_000));
    let mut b = t("b", "2024-01-02");
    b.due_at = Some(500);
    let mut c = t("c", "2024-01-02");
    c.due_at = Some(400);
    let mut other_day = t("z", "2024-01-01");
    other_day.due_at = Some(1);
    let todos = vec![other_day, a, b, c];
    assert!(matches!(siren_decision(&todos, "2024-01-02", &None, 1_000), SirenAction::Open(3)));
    assert!(matches!(siren_decision(&todos, "2024-01-02", &Some("b".into()), 1_000), SirenAction::Keep(2)));
    assert!(matches!(siren_decision(&todos, "2024-01-02", &Some("a".into()), 1_000), SirenAction::Close));
    assert!(matches!(siren_decision(&todos, "2024-01-02", &Some("gone".into()), 1_000), SirenAction::Close));
    assert!(matches!(siren_decision(&todos, "2024-01-03", &None, 1_000), SirenAction::Idle));
    assert_eq!(tick_chores(0), (true, true));
    assert_eq!(tick_chores(5), (true, false));
    assert_eq!(tick_chores(7), (false, false));
    assert_eq!(tick_chores(30), (true, true));
}

#[test]
fn monitors() {
    assert!(point_on_monitor(0, 0, 0, 0, 1920, 1080));
    assert!(!point_on_monitor(1920, 0, 0, 0, 1920, 1080));
    assert!(point_on_monitor(-100, 10, -1920, 0, 1920, 1080));
    assert_eq!(default_mini_position(1920, 0, 2560, 280), (4200, 0));
}

#[test]
fn fresh_data_and_pruning() {
    let s = Settings::new_default();
    assert_eq!(s.postit_theme, "classic");
    assert_eq!(s.unlocked_themes, vec!["classic".to_string()]);
    assert_eq!(default_theme(), "classic");
    assert_eq!(default_unlocked(), vec!["classic".to_string()]);
    let mut data = Data::new_default();
    assert!(data.todos.is_empty());
    assert_eq!(data.points.total, 0);
    let now = 10 * THIRTY_DAYS;
    let mut old = t("old", "2024-01-01");
    old.created_at = now - THIRTY_DAYS - 1;
    let mut edge = t("edge", "2024-01-01");
    edge.created_at = now - THIRTY_DAYS;
    let mut new = t("new", "2024-01-01");
    new.created_at = now;
    data.todos = vec![old, edge, new];
    prune_old_todos(&mut data, now);
    let ids: Vec<String> = data.todos.into_iter().map(|t| t.id).collect();
    assert_eq!(ids, vec!["edge", "new"]);
}

#[test]
fn secondary_monitors_and_stale_windows() {
    let ps = vec![(0, 0), (1920, 0), (-1280, 100)];
    assert_eq!(secondary_monitors(&ps, Some((1920, 0))), vec![0, 2]);
    assert_eq!(secondary_monitors(&ps, None), vec![1, 2]);
    assert_eq!(secondary_monitors(&ps, Some((5, 5))), vec![0, 1, 2]);
    assert!(is_primary_monitor(0, (7, 7), None));
    assert!(!is_primary_monitor(1, (7, 7), None));
    let mut windows = MiniWindows::new();
    assert!(windows.claim("a", "ka", false));
    assert!(windows.claim("b", "kb", false));
    assert!(windows.claim("c", "kc", false));
    let want = vec!["b".to_string(), "d".to_string()];
    assert_eq!(windows.drop_stale(&want), vec!["a".to_string(), "c".to_string()]);
    assert!(!windows.holds("a", "ka"));
    assert!(windows.holds("b", "kb"));
    assert!(!windows.holds("c", "kc"));
    assert_eq!(mini_window_position(Some((2000, 10)), 1920, 0, 1920, 1080, (3500, 0)), (2000, 10));
    assert_eq!(mini_window_position(Some((10, 10)), 1920, 0, 1920, 1080, (3500, 0)), (3500, 0));
    assert_eq!(mini_window_position(None, 1920, 0, 1920, 1080, (3500, 0)), (3500, 0));
}

#[test]
fn cursor_positions_are_sent_once() {
    let t = CursorTrack { inside: false, last_sent: None };
    let (t, s) = cursor_step(t, true, (3, 4));
    assert_eq!(s, Some((3, 4)));
    let (t, s) = cursor_step(t, true, (3, 4));
    assert_eq!(s, None);
    let (t, s) = cursor_step(t, true, (5, 4));
    assert_eq!(s, Some((5, 4)));
    let (t, s) = cursor_step(t, false, (0, 0));
    assert_eq!(s, Some((-1, -1)));
    assert!(!t.inside);
    assert_eq!(t.last_sent, None);
    let (_, s) = cursor_step(t, false, (0, 0));
    assert_eq!(s, None);
}

#[test]
fn siren_generations() {
    let mut s = SirenState::new();
    let g1 = s.open("a");
    assert_eq!(g1, 1);
    assert!(s.sounding());
    assert_eq!(s.target().as_deref(), Some("a"));
    assert!(s.is_current(g1));
    let discard = s.attach_windows(g1, vec!["siren-0".into(), "siren-1".into()]);
    assert!(discard.is_empty());
    assert_eq!(s.focus_targets(g1), Some(vec!["siren-0".to_string(), "siren-1".to_string()]));
    assert_eq!(s.close_if_target("b"), None);
    assert!(s.sounding());
    assert_eq!(s.close_if_target("a"), Some(vec!["siren-0".to_string(), "siren-1".to_string()]));
    assert!(!s.sounding());
    assert_eq!(s.focus_targets(g1), None);
    // windows finished after the siren closed are handed back
    let g3 = s.open("c");
    assert_eq!(g3, 3);
    let labels = s.close();
    assert!(labels.is_empty());
    assert_eq!(s.attach_windows(g3, vec!["siren-0".into()]), vec!["siren-0".to_string()]);
    assert!(s.labels.is_empty());
    assert!(!s.is_current(g3));
}

#[test]
fn page_addresses() {
    let info = RewardInfo {
        streak: 3,
        today: -5,
        total: 120,
        title: "두리번 다람쥐".into(),
        icon: "🐿️".into(),
        next: "250".into(),
        min: 100,
    };
    assert_eq!(
        reward_page_url(&info),
        "reward.html?streak=3&today=-5&total=120&title=%EB%91%90%EB%A6%AC%EB%B2%88%20%EB%8B%A4%EB%9E%8C%EC%A5%90&icon=%F0%9F%90%BF%EF%B8%8F&next=250&min=100"
    );
    assert_eq!(siren_page_url(true, "0.8"), "siren.html?sound=1&volume=0.8");
    assert_eq!(siren_page_url(false, "1"), "siren.html?sound=0&volume=1");
}

#[test]
fn release_catalogue_and_poll_delays() {
    let ws = vec![
        WorkerFields { code: Some("other".into()), version: Some("9.9.9".into()) },
        WorkerFields { code: Some("max_alert".into()), version: Some("1.2.3".into()) },
        WorkerFields { code: Some("max_alert".into()), version: Some("2.0.0".into()) },
    ];
    assert_eq!(latest_worker_version(&ws).as_deref(), Some("1.2.3"));
    let ws = vec![
        WorkerFields { code: Some("max_alert".into()), version: None },
        WorkerFields { code: Some("max_alert".into()), version: Some("2.0.0".into()) },
    ];
    assert_eq!(latest_worker_version(&ws), None);
    assert_eq!(latest_worker_version(&vec![]), None);
    assert_eq!(update_poll_delays(false), (300, 21600));
    assert_eq!(update_poll_delays(true), (15, 60));
    assert_eq!(next_update_delay(true, false), 600);
    assert_eq!(next_update_delay(true, true), 60);
    assert_eq!(next_update_delay(false, false), 21600);
}


#[test]
fn profile_shows_level_badges_and_recent_ledger() {
    let mut data = Data::new_default();
    data.points.total = 260;
    data.stats.total_done = 4;
    data.streak.count = 2;
    data.streak.last_date = Some("2024-01-02".into());
    data.badges.push(BadgeOwned { id: "perfect-day".into(), at: 77 });
    for i in 0..15 {
        data.points.ledger.push(LedgerEntry { at: i, delta: 1, reason: format!("r{}", i) });
    }
    let p = profile_payload(&data);
    assert_eq!(p.total, 260);
    assert_eq!(p.level.n, 3);
    assert_eq!(p.level.title, "갈팡질팡 고양이");
    assert_eq!(p.level.min, 250);
    assert_eq!(p.level.next, Some(500));
    assert_eq!(p.badges.len(), 8);
    assert_eq!(p.badges[0].id, "first-done");
    assert_eq!(p.badges[0].at, None);
    assert_eq!(p.badges[2].id, "perfect-day");
    assert_eq!(p.badges[2].name, "퍼펙트 데이");
    assert_eq!(p.badges[2].at, Some(77));
    assert_eq!(p.stats.total_done, 4);
    assert_eq!(p.streak.count, 2);
    assert_eq!(p.streak.last_date.as_deref(), Some("2024-01-02"));
    assert_eq!(p.ledger.len(), 12);
    assert_eq!(p.ledger[0].reason, "r0");
    assert_eq!(p.ledger[11].reason, "r11");
    // the entries are all from 1970, never today
    assert_eq!(p.today_points, 0);
}

#[test]
fn mini_windows_claim_and_hold() {
    let mut windows = MiniWindows::new();
    assert!(!windows.holds("postit-mini-x", "k1"));
    // a new label is recorded and a window is to be made
    assert!(windows.claim("postit-mini-x", "k1", false));
    assert!(windows.holds("postit-mini-x", "k1"));
    assert!(!windows.holds("postit-mini-x", "k2"));
    // kept and open: nothing to do
    assert!(!windows.claim("postit-mini-x", "k2", true));
    assert!(windows.holds("postit-mini-x", "k1"));
    // kept but its window is gone: recorded again for the new key
    assert!(windows.claim("postit-mini-x", "k2", false));
    assert!(windows.holds("postit-mini-x", "k2"));
    assert!(!windows.holds("postit-mini-x", "k1"));
    // a gone monitor's window is not held after dropping
    assert!(windows.drop_stale(&vec!["other".to_string()]) == vec!["postit-mini-x".to_string()]);
    assert!(!windows.holds("postit-mini-x", "k2"));
}

#[test]
fn tick_fits_only_where_the_tick_computes() {
    let mut far = t("far", "2024-01-02");
    far.due_at = Some(i64::MIN);
    let mut near = t("near", "2024-01-02");
    near.due_at = Some(1_000);
    let mut other_day = t("far2", "2024-01-01");
    other_day.due_at = Some(i64::MIN);
    let todos = vec![other_day, far, near];
    // no siren sounds: every to-do of the day is looked at
    assert!(!tick_fits(&todos, "2024-01-02", &None, 10));
    // the siren sounds for `near`: only that one is looked at
    assert!(tick_fits(&todos, "2024-01-02", &Some("near".into()), 10));
    assert!(matches!(siren_decision(&todos, "2024-01-02", &Some("near".into()), 10), SirenAction::Keep(2)));
    // the siren's to-do is the one whose deadline cannot be reached from now
    assert!(!tick_fits(&todos, "2024-01-02", &Some("far".into()), 10));
    // other days are never looked at
    assert!(tick_fits(&todos, "2024-01-03", &None, 10));
}
