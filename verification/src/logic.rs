//! Points, levels, badges, theme prices and note colours.
use vstd::prelude::*;

use crate::clock::{date_str_of, hour_of, is_date_text, local_date_text, now_ms, today_str, DAY_MS, LOCAL_RANGE_MS};
use crate::store::{copy_opt_string, BadgeOwned, Data, LedgerEntry, Stats, Streak, Todo, ledger_view};
use crate::text::{chars_of, i64_text, int_text, push_str, same_text, string_from_chars};

verus! {

// ---------------------------------------------------------------------------
// Theme shop
// ---------------------------------------------------------------------------

/// The price of a sticky-note theme; nothing for an unknown theme.
pub open spec fn theme_price_of(id: Seq<char>) -> Option<i64> {
    if id == "classic"@ {
        Some(0)
    } else if id == "neon"@ {
        Some(150)
    } else if id == "kraft"@ {
        Some(200)
    } else if id == "midnight"@ {
        Some(300)
    } else {
        None
    }
}

pub fn theme_price(id: &str) -> (r: Option<i64>)
    ensures
        r == theme_price_of(id@),
{
    if same_text(id, "classic") {
        Some(0)
    } else if same_text(id, "neon") {
        Some(150)
    } else if same_text(id, "kraft") {
        Some(200)
    } else if same_text(id, "midnight") {
        Some(300)
    } else {
        None
    }
}

// ---------------------------------------------------------------------------
// Levels
// ---------------------------------------------------------------------------

/// The number of levels.
pub const LEVEL_COUNT: usize = 10;

/// The point total from which level `i` (counted from 0) starts.
pub open spec fn level_min(i: int) -> i64 {
    if i == 0 {
        0
    } else if i == 1 {
        100
    } else if i == 2 {
        250
    } else if i == 3 {
        500
    } else if i == 4 {
        900
    } else if i == 5 {
        1400
    } else if i == 6 {
        2000
    } else if i == 7 {
        2800
    } else if i == 8 {
        3800
    } else {
        5000
    }
}

pub open spec fn level_title(i: int) -> Seq<char> {
    if i == 0 {
        "산만한 금붕어"@
    } else if i == 1 {
        "두리번 다람쥐"@
    } else if i == 2 {
        "갈팡질팡 고양이"@
    } else if i == 3 {
        "정신차린 부엉이"@
    } else if i == 4 {
        "계획하는 비버"@
    } else if i == 5 {
        "몰입하는 돌고래"@
    } else if i == 6 {
        "칼같은 여우"@
    } else if i == 7 {
        "강철 늑대"@
    } else if i == 8 {
        "시간의 독수리"@
    } else {
        "타임 마스터"@
    }
}

pub open spec fn level_icon(i: int) -> Seq<char> {
    if i == 0 {
        "🐠"@
    } else if i == 1 {
        "🐿️"@
    } else if i == 2 {
        "🐱"@
    } else if i == 3 {
        "🦉"@
    } else if i == 4 {
        "🦫"@
    } else if i == 5 {
        "🐬"@
    } else if i == 6 {
        "🦊"@
    } else if i == 7 {
        "🐺"@
    } else if i == 8 {
        "🦅"@
    } else {
        "⏳"@
    }
}

/// Among the first `k` levels, the highest one whose minimum `total` reaches (the first
/// level when there is none).
pub open spec fn highest_level_within(total: int, k: nat) -> nat
    decreases k,
{
    if k == 0 {
        0
    } else if total >= level_min(k - 1) {
        (k - 1) as nat
    } else {
        highest_level_within(total, (k - 1) as nat)
    }
}

/// The level (counted from 0) of a point total: the highest one whose minimum it reaches.
pub open spec fn level_index(total: int) -> nat {
    highest_level_within(total, LEVEL_COUNT as nat)
}

proof fn lemma_highest_level_within_bound(total: int, k: nat)
    ensures
        k > 0 ==> highest_level_within(total, k) < k,
        k == 0 ==> highest_level_within(total, k) == 0,
    decreases k,
{
    if k > 0 {
        lemma_highest_level_within_bound(total, (k - 1) as nat);
    }
}

pub proof fn lemma_level_index_bound(total: int)
    ensures
        level_index(total) < LEVEL_COUNT,
{
    lemma_highest_level_within_bound(total, LEVEL_COUNT as nat);
}

/// A level and the threshold of the next one.
pub struct LevelInfo {
    /// The level number, counted from 1.
    pub n: usize,
    pub title: String,
    pub icon: String,
    /// The point total from which this level starts.
    pub min: i64,
    /// The point total from which the next level starts; nothing at the top level.
    pub next: Option<i64>,
}

/// What `level_info` returns for `total`.
pub open spec fn level_info_of(total: int, li: LevelInfo) -> bool {
    let i = level_index(total);
    &&& li.n == i + 1
    &&& li.title@ == level_title(i as int)
    &&& li.icon@ == level_icon(i as int)
    &&& li.min == level_min(i as int)
    &&& li.next == if i + 1 < LEVEL_COUNT {
        Some(level_min(i + 1int))
    } else {
        None
    }
}

fn level_entry(i: usize) -> (r: (i64, &'static str, &'static str))
    requires
        i < LEVEL_COUNT,
    ensures
        r.0 == level_min(i as int),
        r.1@ == level_title(i as int),
        r.2@ == level_icon(i as int),
{
    if i == 0 {
        (0, "산만한 금붕어", "🐠")
    } else if i == 1 {
        (100, "두리번 다람쥐", "🐿️")
    } else if i == 2 {
        (250, "갈팡질팡 고양이", "🐱")
    } else if i == 3 {
        (500, "정신차린 부엉이", "🦉")
    } else if i == 4 {
        (900, "계획하는 비버", "🦫")
    } else if i == 5 {
        (1400, "몰입하는 돌고래", "🐬")
    } else if i == 6 {
        (2000, "칼같은 여우", "🦊")
    } else if i == 7 {
        (2800, "강철 늑대", "🐺")
    } else if i == 8 {
        (3800, "시간의 독수리", "🦅")
    } else {
        (5000, "타임 마스터", "⏳")
    }
}

pub fn level_info(total: i64) -> (li: LevelInfo)
    ensures
        level_info_of(total as int, li),
{
    let mut idx: usize = 0;
    let mut i: usize = 0;
    while i < LEVEL_COUNT
        invariant
            i <= LEVEL_COUNT,
            idx == highest_level_within(total as int, i as nat),
        decreases LEVEL_COUNT - i,
    {
        let e = level_entry(i);
        if total >= e.0 {
            idx = i;
        }
        i = i + 1;
    }
    proof {
        lemma_level_index_bound(total as int);
    }
    let cur = level_entry(idx);
    let next = if idx + 1 < LEVEL_COUNT {
        Some(level_entry(idx + 1).0)
    } else {
        None
    };
    LevelInfo {
        n: idx + 1,
        title: String::from_str(cur.1),
        icon: String::from_str(cur.2),
        min: cur.0,
        next,
    }
}

// ---------------------------------------------------------------------------
// Badges
// ---------------------------------------------------------------------------

/// The number of badges.
pub const BADGE_COUNT: usize = 8;

pub open spec fn badge_id(k: int) -> Seq<char> {
    if k == 0 {
        "first-done"@
    } else if k == 1 {
        "early-bird"@
    } else if k == 2 {
        "perfect-day"@
    } else if k == 3 {
        "no-snooze"@
    } else if k == 4 {
        "streak-3"@
    } else if k == 5 {
        "streak-7"@
    } else if k == 6 {
        "siren-slayer"@
    } else {
        "centurion"@
    }
}

pub open spec fn badge_name(k: int) -> Seq<char> {
    if k == 0 {
        "첫 걸음"@
    } else if k == 1 {
        "얼리버드"@
    } else if k == 2 {
        "퍼펙트 데이"@
    } else if k == 3 {
        "정면돌파"@
    } else if k == 4 {
        "작심삼일 극복"@
    } else if k == 5 {
        "일주일의 기적"@
    } else if k == 6 {
        "사이렌 슬레이어"@
    } else {
        "백전노장"@
    }
}

pub open spec fn badge_icon(k: int) -> Seq<char> {
    if k == 0 {
        "🌱"@
    } else if k == 1 {
        "🌅"@
    } else if k == 2 {
        "💯"@
    } else if k == 3 {
        "🛡️"@
    } else if k == 4 {
        "🔥"@
    } else if k == 5 {
        "🌈"@
    } else if k == 6 {
        "🚨"@
    } else {
        "⚔️"@
    }
}

pub open spec fn badge_desc(k: int) -> Seq<char> {
    if k == 0 {
        "첫 할 일 완료"@
    } else if k == 1 {
        "오전 9시 전에 할 일 완료"@
    } else if k == 2 {
        "하루의 할 일 전부 완료"@
    } else if k == 3 {
        "미루기 없이 하루 클리어"@
    } else if k == 4 {
        "3일 연속 전체 완료"@
    } else if k == 5 {
        "7일 연속 전체 완료"@
    } else if k == 6 {
        "사이렌이 울리는 중에 완료 5회"@
    } else {
        "누적 100개 완료"@
    }
}

/// (id, name, icon, description) of badge `k`.
pub fn badge_entry(k: usize) -> (r: (&'static str, &'static str, &'static str, &'static str))
    requires
        k < BADGE_COUNT,
    ensures
        r.0@ == badge_id(k as int),
        r.1@ == badge_name(k as int),
        r.2@ == badge_icon(k as int),
        r.3@ == badge_desc(k as int),
{
    if k == 0 {
        ("first-done", "첫 걸음", "🌱", "첫 할 일 완료")
    } else if k == 1 {
        ("early-bird", "얼리버드", "🌅", "오전 9시 전에 할 일 완료")
    } else if k == 2 {
        ("perfect-day", "퍼펙트 데이", "💯", "하루의 할 일 전부 완료")
    } else if k == 3 {
        ("no-snooze", "정면돌파", "🛡️", "미루기 없이 하루 클리어")
    } else if k == 4 {
        ("streak-3", "작심삼일 극복", "🔥", "3일 연속 전체 완료")
    } else if k == 5 {
        ("streak-7", "일주일의 기적", "🌈", "7일 연속 전체 완료")
    } else if k == 6 {
        ("siren-slayer", "사이렌 슬레이어", "🚨", "사이렌이 울리는 중에 완료 5회")
    } else {
        ("centurion", "백전노장", "⚔️", "누적 100개 완료")
    }
}

/// What the badge conditions look at.
#[derive(Clone, Copy)]
pub struct BadgeCtx {
    pub total_done: i64,
    pub siren_saves: i64,
    pub all_done: bool,
    pub no_snooze_day: bool,
    pub early_done: bool,
    pub streak_count: i64,
}

/// Whether the badge with this id is earned in `c`; an unknown id never is.
pub open spec fn badge_condition(id: Seq<char>, c: BadgeCtx) -> bool {
    if id == "first-done"@ {
        c.total_done >= 1
    } else if id == "early-bird"@ {
        c.early_done
    } else if id == "perfect-day"@ {
        c.all_done
    } else if id == "no-snooze"@ {
        c.no_snooze_day
    } else if id == "streak-3"@ {
        c.streak_count >= 3
    } else if id == "streak-7"@ {
        c.streak_count >= 7
    } else if id == "siren-slayer"@ {
        c.siren_saves >= 5
    } else if id == "centurion"@ {
        c.total_done >= 100
    } else {
        false
    }
}

/// What earns each badge, as the badge table describes it: the first completion; a
/// completion before 9 a.m.; a day with every to-do done; a day cleared without
/// postponing; three and seven days of streak; five completions while the siren sounds
/// (the siren saves, whatever the other counts); a hundred completions.
pub proof fn lemma_badge_conditions(c: BadgeCtx)
    ensures
        badge_condition("first-done"@, c) == (c.total_done >= 1),
        badge_condition("early-bird"@, c) == c.early_done,
        badge_condition("perfect-day"@, c) == c.all_done,
        badge_condition("no-snooze"@, c) == c.no_snooze_day,
        badge_condition("streak-3"@, c) == (c.streak_count >= 3),
        badge_condition("streak-7"@, c) == (c.streak_count >= 7),
        badge_condition("siren-slayer"@, c) == (c.siren_saves >= 5),
        badge_condition("centurion"@, c) == (c.total_done >= 100),
{
    reveal_strlit("first-done");
    reveal_strlit("early-bird");
    reveal_strlit("perfect-day");
    reveal_strlit("no-snooze");
    reveal_strlit("streak-3");
    reveal_strlit("streak-7");
    reveal_strlit("siren-slayer");
    reveal_strlit("centurion");
    assert("early-bird"@[0] != "first-done"@[0]);
    assert("perfect-day"@[0] != "first-done"@[0]);
    assert("perfect-day"@[0] != "early-bird"@[0]);
    assert("no-snooze"@[0] != "first-done"@[0]);
    assert("no-snooze"@[0] != "early-bird"@[0]);
    assert("no-snooze"@[0] != "perfect-day"@[0]);
    assert("streak-3"@[0] != "first-done"@[0]);
    assert("streak-3"@[0] != "early-bird"@[0]);
    assert("streak-3"@[0] != "perfect-day"@[0]);
    assert("streak-3"@[0] != "no-snooze"@[0]);
    assert("streak-7"@[0] != "first-done"@[0]);
    assert("streak-7"@[0] != "early-bird"@[0]);
    assert("streak-7"@[0] != "perfect-day"@[0]);
    assert("streak-7"@[0] != "no-snooze"@[0]);
    assert("streak-7"@[7] != "streak-3"@[7]);
    assert("siren-slayer"@[0] != "first-done"@[0]);
    assert("siren-slayer"@[0] != "early-bird"@[0]);
    assert("siren-slayer"@[0] != "perfect-day"@[0]);
    assert("siren-slayer"@[0] != "no-snooze"@[0]);
    assert("siren-slayer"@[1] != "streak-3"@[1]);
    assert("siren-slayer"@[1] != "streak-7"@[1]);
    assert("centurion"@[0] != "first-done"@[0]);
    assert("centurion"@[0] != "early-bird"@[0]);
    assert("centurion"@[0] != "perfect-day"@[0]);
    assert("centurion"@[0] != "no-snooze"@[0]);
    assert("centurion"@[0] != "streak-3"@[0]);
    assert("centurion"@[0] != "streak-7"@[0]);
    assert("centurion"@[0] != "siren-slayer"@[0]);
}

/// The badges of the table are the ones named in `lemma_badge_conditions`, in order.
pub proof fn lemma_badge_ids()
    ensures
        badge_id(0) == "first-done"@,
        badge_id(1) == "early-bird"@,
        badge_id(2) == "perfect-day"@,
        badge_id(3) == "no-snooze"@,
        badge_id(4) == "streak-3"@,
        badge_id(5) == "streak-7"@,
        badge_id(6) == "siren-slayer"@,
        badge_id(7) == "centurion"@,
{
}

pub fn badge_test(id: &str, c: &BadgeCtx) -> (r: bool)
    ensures
        r == badge_condition(id@, *c),
{
    if same_text(id, "first-done") {
        c.total_done >= 1
    } else if same_text(id, "early-bird") {
        c.early_done
    } else if same_text(id, "perfect-day") {
        c.all_done
    } else if same_text(id, "no-snooze") {
        c.no_snooze_day
    } else if same_text(id, "streak-3") {
        c.streak_count >= 3
    } else if same_text(id, "streak-7") {
        c.streak_count >= 7
    } else if same_text(id, "siren-slayer") {
        c.siren_saves >= 5
    } else if same_text(id, "centurion") {
        c.total_done >= 100
    } else {
        false
    }
}

/// Whether some owned badge has this id.
pub open spec fn owns_badge(badges: Seq<BadgeOwned>, id: Seq<char>) -> bool {
    exists|i: int| 0 <= i < badges.len() && (#[trigger] badges[i]).id@ == id
}

pub fn own_badge(data: &Data, id: &str) -> (r: bool)
    ensures
        r == owns_badge(data.badges@, id@),
{
    let mut i: usize = 0;
    while i < data.badges.len()
        invariant
            i <= data.badges@.len(),
            forall|j: int| 0 <= j < i ==> (#[trigger] data.badges@[j]).id@ != id@,
        decreases data.badges@.len() - i,
    {
        if same_text(data.badges[i].id.as_str(), id) {
            return true;
        }
        i = i + 1;
    }
    false
}

// ---------------------------------------------------------------------------
// Points
// ---------------------------------------------------------------------------

/// How many ledger entries are kept.
pub const LEDGER_CAP: usize = 200;

/// The ledger after recording `e`: newest first, at most `LEDGER_CAP` entries.
pub open spec fn ledger_after(l: Seq<(i64, i64, Seq<char>)>, e: (i64, i64, Seq<char>)) -> Seq<
    (i64, i64, Seq<char>),
> {
    let n = seq![e] + l;
    if n.len() > LEDGER_CAP {
        n.take(LEDGER_CAP as int)
    } else {
        n
    }
}

/// The total after adding `delta`: never below zero.
pub open spec fn total_after(total: int, delta: int) -> int {
    if total + delta < 0 {
        0
    } else {
        total + delta
    }
}

/// `total + delta` fits in an `i64`.
pub open spec fn fits_i64(x: int) -> bool {
    i64::MIN <= x <= i64::MAX
}

/// Adds `delta` points at the instant `at`, with the reason for the ledger.
pub fn add_points_at(data: &mut Data, delta: i64, reason: &str, at: i64)
    requires
        fits_i64(old(data).points.total + delta),
    ensures
        final(data).points.total == total_after(old(data).points.total as int, delta as int),
        ledger_view(final(data).points.ledger@) == ledger_after(
            ledger_view(old(data).points.ledger@),
            (at, delta, reason@),
        ),
        final(data).todos == old(data).todos,
        final(data).settings == old(data).settings,
        final(data).streak == old(data).streak,
        final(data).last_reward_date == old(data).last_reward_date,
        final(data).stats == old(data).stats,
        final(data).badges == old(data).badges,
        final(data).suppressed_notion_ids == old(data).suppressed_notion_ids,
{
    let t = data.points.total + delta;
    data.points.total = if t < 0 {
        0
    } else {
        t
    };
    let ghost before = ledger_view(data.points.ledger@);
    data.points.ledger.insert(0, LedgerEntry { at, delta, reason: String::from_str(reason) });
    assert(ledger_view(data.points.ledger@) =~= seq![(at, delta, reason@)] + before);
    if data.points.ledger.len() > LEDGER_CAP {
        data.points.ledger.truncate(LEDGER_CAP);
        assert(ledger_view(data.points.ledger@) =~= (seq![(at, delta, reason@)] + before).take(
            LEDGER_CAP as int,
        ));
    }
}

/// Adds `delta` points now, with the reason for the ledger.
pub fn add_points(data: &mut Data, delta: i64, reason: &str)
    requires
        fits_i64(old(data).points.total + delta),
    ensures
        final(data).points.total == total_after(old(data).points.total as int, delta as int),
        exists|at: i64|
            ledger_view(final(data).points.ledger@) == #[trigger] ledger_after(
                ledger_view(old(data).points.ledger@),
                (at, delta, reason@),
            ),
        final(data).todos == old(data).todos,
        final(data).settings == old(data).settings,
        final(data).streak == old(data).streak,
        final(data).last_reward_date == old(data).last_reward_date,
        final(data).stats == old(data).stats,
        final(data).badges == old(data).badges,
        final(data).suppressed_notion_ids == old(data).suppressed_notion_ids,
{
    let at = now_ms();
    add_points_at(data, delta, reason, at);
}

// ---------------------------------------------------------------------------
// Note colours
// ---------------------------------------------------------------------------

/// The first UTF-16 code unit of a character.
pub open spec fn utf16_first_unit(c: char) -> u32 {
    let code = c as u32;
    if code <= 0xFFFF {
        code
    } else {
        (0xD800 + (code - 0x10000) / 1024) as u32
    }
}

/// `h = h * 31 + unit` over the characters, with 32-bit wrap-around.
pub open spec fn color_hash(s: Seq<char>) -> u32
    decreases s.len(),
{
    if s.len() == 0 {
        0
    } else {
        let h = color_hash(s.drop_last());
        ((((h as nat * 31) % 0x1_0000_0000) + utf16_first_unit(s.last()) as nat)
            % 0x1_0000_0000) as u32
    }
}

pub open spec fn palette(i: int) -> Seq<char> {
    if i == 0 {
        "yellow"@
    } else if i == 1 {
        "pink"@
    } else if i == 2 {
        "blue"@
    } else if i == 3 {
        "green"@
    } else if i == 4 {
        "purple"@
    } else {
        "orange"@
    }
}

/// The palette colour at `i`.
pub fn palette_color(i: u32) -> (r: &'static str)
    requires
        i < 6,
    ensures
        r@ == palette(i as int),
{
    if i == 0 {
        "yellow"
    } else if i == 1 {
        "pink"
    } else if i == 2 {
        "blue"
    } else if i == 3 {
        "green"
    } else if i == 4 {
        "purple"
    } else {
        "orange"
    }
}

/// Whether `c` names a palette colour.
pub open spec fn is_palette_color(c: Seq<char>) -> bool {
    exists|i: int| 0 <= i < 6 && c == #[trigger] palette(i)
}

pub fn palette_contains(c: &str) -> (r: bool)
    ensures
        r == is_palette_color(c@),
{
    let mut i: u32 = 0;
    while i < 6
        invariant
            i <= 6,
            forall|j: int| 0 <= j < i ==> c@ != #[trigger] palette(j),
        decreases 6 - i,
    {
        if same_text(c, palette_color(i)) {
            return true;
        }
        i = i + 1;
    }
    false
}

/// The colour a seed text gets: its hash, modulo the palette size.
pub fn pick_color(seed: &str) -> (r: String)
    ensures
        r@ == palette((color_hash(seed@) % 6) as int),
{
    let cs = chars_of(seed);
    let mut h: u32 = 0;
    let mut i: usize = 0;
    while i < cs.len()
        invariant
            i <= cs@.len(),
            h == color_hash(cs@.take(i as int)),
        decreases cs@.len() - i,
    {
        let code = cs[i] as u32;
        let unit = if code <= 0xFFFF {
            code
        } else {
            let d = code - 0x10000;
            assert(d >> 10 == d / 1024 && d >> 10 <= 0x3FFFFF) by (bit_vector);
            0xD800 + (d >> 10)
        };
        assert(cs@.take(i + 1).drop_last() =~= cs@.take(i as int));
        h = h.wrapping_mul(31).wrapping_add(unit);
        i = i + 1;
    }
    assert(cs@.take(cs@.len() as int) =~= cs@);
    String::from_str(palette_color(h % 6))
}


// ---------------------------------------------------------------------------
// The day's to-dos
// ---------------------------------------------------------------------------

/// Whether the to-do belongs to the local day `day`.
pub open spec fn on_day(t: Todo, day: Seq<char>) -> bool {
    t.date@ == day
}

/// How often the to-do was postponed (none recorded counts as zero).
pub open spec fn postpones_of(t: Todo) -> int {
    match t.postpones {
        Some(p) => p as int,
        None => 0,
    }
}

/// The day has to-dos and every one of them is done.
pub open spec fn day_all_done(todos: Seq<Todo>, day: Seq<char>) -> bool {
    &&& exists|i: int| 0 <= i < todos.len() && on_day(#[trigger] todos[i], day)
    &&& forall|i: int| 0 <= i < todos.len() && on_day(#[trigger] todos[i], day) ==> todos[i].done
}

/// The day is all done and none of its to-dos was postponed.
pub open spec fn day_no_snooze(todos: Seq<Todo>, day: Seq<char>) -> bool {
    &&& day_all_done(todos, day)
    &&& forall|i: int|
        0 <= i < todos.len() && on_day(#[trigger] todos[i], day) ==> !(postpones_of(todos[i]) > 0)
}

/// Some to-do of the day is done and has a completion time.
pub open spec fn day_has_timed_completion(todos: Seq<Todo>, day: Seq<char>) -> bool {
    exists|i: int|
        0 <= i < todos.len() && on_day(#[trigger] todos[i], day) && todos[i].done
            && todos[i].done_at is Some
}

pub fn all_done_on(todos: &Vec<Todo>, day: &str) -> (r: (bool, bool))
    ensures
        r.0 == day_all_done(todos@, day@),
        r.1 == day_no_snooze(todos@, day@),
{
    let mut any = false;
    let mut all = true;
    let mut unsnoozed = true;
    let mut i: usize = 0;
    while i < todos.len()
        invariant
            i <= todos@.len(),
            any == exists|j: int| 0 <= j < i && on_day(#[trigger] todos@[j], day@),
            all == forall|j: int| 0 <= j < i && on_day(#[trigger] todos@[j], day@) ==> todos@[j].done,
            unsnoozed == forall|j: int|
                0 <= j < i && on_day(#[trigger] todos@[j], day@) ==> !(postpones_of(todos@[j]) > 0),
        decreases todos@.len() - i,
    {
        let t = &todos[i];
        if same_text(t.date.as_str(), day) {
            any = true;
            if !t.done {
                all = false;
            }
            let p = match t.postpones {
                Some(p) => p,
                None => 0,
            };
            if p > 0 {
                unsnoozed = false;
            }
        }
        i = i + 1;
    }
    let a = any && all;
    (a, a && unsnoozed)
}

// ---------------------------------------------------------------------------
// Awarding badges
// ---------------------------------------------------------------------------

/// What the badge conditions see in `d` on `today`.
pub open spec fn badge_ctx_of(d: Data, today: Seq<char>, early_done: bool) -> BadgeCtx {
    BadgeCtx {
        total_done: d.stats.total_done,
        siren_saves: d.stats.siren_saves,
        all_done: day_all_done(d.todos@, today),
        no_snooze_day: day_no_snooze(d.todos@, today),
        early_done,
        streak_count: d.streak.count,
    }
}

/// Whether badge `k` is newly earned: not owned, and its condition holds.
pub open spec fn newly_earned_badge(badges: Seq<BadgeOwned>, c: BadgeCtx, k: int) -> bool {
    !owns_badge(badges, badge_id(k)) && badge_condition(badge_id(k), c)
}

/// The badges (in table order) that are newly earned.
pub open spec fn newly_earned(badges: Seq<BadgeOwned>, c: BadgeCtx) -> Seq<int> {
    Seq::new(BADGE_COUNT as nat, |k: int| k).filter(|k: int| newly_earned_badge(badges, c, k))
}

/// The ledger reason for earning badge `k`.
pub open spec fn badge_reason(k: int) -> Seq<char> {
    "🏅 뱃지 획득: "@ + badge_name(k)
}

/// The point total and ledger after 25 points for each badge of `ks`, in order.
pub open spec fn award_points(
    total: int,
    ledger: Seq<(i64, i64, Seq<char>)>,
    ks: Seq<int>,
    now: i64,
) -> (int, Seq<(i64, i64, Seq<char>)>)
    decreases ks.len(),
{
    if ks.len() == 0 {
        (total, ledger)
    } else {
        let p = award_points(total, ledger, ks.drop_last(), now);
        (total_after(p.0, 25), ledger_after(p.1, (now, 25, badge_reason(ks.last()))))
    }
}

/// The outcome of awarding badges on `today` at `now`: each newly earned badge is owned
/// from `now` and brings 25 points; nothing else changes.
pub open spec fn badges_checked(old_d: Data, new_d: Data, today: Seq<char>, early_done: bool, now: i64) -> bool {
    let nw = newly_earned(old_d.badges@, badge_ctx_of(old_d, today, early_done));
    let pts = award_points(old_d.points.total as int, ledger_view(old_d.points.ledger@), nw, now);
    &&& new_d.badges@.len() == old_d.badges@.len() + nw.len()
    &&& forall|j: int| 0 <= j < old_d.badges@.len() ==> new_d.badges@[j] == old_d.badges@[j]
    &&& forall|j: int|
        0 <= j < nw.len() ==> (#[trigger] new_d.badges@[old_d.badges@.len() + j]).id@ == badge_id(nw[j])
            && new_d.badges@[old_d.badges@.len() + j].at == now
    &&& new_d.points.total == pts.0
    &&& ledger_view(new_d.points.ledger@) == pts.1
    &&& new_d.todos == old_d.todos
    &&& new_d.settings == old_d.settings
    &&& new_d.streak == old_d.streak
    &&& new_d.last_reward_date == old_d.last_reward_date
    &&& new_d.stats == old_d.stats
    &&& new_d.suppressed_notion_ids == old_d.suppressed_notion_ids
}

proof fn lemma_award_points_bound(total: int, ledger: Seq<(i64, i64, Seq<char>)>, ks: Seq<int>, now: i64)
    ensures
        award_points(total, ledger, ks, now).0 <= (if total < 0 { 0 } else { total }) + 25 * ks.len(),
        award_points(total, ledger, ks, now).0 >= 0 || ks.len() == 0,
    decreases ks.len(),
{
    if ks.len() > 0 {
        lemma_award_points_bound(total, ledger, ks.drop_last(), now);
    }
}

proof fn lemma_newly_earned_len(badges: Seq<BadgeOwned>, c: BadgeCtx)
    ensures
        newly_earned(badges, c).len() <= BADGE_COUNT,
        forall|j: int| 0 <= j < newly_earned(badges, c).len() ==> 0 <= #[trigger] newly_earned(badges, c)[j] < BADGE_COUNT
            && newly_earned_badge(badges, c, newly_earned(badges, c)[j]),
{
    let s = Seq::new(BADGE_COUNT as nat, |k: int| k);
    let f = |k: int| newly_earned_badge(badges, c, k);
    s.lemma_filter_len(f);
    assert forall|j: int| 0 <= j < s.filter(f).len() implies 0 <= #[trigger] s.filter(f)[j] < BADGE_COUNT
        && f(s.filter(f)[j]) by {
        s.lemma_filter_pred(f, j);
        s.lemma_filter_contains_rev(f, s.filter(f)[j]);
    }
}

/// Gives every badge newly earned on `today` at the instant `now`; `early_done` says
/// whether a to-do of the day was completed before 9 o'clock.
pub fn check_badges_at(data: &mut Data, today: &str, early_done: bool, now: i64)
    requires
        old(data).points.total <= i64::MAX - 25 * BADGE_COUNT,
    ensures
        badges_checked(*old(data), *final(data), today@, early_done, now),
{
    let (all_done, no_snooze_day) = all_done_on(&data.todos, today);
    let ctx = BadgeCtx {
        total_done: data.stats.total_done,
        siren_saves: data.stats.siren_saves,
        all_done,
        no_snooze_day,
        early_done,
        streak_count: data.streak.count,
    };
    let ghost old_d = *data;
    let ghost c = badge_ctx_of(old_d, today@, early_done);
    assert(ctx == c);
    let ghost all_ks = Seq::new(BADGE_COUNT as nat, |k: int| k);
    let ghost f = |k: int| newly_earned_badge(old_d.badges@, c, k);
    let mut newly: Vec<usize> = Vec::new();
    let mut k: usize = 0;
    while k < BADGE_COUNT
        invariant
            k <= BADGE_COUNT,
            *data == old_d,
            ctx == c,
            f == (|k: int| newly_earned_badge(old_d.badges@, c, k)),
            all_ks == Seq::new(BADGE_COUNT as nat, |k: int| k),
            newly@.map_values(|x: usize| x as int) == all_ks.take(k as int).filter(f),
        decreases BADGE_COUNT - k,
    {
        let e = badge_entry(k);
        let owned = own_badge(data, e.0);
        let earned = badge_test(e.0, &ctx);
        proof {
            reveal_with_fuel(Seq::<_>::filter, 1);
            assert(all_ks.take(k + 1).drop_last() =~= all_ks.take(k as int));
        }
        if !owned && earned {
            newly.push(k);
        }
        assert(newly@.map_values(|x: usize| x as int) =~= all_ks.take(k + 1).filter(f));
        k = k + 1;
    }
    assert(all_ks.take(BADGE_COUNT as int) =~= all_ks);
    let ghost nw = newly_earned(old_d.badges@, c);
    assert(newly@.map_values(|x: usize| x as int) == nw);
    proof {
        lemma_newly_earned_len(old_d.badges@, c);
    }
    let mut j: usize = 0;
    while j < newly.len()
        invariant
            j <= newly@.len(),
            newly@.len() == nw.len(),
            forall|i: int| 0 <= i < nw.len() ==> #[trigger] nw[i] == newly@[i] as int,
            forall|i: int| 0 <= i < nw.len() ==> 0 <= #[trigger] nw[i] < BADGE_COUNT,
            nw.len() <= BADGE_COUNT,
            old_d.points.total <= i64::MAX - 25 * BADGE_COUNT,
            data.badges@.len() == old_d.badges@.len() + j,
            forall|i: int| 0 <= i < old_d.badges@.len() ==> data.badges@[i] == old_d.badges@[i],
            forall|i: int|
                0 <= i < j ==> (#[trigger] data.badges@[old_d.badges@.len() + i]).id@ == badge_id(nw[i])
                    && data.badges@[old_d.badges@.len() + i].at == now,
            ({
                let pts = award_points(old_d.points.total as int, ledger_view(old_d.points.ledger@), nw.take(j as int), now);
                data.points.total == pts.0 && ledger_view(data.points.ledger@) == pts.1
            }),
            data.todos == old_d.todos,
            data.settings == old_d.settings,
            data.streak == old_d.streak,
            data.last_reward_date == old_d.last_reward_date,
            data.stats == old_d.stats,
            data.suppressed_notion_ids == old_d.suppressed_notion_ids,
        decreases newly@.len() - j,
    {
        let k = newly[j];
        assert(nw[j as int] == k as int);
        let e = badge_entry(k);
        data.badges.push(BadgeOwned { id: String::from_str(e.0), at: now });
        let mut reason: Vec<char> = chars_of("🏅 뱃지 획득: ");
        push_str(&mut reason, e.1);
        let reason_s = string_from_chars(&reason);
        proof {
            lemma_award_points_bound(old_d.points.total as int, ledger_view(old_d.points.ledger@), nw.take(j as int), now);
            assert(nw.take(j + 1).drop_last() =~= nw.take(j as int));
        }
        add_points_at(data, 25, reason_s.as_str(), now);
        j = j + 1;
    }
    assert(nw.take(nw.len() as int) =~= nw);
}

/// Gives every badge newly earned today, now.
pub fn check_badges(data: &mut Data)
    requires
        old(data).points.total <= i64::MAX - 25 * BADGE_COUNT,
    ensures
        exists|today: Seq<char>, early_done: bool, now: i64|
            is_date_text(today) && (early_done ==> day_has_timed_completion(old(data).todos@, today))
                && #[trigger] badges_checked(*old(data), *final(data), today, early_done, now),
{
    let today = today_str();
    let early_done = early_done_on(&data.todos, today.as_str());
    let now = now_ms();
    check_badges_at(data, today.as_str(), early_done, now);
}

/// Some to-do of `day` was completed at a time whose local hour, as `hours` gives it for
/// each to-do, is before 9.
pub open spec fn early_done_spec(todos: Seq<Todo>, day: Seq<char>, hours: Seq<u32>) -> bool {
    exists|i: int|
        0 <= i < todos.len() && on_day(#[trigger] todos[i], day) && todos[i].done && todos[i].done_at is Some
            && hours[i] < 9
}

/// Whether some to-do of `day` was completed before 9 o'clock, `hours[i]` being the local
/// hour of the completion time of to-do `i` (read only where there is one).
pub fn early_done_with(todos: &Vec<Todo>, day: &str, hours: &Vec<u32>) -> (r: bool)
    requires
        hours@.len() == todos@.len(),
    ensures
        r == early_done_spec(todos@, day@, hours@),
{
    let mut i: usize = 0;
    while i < todos.len()
        invariant
            i <= todos@.len(),
            hours@.len() == todos@.len(),
            forall|j: int|
                0 <= j < i ==> !(on_day(#[trigger] todos@[j], day@) && todos@[j].done && todos@[j].done_at is Some
                    && hours@[j] < 9),
        decreases todos@.len() - i,
    {
        let t = &todos[i];
        if t.done && t.done_at.is_some() && same_text(t.date.as_str(), day) && hours[i] < 9 {
            assert(on_day(todos@[i as int], day@));
            return true;
        }
        i = i + 1;
    }
    false
}

/// The local hours of the to-dos' completion times (0 for a to-do without one).
pub open spec fn completion_hours_ok(todos: Seq<Todo>, hours: Seq<u32>) -> bool {
    &&& hours.len() == todos.len()
    &&& forall|i: int| 0 <= i < hours.len() ==> #[trigger] hours[i] <= 23
    &&& forall|i: int| 0 <= i < hours.len() && todos[i].done_at is None ==> #[trigger] hours[i] == 0
}

/// Whether some to-do of `day` was completed before 9 o'clock local time: the local hour
/// of each completion time is read from the clock's time zone, then decided by
/// `early_done_with`.
pub fn early_done_on(todos: &Vec<Todo>, day: &str) -> (r: bool)
    ensures
        exists|hours: Seq<u32>| completion_hours_ok(todos@, hours) && r == #[trigger] early_done_spec(todos@, day@, hours),
        r ==> day_has_timed_completion(todos@, day@),
{
    let mut hours: Vec<u32> = Vec::new();
    let mut i: usize = 0;
    while i < todos.len()
        invariant
            i <= todos@.len(),
            hours@.len() == i,
            forall|j: int| 0 <= j < i ==> #[trigger] hours@[j] <= 23,
            forall|j: int| 0 <= j < i && todos@[j].done_at is None ==> #[trigger] hours@[j] == 0,
        decreases todos@.len() - i,
    {
        let h = match todos[i].done_at {
            Some(ms) => hour_of(ms),
            None => 0,
        };
        hours.push(h);
        i = i + 1;
    }
    let r = early_done_with(todos, day, &hours);
    assert(completion_hours_ok(todos@, hours@));
    r
}


/// Badges are given once: checking again on the same day, with nothing else changed,
/// gives no further badge and no further points.
pub proof fn lemma_check_badges_idempotent(
    d0: Data,
    d1: Data,
    d2: Data,
    today: Seq<char>,
    early_done: bool,
    now1: i64,
    now2: i64,
)
    requires
        badges_checked(d0, d1, today, early_done, now1),
        badges_checked(d1, d2, today, early_done, now2),
    ensures
        d2.badges@ == d1.badges@,
        d2.points.total == d1.points.total,
        ledger_view(d2.points.ledger@) == ledger_view(d1.points.ledger@),
{
    let c = badge_ctx_of(d0, today, early_done);
    assert(badge_ctx_of(d1, today, early_done) == c);
    let nw0 = newly_earned(d0.badges@, c);
    let all_ks = Seq::new(BADGE_COUNT as nat, |k: int| k);
    let f0 = |k: int| newly_earned_badge(d0.badges@, c, k);
    let f1 = |k: int| newly_earned_badge(d1.badges@, c, k);
    assert forall|k: int| 0 <= k < BADGE_COUNT implies !#[trigger] f1(k) by {
        if owns_badge(d0.badges@, badge_id(k)) {
            let i = choose|i: int| 0 <= i < d0.badges@.len() && (#[trigger] d0.badges@[i]).id@ == badge_id(k);
            assert(d1.badges@[i] == d0.badges@[i]);
        } else if badge_condition(badge_id(k), c) {
            assert(f0(all_ks[k]));
            all_ks.lemma_filter_contains(f0, k);
            let j = choose|j: int| 0 <= j < nw0.len() && nw0[j] == k;
            assert(d1.badges@[d0.badges@.len() + j].id@ == badge_id(k));
        }
    }
    let nw1 = newly_earned(d1.badges@, c);
    all_ks.lemma_filter_len(f1);
    if nw1.len() > 0 {
        all_ks.lemma_filter_pred(f1, 0);
        all_ks.lemma_filter_contains_rev(f1, nw1[0]);
    }
    assert(nw1.len() == 0);
    assert(d2.badges@ =~= d1.badges@);
}


// ---------------------------------------------------------------------------
// Today's points
// ---------------------------------------------------------------------------

/// The sum of the deltas of the ledger entries whose local date (in `dates`, entry by
/// entry) is `day`.
pub open spec fn points_on_day(ledger: Seq<(i64, i64, Seq<char>)>, dates: Seq<Seq<char>>, day: Seq<char>) -> int
    decreases ledger.len(),
{
    if ledger.len() == 0 {
        0
    } else {
        points_on_day(ledger.drop_last(), dates.drop_last(), day) + if dates.last() == day {
            ledger.last().1 as int
        } else {
            0
        }
    }
}

pub open spec fn abs_int(x: int) -> int {
    if x < 0 {
        -x
    } else {
        x
    }
}


/// Every running sum of the deltas of the entries whose date is `day` fits in an `i64`.
pub open spec fn day_sums_fit(ledger: Seq<(i64, i64, Seq<char>)>, dates: Seq<Seq<char>>, day: Seq<char>) -> bool {
    forall|k: int| 0 <= k <= ledger.len() ==> #[trigger] fits_i64(points_on_day(ledger.take(k), dates.take(k), day))
}

/// Sums the deltas of the entries whose date is `day`.
pub fn sum_points_on_day(ledger: &Vec<LedgerEntry>, dates: &Vec<String>, day: &str) -> (r: i64)
    requires
        dates@.len() == ledger@.len(),
        day_sums_fit(ledger_view(ledger@), dates@.map_values(|d: String| d@), day@),
    ensures
        r == points_on_day(ledger_view(ledger@), dates@.map_values(|d: String| d@), day@),
{
    let ghost lv = ledger_view(ledger@);
    let ghost dv = dates@.map_values(|d: String| d@);
    let mut acc: i64 = 0;
    let mut i: usize = 0;
    while i < ledger.len()
        invariant
            i <= ledger@.len(),
            dates@.len() == ledger@.len(),
            lv == ledger_view(ledger@),
            dv == dates@.map_values(|d: String| d@),
            day_sums_fit(lv, dv, day@),
            acc == points_on_day(lv.take(i as int), dv.take(i as int), day@),
        decreases ledger@.len() - i,
    {
        proof {
            assert(lv.take(i + 1).drop_last() =~= lv.take(i as int));
            assert(dv.take(i + 1).drop_last() =~= dv.take(i as int));
            assert(fits_i64(points_on_day(lv.take(i + 1), dv.take(i + 1), day@)));
        }
        if same_text(dates[i].as_str(), day) {
            acc = acc + ledger[i].delta;
        }
        i = i + 1;
    }
    assert(lv.take(ledger@.len() as int) =~= lv);
    assert(dv.take(ledger@.len() as int) =~= dv);
    acc
}

/// The sum of the ledger's gains.
pub open spec fn gain_total(l: Seq<(i64, i64, Seq<char>)>) -> int
    decreases l.len(),
{
    if l.len() == 0 {
        0
    } else {
        gain_total(l.drop_last()) + if l.last().1 > 0 { l.last().1 as int } else { 0 }
    }
}

/// The sum of the ledger's losses (zero or less).
pub open spec fn loss_total(l: Seq<(i64, i64, Seq<char>)>) -> int
    decreases l.len(),
{
    if l.len() == 0 {
        0
    } else {
        loss_total(l.drop_last()) + if l.last().1 < 0 { l.last().1 as int } else { 0 }
    }
}

/// Whatever day the entries fall on, every running sum of a day's deltas fits in an
/// `i64`: all gains together and all losses together fit.
pub open spec fn ledger_sums_fit(l: Seq<(i64, i64, Seq<char>)>) -> bool {
    gain_total(l) <= i64::MAX && loss_total(l) >= i64::MIN
}

/// A day's sum lies between the ledger's losses and its gains.
proof fn lemma_day_sum_between(l: Seq<(i64, i64, Seq<char>)>, dates: Seq<Seq<char>>, day: Seq<char>)
    requires
        dates.len() == l.len(),
    ensures
        loss_total(l) <= points_on_day(l, dates, day) <= gain_total(l),
        loss_total(l) <= 0 <= gain_total(l),
    decreases l.len(),
{
    if l.len() > 0 {
        lemma_day_sum_between(l.drop_last(), dates.drop_last(), day);
    }
}

/// A prefix gains and loses no more than the whole ledger.
proof fn lemma_totals_prefix(l: Seq<(i64, i64, Seq<char>)>, n: int)
    requires
        0 <= n <= l.len(),
    ensures
        gain_total(l.take(n)) <= gain_total(l),
        loss_total(l.take(n)) >= loss_total(l),
    decreases l.len() - n,
{
    if n < l.len() {
        lemma_totals_prefix(l.drop_last(), n);
        assert(l.drop_last().take(n) =~= l.take(n));
    } else {
        assert(l.take(n) =~= l);
    }
}

/// When all gains and all losses fit, so does every running sum of a day.
proof fn lemma_sums_fit_gives_day_sums(l: Seq<(i64, i64, Seq<char>)>, dates: Seq<Seq<char>>, day: Seq<char>)
    requires
        dates.len() == l.len(),
        ledger_sums_fit(l),
    ensures
        day_sums_fit(l, dates, day),
{
    assert forall|k: int| 0 <= k <= l.len() implies #[trigger] fits_i64(points_on_day(l.take(k), dates.take(k), day)) by {
        lemma_day_sum_between(l.take(k), dates.take(k), day);
        lemma_totals_prefix(l, k);
    }
}



/// All gains together and all losses together, when each fits in an `i64`.
pub fn ledger_totals(ledger: &Vec<LedgerEntry>) -> (r: Option<(i64, i64)>)
    ensures
        r matches Some((g, l)) ==> g == gain_total(ledger_view(ledger@)) && l == loss_total(ledger_view(ledger@)),
        r is None <==> !ledger_sums_fit(ledger_view(ledger@)),
{
    let ghost lv = ledger_view(ledger@);
    let mut gain: i64 = 0;
    let mut loss: i64 = 0;
    let mut i: usize = 0;
    while i < ledger.len()
        invariant
            i <= ledger@.len(),
            lv == ledger_view(ledger@),
            gain == gain_total(lv.take(i as int)),
            loss == loss_total(lv.take(i as int)),
        decreases ledger@.len() - i,
    {
        proof {
            assert(lv.take(i + 1).drop_last() =~= lv.take(i as int));
            assert(lv.take(i + 1).last() == lv[i as int]);
            lemma_totals_prefix(lv, i + 1);
            lemma_day_sum_between(lv.take(i as int), Seq::new(i as nat, |j: int| Seq::<char>::empty()), Seq::<char>::empty());
        }
        let d = ledger[i].delta;
        assert(lv[i as int].1 == d);
        if d > 0 {
            if gain > i64::MAX - d {
                return None;
            }
            gain = gain + d;
        } else if d < 0 {
            if loss < i64::MIN - d {
                return None;
            }
            loss = loss + d;
        }
        i = i + 1;
    }
    assert(lv.take(ledger@.len() as int) =~= lv);
    Some((gain, loss))
}

/// Whether all gains together and all losses together fit in an `i64`.
pub fn ledger_sums_ok(ledger: &Vec<LedgerEntry>) -> (r: bool)
    ensures
        r == ledger_sums_fit(ledger_view(ledger@)),
{
    ledger_totals(ledger).is_some()
}




/// The local date of each ledger entry.
fn ledger_dates(ledger: &Vec<LedgerEntry>) -> (dates: Vec<String>)
    ensures
        dates@.len() == ledger@.len(),
        forall|i: int| 0 <= i < dates@.len() ==> is_date_text(#[trigger] dates@[i]@),
{
    let mut dates: Vec<String> = Vec::new();
    let mut i: usize = 0;
    while i < ledger.len()
        invariant
            i <= ledger@.len(),
            dates@.len() == i,
            forall|j: int| 0 <= j < dates@.len() ==> is_date_text(#[trigger] dates@[j]@),
        decreases ledger@.len() - i,
    {
        dates.push(date_str_of(ledger[i].at));
        i = i + 1;
    }
    dates
}

/// The points gained today: the deltas of the ledger entries whose local date is today.
pub fn today_points(data: &Data) -> (r: i64)
    requires
        ledger_sums_fit(ledger_view(data.points.ledger@)),
    ensures
        exists|dates: Seq<Seq<char>>, today: Seq<char>|
            dates.len() == data.points.ledger@.len() && is_date_text(today) && (forall|i: int|
                0 <= i < dates.len() ==> is_date_text(#[trigger] dates[i])) && r
                == #[trigger] points_on_day(ledger_view(data.points.ledger@), dates, today),
{
    let today = today_str();
    let dates = ledger_dates(&data.points.ledger);
    proof {
        lemma_sums_fit_gives_day_sums(ledger_view(data.points.ledger@), dates@.map_values(|d: String| d@), today@);
    }
    let r = sum_points_on_day(&data.points.ledger, &dates, today.as_str());
    let ghost dv = dates@.map_values(|d: String| d@);
    assert forall|i: int| 0 <= i < dv.len() implies is_date_text(#[trigger] dv[i]) by {
        assert(dv[i] == dates@[i]@);
    }
    r
}

// ---------------------------------------------------------------------------
// The daily reward
// ---------------------------------------------------------------------------

/// Points for completing every to-do of a day.
pub const DAY_BONUS: i64 = 50;

pub open spec fn day_bonus_reason() -> Seq<char> {
    "🎉 오늘의 할 일 전체 완료 보너스"@
}

/// Whether `d` is due the daily reward on `today`: every to-do of the day is done and
/// the reward was not given today yet.
pub open spec fn reward_due(d: Data, today: Seq<char>) -> bool {
    day_all_done(d.todos@, today) && !(d.last_reward_date matches Some(r) && r@ == today)
}

/// The streak after a rewarded day: one longer if the last rewarded day was `yesterday`,
/// else a new streak of one.
pub open spec fn streak_after(d: Data, yesterday: Seq<char>) -> int {
    if d.streak.last_date matches Some(l) && l@ == yesterday {
        d.streak.count + 1
    } else {
        1
    }
}

/// `mid` is `d` with the day marked rewarded, the streak advanced and the bonus added.
pub open spec fn day_rewarded(d: Data, mid: Data, today: Seq<char>, yesterday: Seq<char>, now: i64) -> bool {
    &&& mid.last_reward_date matches Some(r) && r@ == today
    &&& mid.streak.count == streak_after(d, yesterday)
    &&& mid.streak.last_date matches Some(l) && l@ == today
    &&& mid.points.total == total_after(d.points.total as int, DAY_BONUS as int)
    &&& ledger_view(mid.points.ledger@) == ledger_after(
        ledger_view(d.points.ledger@),
        (now, DAY_BONUS, day_bonus_reason()),
    )
    &&& mid.todos == d.todos
    &&& mid.settings == d.settings
    &&& mid.stats == d.stats
    &&& mid.badges == d.badges
    &&& mid.suppressed_notion_ids == d.suppressed_notion_ids
}

/// The whole reward step: when due, the day is rewarded and then badges are checked.
pub open spec fn reward_step(
    old_d: Data,
    new_d: Data,
    today: Seq<char>,
    yesterday: Seq<char>,
    early_done: bool,
    now: i64,
) -> bool {
    &&& !reward_due(old_d, today) ==> new_d == old_d
    &&& reward_due(old_d, today) ==> exists|mid: Data|
        day_rewarded(old_d, mid, today, yesterday, now) && #[trigger] badges_checked(
            mid,
            new_d,
            today,
            early_done,
            now,
        )
}

/// Gives the daily reward on `today` (with `yesterday` the day before) at `now`, when
/// every to-do of the day is done and the reward was not given yet; says whether it did.
pub fn reward_day_at(data: &mut Data, today: &str, yesterday: &str, early_done: bool, now: i64) -> (given: bool)
    requires
        reward_due(*old(data), today@) ==> old(data).points.total <= i64::MAX - DAY_BONUS - 25 * BADGE_COUNT,
        reward_due(*old(data), today@) ==> old(data).streak.count < i64::MAX,
    ensures
        given == reward_due(*old(data), today@),
        reward_step(*old(data), *final(data), today@, yesterday@, early_done, now),
{
    let (all_done, _) = all_done_on(&data.todos, today);
    if !all_done {
        return false;
    }
    let already = match &data.last_reward_date {
        Some(d) => same_text(d.as_str(), today),
        None => false,
    };
    if already {
        return false;
    }
    let ghost old_d = *data;
    data.last_reward_date = Some(String::from_str(today));
    let continues = match &data.streak.last_date {
        Some(d) => same_text(d.as_str(), yesterday),
        None => false,
    };
    data.streak.count = if continues {
        data.streak.count + 1
    } else {
        1
    };
    data.streak.last_date = Some(String::from_str(today));
    add_points_at(data, DAY_BONUS, "🎉 오늘의 할 일 전체 완료 보너스", now);
    let ghost mid = *data;
    assert(day_rewarded(old_d, mid, today@, yesterday@, now));
    check_badges_at(data, today, early_done, now);
    true
}

/// What the reward screen shows.
pub struct RewardInfo {
    pub streak: i64,
    pub today: i64,
    pub total: i64,
    pub title: String,
    pub icon: String,
    /// The threshold of the next level, written out; empty at the top level.
    pub next: String,
    pub min: i64,
}

/// The reward screen for the point total and streak of `d`, with `today` the points of
/// the day.
pub open spec fn reward_info_of(d: Data, today: int, info: RewardInfo) -> bool {
    let i = level_index(d.points.total as int);
    &&& info.streak == d.streak.count
    &&& info.today == today
    &&& info.total == d.points.total
    &&& info.title@ == level_title(i as int)
    &&& info.icon@ == level_icon(i as int)
    &&& info.min == level_min(i as int)
    &&& info.next@ == if i + 1 < LEVEL_COUNT {
        int_text(level_min(i + 1int) as int)
    } else {
        Seq::<char>::empty()
    }
}

/// The bound on the ledger's deltas under which the points of a day can be summed after
/// a reward.
pub open spec fn reward_headroom(d: Data) -> bool {
    &&& d.points.total <= i64::MAX - DAY_BONUS - 25 * BADGE_COUNT
    &&& d.streak.count < i64::MAX
    &&& gain_total(ledger_view(d.points.ledger@)) <= i64::MAX - DAY_BONUS - 25 * BADGE_COUNT
    &&& loss_total(ledger_view(d.points.ledger@)) >= i64::MIN
}

/// Adding an entry (and dropping the oldest beyond the cap) moves the gains up by at most
/// its gain and the losses down by at most its loss.
pub proof fn lemma_ledger_after_sums(l: Seq<(i64, i64, Seq<char>)>, e: (i64, i64, Seq<char>))
    ensures
        gain_total(ledger_after(l, e)) <= gain_total(l) + if e.1 > 0 { e.1 as int } else { 0 },
        loss_total(ledger_after(l, e)) >= loss_total(l) + if e.1 < 0 { e.1 as int } else { 0 },
{
    let n = seq![e] + l;
    lemma_gain_loss_cons(e, l);
    if n.len() > LEDGER_CAP {
        lemma_totals_prefix(n, LEDGER_CAP as int);
    }
}

proof fn lemma_gain_loss_cons(e: (i64, i64, Seq<char>), l: Seq<(i64, i64, Seq<char>)>)
    ensures
        gain_total(seq![e] + l) == gain_total(l) + if e.1 > 0 { e.1 as int } else { 0 },
        loss_total(seq![e] + l) == loss_total(l) + if e.1 < 0 { e.1 as int } else { 0 },
    decreases l.len(),
{
    if l.len() > 0 {
        lemma_gain_loss_cons(e, l.drop_last());
        assert((seq![e] + l).drop_last() =~= seq![e] + l.drop_last());
        assert((seq![e] + l).last() == l.last());
    } else {
        assert((seq![e] + l).drop_last() =~= Seq::<(i64, i64, Seq<char>)>::empty());
        assert((seq![e] + l).last() == e);
        assert(gain_total(Seq::<(i64, i64, Seq<char>)>::empty()) == 0);
        assert(loss_total(Seq::<(i64, i64, Seq<char>)>::empty()) == 0);
    }
}

proof fn lemma_award_points_sums(total: int, ledger: Seq<(i64, i64, Seq<char>)>, ks: Seq<int>, now: i64)
    ensures
        gain_total(award_points(total, ledger, ks, now).1) <= gain_total(ledger) + 25 * ks.len(),
        loss_total(award_points(total, ledger, ks, now).1) >= loss_total(ledger),
    decreases ks.len(),
{
    if ks.len() > 0 {
        lemma_award_points_sums(total, ledger, ks.drop_last(), now);
        let p = award_points(total, ledger, ks.drop_last(), now);
        lemma_ledger_after_sums(p.1, (now, 25, badge_reason(ks.last())));
    }
}




/// After a reward step on data with headroom, the ledger's deltas can still be summed.
proof fn lemma_reward_step_abs(
    old_d: Data,
    new_d: Data,
    today: Seq<char>,
    yesterday: Seq<char>,
    early_done: bool,
    now: i64,
)
    requires
        reward_headroom(old_d),
        reward_step(old_d, new_d, today, yesterday, early_done, now),
    ensures
        ledger_sums_fit(ledger_view(new_d.points.ledger@)),
{
    if reward_due(old_d, today) {
        let mid = choose|mid: Data|
            day_rewarded(old_d, mid, today, yesterday, now) && #[trigger] badges_checked(
                mid,
                new_d,
                today,
                early_done,
                now,
            );
        lemma_ledger_after_sums(ledger_view(old_d.points.ledger@), (now, DAY_BONUS, day_bonus_reason()));
        let c = badge_ctx_of(mid, today, early_done);
        lemma_newly_earned_len(mid.badges@, c);
        lemma_award_points_sums(
            mid.points.total as int,
            ledger_view(mid.points.ledger@),
            newly_earned(mid.badges@, c),
            now,
        );
    }
}

/// The reward screen for the current state: streak, today's points, total and level.
pub fn reward_screen(data: &Data) -> (info: RewardInfo)
    requires
        ledger_sums_fit(ledger_view(data.points.ledger@)),
    ensures
        info.total == data.points.total,
        info.streak == data.streak.count,
        exists|dates: Seq<Seq<char>>, today: Seq<char>|
            dates.len() == data.points.ledger@.len() && #[trigger] reward_info_of(
                *data,
                points_on_day(ledger_view(data.points.ledger@), dates, today),
                info,
            ),
{
    let points_today = today_points(data);
    let li = level_info(data.points.total);
    let next = match li.next {
        Some(n) => string_from_chars(&i64_text(n)),
        None => String::new(),
    };
    let info = RewardInfo {
        streak: data.streak.count,
        today: points_today,
        total: data.points.total,
        title: li.title,
        icon: li.icon,
        next,
        min: li.min,
    };
    proof {
        let (dates, td) = choose|dates: Seq<Seq<char>>, td: Seq<char>|
            dates.len() == data.points.ledger@.len() && is_date_text(td) && (forall|i: int|
                0 <= i < dates.len() ==> is_date_text(#[trigger] dates[i])) && points_today
                == #[trigger] points_on_day(ledger_view(data.points.ledger@), dates, td);
        assert(reward_info_of(*data, points_on_day(ledger_view(data.points.ledger@), dates, td), info));
    }
    info
}

/// Gives the daily reward of `today` when due (see `reward_day_at`), and returns what
/// the reward screen shows.
pub fn reward_if_due_at(data: &mut Data, today: &str, yesterday: &str, early_done: bool, now: i64) -> (r: Option<RewardInfo>)
    requires
        reward_due(*old(data), today@) ==> reward_headroom(*old(data)),
    ensures
        (r is Some) == reward_due(*old(data), today@),
        reward_step(*old(data), *final(data), today@, yesterday@, early_done, now),
        r is Some ==> r->0.total == final(data).points.total,
        r is Some ==> r->0.streak == final(data).streak.count,
        r is Some ==> exists|dates: Seq<Seq<char>>, day: Seq<char>|
            dates.len() == final(data).points.ledger@.len() && #[trigger] reward_info_of(
                *final(data),
                points_on_day(ledger_view(final(data).points.ledger@), dates, day),
                r->0,
            ),
{
    let ghost old_d = *data;
    let given = reward_day_at(data, today, yesterday, early_done, now);
    if !given {
        return None;
    }
    proof {
        lemma_reward_step_abs(old_d, *data, today@, yesterday@, early_done, now);
    }
    Some(reward_screen(data))
}

/// Gives today's reward when every to-do of today is done and it was not given yet, and
/// returns what the reward screen shows.
pub fn maybe_reward(data: &mut Data) -> (r: Option<RewardInfo>)
    requires
        (exists|today: Seq<char>| #[trigger] reward_due(*old(data), today)) ==> reward_headroom(*old(data)),
    ensures
        exists|today: Seq<char>, yesterday: Seq<char>, early_done: bool, now: i64|
            is_date_text(today) && is_date_text(yesterday) && (early_done ==> day_has_timed_completion(old(data).todos@, today))
                && (-LOCAL_RANGE_MS + DAY_MS <= now <= LOCAL_RANGE_MS ==> local_date_text(today, now as int)
                    && local_date_text(yesterday, now - DAY_MS))
                && (r is Some) == reward_due(*old(data), today)
                && #[trigger] reward_step(*old(data), *final(data), today, yesterday, early_done, now),
        r is Some ==> r->0.total == final(data).points.total,
        r is Some ==> r->0.streak == final(data).streak.count,
        r is Some ==> exists|dates: Seq<Seq<char>>, today: Seq<char>|
            dates.len() == final(data).points.ledger@.len() && #[trigger] reward_info_of(
                *final(data),
                points_on_day(ledger_view(final(data).points.ledger@), dates, today),
                r->0,
            ),
{
    let now = now_ms();
    let today = date_str_of(now);
    let yesterday = date_str_of(now - DAY_MS);
    let early_done = early_done_on(&data.todos, today.as_str());
    reward_if_due_at(data, today.as_str(), yesterday.as_str(), early_done, now)
}

// ---------------------------------------------------------------------------
// The profile
// ---------------------------------------------------------------------------

/// When badge `k` of the table was earned: the time of the first owned badge with its id.
pub open spec fn badge_time(badges: Seq<BadgeOwned>, id: Seq<char>) -> Option<i64>
    decreases badges.len(),
{
    if badges.len() == 0 {
        None
    } else {
        match badge_time(badges.drop_last(), id) {
            Some(t) => Some(t),
            None => if badges.last().id@ == id {
                Some(badges.last().at)
            } else {
                None
            },
        }
    }
}

/// For each badge of the table, in order, when it was earned (nothing if not owned).
pub fn badge_times(data: &Data) -> (r: Vec<Option<i64>>)
    ensures
        r@.len() == BADGE_COUNT,
        forall|k: int| 0 <= k < BADGE_COUNT ==> #[trigger] r@[k] == badge_time(data.badges@, badge_id(k)),
{
    let mut r: Vec<Option<i64>> = Vec::new();
    let mut k: usize = 0;
    while k < BADGE_COUNT
        invariant
            k <= BADGE_COUNT,
            r@.len() == k,
            forall|j: int| 0 <= j < k ==> #[trigger] r@[j] == badge_time(data.badges@, badge_id(j)),
        decreases BADGE_COUNT - k,
    {
        let id = badge_entry(k).0;
        let mut found: Option<i64> = None;
        let mut i: usize = 0;
        while i < data.badges.len()
            invariant
                i <= data.badges@.len(),
                id@ == badge_id(k as int),
                found == badge_time(data.badges@.take(i as int), id@),
            decreases data.badges@.len() - i,
        {
            assert(data.badges@.take(i + 1).drop_last() =~= data.badges@.take(i as int));
            if found.is_none() && same_text(data.badges[i].id.as_str(), id) {
                found = Some(data.badges[i].at);
            }
            i = i + 1;
        }
        assert(data.badges@.take(data.badges@.len() as int) =~= data.badges@);
        r.push(found);
        k = k + 1;
    }
    r
}

/// The most recent ledger entries, at most `n` of them.
pub fn recent_ledger(data: &Data, n: usize) -> (r: Vec<LedgerEntry>)
    ensures
        r@ == data.points.ledger@.take(if n < data.points.ledger@.len() { n as int } else { data.points.ledger@.len() as int }),
{
    let m = if n < data.points.ledger.len() {
        n
    } else {
        data.points.ledger.len()
    };
    let mut r: Vec<LedgerEntry> = Vec::new();
    let mut i: usize = 0;
    while i < m
        invariant
            i <= m <= data.points.ledger@.len(),
            r@ == data.points.ledger@.take(i as int),
        decreases m - i,
    {
        r.push(data.points.ledger[i].clone());
        i = i + 1;
        assert(r@ =~= data.points.ledger@.take(i as int));
    }
    r
}


/// One badge of the table as the profile shows it: its text and when it was earned.
pub struct ProfileBadge {
    pub id: String,
    pub name: String,
    pub icon: String,
    pub desc: String,
    pub at: Option<i64>,
}

/// What the profile shows: the point total, today's points, the level, every badge of
/// the table, the statistics, the streak and the twelve newest ledger entries.
pub struct Profile {
    pub total: i64,
    pub today_points: i64,
    pub level: LevelInfo,
    pub badges: Vec<ProfileBadge>,
    pub stats: Stats,
    pub streak: Streak,
    pub ledger: Vec<LedgerEntry>,
}

/// Badge `k` of the table, with when `badges` says it was earned.
pub open spec fn profile_badge_ok(b: ProfileBadge, badges: Seq<BadgeOwned>, k: int) -> bool {
    &&& b.id@ == badge_id(k)
    &&& b.name@ == badge_name(k)
    &&& b.icon@ == badge_icon(k)
    &&& b.desc@ == badge_desc(k)
    &&& b.at == badge_time(badges, badge_id(k))
}

pub fn profile_payload(data: &Data) -> (p: Profile)
    requires
        ledger_sums_fit(ledger_view(data.points.ledger@)),
    ensures
        p.total == data.points.total,
        level_info_of(data.points.total as int, p.level),
        p.badges@.len() == BADGE_COUNT,
        forall|k: int| 0 <= k < BADGE_COUNT ==> profile_badge_ok(#[trigger] p.badges@[k], data.badges@, k),
        p.stats == data.stats,
        p.streak == data.streak,
        p.ledger@ == data.points.ledger@.take(
            if 12 < data.points.ledger@.len() { 12 } else { data.points.ledger@.len() as int },
        ),
        exists|dates: Seq<Seq<char>>, today: Seq<char>|
            dates.len() == data.points.ledger@.len() && is_date_text(today) && (forall|i: int|
                0 <= i < dates.len() ==> is_date_text(#[trigger] dates[i])) && p.today_points
                == #[trigger] points_on_day(ledger_view(data.points.ledger@), dates, today),
{
    let times = badge_times(data);
    let mut badges: Vec<ProfileBadge> = Vec::new();
    let mut k: usize = 0;
    while k < BADGE_COUNT
        invariant
            k <= BADGE_COUNT,
            badges@.len() == k,
            times@.len() == BADGE_COUNT,
            forall|j: int| 0 <= j < BADGE_COUNT ==> #[trigger] times@[j] == badge_time(data.badges@, badge_id(j)),
            forall|j: int| 0 <= j < k ==> profile_badge_ok(#[trigger] badges@[j], data.badges@, j),
        decreases BADGE_COUNT - k,
    {
        let (id, name, icon, desc) = badge_entry(k);
        badges.push(
            ProfileBadge {
                id: String::from_str(id),
                name: String::from_str(name),
                icon: String::from_str(icon),
                desc: String::from_str(desc),
                at: times[k],
            },
        );
        assert(profile_badge_ok(badges@[k as int], data.badges@, k as int));
        k = k + 1;
    }
    Profile {
        total: data.points.total,
        today_points: today_points(data),
        level: level_info(data.points.total),
        badges,
        stats: Stats { total_done: data.stats.total_done, siren_saves: data.stats.siren_saves },
        streak: Streak { count: data.streak.count, last_date: copy_opt_string(&data.streak.last_date) },
        ledger: recent_ledger(data, 12),
    }
}

/// Checking badges keeps the headroom that a completion leaves for the daily reward.
pub proof fn lemma_badges_checked_headroom(mid: Data, mid2: Data, today: Seq<char>, early_done: bool, now: i64)
    requires
        badges_checked(mid, mid2, today, early_done, now),
        mid.points.total <= i64::MAX - DAY_BONUS - 25 * BADGE_COUNT - 25 * BADGE_COUNT,
        gain_total(ledger_view(mid.points.ledger@)) <= i64::MAX - DAY_BONUS - 25 * BADGE_COUNT - 25 * BADGE_COUNT,
        loss_total(ledger_view(mid.points.ledger@)) >= i64::MIN,
        mid.streak.count < i64::MAX,
    ensures
        reward_headroom(mid2),
{
    let c = badge_ctx_of(mid, today, early_done);
    lemma_newly_earned_len(mid.badges@, c);
    let nw = newly_earned(mid.badges@, c);
    lemma_award_points_bound(mid.points.total as int, ledger_view(mid.points.ledger@), nw, now);
    lemma_award_points_sums(mid.points.total as int, ledger_view(mid.points.ledger@), nw, now);
}


/// How far checking badges can move the point total and the ledger.
pub proof fn lemma_badges_checked_bounds(d: Data, nd: Data, today: Seq<char>, early_done: bool, now: i64)
    requires
        badges_checked(d, nd, today, early_done, now),
    ensures
        nd.points.total <= (if d.points.total < 0 { 0 } else { d.points.total as int }) + 25 * BADGE_COUNT,
        nd.points.total >= 0 || nd.points.total == d.points.total,
        gain_total(ledger_view(nd.points.ledger@)) <= gain_total(ledger_view(d.points.ledger@)) + 25 * BADGE_COUNT,
        loss_total(ledger_view(nd.points.ledger@)) >= loss_total(ledger_view(d.points.ledger@)),
{
    let c = badge_ctx_of(d, today, early_done);
    lemma_newly_earned_len(d.badges@, c);
    let nw = newly_earned(d.badges@, c);
    lemma_award_points_bound(d.points.total as int, ledger_view(d.points.ledger@), nw, now);
    lemma_award_points_sums(d.points.total as int, ledger_view(d.points.ledger@), nw, now);
}

/// How far a reward step can move the point total, the ledger and the streak; it leaves
/// the to-dos and statistics alone.
pub proof fn lemma_reward_step_bounds(
    d: Data,
    nd: Data,
    today: Seq<char>,
    yesterday: Seq<char>,
    early_done: bool,
    now: i64,
)
    requires
        reward_step(d, nd, today, yesterday, early_done, now),
    ensures
        nd.points.total <= (if d.points.total < 0 { 0 } else { d.points.total as int }) + DAY_BONUS + 25 * BADGE_COUNT,
        nd.points.total >= 0 || nd.points.total == d.points.total,
        gain_total(ledger_view(nd.points.ledger@)) <= gain_total(ledger_view(d.points.ledger@)) + DAY_BONUS + 25 * BADGE_COUNT,
        loss_total(ledger_view(nd.points.ledger@)) >= loss_total(ledger_view(d.points.ledger@)),
        nd.streak.count <= (if d.streak.count + 1 > 1 { d.streak.count + 1 } else { 1 }),
        nd.streak.count >= (if d.streak.count < 1 { d.streak.count as int } else { 1 }),
        nd.todos == d.todos,
        nd.stats == d.stats,
{
    if reward_due(d, today) {
        let mid = choose|mid: Data|
            day_rewarded(d, mid, today, yesterday, now) && #[trigger] badges_checked(
                mid,
                nd,
                today,
                early_done,
                now,
            );
        lemma_ledger_after_sums(ledger_view(d.points.ledger@), (now, DAY_BONUS, day_bonus_reason()));
        lemma_badges_checked_bounds(mid, nd, today, early_done, now);
    }
}


// ---------------------------------------------------------------------------
// Laws
// ---------------------------------------------------------------------------

/// The daily reward is given once a day: after a reward step on `today`, a second one on
/// the same day changes nothing.
pub proof fn lemma_reward_once_per_day(
    d0: Data,
    d1: Data,
    d2: Data,
    today: Seq<char>,
    y1: Seq<char>,
    y2: Seq<char>,
    e1: bool,
    e2: bool,
    n1: i64,
    n2: i64,
)
    requires
        reward_step(d0, d1, today, y1, e1, n1),
        reward_step(d1, d2, today, y2, e2, n2),
    ensures
        !reward_due(d1, today),
        d2 == d1,
{
    if reward_due(d0, today) {
        let mid = choose|mid: Data|
            day_rewarded(d0, mid, today, y1, n1) && #[trigger] badges_checked(mid, d1, today, e1, n1);
        assert(d1.last_reward_date == mid.last_reward_date);
    }
}

/// A due reward marks the day rewarded, advances the streak (one longer after a rewarded
/// yesterday, else a new streak of one), adds the bonus entry before the badges are
/// checked, and leaves the to-dos as they were; a reward that is not due changes nothing.
pub proof fn lemma_reward_marks_day(
    d: Data,
    nd: Data,
    today: Seq<char>,
    yesterday: Seq<char>,
    early_done: bool,
    now: i64,
)
    requires
        reward_step(d, nd, today, yesterday, early_done, now),
    ensures
        reward_due(d, today) ==> (nd.last_reward_date matches Some(r) && r@ == today),
        reward_due(d, today) ==> (nd.streak.last_date matches Some(l) && l@ == today),
        reward_due(d, today) ==> nd.streak.count == streak_after(d, yesterday),
        reward_due(d, today) ==> exists|mid: Data|
            #[trigger] day_rewarded(d, mid, today, yesterday, now) && ledger_view(mid.points.ledger@)[0] == (
                now,
                DAY_BONUS,
                day_bonus_reason(),
            ) && badges_checked(mid, nd, today, early_done, now),
        nd.todos == d.todos,
        !reward_due(d, today) ==> nd == d,
{
    if reward_due(d, today) {
        let mid = choose|mid: Data|
            day_rewarded(d, mid, today, yesterday, now) && #[trigger] badges_checked(mid, nd, today, early_done, now);
        lemma_ledger_capped(ledger_view(d.points.ledger@), (now, DAY_BONUS, day_bonus_reason()));
    }
}

/// A point total of zero or more lies within its level: at least the level's minimum and
/// below the next level's.
pub proof fn lemma_level_contains_total(total: int)
    requires
        total >= 0,
    ensures
        level_min(level_index(total) as int) <= total,
        level_index(total) + 1 < LEVEL_COUNT ==> total < level_min(level_index(total) + 1int),
{
    reveal_with_fuel(highest_level_within, 11);
}

/// A larger point total never has a lower level.
pub proof fn lemma_level_monotone(t1: int, t2: int)
    requires
        t1 <= t2,
    ensures
        level_index(t1) <= level_index(t2),
{
    reveal_with_fuel(highest_level_within, 11);
}

/// The ledger keeps at most `LEDGER_CAP` entries, the newest first.
pub proof fn lemma_ledger_capped(l: Seq<(i64, i64, Seq<char>)>, e: (i64, i64, Seq<char>))
    ensures
        ledger_after(l, e).len() == if l.len() + 1 > LEDGER_CAP { LEDGER_CAP as int } else { l.len() + 1int },
        ledger_after(l, e)[0] == e,
        forall|i: int| 1 <= i < ledger_after(l, e).len() ==> ledger_after(l, e)[i] == l[i - 1],
{
}

/// The point total never drops below zero when points are added or taken.
pub proof fn lemma_total_never_negative(total: int, delta: int)
    ensures
        total_after(total, delta) >= 0,
        total + delta >= 0 ==> total_after(total, delta) == total + delta,
{
}

/// Every seed gets a palette colour.
pub proof fn lemma_pick_color_in_palette(seed: Seq<char>)
    ensures
        is_palette_color(palette((color_hash(seed) % 6) as int)),
{
    assert(0 <= (color_hash(seed) % 6) < 6);
}

} // verus!
