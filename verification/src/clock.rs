//! The clock and the local calendar (through `chrono`), and how days and times of day
//! are written.
use vstd::prelude::*;

use chrono::{Datelike, Local, TimeZone, Timelike};

use crate::text::{chars_of, i64_text_zero_padded, int_text_zero_padded, parse_u32, parse_u32_spec, push_all, split, split_on, string_from_chars, trim, trim_ws};

verus! {

/// Milliseconds beyond which no instant that `chrono` represents lies (its years stay
/// within ±262 143).
pub const INSTANT_BOUND: i64 = 9_000_000_000_000_000;

/// One day, in milliseconds.
pub const DAY_MS: i64 = 86_400_000;

/// The local calendar fields of an instant.
#[derive(Clone, Copy)]
pub struct LocalTime {
    pub year: i32,
    pub month: u32,
    pub day: u32,
    pub hour: u32,
    pub minute: u32,
}

/// The ranges that `chrono` documents for the calendar fields.
pub open spec fn local_time_ok(t: LocalTime) -> bool {
    &&& 1 <= t.month <= 12
    &&& 1 <= t.day <= 31
    &&& t.hour <= 23
    &&& t.minute <= 59
}

/// How far the system clock reads from the Unix epoch
/// (`std::time::SystemTime::now().duration_since(UNIX_EPOCH)`): whether it reads at or
/// after the epoch, then the whole seconds and the nanoseconds of that distance (from the
/// error's `duration()` when the clock reads before the epoch). The nanoseconds stay below
/// a billion, as `Duration::subsec_nanos` documents; which reading it is, nothing states.
#[verifier::external_body]
fn system_clock() -> (r: (bool, u64, u32))
    ensures
        r.2 < 1_000_000_000,
{
    match std::time::SystemTime::now().duration_since(std::time::UNIX_EPOCH) {
        Ok(d) => (true, d.as_secs(), d.subsec_nanos()),
        Err(e) => (false, e.duration().as_secs(), e.duration().subsec_nanos()),
    }
}

/// Milliseconds since the epoch of a clock reading `secs` seconds and `nanos` nanoseconds
/// after it, or before it (negative), as `chrono`'s `timestamp_millis` gives them: whole
/// milliseconds rounded down, so a reading just before the epoch is -1; kept within what
/// `chrono` can represent.
pub open spec fn clock_ms(after: bool, secs: u64, nanos: u32) -> int {
    let m = if after {
        secs * 1000 + nanos / 1_000_000
    } else {
        secs * 1000 + (nanos + 999_999) / 1_000_000
    };
    let c = if m > INSTANT_BOUND { INSTANT_BOUND as int } else { m };
    if after {
        c
    } else {
        -c
    }
}

/// The milliseconds of one clock reading (see `clock_ms`).
pub fn clock_reading_ms(after: bool, secs: u64, nanos: u32) -> (ms: i64)
    requires
        nanos < 1_000_000_000,
    ensures
        ms == clock_ms(after, secs, nanos),
{
    let part: u64 = if after {
        (nanos / 1_000_000) as u64
    } else {
        ((nanos as u64) + 999_999) / 1_000_000
    };
    let m: i64 = if secs > 9_000_000_000_000 {
        INSTANT_BOUND
    } else {
        let x = secs * 1000 + part;
        if x > 9_000_000_000_000_000 {
            INSTANT_BOUND
        } else {
            x as i64
        }
    };
    if after {
        m
    } else {
        -m
    }
}

/// The current time in milliseconds since the Unix epoch, from the system clock; a clock
/// before 1970 gives a negative time, and a reading beyond what `chrono` represents is
/// held at that limit.
pub fn now_ms() -> (ms: i64)
    ensures
        exists|after: bool, secs: u64, nanos: u32| nanos < 1_000_000_000 && ms == #[trigger] clock_ms(after, secs, nanos),
        -INSTANT_BOUND <= ms <= INSTANT_BOUND,
{
    let (after, secs, nanos) = system_clock();
    clock_reading_ms(after, secs, nanos)
}

/// Milliseconds within which every instant has a local time in `chrono` (its dates reach
/// beyond ±262 000 years).
pub const LOCAL_RANGE_MS: i64 = 8_000_000_000_000_000;

/// Days of the instant `x` (milliseconds since the epoch), counted from 1970-01-01.
pub open spec fn days_of(x: int) -> int {
    x / 86_400_000
}

/// The proleptic Gregorian year, month and day of the `days`-th day from 1970-01-01
/// (year 0 before year 1, as `chrono` counts).
pub open spec fn civil_of_days(days: int) -> (int, int, int) {
    let z = days + 719_468;
    let era = z / 146_097;
    let doe = z - era * 146_097;
    let yoe = (doe - doe / 1460 + doe / 36_524 - doe / 146_096) / 365;
    let y = yoe + era * 400;
    let doy = doe - (365 * yoe + yoe / 4 - yoe / 100);
    let mp = (5 * doy + 2) / 153;
    let d = doy - (153 * mp + 2) / 5 + 1;
    let m = if mp < 10 { mp + 3 } else { mp - 9 };
    (if m <= 2 { y + 1 } else { y }, m, d)
}

/// `t` holds the calendar date, hour and minute of the instant `x` counted without a zone
/// (milliseconds since 1970-01-01 00:00).
pub open spec fn fields_at(t: LocalTime, x: int) -> bool {
    let c = civil_of_days(days_of(x));
    &&& t.year == c.0
    &&& t.month == c.1
    &&& t.day == c.2
    &&& t.hour == (x % 86_400_000) / 3_600_000
    &&& t.minute == (x % 3_600_000) / 60_000
}

/// `t` is the local time of the instant `ms` at some offset from UTC of less than a day:
/// the calendar time of `ms` moved by `off` seconds.
pub open spec fn local_reading(t: LocalTime, ms: int) -> bool {
    exists|off: int| -86_400 < off < 86_400 && #[trigger] fields_at(t, ms + off * 1000)
}

/// The local calendar fields of the instant `ms` (`chrono::Local::timestamp_millis_opt`),
/// with the zone's offset from UTC in seconds (`FixedOffset::local_minus_utc`). `chrono`
/// gives a single local time for every instant it represents (all within
/// `LOCAL_RANGE_MS`); its fields are the UTC date and time moved by the offset, and an
/// offset always lies strictly within a day. Which offset the machine's time zone gives,
/// nothing states. (`chrono` itself stops only where the machine's time-zone data give no
/// offset for the instant.)
#[verifier::external_body]
fn local_fields(ms: i64) -> (r: Option<(LocalTime, i32)>)
    ensures
        -LOCAL_RANGE_MS <= ms <= LOCAL_RANGE_MS ==> r is Some,
        r matches Some(p) ==> local_time_ok(p.0) && -86_400 < p.1 < 86_400 && fields_at(
            p.0,
            ms as int + p.1 as int * 1000,
        ),
{
    match Local.timestamp_millis_opt(ms) {
        chrono::LocalResult::Single(d) => Some(
            (
                LocalTime { year: d.year(), month: d.month(), day: d.day(), hour: d.hour(), minute: d.minute() },
                d.offset().local_minus_utc(),
            ),
        ),
        _ => None,
    }
}

/// The calendar fields of 1970-01-01 00:00.
pub open spec fn epoch_fields() -> LocalTime {
    LocalTime { year: 1970, month: 1, day: 1, hour: 0, minute: 0 }
}

/// The local time chosen: the instant's own when it has one, else that of the fallback
/// reading, else 1970-01-01 00:00.
pub open spec fn local_choice_of(first: Option<LocalTime>, fallback: Option<LocalTime>) -> LocalTime {
    match (first, fallback) {
        (Some(a), _) => a,
        (None, Some(b)) => b,
        _ => epoch_fields(),
    }
}

/// Picks the local time of an instant from its own reading and the fallback reading
/// (see `local_choice_of`).
pub fn local_choice(first: Option<LocalTime>, fallback: Option<LocalTime>) -> (t: LocalTime)
    ensures
        t == local_choice_of(first, fallback),
{
    match (first, fallback) {
        (Some(a), _) => a,
        (None, Some(b)) => b,
        _ => LocalTime { year: 1970, month: 1, day: 1, hour: 0, minute: 0 },
    }
}

/// The local calendar fields of the instant `ms`; where it has no single local time, those
/// of the current time (read only then), and 1970-01-01 00:00 where that has none either.
pub fn local_of(ms: i64) -> (t: LocalTime)
    ensures
        local_time_ok(t),
        -LOCAL_RANGE_MS <= ms <= LOCAL_RANGE_MS ==> local_reading(t, ms as int),
        exists|first: Option<LocalTime>, fallback: Option<LocalTime>|
            (first matches Some(a) ==> local_time_ok(a)) && (fallback matches Some(b) ==> local_time_ok(b)) && (
            first is Some ==> fallback is None) && t == #[trigger] local_choice_of(first, fallback),
{
    let first = match local_fields(ms) {
        Some((t, off)) => {
            assert(fields_at(t, ms as int + off as int * 1000));
            Some(t)
        },
        None => None,
    };
    let fallback = if first.is_none() {
        match local_fields(now_ms()) {
            Some((t, _)) => Some(t),
            None => None,
        }
    } else {
        None
    };
    local_choice(first, fallback)
}

/// The instant of the local date `year-month-day` at `hour:minute`, in milliseconds since
/// the epoch (`chrono::NaiveDate::from_ymd_opt`, `NaiveDate::and_hms_opt`,
/// `chrono::Local::from_local_datetime`); nothing where that date or time does not exist,
/// or the local time does not exist once. Which instant it is depends on the time zone;
/// nothing states it.
#[verifier::external_body]
fn local_at(year: i32, month: u32, day: u32, hour: u32, minute: u32) -> (r: Option<i64>) {
    let naive = chrono::NaiveDate::from_ymd_opt(year, month, day)?.and_hms_opt(hour, minute, 0)?;
    Local.from_local_datetime(&naive).single().map(|dt| dt.timestamp_millis())
}

/// The instant that an RFC 3339 date-time denotes, in milliseconds.
pub uninterp spec fn rfc3339_instant(s: Seq<char>) -> Option<i64>;

/// Reads an RFC 3339 date-time (`chrono::DateTime::parse_from_rfc3339`) into milliseconds
/// since the epoch; nothing when it does not parse.
#[verifier::external_body]
pub fn parse_rfc3339_ms(s: &str) -> (r: Option<i64>)
    ensures
        r == rfc3339_instant(s@),
{
    chrono::DateTime::parse_from_rfc3339(s).ok().map(|dt| dt.timestamp_millis())
}

/// `YYYY-MM-DD` as `{:04}-{:02}-{:02}` writes it.
pub open spec fn ymd_text(year: int, month: int, day: int) -> Seq<char> {
    int_text_zero_padded(year, 4) + seq!['-'] + int_text_zero_padded(month, 2) + seq!['-']
        + int_text_zero_padded(day, 2)
}

/// `HH:MM` as `{:02}:{:02}` writes it.
pub open spec fn hm_text(hour: int, minute: int) -> Seq<char> {
    int_text_zero_padded(hour, 2) + seq![':'] + int_text_zero_padded(minute, 2)
}

/// The text of a local date: a year, a month 1 to 12 and a day 1 to 31.
pub open spec fn is_date_text(s: Seq<char>) -> bool {
    exists|y: i32, m: u32, d: u32|
        1 <= m <= 12 && 1 <= d <= 31 && s == #[trigger] ymd_text(y as int, m as int, d as int)
}

pub fn format_ymd(year: i32, month: u32, day: u32) -> (r: String)
    ensures
        r@ == ymd_text(year as int, month as int, day as int),
{
    let mut v = i64_text_zero_padded(year as i64, 4);
    v.push('-');
    let m = i64_text_zero_padded(month as i64, 2);
    push_all(&mut v, &m);
    v.push('-');
    let d = i64_text_zero_padded(day as i64, 2);
    push_all(&mut v, &d);
    string_from_chars(&v)
}

pub fn format_hm(hour: u32, minute: u32) -> (r: Vec<char>)
    ensures
        r@ == hm_text(hour as int, minute as int),
{
    let mut v = i64_text_zero_padded(hour as i64, 2);
    v.push(':');
    let m = i64_text_zero_padded(minute as i64, 2);
    push_all(&mut v, &m);
    v
}

/// `s` is the local date of the instant `ms`, at some offset from UTC of less than a day.
pub open spec fn local_date_text(s: Seq<char>, ms: int) -> bool {
    exists|t: LocalTime| #[trigger] local_reading(t, ms) && s == ymd_text(t.year as int, t.month as int, t.day as int)
}

/// The local date of the instant `ms`.
pub fn date_str_of(ms: i64) -> (r: String)
    ensures
        is_date_text(r@),
        -LOCAL_RANGE_MS <= ms <= LOCAL_RANGE_MS ==> local_date_text(r@, ms as int),
{
    let t = local_of(ms);
    let r = format_ymd(t.year, t.month, t.day);
    assert(r@ == ymd_text(t.year as int, t.month as int, t.day as int));
    r
}

/// Today's local date.
pub fn today_str() -> (r: String)
    ensures
        is_date_text(r@),
{
    date_str_of(now_ms())
}

/// Tomorrow's local date (the date one day from now).
pub fn tomorrow_str() -> (r: String)
    ensures
        is_date_text(r@),
{
    date_str_of(now_ms() + DAY_MS)
}

/// The local hour of the instant `ms`.
pub fn hour_of(ms: i64) -> (h: u32)
    ensures
        h <= 23,
        -LOCAL_RANGE_MS <= ms <= LOCAL_RANGE_MS ==> exists|t: LocalTime| #[trigger] local_reading(t, ms as int) && h == t.hour,
{
    let t = local_of(ms);
    t.hour
}

/// The hour and minute written as `H:M` (each part trimmed, further parts ignored), when
/// both are numbers of a time of day.
pub open spec fn clock_time(time: Seq<char>) -> Option<(u32, u32)> {
    let parts = split_on(time, ':');
    if parts.len() >= 2 && parse_u32_spec(trim_ws(parts[0])) is Some && parse_u32_spec(
        trim_ws(parts[1]),
    ) is Some {
        let h = parse_u32_spec(trim_ws(parts[0]))->0;
        let m = parse_u32_spec(trim_ws(parts[1]))->0;
        if h <= 23 && m <= 59 {
            Some((h, m))
        } else {
            None
        }
    } else {
        None
    }
}

pub fn parse_clock_time(time: &str) -> (r: Option<(u32, u32)>)
    ensures
        r == clock_time(time@),
{
    let v = chars_of(time);
    let parts = split(&v, ':');
    if parts.len() < 2 {
        return None;
    }
    let hs = trim(&parts[0]);
    let h = match parse_u32(&hs) {
        Some(h) => h,
        None => return None,
    };
    let ms = trim(&parts[1]);
    let m = match parse_u32(&ms) {
        Some(m) => m,
        None => return None,
    };
    if h > 23 || m > 59 {
        return None;
    }
    Some((h, m))
}

/// Today at the time written in `time`; nothing when it is not a time of day, or when
/// that local time does not exist once today.
pub fn parse_time_today(time: &str) -> (r: Option<i64>)
    ensures
        clock_time(time@) is None ==> r is None,
{
    match parse_clock_time(time) {
        Some((h, m)) => {
            let today = local_of(now_ms());
            local_at(today.year, today.month, today.day, h, m)
        },
        None => None,
    }
}

} // verus!
