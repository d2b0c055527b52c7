//! Release checks: version numbers, the release manifest, which update and download
//! addresses may be used, and the percent-encoding of query values.
use vstd::prelude::*;

use crate::text::{char_of_digit, chars_of, dec_digits, digit_char, is_digit, unsigned_body, has_prefix, lemma_split_on_nonempty, parse_u64, parse_u64_spec, push_str, same_text, seq_eq, slice_of, split, split_on, starts_with, str_starts_with, string_from_chars, trim, trim_ws};

verus! {

// ---------------------------------------------------------------------------
// Version numbers
// ---------------------------------------------------------------------------

/// A version `major.minor.patch`, each part an unsigned decimal that fits in `u64`,
/// and nothing more.
pub open spec fn numeric_version(v: Seq<char>) -> Option<(u64, u64, u64)> {
    let parts = split_on(v, '.');
    if parts.len() == 3 && parse_u64_spec(parts[0]) is Some && parse_u64_spec(parts[1]) is Some
        && parse_u64_spec(parts[2]) is Some {
        Some(
            (
                parse_u64_spec(parts[0])->0,
                parse_u64_spec(parts[1])->0,
                parse_u64_spec(parts[2])->0,
            ),
        )
    } else {
        None
    }
}

/// Lexicographic order on version triples.
pub open spec fn triple_gt(a: (u64, u64, u64), b: (u64, u64, u64)) -> bool {
    ||| a.0 > b.0
    ||| (a.0 == b.0 && a.1 > b.1)
    ||| (a.0 == b.0 && a.1 == b.1 && a.2 > b.2)
}

/// Whether `candidate` is a later version than `current`; nothing when either is not a
/// plain `major.minor.patch`.
pub open spec fn newer_version(candidate: Seq<char>, current: Seq<char>) -> Option<bool> {
    match (numeric_version(candidate), numeric_version(current)) {
        (Some(a), Some(b)) => Some(triple_gt(a, b)),
        _ => None,
    }
}

pub fn parse_numeric_version(version: &str) -> (r: Option<(u64, u64, u64)>)
    ensures
        r == numeric_version(version@),
{
    let v = chars_of(version);
    let parts = split(&v, '.');
    if parts.len() != 3 {
        return None;
    }
    let major = match parse_u64(&parts[0]) {
        Some(x) => x,
        None => return None,
    };
    let minor = match parse_u64(&parts[1]) {
        Some(x) => x,
        None => return None,
    };
    let patch = match parse_u64(&parts[2]) {
        Some(x) => x,
        None => return None,
    };
    Some((major, minor, patch))
}

pub fn version_is_newer(candidate: &str, current: &str) -> (r: Option<bool>)
    ensures
        r == newer_version(candidate@, current@),
{
    let a = match parse_numeric_version(candidate) {
        Some(x) => x,
        None => return None,
    };
    let b = match parse_numeric_version(current) {
        Some(x) => x,
        None => return None,
    };
    Some(a.0 > b.0 || (a.0 == b.0 && a.1 > b.1) || (a.0 == b.0 && a.1 == b.1 && a.2 > b.2))
}

/// Whether a freshly fetched catalogue version is announced: only when it is later than
/// the running version and was not announced before.
pub fn should_announce_version(version: &str, current: &str, announced: &Vec<String>) -> (r: bool)
    ensures
        r == (newer_version(version@, current@) == Some(true) && !(exists|i: int|
            0 <= i < announced@.len() && (#[trigger] announced@[i])@ == version@)),
{
    if version_is_newer(version, current) != Some(true) {
        return false;
    }
    let mut i: usize = 0;
    while i < announced.len()
        invariant
            i <= announced@.len(),
            forall|j: int| 0 <= j < i ==> (#[trigger] announced@[j])@ != version@,
        decreases announced@.len() - i,
    {
        if same_text(announced[i].as_str(), version) {
            return false;
        }
        i = i + 1;
    }
    true
}

/// No text occurs twice in the list.
pub open spec fn no_repeats(v: Seq<String>) -> bool {
    forall|i: int, j: int| 0 <= i < j < v.len() ==> (#[trigger] v[i])@ != (#[trigger] v[j])@
}

/// Announces a freshly fetched catalogue version when it is later than the running one
/// and was not announced before, recording it; whether it is announced. The list of
/// announced versions never holds a version twice.
pub fn announce_version(announced: &mut Vec<String>, version: &str, current: &str) -> (r: bool)
    ensures
        r == (newer_version(version@, current@) == Some(true) && !(exists|i: int|
            0 <= i < old(announced)@.len() && (#[trigger] old(announced)@[i])@ == version@)),
        r ==> final(announced)@.len() == old(announced)@.len() + 1 && final(announced)@.drop_last()
            == old(announced)@ && final(announced)@.last()@ == version@,
        !r ==> final(announced)@ == old(announced)@,
        no_repeats(old(announced)@) ==> no_repeats(final(announced)@),
{
    let r = should_announce_version(version, current, announced);
    if r {
        let ghost before = announced@;
        announced.push(String::from_str(version));
        proof {
            assert(announced@.drop_last() =~= before);
            assert forall|i: int, j: int| 0 <= i < j < announced@.len() && no_repeats(before) implies (#[trigger] announced@[i])@
                != (#[trigger] announced@[j])@ by {
                if j == before.len() {
                    assert(announced@[i] == before[i]);
                } else {
                    assert(announced@[i] == before[i]);
                    assert(announced@[j] == before[j]);
                }
            }
        }
    }
    r
}

/// What the release catalogue says of one worker: its code and its version (each absent
/// when missing or not a string).
pub struct WorkerFields {
    pub code: Option<String>,
    pub version: Option<String>,
}

/// The version of the first worker whose code is `max_alert`; nothing when there is none,
/// or when that worker gives no version.
pub open spec fn catalogue_version(ws: Seq<WorkerFields>) -> Option<Seq<char>>
    decreases ws.len(),
{
    if ws.len() == 0 {
        None
    } else if ws[0].code matches Some(c) && c@ == "max_alert"@ {
        crate::text::opt_text(ws[0].version)
    } else {
        catalogue_version(ws.drop_first())
    }
}

pub fn latest_worker_version(ws: &Vec<WorkerFields>) -> (r: Option<String>)
    ensures
        crate::text::opt_text(r) == catalogue_version(ws@),
{
    let mut i: usize = 0;
    assert(ws@.skip(0) =~= ws@);
    while i < ws.len()
        invariant
            i <= ws@.len(),
            catalogue_version(ws@) == catalogue_version(ws@.skip(i as int)),
        decreases ws@.len() - i,
    {
        assert(ws@.skip(i as int).drop_first() =~= ws@.skip(i + 1));
        assert(ws@.skip(i as int)[0] == ws@[i as int]);
        let hit = match &ws[i].code {
            Some(c) => same_text(c.as_str(), "max_alert"),
            None => false,
        };
        if hit {
            return match &ws[i].version {
                Some(v) => Some(v.clone()),
                None => None,
            };
        }
        i = i + 1;
    }
    None
}

/// Seconds before the first look for an update, and between looks: short when an update
/// address is given for testing.
pub open spec fn poll_delays_of(test_mode: bool) -> (u64, u64) {
    if test_mode {
        (15, 60)
    } else {
        (300, 21600)
    }
}

pub fn update_poll_delays(test_mode: bool) -> (r: (u64, u64))
    ensures
        r == poll_delays_of(test_mode),
{
    if test_mode {
        (15, 60)
    } else {
        (300, 21600)
    }
}

/// Seconds until the next look: ten minutes when the last one gave way to a siren (unless
/// testing), the usual interval otherwise.
pub fn next_update_delay(postponed: bool, test_mode: bool) -> (r: u64)
    ensures
        r == if postponed && !test_mode { 600 } else { poll_delays_of(test_mode).1 },
{
    if postponed && !test_mode {
        600
    } else {
        update_poll_delays(test_mode).1
    }
}

// ---------------------------------------------------------------------------
// Addresses
// ---------------------------------------------------------------------------

/// `url` is `base` followed by nothing, a port, a path, a query or a fragment: the host
/// of `base` is the whole host of `url`.
pub open spec fn host_is(url: Seq<char>, base: Seq<char>) -> bool {
    has_prefix(url, base) && {
        let rest = url.skip(base.len() as int);
        rest.len() == 0 || rest[0] == ':' || rest[0] == '/' || rest[0] == '?' || rest[0] == '#'
    }
}

/// Every `https` address, and plain `http` only to the loopback host (so that an address
/// given to test updates cannot point at a remote plain-`http` server).
pub open spec fn update_url_ok(url: Seq<char>) -> bool {
    ||| has_prefix(url, "https://"@)
    ||| host_is(url, "http://127.0.0.1"@)
    ||| host_is(url, "http://localhost"@)
}

/// Whether `u` is `base` followed by nothing or one of `:`, `/`, `?`, `#`.
fn on_host(u: &Vec<char>, base: &str) -> (r: bool)
    ensures
        r == host_is(u@, base@),
{
    let b = chars_of(base);
    if !starts_with(u, &b) {
        return false;
    }
    let k = b.len();
    if u.len() == k {
        return true;
    }
    let c = u[k];
    assert(u@.skip(k as int)[0] == c);
    c == ':' || c == '/' || c == '?' || c == '#'
}

pub fn update_url_allowed(url: &str) -> (r: bool)
    ensures
        r == update_url_ok(url@),
{
    let u = chars_of(url);
    str_starts_with(url, "https://") || on_host(&u, "http://127.0.0.1") || on_host(&u, "http://localhost")
}

/// The download page that may be opened in the browser.
pub open spec fn download_site() -> Seq<char> {
    "https://lounge.aimax.ai.kr"@
}

/// An address on the download site itself: the site, then nothing, a path, a query or a
/// fragment (so that a longer host name that merely begins the same way is refused).
pub open spec fn external_url_ok(url: Seq<char>) -> bool {
    has_prefix(url, download_site()) && {
        let rest = url.skip(download_site().len() as int);
        rest.len() == 0 || rest[0] == '/' || rest[0] == '?' || rest[0] == '#'
    }
}

pub fn external_url_allowed(url: &str) -> (r: bool)
    ensures
        r == external_url_ok(url@),
{
    let u = chars_of(url);
    let site = chars_of("https://lounge.aimax.ai.kr");
    if !starts_with(&u, &site) {
        return false;
    }
    let k = site.len();
    if u.len() == k {
        return true;
    }
    let c = u[k];
    c == '/' || c == '?' || c == '#'
}

/// The last index of `c` in `s`, if any.
pub open spec fn last_index_of(s: Seq<char>, c: char) -> Option<int>
    decreases s.len(),
{
    if s.len() == 0 {
        None
    } else if s.last() == c {
        Some(s.len() - 1)
    } else {
        last_index_of(s.drop_last(), c)
    }
}

proof fn lemma_last_index_of_bounds(s: Seq<char>, c: char)
    ensures
        last_index_of(s, c) matches Some(i) ==> 0 <= i < s.len() && s[i] == c,
    decreases s.len(),
{
    if s.len() > 0 && s.last() != c {
        lemma_last_index_of_bounds(s.drop_last(), c);
    }
}

/// The address of `file` in the same directory as `manifest_url`.
pub open spec fn sibling_of(manifest_url: Seq<char>, file: Seq<char>) -> Option<Seq<char>> {
    match last_index_of(manifest_url, '/') {
        Some(i) => Some(manifest_url.take(i) + seq!['/'] + file),
        None => None,
    }
}

pub fn sibling_url(manifest_url: &str, file: &str) -> (r: Option<String>)
    ensures
        r matches Some(s) ==> sibling_of(manifest_url@, file@) == Some(s@),
        r is None <==> sibling_of(manifest_url@, file@) is None,
{
    let u = chars_of(manifest_url);
    let mut i: usize = u.len();
    assert(u@.take(u@.len() as int) =~= u@);
    while i > 0 && u[i - 1] != '/'
        invariant
            i <= u@.len(),
            last_index_of(u@, '/') == last_index_of(u@.take(i as int), '/'),
        decreases i,
    {
        assert(u@.take(i as int).drop_last() =~= u@.take(i - 1));
        i = i - 1;
    }
    if i == 0 {
        assert(u@.take(0) =~= Seq::<char>::empty());
        return None;
    }
    assert(u@.take(i as int).last() == '/');
    let mut out: Vec<char> = Vec::new();
    let mut j: usize = 0;
    while j < i - 1
        invariant
            j <= i - 1,
            i <= u@.len(),
            out@ == u@.take(j as int),
        decreases i - 1 - j,
    {
        out.push(u[j]);
        j = j + 1;
        assert(u@.take(j as int) =~= u@.take(j - 1).push(u@[j - 1]));
    }
    out.push('/');
    push_str(&mut out, file);
    Some(string_from_chars(&out))
}

// ---------------------------------------------------------------------------
// Release manifest (the top-level keys of an electron-builder `latest.yml`)
// ---------------------------------------------------------------------------

/// The version, installer file name and base64 SHA-512 of a release.
#[derive(Debug, PartialEq, Eq)]
pub struct UpdateManifest {
    pub version: String,
    pub path: String,
    pub sha512_b64: String,
}

/// `str::lines`: pieces between `\n`, a `\r` before a `\n` removed, and no empty piece
/// after a final `\n`.
pub open spec fn text_lines(s: Seq<char>) -> Seq<Seq<char>> {
    let parts = split_on(s, '\n');
    let body = parts.drop_last().map_values(|p: Seq<char>| strip_cr(p));
    if parts.last().len() == 0 {
        body
    } else {
        body.push(parts.last())
    }
}

/// A line without its final `\r`.
pub open spec fn strip_cr(p: Seq<char>) -> Seq<char> {
    if p.len() > 0 && p.last() == '\r' {
        p.drop_last()
    } else {
        p
    }
}

/// The number of leading characters of `s` equal to `c`.
pub open spec fn lead_count(s: Seq<char>, c: char) -> nat
    decreases s.len(),
{
    if s.len() > 0 && s[0] == c {
        1 + lead_count(s.drop_first(), c)
    } else {
        0
    }
}

/// The number of trailing characters of `s` equal to `c`.
pub open spec fn trail_count(s: Seq<char>, c: char) -> nat
    decreases s.len(),
{
    if s.len() > 0 && s.last() == c {
        1 + trail_count(s.drop_last(), c)
    } else {
        0
    }
}

/// `str::trim_matches(c)`.
pub open spec fn trim_char(s: Seq<char>, c: char) -> Seq<char> {
    let t = s.skip(lead_count(s, c) as int);
    t.take(t.len() - trail_count(t, c))
}

/// The first index of `c` in `s`, if any.
pub open spec fn first_index_of(s: Seq<char>, c: char) -> Option<int>
    decreases s.len(),
{
    if s.len() == 0 {
        None
    } else {
        match first_index_of(s.drop_last(), c) {
            Some(i) => Some(i),
            None => if s.last() == c {
                Some(s.len() - 1)
            } else {
                None
            },
        }
    }
}

/// What a manifest line sets: `(key, value)` for a top-level `key: value` line with a
/// value that is not empty once trimmed and unquoted.
pub open spec fn manifest_entry(line: Seq<char>) -> Option<(Seq<char>, Seq<char>)> {
    if line.len() > 0 && (line[0] == ' ' || line[0] == '\t' || line[0] == '-') {
        None
    } else {
        match first_index_of(line, ':') {
            None => None,
            Some(i) => {
                let value = trim_char(trim_char(trim_ws(line.skip(i + 1)), '\''), '"');
                if value.len() == 0 {
                    None
                } else {
                    Some((trim_ws(line.take(i)), value))
                }
            },
        }
    }
}

/// The values of `version`, `path` and `sha512` after the given lines, the last one of
/// each winning.
pub open spec fn manifest_scan(lines: Seq<Seq<char>>) -> (
    Option<Seq<char>>,
    Option<Seq<char>>,
    Option<Seq<char>>,
)
    decreases lines.len(),
{
    if lines.len() == 0 {
        (None, None, None)
    } else {
        let st = manifest_scan(lines.drop_last());
        match manifest_entry(lines.last()) {
            None => st,
            Some((k, v)) => if k == "version"@ {
                (Some(v), st.1, st.2)
            } else if k == "path"@ {
                (st.0, Some(v), st.2)
            } else if k == "sha512"@ {
                (st.0, st.1, Some(v))
            } else {
                st
            },
        }
    }
}

/// The manifest read from `text`: present when all three keys are.
pub open spec fn manifest_of(text: Seq<char>) -> Option<(Seq<char>, Seq<char>, Seq<char>)> {
    let st = manifest_scan(text_lines(text));
    match st {
        (Some(v), Some(p), Some(h)) => Some((v, p, h)),
        _ => None,
    }
}

fn lines_of(v: &Vec<char>) -> (r: Vec<Vec<char>>)
    ensures
        r@.len() == text_lines(v@).len(),
        forall|i: int| 0 <= i < r@.len() ==> #[trigger] r@[i]@ == text_lines(v@)[i],
{
    let parts = split(v, '\n');
    proof {
        lemma_split_on_nonempty(v@, '\n');
    }
    let ghost sp = split_on(v@, '\n');
    let ghost body = sp.drop_last().map_values(|p: Seq<char>| strip_cr(p));
    let n = parts.len();
    let mut out: Vec<Vec<char>> = Vec::new();
    let mut i: usize = 0;
    while i + 1 < n
        invariant
            n == sp.len(),
            n >= 1,
            i + 1 <= n,
            parts@.len() == n,
            forall|j: int| 0 <= j < n ==> #[trigger] parts@[j]@ == sp[j],
            body == sp.drop_last().map_values(|p: Seq<char>| strip_cr(p)),
            out@.len() == i,
            forall|j: int| 0 <= j < i ==> #[trigger] out@[j]@ == body[j],
        decreases n - i,
    {
        let p = &parts[i];
        let mut q: Vec<char> = p.clone();
        if q.len() > 0 && q[q.len() - 1] == '\r' {
            q.pop();
        }
        assert(q@ == strip_cr(sp[i as int])) by {
            assert(p@ == sp[i as int]);
            if p@.len() > 0 && p@.last() == '\r' {
                assert(q@ =~= p@.drop_last());
            } else {
                assert(q@ =~= p@);
            }
        }
        out.push(q);
        i = i + 1;
    }
    let last = &parts[n - 1];
    if last.len() > 0 {
        out.push(last.clone());
        assert(last@ == sp.last());
    }
    proof {
        let tl = text_lines(v@);
        if sp.last().len() == 0 {
            assert(tl == body);
        } else {
            assert(tl == body.push(sp.last()));
            assert(out@[i as int]@ == sp.last());
        }
    }
    out
}

/// `str::trim_matches(c)`.
pub fn trim_matching(s: &Vec<char>, c: char) -> (r: Vec<char>)
    ensures
        r@ == trim_char(s@, c),
{
    let n = s.len();
    let mut a: usize = 0;
    assert(s@.skip(0) =~= s@);
    while a < n && s[a] == c
        invariant
            n == s@.len(),
            a <= n,
            lead_count(s@, c) == a + lead_count(s@.skip(a as int), c),
        decreases n - a,
    {
        assert(s@.skip(a as int).drop_first() =~= s@.skip(a + 1));
        a = a + 1;
    }
    let ghost t = s@.skip(a as int);
    let mut b: usize = n;
    assert(t.take(n - a) =~= t);
    while b > a && s[b - 1] == c
        invariant
            n == s@.len(),
            a <= b <= n,
            t == s@.skip(a as int),
            trail_count(t, c) == (n - b) + trail_count(t.take(b - a), c),
        decreases b - a,
    {
        assert(t.take(b - a).drop_last() =~= t.take(b - a - 1));
        b = b - 1;
    }
    let mut r: Vec<char> = Vec::new();
    let mut i: usize = a;
    while i < b
        invariant
            a <= i <= b <= n,
            n == s@.len(),
            r@ == s@.subrange(a as int, i as int),
        decreases b - i,
    {
        r.push(s[i]);
        i = i + 1;
        assert(s@.subrange(a as int, i as int) =~= s@.subrange(a as int, i - 1).push(s@[i - 1]));
    }
    assert(r@ =~= trim_char(s@, c));
    r
}

proof fn lemma_first_index_of(s: Seq<char>, c: char, k: int)
    requires
        0 <= k <= s.len(),
        forall|j: int| 0 <= j < k ==> s[j] != c,
    ensures
        k < s.len() && s[k] == c ==> first_index_of(s.take(k + 1), c) == Some(k),
        first_index_of(s.take(k), c) is None,
    decreases k,
{
    if k > 0 {
        lemma_first_index_of(s, c, k - 1);
        assert(s.take(k).drop_last() =~= s.take(k - 1));
    }
    if k < s.len() {
        assert(s.take(k + 1).drop_last() =~= s.take(k));
    }
}

proof fn lemma_first_index_extend(s: Seq<char>, c: char, k: int, m: int)
    requires
        0 <= k < m <= s.len(),
        first_index_of(s.take(k + 1), c) == Some(k),
    ensures
        first_index_of(s.take(m), c) == Some(k),
    decreases m - k,
{
    if m > k + 1 {
        lemma_first_index_extend(s, c, k, m - 1);
        assert(s.take(m).drop_last() =~= s.take(m - 1));
    }
}

/// The index of the first `c` in `s`.
fn find_char(s: &Vec<char>, c: char) -> (r: Option<usize>)
    ensures
        r matches Some(i) ==> first_index_of(s@, c) == Some(i as int) && i < s@.len(),
        r is None ==> first_index_of(s@, c) is None,
{
    let mut i: usize = 0;
    while i < s.len()
        invariant
            i <= s@.len(),
            forall|j: int| 0 <= j < i ==> s@[j] != c,
        decreases s@.len() - i,
    {
        if s[i] == c {
            proof {
                lemma_first_index_of(s@, c, i as int);
                lemma_first_index_extend(s@, c, i as int, s@.len() as int);
                assert(s@.take(s@.len() as int) =~= s@);
            }
            return Some(i);
        }
        i = i + 1;
    }
    proof {
        lemma_first_index_of(s@, c, s@.len() as int);
        assert(s@.take(s@.len() as int) =~= s@);
    }
    None
}

fn manifest_entry_of(line: &Vec<char>) -> (r: Option<(Vec<char>, Vec<char>)>)
    ensures
        r matches Some(kv) ==> manifest_entry(line@) == Some((kv.0@, kv.1@)),
        r is None ==> manifest_entry(line@) is None,
{
    if line.len() > 0 && (line[0] == ' ' || line[0] == '\t' || line[0] == '-') {
        return None;
    }
    let i = match find_char(line, ':') {
        Some(i) => i,
        None => return None,
    };
    let raw_value = slice_of(line, i + 1, line.len());
    assert(raw_value@ =~= line@.skip(i + 1));
    let v1 = trim(&raw_value);
    let v2 = trim_matching(&v1, '\'');
    let value = trim_matching(&v2, '"');
    if value.len() == 0 {
        return None;
    }
    let raw_key = slice_of(line, 0, i);
    assert(raw_key@ =~= line@.take(i as int));
    let key = trim(&raw_key);
    Some((key, value))
}

/// Reads the top-level `version`, `path` and `sha512` of a release manifest; lines that
/// are indented or list items are skipped.
pub fn parse_update_manifest(text: &str) -> (r: Option<UpdateManifest>)
    ensures
        r matches Some(m) ==> manifest_of(text@) == Some((m.version@, m.path@, m.sha512_b64@)),
        r is None <==> manifest_of(text@) is None,
{
    let v = chars_of(text);
    let lines = lines_of(&v);
    let ghost ls = text_lines(v@);
    let k_version = chars_of("version");
    let k_path = chars_of("path");
    let k_sha = chars_of("sha512");
    let mut version: Option<Vec<char>> = None;
    let mut path: Option<Vec<char>> = None;
    let mut sha512: Option<Vec<char>> = None;
    let mut i: usize = 0;
    while i < lines.len()
        invariant
            i <= lines@.len(),
            lines@.len() == ls.len(),
            forall|j: int| 0 <= j < lines@.len() ==> #[trigger] lines@[j]@ == ls[j],
            k_version@ == "version"@,
            k_path@ == "path"@,
            k_sha@ == "sha512"@,
            ({
                let st = manifest_scan(ls.take(i as int));
                &&& (version matches Some(x) ==> st.0 == Some(x@))
                &&& (version is None <==> st.0 is None)
                &&& (path matches Some(x) ==> st.1 == Some(x@))
                &&& (path is None <==> st.1 is None)
                &&& (sha512 matches Some(x) ==> st.2 == Some(x@))
                &&& (sha512 is None <==> st.2 is None)
            }),
        decreases lines@.len() - i,
    {
        assert(ls.take(i + 1).drop_last() =~= ls.take(i as int));
        assert(ls.take(i + 1).last() == lines@[i as int]@);
        match manifest_entry_of(&lines[i]) {
            None => {},
            Some((k, val)) => {
                if seq_eq(&k, &k_version) {
                    version = Some(val);
                } else if seq_eq(&k, &k_path) {
                    path = Some(val);
                } else if seq_eq(&k, &k_sha) {
                    sha512 = Some(val);
                }
            },
        }
        i = i + 1;
    }
    assert(ls.take(lines@.len() as int) =~= ls);
    match (version, path, sha512) {
        (Some(a), Some(b), Some(c)) => Some(
            UpdateManifest {
                version: string_from_chars(&a),
                path: string_from_chars(&b),
                sha512_b64: string_from_chars(&c),
            },
        ),
        _ => None,
    }
}

/// `%XX` with upper-case hexadecimal digits.
pub open spec fn hex_upper(d: nat) -> char {
    if d < 10 {
        digit_char(d)
    } else {
        (((d - 10) + 'A' as nat) as u32) as char
    }
}

/// Bytes kept as they are by the query-string encoding.
pub open spec fn url_unreserved(b: u8) -> bool {
    ||| (48 <= b && b <= 57)
    ||| (65 <= b && b <= 90)
    ||| (97 <= b && b <= 122)
    ||| b == 45
    ||| b == 95
    ||| b == 46
    ||| b == 126
}

pub open spec fn url_encode_byte(b: u8) -> Seq<char> {
    if url_unreserved(b) {
        seq![(b as u32) as char]
    } else {
        seq!['%', hex_upper((b / 16) as nat), hex_upper((b % 16) as nat)]
    }
}

/// The percent-encoding of a byte string.
pub open spec fn url_encode_bytes(bs: Seq<u8>) -> Seq<char>
    decreases bs.len(),
{
    if bs.len() == 0 {
        Seq::empty()
    } else {
        url_encode_bytes(bs.drop_last()) + url_encode_byte(bs.last())
    }
}

fn hex_digit_upper(d: u8) -> (c: char)
    requires
        d < 16,
    ensures
        c == hex_upper(d as nat),
{
    if d < 10 {
        let c = char_of_digit(d as u32);
        c
    } else if d == 10 {
        'A'
    } else if d == 11 {
        'B'
    } else if d == 12 {
        'C'
    } else if d == 13 {
        'D'
    } else if d == 14 {
        'E'
    } else {
        'F'
    }
}


/// The value of a hexadecimal digit (either case); 0 for any other character.
pub open spec fn hex_value(c: char) -> int {
    if '0' <= c && c <= '9' {
        c as int - '0' as int
    } else if 'A' <= c && c <= 'F' {
        c as int - 'A' as int + 10
    } else if 'a' <= c && c <= 'f' {
        c as int - 'a' as int + 10
    } else {
        0
    }
}

/// Percent-decoding: `%` and two hexadecimal digits give that byte, any other character
/// its own code.
pub open spec fn url_decode(s: Seq<char>) -> Seq<u8>
    decreases s.len(),
{
    if s.len() == 0 {
        Seq::empty()
    } else if s[0] == '%' && s.len() >= 3 {
        seq![(hex_value(s[1]) * 16 + hex_value(s[2])) as u8] + url_decode(s.skip(3))
    } else {
        seq![s[0] as u8] + url_decode(s.skip(1))
    }
}

proof fn lemma_url_encode_concat(a: Seq<u8>, b: Seq<u8>)
    ensures
        url_encode_bytes(a + b) == url_encode_bytes(a) + url_encode_bytes(b),
    decreases b.len(),
{
    if b.len() == 0 {
        assert(a + b =~= a);
        assert(url_encode_bytes(a) + url_encode_bytes(b) =~= url_encode_bytes(a));
    } else {
        lemma_url_encode_concat(a, b.drop_last());
        assert((a + b).drop_last() =~= a + b.drop_last());
        assert((a + b).last() == b.last());
        assert(url_encode_bytes(a) + url_encode_bytes(b.drop_last()) + url_encode_byte(b.last())
            =~= url_encode_bytes(a) + url_encode_bytes(b));
    }
}

proof fn lemma_hex_round_trip(d: nat)
    requires
        d < 16,
    ensures
        hex_value(hex_upper(d)) == d,
        hex_upper(d) != '%',
{
}

proof fn lemma_url_decode_byte(b: u8, x: Seq<char>)
    ensures
        url_decode(url_encode_byte(b) + x) == seq![b] + url_decode(x),
{
    let e = url_encode_byte(b) + x;
    if url_unreserved(b) {
        assert(e[0] == (b as u32) as char);
        assert(e.skip(1) =~= x);
        assert(e[0] != '%');
        assert((e[0] as u8) == b);
    } else {
        lemma_hex_round_trip((b / 16) as nat);
        lemma_hex_round_trip((b % 16) as nat);
        assert(e[0] == '%');
        assert(e[1] == hex_upper((b / 16) as nat));
        assert(e[2] == hex_upper((b % 16) as nat));
        assert(e.skip(3) =~= x);
        assert((b / 16) * 16 + b % 16 == b);
    }
}

/// `urlencode` writes only ASCII characters.
pub proof fn lemma_url_encode_ascii(bs: Seq<u8>)
    ensures
        forall|i: int| 0 <= i < url_encode_bytes(bs).len() ==> (#[trigger] url_encode_bytes(bs)[i] as int) < 128,
    decreases bs.len(),
{
    if bs.len() > 0 {
        lemma_url_encode_ascii(bs.drop_last());
        let p = url_encode_bytes(bs.drop_last());
        let e = url_encode_byte(bs.last());
        lemma_hex_round_trip((bs.last() / 16) as nat);
        lemma_hex_round_trip((bs.last() % 16) as nat);
        assert forall|i: int| 0 <= i < e.len() implies (#[trigger] e[i] as int) < 128 by {
            if !url_unreserved(bs.last()) && i > 0 {
                let d: nat = if i == 1 { (bs.last() / 16) as nat } else { (bs.last() % 16) as nat };
                assert(e[i] == hex_upper(d));
            }
        }
        assert forall|i: int| 0 <= i < url_encode_bytes(bs).len() implies (#[trigger] url_encode_bytes(bs)[i] as int) < 128 by {
            if i < p.len() {
                assert(url_encode_bytes(bs)[i] == p[i]);
            } else {
                assert(url_encode_bytes(bs)[i] == e[i - p.len()]);
            }
        }
    }
}

/// Percent-decoding what `urlencode` writes gives the bytes back.
pub proof fn lemma_url_encode_round_trip(bs: Seq<u8>)
    ensures
        url_decode(url_encode_bytes(bs)) == bs,
    decreases bs.len(),
{
    if bs.len() > 0 {
        let rest = bs.skip(1);
        lemma_url_encode_round_trip(rest);
        assert(bs =~= seq![bs[0]] + rest);
        lemma_url_encode_concat(seq![bs[0]], rest);
        let one = seq![bs[0]];
        assert(one.drop_last() =~= Seq::<u8>::empty());
        assert(one.last() == bs[0]);
        assert(url_encode_bytes(one) == url_encode_bytes(one.drop_last()) + url_encode_byte(one.last()));
        assert(url_encode_bytes(Seq::<u8>::empty()) == Seq::<char>::empty());
        assert(url_encode_bytes(one) =~= url_encode_byte(bs[0]));
        lemma_url_decode_byte(bs[0], url_encode_bytes(rest));
        assert(seq![bs[0]] + rest =~= bs);
    }
}

/// Percent-encodes the UTF-8 bytes of `s` for a query string: ASCII letters, digits and
/// `-_.~` stay, every other byte becomes `%XX`.
pub fn urlencode(s: &str) -> (r: String)
    ensures
        r@ == url_encode_bytes(vstd::utf8::encode_utf8(s@)),
{
    let bytes = s.as_bytes();
    let mut out: Vec<char> = Vec::new();
    let mut i: usize = 0;
    while i < bytes.len()
        invariant
            i <= bytes@.len(),
            bytes@ == vstd::utf8::encode_utf8(s@),
            out@ == url_encode_bytes(bytes@.take(i as int)),
        decreases bytes@.len() - i,
    {
        let b = bytes[i];
        assert(bytes@.take(i + 1).drop_last() =~= bytes@.take(i as int));
        if (48 <= b && b <= 57) || (65 <= b && b <= 90) || (97 <= b && b <= 122) || b == 45 || b
            == 95 || b == 46 || b == 126 {
            out.push(b as char);
            assert(out@ =~= url_encode_bytes(bytes@.take(i + 1)));
        } else {
            out.push('%');
            out.push(hex_digit_upper(b / 16));
            out.push(hex_digit_upper(b % 16));
            assert(out@ =~= url_encode_bytes(bytes@.take(i + 1)));
        }
        i = i + 1;
    }
    assert(bytes@.take(bytes@.len() as int) =~= bytes@);
    string_from_chars(&out)
}


/// A version is never newer than itself, and of two versions at most one is newer.
pub proof fn lemma_version_order(a: Seq<char>, b: Seq<char>)
    ensures
        numeric_version(a) is Some ==> newer_version(a, a) == Some(false),
        newer_version(a, b) == Some(true) ==> newer_version(b, a) == Some(false),
        newer_version(a, b) is Some <==> newer_version(b, a) is Some,
{
}

/// Three numbers written `a.b.c` read back as those numbers.
pub proof fn lemma_version_text_round_trip(a: u64, b: u64, c: u64)
    ensures
        numeric_version(dec_digits(a as nat) + "."@ + dec_digits(b as nat) + "."@ + dec_digits(c as nat)) == Some(
            (a, b, c),
        ),
{
    reveal_strlit(".");
    crate::text::lemma_dec_digits_value(a as nat);
    crate::text::lemma_dec_digits_value(b as nat);
    crate::text::lemma_dec_digits_value(c as nat);
    let (x, y, z) = (dec_digits(a as nat), dec_digits(b as nat), dec_digits(c as nat));
    assert forall|i: int| 0 <= i < x.len() implies x[i] != '.' by {
        assert(is_digit(x[i]));
    }
    assert forall|i: int| 0 <= i < y.len() implies y[i] != '.' by {
        assert(is_digit(y[i]));
    }
    assert forall|i: int| 0 <= i < z.len() implies z[i] != '.' by {
        assert(is_digit(z[i]));
    }
    crate::text::lemma_split_three(x, y, z, '.');
    assert(x + "."@ + y + "."@ + z =~= x + seq!['.'] + y + seq!['.'] + z);
    assert(!is_digit('+'));
    assert(unsigned_body(x) == x);
    assert(unsigned_body(y) == y);
    assert(unsigned_body(z) == z);
}

/// Every `https` address may serve updates; plain `http` only the loopback host.
pub proof fn lemma_https_always_allowed(url: Seq<char>)
    ensures
        has_prefix(url, "https://"@) ==> update_url_ok(url),
        has_prefix(url, "http://"@) && !host_is(url, "http://127.0.0.1"@) && !host_is(url, "http://localhost"@)
            ==> !update_url_ok(url),
{
    reveal_strlit("https://");
    reveal_strlit("http://");
    if has_prefix(url, "http://"@) && has_prefix(url, "https://"@) {
        assert(url.take(7)[4] == url[4]);
        assert(url.take(8)[4] == url[4]);
        assert(false);
    }
}

} // verus!
