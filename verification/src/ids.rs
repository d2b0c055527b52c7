//! Short random suffixes for new to-do ids, window labels and monitor keys.
use vstd::prelude::*;

use std::hash::{Hash, Hasher};

use crate::text::{chars_of, i64_text, int_text, push_all, string_from_chars};

verus! {

/// The digits of the id suffixes.
pub open spec fn base36_digit(d: int) -> char {
    if d < 10 {
        (('0' as int) + d) as char
    } else {
        (('a' as int) + d - 10) as char
    }
}

/// Four base-36 digits of `v`, least significant first.
pub open spec fn base36_suffix(v: u64) -> Seq<char> {
    Seq::new(4, |i: int| base36_digit(((v as int) / pow36(i)) % 36))
}

pub open spec fn pow36(i: int) -> int
    decreases i,
{
    if i <= 0 {
        1
    } else {
        36 * pow36(i - 1)
    }
}

proof fn lemma_pow36_pos(i: int)
    ensures
        pow36(i) > 0,
    decreases i,
{
    if i > 0 {
        lemma_pow36_pos(i - 1);
    }
}

/// The value a suffix is drawn from: the clock's nanoseconds mixed with a counter.
pub open spec fn suffix_seed(nanos: u64, counter: u64) -> u64 {
    nanos ^ (((counter as nat) * 2_654_435_761) % 0x1_0000_0000_0000_0000) as u64
}

fn base36_char(d: u64) -> (c: char)
    requires
        d < 36,
    ensures
        c == base36_digit(d as int),
{
    let alphabet: [char; 36] = [
        '0', '1', '2', '3', '4', '5', '6', '7', '8', '9', 'a', 'b', 'c', 'd', 'e', 'f', 'g', 'h',
        'i', 'j', 'k', 'l', 'm', 'n', 'o', 'p', 'q', 'r', 's', 't', 'u', 'v', 'w', 'x', 'y', 'z',
    ];
    let c = alphabet[d as usize];
    assert(c == base36_digit(d as int)) by {
        assert(alphabet@[d as int] == c);
    }
    c
}

/// A suffix of four base-36 digits for a new id, from the clock's nanoseconds and a
/// counter that the caller advances on every call.
pub fn random_suffix(nanos: u64, counter: u64) -> (s: String)
    ensures
        s@ == base36_suffix(suffix_seed(nanos, counter)),
{
    let seed = nanos ^ counter.wrapping_mul(2_654_435_761);
    let mut v = seed;
    let mut out: Vec<char> = Vec::new();
    let mut i: usize = 0;
    while i < 4
        invariant
            i <= 4,
            out@.len() == i,
            v as int == (seed as int) / pow36(i as int),
            forall|j: int| 0 <= j < i ==> out@[j] == base36_digit(((seed as int) / pow36(j)) % 36),
        decreases 4 - i,
    {
        out.push(base36_char(v % 36));
        proof {
            lemma_pow36_pos(i as int);
            lemma_div_div(seed as int, pow36(i as int), 36);
        }
        v = v / 36;
        i = i + 1;
    }
    assert(out@ =~= base36_suffix(seed));
    string_from_chars(&out)
}

proof fn lemma_div_div(x: int, a: int, b: int)
    requires
        x >= 0,
        a > 0,
        b > 0,
    ensures
        (x / a) / b == x / (b * a),
{
    vstd::arithmetic::div_mod::lemma_div_denominator(x, a, b);
    assert(a * b == b * a) by (nonlinear_arith);
}

/// The nanoseconds within the current second of the system clock
/// (`std::time::SystemTime::now`, `Duration::subsec_nanos`); zero when the clock is before
/// 1970. Less than a billion, as `subsec_nanos` documents; which value, nothing states.
#[verifier::external_body]
pub fn clock_nanos() -> (n: u64)
    ensures
        n < 1_000_000_000,
{
    std::time::SystemTime::now()
        .duration_since(std::time::UNIX_EPOCH)
        .map(|d| d.subsec_nanos() as u64)
        .unwrap_or(0)
}

/// The hash that `std::collections::hash_map::DefaultHasher::new()` gives a string.
pub uninterp spec fn default_str_hash(s: Seq<char>) -> u64;

/// Hashes a string with a fresh `DefaultHasher` (`Hash for str`, then `Hasher::finish`).
/// A fresh `DefaultHasher` is the same in every process, so the hash depends on the
/// string alone.
#[verifier::external_body]
fn str_hash(s: &str) -> (h: u64)
    ensures
        h == default_str_hash(s@),
{
    let mut hasher = std::collections::hash_map::DefaultHasher::new();
    s.hash(&mut hasher);
    hasher.finish()
}

/// A lower-case hexadecimal digit.
pub open spec fn hex_lower(d: int) -> char {
    base36_digit(d)
}

/// Sixteen lower-case hexadecimal digits of `v`, most significant first (`{:016x}`).
pub open spec fn hex16(v: u64) -> Seq<char> {
    Seq::new(16, |i: int| hex_lower(((v as int) / pow16(15 - i)) % 16))
}

pub open spec fn pow16(i: int) -> int
    decreases i,
{
    if i <= 0 {
        1
    } else {
        16 * pow16(i - 1)
    }
}

proof fn lemma_pow16_pos(i: int)
    ensures
        pow16(i) > 0,
    decreases i,
{
    if i > 0 {
        lemma_pow16_pos(i - 1);
    }
}

fn hex16_of(v: u64) -> (r: Vec<char>)
    ensures
        r@ == hex16(v),
{
    let mut digits: Vec<char> = Vec::new();
    let mut x = v;
    let mut i: usize = 0;
    // least significant first, then reversed
    while i < 16
        invariant
            i <= 16,
            digits@.len() == i,
            x as int == (v as int) / pow16(i as int),
            forall|j: int| 0 <= j < i ==> digits@[j] == hex_lower(((v as int) / pow16(j)) % 16),
        decreases 16 - i,
    {
        digits.push(base36_char(x % 16));
        proof {
            lemma_pow16_pos(i as int);
            lemma_div_div(v as int, pow16(i as int), 16);
        }
        x = x / 16;
        i = i + 1;
    }
    let mut r: Vec<char> = Vec::new();
    let mut k: usize = 0;
    while k < 16
        invariant
            k <= 16,
            digits@.len() == 16,
            r@.len() == k,
            forall|j: int| 0 <= j < 16 ==> digits@[j] == hex_lower(((v as int) / pow16(j)) % 16),
            forall|j: int| 0 <= j < k ==> r@[j] == hex_lower(((v as int) / pow16(15 - j)) % 16),
        decreases 16 - k,
    {
        r.push(digits[15 - k]);
        k = k + 1;
    }
    assert(r@ =~= hex16(v));
    r
}

/// The window label of the small sticky note on the monitor with this key.
pub open spec fn mini_label(key: Seq<char>) -> Seq<char> {
    "postit-mini-"@ + hex16(default_str_hash(key))
}

pub fn postit_mini_label(key: &str) -> (r: String)
    ensures
        r@ == mini_label(key@),
{
    let h = str_hash(key);
    let mut v = chars_of("postit-mini-");
    let x = hex16_of(h);
    push_all(&mut v, &x);
    string_from_chars(&v)
}

/// How a monitor is told apart: its name when it has one, else its position `x,y`.
pub open spec fn monitor_key_of(name: Option<Seq<char>>, x: i32, y: i32) -> Seq<char> {
    match name {
        Some(n) if n.len() > 0 => n,
        _ => int_text(x as int) + seq![','] + int_text(y as int),
    }
}

pub fn monitor_key(name: Option<&str>, x: i32, y: i32) -> (r: String)
    ensures
        r@ == monitor_key_of(crate::text::opt_str(name), x, y),
{
    match name {
        Some(n) => {
            if !n.is_empty() {
                return String::from_str(n);
            }
        },
        None => {},
    }
    let mut v = i64_text(x as i64);
    v.push(',');
    let w = i64_text(y as i64);
    push_all(&mut v, &w);
    string_from_chars(&v)
}

} // verus!
