//! The addresses of the application's own pages, with what each page is told.
use vstd::prelude::*;

use crate::logic::RewardInfo;
use crate::text::{chars_of, i64_text, int_text, push_all, push_str, string_from_chars};
use crate::update::{url_encode_bytes, urlencode};

verus! {

/// A text as a query value: its UTF-8 bytes percent-encoded.
pub open spec fn query_value(s: Seq<char>) -> Seq<char> {
    url_encode_bytes(vstd::utf8::encode_utf8(s))
}

/// The reward page for the reward screen `info`.
pub open spec fn reward_url_of(info: RewardInfo) -> Seq<char> {
    "reward.html?streak="@ + int_text(info.streak as int) + "&today="@ + int_text(info.today as int)
        + "&total="@ + int_text(info.total as int) + "&title="@ + query_value(info.title@)
        + "&icon="@ + query_value(info.icon@) + "&next="@ + query_value(info.next@) + "&min="@
        + int_text(info.min as int)
}

pub fn reward_page_url(info: &RewardInfo) -> (r: String)
    ensures
        r@ == reward_url_of(*info),
{
    let mut v = chars_of("reward.html?streak=");
    let x = i64_text(info.streak);
    push_all(&mut v, &x);
    push_str(&mut v, "&today=");
    let x = i64_text(info.today);
    push_all(&mut v, &x);
    push_str(&mut v, "&total=");
    let x = i64_text(info.total);
    push_all(&mut v, &x);
    push_str(&mut v, "&title=");
    let e = urlencode(info.title.as_str());
    push_str(&mut v, e.as_str());
    push_str(&mut v, "&icon=");
    let e = urlencode(info.icon.as_str());
    push_str(&mut v, e.as_str());
    push_str(&mut v, "&next=");
    let e = urlencode(info.next.as_str());
    push_str(&mut v, e.as_str());
    push_str(&mut v, "&min=");
    let x = i64_text(info.min);
    push_all(&mut v, &x);
    assert(v@ =~= reward_url_of(*info));
    string_from_chars(&v)
}

/// The siren page of one monitor: only the primary monitor's page plays the sound, at
/// the volume written `volume`.
pub open spec fn siren_url_of(primary: bool, volume: Seq<char>) -> Seq<char> {
    "siren.html?sound="@ + (if primary { "1"@ } else { "0"@ }) + "&volume="@ + volume
}

pub fn siren_page_url(primary: bool, volume: &str) -> (r: String)
    ensures
        r@ == siren_url_of(primary, volume@),
{
    let mut v = chars_of("siren.html?sound=");
    if primary {
        push_str(&mut v, "1");
    } else {
        push_str(&mut v, "0");
    }
    push_str(&mut v, "&volume=");
    push_str(&mut v, volume);
    string_from_chars(&v)
}

} // verus!
