//! Where the small sticky notes go on the other monitors.
use vstd::prelude::*;

use crate::text::{holds_text, same_text, text_listed};

verus! {

/// `x` fits in an `i32`.
pub open spec fn fits_i32(x: int) -> bool {
    i32::MIN <= x <= i32::MAX
}

/// The point lies on the monitor at `(mx, my)` of size `w` by `h` (the sizes taken as
/// `i32`, as the window code does).
pub open spec fn on_monitor(x: i32, y: i32, mx: i32, my: i32, w: u32, h: u32) -> bool {
    x >= mx && y >= my && x < mx + (w as i32) && y < my + (h as i32)
}

pub fn point_on_monitor(x: i32, y: i32, mx: i32, my: i32, w: u32, h: u32) -> (r: bool)
    requires
        fits_i32(mx + (w as i32)),
        fits_i32(my + (h as i32)),
    ensures
        r == on_monitor(x, y, mx, my, w, h),
{
    let wi = w as i32;
    let hi = h as i32;
    x >= mx && y >= my && x < mx + wi && y < my + hi
}

/// A new small note goes to the top right of the monitor's work area.
pub open spec fn default_mini_pos(wx: i32, wy: i32, ww: u32, width: u32) -> (int, int) {
    (wx + (ww as i32) - (width as i32), wy as int)
}

pub fn default_mini_position(wx: i32, wy: i32, ww: u32, width: u32) -> (r: (i32, i32))
    requires
        fits_i32(wx + (ww as i32)),
        fits_i32(wx + (ww as i32) - (width as i32)),
    ensures
        (r.0 as int, r.1 as int) == default_mini_pos(wx, wy, ww, width),
{
    let a = ww as i32;
    let b = width as i32;
    (wx + a - b, wy)
}

/// The monitor at index `i` and position `pos` is the primary one: the one at the primary
/// monitor's position, or the first when no primary monitor is known.
pub open spec fn primary_at(i: int, pos: (i32, i32), primary: Option<(i32, i32)>) -> bool {
    match primary {
        Some(p) => p == pos,
        None => i == 0,
    }
}

pub fn is_primary_monitor(i: usize, pos: (i32, i32), primary: Option<(i32, i32)>) -> (r: bool)
    ensures
        r == primary_at(i as int, pos, primary),
{
    match primary {
        Some(p) => p.0 == pos.0 && p.1 == pos.1,
        None => i == 0,
    }
}

/// The indices, in order, of the monitors among the first `n` that are not the primary one.
pub open spec fn secondary_indices(positions: Seq<(i32, i32)>, primary: Option<(i32, i32)>, n: int) -> Seq<int>
    decreases n,
{
    if n <= 0 {
        Seq::empty()
    } else if primary_at(n - 1, positions[n - 1], primary) {
        secondary_indices(positions, primary, n - 1)
    } else {
        secondary_indices(positions, primary, n - 1).push(n - 1)
    }
}

/// The monitors (given by their positions) that get a small sticky note: all but the
/// primary one.
pub fn secondary_monitors(positions: &Vec<(i32, i32)>, primary: Option<(i32, i32)>) -> (r: Vec<usize>)
    ensures
        r@.map_values(|i: usize| i as int) == secondary_indices(positions@, primary, positions@.len() as int),
{
    let mut r: Vec<usize> = Vec::new();
    let mut i: usize = 0;
    while i < positions.len()
        invariant
            i <= positions@.len(),
            r@.map_values(|k: usize| k as int) == secondary_indices(positions@, primary, i as int),
        decreases positions@.len() - i,
    {
        if !is_primary_monitor(i, positions[i], primary) {
            r.push(i);
        }
        assert(r@.map_values(|k: usize| k as int) =~= secondary_indices(positions@, primary, i + 1));
        i = i + 1;
    }
    r
}

/// The labels of `open_labels`, in order, that `desired` does not hold.
pub open spec fn stale_of(open_labels: Seq<String>, desired: Seq<String>) -> Seq<Seq<char>>
    decreases open_labels.len(),
{
    if open_labels.len() == 0 {
        Seq::empty()
    } else if holds_text(desired, open_labels.last()@) {
        stale_of(open_labels.drop_last(), desired)
    } else {
        stale_of(open_labels.drop_last(), desired).push(open_labels.last()@)
    }
}

/// Where a small note opens: at its saved place when that lies on its monitor, else at
/// the default place.
pub open spec fn mini_place(
    saved: Option<(i32, i32)>,
    mx: i32,
    my: i32,
    w: u32,
    h: u32,
    default: (i32, i32),
) -> (i32, i32) {
    match saved {
        Some(p) if on_monitor(p.0, p.1, mx, my, w, h) => p,
        _ => default,
    }
}

pub fn mini_window_position(
    saved: Option<(i32, i32)>,
    mx: i32,
    my: i32,
    w: u32,
    h: u32,
    default: (i32, i32),
) -> (r: (i32, i32))
    requires
        fits_i32(mx + (w as i32)),
        fits_i32(my + (h as i32)),
    ensures
        r == mini_place(saved, mx, my, w, h, default),
{
    match saved {
        Some(p) => if point_on_monitor(p.0, p.1, mx, my, w, h) {
            p
        } else {
            default
        },
        None => default,
    }
}

/// What the cursor poll remembers of one sticky-note window: whether the cursor was over
/// it, and the position last sent to it.
#[derive(Clone, Copy)]
pub struct CursorTrack {
    pub inside: bool,
    pub last_sent: Option<(i32, i32)>,
}

/// One poll of one window, the cursor over it (`inside`) at the window position `at`:
/// the new memory and the position to send (`(-1, -1)` when the cursor has just left).
pub open spec fn cursor_next(t: CursorTrack, inside: bool, at: (i32, i32)) -> (CursorTrack, Option<(i32, i32)>) {
    if inside {
        if t.last_sent != Some(at) {
            (CursorTrack { inside: true, last_sent: Some(at) }, Some(at))
        } else {
            (CursorTrack { inside: true, last_sent: t.last_sent }, None)
        }
    } else if t.inside {
        (CursorTrack { inside: false, last_sent: None }, Some((-1i32, -1i32)))
    } else {
        (t, None)
    }
}

pub fn cursor_step(t: CursorTrack, inside: bool, at: (i32, i32)) -> (r: (CursorTrack, Option<(i32, i32)>))
    ensures
        r == cursor_next(t, inside, at),
{
    if inside {
        let same = match t.last_sent {
            Some(p) => p.0 == at.0 && p.1 == at.1,
            None => false,
        };
        if !same {
            (CursorTrack { inside: true, last_sent: Some(at) }, Some(at))
        } else {
            (CursorTrack { inside: true, last_sent: t.last_sent }, None)
        }
    } else if t.inside {
        (CursorTrack { inside: false, last_sent: None }, Some((-1i32, -1i32)))
    } else {
        (t, None)
    }
}

/// A window hears of the cursor once per position while it stays over it, and once
/// (`(-1, -1)`) when it leaves; a cursor that stays away sends nothing.
pub proof fn lemma_cursor_sends_once(t: CursorTrack, at: (i32, i32), away: (i32, i32))
    ensures
        cursor_next(cursor_next(t, true, at).0, true, at).1 is None,
        cursor_next(cursor_next(t, true, at).0, false, away).1 == Some((-1i32, -1i32)),
        cursor_next(cursor_next(cursor_next(t, true, at).0, false, away).0, false, away).1 is None,
{
}

/// The small-note windows the application keeps open: each window's label with the key
/// of its monitor, no label twice.
pub struct MiniWindows {
    entries: Vec<(String, String)>,
}

impl View for MiniWindows {
    type V = Seq<(String, String)>;

    closed spec fn view(&self) -> Seq<(String, String)> {
        self.entries@
    }
}

/// No label occurs twice.
pub open spec fn unique_labels(e: Seq<(String, String)>) -> bool {
    forall|i: int, j: int| 0 <= i < j < e.len() ==> (#[trigger] e[i]).0@ != (#[trigger] e[j]).0@
}

/// Every label is one of `desired`.
pub open spec fn all_desired(e: Seq<(String, String)>, desired: Seq<String>) -> bool {
    forall|i: int| 0 <= i < e.len() ==> holds_text(desired, (#[trigger] e[i]).0@)
}

/// The labels, in order.
pub open spec fn labels_of(e: Seq<(String, String)>) -> Seq<String> {
    e.map_values(|p: (String, String)| p.0)
}

/// The monitor key kept for `label`, if any.
pub open spec fn key_for(e: Seq<(String, String)>, label: Seq<char>) -> Option<Seq<char>> {
    if exists|i: int| 0 <= i < e.len() && (#[trigger] e[i]).0@ == label {
        Some(e[choose|i: int| 0 <= i < e.len() && (#[trigger] e[i]).0@ == label].1@)
    } else {
        None
    }
}

impl MiniWindows {
    #[verifier::type_invariant]
    spec fn labels_unique(self) -> bool {
        unique_labels(self.entries@)
    }

    pub fn new() -> (m: MiniWindows)
        ensures
            m@.len() == 0,
    {
        MiniWindows { entries: Vec::new() }
    }

    /// Forgets the windows whose label is not desired, keeping the others in order; gives
    /// the forgotten labels, to close those windows.
    pub fn drop_stale(&mut self, desired: &Vec<String>) -> (stale: Vec<String>)
        ensures
            final(self)@ == old(self)@.filter(|p: (String, String)| holds_text(desired@, p.0@)),
            all_desired(final(self)@, desired@),
            unique_labels(final(self)@),
            stale@.map_values(|t: String| t@) == stale_of(labels_of(old(self)@), desired@),
    {
        proof {
            use_type_invariant(&*self);
        }
        let ghost src = self.entries@;
        let ghost f = |p: (String, String)| holds_text(desired@, p.0@);
        let mut kept: Vec<(String, String)> = Vec::new();
        let mut stale: Vec<String> = Vec::new();
        let mut i: usize = 0;
        while i < self.entries.len()
            invariant
                i <= src.len(),
                self.entries@ == src,
                f == (|p: (String, String)| holds_text(desired@, p.0@)),
                kept@ == src.take(i as int).filter(f),
                forall|a: int| 0 <= a < kept@.len() ==> exists|j: int| 0 <= j < i && #[trigger] kept@[a] == src[j],
                unique_labels(src),
                unique_labels(kept@),
                stale@.map_values(|t: String| t@) == stale_of(labels_of(src.take(i as int)), desired@),
            decreases src.len() - i,
        {
            proof {
                reveal_with_fuel(Seq::<_>::filter, 1);
                assert(src.take(i + 1).drop_last() =~= src.take(i as int));
                assert(labels_of(src.take(i + 1)).drop_last() =~= labels_of(src.take(i as int)));
                assert(labels_of(src.take(i + 1)).last() == src[i as int].0);
            }
            let label = &self.entries[i].0;
            if text_listed(desired, label.as_str()) {
                let ghost k0 = kept@;
                kept.push((label.clone(), self.entries[i].1.clone()));
                proof {
                    assert(kept@.drop_last() == k0);
                    assert(kept@.last() == src[i as int]);
                    assert forall|a: int| 0 <= a < kept@.len() implies exists|j: int| 0 <= j < i + 1 && #[trigger] kept@[a] == src[j] by {
                        if a < k0.len() {
                            assert(kept@[a] == k0[a]);
                        } else {
                            assert(kept@[a] == src[i as int]);
                        }
                    }
                    assert forall|a: int, b: int| 0 <= a < b < kept@.len() implies (#[trigger] kept@[a]).0@ != (#[trigger] kept@[b]).0@ by {
                        if b == k0.len() {
                            assert(kept@[a] == k0[a]);
                            let j = choose|j: int| 0 <= j < i && #[trigger] k0[a] == src[j];
                            assert(src[j].0@ != src[i as int].0@);
                        } else {
                            assert(kept@[a] == k0[a]);
                            assert(kept@[b] == k0[b]);
                        }
                    }
                }
            } else {
                stale.push(label.clone());
            }
            assert(stale@.map_values(|t: String| t@) =~= stale_of(labels_of(src.take(i + 1)), desired@));
            i = i + 1;
        }
        assert(src.take(src.len() as int) =~= src);
        proof {
            let fe = src.filter(f);
            assert forall|a: int| 0 <= a < fe.len() implies holds_text(desired@, (#[trigger] fe[a]).0@) by {
                src.lemma_filter_pred(f, a);
                assert(f(fe[a]));
            }
        }
        self.entries = kept;
        stale
    }

    /// Whether the window `label` is still wanted on the monitor `key`.
    pub fn holds(&self, label: &str, key: &str) -> (r: bool)
        ensures
            r == (key_for(self@, label@) == Some(key@)),
    {
        proof {
            use_type_invariant(self);
        }
        let mut i: usize = 0;
        while i < self.entries.len()
            invariant
                i <= self.entries@.len(),
                unique_labels(self.entries@),
                forall|j: int| 0 <= j < i ==> (#[trigger] self.entries@[j]).0@ != label@,
            decreases self.entries@.len() - i,
        {
            if same_text(self.entries[i].0.as_str(), label) {
                proof {
                    let e = self.entries@;
                    assert(e[i as int].0@ == label@);
                    let c = choose|k: int| 0 <= k < e.len() && (#[trigger] e[k]).0@ == label@;
                    if c < i {
                        assert(e[c].0@ != e[i as int].0@);
                    } else if c > i {
                        assert(e[i as int].0@ != e[c].0@);
                    }
                    assert(key_for(e, label@) == Some(e[i as int].1@));
                }
                return same_text(self.entries[i].1.as_str(), key);
            }
            i = i + 1;
        }
        false
    }

    /// Takes the window `label` for the monitor `key`: when it is kept and its window is
    /// open there is nothing to do (false); otherwise it is recorded for `key` and a window
    /// is to be made (true).
    pub fn claim(&mut self, label: &str, key: &str, window_open: bool) -> (make: bool)
        ensures
            unique_labels(final(self)@),
            make == !(key_for(old(self)@, label@) is Some && window_open),
            !make ==> final(self)@ == old(self)@,
            make ==> key_for(final(self)@, label@) == Some(key@),
            key_for(final(self)@, label@) is Some,
            make ==> forall|l: Seq<char>| l != label@ ==> key_for(final(self)@, l) == key_for(old(self)@, l),
            forall|desired: Seq<String>|
                all_desired(old(self)@, desired) && holds_text(desired, label@) ==> all_desired(
                    final(self)@,
                    desired,
                ),
    {
        proof {
            use_type_invariant(&*self);
        }
        let ghost e0 = self.entries@;
        let mut i: usize = 0;
        while i < self.entries.len()
            invariant
                i <= self.entries@.len(),
                self.entries@ == e0,
                e0 == old(self)@,
                unique_labels(e0),
                forall|j: int| 0 <= j < i ==> (#[trigger] self.entries@[j]).0@ != label@,
            decreases self.entries@.len() - i,
        {
            if same_text(self.entries[i].0.as_str(), label) {
                proof {
                    assert(e0[i as int].0@ == label@);
                }
                if window_open {
                    return false;
                }
                let pair = (String::from_str(label), String::from_str(key));
                let mut e: Vec<(String, String)> = Vec::new();
                std::mem::swap(&mut e, &mut self.entries);
                e.set(i, pair);
                proof {
                    let e1 = e@;
                    assert forall|a: int, b: int| 0 <= a < b < e1.len() implies (#[trigger] e1[a]).0@ != (#[trigger] e1[b]).0@ by {
                        if a == i {
                            assert(e0[i as int].0@ == label@);
                        } else if b == i {
                            assert(e0[i as int].0@ == label@);
                        }
                    }
                    assert(e1[i as int].0@ == label@);
                    assert forall|l: Seq<char>| l != label@ implies key_for(e1, l) == key_for(e0, l) by {
                        if exists|k: int| 0 <= k < e0.len() && (#[trigger] e0[k]).0@ == l {
                            let k = choose|k: int| 0 <= k < e0.len() && (#[trigger] e0[k]).0@ == l;
                            assert(e1[k].0@ == l);
                            let c = choose|c: int| 0 <= c < e1.len() && (#[trigger] e1[c]).0@ == l;
                            assert(c == k);
                        } else {
                            assert forall|k: int| 0 <= k < e1.len() implies (#[trigger] e1[k]).0@ != l by {
                                if k != i {
                                    assert(e1[k] == e0[k]);
                                }
                            }
                        }
                    }
                    let c = choose|c: int| 0 <= c < e1.len() && (#[trigger] e1[c]).0@ == label@;
                    assert(c == i);
                }
                self.entries = e;
                return true;
            }
            i = i + 1;
        }
        let mut e: Vec<(String, String)> = Vec::new();
        std::mem::swap(&mut e, &mut self.entries);
        e.push((String::from_str(label), String::from_str(key)));
        proof {
            let e1 = e@;
            assert(e1.drop_last() =~= e0);
            assert(e1.last().0@ == label@);
            assert forall|a: int, b: int| 0 <= a < b < e1.len() implies (#[trigger] e1[a]).0@ != (#[trigger] e1[b]).0@ by {
                if b == e0.len() {
                    assert(e1[a] == e0[a]);
                } else {
                    assert(e1[a] == e0[a]);
                    assert(e1[b] == e0[b]);
                }
            }
            assert forall|l: Seq<char>| l != label@ implies key_for(e1, l) == key_for(e0, l) by {
                if exists|k: int| 0 <= k < e0.len() && (#[trigger] e0[k]).0@ == l {
                    let k = choose|k: int| 0 <= k < e0.len() && (#[trigger] e0[k]).0@ == l;
                    assert(e1[k] == e0[k]);
                    let c = choose|c: int| 0 <= c < e1.len() && (#[trigger] e1[c]).0@ == l;
                    assert(c == k);
                    assert(e1[c] == e0[c]);
                } else {
                    assert forall|k: int| 0 <= k < e1.len() implies (#[trigger] e1[k]).0@ != l by {
                        if k < e0.len() {
                            assert(e1[k] == e0[k]);
                        }
                    }
                }
            }
            let c = choose|c: int| 0 <= c < e1.len() && (#[trigger] e1[c]).0@ == label@;
            assert(c == e0.len());
            assert forall|desired: Seq<String>|
                all_desired(e0, desired) && holds_text(desired, label@) implies all_desired(e1, desired) by {
                assert forall|k: int| 0 <= k < e1.len() implies holds_text(desired, (#[trigger] e1[k]).0@) by {
                    if k < e0.len() {
                        assert(e1[k] == e0[k]);
                    }
                }
            }
        }
        self.entries = e;
        true
    }
}

/// Once the windows of monitors that are gone are dropped (`drop_stale`) and the desired
/// ones claimed (`claim`, which keeps every label desired), no window of a monitor that is
/// gone is held on any key.
pub proof fn lemma_gone_monitor_not_held(e: Seq<(String, String)>, desired: Seq<String>, label: Seq<char>)
    requires
        all_desired(e, desired),
        !holds_text(desired, label),
    ensures
        key_for(e, label) is None,
{
    assert forall|k: int| 0 <= k < e.len() implies (#[trigger] e[k]).0@ != label by {
        assert(holds_text(desired, e[k].0@));
    }
}

} // verus!
