//! When the siren sounds, and for which to-do.
use vstd::prelude::*;

use crate::logic::{fits_i64, on_day};
use crate::store::Todo;
use crate::text::{opt_text, same_text};

verus! {

/// How long before its deadline a to-do sets off the siren, in milliseconds.
pub const SIREN_LEAD_MS: i64 = 180_000;

/// An open to-do whose deadline is at most three minutes away (or past), and whose siren
/// for that deadline was not dealt with.
pub open spec fn siren_due(t: Todo, now: int) -> bool {
    &&& !t.done
    &&& t.due_at is Some
    &&& t.due_at->0 - now <= SIREN_LEAD_MS
    &&& t.ack_due != t.due_at
}

/// The time left to the deadline fits in an `i64` wherever it is computed.
pub open spec fn siren_arith_ok(t: Todo, now: i64) -> bool {
    !t.done && t.due_at is Some ==> fits_i64(t.due_at->0 - now)
}

pub fn siren_eligible(t: &Todo, now: i64) -> (r: bool)
    requires
        siren_arith_ok(*t, now),
    ensures
        r == siren_due(*t, now as int),
{
    if t.done {
        return false;
    }
    match t.due_at {
        None => false,
        Some(d) => d - now <= SIREN_LEAD_MS && t.ack_due != t.due_at,
    }
}

/// What the one-second tick does about the siren.
pub enum SirenAction {
    /// The siren's to-do (at this index) still qualifies: show it again.
    Keep(usize),
    /// The siren's to-do is gone or no longer qualifies: stop the siren.
    Close,
    /// No siren sounds, and the to-do at this index should start one.
    Open(usize),
    /// No siren sounds and none should.
    Idle,
}

/// The first to-do of `today` with the id `id`.
pub open spec fn first_with_id(todos: Seq<Todo>, today: Seq<char>, id: Seq<char>, i: int) -> bool {
    &&& 0 <= i < todos.len()
    &&& on_day(todos[i], today)
    &&& todos[i].id@ == id
    &&& forall|j: int| 0 <= j < i && on_day(#[trigger] todos[j], today) ==> todos[j].id@ != id
}

/// Among the to-dos of `today` that set off the siren, the first with the earliest
/// deadline.
pub open spec fn first_earliest_due(todos: Seq<Todo>, today: Seq<char>, now: int, i: int) -> bool {
    &&& 0 <= i < todos.len()
    &&& on_day(todos[i], today)
    &&& siren_due(todos[i], now)
    &&& forall|j: int|
        0 <= j < todos.len() && on_day(#[trigger] todos[j], today) && siren_due(todos[j], now)
            ==> todos[i].due_at->0 <= todos[j].due_at->0
    &&& forall|j: int|
        0 <= j < i && on_day(#[trigger] todos[j], today) && siren_due(todos[j], now)
            ==> todos[i].due_at->0 < todos[j].due_at->0
}

/// The decision of one tick, given the to-dos, today's date, the to-do whose siren
/// sounds (if any) and the time.
pub open spec fn siren_decision_ok(
    todos: Seq<Todo>,
    today: Seq<char>,
    target: Option<Seq<char>>,
    now: int,
    a: SirenAction,
) -> bool {
    match target {
        Some(id) => match a {
            SirenAction::Keep(i) => first_with_id(todos, today, id, i as int) && siren_due(todos[i as int], now),
            SirenAction::Close => forall|i: int| first_with_id(todos, today, id, i) ==> !siren_due(todos[i], now),
            _ => false,
        },
        None => match a {
            SirenAction::Open(i) => first_earliest_due(todos, today, now, i as int),
            SirenAction::Idle => forall|j: int|
                0 <= j < todos.len() && on_day(#[trigger] todos[j], today) ==> !siren_due(todos[j], now),
            _ => false,
        },
    }
}

/// Whether the time left to every deadline can be computed at `now`.
pub fn siren_fits(todos: &Vec<Todo>, now: i64) -> (r: bool)
    ensures
        r == forall|i: int| 0 <= i < todos@.len() ==> siren_arith_ok(#[trigger] todos@[i], now),
{
    let mut i: usize = 0;
    while i < todos.len()
        invariant
            i <= todos@.len(),
            forall|j: int| 0 <= j < i ==> siren_arith_ok(#[trigger] todos@[j], now),
        decreases todos@.len() - i,
    {
        let t = &todos[i];
        if !t.done {
            match t.due_at {
                Some(d) => if d.checked_sub(now).is_none() {
                    assert(!siren_arith_ok(todos@[i as int], now));
                    return false;
                },
                None => {},
            }
        }
        i = i + 1;
    }
    true
}

/// The time left to a deadline fits wherever a tick computes it: for the siren's own
/// to-do (the first of `today` with its id) while one sounds, else for each to-do of
/// `today`.
pub open spec fn tick_arith_ok(todos: Seq<Todo>, today: Seq<char>, target: Option<Seq<char>>, now: i64) -> bool {
    match target {
        Some(id) => target_arith_ok(todos, today, id, now),
        None => forall|i: int| 0 <= i < todos.len() && on_day(#[trigger] todos[i], today) ==> siren_arith_ok(todos[i], now),
    }
}

/// The time left to the deadline of the first to-do of `today` with the id `id` fits.
pub open spec fn target_arith_ok(todos: Seq<Todo>, today: Seq<char>, id: Seq<char>, now: i64) -> bool {
    forall|i: int| #[trigger] first_with_id(todos, today, id, i) ==> siren_arith_ok(todos[i], now)
}

/// Whether a tick can decide at `now` (see `tick_arith_ok`).
pub fn tick_fits(todos: &Vec<Todo>, today: &str, target: &Option<String>, now: i64) -> (r: bool)
    ensures
        r == tick_arith_ok(todos@, today@, opt_text(*target), now),
{
    let mut i: usize = 0;
    match target {
        Some(id) => {
            while i < todos.len()
                invariant
                    i <= todos@.len(),
                    opt_text(*target) == Some(id@),
                    forall|j: int| 0 <= j < i && on_day(#[trigger] todos@[j], today@) ==> todos@[j].id@ != id@,
                decreases todos@.len() - i,
            {
                let t = &todos[i];
                if same_text(t.date.as_str(), today) && same_text(t.id.as_str(), id.as_str()) {
                    assert(first_with_id(todos@, today@, id@, i as int));
                    proof {
                        assert forall|k: int| #[trigger] first_with_id(todos@, today@, id@, k) implies k == i by {
                            if k < i {
                                assert(todos@[k].id@ != id@);
                            } else if k > i {
                                assert(todos@[i as int].id@ != id@);
                            }
                        }
                    }
                    let ok = t.done || match t.due_at {
                        Some(d) => d.checked_sub(now).is_some(),
                        None => true,
                    };
                    assert(ok == siren_arith_ok(todos@[i as int], now));
                    assert(target_arith_ok(todos@, today@, id@, now) == ok);
                    return ok;
                }
                i = i + 1;
            }
            true
        },
        None => {
            while i < todos.len()
                invariant
                    i <= todos@.len(),
                    opt_text(*target) is None,
                    forall|j: int| 0 <= j < i && on_day(#[trigger] todos@[j], today@) ==> siren_arith_ok(todos@[j], now),
                decreases todos@.len() - i,
            {
                let t = &todos[i];
                if same_text(t.date.as_str(), today) && !t.done {
                    match t.due_at {
                        Some(d) => if d.checked_sub(now).is_none() {
                            assert(on_day(todos@[i as int], today@));
                            return false;
                        },
                        None => {},
                    }
                }
                i = i + 1;
            }
            true
        },
    }
}

pub fn siren_decision(todos: &Vec<Todo>, today: &str, target: &Option<String>, now: i64) -> (a: SirenAction)
    requires
        tick_arith_ok(todos@, today@, opt_text(*target), now),
    ensures
        siren_decision_ok(todos@, today@, opt_text(*target), now as int, a),
{
    match target {
        Some(id) => {
            assert(opt_text(*target) == Some(id@));
            let mut i: usize = 0;
            while i < todos.len()
                invariant
                    i <= todos@.len(),
                    opt_text(*target) == Some(id@),
                    tick_arith_ok(todos@, today@, opt_text(*target), now),
                    forall|j: int| 0 <= j < i && on_day(#[trigger] todos@[j], today@) ==> todos@[j].id@ != id@,
                decreases todos@.len() - i,
            {
                let t = &todos[i];
                if same_text(t.date.as_str(), today) && same_text(t.id.as_str(), id.as_str()) {
                    assert(first_with_id(todos@, today@, id@, i as int));
                    assert(target_arith_ok(todos@, today@, id@, now));
                    assert(siren_arith_ok(todos@[i as int], now));
                    if siren_eligible(t, now) {
                        return SirenAction::Keep(i);
                    } else {
                        proof {
                            assert forall|k: int| first_with_id(todos@, today@, id@, k) implies !siren_due(todos@[k], now as int) by {
                                if k < i {
                                    assert(todos@[k].id@ != id@);
                                } else if k > i {
                                    assert(todos@[i as int].id@ != id@);
                                }
                            }
                        }
                        return SirenAction::Close;
                    }
                }
                i = i + 1;
            }
            SirenAction::Close
        },
        None => {
            let mut best: Option<usize> = None;
            let mut i: usize = 0;
            while i < todos.len()
                invariant
                    i <= todos@.len(),
                    opt_text(*target) is None,
                    tick_arith_ok(todos@, today@, opt_text(*target), now),
                    best matches Some(b) ==> ({
                        &&& b < i
                        &&& on_day(todos@[b as int], today@)
                        &&& siren_due(todos@[b as int], now as int)
                        &&& forall|j: int|
                            0 <= j < i && on_day(#[trigger] todos@[j], today@) && siren_due(todos@[j], now as int)
                                ==> todos@[b as int].due_at->0 <= todos@[j].due_at->0
                        &&& forall|j: int|
                            0 <= j < b && on_day(#[trigger] todos@[j], today@) && siren_due(todos@[j], now as int)
                                ==> todos@[b as int].due_at->0 < todos@[j].due_at->0
                    }),
                    best is None ==> forall|j: int|
                        0 <= j < i && on_day(#[trigger] todos@[j], today@) ==> !siren_due(todos@[j], now as int),
                decreases todos@.len() - i,
            {
                let t = &todos[i];
                if same_text(t.date.as_str(), today) && siren_eligible(t, now) {
                    let d = match t.due_at {
                        Some(d) => d,
                        None => 0,
                    };
                    match best {
                        None => {
                            best = Some(i);
                        },
                        Some(b) => {
                            let bd = match todos[b].due_at {
                                Some(x) => x,
                                None => 0,
                            };
                            if d < bd {
                                best = Some(i);
                            }
                        },
                    }
                }
                i = i + 1;
            }
            match best {
                Some(b) => SirenAction::Open(b),
                None => SirenAction::Idle,
            }
        },
    }
}


/// What the one-second tick does besides the siren, on its `count`-th run: every fifth
/// run it re-checks the monitors, re-raises the notes and reloads changed data; every
/// fifteenth it pushes the to-dos to the windows.
pub fn tick_chores(count: u64) -> (r: (bool, bool))
    ensures
        r == (count % 5 == 0, count % 15 == 0),
{
    (count % 5 == 0, count % 15 == 0)
}


/// The siren never sounds for a done to-do, for one without a deadline, or for a deadline
/// that was already dealt with.
pub proof fn lemma_siren_silent(t: Todo, now: int)
    ensures
        t.done ==> !siren_due(t, now),
        t.due_at is None ==> !siren_due(t, now),
        t.ack_due == t.due_at ==> !siren_due(t, now),
        t.due_at matches Some(d) && d - now > SIREN_LEAD_MS ==> !siren_due(t, now),
{
}

/// The siren that sounds: the to-do it sounds for, the labels of its windows, and a
/// generation that every opening and closing advances, so that work begun for an earlier
/// siren can tell that it is out of date.
pub struct SirenState {
    pub todo_id: Option<String>,
    pub labels: Vec<String>,
    pub generation: u64,
}

/// The windows made for generation `gen` are kept only while that siren still sounds;
/// otherwise all of them are handed back to be closed.
pub open spec fn windows_attached(s: SirenState, ns: SirenState, gen: u64, labels: Seq<String>, discard: Seq<String>) -> bool {
    if s.generation == gen {
        &&& ns.labels@ == labels
        &&& ns.todo_id == s.todo_id
        &&& ns.generation == s.generation
        &&& discard.len() == 0
    } else {
        &&& ns == s
        &&& discard == labels
    }
}

/// The siren is shut: no to-do, no windows, a new generation.
pub open spec fn siren_shut(s: SirenState, ns: SirenState) -> bool {
    &&& ns.generation == s.generation + 1
    &&& ns.todo_id is None
    &&& ns.labels@.len() == 0
}

/// The focus timer begun for generation `gen` keeps raising the windows.
pub open spec fn focus_continues(s: SirenState, gen: u64) -> bool {
    s.generation == gen && s.todo_id is Some
}

impl SirenState {
    /// No siren.
    pub fn new() -> (s: SirenState)
        ensures
            s.todo_id is None,
            s.labels@.len() == 0,
            s.generation == 0,
    {
        SirenState { todo_id: None, labels: Vec::new(), generation: 0 }
    }

    /// Starts the siren for the to-do `id`; gives the siren's generation.
    pub fn open(&mut self, id: &str) -> (gen: u64)
        requires
            old(self).generation < u64::MAX,
        ensures
            final(self).generation == old(self).generation + 1,
            gen == final(self).generation,
            final(self).todo_id matches Some(t) && t@ == id@,
            final(self).labels == old(self).labels,
    {
        self.generation = self.generation + 1;
        self.todo_id = Some(String::from_str(id));
        self.generation
    }

    /// Stops the siren; gives the labels of its windows, to be closed.
    pub fn close(&mut self) -> (labels: Vec<String>)
        requires
            old(self).generation < u64::MAX,
        ensures
            siren_shut(*old(self), *final(self)),
            labels@ == old(self).labels@,
    {
        self.generation = self.generation + 1;
        self.todo_id = None;
        let mut labels: Vec<String> = Vec::new();
        std::mem::swap(&mut labels, &mut self.labels);
        labels
    }

    /// Stops the siren when it sounds for the to-do `id`; gives the labels of its windows
    /// then, nothing otherwise.
    pub fn close_if_target(&mut self, id: &str) -> (r: Option<Vec<String>>)
        requires
            old(self).generation < u64::MAX,
        ensures
            (old(self).todo_id matches Some(t) && t@ == id@) ==> (r matches Some(l) && l@ == old(
                self,
            ).labels@ && siren_shut(*old(self), *final(self))),
            !(old(self).todo_id matches Some(t) && t@ == id@) ==> (r is None && *final(self) == *old(self)),
    {
        let hit = match &self.todo_id {
            Some(t) => same_text(t.as_str(), id),
            None => false,
        };
        if hit {
            Some(self.close())
        } else {
            None
        }
    }

    /// The siren of generation `gen` is still the current one.
    pub fn is_current(&self, gen: u64) -> (r: bool)
        ensures
            r == (self.generation == gen),
    {
        self.generation == gen
    }

    /// Whether a siren sounds.
    pub fn sounding(&self) -> (r: bool)
        ensures
            r == self.todo_id is Some,
    {
        self.todo_id.is_some()
    }

    /// The to-do the siren sounds for.
    pub fn target(&self) -> (r: Option<String>)
        ensures
            r == self.todo_id,
    {
        match &self.todo_id {
            Some(t) => Some(t.clone()),
            None => None,
        }
    }

    /// Records the windows made for the siren of generation `gen`; gives back those to
    /// close, when that siren no longer sounds.
    pub fn attach_windows(&mut self, gen: u64, labels: Vec<String>) -> (discard: Vec<String>)
        ensures
            windows_attached(*old(self), *final(self), gen, labels@, discard@),
    {
        if self.generation == gen {
            self.labels = labels;
            Vec::new()
        } else {
            labels
        }
    }

    /// The focus timer of generation `gen` goes on: gives the windows to raise, or nothing
    /// when the timer should stop.
    pub fn focus_targets(&self, gen: u64) -> (r: Option<Vec<String>>)
        ensures
            focus_continues(*self, gen) ==> (r matches Some(l) && l@ == self.labels@),
            !focus_continues(*self, gen) ==> r is None,
    {
        if self.generation == gen && self.todo_id.is_some() {
            let mut l: Vec<String> = Vec::new();
            let mut i: usize = 0;
            while i < self.labels.len()
                invariant
                    i <= self.labels@.len(),
                    l@ == self.labels@.take(i as int),
                decreases self.labels@.len() - i,
            {
                l.push(self.labels[i].clone());
                assert(l@ =~= self.labels@.take(i + 1));
                i = i + 1;
            }
            assert(self.labels@.take(self.labels@.len() as int) =~= self.labels@);
            Some(l)
        } else {
            None
        }
    }
}

/// Once the siren is shut, no focus timer goes on, and windows still being made for any
/// earlier siren are all handed back to be closed.
pub proof fn lemma_shut_siren_stays_shut(
    s: SirenState,
    ns: SirenState,
    gen: u64,
    labels: Seq<String>,
    ns2: SirenState,
    discard: Seq<String>,
)
    requires
        siren_shut(s, ns),
        gen <= s.generation,
        windows_attached(ns, ns2, gen, labels, discard),
    ensures
        forall|g: u64| !focus_continues(ns, g),
        discard == labels,
        ns2 == ns,
{
}

/// A newer siren stops the focus timers of all the earlier ones.
pub proof fn lemma_newer_siren_wins(s: SirenState, ns: SirenState, gen: u64)
    requires
        ns.generation == s.generation + 1,
        gen <= s.generation,
    ensures
        !focus_continues(ns, gen),
{
}

} // verus!
