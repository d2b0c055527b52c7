//! The order in which to-dos are shown.
use vstd::prelude::*;

use std::cmp::Ordering;

use crate::store::Todo;

verus! {

/// Three-way comparison of two integers.
pub open spec fn order_of_i64(x: i64, y: i64) -> Ordering {
    if x < y {
        Ordering::Less
    } else if x == y {
        Ordering::Equal
    } else {
        Ordering::Greater
    }
}

/// Open to-dos before done ones; then those with a deadline, earliest first, before
/// those without; two without a deadline by creation time.
pub open spec fn todo_order(a: Todo, b: Todo) -> Ordering {
    if a.done != b.done {
        if a.done {
            Ordering::Greater
        } else {
            Ordering::Less
        }
    } else {
        match (a.due_at, b.due_at) {
            (None, None) => order_of_i64(a.created_at, b.created_at),
            (None, Some(_)) => Ordering::Greater,
            (Some(_), None) => Ordering::Less,
            (Some(x), Some(y)) => order_of_i64(x, y),
        }
    }
}

/// `a` is shown after `b`.
pub open spec fn todo_after(a: Todo, b: Todo) -> bool {
    todo_order(a, b) == Ordering::Greater
}

fn order_i64(x: i64, y: i64) -> (o: Ordering)
    ensures
        o == order_of_i64(x, y),
{
    if x < y {
        Ordering::Less
    } else if x == y {
        Ordering::Equal
    } else {
        Ordering::Greater
    }
}

pub fn sort_todos(a: &Todo, b: &Todo) -> (o: Ordering)
    ensures
        o == todo_order(*a, *b),
{
    if a.done != b.done {
        return if a.done {
            Ordering::Greater
        } else {
            Ordering::Less
        };
    }
    match (a.due_at, b.due_at) {
        (None, None) => order_i64(a.created_at, b.created_at),
        (None, Some(_)) => Ordering::Greater,
        (Some(_), None) => Ordering::Less,
        (Some(x), Some(y)) => order_i64(x, y),
    }
}

pub fn todo_is_after(a: &Todo, b: &Todo) -> (r: bool)
    ensures
        r == todo_after(*a, *b),
{
    match sort_todos(a, b) {
        Ordering::Greater => true,
        Ordering::Less => false,
        Ordering::Equal => false,
    }
}

/// How two to-dos are ordered, whatever their state: an open one before a done one; of two
/// alike in that, one with a deadline before one without, two with deadlines earliest
/// deadline first (done or not), and two without by creation time, oldest first.
pub proof fn lemma_todo_order_rules(a: Todo, b: Todo)
    ensures
        !a.done && b.done ==> todo_order(a, b) == Ordering::Less,
        a.done && !b.done ==> todo_order(a, b) == Ordering::Greater,
        a.done == b.done && a.due_at is Some && b.due_at is None ==> todo_order(a, b) == Ordering::Less,
        a.done == b.done && a.due_at is None && b.due_at is Some ==> todo_order(a, b) == Ordering::Greater,
        (a.due_at matches Some(x) && b.due_at matches Some(y) && a.done == b.done && x < y) ==> todo_order(a, b)
            == Ordering::Less,
        (a.due_at matches Some(x) && b.due_at matches Some(y) && a.done == b.done && x > y) ==> todo_order(a, b)
            == Ordering::Greater,
        (a.due_at matches Some(x) && b.due_at matches Some(y) && a.done == b.done && x == y) ==> todo_order(a, b)
            == Ordering::Equal,
        (a.done == b.done && a.due_at is None && b.due_at is None && a.created_at < b.created_at) ==> todo_order(
            a,
            b,
        ) == Ordering::Less,
        (a.done == b.done && a.due_at is None && b.due_at is None && a.created_at > b.created_at) ==> todo_order(
            a,
            b,
        ) == Ordering::Greater,
{
}

/// The order is antisymmetric: a to-do shown after another is not also shown before it.
pub proof fn lemma_todo_order_antisymmetric(a: Todo, b: Todo)
    ensures
        todo_order(a, b) == Ordering::Greater <==> todo_order(b, a) == Ordering::Less,
        todo_order(a, b) == Ordering::Equal <==> todo_order(b, a) == Ordering::Equal,
{
}

/// The order is transitive: "not after" chains.
pub proof fn lemma_todo_order_transitive(a: Todo, b: Todo, c: Todo)
    ensures
        !todo_after(a, b) && !todo_after(b, c) ==> !todo_after(a, c),
        todo_after(a, b) && todo_after(b, c) ==> todo_after(a, c),
{
}

} // verus!
