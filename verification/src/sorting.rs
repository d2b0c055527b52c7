//! A stable sort of to-dos by the display order.
use vstd::prelude::*;

use crate::order::{lemma_todo_order_antisymmetric, lemma_todo_order_transitive, todo_after, todo_is_after};
use crate::store::Todo;

verus! {

/// `x` placed into `s` after every element that is not shown after it.
pub open spec fn insert_in_order(s: Seq<Todo>, x: Todo) -> Seq<Todo>
    decreases s.len(),
{
    if s.len() == 0 {
        seq![x]
    } else if todo_after(s.last(), x) {
        insert_in_order(s.drop_last(), x).push(s.last())
    } else {
        s.push(x)
    }
}

/// The to-dos in display order; to-dos that compare equal keep their order.
pub open spec fn sorted_todos(s: Seq<Todo>) -> Seq<Todo>
    decreases s.len(),
{
    if s.len() == 0 {
        s
    } else {
        insert_in_order(sorted_todos(s.drop_last()), s.last())
    }
}

/// No to-do comes before one that is shown before it.
pub open spec fn in_display_order(s: Seq<Todo>) -> bool {
    forall|i: int, j: int| 0 <= i < j < s.len() ==> !todo_after(#[trigger] s[i], #[trigger] s[j])
}

fn insert_todo(out: &mut Vec<Todo>, x: Todo)
    ensures
        final(out)@ == insert_in_order(old(out)@, x),
{
    let ghost s = out@;
    let mut p: usize = out.len();
    assert(s.take(s.len() as int) =~= s);
    assert(s.skip(s.len() as int) =~= Seq::<Todo>::empty());
    while p > 0 && todo_is_after(&out[p - 1], &x)
        invariant
            out@ == s,
            p <= s.len(),
            insert_in_order(s, x) == insert_in_order(s.take(p as int), x) + s.skip(p as int),
        decreases p,
    {
        assert(s.take(p as int).drop_last() =~= s.take(p - 1));
        assert(s.take(p as int).last() == s[p - 1]);
        assert(s.skip(p - 1) =~= seq![s[p - 1]] + s.skip(p as int));
        assert(insert_in_order(s.take(p - 1), x).push(s[p - 1]) + s.skip(p as int)
            =~= insert_in_order(s.take(p - 1), x) + s.skip(p - 1));
        p = p - 1;
    }
    if p > 0 {
        assert(s.take(p as int).last() == s[p - 1]);
    } else {
        assert(s.take(0) =~= Seq::<Todo>::empty());
    }
    out.insert(p, x);
    assert(out@ =~= s.take(p as int).push(x) + s.skip(p as int));
}

/// The to-dos in display order (a stable sort).
pub fn sort_todo_list(v: &Vec<Todo>) -> (r: Vec<Todo>)
    ensures
        r@ == sorted_todos(v@),
{
    let mut out: Vec<Todo> = Vec::new();
    let mut i: usize = 0;
    while i < v.len()
        invariant
            i <= v@.len(),
            out@ == sorted_todos(v@.take(i as int)),
        decreases v@.len() - i,
    {
        assert(v@.take(i + 1).drop_last() =~= v@.take(i as int));
        insert_todo(&mut out, v[i].clone());
        i = i + 1;
    }
    assert(v@.take(v@.len() as int) =~= v@);
    out
}

proof fn lemma_insert_in_order_props(s: Seq<Todo>, x: Todo)
    requires
        in_display_order(s),
    ensures
        in_display_order(insert_in_order(s, x)),
        insert_in_order(s, x).to_multiset() == s.to_multiset().insert(x),
    decreases s.len(),
{
    broadcast use vstd::seq_lib::group_to_multiset_ensures;
    if s.len() == 0 {
        assert(insert_in_order(s, x) =~= seq![x]);
        assert(seq![x] =~= Seq::<Todo>::empty().push(x));
    } else if todo_after(s.last(), x) {
        let d = s.drop_last();
        assert(in_display_order(d));
        lemma_insert_in_order_props(d, x);
        let r = insert_in_order(d, x);
        assert(s =~= d.push(s.last()));
        lemma_todo_order_antisymmetric(s.last(), x);
        assert forall|i: int| 0 <= i < r.len() implies !todo_after(#[trigger] r[i], s.last()) by {
            assert(r.to_multiset().count(r[i]) > 0);
            assert(r.contains(r[i]));
            if r[i] != x {
                assert(d.to_multiset().count(r[i]) > 0);
                assert(d.contains(r[i]));
                let k = choose|k: int| 0 <= k < d.len() && d[k] == r[i];
                assert(s[k] == d[k]);
                assert(s[s.len() - 1] == s.last());
            }
        }
        let rr = r.push(s.last());
        assert forall|i: int, j: int| 0 <= i < j < rr.len() implies !todo_after(#[trigger] rr[i], #[trigger] rr[j]) by {
            if j < r.len() {
                assert(rr[i] == r[i] && rr[j] == r[j]);
            } else {
                assert(rr[i] == r[i]);
            }
        }
    } else {
        let r = s.push(x);
        assert forall|i: int, j: int| 0 <= i < j < r.len() implies !todo_after(#[trigger] r[i], #[trigger] r[j]) by {
            if j < s.len() {
                assert(r[i] == s[i] && r[j] == s[j]);
            } else {
                assert(r[i] == s[i]);
                if i < s.len() - 1 {
                    assert(!todo_after(s[i], s[s.len() - 1]));
                    lemma_todo_order_transitive(s[i], s.last(), x);
                }
            }
        }
    }
}

/// The sort gives the to-dos in display order, each as often as before.
pub proof fn lemma_sorted_todos_sorted_permutation(s: Seq<Todo>)
    ensures
        in_display_order(sorted_todos(s)),
        sorted_todos(s).to_multiset() == s.to_multiset(),
    decreases s.len(),
{
    broadcast use vstd::seq_lib::group_to_multiset_ensures;
    if s.len() > 0 {
        lemma_sorted_todos_sorted_permutation(s.drop_last());
        lemma_insert_in_order_props(sorted_todos(s.drop_last()), s.last());
        assert(s =~= s.drop_last().push(s.last()));
    }
}

} // verus!
