//! Left-to-right order of buttons and windows, and a stable sort by it.

use vstd::prelude::*;

use crate::types::{TaskbarButton, WindowInfo};

verus! {

/// Things that have a place in a left-to-right order.
pub trait Placed: Sized {
    /// `self` may stand before `other`.
    spec fn not_after(&self, other: &Self) -> bool;

    /// Whether `self` may stand before `other`.
    fn is_not_after(&self, other: &Self) -> (r: bool)
        ensures
            r == self.not_after(other),
    ;

    /// Of two things, one may stand before the other.
    proof fn order_is_total(a: &Self, b: &Self)
        ensures
            a.not_after(b) || b.not_after(a),
    ;

    /// What may stand before `b` may stand before everything that `b` may stand before.
    proof fn order_is_transitive(a: &Self, b: &Self, c: &Self)
        requires
            a.not_after(b),
            b.not_after(c),
        ensures
            a.not_after(c),
    ;
}

/// Handles are ordered as addresses: a negative value is an address in the upper half.
pub open spec fn address_not_after(a: isize, b: isize) -> bool {
    if (a < 0) == (b < 0) {
        a <= b
    } else {
        b < 0
    }
}

/// Buttons are ordered by their left edge.
impl Placed for TaskbarButton {
    open spec fn not_after(&self, other: &Self) -> bool {
        self.rect.left <= other.rect.left
    }

    fn is_not_after(&self, other: &Self) -> (r: bool) {
        self.rect.left <= other.rect.left
    }

    proof fn order_is_total(a: &Self, b: &Self) {
    }

    proof fn order_is_transitive(a: &Self, b: &Self, c: &Self) {
    }
}

/// Windows are ordered by their left edge, and by handle where that is the same.
impl Placed for WindowInfo {
    open spec fn not_after(&self, other: &Self) -> bool {
        ||| self.rect.left < other.rect.left
        ||| self.rect.left == other.rect.left && address_not_after(self.hwnd, other.hwnd)
    }

    fn is_not_after(&self, other: &Self) -> (r: bool) {
        if self.rect.left != other.rect.left {
            self.rect.left < other.rect.left
        } else if (self.hwnd < 0) == (other.hwnd < 0) {
            self.hwnd <= other.hwnd
        } else {
            other.hwnd < 0
        }
    }

    proof fn order_is_total(a: &Self, b: &Self) {
    }

    proof fn order_is_transitive(a: &Self, b: &Self, c: &Self) {
    }
}

/// `s` with `x` behind the last element that may stand before it.
pub open spec fn placed_into<T: Placed>(s: Seq<T>, x: T) -> Seq<T>
    decreases s.len(),
{
    if s.len() == 0 {
        seq![x]
    } else if s.last().not_after(&x) {
        s.push(x)
    } else {
        placed_into(s.drop_last(), x).push(s.last())
    }
}

/// `s` in order, with elements of the same place kept in the order that they had.
pub open spec fn in_order<T: Placed>(s: Seq<T>) -> Seq<T>
    decreases s.len(),
{
    if s.len() == 0 {
        s
    } else {
        placed_into(in_order(s.drop_last()), s.last())
    }
}

/// Each element may stand before every later one.
pub open spec fn is_ordered<T: Placed>(s: Seq<T>) -> bool {
    forall|i: int, j: int|
        #![trigger s[i], s[j]]
        0 <= i < j < s.len() ==> s[i].not_after(&s[j])
}

proof fn lemma_placed_into_at<T: Placed>(s: Seq<T>, x: T, at: int)
    requires
        0 <= at <= s.len(),
        at > 0 ==> s[at - 1].not_after(&x),
        forall|i: int| at <= i < s.len() ==> !#[trigger] s[i].not_after(&x),
    ensures
        placed_into(s, x) == s.insert(at, x),
    decreases s.len(),
{
    if s.len() > 0 && at < s.len() {
        assert(!s[s.len() - 1].not_after(&x));
        lemma_placed_into_at(s.drop_last(), x, at);
        assert(s.drop_last().insert(at, x).push(s.last()) == s.insert(at, x));
    } else {
        assert(s.push(x) == s.insert(at, x));
        assert(s.len() == 0 ==> s.push(x) == seq![x]);
    }
}

proof fn lemma_placed_into<T: Placed>(s: Seq<T>, x: T)
    requires
        is_ordered(s),
    ensures
        is_ordered(placed_into(s, x)),
        placed_into(s, x).to_multiset() == s.to_multiset().insert(x),
        placed_into(s, x).len() == s.len() + 1,
        forall|i: int| 0 <= i < placed_into(s, x).len() ==> (#[trigger] placed_into(s, x)[i] == x
            || s.contains(placed_into(s, x)[i])),
    decreases s.len(),
{
    broadcast use vstd::seq_lib::group_to_multiset_ensures;

    if s.len() == 0 {
        assert(placed_into(s, x) == s.push(x));
    } else if s.last().not_after(&x) {
        let r = s.push(x);
        assert forall|i: int, j: int|
            #![trigger r[i], r[j]]
            0 <= i < j < r.len() implies r[i].not_after(&r[j]) by {
            if j == s.len() && i < s.len() - 1 {
                T::order_is_transitive(&s[i], &s.last(), &x);
            }
        }
    } else {
        let rest = s.drop_last();
        let last = s.last();
        lemma_placed_into(rest, x);
        T::order_is_total(&last, &x);
        let p = placed_into(rest, x);
        let r = p.push(last);
        assert forall|i: int, j: int|
            #![trigger r[i], r[j]]
            0 <= i < j < r.len() implies r[i].not_after(&r[j]) by {
            if j == p.len() {
                assert(p[i] == x || rest.contains(p[i]));
                if p[i] != x {
                    let k = choose|k: int| 0 <= k < rest.len() && rest[k] == p[i];
                    assert(s[k].not_after(&s[s.len() - 1]));
                }
            }
        }
        assert(rest.push(last) == s);
        assert(rest.to_multiset().insert(last) == s.to_multiset());
        assert(r.to_multiset() =~= s.to_multiset().insert(x));
        assert forall|i: int| 0 <= i < r.len() implies (#[trigger] r[i] == x || s.contains(
            r[i],
        )) by {
            if i < p.len() {
                assert(p[i] == x || rest.contains(p[i]));
                if p[i] != x {
                    let k = choose|k: int| 0 <= k < rest.len() && rest[k] == p[i];
                    assert(s[k] == r[i]);
                }
            } else {
                assert(s[s.len() - 1] == r[i]);
            }
        }
    }
}

/// Sorting orders the elements left to right and neither adds nor drops one.
pub proof fn law_sort_orders<T: Placed>(s: Seq<T>)
    ensures
        is_ordered(in_order(s)),
        in_order(s).to_multiset() == s.to_multiset(),
        in_order(s).len() == s.len(),
    decreases s.len(),
{
    broadcast use vstd::seq_lib::group_to_multiset_ensures;

    if s.len() > 0 {
        law_sort_orders(s.drop_last());
        lemma_placed_into(in_order(s.drop_last()), s.last());
        assert(s.drop_last().push(s.last()) == s);
    }
}

/// Sorting keeps the members.
pub proof fn lemma_sort_members<T: Placed>(s: Seq<T>)
    ensures
        forall|x: T| #[trigger] in_order(s).contains(x) <==> s.contains(x),
{
    broadcast use vstd::seq_lib::group_to_multiset_ensures;

    law_sort_orders(s);
    assert forall|x: T| #[trigger] in_order(s).contains(x) <==> s.contains(x) by {
        assert(in_order(s).contains(x) <==> in_order(s).to_multiset().count(x) > 0);
        assert(s.contains(x) <==> s.to_multiset().count(x) > 0);
    }
}

/// Sorting has nothing left to do on what it has sorted.
pub proof fn law_sort_is_idempotent<T: Placed>(s: Seq<T>)
    ensures
        in_order(in_order(s)) == in_order(s),
{
    law_sort_orders(s);
    lemma_ordered_stays(in_order(s));
}

proof fn lemma_ordered_stays<T: Placed>(s: Seq<T>)
    requires
        is_ordered(s),
    ensures
        in_order(s) == s,
    decreases s.len(),
{
    if s.len() > 0 {
        lemma_ordered_stays(s.drop_last());
        if s.len() > 1 {
            assert(s[s.len() - 2].not_after(&s[s.len() - 1]));
            assert(s.drop_last().last() == s[s.len() - 2]);
        }
        assert(placed_into(s.drop_last(), s.last()) == s);
    }
}

/// The elements of `s` that have the same place as `x`.
pub open spec fn same_place<T: Placed>(s: Seq<T>, x: T) -> Seq<T> {
    s.filter(|y: T| y.not_after(&x) && x.not_after(&y))
}

/// Sorting keeps elements of the same place in the order that they had.
pub proof fn law_sort_is_stable<T: Placed>(s: Seq<T>, x: T)
    ensures
        same_place(in_order(s), x) == same_place(s, x),
    decreases s.len(),
{
    if s.len() > 0 {
        law_sort_is_stable(s.drop_last(), x);
        law_sort_orders(s.drop_last());
        lemma_same_place_placed_into(in_order(s.drop_last()), s.last(), x);
        reveal(Seq::filter);
    }
}

proof fn lemma_same_place_placed_into<T: Placed>(s: Seq<T>, y: T, x: T)
    requires
        is_ordered(s),
    ensures
        same_place(placed_into(s, y), x) == if y.not_after(&x) && x.not_after(&y) {
            same_place(s, x).push(y)
        } else {
            same_place(s, x)
        },
    decreases s.len(),
{
    reveal(Seq::filter);
    if s.len() == 0 {
        assert(seq![y].drop_last() == s);
        assert(same_place(s, x) == Seq::<T>::empty());
        assert(same_place(s, x).push(y) == seq![y]);
        assert(seq![y].last() == y);
    } else if s.last().not_after(&y) {
        assert(s.push(y).drop_last() == s);
    } else {
        lemma_same_place_placed_into(s.drop_last(), y, x);
        let p = placed_into(s.drop_last(), y);
        assert(p.push(s.last()).drop_last() == p);
        if y.not_after(&x) && x.not_after(&y) && s.last().not_after(&x) && x.not_after(
            &s.last(),
        ) {
            T::order_is_transitive(&s.last(), &x, &y);
        }
    }
}

/// Sorts left to right; elements of the same place keep their order.
pub fn sort<T: Placed>(items: Vec<T>) -> (sorted: Vec<T>)
    ensures
        sorted@ == in_order(items@),
{
    let mut rest: Vec<T> = items;
    let mut sorted: Vec<T> = Vec::new();
    let ghost mut done: int = 0;
    while rest.len() > 0
        invariant
            0 <= done <= items@.len(),
            rest@ == items@.skip(done),
            sorted@ == in_order(items@.take(done)),
            sorted@.len() == done,
        decreases rest@.len(),
    {
        let x = rest.remove(0);
        let mut at: usize = sorted.len();
        while at > 0 && !sorted[at - 1].is_not_after(&x)
            invariant
                at <= sorted@.len(),
                forall|i: int| at <= i < sorted@.len() ==> !#[trigger] sorted@[i].not_after(&x),
            decreases at,
        {
            at = at - 1;
        }
        proof {
            lemma_placed_into_at(sorted@, x, at as int);
            assert(items@.take(done + 1).drop_last() == items@.take(done));
            assert(items@.take(done + 1).last() == x);
            assert(items@.skip(done).remove(0) == items@.skip(done + 1));
            done = done + 1;
        }
        sorted.insert(at, x);
    }
    assert(items@.take(done) == items@);
    sorted
}

/// Sorted windows stand from left to right. Where two start at the same place, the one with the
/// lower handle is first; a negative handle is a high address and stands behind the others.
pub proof fn law_windows_stand_by_left_edge(s: Seq<WindowInfo>, i: int, j: int)
    requires
        0 <= i < j < s.len(),
    ensures
        ({
            let (a, b) = (in_order(s)[i], in_order(s)[j]);
            &&& a.rect.left <= b.rect.left
            &&& a.rect.left == b.rect.left && a.hwnd < 0 ==> b.hwnd < 0
            &&& a.rect.left == b.rect.left && (a.hwnd < 0 <==> b.hwnd < 0) ==> a.hwnd <= b.hwnd
        }),
{
    law_sort_orders(s);
    let (a, b) = (in_order(s)[i], in_order(s)[j]);
    assert(a.not_after(&b));
}

/// Sorted buttons stand from left to right, and those that start at the same place stay in the order
/// that they had.
pub proof fn law_buttons_stand_by_left_edge(s: Seq<TaskbarButton>, i: int, j: int, left: i32)
    requires
        0 <= i < j < s.len(),
    ensures
        in_order(s)[i].rect.left <= in_order(s)[j].rect.left,
        in_order(s).filter(|b: TaskbarButton| b.rect.left == left) == s.filter(
            |b: TaskbarButton| b.rect.left == left,
        ),
{
    law_sort_orders(s);
    let (a, b) = (in_order(s)[i], in_order(s)[j]);
    assert(a.not_after(&b));
    let x = TaskbarButton { rect: crate::types::Rect { left, ..s[i].rect }, ..s[i] };
    law_sort_is_stable(s, x);
    let same = |y: TaskbarButton| y.not_after(&x) && x.not_after(&y);
    let here = |b: TaskbarButton| b.rect.left == left;
    crate::lists::lemma_filter_agrees(s, same, here);
    crate::lists::lemma_filter_agrees(in_order(s), same, here);
}

} // verus!
