//! Stable sorting.
use crate::text_map::{comes_before, text_less, texts_are_ordered};
use vstd::prelude::*;

verus! {

/// Values with an order.
pub trait Sortable: Sized {
    /// Whether this value comes before the other.
    spec fn precedes(&self, other: &Self) -> bool;

    /// The order is strict, and what neither precedes nor follows is in one place.
    proof fn order_laws(a: &Self, b: &Self, c: &Self)
        ensures
            !a.precedes(a),
            a.precedes(b) && b.precedes(c) ==> a.precedes(c),
            !a.precedes(b) && !b.precedes(c) ==> !a.precedes(c),
    ;

    fn is_before(&self, other: &Self) -> (r: bool)
        ensures
            r == self.precedes(other),
    ;
}

/// Whether `v[i]` stands before `v[j]` once `v` is sorted: by the order, and where that does
/// not decide, as before.
pub open spec fn sorts_before<T: Sortable>(v: Seq<T>, i: int, j: int) -> bool {
    v[i].precedes(&v[j]) || (!v[j].precedes(&v[i]) && i < j)
}

/// Whether `p` lists the positions of `v` in the order in which they stand once `v` is sorted.
pub open spec fn is_order_of<T: Sortable>(p: Seq<int>, v: Seq<T>) -> bool {
    &&& p.len() == v.len()
    &&& forall|i: int| 0 <= i < p.len() ==> 0 <= (#[trigger] p[i]) < v.len()
    &&& forall|k: int| 0 <= k < v.len() ==> #[trigger] p.contains(k)
    &&& forall|i: int, j: int|
        0 <= i < j < p.len() ==> sorts_before(v, #[trigger] p[i], #[trigger] p[j])
}

/// Positions as numbers.
pub open spec fn positions(p: Seq<usize>) -> Seq<int> {
    Seq::new(p.len(), |i: int| p[i] as int)
}

/// `v` with its values at the positions `p`.
pub open spec fn arranged<T>(v: Seq<T>, p: Seq<int>) -> Seq<T> {
    Seq::new(p.len(), |i: int| v[p[i]])
}

/// Whether `r` is `v` sorted: the same values, in order, and those in one place as before.
pub open spec fn is_sorted_of<T: Sortable>(r: Seq<T>, v: Seq<T>) -> bool {
    exists|p: Seq<int>| #[trigger] is_order_of(p, v) && r == arranged(v, p)
}

proof fn lemma_sorts_before<T: Sortable>(v: Seq<T>, i: int, j: int, k: int)
    requires
        0 <= i < v.len(),
        0 <= j < v.len(),
        0 <= k < v.len(),
    ensures
        sorts_before(v, i, j) && sorts_before(v, j, k) ==> sorts_before(v, i, k),
        i != j ==> sorts_before(v, i, j) || sorts_before(v, j, i),
{
    T::order_laws(&v[i], &v[j], &v[k]);
    T::order_laws(&v[k], &v[i], &v[j]);
    T::order_laws(&v[j], &v[k], &v[i]);
    T::order_laws(&v[k], &v[j], &v[i]);
    T::order_laws(&v[j], &v[i], &v[k]);
    T::order_laws(&v[i], &v[k], &v[j]);
    T::order_laws(&v[i], &v[j], &v[i]);
    T::order_laws(&v[j], &v[i], &v[j]);
}

/// Whether `p` lists the positions from `lo` to `hi` in the order in which they stand once `v`
/// is sorted.
spec fn is_order_within<T: Sortable>(p: Seq<usize>, v: Seq<T>, lo: int, hi: int) -> bool {
    &&& p.len() == hi - lo
    &&& forall|i: int| 0 <= i < p.len() ==> lo <= (#[trigger] p[i]) < hi
    &&& forall|k: usize| lo <= k < hi ==> #[trigger] p.contains(k)
    &&& forall|i: int, j: int|
        0 <= i < j < p.len() ==> sorts_before(v, #[trigger] p[i] as int, #[trigger] p[j] as int)
}

#[verifier::loop_isolation(false)]
fn merge<T: Sortable>(
    v: &Vec<T>,
    left: &Vec<usize>,
    right: &Vec<usize>,
    Ghost(lo): Ghost<int>,
    Ghost(mid): Ghost<int>,
    Ghost(hi): Ghost<int>,
) -> (out: Vec<usize>)
    requires
        0 <= lo <= mid <= hi <= v@.len(),
        is_order_within(left@, v@, lo, mid),
        is_order_within(right@, v@, mid, hi),
    ensures
        is_order_within(out@, v@, lo, hi),
{
    let mut out: Vec<usize> = Vec::new();
    let mut i: usize = 0;
    let mut j: usize = 0;
    while i < left.len() || j < right.len()
        invariant
            i <= left@.len(),
            j <= right@.len(),
            out@.len() == i + j,
            forall|a: int| 0 <= a < out@.len() ==> lo <= (#[trigger] out@[a]) < hi,
            forall|a: int, b: int|
                0 <= a < b < out@.len() ==> sorts_before(
                    v@,
                    #[trigger] out@[a] as int,
                    #[trigger] out@[b] as int,
                ),
            forall|a: int, b: int|
                0 <= a < out@.len() && i <= b < left@.len() ==> sorts_before(
                    v@,
                    #[trigger] out@[a] as int,
                    #[trigger] left@[b] as int,
                ),
            forall|a: int, b: int|
                0 <= a < out@.len() && j <= b < right@.len() ==> sorts_before(
                    v@,
                    #[trigger] out@[a] as int,
                    #[trigger] right@[b] as int,
                ),
            forall|a: int| 0 <= a < i ==> out@.contains(#[trigger] left@[a]),
            forall|a: int| 0 <= a < j ==> out@.contains(#[trigger] right@[a]),
        decreases left@.len() - i + right@.len() - j,
    {
        let take_right = i >= left.len() || (j < right.len() && v[right[j]].is_before(&v[left[i]]));
        let ghost out0 = out@;
        let next: usize = if take_right {
            right[j]
        } else {
            left[i]
        };
        proof {
            if i < left@.len() && j < right@.len() {
                lemma_sorts_before(v@, left@[i as int] as int, right@[j as int] as int, 0);
            }
            assert forall|b: int| i <= b < left@.len() && (take_right || b > i) implies sorts_before(
                v@,
                next as int,
                #[trigger] left@[b] as int,
            ) by {
                if take_right && b > i {
                    lemma_sorts_before(
                        v@,
                        next as int,
                        left@[i as int] as int,
                        left@[b] as int,
                    );
                }
            }
            assert forall|b: int| j <= b < right@.len() && (!take_right || b
                > j) implies sorts_before(v@, next as int, #[trigger] right@[b] as int) by {
                if !take_right && b > j {
                    lemma_sorts_before(
                        v@,
                        next as int,
                        right@[j as int] as int,
                        right@[b] as int,
                    );
                }
            }
        }
        out.push(next);
        if take_right {
            j += 1;
        } else {
            i += 1;
        }
        proof {
            assert(out@[out0.len() as int] == next);
            assert forall|x: usize| out0.contains(x) implies out@.contains(x) by {
                let a = choose|a: int| 0 <= a < out0.len() && out0[a] == x;
                assert(out@[a] == x);
            }
            assert(out@.contains(next));
        }
    }
    proof {
        assert forall|k: usize| lo <= k < hi implies #[trigger] out@.contains(k) by {
            if k < mid {
                assert(left@.contains(k));
                let a = choose|a: int| 0 <= a < left@.len() && left@[a] == k;
                assert(out@.contains(left@[a]));
            } else {
                assert(right@.contains(k));
                let a = choose|a: int| 0 <= a < right@.len() && right@[a] == k;
                assert(out@.contains(right@[a]));
            }
        }
    }
    out
}

fn order_within<T: Sortable>(v: &Vec<T>, lo: usize, hi: usize) -> (p: Vec<usize>)
    requires
        lo <= hi <= v@.len(),
    ensures
        is_order_within(p@, v@, lo as int, hi as int),
    decreases hi - lo,
{
    if hi - lo <= 1 {
        let mut p: Vec<usize> = Vec::new();
        if lo < hi {
            p.push(lo);
            assert(p@[0] == lo);
        }
        return p;
    }
    let mid: usize = lo + (hi - lo) / 2;
    let left = order_within(v, lo, mid);
    let right = order_within(v, mid, hi);
    merge(v, &left, &right, Ghost(lo as int), Ghost(mid as int), Ghost(hi as int))
}

/// The positions of `v` in the order in which they stand once `v` is sorted.
pub fn sorted_order<T: Sortable>(v: &Vec<T>) -> (p: Vec<usize>)
    ensures
        is_order_of(positions(p@), v@),
{
    let p = order_within(v, 0, v.len());
    proof {
        let q = positions(p@);
        assert forall|k: int| 0 <= k < v@.len() implies #[trigger] q.contains(k) by {
            let n: usize = k as usize;
            assert(p@.contains(n));
            let i = choose|i: int| 0 <= i < p@.len() && p@[i] == n;
            assert(q[i] == k);
        }
        assert forall|i: int, j: int| 0 <= i < j < q.len() implies sorts_before(
            v@,
            #[trigger] q[i],
            #[trigger] q[j],
        ) by {
            assert(sorts_before(v@, p@[i] as int, p@[j] as int));
        }
    }
    p
}

/// `v` sorted.
pub fn sorted<T: Sortable>(v: Vec<T>) -> (r: Vec<T>)
    ensures
        is_sorted_of(r@, v@),
{
    let order = sorted_order(&v);
    let ghost p = positions(order@);
    let ghost given = v@;
    let mut v = v;
    let mut slots: Vec<Option<T>> = Vec::new();
    let n = v.len();
    while v.len() > 0
        invariant
            n == given.len(),
            v@.len() + slots@.len() == n,
            v@ == given.take(v@.len() as int),
            forall|k: int| 0 <= k < slots@.len() ==> #[trigger] slots@[k] == Some(given[n - 1 - k]),
        decreases v@.len(),
    {
        let x = v.pop();
        slots.push(x);
    }
    let mut r: Vec<T> = Vec::new();
    let mut i: usize = 0;
    while i < n
        invariant
            i <= n,
            n == given.len(),
            slots@.len() == n,
            positions(order@) == p,
            is_order_of(p, given),
            r@ == arranged(given, p).take(i as int),
            forall|k: int|
                0 <= k < n ==> (exists|a: int| 0 <= a < i && p[a] == n - 1 - k)
                    || #[trigger] slots@[k] == Some(given[n - 1 - k]),
        decreases n - i,
    {
        assert(p[i as int] == order@[i as int]);
        let at: usize = n - 1 - order[i];
        proof {
            assert forall|a: int| 0 <= a < i implies p[a] != p[i as int] by {
                assert(sorts_before(given, p[a], p[i as int]));
                T::order_laws(&given[p[a]], &given[p[a]], &given[p[a]]);
            }
        }
        let ghost slots0 = slots@;
        let mut x: Option<T> = None;
        core::mem::swap(&mut x, &mut slots[at]);
        match x {
            Some(x) => {
                r.push(x);
            },
            None => {
                assert(false);
            },
        }
        i += 1;
        proof {
            assert(r@ =~= arranged(given, p).take(i as int));
            assert forall|k: int| 0 <= k < n implies (exists|a: int|
                0 <= a < i && p[a] == n - 1 - k) || #[trigger] slots@[k] == Some(
                given[n - 1 - k],
            ) by {
                if k == at {
                    assert(p[i - 1] == n - 1 - k);
                } else {
                    assert(slots@[k] == slots0[k]);
                    if exists|a: int| 0 <= a < i - 1 && p[a] == n - 1 - k {
                        let a = choose|a: int| 0 <= a < i - 1 && p[a] == n - 1 - k;
                        assert(0 <= a < i && p[a] == n - 1 - k);
                    }
                }
            }
        }
    }
    assert(r@ =~= arranged(given, p));
    r
}

impl Sortable for String {
    open spec fn precedes(&self, other: &String) -> bool {
        text_less(self@, other@)
    }

    proof fn order_laws(a: &String, b: &String, c: &String) {
        texts_are_ordered(a@, b@, c@);
        texts_are_ordered(b@, c@, a@);
        texts_are_ordered(c@, a@, b@);
        texts_are_ordered(c@, b@, a@);
    }

    fn is_before(&self, other: &String) -> (r: bool) {
        comes_before(self.as_str(), other.as_str())
    }
}

/// What is sorted holds the same values as before and comes in order: no value comes before one
/// that it follows.
pub proof fn sorting_keeps_every_value<T: Sortable>(r: Seq<T>, v: Seq<T>)
    requires
        is_sorted_of(r, v),
    ensures
        r.len() == v.len(),
        forall|e: T| r.contains(e) == v.contains(e),
        forall|i: int, j: int|
            #![trigger r[i], r[j]]
            0 <= i < j < r.len() ==> !r[j].precedes(&r[i]),
{
    let p = choose|p: Seq<int>| #[trigger] is_order_of(p, v) && r == arranged(v, p);
    assert forall|e: T| r.contains(e) == v.contains(e) by {
        if v.contains(e) {
            let k = choose|k: int| 0 <= k < v.len() && v[k] == e;
            assert(p.contains(k));
            let i = choose|i: int| 0 <= i < p.len() && p[i] == k;
            assert(r[i] == e);
        }
        if r.contains(e) {
            let i = choose|i: int| 0 <= i < r.len() && r[i] == e;
            assert(v[p[i]] == e);
        }
    }
    assert forall|i: int, j: int|
        #![trigger r[i], r[j]]
        0 <= i < j < r.len() implies !r[j].precedes(&r[i]) by {
        assert(sorts_before(v, p[i], p[j]));
        T::order_laws(&r[i], &r[j], &r[i]);
    }
}

} // verus!
