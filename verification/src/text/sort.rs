//! A stable sort over anything with a weak order.

use vstd::prelude::*;

use super::order::{before, law_text_order, text_lt};

verus! {

/// A type whose values can be brought into order.
pub trait Ranked: Sized {
    /// `self` goes strictly before `other`.
    spec fn precedes(&self, other: &Self) -> bool;

    /// Of two values at most one goes before the other.
    proof fn asymmetric(a: &Self, b: &Self)
        requires
            a.precedes(b),
        ensures
            !b.precedes(a),
    ;

    /// What does not go before something that does not go before a third,
    /// does not go before the third.
    proof fn weak(a: &Self, b: &Self, c: &Self)
        requires
            !a.precedes(b),
            !b.precedes(c),
        ensures
            !a.precedes(c),
    ;

    /// Whether `self` goes strictly before `other`.
    fn is_before(&self, other: &Self) -> (r: bool)
        ensures
            r == self.precedes(other),
    ;
}

/// `order` lists each of the positions below `n` once.
pub open spec fn rearrangement(order: Seq<int>, n: nat) -> bool {
    &&& order.len() == n
    &&& forall|i: int| 0 <= i < n ==> 0 <= #[trigger] order[i] < n
    &&& forall|i: int, j: int| 0 <= i < j < n ==> #[trigger] order[i] != #[trigger] order[j]
}

/// `order` takes `from` to `to`, which is in order; values that neither goes
/// before the other keep the order they had.
pub open spec fn sorts<T: Ranked>(from: Seq<T>, to: Seq<T>, order: Seq<int>) -> bool {
    &&& to.len() == from.len()
    &&& rearrangement(order, from.len())
    &&& forall|i: int| 0 <= i < to.len() ==> to[i] == from[#[trigger] order[i]]
    &&& forall|i: int, j: int|
        #![trigger to[i], to[j]]
        0 <= i < j < to.len() ==> !to[j].precedes(&to[i])
    &&& forall|i: int, j: int|
        0 <= i < j < to.len() && !to[i].precedes(&to[j]) ==> #[trigger] order[i]
            < #[trigger] order[j]
}

/// `to` is `from`, sorted stably.
pub open spec fn stably_sorted<T: Ranked>(from: Seq<T>, to: Seq<T>) -> bool {
    exists|order: Seq<int>| sorts(from, to, order)
}

/// A rearrangement leaves no position out.
pub proof fn lemma_rearrangement_onto(order: Seq<int>, n: nat)
    requires
        rearrangement(order, n),
    ensures
        forall|k: int| 0 <= k < n ==> #[trigger] order.contains(k),
{
    let all = vstd::set_lib::set_int_range(0, n as int);
    vstd::set_lib::lemma_int_range(0, n as int);
    order.unique_seq_to_set();
    assert(order.to_set().subset_of(all));
    vstd::set_lib::lemma_subset_equality(order.to_set(), all);
    assert forall|k: int| 0 <= k < n implies #[trigger] order.contains(k) by {
        assert(all.contains(k));
        assert(order.to_set().contains(k));
    }
}

/// Sorting loses nothing and makes nothing up.
pub proof fn law_sorted_holds<T: Ranked>(from: Seq<T>, to: Seq<T>)
    requires
        stably_sorted(from, to),
    ensures
        to.len() == from.len(),
        forall|x: T| #[trigger] to.contains(x) <==> from.contains(x),
{
    let order = choose|order: Seq<int>| sorts(from, to, order);
    lemma_rearrangement_onto(order, from.len());
    assert forall|x: T| #[trigger] to.contains(x) <==> from.contains(x) by {
        if to.contains(x) {
            let i = choose|i: int| 0 <= i < to.len() && to[i] == x;
            assert(from[order[i]] == x);
        }
        if from.contains(x) {
            let k = choose|k: int| 0 <= k < from.len() && from[k] == x;
            assert(order.contains(k));
            let i = choose|i: int| 0 <= i < order.len() && order[i] == k;
            assert(to[i] == from[order[i]]);
        }
    }
}

proof fn lemma_inserted<T: Ranked>(from: Seq<T>, to: Seq<T>, order: Seq<int>, n: int, at: int)
    requires
        0 <= n < from.len(),
        sorts(from.take(n), to, order),
        0 <= at <= n,
        forall|k: int| #![trigger to[k]] at <= k < n ==> from[n].precedes(&to[k]),
        at > 0 ==> !from[n].precedes(&to[at - 1]),
    ensures
        sorts(from.take(n + 1), to.insert(at, from[n]), order.insert(at, n)),
{
    let to2 = to.insert(at, from[n]);
    let order2 = order.insert(at, n);
    let x = from[n];
    assert forall|i: int| 0 <= i < n + 1 implies 0 <= #[trigger] order2[i] < n + 1 by {
        if i < at {
            assert(order2[i] == order[i]);
        } else if i > at {
            assert(order2[i] == order[i - 1]);
        }
    }
    assert forall|i: int, j: int| 0 <= i < j < n + 1 implies #[trigger] order2[i]
        != #[trigger] order2[j] by {
        let a = if i < at { i } else { i - 1 };
        let b = if j < at { j } else { j - 1 };
        if i != at {
            assert(order2[i] == order[a]);
        }
        if j != at {
            assert(order2[j] == order[b]);
        }
    }
    assert forall|i: int| 0 <= i < n + 1 implies to2[i] == from.take(n + 1)[#[trigger] order2[i]] by {
        if i < at {
            assert(order2[i] == order[i]);
        } else if i > at {
            assert(order2[i] == order[i - 1]);
        }
    }
    assert forall|k: int| #![trigger to[k]] 0 <= k < at implies !x.precedes(&to[k]) by {
        if k < at - 1 {
            assert(!to[at - 1].precedes(&to[k]));
            T::weak(&x, &to[at - 1], &to[k]);
        }
    }
    assert forall|k: int| #![trigger to[k]] at <= k < n implies !to[k].precedes(&x) by {
        T::asymmetric(&x, &to[k]);
    }
    assert forall|i: int, j: int|
        #![trigger to2[i], to2[j]]
        0 <= i < j < n + 1 implies !to2[j].precedes(&to2[i]) by {
        if i < at {
            assert(to2[i] == to[i]);
        } else if i > at {
            assert(to2[i] == to[i - 1]);
        }
        if j < at {
            assert(to2[j] == to[j]);
        } else if j > at {
            assert(to2[j] == to[j - 1]);
        }
    }
    assert forall|i: int, j: int|
        0 <= i < j < n + 1 && !to2[i].precedes(&to2[j]) implies #[trigger] order2[i]
        < #[trigger] order2[j] by {
        if i < at {
            assert(order2[i] == order[i]);
            assert(to2[i] == to[i]);
        } else if i > at {
            assert(order2[i] == order[i - 1]);
            assert(to2[i] == to[i - 1]);
        }
        if j < at {
            assert(order2[j] == order[j]);
            assert(to2[j] == to[j]);
        } else if j > at {
            assert(order2[j] == order[j - 1]);
            assert(to2[j] == to[j - 1]);
        }
    }
}

/// Sorts `v` stably.
pub fn stable_sort<T: Ranked>(v: Vec<T>) -> (r: Vec<T>)
    ensures
        stably_sorted(v@, r@),
{
    let ghost from = v@;
    let ghost mut n: int = 0;
    let ghost mut order: Seq<int> = Seq::empty();
    let mut v: Vec<T> = v;
    let mut r: Vec<T> = Vec::new();
    assert(sorts(from.take(0), r@, order));
    while v.len() > 0
        invariant
            0 <= n <= from.len(),
            v@ == from.skip(n),
            sorts(from.take(n), r@, order),
        decreases v.len(),
    {
        let x: T = v.remove(0);
        assert(x == from[n]);
        let mut at: usize = r.len();
        while at > 0 && x.is_before(&r[at - 1])
            invariant
                at <= r.len(),
                forall|k: int| #![trigger r@[k]] at <= k < r.len() ==> x.precedes(&r@[k]),
            decreases at,
        {
            at -= 1;
        }
        proof {
            lemma_inserted(from, r@, order, n, at as int);
            order = order.insert(at as int, n);
            n = n + 1;
        }
        r.insert(at, x);
    }
    assert(from.take(n) == from);
    r
}

impl Ranked for String {
    open spec fn precedes(&self, other: &Self) -> bool {
        text_lt(self@, other@)
    }

    proof fn asymmetric(a: &Self, b: &Self) {
        law_text_order(a@, b@, a@);
    }

    proof fn weak(a: &Self, b: &Self, c: &Self) {
        law_text_order(a@, b@, c@);
        law_text_order(b@, c@, a@);
        law_text_order(a@, c@, b@);
        law_text_order(b@, a@, c@);
        law_text_order(c@, b@, a@);
    }

    fn is_before(&self, other: &Self) -> (r: bool) {
        before(self.as_str(), other.as_str())
    }
}

/// What is sorted stably is the same values in another order, each as often as
/// before; none goes before one that stands ahead of it, and values that are
/// equal in rank keep the order they had.
pub proof fn law_sorted_stable<T: Ranked>(from: Seq<T>, to: Seq<T>)
    requires
        stably_sorted(from, to),
    ensures
        exists|order: Seq<int>|
            {
                &&& #[trigger] rearrangement(order, from.len())
                &&& to.len() == from.len()
                &&& forall|i: int| 0 <= i < to.len() ==> to[i] == from[#[trigger] order[i]]
                &&& forall|i: int, j: int|
                    0 <= i < j < to.len() && !to[i].precedes(&to[j]) ==> #[trigger] order[i]
                        < #[trigger] order[j]
            },
        forall|i: int, j: int|
            #![trigger to[i], to[j]]
            0 <= i < j < to.len() ==> !to[j].precedes(&to[i]),
{
    let order = choose|order: Seq<int>| sorts(from, to, order);
    assert(rearrangement(order, from.len()));
}

} // verus!
