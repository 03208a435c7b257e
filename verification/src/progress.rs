//! How far a task is.

use vstd::prelude::*;

verus! {

/// How far a task is: the part of a whole that is done, exactly. The parts are
/// kept as they are given, so that whoever shows the number divides them.
#[derive(Clone, Copy, Debug)]
pub struct Progress {
    part: u128,
    whole: u128,
}

/// What a [`Progress`] holds.
pub struct ProgressView {
    pub part: nat,
    pub whole: nat,
}

impl View for Progress {
    type V = ProgressView;

    closed spec fn view(&self) -> ProgressView {
        ProgressView { part: self.part as nat, whole: self.whole as nat }
    }
}

/// Nothing is done.
pub open spec fn nothing() -> ProgressView {
    ProgressView { part: 0, whole: 1 }
}

/// `part` of `whole` is done.
pub open spec fn part_of(part: int, whole: int) -> ProgressView {
    ProgressView { part: part as nat, whole: whole as nat }
}

/// `a` is no further than `b`: the first fraction is at most the second.
pub open spec fn at_most(a: ProgressView, b: ProgressView) -> bool {
    a.part * b.whole <= b.part * a.whole
}

/// The further of the two; the first where they are equal.
pub open spec fn further(a: ProgressView, b: ProgressView) -> ProgressView {
    if at_most(b, a) {
        a
    } else {
        b
    }
}

/// Whether `a / b` is at most `c / d`, by comparing the whole quotients and then
/// what is left of them.
fn fraction_at_most(a: u128, b: u128, c: u128, d: u128) -> (r: bool)
    requires
        b > 0,
        d > 0,
    ensures
        r == (a * d <= c * b),
    decreases b + d,
{
    let q: u128 = a / b;
    let p: u128 = c / d;
    let x: u128 = a % b;
    let y: u128 = c % d;
    proof {
        lemma_quotients(a as int, b as int, c as int, d as int);
    }
    if q < p {
        true
    } else if q > p {
        false
    } else if x == 0 {
        true
    } else if y == 0 {
        assert(x * d > 0) by (nonlinear_arith)
            requires
                x > 0,
                d > 0,
        ;
        false
    } else {
        let r: bool = fraction_at_most(d, y, b, x);
        assert(d * x == x * d && b * y == y * b) by (nonlinear_arith);
        r
    }
}

proof fn lemma_quotients(a: int, b: int, c: int, d: int)
    requires
        a >= 0,
        b > 0,
        c >= 0,
        d > 0,
    ensures
        a / b < c / d ==> a * d <= c * b,
        a / b > c / d ==> a * d > c * b,
        a / b == c / d ==> (a * d <= c * b <==> (a % b) * d <= (c % d) * b),
        (a % b) == 0 ==> (a % b) * d <= (c % d) * b,
{
    let (q, x, p, y) = (a / b, a % b, c / d, c % d);
    vstd::arithmetic::div_mod::lemma_fundamental_div_mod(a, b);
    vstd::arithmetic::div_mod::lemma_fundamental_div_mod(c, d);
    assert(a * d == q * (b * d) + x * d) by (nonlinear_arith)
        requires
            a == b * q + x,
    ;
    assert(c * b == p * (b * d) + y * b) by (nonlinear_arith)
        requires
            c == d * p + y,
    ;
    assert(0 <= x * d < b * d && 0 <= y * b < b * d) by (nonlinear_arith)
        requires
            0 <= x < b,
            0 <= y < d,
    ;
    assert(b * d > 0) by (nonlinear_arith)
        requires
            b > 0,
            d > 0,
    ;
    if x == 0 {
        assert(x * d == 0) by (nonlinear_arith)
            requires
                x == 0,
        ;
    }
    if q < p {
        assert((q + 1) * (b * d) <= p * (b * d)) by (nonlinear_arith)
            requires
                q + 1 <= p,
                b * d > 0,
        ;
        assert((q + 1) * (b * d) == q * (b * d) + b * d) by (nonlinear_arith);
    } else if q > p {
        assert((p + 1) * (b * d) <= q * (b * d)) by (nonlinear_arith)
            requires
                p + 1 <= q,
                b * d > 0,
        ;
        assert((p + 1) * (b * d) == p * (b * d) + b * d) by (nonlinear_arith);
    }
}

impl Progress {
    #[verifier::type_invariant]
    spec fn wf(self) -> bool {
        self.whole > 0
    }

    /// Nothing is done.
    pub fn none() -> (r: Progress)
        ensures
            r@ == nothing(),
    {
        Progress { part: 0, whole: 1 }
    }

    /// `part` of `whole` is done.
    pub fn of(part: u128, whole: u128) -> (r: Progress)
        requires
            whole > 0,
        ensures
            r@ == part_of(part as int, whole as int),
    {
        Progress { part, whole }
    }

    /// The part that is done, and the whole, which is not zero.
    pub fn fraction(&self) -> (r: (u128, u128))
        ensures
            r.0 == self@.part,
            r.1 == self@.whole,
            r.1 > 0,
    {
        proof {
            use_type_invariant(self);
        }
        (self.part, self.whole)
    }

    /// The further of the two; the first where they are equal.
    pub fn further(self, other: Progress) -> (r: Progress)
        ensures
            r@ == further(self@, other@),
            at_most(self@, r@),
            at_most(other@, r@),
    {
        proof {
            use_type_invariant(&self);
            use_type_invariant(&other);
            law_further(self@, other@, self@);
        }
        if fraction_at_most(other.part, other.whole, self.part, self.whole) {
            self
        } else {
            other
        }
    }
}

/// The order of progress is total and transitive, and neither of two is further
/// than the further one.
pub proof fn law_further(a: ProgressView, b: ProgressView, c: ProgressView)
    requires
        a.whole > 0,
        b.whole > 0,
        c.whole > 0,
    ensures
        at_most(a, a),
        at_most(a, b) || at_most(b, a),
        at_most(a, b) && at_most(b, c) ==> at_most(a, c),
        at_most(a, further(a, b)),
        at_most(b, further(a, b)),
{
    if at_most(a, b) && at_most(b, c) {
        assert(a.part * c.whole <= c.part * a.whole) by (nonlinear_arith)
            requires
                a.part * b.whole <= b.part * a.whole,
                b.part * c.whole <= c.part * b.whole,
                a.whole > 0,
                b.whole > 0,
                c.whole > 0,
                a.part >= 0,
                b.part >= 0,
                c.part >= 0,
        {
            assert(a.part * b.whole * c.whole <= b.part * a.whole * c.whole) by (nonlinear_arith)
                requires
                    a.part * b.whole <= b.part * a.whole,
                    c.whole > 0,
            ;
            assert(b.part * c.whole * a.whole <= c.part * b.whole * a.whole) by (nonlinear_arith)
                requires
                    b.part * c.whole <= c.part * b.whole,
                    a.whole > 0,
            ;
            assert((a.part * c.whole) * b.whole <= (c.part * a.whole) * b.whole);
        }
    }
}

/// Parts of the same whole are compared by the parts, and a part of a whole is
/// as far as a multiple of it of the same multiple.
pub proof fn law_at_most(a: nat, b: nat, whole: nat, times: nat)
    requires
        whole > 0,
        times > 0,
    ensures
        at_most(ProgressView { part: a, whole }, ProgressView { part: b, whole }) <==> a <= b,
        at_most(
            ProgressView { part: a, whole },
            ProgressView { part: a * times, whole: whole * times },
        ),
        at_most(
            ProgressView { part: a * times, whole: whole * times },
            ProgressView { part: a, whole },
        ),
        nothing().part == 0,
        part_of(a as int, whole as int) == (ProgressView { part: a, whole }),
{
    assert(a * whole <= b * whole <==> a <= b) by (nonlinear_arith)
        requires
            whole > 0,
    ;
    assert(a * (whole * times) == (a * times) * whole) by (nonlinear_arith);
}

} // verus!
