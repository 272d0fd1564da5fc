//! The period descriptor: how many seconds one tick lasts, as a fraction.

use vstd::prelude::*;

verus! {

/// The length of one tick in seconds, as the fraction `nom / denom`.
///
/// The fraction is kept as written: `2/4` and `1/2` are different
/// descriptors, although they denote the same period.
#[derive(Clone, Copy, Debug, PartialEq, Eq, Structural)]
pub struct Ratio {
    /// Numerator of the fraction.
    pub nom: u32,
    /// Denominator of the fraction.
    pub denom: u32,
}

impl Ratio {
    /// A descriptor denotes a period only where its denominator is not zero.
    pub open spec fn wf(self) -> bool {
        self.denom != 0
    }

    /// The time that `ticks` ticks of this period last, in seconds:
    /// `ticks * nom / denom`, as a real number.
    pub open spec fn seconds(self, ticks: nat) -> real
        recommends
            self.wf(),
    {
        (ticks * self.nom) as real / (self.denom as real)
    }
}

/// Two times compare as their cross products do: `a * n1 / d1` is less than
/// (equal to) `b * n2 / d2` exactly where `a * n1 * d2` is less than (equal
/// to) `b * n2 * d1`.
pub proof fn lemma_seconds_cross_multiplied(left: Ratio, a: nat, right: Ratio, b: nat)
    requires
        left.wf(),
        right.wf(),
    ensures
        left.seconds(a) < right.seconds(b) <==> a * left.nom * right.denom < b * right.nom
            * left.denom,
        left.seconds(a) == right.seconds(b) <==> a * left.nom * right.denom == b * right.nom
            * left.denom,
{
    let p = (a * left.nom) as int;
    let q = left.denom as int;
    let s = (b * right.nom) as int;
    let t = right.denom as int;
    assert(((p as real) / (q as real) < (s as real) / (t as real)) <==> p * t < s * q)
        by (nonlinear_arith)
        requires
            q > 0,
            t > 0,
    ;
    assert(((p as real) / (q as real) == (s as real) / (t as real)) <==> p * t == s * q)
        by (nonlinear_arith)
        requires
            q > 0,
            t > 0,
    ;
}

/// Under one period of more than zero seconds, more ticks last longer.
pub proof fn lemma_seconds_same_period(period: Ratio, a: nat, b: nat)
    requires
        period.wf(),
        period.nom != 0,
    ensures
        period.seconds(a) < period.seconds(b) <==> a < b,
        period.seconds(a) == period.seconds(b) <==> a == b,
{
    let n = period.nom as int;
    let d = period.denom as int;
    lemma_seconds_cross_multiplied(period, a, period, b);
    assert((a * n * d < b * n * d <==> a < b) && (a * n * d == b * n * d <==> a == b))
        by (nonlinear_arith)
        requires
            n > 0,
            d > 0,
    ;
}

/// No number of ticks lasts less than zero seconds.
pub proof fn lemma_seconds_nonnegative(period: Ratio, a: nat)
    requires
        period.wf(),
    ensures
        period.seconds(a) >= 0real,
{
    let p = (a * period.nom) as int;
    let d = period.denom as int;
    assert(a * period.nom >= 0) by (nonlinear_arith);
    assert((p as real) / (d as real) >= 0real) by (nonlinear_arith)
        requires
            p >= 0,
            d > 0,
    ;
}

/// The time of a sum of ticks is the sum of the times.
pub proof fn lemma_seconds_additive(period: Ratio, a: nat, b: nat)
    requires
        period.wf(),
    ensures
        period.seconds(a + b) == period.seconds(a) + period.seconds(b),
{
    let n = period.nom as int;
    let d = period.denom as int;
    let p = (a * n) as int;
    let q = (b * n) as int;
    assert((a + b) * n == p + q) by (nonlinear_arith)
        requires
            p == a * n,
            q == b * n,
    ;
    assert(((p + q) as real) / (d as real) == (p as real) / (d as real) + (q as real) / (d as real))
        by (nonlinear_arith)
        requires
            d > 0,
    ;
}

} // verus!
