//! Basis reduction: what a pair of tick periods needs to be compared.
//!
//! A duration of `a` ticks of period `n1/d1` and one of `b` ticks of period
//! `n2/d2` stand in the same order as the integers `a * (d2 * n1)` and
//! `b * (d1 * n2)`. Dividing both multipliers by their greatest common divisor
//! keeps that order and makes the products as small as they can be.

use vstd::prelude::*;
use crate::gcd::{
    gcd,
    gcd_u64,
    lemma_divides_quotient,
    lemma_gcd_divides,
    lemma_gcd_quotients_coprime,
    lemma_gcd_symmetric,
    lemma_gcd_zero,
};
use crate::ratio::{lemma_seconds_cross_multiplied, Ratio};

verus! {

/// The multiplier of the left tick count before reduction: `right.denom * left.nom`.
pub open spec fn unreduced_right_cross(left: Ratio, right: Ratio) -> nat {
    (right.denom * left.nom) as nat
}

/// The multiplier of the right tick count before reduction: `left.denom * right.nom`.
pub open spec fn unreduced_left_cross(left: Ratio, right: Ratio) -> nat {
    (left.denom * right.nom) as nat
}

/// The greatest common divisor of the two unreduced multipliers.
pub open spec fn cross_divisor(left: Ratio, right: Ratio) -> nat {
    gcd(unreduced_right_cross(left, right), unreduced_left_cross(left, right))
}

/// `n` divided by `g`, and zero where `g` is zero (then `n` is zero too,
/// wherever `g` is the greatest common divisor of `n` and another number).
pub open spec fn reduced(n: nat, g: nat) -> nat {
    if g == 0 {
        0
    } else {
        n / g
    }
}

/// The reduced multiplier of the left tick count.
pub open spec fn right_cross(left: Ratio, right: Ratio) -> nat {
    reduced(unreduced_right_cross(left, right), cross_divisor(left, right))
}

/// The reduced multiplier of the right tick count.
pub open spec fn left_cross(left: Ratio, right: Ratio) -> nat {
    reduced(unreduced_left_cross(left, right), cross_divisor(left, right))
}

/// The product of a tick count and a multiplier, where it fits in 32 bits.
pub open spec fn checked_product(ticks: u32, factor: nat) -> Option<u32> {
    if ticks * factor <= u32::MAX {
        Some((ticks * factor) as u32)
    } else {
        None
    }
}

/// Both products of a comparison fit in 32 bits: `a` ticks of the period
/// `left` and `b` ticks of the period `right` can be compared.
pub open spec fn cross_products_fit(left: Ratio, a: u32, right: Ratio, b: u32) -> bool {
    &&& a * right_cross(left, right) <= u32::MAX
    &&& b * left_cross(left, right) <= u32::MAX
}

/// The result of reducing a pair of periods, a left and a right one.
///
/// It depends on the two periods alone, never on a tick count, so one value
/// serves every comparison between durations of these two periods: with
/// `scale_left` and `scale_right` a comparison costs one multiplication for
/// each tick count.
#[derive(Clone, Copy, Debug, PartialEq, Eq, Structural)]
pub struct Helpers {
    /// Whether the two periods are written with the same numerator and the
    /// same denominator.
    pub same_base: bool,
    /// The greatest common divisor that both multipliers were divided by.
    pub divisor: u64,
    /// The multiplier of the left tick count.
    pub right_cross: u64,
    /// The multiplier of the right tick count.
    pub left_cross: u64,
}

impl Helpers {
    /// `self` is the reduction of the periods `left` and `right`.
    pub open spec fn reduces(self, left: Ratio, right: Ratio) -> bool {
        &&& self.same_base <==> left == right
        &&& self.divisor == cross_divisor(left, right)
        &&& self.right_cross == right_cross(left, right)
        &&& self.left_cross == left_cross(left, right)
    }

    /// Reduces the pair of periods `left` and `right`.
    ///
    /// Multiplied by the divisor, the two multipliers give back the unreduced
    /// cross products.
    #[inline]
    pub fn new(left: Ratio, right: Ratio) -> (h: Helpers)
        ensures
            h.reduces(left, right),
            h.right_cross * h.divisor == right.denom * left.nom,
            h.left_cross * h.divisor == left.denom * right.nom,
    {
        let rd_times_ln: u64 = widening_product(right.denom, left.nom);
        let ld_times_rn: u64 = widening_product(left.denom, right.nom);
        let divisor: u64 = gcd_u64(rd_times_ln, ld_times_rn);
        let same_base = left.nom == right.nom && left.denom == right.denom;
        proof {
            lemma_reduction_sound(left, right);
        }
        if divisor == 0 {
            Helpers { same_base, divisor, right_cross: 0, left_cross: 0 }
        } else {
            Helpers {
                same_base,
                divisor,
                right_cross: rd_times_ln / divisor,
                left_cross: ld_times_rn / divisor,
            }
        }
    }

    /// The left tick count on the common scale: `left_ticks * right_cross`,
    /// or `None` where the product does not fit in 32 bits.
    #[inline]
    pub fn scale_left(&self, left_ticks: u32) -> (p: Option<u32>)
        ensures
            p == checked_product(left_ticks, self.right_cross as nat),
    {
        checked_scale(left_ticks, self.right_cross)
    }

    /// The right tick count on the common scale: `right_ticks * left_cross`,
    /// or `None` where the product does not fit in 32 bits.
    #[inline]
    pub fn scale_right(&self, right_ticks: u32) -> (p: Option<u32>)
        ensures
            p == checked_product(right_ticks, self.left_cross as nat),
    {
        checked_scale(right_ticks, self.left_cross)
    }
}

/// The product of two 32-bit numbers, which always fits in 64 bits.
#[inline]
fn widening_product(x: u32, y: u32) -> (p: u64)
    ensures
        p == x * y,
{
    assert(x * y <= 0xffff_ffff * 0xffff_ffff) by (nonlinear_arith)
        requires
            0 <= x <= 0xffff_ffff,
            0 <= y <= 0xffff_ffff,
    ;
    x as u64 * y as u64
}

/// Multiplies a tick count by a multiplier and checks the product against
/// the range of a tick count.
#[inline]
fn checked_scale(ticks: u32, factor: u64) -> (p: Option<u32>)
    ensures
        p == checked_product(ticks, factor as nat),
{
    match (ticks as u64).checked_mul(factor) {
        Some(product) => {
            if product <= u32::MAX as u64 {
                Some(product as u32)
            } else {
                None
            }
        },
        None => None,
    }
}

/// The reduced multipliers, multiplied by the divisor, give back the
/// unreduced cross products `right.denom * left.nom` and
/// `left.denom * right.nom`: the reduction loses nothing.
pub proof fn lemma_reduction_sound(left: Ratio, right: Ratio)
    ensures
        right_cross(left, right) * cross_divisor(left, right) == right.denom * left.nom,
        left_cross(left, right) * cross_divisor(left, right) == left.denom * right.nom,
{
    let r = unreduced_right_cross(left, right);
    let l = unreduced_left_cross(left, right);
    let g = cross_divisor(left, right);
    lemma_gcd_divides(r, l);
    lemma_gcd_zero(r, l);
    if g != 0 {
        lemma_divides_quotient(g, r);
        lemma_divides_quotient(g, l);
    }
}

/// The reduced multipliers have no common divisor but one: no smaller pair
/// of multipliers stands in the same proportion.
pub proof fn lemma_reduction_minimal(left: Ratio, right: Ratio)
    requires
        cross_divisor(left, right) != 0,
    ensures
        gcd(right_cross(left, right), left_cross(left, right)) == 1,
{
    lemma_gcd_quotients_coprime(
        unreduced_right_cross(left, right),
        unreduced_left_cross(left, right),
    );
}

/// With the two periods exchanged, the two multipliers are exchanged too, so
/// that each tick count keeps its multiplier.
pub proof fn lemma_reduction_swapped(left: Ratio, right: Ratio)
    ensures
        cross_divisor(right, left) == cross_divisor(left, right),
        right_cross(right, left) == left_cross(left, right),
        left_cross(right, left) == right_cross(left, right),
{
    lemma_gcd_symmetric(
        unreduced_right_cross(left, right),
        unreduced_left_cross(left, right),
    );
}

/// A period against itself needs no multiplier but one, or nought where its
/// numerator or its denominator is nought: no product overflows.
pub proof fn lemma_reduction_same_period(period: Ratio, a: u32, b: u32)
    ensures
        right_cross(period, period) == left_cross(period, period),
        right_cross(period, period) <= 1,
        cross_products_fit(period, a, period, b),
{
    let x = unreduced_right_cross(period, period);
    let c = right_cross(period, period);
    assert(unreduced_left_cross(period, period) == x);
    if x != 0 {
        assert(x % x == 0 && x / x == 1) by (nonlinear_arith)
            requires
                x > 0,
        ;
        assert(gcd(x, x) == x) by {
            reveal_with_fuel(gcd, 2);
        }
    }
    assert(a * c <= a && b * c <= b) by (nonlinear_arith)
        requires
            0 <= c <= 1,
            a >= 0,
            b >= 0,
    ;
}

/// The two tick counts, each multiplied by its reduced multiplier, stand in
/// the same order as the two times in seconds, and are equal exactly where
/// the times are. The products are taken as unbounded integers.
pub proof fn lemma_cross_products_order(left: Ratio, a: u32, right: Ratio, b: u32)
    requires
        left.wf(),
        right.wf(),
    ensures
        a * right_cross(left, right) < b * left_cross(left, right) <==> left.seconds(a as nat)
            < right.seconds(b as nat),
        a * right_cross(left, right) == b * left_cross(left, right) <==> left.seconds(a as nat)
            == right.seconds(b as nat),
        a * right_cross(left, right) > b * left_cross(left, right) <==> left.seconds(a as nat)
            > right.seconds(b as nat),
{
    let g = cross_divisor(left, right) as int;
    let rc = right_cross(left, right) as int;
    let lc = left_cross(left, right) as int;
    let n1 = left.nom as int;
    let d1 = left.denom as int;
    let n2 = right.nom as int;
    let d2 = right.denom as int;
    let x = a * rc;
    let y = b * lc;
    lemma_reduction_sound(left, right);
    lemma_seconds_cross_multiplied(left, a as nat, right, b as nat);
    lemma_seconds_cross_multiplied(right, b as nat, left, a as nat);
    assert(a * n1 * d2 == x * g) by (nonlinear_arith)
        requires
            rc * g == d2 * n1,
            x == a * rc,
    ;
    assert(b * n2 * d1 == y * g) by (nonlinear_arith)
        requires
            lc * g == d1 * n2,
            y == b * lc,
    ;
    if g == 0 {
        assert(x == 0 && y == 0) by (nonlinear_arith)
            requires
                rc == 0,
                lc == 0,
                x == a * rc,
                y == b * lc,
        ;
        assert(x * g == 0 && y * g == 0) by (nonlinear_arith)
            requires
                g == 0,
        ;
    } else {
        assert((x < y <==> x * g < y * g) && (x == y <==> x * g == y * g)) by (nonlinear_arith)
            requires
                g > 0,
        ;
    }
}

} // verus!
