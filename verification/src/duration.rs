//! The duration type and its comparisons.
//!
//! Two durations of one period are compared by their tick counts. Two
//! durations of different periods are compared by the products of each tick
//! count with its cross multiplier. A product that does not fit in 32 bits
//! makes the two durations unequal and leaves their order unknown.

use core::cmp::Ordering;
use vstd::prelude::*;
use vstd::std_specs::cmp::{PartialEqSpec, PartialOrdSpec};
use crate::helpers::{
    checked_product,
    cross_products_fit,
    left_cross,
    lemma_cross_products_order,
    lemma_reduction_same_period,
    lemma_reduction_swapped,
    right_cross,
    Helpers,
};
use crate::ratio::{lemma_seconds_same_period, Ratio};

verus! {

/// How two tick counts are ordered.
pub open spec fn order_of(a: u32, b: u32) -> Ordering {
    if a < b {
        Ordering::Less
    } else if a > b {
        Ordering::Greater
    } else {
        Ordering::Equal
    }
}

/// Whether `left_ticks` ticks of the period `left` count as equal to
/// `right_ticks` ticks of the period `right`.
///
/// Under one period the tick counts decide. Under two periods each tick count
/// is multiplied by its cross multiplier; the durations are equal where both
/// products fit in 32 bits and are the same number, and unequal otherwise.
pub open spec fn cross_eq(left: Ratio, left_ticks: u32, right: Ratio, right_ticks: u32) -> bool {
    if left == right {
        left_ticks == right_ticks
    } else {
        match (
            checked_product(left_ticks, right_cross(left, right)),
            checked_product(right_ticks, left_cross(left, right)),
        ) {
            (Some(lh), Some(rh)) => lh == rh,
            _ => false,
        }
    }
}

/// How `left_ticks` ticks of the period `left` are ordered against
/// `right_ticks` ticks of the period `right`, if that can be told.
///
/// Under one period the tick counts decide. Under two periods each tick count
/// is multiplied by its cross multiplier; the order is that of the two
/// products, and unknown where a product does not fit in 32 bits.
pub open spec fn cross_partial_cmp(
    left: Ratio,
    left_ticks: u32,
    right: Ratio,
    right_ticks: u32,
) -> Option<Ordering> {
    if left == right {
        Some(order_of(left_ticks, right_ticks))
    } else {
        match (
            checked_product(left_ticks, right_cross(left, right)),
            checked_product(right_ticks, left_cross(left, right)),
        ) {
            (Some(lh), Some(rh)) => Some(order_of(lh, rh)),
            _ => None,
        }
    }
}

/// A number of ticks, each of which lasts `NOM / DENOM` seconds.
///
/// `DENOM` must not be zero: `new` asks for that. The comparisons and the
/// arithmetic are defined on every value all the same, and what ties them to
/// time is stated of valid durations.
///
/// The reduction of two periods depends on the type parameters alone, not on
/// the values compared.
///
/// The derived total order is that of the tick counts, as `cmp` states it.
#[derive(Clone, Copy, Debug, Eq, Ord)]
pub struct Duration<const NOM: u32, const DENOM: u32> {
    /// The number of ticks.
    pub ticks: u32,
}

impl<const NOM: u32, const DENOM: u32> Duration<NOM, DENOM> {
    /// The period of this duration type.
    pub open spec fn spec_ratio() -> Ratio {
        Ratio { nom: NOM, denom: DENOM }
    }

    /// A duration is valid where its period is: `DENOM` is not zero.
    pub open spec fn wf(self) -> bool {
        DENOM != 0
    }

    /// The time that this duration lasts, in seconds.
    pub open spec fn seconds(self) -> real
        recommends
            self.wf(),
    {
        Self::spec_ratio().seconds(self.ticks as nat)
    }

    /// The period of this duration type.
    #[verifier::when_used_as_spec(spec_ratio)]
    pub fn ratio() -> (r: Ratio)
        ensures
            r.nom == NOM,
            r.denom == DENOM,
    {
        Ratio { nom: NOM, denom: DENOM }
    }

    /// A duration of `ticks` ticks.
    pub fn new(ticks: u32) -> (d: Self)
        requires
            DENOM != 0,
        ensures
            d.ticks == ticks,
            d.wf(),
    {
        Duration { ticks }
    }

    /// The total order of durations of one period: that of their tick counts.
    pub fn cmp(&self, other: &Self) -> (o: Ordering)
        ensures
            o == order_of(self.ticks, other.ticks),
    {
        self.ticks.cmp(&other.ticks)
    }
}

impl<
    const L_NOM: u32,
    const L_DENOM: u32,
    const R_NOM: u32,
    const R_DENOM: u32,
> vstd::std_specs::cmp::PartialEqSpecImpl<Duration<R_NOM, R_DENOM>> for Duration<L_NOM, L_DENOM> {
    open spec fn obeys_eq_spec() -> bool {
        true
    }

    open spec fn eq_spec(&self, other: &Duration<R_NOM, R_DENOM>) -> bool {
        cross_eq(Self::ratio(), self.ticks, Duration::<R_NOM, R_DENOM>::ratio(), other.ticks)
    }
}

impl<
    const L_NOM: u32,
    const L_DENOM: u32,
    const R_NOM: u32,
    const R_DENOM: u32,
> PartialEq<Duration<R_NOM, R_DENOM>> for Duration<L_NOM, L_DENOM> {
    /// Equality of two durations, of one period or of two.
    ///
    /// A product that does not fit in 32 bits makes the durations unequal,
    /// whatever times they denote.
    fn eq(&self, other: &Duration<R_NOM, R_DENOM>) -> (r: bool)
        ensures
            r == cross_eq(
                Self::ratio(),
                self.ticks,
                Duration::<R_NOM, R_DENOM>::ratio(),
                other.ticks,
            ),
    {
        let helpers = Helpers::new(Self::ratio(), Duration::<R_NOM, R_DENOM>::ratio());
        if helpers.same_base {
            self.ticks == other.ticks
        } else {
            let lh = helpers.scale_left(self.ticks);
            let rh = helpers.scale_right(other.ticks);
            if let (Some(lh), Some(rh)) = (lh, rh) {
                lh == rh
            } else {
                false
            }
        }
    }
}

impl<
    const L_NOM: u32,
    const L_DENOM: u32,
    const R_NOM: u32,
    const R_DENOM: u32,
> vstd::std_specs::cmp::PartialOrdSpecImpl<Duration<R_NOM, R_DENOM>> for Duration<L_NOM, L_DENOM> {
    open spec fn obeys_partial_cmp_spec() -> bool {
        true
    }

    open spec fn partial_cmp_spec(&self, other: &Duration<R_NOM, R_DENOM>) -> Option<Ordering> {
        cross_partial_cmp(
            Self::ratio(),
            self.ticks,
            Duration::<R_NOM, R_DENOM>::ratio(),
            other.ticks,
        )
    }
}

impl<
    const L_NOM: u32,
    const L_DENOM: u32,
    const R_NOM: u32,
    const R_DENOM: u32,
> PartialOrd<Duration<R_NOM, R_DENOM>> for Duration<L_NOM, L_DENOM> {
    /// The order of two durations, of one period or of two.
    ///
    /// A product that does not fit in 32 bits leaves the order unknown.
    fn partial_cmp(&self, other: &Duration<R_NOM, R_DENOM>) -> (r: Option<Ordering>)
        ensures
            r == cross_partial_cmp(
                Self::ratio(),
                self.ticks,
                Duration::<R_NOM, R_DENOM>::ratio(),
                other.ticks,
            ),
    {
        let helpers = Helpers::new(Self::ratio(), Duration::<R_NOM, R_DENOM>::ratio());
        if helpers.same_base {
            Some(self.ticks.cmp(&other.ticks))
        } else {
            Some(helpers.scale_left(self.ticks)?.cmp(&helpers.scale_right(other.ticks)?))
        }
    }
}

/// Under one period of more than zero seconds, more ticks last longer.
proof fn lemma_ticks_order(period: Ratio, a: u32, b: u32)
    requires
        period.wf(),
        period.nom != 0,
    ensures
        period.seconds(a as nat) < period.seconds(b as nat) <==> a < b,
        period.seconds(a as nat) == period.seconds(b as nat) <==> a == b,
{
    lemma_seconds_same_period(period, a as nat, b as nat);
}

/// Durations of one period compare as their tick counts do: `a` is less than
/// `b` exactly where it has fewer ticks, and equal to `b` exactly where it has
/// as many.
pub proof fn lemma_same_basis_exact<const NOM: u32, const DENOM: u32>(
    a: Duration<NOM, DENOM>,
    b: Duration<NOM, DENOM>,
)
    ensures
        a.partial_cmp_spec(&b) == Some(order_of(a.ticks, b.ticks)),
        a.partial_cmp_spec(&b) == Some(Ordering::Less) <==> a.ticks < b.ticks,
        a.eq_spec(&b) <==> a.ticks == b.ticks,
        a.eq_spec(&a),
{
}

/// Where both products fit in 32 bits, durations of valid periods compare as
/// the times that they denote: the order found is that of their lengths in
/// seconds, and they are equal exactly where they last equally long.
///
/// The one case left out is a single period of zero seconds, where all
/// durations last equally long and yet their tick counts order them.
pub proof fn lemma_cross_basis_exact<
    const L_NOM: u32,
    const L_DENOM: u32,
    const R_NOM: u32,
    const R_DENOM: u32,
>(left: Duration<L_NOM, L_DENOM>, right: Duration<R_NOM, R_DENOM>)
    requires
        left.wf(),
        right.wf(),
        cross_products_fit(
            Duration::<L_NOM, L_DENOM>::ratio(),
            left.ticks,
            Duration::<R_NOM, R_DENOM>::ratio(),
            right.ticks,
        ),
        L_NOM == 0 && R_NOM == 0 && L_DENOM == R_DENOM ==> left.ticks == right.ticks,
    ensures
        left.partial_cmp_spec(&right) is Some,
        left.partial_cmp_spec(&right) == Some(Ordering::Less) <==> left.seconds()
            < right.seconds(),
        left.partial_cmp_spec(&right) == Some(Ordering::Equal) <==> left.seconds()
            == right.seconds(),
        left.partial_cmp_spec(&right) == Some(Ordering::Greater) <==> left.seconds()
            > right.seconds(),
        left.eq_spec(&right) <==> left.seconds() == right.seconds(),
{
    let l = Duration::<L_NOM, L_DENOM>::ratio();
    let r = Duration::<R_NOM, R_DENOM>::ratio();
    if l == r {
        if L_NOM != 0 {
            lemma_ticks_order(l, left.ticks, right.ticks);
            lemma_ticks_order(l, right.ticks, left.ticks);
        }
    } else {
        lemma_cross_products_order(l, left.ticks, r, right.ticks);
    }
}

/// Where a product does not fit in 32 bits, two durations are unequal and
/// their order is unknown. Their periods are then different ones: under one
/// period nothing is multiplied.
pub proof fn lemma_overflow_fallback<
    const L_NOM: u32,
    const L_DENOM: u32,
    const R_NOM: u32,
    const R_DENOM: u32,
>(left: Duration<L_NOM, L_DENOM>, right: Duration<R_NOM, R_DENOM>)
    requires
        !cross_products_fit(
            Duration::<L_NOM, L_DENOM>::ratio(),
            left.ticks,
            Duration::<R_NOM, R_DENOM>::ratio(),
            right.ticks,
        ),
    ensures
        left.partial_cmp_spec(&right) is None,
        !left.eq_spec(&right),
        Duration::<L_NOM, L_DENOM>::ratio() != Duration::<R_NOM, R_DENOM>::ratio(),
{
    lemma_reduction_same_period(Duration::<L_NOM, L_DENOM>::ratio(), left.ticks, right.ticks);
}

/// Equality does not depend on the side: `left == right` exactly where
/// `right == left`, whether or not a product overflows.
pub proof fn lemma_eq_symmetric<
    const L_NOM: u32,
    const L_DENOM: u32,
    const R_NOM: u32,
    const R_DENOM: u32,
>(left: Duration<L_NOM, L_DENOM>, right: Duration<R_NOM, R_DENOM>)
    ensures
        left.eq_spec(&right) <==> right.eq_spec(&left),
{
    lemma_reduction_swapped(
        Duration::<L_NOM, L_DENOM>::ratio(),
        Duration::<R_NOM, R_DENOM>::ratio(),
    );
}

/// The order found from one side is the reverse of the order found from the
/// other, and unknown from one side exactly where it is from the other.
pub proof fn lemma_partial_cmp_antisymmetric<
    const L_NOM: u32,
    const L_DENOM: u32,
    const R_NOM: u32,
    const R_DENOM: u32,
>(left: Duration<L_NOM, L_DENOM>, right: Duration<R_NOM, R_DENOM>)
    ensures
        left.partial_cmp_spec(&right) == Some(Ordering::Less) <==> right.partial_cmp_spec(&left)
            == Some(Ordering::Greater),
        left.partial_cmp_spec(&right) == Some(Ordering::Greater) <==> right.partial_cmp_spec(&left)
            == Some(Ordering::Less),
        left.partial_cmp_spec(&right) == Some(Ordering::Equal) <==> right.partial_cmp_spec(&left)
            == Some(Ordering::Equal),
        left.partial_cmp_spec(&right) is None <==> right.partial_cmp_spec(&left) is None,
        left.partial_cmp_spec(&right) == Some(Ordering::Equal) <==> left.eq_spec(&right),
{
    lemma_reduction_swapped(
        Duration::<L_NOM, L_DENOM>::ratio(),
        Duration::<R_NOM, R_DENOM>::ratio(),
    );
}

} // verus!
