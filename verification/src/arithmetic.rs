//! Addition and subtraction of durations, of one period or of two.
//!
//! The result is counted in ticks of the right operand's period. The left
//! operand is first expressed in that period, which succeeds only where it is
//! a whole number of such ticks; then the tick counts are added or
//! subtracted. Nothing is rounded and nothing wraps: where the exact result is
//! not a tick count, the operation says why.

use vstd::prelude::*;
use vstd::std_specs::ops::{AddSpec, SubSpec};
use crate::duration::Duration;
use crate::helpers::{cross_divisor, left_cross, lemma_reduction_sound, right_cross, Helpers};
use crate::ratio::{
    lemma_seconds_additive,
    lemma_seconds_cross_multiplied,
    lemma_seconds_nonnegative,
    lemma_seconds_same_period,
    Ratio,
};

verus! {

/// Why a sum or a difference of two durations is not a duration.
#[derive(Clone, Copy, Debug, PartialEq, Eq, Structural)]
pub enum ArithmeticError {
    /// The left operand is not a whole number of ticks of the right
    /// operand's period.
    Inexact,
    /// The result has more ticks than a tick count can hold.
    Overflow,
    /// The right operand is longer than the left one.
    Underflow,
}

/// `left_ticks` ticks of the period `left`, counted in ticks of the period
/// `right`, where that is a whole number.
///
/// Under one period the count stays as it is. Under two periods it is
/// multiplied by the left count's cross multiplier and divided by the right
/// count's, and the division must leave no remainder.
pub open spec fn rescaled(left: Ratio, left_ticks: u32, right: Ratio) -> Option<nat> {
    if left == right {
        Some(left_ticks as nat)
    } else {
        let product = left_ticks as nat * right_cross(left, right);
        let divisor = left_cross(left, right);
        if divisor != 0 && product % divisor == 0 {
            Some(product / divisor)
        } else {
            None
        }
    }
}

/// The tick count, in the period `right`, of the sum of `left_ticks` ticks of
/// the period `left` and `right_ticks` ticks of the period `right`.
pub open spec fn cross_add(left: Ratio, left_ticks: u32, right: Ratio, right_ticks: u32) -> Result<
    u32,
    ArithmeticError,
> {
    match rescaled(left, left_ticks, right) {
        None => Err(ArithmeticError::Inexact),
        Some(ticks) => if ticks + right_ticks <= u32::MAX {
            Ok((ticks + right_ticks) as u32)
        } else {
            Err(ArithmeticError::Overflow)
        },
    }
}

/// The tick count, in the period `right`, of what is left of `left_ticks`
/// ticks of the period `left` after `right_ticks` ticks of the period `right`
/// are taken away.
pub open spec fn cross_sub(left: Ratio, left_ticks: u32, right: Ratio, right_ticks: u32) -> Result<
    u32,
    ArithmeticError,
> {
    match rescaled(left, left_ticks, right) {
        None => Err(ArithmeticError::Inexact),
        Some(ticks) => if ticks < right_ticks {
            Err(ArithmeticError::Underflow)
        } else if ticks - right_ticks <= u32::MAX {
            Ok((ticks - right_ticks) as u32)
        } else {
            Err(ArithmeticError::Overflow)
        },
    }
}

/// A tick count as a duration of the period `NOM / DENOM`; an error stays as
/// it is.
pub open spec fn as_duration<const NOM: u32, const DENOM: u32>(
    ticks: Result<u32, ArithmeticError>,
) -> Result<Duration<NOM, DENOM>, ArithmeticError> {
    match ticks {
        Ok(ticks) => Ok(Duration { ticks }),
        Err(e) => Err(e),
    }
}

/// Expresses `left_ticks` ticks of the period `left` in ticks of the period
/// `right`. The product is taken in 128 bits, where it cannot overflow.
#[inline]
fn rescale(left: Ratio, left_ticks: u32, right: Ratio) -> (ticks: Option<u128>)
    ensures
        match ticks {
            Some(t) => rescaled(left, left_ticks, right) == Some(t as nat),
            None => rescaled(left, left_ticks, right) is None,
        },
        ticks matches Some(t) ==> t <= u32::MAX * u64::MAX,
{
    let helpers = Helpers::new(left, right);
    if helpers.same_base {
        Some(left_ticks as u128)
    } else if helpers.left_cross == 0 {
        None
    } else {
        assert(left_ticks * helpers.right_cross <= u32::MAX * u64::MAX) by (nonlinear_arith)
            requires
                0 <= left_ticks <= u32::MAX,
                0 <= helpers.right_cross <= u64::MAX,
        ;
        let product: u128 = left_ticks as u128 * helpers.right_cross as u128;
        let divisor: u128 = helpers.left_cross as u128;
        if product % divisor == 0 {
            let quotient: u128 = product / divisor;
            assert(quotient <= product) by (nonlinear_arith)
                requires
                    divisor > 0,
                    product >= 0,
                    quotient == product / divisor,
            ;
            Some(quotient)
        } else {
            None
        }
    }
}

impl<
    const L_NOM: u32,
    const L_DENOM: u32,
    const R_NOM: u32,
    const R_DENOM: u32,
> vstd::std_specs::ops::AddSpecImpl<Duration<R_NOM, R_DENOM>> for Duration<L_NOM, L_DENOM> {
    open spec fn obeys_add_spec() -> bool {
        true
    }

    open spec fn add_req(self, rhs: Duration<R_NOM, R_DENOM>) -> bool {
        true
    }

    open spec fn add_spec(self, rhs: Duration<R_NOM, R_DENOM>) -> Self::Output {
        as_duration(
            cross_add(Self::ratio(), self.ticks, Duration::<R_NOM, R_DENOM>::ratio(), rhs.ticks),
        )
    }
}

impl<
    const L_NOM: u32,
    const L_DENOM: u32,
    const R_NOM: u32,
    const R_DENOM: u32,
> core::ops::Add<Duration<R_NOM, R_DENOM>> for Duration<L_NOM, L_DENOM> {
    type Output = Result<Duration<R_NOM, R_DENOM>, ArithmeticError>;

    /// The sum of two durations, in the right operand's period.
    ///
    /// `Inexact` where the left operand is no whole number of ticks of that
    /// period; else `Overflow` where the sum has more ticks than 32 bits
    /// hold; else the sum.
    fn add(self, other: Duration<R_NOM, R_DENOM>) -> (r: Self::Output)
        ensures
            r == as_duration::<R_NOM, R_DENOM>(
                cross_add(
                    Self::ratio(),
                    self.ticks,
                    Duration::<R_NOM, R_DENOM>::ratio(),
                    other.ticks,
                ),
            ),
    {
        match rescale(Self::ratio(), self.ticks, Duration::<R_NOM, R_DENOM>::ratio()) {
            None => Err(ArithmeticError::Inexact),
            Some(ticks) => {
                let sum: u128 = ticks + other.ticks as u128;
                if sum <= u32::MAX as u128 {
                    Ok(Duration { ticks: sum as u32 })
                } else {
                    Err(ArithmeticError::Overflow)
                }
            },
        }
    }
}

impl<
    const L_NOM: u32,
    const L_DENOM: u32,
    const R_NOM: u32,
    const R_DENOM: u32,
> vstd::std_specs::ops::SubSpecImpl<Duration<R_NOM, R_DENOM>> for Duration<L_NOM, L_DENOM> {
    open spec fn obeys_sub_spec() -> bool {
        true
    }

    open spec fn sub_req(self, rhs: Duration<R_NOM, R_DENOM>) -> bool {
        true
    }

    open spec fn sub_spec(self, rhs: Duration<R_NOM, R_DENOM>) -> Self::Output {
        as_duration(
            cross_sub(Self::ratio(), self.ticks, Duration::<R_NOM, R_DENOM>::ratio(), rhs.ticks),
        )
    }
}

impl<
    const L_NOM: u32,
    const L_DENOM: u32,
    const R_NOM: u32,
    const R_DENOM: u32,
> core::ops::Sub<Duration<R_NOM, R_DENOM>> for Duration<L_NOM, L_DENOM> {
    type Output = Result<Duration<R_NOM, R_DENOM>, ArithmeticError>;

    /// What is left of the left duration after the right one, in the right
    /// operand's period.
    ///
    /// `Inexact` where the left operand is no whole number of ticks of that
    /// period; else `Underflow` where the right operand is the longer one;
    /// else `Overflow` where the difference has more ticks than 32 bits hold;
    /// else the difference.
    fn sub(self, other: Duration<R_NOM, R_DENOM>) -> (r: Self::Output)
        ensures
            r == as_duration::<R_NOM, R_DENOM>(
                cross_sub(
                    Self::ratio(),
                    self.ticks,
                    Duration::<R_NOM, R_DENOM>::ratio(),
                    other.ticks,
                ),
            ),
    {
        match rescale(Self::ratio(), self.ticks, Duration::<R_NOM, R_DENOM>::ratio()) {
            None => Err(ArithmeticError::Inexact),
            Some(ticks) => {
                if ticks < other.ticks as u128 {
                    Err(ArithmeticError::Underflow)
                } else {
                    let difference: u128 = ticks - other.ticks as u128;
                    if difference <= u32::MAX as u128 {
                        Ok(Duration { ticks: difference as u32 })
                    } else {
                        Err(ArithmeticError::Overflow)
                    }
                }
            },
        }
    }
}

/// `rescaled` gives the tick count of the right period that lasts exactly as
/// long as the left operand, and gives none only where there is none.
///
/// Under a right period of zero seconds all tick counts last equally long,
/// and only the first half holds.
pub proof fn lemma_rescaled_exact(left: Ratio, left_ticks: u32, right: Ratio, ticks: nat)
    requires
        left.wf(),
        right.wf(),
    ensures
        rescaled(left, left_ticks, right) == Some(ticks) ==> right.seconds(ticks) == left.seconds(
            left_ticks as nat,
        ),
        right.nom != 0 && right.seconds(ticks) == left.seconds(left_ticks as nat) ==> rescaled(
            left,
            left_ticks,
            right,
        ) == Some(ticks),
{
    let a = left_ticks as int;
    let x = ticks as int;
    if left == right {
        if right.nom != 0 {
            lemma_seconds_same_period(right, ticks, left_ticks as nat);
        }
    } else {
        let rc = right_cross(left, right) as int;
        let lc = left_cross(left, right) as int;
        let g = cross_divisor(left, right) as int;
        let n1 = left.nom as int;
        let d1 = left.denom as int;
        let n2 = right.nom as int;
        let d2 = right.denom as int;
        lemma_reduction_sound(left, right);
        lemma_seconds_cross_multiplied(right, ticks, left, left_ticks as nat);
        assert(x * n2 * d1 == (x * lc) * g) by (nonlinear_arith)
            requires
                lc * g == d1 * n2,
        ;
        assert(a * n1 * d2 == (a * rc) * g) by (nonlinear_arith)
            requires
                rc * g == d2 * n1,
        ;
        if rescaled(left, left_ticks, right) == Some(ticks) {
            assert(x * lc == a * rc) by (nonlinear_arith)
                requires
                    lc > 0,
                    (a * rc) % lc == 0,
                    x == (a * rc) / lc,
            ;
        }
        if right.nom != 0 && right.seconds(ticks) == left.seconds(left_ticks as nat) {
            assert(lc > 0 && g > 0) by (nonlinear_arith)
                requires
                    lc * g == d1 * n2,
                    d1 > 0,
                    n2 > 0,
                    lc >= 0,
                    g >= 0,
            ;
            assert(x * lc == a * rc) by (nonlinear_arith)
                requires
                    (x * lc) * g == (a * rc) * g,
                    g > 0,
            ;
            assert((a * rc) % lc == 0 && (a * rc) / lc == x) by (nonlinear_arith)
                requires
                    x * lc == a * rc,
                    lc > 0,
            ;
        }
    }
}

/// Where the left period is `k` times the right one, each left tick is `k`
/// right ticks, and every tick count can be expressed.
pub proof fn lemma_rescaled_multiple(left: Ratio, left_ticks: u32, right: Ratio, k: nat)
    requires
        left.wf(),
        right.wf(),
        right.nom != 0,
        left.nom * right.denom == k * (right.nom * left.denom),
    ensures
        rescaled(left, left_ticks, right) == Some(left_ticks as nat * k),
{
    let a = left_ticks as int;
    let ticks = left_ticks as nat * k;
    lemma_seconds_cross_multiplied(right, ticks, left, left_ticks as nat);
    assert(ticks * right.nom * left.denom == a * left.nom * right.denom) by (nonlinear_arith)
        requires
            ticks == a * k,
            left.nom * right.denom == k * (right.nom * left.denom),
    ;
    lemma_rescaled_exact(left, left_ticks, right, ticks);
}

/// Where the right period is `k` times the left one, `k` left ticks make one
/// right tick, and the tick counts that can be expressed are the multiples of
/// `k`.
pub proof fn lemma_rescaled_fraction(left: Ratio, left_ticks: u32, right: Ratio, k: nat)
    requires
        left.wf(),
        right.wf(),
        left.nom != 0,
        k != 0,
        right.nom * left.denom == k * (left.nom * right.denom),
    ensures
        rescaled(left, left_ticks, right) == if left_ticks as nat % k == 0 {
            Some(left_ticks as nat / k)
        } else {
            None
        },
{
    let a = left_ticks as int;
    let m = left.nom * right.denom;
    assert(m > 0) by (nonlinear_arith)
        requires
            m == left.nom * right.denom,
            left.nom > 0,
            right.denom > 0,
    ;
    assert(right.nom != 0) by (nonlinear_arith)
        requires
            right.nom * left.denom == k * m,
            k > 0,
            m > 0,
    ;
    if left_ticks as nat % k == 0 {
        let ticks = left_ticks as nat / k;
        lemma_seconds_cross_multiplied(right, ticks, left, left_ticks as nat);
        assert(ticks * right.nom * left.denom == a * left.nom * right.denom) by (nonlinear_arith)
            requires
                k > 0,
                a % (k as int) == 0,
                ticks == a / (k as int),
                right.nom * left.denom == k * (left.nom * right.denom),
        ;
        lemma_rescaled_exact(left, left_ticks, right, ticks);
    } else {
        match rescaled(left, left_ticks, right) {
            Some(ticks) => {
                lemma_rescaled_exact(left, left_ticks, right, ticks);
                lemma_seconds_cross_multiplied(right, ticks, left, left_ticks as nat);
                assert((ticks * k) * m == a * m) by (nonlinear_arith)
                    requires
                        ticks * right.nom * left.denom == a * left.nom * right.denom,
                        right.nom * left.denom == k * m,
                        m == left.nom * right.denom,
                ;
                assert(ticks * k == a) by (nonlinear_arith)
                    requires
                        (ticks * k) * m == a * m,
                        m > 0,
                ;
                assert(a % (k as int) == 0) by (nonlinear_arith)
                    requires
                        ticks * k == a,
                        k > 0,
                ;
            },
            None => {},
        }
    }
}

/// A sum that is found lasts exactly as long as its two operands together.
/// And where a duration of the right period, of more than zero seconds a
/// tick, lasts exactly that long, it is the sum that is found.
pub proof fn lemma_add_exact<
    const L_NOM: u32,
    const L_DENOM: u32,
    const R_NOM: u32,
    const R_DENOM: u32,
>(left: Duration<L_NOM, L_DENOM>, right: Duration<R_NOM, R_DENOM>, sum: Duration<R_NOM, R_DENOM>)
    requires
        left.wf(),
        right.wf(),
    ensures
        left.add_spec(right) matches Ok(found) ==> found.seconds() == left.seconds()
            + right.seconds(),
        R_NOM != 0 && sum.seconds() == left.seconds() + right.seconds() ==> left.add_spec(right)
            === Ok(sum),
{
    let l = Duration::<L_NOM, L_DENOM>::ratio();
    let r = Duration::<R_NOM, R_DENOM>::ratio();
    let b = right.ticks as nat;
    let t = sum.ticks as nat;
    if left.add_spec(right) is Ok {
        let x = rescaled(l, left.ticks, r)->0;
        lemma_rescaled_exact(l, left.ticks, r, x);
        lemma_seconds_additive(r, x, b);
    }
    if R_NOM != 0 && sum.seconds() == left.seconds() + right.seconds() {
        lemma_seconds_nonnegative(l, left.ticks as nat);
        lemma_seconds_same_period(r, t, b);
        let x = (t - b) as nat;
        lemma_seconds_additive(r, x, b);
        lemma_rescaled_exact(l, left.ticks, r, x);
    }
}

/// A difference that is found lasts exactly as long as the left operand
/// without the right one. And where a duration of the right period, of more
/// than zero seconds a tick, lasts exactly that long, it is the difference
/// that is found.
pub proof fn lemma_sub_exact<
    const L_NOM: u32,
    const L_DENOM: u32,
    const R_NOM: u32,
    const R_DENOM: u32,
>(
    left: Duration<L_NOM, L_DENOM>,
    right: Duration<R_NOM, R_DENOM>,
    difference: Duration<R_NOM, R_DENOM>,
)
    requires
        left.wf(),
        right.wf(),
    ensures
        left.sub_spec(right) matches Ok(found) ==> found.seconds() == left.seconds()
            - right.seconds(),
        R_NOM != 0 && difference.seconds() == left.seconds() - right.seconds() ==> left.sub_spec(
            right,
        ) === Ok(difference),
{
    let l = Duration::<L_NOM, L_DENOM>::ratio();
    let r = Duration::<R_NOM, R_DENOM>::ratio();
    let b = right.ticks as nat;
    let t = difference.ticks as nat;
    if left.sub_spec(right) is Ok {
        let x = rescaled(l, left.ticks, r)->0;
        lemma_rescaled_exact(l, left.ticks, r, x);
        lemma_seconds_additive(r, (x - b) as nat, b);
    }
    if R_NOM != 0 && difference.seconds() == left.seconds() - right.seconds() {
        lemma_seconds_additive(r, t, b);
        lemma_rescaled_exact(l, left.ticks, r, t + b);
    }
}

} // verus!
