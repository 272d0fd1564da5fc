//! Greatest common divisors of natural numbers.
//!
//! `gcd` is defined by Euclid's recursion. The lemmas below show that it is
//! what its name says: a common divisor that every common divisor divides.

use vstd::prelude::*;

verus! {

/// `d` divides `n`: `n` is a multiple of `d`. Zero divides only zero.
pub open spec fn divides(d: nat, n: nat) -> bool {
    if d == 0 {
        n == 0
    } else {
        n % d == 0
    }
}

/// The greatest common divisor of `a` and `b`, with `gcd(0, 0) == 0`.
pub open spec fn gcd(a: nat, b: nat) -> nat
    decreases b,
{
    if b == 0 {
        a
    } else {
        gcd(b, a % b)
    }
}

/// A multiple of `d` is divisible by `d`.
pub proof fn lemma_divides_multiple(d: nat, k: nat)
    ensures
        divides(d, d * k),
{
    if d != 0 {
        assert((d * k) % d == 0) by (nonlinear_arith)
            requires
                d > 0,
        ;
    } else {
        assert(d * k == 0) by (nonlinear_arith)
            requires
                d == 0,
        ;
    }
}

/// Whatever `d` divides is `d` times its quotient.
pub proof fn lemma_divides_quotient(d: nat, n: nat)
    requires
        divides(d, n),
        d != 0,
    ensures
        n == d * (n / d),
        n == (n / d) * d,
{
    assert(n == d * (n / d) && n == (n / d) * d) by (nonlinear_arith)
        requires
            d > 0,
            n % d == 0,
    ;
}

/// A divisor of `x` and `y` divides `x * q + y`.
pub proof fn lemma_divides_combination(d: nat, x: nat, q: nat, y: nat)
    requires
        divides(d, x),
        divides(d, y),
    ensures
        divides(d, x * q + y),
{
    if d == 0 {
        assert(x * q + y == 0) by (nonlinear_arith)
            requires
                x == 0,
                y == 0,
        ;
    } else {
        let kx = x / d;
        let ky = y / d;
        lemma_divides_quotient(d, x);
        lemma_divides_quotient(d, y);
        assert(x * q + y == d * (kx * q + ky)) by (nonlinear_arith)
            requires
                x == d * kx,
                y == d * ky,
        ;
        lemma_divides_multiple(d, kx * q + ky);
    }
}

/// A divisor of `a` and `b` divides the remainder of `a` by `b`.
pub proof fn lemma_divides_remainder(d: nat, a: nat, b: nat)
    requires
        divides(d, a),
        divides(d, b),
        b != 0,
    ensures
        divides(d, a % b),
{
    let q = a / b;
    let r = a % b;
    assert(a == b * q + r) by (nonlinear_arith)
        requires
            b > 0,
            q == a / b,
            r == a % b,
    ;
    let ka = a / d;
    let kb = b / d;
    lemma_divides_quotient(d, a);
    lemma_divides_quotient(d, b);
    assert(kb * q <= ka) by (nonlinear_arith)
        requires
            d > 0,
            a == d * ka,
            b == d * kb,
            a == b * q + r,
            r >= 0,
    ;
    let k = (ka - kb * q) as nat;
    assert(r == d * k) by (nonlinear_arith)
        requires
            a == d * ka,
            b == d * kb,
            a == b * q + r,
            k == ka - kb * q,
    ;
    lemma_divides_multiple(d, k);
}

/// Two natural numbers that divide each other are equal.
pub proof fn lemma_divides_antisymmetric(x: nat, y: nat)
    requires
        divides(x, y),
        divides(y, x),
    ensures
        x == y,
{
    if x != 0 && y != 0 {
        lemma_divides_quotient(x, y);
        lemma_divides_quotient(y, x);
        let p = y / x;
        let q = x / y;
        assert(x == y) by (nonlinear_arith)
            requires
                x > 0,
                y > 0,
                y == x * p,
                x == y * q,
                p >= 0,
                q >= 0,
        ;
    }
}

/// `gcd(a, b)` is a common divisor of `a` and `b`.
pub proof fn lemma_gcd_divides(a: nat, b: nat)
    ensures
        divides(gcd(a, b), a),
        divides(gcd(a, b), b),
    decreases b,
{
    if b == 0 {
        if a != 0 {
            assert(a % a == 0) by (nonlinear_arith)
                requires
                    a > 0,
            ;
            assert(0nat % a == 0) by (nonlinear_arith)
                requires
                    a > 0,
            ;
        }
    } else {
        let g = gcd(a, b);
        let q = a / b;
        let r = a % b;
        lemma_gcd_divides(b, r);
        assert(a == b * q + r) by (nonlinear_arith)
            requires
                b > 0,
                q == a / b,
                r == a % b,
        ;
        lemma_divides_combination(g, b, q, r);
    }
}

/// Every common divisor of `a` and `b` divides `gcd(a, b)`.
pub proof fn lemma_gcd_greatest(a: nat, b: nat, d: nat)
    requires
        divides(d, a),
        divides(d, b),
    ensures
        divides(d, gcd(a, b)),
    decreases b,
{
    if b != 0 {
        lemma_divides_remainder(d, a, b);
        lemma_gcd_greatest(b, a % b, d);
    }
}

/// The order of the arguments does not matter.
pub proof fn lemma_gcd_symmetric(a: nat, b: nat)
    ensures
        gcd(a, b) == gcd(b, a),
{
    lemma_gcd_divides(a, b);
    lemma_gcd_divides(b, a);
    lemma_gcd_greatest(a, b, gcd(b, a));
    lemma_gcd_greatest(b, a, gcd(a, b));
    lemma_divides_antisymmetric(gcd(a, b), gcd(b, a));
}

/// `gcd(a, b)` is zero only where both `a` and `b` are.
pub proof fn lemma_gcd_zero(a: nat, b: nat)
    ensures
        gcd(a, b) == 0 <==> a == 0 && b == 0,
{
    lemma_gcd_divides(a, b);
}

/// Divided by their greatest common divisor, two numbers have no common
/// divisor left but one.
pub proof fn lemma_gcd_quotients_coprime(a: nat, b: nat)
    requires
        gcd(a, b) != 0,
    ensures
        gcd(a / gcd(a, b), b / gcd(a, b)) == 1,
{
    let g = gcd(a, b);
    let x = a / g;
    let y = b / g;
    let h = gcd(x, y);
    lemma_gcd_divides(a, b);
    lemma_divides_quotient(g, a);
    lemma_divides_quotient(g, b);
    lemma_gcd_divides(x, y);
    lemma_gcd_zero(x, y);
    if h == 0 {
        assert(a == 0 && b == 0) by (nonlinear_arith)
            requires
                a == g * x,
                b == g * y,
                x == 0,
                y == 0,
        ;
        lemma_gcd_zero(a, b);
    } else {
        lemma_divides_quotient(h, x);
        lemma_divides_quotient(h, y);
        let kx = x / h;
        let ky = y / h;
        assert(a == (g * h) * kx) by (nonlinear_arith)
            requires
                a == g * x,
                x == h * kx,
        ;
        assert(b == (g * h) * ky) by (nonlinear_arith)
            requires
                b == g * y,
                y == h * ky,
        ;
        lemma_divides_multiple(g * h, kx);
        lemma_divides_multiple(g * h, ky);
        lemma_gcd_greatest(a, b, g * h);
        assert(g * h > 0) by (nonlinear_arith)
            requires
                g > 0,
                h > 0,
        ;
        lemma_divides_quotient(g * h, g);
        let k = g / (g * h);
        assert(h == 1) by (nonlinear_arith)
            requires
                g == (g * h) * k,
                g > 0,
                h > 0,
                k >= 0,
        ;
    }
}

/// Computes the greatest common divisor by Euclid's algorithm.
#[inline]
pub fn gcd_u64(a: u64, b: u64) -> (g: u64)
    ensures
        g == gcd(a as nat, b as nat),
{
    let mut x: u64 = a;
    let mut y: u64 = b;
    while y != 0
        invariant
            gcd(x as nat, y as nat) == gcd(a as nat, b as nat),
        decreases y,
    {
        let r: u64 = x % y;
        x = y;
        y = r;
    }
    x
}

} // verus!
