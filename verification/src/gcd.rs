//! Greatest common divisors of natural numbers, and what makes a fraction
//! the lowest-terms form of its value.

use vstd::arithmetic::div_mod::{
    lemma_fundamental_div_mod, lemma_mod_multiples_basic, lemma_truncate_middle,
};
use vstd::prelude::*;

verus! {

/// `d` is a positive number of which `n` is a multiple.
pub open spec fn divides(d: nat, n: nat) -> bool {
    d > 0 && n % d == 0
}

/// The greatest common divisor of `a` and `b`, with `gcd(0, b) == b`.
pub open spec fn gcd(a: nat, b: nat) -> nat
    decreases a,
{
    if a == 0 {
        b
    } else {
        gcd(b % a, a)
    }
}

/// `g` divides both numbers, and no larger number does.
pub open spec fn is_greatest_common_divisor(g: nat, a: nat, b: nat) -> bool {
    &&& divides(g, a)
    &&& divides(g, b)
    &&& forall|d: nat| divides(d, a) && divides(d, b) ==> d <= g
}

/// The fraction `n / d` cannot be reduced any further.
pub open spec fn in_lowest_terms(n: nat, d: nat) -> bool {
    gcd(n, d) == 1
}

/// A multiple of `d` written out: `n == d * (n / d)`.
pub proof fn lemma_divides_as_product(d: nat, n: nat)
    requires
        divides(d, n),
    ensures
        n == d * (n / d),
{
    lemma_fundamental_div_mod(n as int, d as int);
}

/// Every product with `d` is a multiple of `d`.
pub proof fn lemma_product_divides(d: nat, k: nat)
    requires
        d > 0,
    ensures
        divides(d, d * k),
        divides(d, k * d),
{
    lemma_mod_multiples_basic(k as int, d as int);
    assert(d * k == k * d) by (nonlinear_arith);
}

/// A divisor of a positive number is not larger than it.
pub proof fn lemma_divisor_bound(d: nat, n: nat)
    requires
        divides(d, n),
        n > 0,
    ensures
        d <= n,
{
    lemma_divides_as_product(d, n);
    let q = n / d;
    assert(d <= d * q) by (nonlinear_arith)
        requires
            d * q > 0,
            d > 0,
    ;
}

/// A common divisor of `x` and `y` divides `x * q + y`, and also `y - x * q`
/// where that is not negative.
proof fn lemma_divides_combination(c: nat, x: nat, q: nat, y: nat)
    requires
        divides(c, x),
        divides(c, y),
    ensures
        divides(c, x * q + y),
        y >= x * q ==> divides(c, (y - x * q) as nat),
{
    lemma_divides_as_product(c, x);
    lemma_divides_as_product(c, y);
    let kx = x / c;
    let ky = y / c;
    assert(x * q + y == c * (kx * q + ky)) by (nonlinear_arith)
        requires
            x == c * kx,
            y == c * ky,
    ;
    lemma_product_divides(c, kx * q + ky);
    if y >= x * q {
        assert(ky >= kx * q) by (nonlinear_arith)
            requires
                x == c * kx,
                y == c * ky,
                y >= x * q,
                c > 0,
        ;
        assert(y - x * q == c * ((ky - kx * q) as nat)) by (nonlinear_arith)
            requires
                x == c * kx,
                y == c * ky,
                ky >= kx * q,
        ;
        lemma_product_divides(c, (ky - kx * q) as nat);
    }
}

/// The greatest common divisor is zero only for the pair of zeros.
pub proof fn lemma_gcd_positive(a: nat, b: nat)
    requires
        a > 0 || b > 0,
    ensures
        gcd(a, b) > 0,
    decreases a,
{
    if a != 0 {
        lemma_gcd_positive(b % a, a);
    }
}

/// The greatest common divisor divides both numbers.
pub proof fn lemma_gcd_divides(a: nat, b: nat)
    requires
        a > 0 || b > 0,
    ensures
        divides(gcd(a, b), a),
        divides(gcd(a, b), b),
    decreases a,
{
    lemma_gcd_positive(a, b);
    if a == 0 {
        lemma_product_divides(b, 0);
        lemma_product_divides(b, 1);
    } else {
        let g = gcd(a, b);
        let r = b % a;
        lemma_gcd_divides(r, a);
        lemma_fundamental_div_mod(b as int, a as int);
        lemma_divides_combination(g, a, b / a, r);
    }
}

/// Every common divisor of two numbers divides their greatest common divisor.
pub proof fn lemma_common_divisor_divides_gcd(c: nat, a: nat, b: nat)
    requires
        divides(c, a),
        divides(c, b),
    ensures
        divides(c, gcd(a, b)),
    decreases a,
{
    if a != 0 {
        let r = b % a;
        lemma_fundamental_div_mod(b as int, a as int);
        lemma_divides_combination(c, a, b / a, b);
        lemma_common_divisor_divides_gcd(c, r, a);
    }
}

/// What `gcd` computes is the greatest of the common divisors.
pub proof fn lemma_gcd_is_greatest(a: nat, b: nat)
    requires
        a > 0 || b > 0,
    ensures
        is_greatest_common_divisor(gcd(a, b), a, b),
{
    lemma_gcd_divides(a, b);
    lemma_gcd_positive(a, b);
    assert forall|d: nat| divides(d, a) && divides(d, b) implies d <= gcd(a, b) by {
        lemma_common_divisor_divides_gcd(d, a, b);
        lemma_divisor_bound(d, gcd(a, b));
    }
}

/// A common factor can be taken out of a greatest common divisor.
pub proof fn lemma_gcd_scales(x: nat, a: nat, b: nat)
    ensures
        gcd(x * a, x * b) == x * gcd(a, b),
    decreases a,
{
    if x == 0 {
        assert(x * a == 0 && x * b == 0 && x * gcd(a, b) == 0) by (nonlinear_arith)
            requires
                x == 0,
        ;
    } else if a == 0 {
        assert(x * a == 0) by (nonlinear_arith)
            requires
                a == 0,
        ;
    } else {
        lemma_truncate_middle(b as int, x as int, a as int);
        assert(x * a > 0) by (nonlinear_arith)
            requires
                x > 0,
                a > 0,
        ;
        lemma_gcd_scales(x, b % a, a);
    }
}

/// Dividing both parts of a fraction by their greatest common divisor leaves
/// a fraction in lowest terms of the same value.
pub proof fn lemma_reduced_is_lowest(n: nat, d: nat)
    requires
        d > 0,
    ensures
        gcd(n, d) > 0,
        n == gcd(n, d) * (n / gcd(n, d)),
        d == gcd(n, d) * (d / gcd(n, d)),
        d / gcd(n, d) > 0,
        in_lowest_terms(n / gcd(n, d), d / gcd(n, d)),
{
    let g = gcd(n, d);
    lemma_gcd_divides(n, d);
    lemma_divides_as_product(g, n);
    lemma_divides_as_product(g, d);
    let rn = n / g;
    let rd = d / g;
    lemma_gcd_scales(g, rn, rd);
    assert(rd > 0) by (nonlinear_arith)
        requires
            d == g * rd,
            d > 0,
    ;
    assert(gcd(rn, rd) == 1) by (nonlinear_arith)
        requires
            g == g * gcd(rn, rd),
            g > 0,
    ;
}

/// A number that is coprime to `p` and divides `p * x` divides `x`.
pub proof fn lemma_coprime_divisor(p: nat, q: nat, x: nat)
    requires
        gcd(p, q) == 1,
        divides(q, p * x),
    ensures
        divides(q, x),
{
    lemma_gcd_scales(x, p, q);
    assert(x * p == p * x && x * q == q * x && x * 1 == x) by (nonlinear_arith);
    lemma_product_divides(q, x);
    lemma_common_divisor_divides_gcd(q, p * x, q * x);
}

/// Two fractions in lowest terms that have the same value are the same
/// fraction.
pub proof fn lemma_lowest_terms_unique(n1: nat, d1: nat, n2: nat, d2: nat)
    requires
        d1 > 0,
        d2 > 0,
        in_lowest_terms(n1, d1),
        in_lowest_terms(n2, d2),
        n1 * d2 == n2 * d1,
    ensures
        n1 == n2,
        d1 == d2,
{
    // d1 divides n1 * d2 and is coprime to n1, so it divides d2
    lemma_product_divides(d1, n2);
    lemma_coprime_divisor(n1, d1, d2);
    // and the other way round
    lemma_product_divides(d2, n1);
    lemma_coprime_divisor(n2, d2, d1);
    lemma_divisor_bound(d1, d2);
    lemma_divisor_bound(d2, d1);
    assert(n1 == n2) by (nonlinear_arith)
        requires
            n1 * d2 == n2 * d1,
            d1 == d2,
            d1 > 0,
    ;
}

/// Fractions of the same value reduce to the same fraction.
pub proof fn lemma_equal_values_reduce_alike(n1: nat, d1: nat, n2: nat, d2: nat)
    requires
        d1 > 0,
        d2 > 0,
        n1 * d2 == n2 * d1,
    ensures
        n1 / gcd(n1, d1) == n2 / gcd(n2, d2),
        d1 / gcd(n1, d1) == d2 / gcd(n2, d2),
{
    lemma_reduced_is_lowest(n1, d1);
    lemma_reduced_is_lowest(n2, d2);
    let g1 = gcd(n1, d1);
    let g2 = gcd(n2, d2);
    let (rn1, rd1) = (n1 / g1, d1 / g1);
    let (rn2, rd2) = (n2 / g2, d2 / g2);
    assert(rn1 * rd2 == rn2 * rd1) by (nonlinear_arith)
        requires
            n1 == g1 * rn1,
            d1 == g1 * rd1,
            n2 == g2 * rn2,
            d2 == g2 * rd2,
            n1 * d2 == n2 * d1,
            g1 > 0,
            g2 > 0,
    ;
    lemma_lowest_terms_unique(rn1, rd1, rn2, rd2);
}

} // verus!
