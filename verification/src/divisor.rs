//! Common divisors and Euclid's algorithm.

use vstd::prelude::*;
use vstd::arithmetic::div_mod::{
    lemma_fundamental_div_mod, lemma_mod_multiples_basic, lemma_small_mod, lemma_truncate_middle,
};

verus! {

/// `d` is a positive integer that divides both `a` and `b`.
pub open spec fn is_common_divisor(d: int, a: int, b: int) -> bool {
    d > 0 && a % d == 0 && b % d == 0
}

/// `g` is the greatest of the common divisors of `a` and `b`.
pub open spec fn is_greatest_common_divisor(g: int, a: int, b: int) -> bool {
    &&& is_common_divisor(g, a, b)
    &&& forall|d: int| is_common_divisor(d, a, b) ==> d <= g
}

/// The value Euclid's algorithm reaches from `(a, b)`: `a` once `b` is 0,
/// else what it reaches from `(b, a mod b)`.
pub open spec fn gcd_spec(a: nat, b: nat) -> nat
    decreases b,
{
    if b == 0 {
        a
    } else {
        gcd_spec(b, a % b)
    }
}

/// What leaves no remainder over `d` is `d` times its quotient.
pub proof fn lemma_no_remainder(x: int, d: int)
    requires
        d > 0,
        x % d == 0,
    ensures
        x == d * (x / d),
{
    lemma_fundamental_div_mod(x, d);
}

/// A multiple of `d` leaves no remainder over `d`.
pub proof fn lemma_multiple(x: int, d: int, k: int)
    requires
        d > 0,
        x == d * k,
    ensures
        x % d == 0,
{
    lemma_mod_multiples_basic(k, d);
    assert(k * d == d * k) by (nonlinear_arith);
}

/// With 0 on either side, Euclid's algorithm reaches the other number.
pub proof fn lemma_gcd_spec_of_zero(n: nat)
    ensures
        gcd_spec(n, 0) == n,
        gcd_spec(0, n) == n,
{
    if n > 0 {
        lemma_small_mod(0, n);
        assert(gcd_spec(0, n) == gcd_spec(n, 0));
    }
}

/// One step of Euclid's algorithm keeps the set of common divisors.
pub proof fn lemma_step_keeps_common_divisors(d: int, a: int, b: int)
    requires
        a >= 0,
        b > 0,
    ensures
        is_common_divisor(d, a, b) <==> is_common_divisor(d, b, a % b),
{
    if d > 0 {
        let q = a / b;
        let r = a % b;
        lemma_fundamental_div_mod(a, b);
        let kb = b / d;
        if is_common_divisor(d, a, b) {
            let ka = a / d;
            lemma_no_remainder(a, d);
            lemma_no_remainder(b, d);
            assert(r == d * (ka - kb * q)) by (nonlinear_arith)
                requires
                    a == b * q + r,
                    a == d * ka,
                    b == d * kb,
            ;
            lemma_multiple(r, d, ka - kb * q);
        }
        if is_common_divisor(d, b, r) {
            let kr = r / d;
            lemma_no_remainder(b, d);
            lemma_no_remainder(r, d);
            assert(a == d * (kb * q + kr)) by (nonlinear_arith)
                requires
                    a == b * q + r,
                    r == d * kr,
                    b == d * kb,
            ;
            lemma_multiple(a, d, kb * q + kr);
        }
    }
}

/// Euclid's algorithm ends on the greatest common divisor, unless both
/// numbers are 0, which have none.
pub proof fn lemma_gcd_spec_is_greatest(a: nat, b: nat)
    requires
        a > 0 || b > 0,
    ensures
        is_greatest_common_divisor(gcd_spec(a, b) as int, a as int, b as int),
    decreases b,
{
    if b == 0 {
        let g = a as int;
        lemma_multiple(g, g, 1);
        lemma_multiple(0, g, 0);
        assert forall|d: int| is_common_divisor(d, g, 0) implies d <= g by {
            if d > g {
                lemma_small_mod(a, d as nat);
            }
        }
    } else {
        let r = a % b;
        lemma_gcd_spec_is_greatest(b, r);
        let g = gcd_spec(a, b) as int;
        lemma_step_keeps_common_divisors(g, a as int, b as int);
        assert forall|d: int| is_common_divisor(d, a as int, b as int) implies d <= g by {
            lemma_step_keeps_common_divisors(d, a as int, b as int);
        }
    }
}

/// Every common divisor of two numbers divides what Euclid's algorithm
/// reaches from them.
pub proof fn lemma_common_divisor_divides_gcd(d: int, a: nat, b: nat)
    requires
        is_common_divisor(d, a as int, b as int),
    ensures
        (gcd_spec(a, b) as int) % d == 0,
    decreases b,
{
    if b != 0 {
        lemma_step_keeps_common_divisors(d, a as int, b as int);
        lemma_common_divisor_divides_gcd(d, b, a % b);
    }
}

/// Scaling both numbers by `k` scales what Euclid's algorithm reaches by `k`.
pub proof fn lemma_gcd_scales(k: nat, a: nat, b: nat)
    requires
        k > 0,
    ensures
        gcd_spec(k * a, k * b) == k * gcd_spec(a, b),
    decreases b,
{
    if b == 0 {
        assert(k * b == 0) by (nonlinear_arith)
            requires
                b == 0,
        ;
    } else {
        lemma_truncate_middle(a as int, k as int, b as int);
        assert((k * a) % (k * b) == k * (a % b));
        lemma_gcd_scales(k, b, a % b);
    }
}

/// A number that divides a product and shares no divisor above 1 with one
/// factor divides the other factor.
pub proof fn lemma_coprime_divides(p: nat, q: nat, s: nat)
    requires
        q > 0,
        gcd_spec(p, q) == 1,
        (p * s) % q == 0,
    ensures
        s % q == 0,
{
    if s > 0 {
        lemma_gcd_scales(s, p, q);
        assert(s * q == q * s && s * p == p * s) by (nonlinear_arith);
        lemma_multiple((s * q) as int, q as int, s as int);
        assert(s * gcd_spec(p, q) == s) by (nonlinear_arith)
            requires
                gcd_spec(p, q) == 1,
        ;
        lemma_common_divisor_divides_gcd(q as int, s * p, s * q);
    }
}

/// The greatest common divisor of `a` and `b`, by Euclid's algorithm.
/// Of two zeros it gives 0.
pub fn gcd(a: u64, b: u64) -> (g: u64)
    ensures
        g == gcd_spec(a as nat, b as nat),
        b == 0 ==> g == a,
        a == 0 ==> g == b,
        a != 0 || b != 0 ==> is_greatest_common_divisor(g as int, a as int, b as int),
{
    let mut x: u64 = a;
    let mut y: u64 = b;
    while y != 0
        invariant
            gcd_spec(x as nat, y as nat) == gcd_spec(a as nat, b as nat),
        decreases y,
    {
        let rest: u64 = x % y;
        x = y;
        y = rest;
    }
    proof {
        lemma_gcd_spec_of_zero(a as nat);
        lemma_gcd_spec_of_zero(b as nat);
        if a != 0 || b != 0 {
            lemma_gcd_spec_is_greatest(a as nat, b as nat);
        }
    }
    x
}

} // verus!
