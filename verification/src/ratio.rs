//! The mathematical model of a fraction: a pair of unbounded integers.

use vstd::prelude::*;
use vstd::arithmetic::div_mod::{lemma_fundamental_div_mod, lemma_fundamental_div_mod_converse};
use crate::divisor::{
    gcd_spec, is_common_divisor, is_greatest_common_divisor, lemma_coprime_divides,
    lemma_gcd_spec_is_greatest, lemma_gcd_spec_of_zero, lemma_multiple, lemma_no_remainder,
};

verus! {

/// The distance of `n` from 0.
pub open spec fn magnitude_of(n: int) -> nat {
    if n < 0 {
        (-n) as nat
    } else {
        n as nat
    }
}

/// A numerator over a denominator, both unbounded. Two ratios are equal
/// when their pairs are; [`Ratio::same_value`] compares what they stand for.
pub ghost struct Ratio {
    pub num: int,
    pub den: int,
}

impl Ratio {
    /// The denominator is strictly positive, so the numerator carries the sign.
    pub open spec fn wf(self) -> bool {
        self.den > 0
    }

    /// Well formed, and both parts can be stored in 64 bits.
    pub open spec fn fits(self) -> bool {
        &&& i64::MIN <= self.num <= i64::MAX
        &&& 0 < self.den <= i64::MAX
    }

    /// `n` over `d` with the sign moved to the numerator.
    pub open spec fn normalized(n: int, d: int) -> Ratio {
        if d < 0 {
            Ratio { num: -n, den: -d }
        } else {
            Ratio { num: n, den: d }
        }
    }

    /// The whole number `n`.
    pub open spec fn whole(n: int) -> Ratio {
        Ratio { num: n, den: 1 }
    }

    /// Both stand for the same rational number.
    pub open spec fn same_value(self, other: Ratio) -> bool {
        self.num * other.den == other.num * self.den
    }

    /// `self` stands for a smaller rational number than `other`.
    pub open spec fn less_than(self, other: Ratio) -> bool {
        self.num * other.den < other.num * self.den
    }

    /// The sum, by cross-multiplication, not reduced.
    pub open spec fn plus(self, other: Ratio) -> Ratio {
        Ratio {
            num: self.num * other.den + other.num * self.den,
            den: self.den * other.den,
        }
    }

    /// The difference, by cross-multiplication, not reduced.
    pub open spec fn minus(self, other: Ratio) -> Ratio {
        Ratio {
            num: self.num * other.den - other.num * self.den,
            den: self.den * other.den,
        }
    }

    /// The product, part by part, not reduced.
    pub open spec fn times(self, other: Ratio) -> Ratio {
        Ratio { num: self.num * other.num, den: self.den * other.den }
    }

    /// Denominator over numerator, sign kept in the numerator.
    /// Meaningful where the numerator is not 0.
    pub open spec fn inverse(self) -> Ratio {
        Ratio::normalized(self.den, self.num)
    }

    /// `self` times the inverse of `other`.
    pub open spec fn over(self, other: Ratio) -> Ratio {
        self.times(other.inverse())
    }

    /// The same magnitude with the opposite sign.
    pub open spec fn negated(self) -> Ratio {
        Ratio { num: -self.num, den: self.den }
    }

    /// The same magnitude without a sign.
    pub open spec fn magnitude(self) -> Ratio {
        Ratio { num: magnitude_of(self.num) as int, den: self.den }
    }

    /// The divisor that [`Ratio::lowest_terms`] removes from both parts.
    pub open spec fn common_factor(self) -> int {
        gcd_spec(magnitude_of(self.num), magnitude_of(self.den)) as int
    }

    /// Both parts divided by their greatest common divisor.
    pub open spec fn lowest_terms(self) -> Ratio {
        Ratio { num: self.num / self.common_factor(), den: self.den / self.common_factor() }
    }

    /// Numerator and denominator share no divisor above 1.
    pub open spec fn is_reduced(self) -> bool {
        is_greatest_common_divisor(1, magnitude_of(self.num) as int, self.den)
    }
}

/// What the common factor of a well-formed ratio is: a positive number
/// that splits both parts without remainder, the greatest that does.
pub proof fn lemma_common_factor(r: Ratio)
    requires
        r.wf(),
    ensures
        is_greatest_common_divisor(r.common_factor(), magnitude_of(r.num) as int, r.den),
        0 < r.common_factor() <= r.den,
        r.num == r.common_factor() * r.lowest_terms().num,
        r.den == r.common_factor() * r.lowest_terms().den,
        magnitude_of(r.num) == r.common_factor() * magnitude_of(r.lowest_terms().num),
        magnitude_of(r.lowest_terms().num) == magnitude_of(r.num) as int / r.common_factor(),
{
    let g = r.common_factor();
    let m = magnitude_of(r.num) as int;
    lemma_gcd_spec_is_greatest(magnitude_of(r.num), magnitude_of(r.den));
    // g divides the denominator, which is positive: g cannot exceed it
    lemma_fundamental_div_mod(r.den, g);
    lemma_fundamental_div_mod(m, g);
    let kd = r.den / g;
    let km = m / g;
    assert(kd >= 1 && g <= r.den) by (nonlinear_arith)
        requires
            r.den == g * kd,
            r.den > 0,
            g > 0,
    ;
    assert(km >= 0) by (nonlinear_arith)
        requires
            m == g * km,
            m >= 0,
            g > 0,
    ;
    if r.num < 0 {
        assert(r.num == (-km) * g + 0) by (nonlinear_arith)
            requires
                -r.num == g * km,
        ;
        lemma_fundamental_div_mod_converse(r.num, g, -km, 0);
    }
    assert(r.num == g * (r.num / g)) by (nonlinear_arith)
        requires
            m == g * km,
            r.num < 0 ==> r.num == -m && r.num / g == -km,
            r.num >= 0 ==> r.num == m && r.num / g == km,
    ;
}

/// Lowest terms are what the name says: the same value, well formed, no
/// larger in either part, and with no common divisor above 1 left.
pub proof fn lemma_lowest_terms(r: Ratio)
    requires
        r.wf(),
    ensures
        r.lowest_terms().wf(),
        r.lowest_terms().same_value(r),
        r.lowest_terms().is_reduced(),
        r.lowest_terms().den <= r.den,
        magnitude_of(r.lowest_terms().num) <= magnitude_of(r.num),
        r.fits() ==> r.lowest_terms().fits(),
{
    let g = r.common_factor();
    let l = r.lowest_terms();
    let m = magnitude_of(r.num) as int;
    let lm = magnitude_of(l.num) as int;
    lemma_common_factor(r);
    assert(l.den > 0 && l.den <= r.den && lm <= m) by (nonlinear_arith)
        requires
            r.den == g * l.den,
            m == g * lm,
            r.den > 0,
            g > 0,
            lm >= 0,
    ;
    assert(l.num * r.den == r.num * l.den) by (nonlinear_arith)
        requires
            r.den == g * l.den,
            r.num == g * l.num,
    ;
    assert(lm % 1 == 0 && l.den % 1 == 0);
    assert forall|d: int| is_common_divisor(d, lm, l.den) implies d <= 1 by {
        lemma_no_remainder(lm, d);
        lemma_no_remainder(l.den, d);
        let k1 = lm / d;
        let k2 = l.den / d;
        assert(m == (g * d) * k1 && r.den == (g * d) * k2 && g * d > 0) by (nonlinear_arith)
            requires
                m == g * lm,
                r.den == g * l.den,
                lm == d * k1,
                l.den == d * k2,
                g > 0,
                d > 0,
        ;
        lemma_multiple(m, g * d, k1);
        lemma_multiple(r.den, g * d, k2);
        assert(is_common_divisor(g * d, m, r.den));
        assert(d <= 1) by (nonlinear_arith)
            requires
                g * d <= g,
                g > 0,
        ;
    }
}

/// Zero over anything has the lowest terms `0 / 1`.
pub proof fn lemma_lowest_terms_of_zero(r: Ratio)
    requires
        r.wf(),
        r.num == 0,
    ensures
        r.lowest_terms() == Ratio::whole(0),
{
    lemma_gcd_spec_of_zero(r.den as nat);
    lemma_common_factor(r);
    assert(r.lowest_terms().den == 1) by (nonlinear_arith)
        requires
            r.den == r.den * r.lowest_terms().den,
            r.den > 0,
    ;
    assert(r.lowest_terms().num == 0) by (nonlinear_arith)
        requires
            0 == r.den * r.lowest_terms().num,
            r.den > 0,
    ;
}

/// A reduced ratio has common factor 1, so reducing it changes nothing.
pub proof fn lemma_reduced_is_fixed(r: Ratio)
    requires
        r.wf(),
        r.is_reduced(),
    ensures
        r.common_factor() == 1,
        r.lowest_terms() == r,
{
    lemma_common_factor(r);
    let g = r.common_factor();
    assert(is_common_divisor(g, magnitude_of(r.num) as int, r.den));
    assert(is_common_divisor(1, magnitude_of(r.num) as int, r.den));
    assert(g == 1);
    assert(r.num / 1 == r.num && r.den / 1 == r.den);
}

/// Of two reduced ratios of the same value, the first denominator divides
/// the second.
proof fn lemma_reduced_denominator_divides(a: Ratio, b: Ratio)
    requires
        a.wf(),
        b.wf(),
        a.is_reduced(),
        a.same_value(b),
    ensures
        b.den % a.den == 0,
        a.den <= b.den,
{
    lemma_reduced_is_fixed(a);
    let ma = magnitude_of(a.num);
    let mb = magnitude_of(b.num);
    assert(ma * b.den == mb * a.den) by (nonlinear_arith)
        requires
            a.num * b.den == b.num * a.den,
            a.den > 0,
            b.den > 0,
            ma == if a.num < 0 { -a.num } else { a.num },
            mb == if b.num < 0 { -b.num } else { b.num },
    ;
    lemma_multiple(ma * b.den, a.den, mb as int);
    lemma_coprime_divides(ma, a.den as nat, b.den as nat);
    lemma_no_remainder(b.den, a.den);
    let k = b.den / a.den;
    assert(a.den <= b.den) by (nonlinear_arith)
        requires
            b.den == a.den * k,
            a.den > 0,
            b.den > 0,
    ;
}

/// A value has one reduced pair only: reduced ratios of the same value are
/// equal part for part.
pub proof fn lemma_reduced_is_unique(a: Ratio, b: Ratio)
    requires
        a.wf(),
        b.wf(),
        a.is_reduced(),
        b.is_reduced(),
        a.same_value(b),
    ensures
        a == b,
{
    lemma_reduced_denominator_divides(a, b);
    lemma_reduced_denominator_divides(b, a);
    assert(a.num == b.num) by (nonlinear_arith)
        requires
            a.num * b.den == b.num * a.den,
            a.den == b.den,
            a.den > 0,
    ;
}

} // verus!
