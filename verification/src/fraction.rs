//! The fraction type: construction, arithmetic, reduction, and the tests
//! that tell beforehand whether a result can be stored.

use vstd::prelude::*;
use crate::divisor::gcd;
use crate::ratio::{
    lemma_common_factor, lemma_lowest_terms, lemma_lowest_terms_of_zero, magnitude_of, Ratio,
};

verus! {

/// Why an operation on fractions gave no result.
#[derive(Debug, Clone, Copy, PartialEq, Eq, Structural)]
pub enum FractionError {
    /// A fraction was asked for with denominator 0.
    ZeroDenominator,
    /// A fraction was to be divided by one whose value is 0.
    DivisionByZero,
}

/// A rational number: a signed numerator over a strictly positive
/// denominator. The pair is kept as given or computed; it need not be in
/// lowest terms.
///
/// Arithmetic is exact. A result whose numerator or denominator cannot be
/// stored in an `i64` is outside what an operation accepts: each states
/// so in its `requires`.
#[derive(Debug, Clone, Copy)]
pub struct Fraction {
    numerator: i64,
    denominator: i64,
}

impl View for Fraction {
    type V = Ratio;

    closed spec fn view(&self) -> Ratio {
        Ratio { num: self.numerator as int, den: self.denominator as int }
    }
}

/// A product of two 64-bit numbers stays within 126 bits, and strictly
/// so unless both are `i64::MIN`.
proof fn lemma_product_bounds(a: int, b: int)
    requires
        i64::MIN <= a <= i64::MAX,
        i64::MIN <= b <= i64::MAX,
    ensures
        -0x4000_0000_0000_0000_0000_0000_0000_0000 <= a * b <= 0x4000_0000_0000_0000_0000_0000_0000_0000,
        a > i64::MIN || b > i64::MIN ==> -0x4000_0000_0000_0000_0000_0000_0000_0000 < a * b
            < 0x4000_0000_0000_0000_0000_0000_0000_0000,
{
    assert(-0x4000_0000_0000_0000_0000_0000_0000_0000 <= a * b
        <= 0x4000_0000_0000_0000_0000_0000_0000_0000) by (nonlinear_arith)
        requires
            -0x8000_0000_0000_0000 <= a <= 0x8000_0000_0000_0000,
            -0x8000_0000_0000_0000 <= b <= 0x8000_0000_0000_0000,
    ;
    if a > i64::MIN {
        assert(-0x4000_0000_0000_0000_0000_0000_0000_0000 < a * b
            < 0x4000_0000_0000_0000_0000_0000_0000_0000) by (nonlinear_arith)
            requires
                -0x7fff_ffff_ffff_ffff <= a <= 0x7fff_ffff_ffff_ffff,
                -0x8000_0000_0000_0000 <= b <= 0x8000_0000_0000_0000,
        ;
    }
    if b > i64::MIN {
        assert(-0x4000_0000_0000_0000_0000_0000_0000_0000 < a * b
            < 0x4000_0000_0000_0000_0000_0000_0000_0000) by (nonlinear_arith)
            requires
                -0x8000_0000_0000_0000 <= a <= 0x8000_0000_0000_0000,
                -0x7fff_ffff_ffff_ffff <= b <= 0x7fff_ffff_ffff_ffff,
        ;
    }
}

/// `a * b`, computed in 128 bits, where it cannot overflow.
pub(crate) fn wide_product(a: i64, b: i64) -> (p: i128)
    ensures
        p == a * b,
        -0x4000_0000_0000_0000_0000_0000_0000_0000 <= p <= 0x4000_0000_0000_0000_0000_0000_0000_0000,
        a > i64::MIN || b > i64::MIN ==> -0x4000_0000_0000_0000_0000_0000_0000_0000 < p
            < 0x4000_0000_0000_0000_0000_0000_0000_0000,
{
    proof {
        lemma_product_bounds(a as int, b as int);
    }
    (a as i128) * (b as i128)
}

/// The product of two positive numbers is positive.
proof fn lemma_positive_product(a: int, b: int)
    requires
        a > 0,
        b > 0,
    ensures
        a * b > 0,
{
    assert(a * b > 0) by (nonlinear_arith)
        requires
            a > 0,
            b > 0,
    ;
}

/// Whether `x` lies in the range of an `i64`.
fn in_range(x: i128) -> (b: bool)
    ensures
        b == (i64::MIN <= x <= i64::MAX),
{
    -0x8000_0000_0000_0000 <= x && x <= 0x7fff_ffff_ffff_ffff
}

/// `x` as a 64-bit number, where it is one.
fn narrow(x: i128) -> (r: i64)
    requires
        i64::MIN <= x <= i64::MAX,
    ensures
        r == x,
{
    x as i64
}

/// The distance of `n` from 0, which always fits in 64 bits without sign.
pub(crate) fn magnitude(n: i64) -> (m: u64)
    ensures
        m == magnitude_of(n as int),
{
    if n < 0 {
        let wide: i128 = -(n as i128);
        wide as u64
    } else {
        n as u64
    }
}

impl Fraction {
    #[verifier::type_invariant]
    spec fn positive_denominator(self) -> bool {
        self.denominator > 0
    }

    /// The fraction that stores the pair `r`, where `r` fits.
    pub closed spec fn storing(r: Ratio) -> Fraction {
        Fraction { numerator: r.num as i64, denominator: r.den as i64 }
    }

    /// A fraction is known by its pair: the one that stores `r` has the
    /// view `r`, and no other fraction has.
    pub proof fn lemma_storing(self, r: Ratio)
        ensures
            Fraction::storing(self@) == self,
            r.fits() ==> Fraction::storing(r)@ == r,
            r.fits() && self@ == r ==> self == Fraction::storing(r),
    {
    }

    /// The fraction `numerator / denominator`, with the sign moved to the
    /// numerator. The pair is not reduced.
    ///
    /// A negative denominator has both parts negated, so neither may then
    /// be `i64::MIN`.
    pub fn new(numerator: i64, denominator: i64) -> (r: Result<Fraction, FractionError>)
        requires
            denominator != 0 ==> Ratio::normalized(numerator as int, denominator as int).fits(),
        ensures
            denominator == 0 ==> r == Err::<Fraction, FractionError>(FractionError::ZeroDenominator),
            denominator != 0 ==> r.is_ok() && r.unwrap()@ == Ratio::normalized(
                numerator as int,
                denominator as int,
            ),
            denominator != 0 ==> r.unwrap()@.den > 0,
            denominator != 0 ==> (r.unwrap()@.num < 0 <==> (numerator < 0) != (denominator < 0)
                && numerator != 0),
            denominator != 0 ==> (r.unwrap()@.num == 0 <==> numerator == 0),
    {
        if denominator == 0 {
            return Err(FractionError::ZeroDenominator);
        }
        if denominator < 0 {
            Ok(Fraction { numerator: -numerator, denominator: -denominator })
        } else {
            Ok(Fraction { numerator, denominator })
        }
    }

    /// The whole number `n`, as `n / 1`.
    pub fn from_integer(n: i64) -> (r: Fraction)
        ensures
            r@ == Ratio::whole(n as int),
    {
        Fraction { numerator: n, denominator: 1 }
    }

    /// The stored numerator.
    pub fn numerator(&self) -> (n: i64)
        ensures
            n == self@.num,
    {
        self.numerator
    }

    /// The stored denominator, which is always positive.
    pub fn denominator(&self) -> (d: i64)
        ensures
            d == self@.den,
            d > 0,
    {
        proof {
            use_type_invariant(self);
        }
        self.denominator
    }

    /// The fraction without its sign: `|numerator| / denominator`.
    ///
    /// The numerator must not be `i64::MIN`, whose magnitude cannot be stored.
    pub fn abs(&self) -> (r: Fraction)
        requires
            self@.magnitude().fits(),
        ensures
            r@ == self@.magnitude(),
            r@.num >= 0,
            self@.num >= 0 ==> r@ == self@,
    {
        proof {
            use_type_invariant(self);
        }
        if self.numerator < 0 {
            Fraction { numerator: -self.numerator, denominator: self.denominator }
        } else {
            Fraction { numerator: self.numerator, denominator: self.denominator }
        }
    }

    /// The fraction with the opposite sign: `-numerator / denominator`.
    ///
    /// The numerator must not be `i64::MIN`.
    pub fn negate(&self) -> (r: Fraction)
        requires
            self@.negated().fits(),
        ensures
            r@ == self@.negated(),
            r@.negated() == self@,
            r@.negated().fits(),
    {
        proof {
            use_type_invariant(self);
        }
        Fraction { numerator: -self.numerator, denominator: self.denominator }
    }

    /// Whether the value is above 0.
    pub fn is_positive(&self) -> (b: bool)
        ensures
            b == (self@.num > 0),
    {
        self.numerator > 0
    }

    /// Whether the value is below 0.
    pub fn is_negative(&self) -> (b: bool)
        ensures
            b == (self@.num < 0),
    {
        self.numerator < 0
    }

    /// Whether the value is 0.
    pub fn is_zero(&self) -> (b: bool)
        ensures
            b == (self@.num == 0),
    {
        self.numerator == 0
    }

    /// Denominator over numerator, with the sign kept in the numerator.
    /// A fraction of value 0 has no reciprocal.
    ///
    /// The numerator must not be `i64::MIN`: it could not become a
    /// denominator.
    pub fn reciprocal(&self) -> (r: Result<Fraction, FractionError>)
        requires
            self@.num != 0 ==> self@.inverse().fits(),
        ensures
            self@.num == 0 ==> r == Err::<Fraction, FractionError>(FractionError::DivisionByZero),
            self@.num != 0 ==> r.is_ok() && r.unwrap()@ == self@.inverse(),
    {
        proof {
            use_type_invariant(self);
        }
        if self.numerator == 0 {
            return Err(FractionError::DivisionByZero);
        }
        Fraction::new(self.denominator, self.numerator)
    }

    /// The sum, as `(a.num * b.den + b.num * a.den) / (a.den * b.den)`, not
    /// reduced.
    pub fn add(&self, other: &Fraction) -> (r: Fraction)
        requires
            self@.plus(other@).fits(),
        ensures
            r@ == self@.plus(other@),
    {
        proof {
            use_type_invariant(self);
            use_type_invariant(other);
        }
        let left: i128 = wide_product(self.numerator, other.denominator);
        let right: i128 = wide_product(other.numerator, self.denominator);
        let below: i128 = wide_product(self.denominator, other.denominator);
        Fraction { numerator: narrow(left + right), denominator: narrow(below) }
    }

    /// The difference, as `(a.num * b.den - b.num * a.den) / (a.den * b.den)`,
    /// not reduced.
    pub fn subtract(&self, other: &Fraction) -> (r: Fraction)
        requires
            self@.minus(other@).fits(),
        ensures
            r@ == self@.minus(other@),
    {
        proof {
            use_type_invariant(self);
            use_type_invariant(other);
        }
        let left: i128 = wide_product(self.numerator, other.denominator);
        let right: i128 = wide_product(other.numerator, self.denominator);
        let below: i128 = wide_product(self.denominator, other.denominator);
        Fraction { numerator: narrow(left - right), denominator: narrow(below) }
    }

    /// The product, as `(a.num * b.num) / (a.den * b.den)`, not reduced.
    pub fn multiply(&self, other: &Fraction) -> (r: Fraction)
        requires
            self@.times(other@).fits(),
        ensures
            r@ == self@.times(other@),
    {
        proof {
            use_type_invariant(self);
            use_type_invariant(other);
        }
        let above: i128 = wide_product(self.numerator, other.numerator);
        let below: i128 = wide_product(self.denominator, other.denominator);
        Fraction { numerator: narrow(above), denominator: narrow(below) }
    }

    /// The quotient: `self` times the reciprocal of `other`, not reduced.
    /// Nothing can be divided by a fraction of value 0.
    pub fn divide(&self, other: &Fraction) -> (r: Result<Fraction, FractionError>)
        requires
            other@.num != 0 ==> self@.over(other@).fits(),
        ensures
            other@.num == 0 ==> r == Err::<Fraction, FractionError>(FractionError::DivisionByZero),
            other@.num != 0 ==> r.is_ok() && r.unwrap()@ == self@.over(other@),
    {
        proof {
            use_type_invariant(self);
            use_type_invariant(other);
            if other@.num != 0 {
                // a numerator of i64::MIN would turn into a denominator
                // that no positive factor brings back into range
                let turned = other@.inverse();
                assert(turned.den <= i64::MAX) by (nonlinear_arith)
                    requires
                        self@.den * turned.den <= i64::MAX,
                        self@.den >= 1,
                        turned.den >= 1,
                ;
            }
        }
        match other.reciprocal() {
            Ok(turned) => Ok(self.multiply(&turned)),
            Err(e) => Err(e),
        }
    }

    /// The same value in lowest terms: both parts divided by their
    /// greatest common divisor. A value of 0 becomes `0 / 1`.
    pub fn reduce(&self) -> (r: Fraction)
        ensures
            r@ == self@.lowest_terms(),
            r@.same_value(self@),
            r@.is_reduced(),
            self@.num == 0 ==> r@ == Ratio::whole(0),
    {
        proof {
            use_type_invariant(self);
            lemma_common_factor(self@);
            lemma_lowest_terms(self@);
            if self@.num == 0 {
                lemma_lowest_terms_of_zero(self@);
            }
        }
        let size: u64 = magnitude(self.numerator);
        let below: u64 = magnitude(self.denominator);
        let factor: u64 = gcd(size, below);
        let part: u64 = size / factor;
        let numerator: i64 = if self.numerator < 0 {
            narrow(-(part as i128))
        } else {
            narrow(part as i128)
        };
        let denominator: i64 = narrow((below / factor) as i128);
        Fraction { numerator, denominator }
    }

    /// Whether `Fraction::new(numerator, denominator)` may be called: always
    /// with a denominator of 0 or above, else where neither part is
    /// `i64::MIN`.
    pub fn can_hold(numerator: i64, denominator: i64) -> (b: bool)
        ensures
            b == (denominator != 0 ==> Ratio::normalized(numerator as int, denominator as int).fits()),
    {
        denominator >= 0 || (numerator != i64::MIN && denominator != i64::MIN)
    }

    /// Whether `negate`, and so `abs`, may be called: the numerator is not
    /// `i64::MIN`.
    pub fn can_negate(&self) -> (b: bool)
        ensures
            b == self@.negated().fits(),
            b == self@.magnitude().fits(),
            b == (self@.num > i64::MIN),
    {
        proof {
            use_type_invariant(self);
        }
        self.numerator() != i64::MIN
    }

    /// Whether `reciprocal` may be called: the numerator is not `i64::MIN`.
    pub fn can_invert(&self) -> (b: bool)
        ensures
            b == (self@.num != 0 ==> self@.inverse().fits()),
            b == (self@.num > i64::MIN),
    {
        proof {
            use_type_invariant(self);
        }
        self.numerator() != i64::MIN
    }

    /// Whether the sum with `other` fits, so that `add` may be called.
    pub fn can_add(&self, other: &Fraction) -> (b: bool)
        ensures
            b == self@.plus(other@).fits(),
    {
        let left: i128 = wide_product(self.numerator(), other.denominator());
        let right: i128 = wide_product(other.numerator(), self.denominator());
        let below: i128 = wide_product(self.denominator(), other.denominator());
        proof {
            lemma_positive_product(self@.den, other@.den);
        }
        in_range(left + right) && in_range(below)
    }

    /// Whether the difference to `other` fits, so that `subtract` may be
    /// called.
    pub fn can_subtract(&self, other: &Fraction) -> (b: bool)
        ensures
            b == self@.minus(other@).fits(),
    {
        let left: i128 = wide_product(self.numerator(), other.denominator());
        let right: i128 = wide_product(other.numerator(), self.denominator());
        let below: i128 = wide_product(self.denominator(), other.denominator());
        proof {
            lemma_positive_product(self@.den, other@.den);
        }
        in_range(left - right) && in_range(below)
    }

    /// Whether the product with `other` fits, so that `multiply` may be
    /// called.
    pub fn can_multiply(&self, other: &Fraction) -> (b: bool)
        ensures
            b == self@.times(other@).fits(),
    {
        let above: i128 = wide_product(self.numerator(), other.numerator());
        let below: i128 = wide_product(self.denominator(), other.denominator());
        proof {
            lemma_positive_product(self@.den, other@.den);
        }
        in_range(above) && in_range(below)
    }

    /// Whether `divide` by `other` may be called: `other` is 0, which
    /// `divide` answers with an error, or the quotient fits.
    pub fn can_divide(&self, other: &Fraction) -> (b: bool)
        ensures
            b == (other@.num != 0 ==> self@.over(other@).fits()),
    {
        if other.is_zero() {
            return true;
        }
        proof {
            use_type_invariant(self);
        }
        if !other.can_invert() {
            proof {
                // |i64::MIN| times a positive denominator is out of range
                let turned = other@.inverse();
                assert(self@.den * turned.den > i64::MAX) by (nonlinear_arith)
                    requires
                        self@.den >= 1,
                        turned.den > i64::MAX,
                ;
            }
            return false;
        }
        match other.reciprocal() {
            Ok(turned) => self.can_multiply(&turned),
            Err(_) => false,
        }
    }
}

} // verus!
