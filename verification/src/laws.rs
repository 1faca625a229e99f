//! What holds of every fraction: equality by value is an equivalence,
//! order by value is a strict total order, and reduction, negation and
//! absolute value behave as their names promise.
//!
//! Everything is stated over [`Ratio`], the view of a fraction, in which the
//! contracts of the executable functions are written.

use vstd::prelude::*;
use crate::ratio::{lemma_lowest_terms, lemma_reduced_is_fixed, lemma_reduced_is_unique, Ratio};
use crate::text::text_of;

verus! {

/// Every ratio has the same value as itself.
pub proof fn lemma_same_value_reflexive(a: Ratio)
    ensures
        a.same_value(a),
{
}

/// Having the same value does not depend on the side one looks from.
pub proof fn lemma_same_value_symmetric(a: Ratio, b: Ratio)
    ensures
        a.same_value(b) == b.same_value(a),
{
}

/// Two ratios that have the value of a third have the same value.
pub proof fn lemma_same_value_transitive(a: Ratio, b: Ratio, c: Ratio)
    requires
        a.wf(),
        b.wf(),
        c.wf(),
        a.same_value(b),
        b.same_value(c),
    ensures
        a.same_value(c),
{
    let left = a.num * c.den;
    let right = c.num * a.den;
    assert(left * b.den == right * b.den) by (nonlinear_arith)
        requires
            a.num * b.den == b.num * a.den,
            b.num * c.den == c.num * b.den,
            left == a.num * c.den,
            right == c.num * a.den,
    ;
    assert(left == right) by (nonlinear_arith)
        requires
            left * b.den == right * b.den,
            b.den > 0,
    ;
}

/// No ratio is less than itself.
pub proof fn lemma_less_than_irreflexive(a: Ratio)
    ensures
        !a.less_than(a),
{
}

/// Of two ratios at most one is less than the other.
pub proof fn lemma_less_than_asymmetric(a: Ratio, b: Ratio)
    ensures
        !(a.less_than(b) && b.less_than(a)),
{
}

/// What is less than something less than `c` is less than `c`.
pub proof fn lemma_less_than_transitive(a: Ratio, b: Ratio, c: Ratio)
    requires
        a.wf(),
        b.wf(),
        c.wf(),
        a.less_than(b),
        b.less_than(c),
    ensures
        a.less_than(c),
{
    let left = a.num * c.den;
    let right = c.num * a.den;
    assert(left * b.den < right * b.den) by (nonlinear_arith)
        requires
            a.num * b.den < b.num * a.den,
            b.num * c.den < c.num * b.den,
            left == a.num * c.den,
            right == c.num * a.den,
            a.den > 0,
            c.den > 0,
    ;
    assert(left < right) by (nonlinear_arith)
        requires
            left * b.den < right * b.den,
            b.den > 0,
    ;
}

/// Of any two ratios exactly one holds: the first is less, they have the
/// same value, or the second is less.
pub proof fn lemma_order_total(a: Ratio, b: Ratio)
    ensures
        a.less_than(b) || a.same_value(b) || b.less_than(a),
        !(a.less_than(b) && a.same_value(b)),
        !(b.less_than(a) && a.same_value(b)),
        !(a.less_than(b) && b.less_than(a)),
{
}

/// What is less than `c` stays so when replaced by a ratio of its value.
proof fn lemma_less_carries_over(a: Ratio, b: Ratio, c: Ratio)
    requires
        a.wf(),
        b.wf(),
        c.wf(),
        a.same_value(b),
        a.less_than(c),
    ensures
        b.less_than(c),
{
    if b.same_value(c) {
        lemma_same_value_transitive(a, b, c);
    }
    if c.less_than(b) {
        lemma_less_than_transitive(a, c, b);
    }
}

/// What `c` is less than stays so when replaced by a ratio of its value.
proof fn lemma_greater_carries_over(a: Ratio, b: Ratio, c: Ratio)
    requires
        a.wf(),
        b.wf(),
        c.wf(),
        a.same_value(b),
        c.less_than(a),
    ensures
        c.less_than(b),
{
    if c.same_value(b) {
        lemma_same_value_transitive(c, b, a);
    }
    if b.less_than(c) {
        lemma_less_than_transitive(b, c, a);
    }
}

/// Order goes by value: a ratio may be replaced by one of the same value
/// on either side of a comparison.
pub proof fn lemma_order_respects_value(a: Ratio, b: Ratio, c: Ratio)
    requires
        a.wf(),
        b.wf(),
        c.wf(),
        a.same_value(b),
    ensures
        a.less_than(c) == b.less_than(c),
        c.less_than(a) == c.less_than(b),
{
    if a.less_than(c) {
        lemma_less_carries_over(a, b, c);
    }
    if b.less_than(c) {
        lemma_less_carries_over(b, a, c);
    }
    if c.less_than(a) {
        lemma_greater_carries_over(a, b, c);
    }
    if c.less_than(b) {
        lemma_greater_carries_over(b, a, c);
    }
}

/// Reducing changes the pair, never the value.
pub proof fn lemma_reduce_keeps_value(a: Ratio)
    requires
        a.wf(),
    ensures
        a.lowest_terms().wf(),
        a.lowest_terms().same_value(a),
        a.lowest_terms().is_reduced(),
{
    lemma_lowest_terms(a);
}

/// Reducing twice gives what reducing once gives.
pub proof fn lemma_reduce_idempotent(a: Ratio)
    requires
        a.wf(),
    ensures
        a.lowest_terms().lowest_terms() == a.lowest_terms(),
{
    lemma_lowest_terms(a);
    lemma_reduced_is_fixed(a.lowest_terms());
}

/// Two ratios have the same value exactly when their lowest terms have.
pub proof fn lemma_same_value_after_reduce(a: Ratio, b: Ratio)
    requires
        a.wf(),
        b.wf(),
    ensures
        a.same_value(b) == a.lowest_terms().same_value(b.lowest_terms()),
{
    let la = a.lowest_terms();
    let lb = b.lowest_terms();
    lemma_lowest_terms(a);
    lemma_lowest_terms(b);
    if a.same_value(b) {
        lemma_same_value_transitive(la, a, b);
        lemma_same_value_transitive(la, b, lb);
    }
    if la.same_value(lb) {
        lemma_same_value_transitive(a, la, lb);
        lemma_same_value_transitive(a, lb, b);
    }
}

/// Ratios of the same value have the same lowest terms, part for part, and
/// so the same text.
pub proof fn lemma_same_value_same_lowest_terms(a: Ratio, b: Ratio)
    requires
        a.wf(),
        b.wf(),
        a.same_value(b),
    ensures
        a.lowest_terms() == b.lowest_terms(),
        text_of(a) == text_of(b),
{
    lemma_lowest_terms(a);
    lemma_lowest_terms(b);
    lemma_same_value_after_reduce(a, b);
    lemma_reduced_is_unique(a.lowest_terms(), b.lowest_terms());
}

/// Negating twice gives the ratio back, pair for pair.
pub proof fn lemma_negate_involution(a: Ratio)
    ensures
        a.negated().negated() == a,
{
}

/// An absolute value is never negative, and a ratio that is not negative
/// is its own absolute value.
pub proof fn lemma_magnitude(a: Ratio)
    ensures
        !(a.magnitude().num < 0),
        a.magnitude().den == a.den,
        a.num >= 0 ==> a.magnitude() == a,
        a.num < 0 ==> a.magnitude() == a.negated(),
{
}

/// Moving the sign to the numerator gives a positive denominator and
/// keeps the sign of the quotient.
pub proof fn lemma_normalized_sign(n: int, d: int)
    requires
        d != 0,
    ensures
        Ratio::normalized(n, d).wf(),
        Ratio::normalized(n, d).num < 0 <==> (n < 0 && d > 0) || (n > 0 && d < 0),
        Ratio::normalized(n, d).num > 0 <==> (n > 0 && d > 0) || (n < 0 && d < 0),
        Ratio::normalized(n, d).num * d == n * Ratio::normalized(n, d).den,
{
    assert((-n) * d == n * (-d)) by (nonlinear_arith);
}

/// Sums, differences and products of well-formed ratios are well formed,
/// and so is the inverse of one that is not 0.
pub proof fn lemma_results_well_formed(a: Ratio, b: Ratio)
    requires
        a.wf(),
        b.wf(),
    ensures
        a.plus(b).wf(),
        a.minus(b).wf(),
        a.times(b).wf(),
        a.negated().wf(),
        a.magnitude().wf(),
        b.num != 0 ==> b.inverse().wf() && a.over(b).wf(),
{
    assert(a.den * b.den > 0) by (nonlinear_arith)
        requires
            a.den > 0,
            b.den > 0,
    ;
    if b.num != 0 {
        assert(a.den * b.inverse().den > 0) by (nonlinear_arith)
            requires
                a.den > 0,
                b.inverse().den > 0,
        ;
    }
}

/// The order of the operands does not matter to a sum or a product.
pub proof fn lemma_plus_times_commutative(a: Ratio, b: Ratio)
    ensures
        a.plus(b) == b.plus(a),
        a.times(b) == b.times(a),
{
    assert(a.den * b.den == b.den * a.den) by (nonlinear_arith);
    assert(a.num * b.num == b.num * a.num) by (nonlinear_arith);
}

/// Subtracting is adding the negated ratio.
pub proof fn lemma_minus_is_plus_negated(a: Ratio, b: Ratio)
    ensures
        a.minus(b) == a.plus(b.negated()),
{
    assert(a.num * b.den - b.num * a.den == a.num * b.den + (-b.num) * a.den) by (nonlinear_arith);
}

/// A ratio and its negation add up to 0.
pub proof fn lemma_plus_negated_is_zero(a: Ratio)
    ensures
        a.plus(a.negated()).num == 0,
{
    assert(a.num * a.den + (-a.num) * a.den == 0) by (nonlinear_arith);
}

/// Dividing by a ratio undoes multiplying by it.
pub proof fn lemma_over_undoes_times(a: Ratio, b: Ratio)
    requires
        a.wf(),
        b.wf(),
        b.num != 0,
    ensures
        a.times(b).over(b).same_value(a),
{
    let turned = b.inverse();
    assert(turned.num * b.num == b.den * turned.den) by (nonlinear_arith)
        requires
            b.num < 0 ==> turned.num == -b.den && turned.den == -b.num,
            b.num >= 0 ==> turned.num == b.den && turned.den == b.num,
    ;
    assert((a.num * b.num * turned.num) * a.den == a.num * (a.den * b.den * turned.den))
        by (nonlinear_arith)
        requires
            turned.num * b.num == b.den * turned.den,
    ;
}

/// Four factors may be paired the other way round.
proof fn lemma_regroup(x: int, y: int, z: int, w: int)
    ensures
        (x * y) * (z * w) == (x * z) * (y * w),
        (x * y) * (z * w) == (x * w) * (y * z),
{
    assert((x * y) * (z * w) == (x * z) * (y * w)) by (nonlinear_arith);
    assert((x * y) * (z * w) == (x * w) * (y * z)) by (nonlinear_arith);
}

/// A factor spreads over a sum and over a difference.
proof fn lemma_spread(p: int, q: int, d: int)
    ensures
        (p + q) * d == p * d + q * d,
        (p - q) * d == p * d - q * d,
{
    assert((p + q) * d == p * d + q * d) by (nonlinear_arith);
    assert((p - q) * d == p * d - q * d) by (nonlinear_arith);
}

/// Arithmetic goes by value: replacing an operand by a ratio of the same
/// value gives a result of the same value.
pub proof fn lemma_arithmetic_respects_value(a: Ratio, b: Ratio, c: Ratio)
    requires
        a.wf(),
        b.wf(),
        c.wf(),
        a.same_value(b),
    ensures
        a.plus(c).same_value(b.plus(c)),
        a.minus(c).same_value(b.minus(c)),
        a.times(c).same_value(b.times(c)),
        a.negated().same_value(b.negated()),
{
    let square = c.den * c.den;
    let mixed = (c.num * c.den) * (a.den * b.den);
    lemma_regroup(a.num, c.den, b.den, c.den);
    lemma_regroup(c.num, a.den, c.den, b.den);
    lemma_regroup(b.num, c.den, a.den, c.den);
    lemma_regroup(c.num, b.den, c.den, a.den);
    assert(b.den * a.den == a.den * b.den && c.den * b.den == b.den * c.den) by (nonlinear_arith);
    lemma_spread(a.num * c.den, c.num * a.den, b.den * c.den);
    lemma_spread(b.num * c.den, c.num * b.den, a.den * c.den);
    assert((a.num * c.den) * (b.den * c.den) == (a.num * b.den) * square);
    assert((b.num * c.den) * (a.den * c.den) == (b.num * a.den) * square);
    assert((c.num * a.den) * (b.den * c.den) == mixed);
    assert((c.num * b.den) * (a.den * c.den) == mixed);
    assert((a.num * c.num) * (b.den * c.den) == (b.num * c.num) * (a.den * c.den))
        by (nonlinear_arith)
        requires
            a.num * b.den == b.num * a.den,
    ;
    assert((-a.num) * b.den == (-b.num) * a.den) by (nonlinear_arith)
        requires
            a.num * b.den == b.num * a.den,
    ;
}

} // verus!
