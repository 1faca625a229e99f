use fractions::divisor::gcd;
use fractions::text::{push_decimal, push_signed_decimal};
use fractions::{Fraction, FractionError};
use std::cmp::Ordering;

fn frac(n: i64, d: i64) -> Fraction {
    Fraction::new(n, d).unwrap()
}

fn parts(f: Fraction) -> (i64, i64) {
    (f.numerator(), f.denominator())
}

#[test]
fn zero_denominator_is_refused_for_any_numerator() {
    for n in [i64::MIN, -7, -1, 0, 1, 42, i64::MAX] {
        assert_eq!(Fraction::new(n, 0), Err(FractionError::ZeroDenominator));
    }
}

#[test]
fn new_keeps_the_pair_unreduced() {
    assert_eq!(parts(frac(12, 8)), (12, 8));
    assert_eq!(parts(frac(0, 5)), (0, 5));
    assert_eq!(parts(frac(i64::MIN, 3)), (i64::MIN, 3));
    assert_eq!(parts(frac(i64::MAX, i64::MAX)), (i64::MAX, i64::MAX));
}

#[test]
fn new_moves_the_sign_to_the_numerator() {
    assert_eq!(parts(frac(3, -4)), (-3, 4));
    assert_eq!(parts(frac(-3, -4)), (3, 4));
    assert_eq!(parts(frac(-3, 4)), (-3, 4));
    assert_eq!(parts(frac(0, -9)), (0, 9));
    assert_eq!(parts(frac(i64::MAX, -i64::MAX)), (-i64::MAX, i64::MAX));
    for (n, d) in [(5, 7), (-5, 7), (5, -7), (-5, -7), (0, -1), (1, i64::MAX)] {
        let f = frac(n, d);
        assert!(f.denominator() > 0);
        assert_eq!(f.is_negative(), (n < 0) != (d < 0) && n != 0);
        assert_eq!(f.is_zero(), n == 0);
    }
}

#[test]
fn from_integer_has_denominator_one() {
    assert_eq!(parts(Fraction::from_integer(7)), (7, 1));
    assert_eq!(parts(Fraction::from_integer(-7)), (-7, 1));
    assert_eq!(parts(Fraction::from_integer(i64::MIN)), (i64::MIN, 1));
}

#[test]
fn gcd_values() {
    assert_eq!(gcd(12, 8), 4);
    assert_eq!(gcd(8, 12), 4);
    assert_eq!(gcd(17, 5), 1);
    assert_eq!(gcd(0, 9), 9);
    assert_eq!(gcd(9, 0), 9);
    assert_eq!(gcd(0, 0), 0);
    assert_eq!(gcd(1 << 63, 6), 2);
    assert_eq!(gcd(u64::MAX, u64::MAX), u64::MAX);
    assert_eq!(gcd(270, 192), 6);
}

#[test]
fn reduce_values() {
    assert_eq!(parts(frac(12, 8).reduce()), (3, 2));
    assert_eq!(parts(frac(-12, 8).reduce()), (-3, 2));
    assert_eq!(parts(frac(0, 5).reduce()), (0, 1));
    assert_eq!(parts(frac(7, 7).reduce()), (1, 1));
    assert_eq!(parts(frac(3, 4).reduce()), (3, 4));
    assert_eq!(parts(frac(i64::MIN, 2).reduce()), (i64::MIN / 2, 1));
    assert_eq!(parts(frac(i64::MIN, 1).reduce()), (i64::MIN, 1));
    assert_eq!(parts(frac(i64::MIN, 3).reduce()), (i64::MIN, 3));
    assert_eq!(parts(frac(i64::MAX, i64::MAX).reduce()), (1, 1));
}

#[test]
fn reduce_twice_is_reduce_once() {
    for (n, d) in [(12, 8), (-12, 8), (0, 5), (100, 10), (7, 3), (i64::MIN, 4), (270, 192)] {
        let once = frac(n, d).reduce();
        let twice = once.reduce();
        assert_eq!(parts(twice), parts(once));
    }
}

#[test]
fn equality_ignores_reduction() {
    assert_eq!(frac(1, 2), frac(2, 4));
    assert_eq!(frac(2, 4), frac(-3, -6));
    assert_eq!(frac(1, 2), frac(-3, -6));
    assert_eq!(frac(12, 8), frac(12, 8).reduce());
    assert_eq!(frac(0, 3), frac(0, 7));
    assert_ne!(frac(1, 2), frac(-1, 2));
}

#[test]
fn equality_and_order_of_large_values() {
    let a = frac(i64::MAX, i64::MAX - 1);
    let b = frac(i64::MAX - 1, i64::MAX - 2);
    assert_ne!(a, b);
    assert!(a < b);
    assert!(b > a);
    assert!(frac(i64::MIN, 1) < frac(i64::MIN + 1, 1));
    assert!(frac(i64::MIN, i64::MAX) < frac(i64::MAX, i64::MAX));
    assert_eq!(frac(i64::MIN, 2), frac(i64::MIN / 2, 1));
}

#[test]
fn order_is_strict_and_total() {
    let all = [frac(-3, 2), frac(-1, 2), frac(0, 4), frac(1, 3), frac(2, 6), frac(1, 2), frac(5, 4)];
    for a in all {
        assert!(!(a < a));
        assert_eq!(a.cmp(&a), Ordering::Equal);
        for b in all {
            let outcomes = [a < b, a == b, b < a];
            assert_eq!(outcomes.iter().filter(|x| **x).count(), 1);
            assert_eq!(a.cmp(&b) == Ordering::Less, a < b);
            assert_eq!(a.cmp(&b) == Ordering::Greater, a > b);
            assert_eq!(a.partial_cmp(&b), Some(a.cmp(&b)));
            assert_eq!(a <= b, a < b || a == b);
            for c in all {
                if a < b && b < c {
                    assert!(a < c);
                }
            }
        }
    }
    assert!(frac(1, 3) < frac(1, 2));
    assert!(frac(1, 2) > frac(1, 3));
    assert_eq!(frac(1, 3).cmp(&frac(1, 2)), Ordering::Less);
    assert_eq!(frac(1, 2).cmp(&frac(1, 3)), Ordering::Greater);
    assert_eq!(frac(1, 2).cmp(&frac(2, 4)), Ordering::Equal);
}

#[test]
fn arithmetic_results_are_not_reduced() {
    let half = frac(1, 2);
    let quarter = frac(1, 4);
    assert_eq!(parts(half.add(&quarter)), (6, 8));
    assert_eq!(parts(half.subtract(&quarter)), (2, 8));
    assert_eq!(parts(half.multiply(&frac(2, 3))), (2, 6));
    assert_eq!(parts(half.divide(&frac(2, 4)).unwrap()), (4, 4));
    assert_eq!(parts(quarter.subtract(&half)), (-2, 8));
    assert_eq!(parts(frac(-1, 2).multiply(&frac(-1, 2))), (1, 4));
}

#[test]
fn arithmetic_near_the_limits() {
    let a = frac(i64::MAX, 1);
    let b = frac(i64::MIN, 1);
    assert_eq!(parts(a.add(&b)), (-1, 1));
    assert_eq!(parts(b.subtract(&Fraction::from_integer(-1))), (i64::MIN + 1, 1));
    assert_eq!(parts(frac(1 << 31, 1 << 31).multiply(&frac(1 << 31, 1 << 31))), (1 << 62, 1 << 62));
    assert_eq!(parts(frac(3_037_000_499, 1).multiply(&frac(3_037_000_499, 1))), (9_223_372_030_926_249_001, 1));
}

#[test]
fn reciprocal_values() {
    assert_eq!(parts(frac(3, 4).reciprocal().unwrap()), (4, 3));
    assert_eq!(parts(frac(-3, 4).reciprocal().unwrap()), (-4, 3));
    assert_eq!(parts(frac(6, 4).reciprocal().unwrap()), (4, 6));
    assert_eq!(parts(frac(-i64::MAX, 2).reciprocal().unwrap()), (-2, i64::MAX));
    assert_eq!(frac(0, 1).reciprocal(), Err(FractionError::DivisionByZero));
    assert_eq!(frac(0, 9).reciprocal(), Err(FractionError::DivisionByZero));
}

#[test]
fn division_by_zero_is_refused() {
    let zero = frac(0, 1);
    for x in [frac(1, 2), frac(-5, 3), frac(0, 1), frac(i64::MAX, 1), frac(i64::MIN, 7)] {
        assert_eq!(x.divide(&zero), Err(FractionError::DivisionByZero));
        assert_eq!(x / zero, Err(FractionError::DivisionByZero));
        assert_eq!(x.divide(&frac(0, 12)), Err(FractionError::DivisionByZero));
    }
}

#[test]
fn division_keeps_the_denominator_positive() {
    let q = frac(1, 2).divide(&frac(-1, 3)).unwrap();
    assert_eq!(parts(q), (-3, 2));
    let by_operator = (frac(1, 2) / frac(-1, 3)).unwrap();
    assert_eq!(parts(by_operator), (-3, 2));
    assert_eq!(parts((frac(-1, 2) / frac(-2, 3)).unwrap()), (3, 4));
}

#[test]
fn operators_agree_with_named_methods() {
    let a = frac(-7, 12);
    let b = frac(5, 18);
    assert_eq!(parts(a + b), parts(a.add(&b)));
    assert_eq!(parts(a - b), parts(a.subtract(&b)));
    assert_eq!(parts(a * b), parts(a.multiply(&b)));
    assert_eq!(parts((a / b).unwrap()), parts(a.divide(&b).unwrap()));
    assert_eq!(parts(-a), parts(a.negate()));
    assert_eq!(parts(a + b), (-7 * 18 + 5 * 12, 12 * 18));
}

#[test]
fn negation_twice_gives_the_fraction_back() {
    for x in [frac(1, 2), frac(-1, 2), frac(0, 3), frac(i64::MAX, 5), frac(-i64::MAX, 5)] {
        assert_eq!(parts(-(-x)), parts(x));
        assert_eq!(-(-x), x);
        assert_eq!(parts(x.negate().negate()), parts(x));
    }
    assert_eq!(parts(frac(3, 4).negate()), (-3, 4));
}

#[test]
fn absolute_value() {
    for x in [frac(1, 2), frac(-1, 2), frac(0, 3), frac(-6, 4), frac(-i64::MAX, 1)] {
        assert!(!x.abs().is_negative());
        assert_eq!(x.abs().denominator(), x.denominator());
        if !x.is_negative() {
            assert_eq!(parts(x.abs()), parts(x));
            assert_eq!(x.abs(), x);
        }
    }
    assert_eq!(parts(frac(-6, 4).abs()), (6, 4));
    assert_eq!(parts(frac(-i64::MAX, 1).abs()), (i64::MAX, 1));
}

#[test]
fn sign_predicates() {
    assert!(frac(1, 9).is_positive());
    assert!(frac(-1, -9).is_positive());
    assert!(frac(1, -9).is_negative());
    assert!(frac(0, -9).is_zero());
    assert!(!frac(0, -9).is_negative());
    assert!(!frac(0, -9).is_positive());
}

#[test]
fn text_of_fractions() {
    assert_eq!(frac(4, 2).to_string(), "2");
    assert_eq!(frac(3, 4).to_string(), "3/4");
    assert_eq!(frac(-3, 4).to_string(), "-3/4");
    assert_eq!(frac(3, -4).to_string(), "-3/4");
    assert_eq!(frac(0, 7).to_string(), "0");
    assert_eq!(frac(-10, 5).to_string(), "-2");
    assert_eq!(frac(100, 1000).to_string(), "1/10");
    assert_eq!(frac(i64::MIN, 1).to_string(), "-9223372036854775808");
    assert_eq!(frac(i64::MIN, 3).to_string(), "-9223372036854775808/3");
    assert_eq!(frac(1, i64::MAX).to_string(), "1/9223372036854775807");
    assert_eq!(frac(i64::MIN, i64::MAX).to_string(), "-9223372036854775808/9223372036854775807");
}

#[test]
fn decimal_numerals() {
    let mut s = String::from("x");
    push_decimal(&mut s, 0);
    assert_eq!(s, "x0");
    push_decimal(&mut s, 1203);
    assert_eq!(s, "x01203");
    push_decimal(&mut s, u64::MAX);
    assert_eq!(s, "x0120318446744073709551615");
    let mut t = String::new();
    push_signed_decimal(&mut t, -45);
    push_signed_decimal(&mut t, 45);
    push_signed_decimal(&mut t, 0);
    push_signed_decimal(&mut t, i64::MIN);
    assert_eq!(t, "-45450-9223372036854775808");
    for n in [0u64, 9, 10, 99, 100, 101, 1_000_000, 9_876_543_210] {
        let mut u = String::new();
        push_decimal(&mut u, n);
        assert_eq!(u, format!("{}", n));
    }
}

#[test]
fn three_quarters_plus_one_half() {
    let first = frac(3, 4);
    let second = frac(1, 2);
    let result = first + second;
    assert_eq!(result.to_string(), "5/4");
    assert_eq!(parts(result), (10, 8));
    let approximation = result.numerator() as f64 / result.denominator() as f64;
    assert_eq!(format!("{:.4}", approximation), "1.2500");
}

#[test]
fn errors_are_plain_values() {
    let e = FractionError::ZeroDenominator;
    let copy = e;
    assert_eq!(e, copy);
    assert_ne!(FractionError::ZeroDenominator, FractionError::DivisionByZero);
    assert_eq!(format!("{:?}", FractionError::DivisionByZero), "DivisionByZero");
}

#[test]
fn same_value_gives_same_lowest_terms_and_text() {
    let groups = [
        vec![frac(1, 2), frac(2, 4), frac(-3, -6), frac(50, 100)],
        vec![frac(-3, 4), frac(3, -4), frac(-75, 100)],
        vec![frac(0, 1), frac(0, -5), frac(0, i64::MAX)],
        vec![frac(4, 2), frac(2, 1), frac(-6, -3)],
    ];
    for group in groups.iter() {
        for a in group.iter() {
            for b in group.iter() {
                assert_eq!(a, b);
                assert_eq!(parts(a.reduce()), parts(b.reduce()));
                assert_eq!(a.to_string(), b.to_string());
            }
        }
    }
    assert_eq!(parts(frac(50, 100).reduce()), (1, 2));
    assert_eq!(frac(-75, 100).to_string(), "-3/4");
}
