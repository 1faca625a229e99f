use fractions::{Fraction, FractionError};
use std::ops::Add;

#[test]
fn test_new() {
    assert!(Fraction::new(1, 2).is_ok());
    assert_eq!(Fraction::new(1, 0), Err(FractionError::ZeroDenominator));
}

#[test]
fn test_negative_denominator() {
    let frac = Fraction::new(1, -2).unwrap();
    assert_eq!(frac.numerator(), -1);
    assert_eq!(frac.denominator(), 2);
}

#[test]
fn test_reduce() {
    let frac = Fraction::new(12, 8).unwrap();
    let reduced = frac.reduce();
    assert_eq!(reduced.numerator(), 3);
    assert_eq!(reduced.denominator(), 2);
}

#[test]
fn test_display() {
    assert_eq!(Fraction::new(3, 4).unwrap().to_string(), "3/4");
    assert_eq!(Fraction::new(4, 2).unwrap().to_string(), "2");
    assert_eq!(Fraction::new(-3, 4).unwrap().to_string(), "-3/4");
}

#[test]
fn test_arithmetic() {
    let half = Fraction::new(1, 2).unwrap();
    let third = Fraction::new(1, 3).unwrap();

    let sum = half.add(third).reduce();
    assert_eq!(sum.numerator(), 5);
    assert_eq!(sum.denominator(), 6);

    let diff = half.subtract(&third).reduce();
    assert_eq!(diff.numerator(), 1);
    assert_eq!(diff.denominator(), 6);

    let product = half.multiply(&third).reduce();
    assert_eq!(product.numerator(), 1);
    assert_eq!(product.denominator(), 6);

    let quotient = half.divide(&third).unwrap().reduce();
    assert_eq!(quotient.numerator(), 3);
    assert_eq!(quotient.denominator(), 2);
}

#[test]
fn test_operators() {
    let half = Fraction::new(1, 2).unwrap();
    let third = Fraction::new(1, 3).unwrap();

    let sum = (half + third).reduce();
    assert_eq!(sum.numerator(), 5);
    assert_eq!(sum.denominator(), 6);

    let diff = (half - third).reduce();
    assert_eq!(diff.numerator(), 1);
    assert_eq!(diff.denominator(), 6);

    let product = (half * third).reduce();
    assert_eq!(product.numerator(), 1);
    assert_eq!(product.denominator(), 6);

    let quotient = (half / third).unwrap().reduce();
    assert_eq!(quotient.numerator(), 3);
    assert_eq!(quotient.denominator(), 2);

    let neg = -half;
    assert_eq!(neg.numerator(), -1);
    assert_eq!(neg.denominator(), 2);
}

#[test]
fn test_comparison() {
    let half = Fraction::new(1, 2).unwrap();
    let third = Fraction::new(1, 3).unwrap();
    let also_half = Fraction::new(2, 4).unwrap();

    assert!(half > third);
    assert!(third < half);
    assert_eq!(half, also_half);
    assert_ne!(half, third);
}

#[test]
fn test_utility_methods() {
    let half = Fraction::new(1, 2).unwrap();
    let neg_half = Fraction::new(-1, 2).unwrap();
    let zero = Fraction::from_integer(0);
    let five = Fraction::from_integer(5);

    assert_eq!(half.numerator(), 1);
    assert_eq!(half.denominator(), 2);
    assert_eq!(half.numerator() as f64 / half.denominator() as f64, 0.5);

    assert!(half.is_positive());
    assert!(!half.is_negative());
    assert!(!half.is_zero());

    assert!(neg_half.is_negative());
    assert!(!neg_half.is_positive());

    assert!(zero.is_zero());
    assert!(!zero.is_positive());
    assert!(!zero.is_negative());

    assert_eq!(neg_half.abs(), half);
    assert_eq!(five.to_string(), "5");
}
