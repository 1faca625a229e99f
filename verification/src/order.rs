//! Equality and order of fractions, by value.
//!
//! Both go by cross-multiplication in 128 bits, which cannot overflow, so
//! they hold for every pair of fractions and never look at whether a pair
//! is reduced.

use vstd::prelude::*;
use core::cmp::Ordering;
use crate::fraction::{wide_product, Fraction};

verus! {

impl Fraction {
    /// How the value of `self` stands to the value of `other`.
    pub fn cmp(&self, other: &Fraction) -> (o: Ordering)
        ensures
            o == Ordering::Less <==> self@.less_than(other@),
            o == Ordering::Equal <==> self@.same_value(other@),
            o == Ordering::Greater <==> other@.less_than(self@),
    {
        let left: i128 = wide_product(self.numerator(), other.denominator());
        let right: i128 = wide_product(other.numerator(), self.denominator());
        if left < right {
            Ordering::Less
        } else if left == right {
            Ordering::Equal
        } else {
            Ordering::Greater
        }
    }
}

impl PartialEq for Fraction {
    fn eq(&self, other: &Fraction) -> (r: bool) {
        let left: i128 = wide_product(self.numerator(), other.denominator());
        let right: i128 = wide_product(other.numerator(), self.denominator());
        left == right
    }
}

impl vstd::std_specs::cmp::PartialEqSpecImpl for Fraction {
    open spec fn obeys_eq_spec() -> bool {
        true
    }

    open spec fn eq_spec(&self, other: &Fraction) -> bool {
        self@.same_value(other@)
    }
}

impl Eq for Fraction {

}

impl PartialOrd for Fraction {
    fn partial_cmp(&self, other: &Fraction) -> (r: Option<Ordering>) {
        Some(self.cmp(other))
    }
}

impl vstd::std_specs::cmp::PartialOrdSpecImpl for Fraction {
    open spec fn obeys_partial_cmp_spec() -> bool {
        true
    }

    open spec fn partial_cmp_spec(&self, other: &Fraction) -> Option<Ordering> {
        if self@.less_than(other@) {
            Some(Ordering::Less)
        } else if self@.same_value(other@) {
            Some(Ordering::Equal)
        } else {
            Some(Ordering::Greater)
        }
    }
}

} // verus!
