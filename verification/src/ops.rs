//! The operators `+`, `-`, `*`, `/` and unary `-` on fractions.
//!
//! Each is the named method of the same meaning and accepts what that
//! method accepts. `/` gives a `Result`, as `divide` does.

use vstd::prelude::*;
use vstd::std_specs::ops::{AddSpecImpl, DivSpecImpl, MulSpecImpl, NegSpecImpl, SubSpecImpl};
use crate::fraction::{Fraction, FractionError};

verus! {

impl core::ops::Add for Fraction {
    type Output = Fraction;

    fn add(self, rhs: Fraction) -> (r: Fraction)
        ensures
            r@ == self@.plus(rhs@),
    {
        let r = Fraction::add(&self, &rhs);
        proof {
            r.lemma_storing(self@.plus(rhs@));
        }
        r
    }
}

impl AddSpecImpl for Fraction {
    open spec fn obeys_add_spec() -> bool {
        true
    }

    open spec fn add_req(self, rhs: Fraction) -> bool {
        self@.plus(rhs@).fits()
    }

    open spec fn add_spec(self, rhs: Fraction) -> Fraction {
        Fraction::storing(self@.plus(rhs@))
    }
}

impl core::ops::Sub for Fraction {
    type Output = Fraction;

    fn sub(self, rhs: Fraction) -> (r: Fraction)
        ensures
            r@ == self@.minus(rhs@),
    {
        let r = Fraction::subtract(&self, &rhs);
        proof {
            r.lemma_storing(self@.minus(rhs@));
        }
        r
    }
}

impl SubSpecImpl for Fraction {
    open spec fn obeys_sub_spec() -> bool {
        true
    }

    open spec fn sub_req(self, rhs: Fraction) -> bool {
        self@.minus(rhs@).fits()
    }

    open spec fn sub_spec(self, rhs: Fraction) -> Fraction {
        Fraction::storing(self@.minus(rhs@))
    }
}

impl core::ops::Mul for Fraction {
    type Output = Fraction;

    fn mul(self, rhs: Fraction) -> (r: Fraction)
        ensures
            r@ == self@.times(rhs@),
    {
        let r = Fraction::multiply(&self, &rhs);
        proof {
            r.lemma_storing(self@.times(rhs@));
        }
        r
    }
}

impl MulSpecImpl for Fraction {
    open spec fn obeys_mul_spec() -> bool {
        true
    }

    open spec fn mul_req(self, rhs: Fraction) -> bool {
        self@.times(rhs@).fits()
    }

    open spec fn mul_spec(self, rhs: Fraction) -> Fraction {
        Fraction::storing(self@.times(rhs@))
    }
}

impl core::ops::Div for Fraction {
    type Output = Result<Fraction, FractionError>;

    fn div(self, rhs: Fraction) -> (r: Result<Fraction, FractionError>)
        ensures
            rhs@.num == 0 ==> r == Err::<Fraction, FractionError>(FractionError::DivisionByZero),
            rhs@.num != 0 ==> r.is_ok() && r.unwrap()@ == self@.over(rhs@),
    {
        let r = Fraction::divide(&self, &rhs);
        proof {
            if rhs@.num != 0 {
                r.unwrap().lemma_storing(self@.over(rhs@));
            }
        }
        r
    }
}

impl DivSpecImpl for Fraction {
    open spec fn obeys_div_spec() -> bool {
        true
    }

    open spec fn div_req(self, rhs: Fraction) -> bool {
        rhs@.num != 0 ==> self@.over(rhs@).fits()
    }

    open spec fn div_spec(self, rhs: Fraction) -> Result<Fraction, FractionError> {
        if rhs@.num == 0 {
            Err(FractionError::DivisionByZero)
        } else {
            Ok(Fraction::storing(self@.over(rhs@)))
        }
    }
}

impl core::ops::Neg for Fraction {
    type Output = Fraction;

    fn neg(self) -> (r: Fraction)
        ensures
            r@ == self@.negated(),
    {
        let r = Fraction::negate(&self);
        proof {
            r.lemma_storing(self@.negated());
        }
        r
    }
}

impl NegSpecImpl for Fraction {
    open spec fn obeys_neg_spec() -> bool {
        true
    }

    open spec fn neg_req(self) -> bool {
        self@.negated().fits()
    }

    open spec fn neg_spec(self) -> Fraction {
        Fraction::storing(self@.negated())
    }
}

} // verus!
