//! The arithmetic operators of [`Rational`], among rationals and with
//! integers.
use vstd::prelude::*;
use vstd::std_specs::ops::AddSpecImpl;
use vstd::std_specs::ops::DivSpecImpl;
use vstd::std_specs::ops::MulSpecImpl;
use vstd::std_specs::ops::NegSpecImpl;
use vstd::std_specs::ops::SubSpecImpl;
use std::ops::Add;
use std::ops::Div;
use std::ops::Mul;
use std::ops::Neg;
use std::ops::Sub;
use super::Int;
use super::Rational;
use super::fraction;
use super::fraction::Fraction;
use super::fraction::whole;
use super::rational::fits;
use super::rational::in_range;

verus! {

impl Neg for Rational {
    type Output = Rational;

    fn neg(self) -> (r: Rational)
        ensures
            r@ == self@.negated(),
            self.is_simplified() ==> r.is_simplified(),
    {
        super::Field::neg(self)
    }
}

impl NegSpecImpl for Rational {
    open spec fn obeys_neg_spec() -> bool {
        true
    }

    open spec fn neg_req(self) -> bool {
        <Rational as super::Field>::can_neg(self@)
    }

    open spec fn neg_spec(self) -> Rational {
        Rational::of(self@.negated())
    }
}

impl Add for Rational {
    type Output = Rational;

    fn add(self, rhs: Rational) -> (r: Rational)
        ensures
            r@ == self@.plus(rhs@),
            r.is_simplified(),
    {
        super::Field::add(self, rhs)
    }
}

impl AddSpecImpl for Rational {
    open spec fn obeys_add_spec() -> bool {
        true
    }

    open spec fn add_req(self, rhs: Rational) -> bool {
        <Rational as super::Field>::can_add(self@, rhs@)
    }

    open spec fn add_spec(self, rhs: Rational) -> Rational {
        Rational::of(self@.plus(rhs@))
    }
}

impl Sub for Rational {
    type Output = Rational;

    fn sub(self, rhs: Rational) -> (r: Rational)
        ensures
            r@ == self@.minus(rhs@),
            r.is_simplified(),
    {
        super::Field::sub(self, rhs)
    }
}

impl SubSpecImpl for Rational {
    open spec fn obeys_sub_spec() -> bool {
        true
    }

    open spec fn sub_req(self, rhs: Rational) -> bool {
        <Rational as super::Field>::can_sub(self@, rhs@)
    }

    open spec fn sub_spec(self, rhs: Rational) -> Rational {
        Rational::of(self@.minus(rhs@))
    }
}

impl Mul for Rational {
    type Output = Rational;

    fn mul(self, rhs: Rational) -> (r: Rational)
        ensures
            r@ == self@.times(rhs@),
            r.is_simplified(),
    {
        super::Field::mul(self, rhs)
    }
}

impl MulSpecImpl for Rational {
    open spec fn obeys_mul_spec() -> bool {
        true
    }

    open spec fn mul_req(self, rhs: Rational) -> bool {
        <Rational as super::Field>::can_mul(self@, rhs@)
    }

    open spec fn mul_spec(self, rhs: Rational) -> Rational {
        Rational::of(self@.times(rhs@))
    }
}

impl Div for Rational {
    type Output = Rational;

    fn div(self, rhs: Rational) -> (r: Rational)
        ensures
            r@ == self@.over(rhs@),
            r.is_simplified(),
    {
        super::Field::div(self, rhs)
    }
}

impl DivSpecImpl for Rational {
    open spec fn obeys_div_spec() -> bool {
        true
    }

    open spec fn div_req(self, rhs: Rational) -> bool {
        <Rational as super::Field>::can_div(self@, rhs@)
    }

    open spec fn div_spec(self, rhs: Rational) -> Rational {
        Rational::of(self@.over(rhs@))
    }
}

impl Add<Int> for Rational {
    type Output = Rational;

    /// Adds the integer `rhs`: the numerator grows by `rhs * denom`.
    fn add(self, rhs: Int) -> (r: Rational)
        ensures
            self.is_simplified() ==> r.is_simplified() && r@ == self@.plus(whole(rhs as int)),
    {
        proof {
            if self.is_simplified() {
                fraction::lemma_shifted_is_simplified(self@, rhs as int);
                fraction::lemma_plus_whole(self@, rhs as int);
            }
        }
        let mut out = self;
        out.num = self.num + (rhs * self.denom);
        out
    }
}

impl AddSpecImpl<Int> for Rational {
    open spec fn obeys_add_spec() -> bool {
        true
    }

    open spec fn add_req(self, rhs: Int) -> bool {
        in_range(rhs * self.denom) && in_range(self.num + rhs * self.denom)
    }

    open spec fn add_spec(self, rhs: Int) -> Rational {
        Rational { num: (self.num + rhs * self.denom) as Int, denom: self.denom }
    }
}

impl Sub<Int> for Rational {
    type Output = Rational;

    /// Subtracts the integer `rhs`: the numerator shrinks by `rhs * denom`.
    fn sub(self, rhs: Int) -> (r: Rational)
        ensures
            self.is_simplified() ==> r.is_simplified() && r@ == self@.minus(whole(rhs as int)),
    {
        proof {
            if self.is_simplified() {
                fraction::lemma_shifted_is_simplified(self@, -(rhs as int));
                fraction::lemma_plus_whole(self@, rhs as int);
                assert((-(rhs as int)) * (self.denom as int) == -(rhs * self.denom))
                    by (nonlinear_arith);
            }
        }
        let mut out = self;
        out.num = self.num - (rhs * self.denom);
        out
    }
}

impl SubSpecImpl<Int> for Rational {
    open spec fn obeys_sub_spec() -> bool {
        true
    }

    open spec fn sub_req(self, rhs: Int) -> bool {
        in_range(rhs * self.denom) && in_range(self.num - rhs * self.denom)
    }

    open spec fn sub_spec(self, rhs: Int) -> Rational {
        Rational { num: (self.num - rhs * self.denom) as Int, denom: self.denom }
    }
}

impl Mul<Int> for Rational {
    type Output = Rational;

    /// Multiplies by the integer `rhs` and simplifies.
    fn mul(self, rhs: Int) -> (r: Rational)
        ensures
            r.is_simplified(),
            r@ == self@.times(whole(rhs as int)),
    {
        let mut out = self;
        out.num = self.num * rhs;
        out.simplify();
        out
    }
}

impl MulSpecImpl<Int> for Rational {
    open spec fn obeys_mul_spec() -> bool {
        true
    }

    open spec fn mul_req(self, rhs: Int) -> bool {
        fits(self.num * rhs) && fits(self.denom as int)
    }

    open spec fn mul_spec(self, rhs: Int) -> Rational {
        Rational::of((Fraction { num: self.num * rhs, denom: self.denom as int }).simplified())
    }
}

impl Div<Int> for Rational {
    type Output = Rational;

    /// Divides by the integer `rhs` and simplifies. Division by zero gives
    /// 0/1.
    fn div(self, rhs: Int) -> (r: Rational)
        ensures
            r.is_simplified(),
            r@ == self@.over(whole(rhs as int)),
    {
        let mut out = self;
        out.denom = self.denom * rhs;
        out.simplify();
        out
    }
}

impl DivSpecImpl<Int> for Rational {
    open spec fn obeys_div_spec() -> bool {
        true
    }

    open spec fn div_req(self, rhs: Int) -> bool {
        fits(self.num as int) && fits(self.denom * rhs)
    }

    open spec fn div_spec(self, rhs: Int) -> Rational {
        Rational::of((Fraction { num: self.num as int, denom: self.denom * rhs }).simplified())
    }
}

} // verus!
