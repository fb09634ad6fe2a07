//! The trivial vector space.
use vstd::prelude::*;
use vstd::std_specs::ops::AddSpecImpl;
use vstd::std_specs::ops::DivSpecImpl;
use vstd::std_specs::ops::MulSpecImpl;
use vstd::std_specs::ops::NegSpecImpl;
use vstd::std_specs::ops::SubSpecImpl;
use std::ops::Add;
use std::ops::Div;
use std::ops::Mul;
use std::ops::Neg;
use std::ops::Sub;
use crate::field::Field;
use super::VectorSpace;

verus! {

/// The zero vector space, also known as the trivial vector space: its only
/// vector is `Zero()`, and every operation returns it.
#[derive(Clone, Copy, Debug, PartialEq)]
pub struct Zero();

impl Zero {
    /// Adding the zero vector changes nothing.
    pub fn add_assign(&mut self, rhs: Zero)
        ensures
            *final(self) == *old(self),
    {
    }

    /// Adding the zero vector changes nothing.
    pub fn add_assign_ref(&mut self, rhs: &Zero)
        ensures
            *final(self) == *old(self),
    {
    }

    /// Subtracting the zero vector changes nothing.
    pub fn sub_assign(&mut self, rhs: Zero)
        ensures
            *final(self) == *old(self),
    {
    }

    /// Subtracting the zero vector changes nothing.
    pub fn sub_assign_ref(&mut self, rhs: &Zero)
        ensures
            *final(self) == *old(self),
    {
    }

    /// Scaling the zero vector changes nothing.
    pub fn mul_assign<F: Field>(&mut self, scale: F)
        ensures
            *final(self) == *old(self),
    {
    }

    /// Dividing the zero vector changes nothing, whatever the divisor.
    pub fn div_assign<F: Field>(&mut self, scale: F)
        ensures
            *final(self) == *old(self),
    {
    }
}

impl Neg for Zero {
    type Output = Zero;

    fn neg(self) -> (r: Zero) {
        self
    }
}

impl NegSpecImpl for Zero {
    open spec fn obeys_neg_spec() -> bool {
        true
    }

    open spec fn neg_req(self) -> bool {
        true
    }

    open spec fn neg_spec(self) -> Zero {
        self
    }
}

impl Add<Zero> for Zero {
    type Output = Zero;

    fn add(self, rhs: Zero) -> (r: Zero) {
        self
    }
}

impl AddSpecImpl<Zero> for Zero {
    open spec fn obeys_add_spec() -> bool {
        true
    }

    open spec fn add_req(self, rhs: Zero) -> bool {
        true
    }

    open spec fn add_spec(self, rhs: Zero) -> Zero {
        self
    }
}

impl<'a> Add<&'a Zero> for Zero {
    type Output = Zero;

    fn add(self, rhs: &'a Zero) -> (r: Zero) {
        self
    }
}

impl<'a> AddSpecImpl<&'a Zero> for Zero {
    open spec fn obeys_add_spec() -> bool {
        true
    }

    open spec fn add_req(self, rhs: &'a Zero) -> bool {
        true
    }

    open spec fn add_spec(self, rhs: &'a Zero) -> Zero {
        self
    }
}

impl Sub<Zero> for Zero {
    type Output = Zero;

    fn sub(self, rhs: Zero) -> (r: Zero) {
        self
    }
}

impl SubSpecImpl<Zero> for Zero {
    open spec fn obeys_sub_spec() -> bool {
        true
    }

    open spec fn sub_req(self, rhs: Zero) -> bool {
        true
    }

    open spec fn sub_spec(self, rhs: Zero) -> Zero {
        self
    }
}

impl<'a> Sub<&'a Zero> for Zero {
    type Output = Zero;

    fn sub(self, rhs: &'a Zero) -> (r: Zero) {
        self
    }
}

impl<'a> SubSpecImpl<&'a Zero> for Zero {
    open spec fn obeys_sub_spec() -> bool {
        true
    }

    open spec fn sub_req(self, rhs: &'a Zero) -> bool {
        true
    }

    open spec fn sub_spec(self, rhs: &'a Zero) -> Zero {
        self
    }
}

impl<F: Field> Mul<F> for Zero {
    type Output = Zero;

    fn mul(self, rhs: F) -> (r: Zero) {
        self
    }
}

impl<F: Field> MulSpecImpl<F> for Zero {
    open spec fn obeys_mul_spec() -> bool {
        true
    }

    open spec fn mul_req(self, rhs: F) -> bool {
        true
    }

    open spec fn mul_spec(self, rhs: F) -> Zero {
        self
    }
}

impl<F: Field> Div<F> for Zero {
    type Output = Zero;

    fn div(self, rhs: F) -> (r: Zero) {
        self
    }
}

impl<F: Field> DivSpecImpl<F> for Zero {
    open spec fn obeys_div_spec() -> bool {
        true
    }

    open spec fn div_req(self, rhs: F) -> bool {
        true
    }

    open spec fn div_spec(self, rhs: F) -> Zero {
        self
    }
}

impl<F: Field> VectorSpace<F> for Zero {
    /// The only vector is the zero vector.
    open spec fn is_zero(&self) -> bool {
        true
    }

    fn zero() -> (r: Zero) {
        Zero()
    }
}

} // verus!
