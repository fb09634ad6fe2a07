//! The field of integers modulo two.
use vstd::prelude::*;
use vstd::std_specs::cmp::PartialEqSpecImpl;
use vstd::std_specs::convert::FromSpecImpl;
use vstd::std_specs::ops::AddSpecImpl;
use vstd::std_specs::ops::DivSpecImpl;
use vstd::std_specs::ops::MulSpecImpl;
use vstd::std_specs::ops::NegSpecImpl;
use vstd::std_specs::ops::SubSpecImpl;
use vstd::string::StringExecFns;
use std::ops::Add;
use std::ops::Div;
use std::ops::Mul;
use std::ops::Neg;
use std::ops::Sub;
use super::ExactField;
use super::Field;
use super::Int;

verus! {

/// An integer modulo two.
#[derive(Clone, Copy, Debug)]
pub enum IntMod2 {
    Zero,
    One,
}

impl IntMod2 {
    /// The residue of the integer `i` modulo two.
    pub open spec fn residue(i: int) -> IntMod2 {
        if i % 2 == 0 {
            IntMod2::Zero
        } else {
            IntMod2::One
        }
    }

    /// The integer 0 or 1 that represents this residue.
    pub open spec fn as_int(self) -> int {
        match self {
            IntMod2::Zero => 0,
            IntMod2::One => 1,
        }
    }

    /// The sum of two residues: zero exactly when they are equal.
    pub open spec fn plus(self, rhs: IntMod2) -> IntMod2 {
        if self == rhs {
            IntMod2::Zero
        } else {
            IntMod2::One
        }
    }

    /// The product of two residues: one exactly when both are one.
    pub open spec fn times(self, rhs: IntMod2) -> IntMod2 {
        if self == IntMod2::One && rhs == IntMod2::One {
            IntMod2::One
        } else {
            IntMod2::Zero
        }
    }

    /// Returns the integer 0 or 1 that represents this residue.
    pub fn to_int(self) -> (r: Int)
        ensures
            r == self.as_int(),
    {
        match self {
            IntMod2::Zero => 0,
            IntMod2::One => 1,
        }
    }

    /// Replaces `self` by `self + rhs`, with `rhs` taken modulo two.
    pub fn add_assign_int(&mut self, rhs: Int)
        ensures
            *final(self) == old(self).plus(IntMod2::residue(rhs as int)),
    {
        *self = *self + rhs;
    }

    /// Replaces `self` by `self - rhs`, with `rhs` taken modulo two.
    pub fn sub_assign_int(&mut self, rhs: Int)
        ensures
            *final(self) == old(self).plus(IntMod2::residue(rhs as int)),
    {
        *self = *self - rhs;
    }

    /// Replaces `self` by `self * rhs`, with `rhs` taken modulo two.
    pub fn mul_assign_int(&mut self, rhs: Int)
        ensures
            *final(self) == old(self).times(IntMod2::residue(rhs as int)),
    {
        *self = *self * rhs;
    }
}

impl PartialEq for IntMod2 {
    fn eq(&self, other: &IntMod2) -> (r: bool) {
        match (*self, *other) {
            (IntMod2::Zero, IntMod2::Zero) => true,
            (IntMod2::One, IntMod2::One) => true,
            _ => false,
        }
    }
}

impl PartialEqSpecImpl for IntMod2 {
    open spec fn obeys_eq_spec() -> bool {
        true
    }

    open spec fn eq_spec(&self, other: &IntMod2) -> bool {
        *self == *other
    }
}

impl From<Int> for IntMod2 {
    /// The residue of `i` modulo two.
    fn from(i: Int) -> (r: IntMod2) {
        if i % 2 == 0 {
            IntMod2::Zero
        } else {
            IntMod2::One
        }
    }
}

impl FromSpecImpl<Int> for IntMod2 {
    open spec fn obeys_from_spec() -> bool {
        true
    }

    open spec fn from_spec(i: Int) -> IntMod2 {
        IntMod2::residue(i as int)
    }
}

impl From<IntMod2> for Int {
    /// The integer 0 or 1 that represents the residue.
    fn from(x: IntMod2) -> (r: Int) {
        x.to_int()
    }
}

impl FromSpecImpl<IntMod2> for Int {
    open spec fn obeys_from_spec() -> bool {
        true
    }

    open spec fn from_spec(x: IntMod2) -> Int {
        x.as_int() as Int
    }
}

impl Field for IntMod2 {
    type Value = IntMod2;

    open spec fn value(self) -> IntMod2 {
        self
    }

    open spec fn in_field(v: IntMod2) -> bool {
        true
    }

    open spec fn zero_value() -> IntMod2 {
        IntMod2::Zero
    }

    open spec fn one_value() -> IntMod2 {
        IntMod2::One
    }

    open spec fn neg_value(a: IntMod2) -> IntMod2 {
        a
    }

    open spec fn add_value(a: IntMod2, b: IntMod2) -> IntMod2 {
        a.plus(b)
    }

    open spec fn sub_value(a: IntMod2, b: IntMod2) -> IntMod2 {
        a.plus(b)
    }

    open spec fn mul_value(a: IntMod2, b: IntMod2) -> IntMod2 {
        a.times(b)
    }

    open spec fn div_value(a: IntMod2, b: IntMod2) -> IntMod2 {
        a
    }

    open spec fn text(self) -> Seq<char> {
        match self {
            IntMod2::Zero => "0"@,
            IntMod2::One => "1"@,
        }
    }

    open spec fn can_neg(a: IntMod2) -> bool {
        true
    }

    open spec fn can_add(a: IntMod2, b: IntMod2) -> bool {
        true
    }

    open spec fn can_sub(a: IntMod2, b: IntMod2) -> bool {
        true
    }

    open spec fn can_mul(a: IntMod2, b: IntMod2) -> bool {
        true
    }

    open spec fn can_div(a: IntMod2, b: IntMod2) -> bool {
        b == IntMod2::One
    }

    fn one() -> (r: IntMod2) {
        IntMod2::One
    }

    fn zero() -> (r: IntMod2) {
        IntMod2::Zero
    }

    fn neg(self) -> (r: IntMod2) {
        self
    }

    fn add(self, rhs: IntMod2) -> (r: IntMod2) {
        match (self, rhs) {
            (IntMod2::One, IntMod2::One) | (IntMod2::Zero, IntMod2::Zero) => IntMod2::Zero,
            (IntMod2::One, IntMod2::Zero) | (IntMod2::Zero, IntMod2::One) => IntMod2::One,
        }
    }

    fn sub(self, rhs: IntMod2) -> (r: IntMod2) {
        match (self, rhs) {
            (IntMod2::One, IntMod2::One) | (IntMod2::Zero, IntMod2::Zero) => IntMod2::Zero,
            (IntMod2::One, IntMod2::Zero) | (IntMod2::Zero, IntMod2::One) => IntMod2::One,
        }
    }

    fn mul(self, rhs: IntMod2) -> (r: IntMod2) {
        match (self, rhs) {
            (IntMod2::One, IntMod2::One) => IntMod2::One,
            _ => IntMod2::Zero,
        }
    }

    fn div(self, rhs: IntMod2) -> (r: IntMod2) {
        self
    }

    /// `0` or `1`.
    fn to_string(&self) -> (r: String) {
        match self {
            IntMod2::Zero => String::from_str("0"),
            IntMod2::One => String::from_str("1"),
        }
    }

    fn equals(&self, other: &IntMod2) -> (r: bool) {
        match (*self, *other) {
            (IntMod2::Zero, IntMod2::Zero) => true,
            (IntMod2::One, IntMod2::One) => true,
            _ => false,
        }
    }

}

impl ExactField for IntMod2 {
    proof fn lemma_identities() {
    }

    proof fn lemma_closed(a: IntMod2, b: IntMod2) {
    }

    proof fn lemma_add_commutative(a: IntMod2, b: IntMod2) {
    }

    proof fn lemma_add_associative(a: IntMod2, b: IntMod2, c: IntMod2) {
    }

    proof fn lemma_add_zero(a: IntMod2) {
    }

    proof fn lemma_add_neg(a: IntMod2) {
    }

    proof fn lemma_sub_is_add_neg(a: IntMod2, b: IntMod2) {
    }

    proof fn lemma_mul_commutative(a: IntMod2, b: IntMod2) {
    }

    proof fn lemma_mul_associative(a: IntMod2, b: IntMod2, c: IntMod2) {
    }

    proof fn lemma_mul_one(a: IntMod2) {
    }

    proof fn lemma_div_mul(a: IntMod2, b: IntMod2) {
    }

    proof fn lemma_distributive(a: IntMod2, b: IntMod2, c: IntMod2) {
    }
}

impl Neg for IntMod2 {
    type Output = IntMod2;

    /// Negation is the identity.
    fn neg(self) -> (r: IntMod2) {
        Field::neg(self)
    }
}

impl NegSpecImpl for IntMod2 {
    open spec fn obeys_neg_spec() -> bool {
        true
    }

    open spec fn neg_req(self) -> bool {
        true
    }

    open spec fn neg_spec(self) -> IntMod2 {
        self
    }
}

impl Add for IntMod2 {
    type Output = IntMod2;

    fn add(self, rhs: IntMod2) -> (r: IntMod2) {
        Field::add(self, rhs)
    }
}

impl AddSpecImpl for IntMod2 {
    open spec fn obeys_add_spec() -> bool {
        true
    }

    open spec fn add_req(self, rhs: IntMod2) -> bool {
        true
    }

    open spec fn add_spec(self, rhs: IntMod2) -> IntMod2 {
        self.plus(rhs)
    }
}

impl Sub for IntMod2 {
    type Output = IntMod2;

    fn sub(self, rhs: IntMod2) -> (r: IntMod2) {
        Field::sub(self, rhs)
    }
}

impl SubSpecImpl for IntMod2 {
    open spec fn obeys_sub_spec() -> bool {
        true
    }

    open spec fn sub_req(self, rhs: IntMod2) -> bool {
        true
    }

    open spec fn sub_spec(self, rhs: IntMod2) -> IntMod2 {
        self.plus(rhs)
    }
}

impl Mul for IntMod2 {
    type Output = IntMod2;

    fn mul(self, rhs: IntMod2) -> (r: IntMod2) {
        Field::mul(self, rhs)
    }
}

impl MulSpecImpl for IntMod2 {
    open spec fn obeys_mul_spec() -> bool {
        true
    }

    open spec fn mul_req(self, rhs: IntMod2) -> bool {
        true
    }

    open spec fn mul_spec(self, rhs: IntMod2) -> IntMod2 {
        self.times(rhs)
    }
}

impl Div for IntMod2 {
    type Output = IntMod2;

    /// The only nonzero element is its own inverse, so the quotient is the
    /// dividend. The divisor must not be zero.
    fn div(self, rhs: IntMod2) -> (r: IntMod2) {
        Field::div(self, rhs)
    }
}

impl DivSpecImpl for IntMod2 {
    open spec fn obeys_div_spec() -> bool {
        true
    }

    open spec fn div_req(self, rhs: IntMod2) -> bool {
        rhs == IntMod2::One
    }

    open spec fn div_spec(self, rhs: IntMod2) -> IntMod2 {
        self
    }
}

impl Add<Int> for IntMod2 {
    type Output = IntMod2;

    fn add(self, rhs: Int) -> (r: IntMod2) {
        Field::add(self, IntMod2::from(rhs))
    }
}

impl AddSpecImpl<Int> for IntMod2 {
    open spec fn obeys_add_spec() -> bool {
        true
    }

    open spec fn add_req(self, rhs: Int) -> bool {
        true
    }

    open spec fn add_spec(self, rhs: Int) -> IntMod2 {
        self.plus(IntMod2::residue(rhs as int))
    }
}

impl Sub<Int> for IntMod2 {
    type Output = IntMod2;

    fn sub(self, rhs: Int) -> (r: IntMod2) {
        Field::sub(self, IntMod2::from(rhs))
    }
}

impl SubSpecImpl<Int> for IntMod2 {
    open spec fn obeys_sub_spec() -> bool {
        true
    }

    open spec fn sub_req(self, rhs: Int) -> bool {
        true
    }

    open spec fn sub_spec(self, rhs: Int) -> IntMod2 {
        self.plus(IntMod2::residue(rhs as int))
    }
}

impl Mul<Int> for IntMod2 {
    type Output = IntMod2;

    fn mul(self, rhs: Int) -> (r: IntMod2) {
        Field::mul(self, IntMod2::from(rhs))
    }
}

impl MulSpecImpl<Int> for IntMod2 {
    open spec fn obeys_mul_spec() -> bool {
        true
    }

    open spec fn mul_req(self, rhs: Int) -> bool {
        true
    }

    open spec fn mul_spec(self, rhs: Int) -> IntMod2 {
        self.times(IntMod2::residue(rhs as int))
    }
}

} // verus!
