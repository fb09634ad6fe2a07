//! Scalars: the [`Field`] contract and the scalar types that meet it.
use vstd::prelude::*;

pub mod fraction;
pub mod int_mod_2;
pub mod rational;
pub mod rational_ops;

pub use int_mod_2::IntMod2;
pub use rational::Rational;

verus! {

/// A type representing the integers.
pub type Int = i64;

/// A scalar type whose values form a field.
///
/// Each element stands for a mathematical value, `value()`. The arithmetic of
/// the field is given on those values by the `*_value` functions, and the
/// values that belong to the field are those for which `in_field` holds. An
/// executable operation may be partial (a machine integer overflows, a divisor
/// is the additive identity): the `can_*` predicates say on which values it is
/// defined. The field laws are the matter of [`ExactField`].
///
/// The functions on values have bodies that say nothing (an arbitrary value,
/// defined everywhere), so that a scalar type whose arithmetic is not exact,
/// such as one of floating-point numbers, needs to supply the executable
/// operations only. An exact scalar type defines them all.
pub trait Field: Sized + Copy + PartialEq + 'static {
    /// The mathematical values of the field.
    type Value;

    /// The value that this element stands for.
    open spec fn value(self) -> Self::Value {
        arbitrary()
    }

    /// Whether `v` is an element of the field.
    open spec fn in_field(v: Self::Value) -> bool {
        true
    }

    /// The additive identity.
    open spec fn zero_value() -> Self::Value {
        arbitrary()
    }

    /// The multiplicative identity.
    open spec fn one_value() -> Self::Value {
        arbitrary()
    }

    /// The additive inverse of `a`.
    open spec fn neg_value(a: Self::Value) -> Self::Value {
        arbitrary()
    }

    /// The sum `a + b`.
    open spec fn add_value(a: Self::Value, b: Self::Value) -> Self::Value {
        arbitrary()
    }

    /// The difference `a - b`.
    open spec fn sub_value(a: Self::Value, b: Self::Value) -> Self::Value {
        arbitrary()
    }

    /// The product `a * b`.
    open spec fn mul_value(a: Self::Value, b: Self::Value) -> Self::Value {
        arbitrary()
    }

    /// The quotient `a / b`.
    open spec fn div_value(a: Self::Value, b: Self::Value) -> Self::Value {
        arbitrary()
    }

    /// The characters that `to_string` writes for this element.
    open spec fn text(self) -> Seq<char> {
        arbitrary()
    }

    /// Whether `neg` is defined on an element of value `a`.
    open spec fn can_neg(a: Self::Value) -> bool {
        true
    }

    /// Whether `add` is defined on elements of values `a` and `b`.
    open spec fn can_add(a: Self::Value, b: Self::Value) -> bool {
        true
    }

    /// Whether `sub` is defined on elements of values `a` and `b`.
    open spec fn can_sub(a: Self::Value, b: Self::Value) -> bool {
        true
    }

    /// Whether `mul` is defined on elements of values `a` and `b`.
    open spec fn can_mul(a: Self::Value, b: Self::Value) -> bool {
        true
    }

    /// Whether `div` is defined on elements of values `a` and `b`.
    open spec fn can_div(a: Self::Value, b: Self::Value) -> bool {
        true
    }

    /// Returns the multiplicative identity.
    fn one() -> (r: Self)
        ensures
            r.value() == Self::one_value(),
    ;

    /// Returns the additive identity.
    fn zero() -> (r: Self)
        ensures
            r.value() == Self::zero_value(),
    ;

    /// Returns `-self`.
    fn neg(self) -> (r: Self)
        requires
            Self::can_neg(self.value()),
        ensures
            r.value() == Self::neg_value(self.value()),
    ;

    /// Returns `self + rhs`.
    fn add(self, rhs: Self) -> (r: Self)
        requires
            Self::can_add(self.value(), rhs.value()),
        ensures
            r.value() == Self::add_value(self.value(), rhs.value()),
    ;

    /// Returns `self - rhs`.
    fn sub(self, rhs: Self) -> (r: Self)
        requires
            Self::can_sub(self.value(), rhs.value()),
        ensures
            r.value() == Self::sub_value(self.value(), rhs.value()),
    ;

    /// Returns `self * rhs`.
    fn mul(self, rhs: Self) -> (r: Self)
        requires
            Self::can_mul(self.value(), rhs.value()),
        ensures
            r.value() == Self::mul_value(self.value(), rhs.value()),
    ;

    /// Returns `self / rhs`.
    fn div(self, rhs: Self) -> (r: Self)
        requires
            Self::can_div(self.value(), rhs.value()),
        ensures
            r.value() == Self::div_value(self.value(), rhs.value()),
    ;

    /// Whether `self` and `other` stand for the same value.
    fn equals(&self, other: &Self) -> (r: bool)
        ensures
            r == (self.value() == other.value()),
    ;

    /// The element in human-readable form.
    fn to_string(&self) -> (r: String)
        ensures
            r@ == self.text(),
    ;

    /// Replaces `self` by `self + rhs`.
    fn add_assign(&mut self, rhs: Self)
        requires
            Self::can_add(old(self).value(), rhs.value()),
        ensures
            final(self).value() == Self::add_value(old(self).value(), rhs.value()),
    {
        *self = (*self).add(rhs);
    }

    /// Replaces `self` by `self - rhs`.
    fn sub_assign(&mut self, rhs: Self)
        requires
            Self::can_sub(old(self).value(), rhs.value()),
        ensures
            final(self).value() == Self::sub_value(old(self).value(), rhs.value()),
    {
        *self = (*self).sub(rhs);
    }

    /// Replaces `self` by `self * rhs`.
    fn mul_assign(&mut self, rhs: Self)
        requires
            Self::can_mul(old(self).value(), rhs.value()),
        ensures
            final(self).value() == Self::mul_value(old(self).value(), rhs.value()),
    {
        *self = (*self).mul(rhs);
    }

    /// Replaces `self` by `self / rhs`.
    fn div_assign(&mut self, rhs: Self)
        requires
            Self::can_div(old(self).value(), rhs.value()),
        ensures
            final(self).value() == Self::div_value(old(self).value(), rhs.value()),
    {
        *self = (*self).div(rhs);
    }

    /// Returns the multiplicative inverse of `x`, computed as `one() / x`.
    fn mul_inverse(x: Self) -> (r: Self)
        requires
            Self::can_div(Self::one_value(), x.value()),
        ensures
            r.value() == Self::div_value(Self::one_value(), x.value()),
    {
        Self::one().div(x)
    }

    /// Returns the additive inverse of `x`, computed as `zero() - x`.
    fn add_inverse(x: Self) -> (r: Self)
        requires
            Self::can_sub(Self::zero_value(), x.value()),
        ensures
            r.value() == Self::sub_value(Self::zero_value(), x.value()),
    {
        Self::zero().sub(x)
    }
}

/// A field whose arithmetic is exact: its values obey the field laws.
///
/// Addition and multiplication are commutative and associative and have the
/// identities zero and one, every element has an additive inverse and every
/// element but zero a multiplicative one, and multiplication distributes over
/// addition. Each implementation proves these of the values for which
/// `in_field` holds.
pub trait ExactField: Field {
    /// The identities belong to the field and differ.
    proof fn lemma_identities()
        ensures
            Self::in_field(Self::zero_value()),
            Self::in_field(Self::one_value()),
            Self::zero_value() != Self::one_value(),
    ;

    /// The field is closed under its operations.
    proof fn lemma_closed(a: Self::Value, b: Self::Value)
        requires
            Self::in_field(a),
            Self::in_field(b),
        ensures
            Self::in_field(Self::neg_value(a)),
            Self::in_field(Self::add_value(a, b)),
            Self::in_field(Self::sub_value(a, b)),
            Self::in_field(Self::mul_value(a, b)),
            b != Self::zero_value() ==> Self::in_field(Self::div_value(a, b)),
    ;

    /// Addition is commutative: `a + b == b + a`.
    proof fn lemma_add_commutative(a: Self::Value, b: Self::Value)
        requires
            Self::in_field(a),
            Self::in_field(b),
        ensures
            Self::add_value(a, b) == Self::add_value(b, a),
    ;

    /// Addition is associative: `(a + b) + c == a + (b + c)`.
    proof fn lemma_add_associative(a: Self::Value, b: Self::Value, c: Self::Value)
        requires
            Self::in_field(a),
            Self::in_field(b),
            Self::in_field(c),
        ensures
            Self::add_value(Self::add_value(a, b), c) == Self::add_value(
                a,
                Self::add_value(b, c),
            ),
    ;

    /// Zero is the identity of addition: `a + 0 == a`.
    proof fn lemma_add_zero(a: Self::Value)
        requires
            Self::in_field(a),
        ensures
            Self::add_value(a, Self::zero_value()) == a,
    ;

    /// Every element has an additive inverse: `a + (-a) == 0`.
    proof fn lemma_add_neg(a: Self::Value)
        requires
            Self::in_field(a),
        ensures
            Self::add_value(a, Self::neg_value(a)) == Self::zero_value(),
    ;

    /// Subtraction adds the additive inverse: `a - b == a + (-b)`.
    proof fn lemma_sub_is_add_neg(a: Self::Value, b: Self::Value)
        requires
            Self::in_field(a),
            Self::in_field(b),
        ensures
            Self::sub_value(a, b) == Self::add_value(a, Self::neg_value(b)),
    ;

    /// Multiplication is commutative: `a * b == b * a`.
    proof fn lemma_mul_commutative(a: Self::Value, b: Self::Value)
        requires
            Self::in_field(a),
            Self::in_field(b),
        ensures
            Self::mul_value(a, b) == Self::mul_value(b, a),
    ;

    /// Multiplication is associative: `(a * b) * c == a * (b * c)`.
    proof fn lemma_mul_associative(a: Self::Value, b: Self::Value, c: Self::Value)
        requires
            Self::in_field(a),
            Self::in_field(b),
            Self::in_field(c),
        ensures
            Self::mul_value(Self::mul_value(a, b), c) == Self::mul_value(
                a,
                Self::mul_value(b, c),
            ),
    ;

    /// One is the identity of multiplication: `a * 1 == a`.
    proof fn lemma_mul_one(a: Self::Value)
        requires
            Self::in_field(a),
        ensures
            Self::mul_value(a, Self::one_value()) == a,
    ;

    /// Division by a nonzero element inverts multiplication by it:
    /// `(a / b) * b == a`.
    proof fn lemma_div_mul(a: Self::Value, b: Self::Value)
        requires
            Self::in_field(a),
            Self::in_field(b),
            b != Self::zero_value(),
        ensures
            Self::mul_value(Self::div_value(a, b), b) == a,
    ;

    /// Multiplication distributes over addition:
    /// `a * (b + c) == a * b + a * c`.
    proof fn lemma_distributive(a: Self::Value, b: Self::Value, c: Self::Value)
        requires
            Self::in_field(a),
            Self::in_field(b),
            Self::in_field(c),
        ensures
            Self::mul_value(a, Self::add_value(b, c)) == Self::add_value(
                Self::mul_value(a, b),
                Self::mul_value(a, c),
            ),
    ;
}

} // verus!
