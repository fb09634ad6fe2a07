//! Rational numbers kept in simplest form.
use vstd::prelude::*;
use vstd::math::abs;
use vstd::std_specs::cmp::PartialEqSpecImpl;
use vstd::std_specs::convert::FromSpecImpl;
use vstd::std_specs::ops::AddSpec;
use vstd::std_specs::ops::DivSpec;
use vstd::std_specs::ops::MulSpec;
use vstd::std_specs::ops::SubSpec;
use vstd::string::StringExecFns;
use crate::text::push_int;
use crate::text::signed_decimal;
use super::ExactField;
use super::Field;
use super::Int;
use super::IntMod2;
use super::fraction;
use super::fraction::Fraction;
use super::fraction::whole;

verus! {

/// A rational number `num/denom` over machine integers.
///
/// Every operation that computes a new fraction leaves it simplified: in
/// lowest terms, with a positive denominator, and with zero written 0/1.
#[derive(Clone, Copy, Debug)]
pub struct Rational {
    pub num: Int,
    pub denom: Int,
}

/// Whether `x` is a machine integer.
pub open spec fn in_range(x: int) -> bool {
    i64::MIN <= x <= i64::MAX
}

/// Whether `x` is a machine integer whose negation is one too.
pub open spec fn fits(x: int) -> bool {
    i64::MIN < x <= i64::MAX
}

impl View for Rational {
    type V = Fraction;

    /// The fraction of the two fields, as they stand.
    open spec fn view(&self) -> Fraction {
        Fraction { num: self.num as int, denom: self.denom as int }
    }
}

/// Greatest common divisor by the Euclidean algorithm, for positive `a` and
/// `b`.
pub fn gcd(a: Int, b: Int) -> (r: Int)
    requires
        a > 0,
        b > 0,
    ensures
        r == fraction::gcd(a as nat, b as nat),
        fraction::is_common_divisor(r as nat, a as nat, b as nat),
        forall|d: nat| #[trigger] fraction::is_common_divisor(d, a as nat, b as nat) ==> d <= r,
{
    let mut x = a;
    let mut y = b;
    while x % y > 0
        invariant
            x > 0,
            y > 0,
            fraction::gcd(x as nat, y as nat) == fraction::gcd(a as nat, b as nat),
        decreases y,
    {
        let r = x % y;
        x = y;
        y = r;
    }
    proof {
        assert(fraction::gcd(x as nat, y as nat) == fraction::gcd(y as nat, 0));
        fraction::lemma_gcd_divides(a as nat, b as nat);
        assert forall|d: nat| #[trigger]
            fraction::is_common_divisor(d, a as nat, b as nat) implies d <= y by {
            fraction::lemma_gcd_greatest(a as nat, b as nat, d);
        }
    }
    y
}

impl Rational {
    /// The rational whose fields hold the fraction `f`.
    pub open spec fn of(f: Fraction) -> Rational {
        Rational { num: f.num as Int, denom: f.denom as Int }
    }

    /// Whether the rational is in simplest form.
    pub open spec fn is_simplified(self) -> bool {
        self@.is_simplified()
    }

    /// The fraction `num/denom`, as given.
    pub fn new(num: Int, denom: Int) -> (r: Rational)
        ensures
            r.num == num,
            r.denom == denom,
    {
        Rational { num, denom }
    }

    /// Puts the fraction in simplest form.
    ///
    /// Both fields are divided by their greatest common divisor, and by -1
    /// where the denominator was negative; a zero numerator or denominator
    /// gives 0/1. A simplified fraction is left as it is.
    pub fn simplify(&mut self)
        requires
            fits(old(self).num as int),
            fits(old(self).denom as int),
        ensures
            final(self)@ == old(self)@.simplified(),
            final(self).is_simplified(),
            old(self).is_simplified() ==> *final(self) == *old(self),
    {
        let a = self.num;
        let b = self.denom;
        proof {
            fraction::lemma_simplified(self@);
            if self.is_simplified() {
                fraction::lemma_simplified_fixed(self@);
            }
        }
        if a == 0 || b == 0 {
            self.num = 0;
            self.denom = 1;
            return ;
        }
        let size_a = if a > 0 {
            a
        } else {
            -a
        };
        let size_b = if b > 0 {
            b
        } else {
            -b
        };
        let divisor = gcd(size_a, size_b);
        proof {
            assert(size_a == abs(a as int) && size_b == abs(b as int));
            fraction::lemma_exact_quotient_negated(a as int, divisor as nat);
            fraction::lemma_exact_quotient_negated(b as int, divisor as nat);
        }
        if b > 0 {
            self.num = a / divisor;
            self.denom = b / divisor;
        } else {
            self.num = (-a) / divisor;
            self.denom = (-b) / divisor;
        }
    }
}

impl PartialEq for Rational {
    /// Two rationals are equal when both fields are.
    fn eq(&self, other: &Rational) -> (r: bool) {
        self.num == other.num && self.denom == other.denom
    }
}

impl PartialEqSpecImpl for Rational {
    open spec fn obeys_eq_spec() -> bool {
        true
    }

    open spec fn eq_spec(&self, other: &Rational) -> bool {
        self@ == other@
    }
}

impl PartialEq<Int> for Rational {
    /// A rational equals an integer when its denominator is 1 and its
    /// numerator is that integer.
    fn eq(&self, other: &Int) -> (r: bool) {
        (self.denom == 1) && (self.num == *other)
    }
}

impl PartialEqSpecImpl<Int> for Rational {
    open spec fn obeys_eq_spec() -> bool {
        true
    }

    open spec fn eq_spec(&self, other: &Int) -> bool {
        self@ == whole(*other as int)
    }
}

impl From<Int> for Rational {
    /// The integer `x` as `x/1`, which is simplified.
    fn from(x: Int) -> (r: Rational)
        ensures
            r.is_simplified(),
    {
        proof {
            fraction::lemma_whole_is_simplified(x as int);
        }
        Rational::new(x, 1)
    }
}

impl FromSpecImpl<Int> for Rational {
    open spec fn obeys_from_spec() -> bool {
        true
    }

    open spec fn from_spec(x: Int) -> Rational {
        Rational { num: x, denom: 1 }
    }
}

impl From<IntMod2> for Rational {
    /// The residue as 0/1 or 1/1.
    fn from(x: IntMod2) -> (r: Rational)
        ensures
            r.is_simplified(),
    {
        Rational::from(x.to_int())
    }
}

impl FromSpecImpl<IntMod2> for Rational {
    open spec fn obeys_from_spec() -> bool {
        true
    }

    open spec fn from_spec(x: IntMod2) -> Rational {
        Rational { num: x.as_int() as Int, denom: 1 }
    }
}

impl Field for Rational {
    type Value = Fraction;

    open spec fn value(self) -> Fraction {
        self@
    }

    open spec fn in_field(v: Fraction) -> bool {
        v.is_simplified()
    }

    open spec fn zero_value() -> Fraction {
        whole(0)
    }

    open spec fn one_value() -> Fraction {
        whole(1)
    }

    open spec fn neg_value(a: Fraction) -> Fraction {
        a.negated()
    }

    open spec fn add_value(a: Fraction, b: Fraction) -> Fraction {
        a.plus(b)
    }

    open spec fn sub_value(a: Fraction, b: Fraction) -> Fraction {
        a.minus(b)
    }

    open spec fn mul_value(a: Fraction, b: Fraction) -> Fraction {
        a.times(b)
    }

    open spec fn div_value(a: Fraction, b: Fraction) -> Fraction {
        a.over(b)
    }

    open spec fn text(self) -> Seq<char> {
        if self.denom == 1 {
            signed_decimal(self.num as int)
        } else {
            signed_decimal(self.num as int) + "/"@ + signed_decimal(self.denom as int)
        }
    }

    /// The negated numerator is a machine integer.
    open spec fn can_neg(a: Fraction) -> bool {
        in_range(-a.num)
    }

    /// The cross products are machine integers, and the numerator and
    /// denominator of the unsimplified sum can be simplified.
    open spec fn can_add(a: Fraction, b: Fraction) -> bool {
        &&& in_range(a.num * b.denom)
        &&& in_range(a.denom * b.num)
        &&& fits(a.sum(b).num)
        &&& fits(a.sum(b).denom)
    }

    /// The cross products are machine integers, and the numerator and
    /// denominator of the unsimplified difference can be simplified.
    open spec fn can_sub(a: Fraction, b: Fraction) -> bool {
        &&& in_range(a.num * b.denom)
        &&& in_range(a.denom * b.num)
        &&& fits(a.difference(b).num)
        &&& fits(a.difference(b).denom)
    }

    /// The numerator and denominator of the unsimplified product can be
    /// simplified.
    open spec fn can_mul(a: Fraction, b: Fraction) -> bool {
        &&& fits(a.product(b).num)
        &&& fits(a.product(b).denom)
    }

    /// The numerator and denominator of the unsimplified quotient can be
    /// simplified. The divisor may be zero: the quotient is then 0/1.
    open spec fn can_div(a: Fraction, b: Fraction) -> bool {
        &&& fits(a.quotient(b).num)
        &&& fits(a.quotient(b).denom)
    }

    fn one() -> (r: Rational)
        ensures
            r.is_simplified(),
    {
        proof {
            fraction::lemma_whole_is_simplified(1);
        }
        Rational::new(1, 1)
    }

    fn zero() -> (r: Rational)
        ensures
            r.is_simplified(),
    {
        proof {
            fraction::lemma_whole_is_simplified(0);
        }
        Rational::new(0, 1)
    }

    fn neg(self) -> (r: Rational)
        ensures
            self.is_simplified() ==> r.is_simplified(),
    {
        proof {
            if self.is_simplified() {
                fraction::lemma_negated_is_simplified(self@);
            }
        }
        Rational { num: -self.num, denom: self.denom }
    }

    fn add(self, rhs: Rational) -> (r: Rational)
        ensures
            r.is_simplified(),
    {
        let mut out = self;
        out.num = (self.num * rhs.denom) + (self.denom * rhs.num);
        out.denom = self.denom * rhs.denom;
        out.simplify();
        out
    }

    fn sub(self, rhs: Rational) -> (r: Rational)
        ensures
            r.is_simplified(),
    {
        let mut out = self;
        out.num = (self.num * rhs.denom) - (self.denom * rhs.num);
        out.denom = self.denom * rhs.denom;
        out.simplify();
        out
    }

    fn mul(self, rhs: Rational) -> (r: Rational)
        ensures
            r.is_simplified(),
    {
        let mut out = self;
        out.num = self.num * rhs.num;
        out.denom = self.denom * rhs.denom;
        out.simplify();
        out
    }

    fn div(self, rhs: Rational) -> (r: Rational)
        ensures
            r.is_simplified(),
    {
        let mut out = self;
        out.num = self.num * rhs.denom;
        out.denom = self.denom * rhs.num;
        out.simplify();
        out
    }

    /// The numerator alone where the denominator is 1, else the numerator, a
    /// slash and the denominator.
    fn to_string(&self) -> (r: String) {
        let mut out = String::new();
        push_int(&mut out, self.num);
        if self.denom != 1 {
            out.append("/");
            push_int(&mut out, self.denom);
        }
        assert(out@ =~= self.text());
        out
    }

    fn equals(&self, other: &Rational) -> (r: bool) {
        self.num == other.num && self.denom == other.denom
    }

}

impl ExactField for Rational {
    proof fn lemma_identities() {
        fraction::lemma_whole_is_simplified(0);
        fraction::lemma_whole_is_simplified(1);
    }

    proof fn lemma_closed(a: Fraction, b: Fraction) {
        fraction::lemma_negated_is_simplified(a);
        fraction::lemma_results_are_simplified(a, b);
    }

    proof fn lemma_add_commutative(a: Fraction, b: Fraction) {
        fraction::lemma_plus_commutative(a, b);
    }

    proof fn lemma_add_associative(a: Fraction, b: Fraction, c: Fraction) {
        fraction::lemma_plus_associative(a, b, c);
    }

    proof fn lemma_add_zero(a: Fraction) {
        fraction::lemma_plus_zero(a);
    }

    proof fn lemma_add_neg(a: Fraction) {
        fraction::lemma_plus_negated(a);
    }

    proof fn lemma_sub_is_add_neg(a: Fraction, b: Fraction) {
        fraction::lemma_minus_is_plus_negated(a, b);
    }

    proof fn lemma_mul_commutative(a: Fraction, b: Fraction) {
        fraction::lemma_times_commutative(a, b);
    }

    proof fn lemma_mul_associative(a: Fraction, b: Fraction, c: Fraction) {
        fraction::lemma_times_associative(a, b, c);
    }

    proof fn lemma_mul_one(a: Fraction) {
        fraction::lemma_times_one(a);
    }

    proof fn lemma_div_mul(a: Fraction, b: Fraction) {
        fraction::lemma_over_times(a, b);
    }

    proof fn lemma_distributive(a: Fraction, b: Fraction, c: Fraction) {
        fraction::lemma_times_distributive(a, b, c);
    }
}

impl Rational {
    /// Replaces `self` by `self + rhs`.
    pub fn add_assign_int(&mut self, rhs: Int)
        requires
            old(self).add_req(rhs),
        ensures
            *final(self) == old(self).add_spec(rhs),
            old(self).is_simplified() ==> final(self).is_simplified(),
    {
        *self = *self + rhs;
    }

    /// Replaces `self` by `self - rhs`.
    pub fn sub_assign_int(&mut self, rhs: Int)
        requires
            old(self).sub_req(rhs),
        ensures
            *final(self) == old(self).sub_spec(rhs),
            old(self).is_simplified() ==> final(self).is_simplified(),
    {
        *self = *self - rhs;
    }

    /// Replaces `self` by `self * rhs`.
    pub fn mul_assign_int(&mut self, rhs: Int)
        requires
            old(self).mul_req(rhs),
        ensures
            *final(self) == old(self).mul_spec(rhs),
            final(self).is_simplified(),
    {
        *self = *self * rhs;
    }

    /// Replaces `self` by `self / rhs`.
    pub fn div_assign_int(&mut self, rhs: Int)
        requires
            old(self).div_req(rhs),
        ensures
            *final(self) == old(self).div_spec(rhs),
            final(self).is_simplified(),
    {
        *self = *self / rhs;
    }
}

} // verus!
