//! Polynomials in one variable, kept without trailing zero coefficients.
use vstd::prelude::*;
use vstd::std_specs::convert::FromSpecImpl;
use vstd::std_specs::ops::AddSpecImpl;
use vstd::std_specs::ops::DivSpecImpl;
use vstd::std_specs::ops::MulSpecImpl;
use vstd::std_specs::ops::NegSpecImpl;
use vstd::std_specs::ops::SubSpecImpl;
use vstd::string::StringExecFns;
use std::ops::Add;
use std::ops::Div;
use std::ops::Index;
use std::ops::Mul;
use std::ops::Neg;
use std::ops::Sub;
use crate::field::Field;
use crate::field::Int;
use crate::field::Rational;
use crate::field::fraction::whole;
use crate::text::decimal;
use crate::text::push_decimal;
use super::VectorSpace;
use super::can_divide;
use super::can_negate;
use super::can_scale;
use super::divided;
use super::negated;
use super::scaled;
use super::values;

verus! {

/// Whether the coefficients `c` are in canonical form: there are none, or the
/// last one is not zero.
pub open spec fn is_trimmed<F: Field>(c: Seq<F::Value>) -> bool {
    c.len() == 0 || c.last() != F::zero_value()
}

/// The number of coefficients of `c` that are left once its trailing zeros
/// are removed.
pub open spec fn trimmed_len<F: Field>(c: Seq<F::Value>) -> nat
    decreases c.len(),
{
    if is_trimmed::<F>(c) {
        c.len()
    } else {
        trimmed_len::<F>(c.drop_last())
    }
}

/// The coefficients `c` without their trailing zeros.
pub open spec fn trimmed<F: Field>(c: Seq<F::Value>) -> Seq<F::Value> {
    c.take(trimmed_len::<F>(c) as int)
}

/// The coefficient of degree `i` of `c`: zero beyond its length.
pub open spec fn coefficient<F: Field>(c: Seq<F::Value>, i: int) -> F::Value {
    if 0 <= i < c.len() {
        c[i]
    } else {
        F::zero_value()
    }
}

/// The longer of two lengths.
pub open spec fn longer(m: nat, n: nat) -> nat {
    if m >= n {
        m
    } else {
        n
    }
}

/// The coefficients of `a + b`, before trimming: where `b` has a
/// coefficient, the sum of the two (with zero for what `a` lacks), and the
/// coefficient of `a` beyond the length of `b`.
pub open spec fn padded_sum<F: Field>(a: Seq<F::Value>, b: Seq<F::Value>) -> Seq<F::Value> {
    Seq::new(
        longer(a.len(), b.len()),
        |i: int|
            if i < b.len() {
                F::add_value(coefficient::<F>(a, i), b[i])
            } else {
                a[i]
            },
    )
}

/// The coefficients of `a - b`, before trimming: where `b` has a
/// coefficient, the difference of the two (with zero for what `a` lacks), and
/// the coefficient of `a` beyond the length of `b`.
pub open spec fn padded_difference<F: Field>(a: Seq<F::Value>, b: Seq<F::Value>) -> Seq<
    F::Value,
> {
    Seq::new(
        longer(a.len(), b.len()),
        |i: int|
            if i < b.len() {
                F::sub_value(coefficient::<F>(a, i), b[i])
            } else {
                a[i]
            },
    )
}

/// Whether each coefficient of `b` can be added to that of `a`.
pub open spec fn can_padded_sum<F: Field>(a: Seq<F::Value>, b: Seq<F::Value>) -> bool {
    forall|i: int| 0 <= i < b.len() ==> F::can_add(coefficient::<F>(a, i), #[trigger] b[i])
}

/// Whether each coefficient of `b` can be subtracted from that of `a`.
pub open spec fn can_padded_difference<F: Field>(a: Seq<F::Value>, b: Seq<F::Value>) -> bool {
    forall|i: int| 0 <= i < b.len() ==> F::can_sub(coefficient::<F>(a, i), #[trigger] b[i])
}

/// `x` to the power `n`, multiplied up from one.
pub open spec fn power<F: Field>(x: F::Value, n: nat) -> F::Value
    decreases n,
{
    if n == 0 {
        F::one_value()
    } else {
        F::mul_value(power::<F>(x, (n - 1) as nat), x)
    }
}

/// The value at `x` of the polynomial of the first `n` coefficients of `c`:
/// the terms `c[i] * x^i`, added up from zero in the order of the degrees.
pub open spec fn evaluation<F: Field>(c: Seq<F::Value>, x: F::Value, n: nat) -> F::Value
    decreases n,
{
    if n == 0 {
        F::zero_value()
    } else {
        F::add_value(
            evaluation::<F>(c, x, (n - 1) as nat),
            F::mul_value(c[n - 1], power::<F>(x, (n - 1) as nat)),
        )
    }
}

/// Whether `power(x, n)` can be computed: each multiplication by `x` on the
/// way is defined.
pub open spec fn can_power<F: Field>(x: F::Value, n: nat) -> bool
    decreases n,
{
    n == 0 || {
        &&& can_power::<F>(x, (n - 1) as nat)
        &&& F::can_mul(power::<F>(x, (n - 1) as nat), x)
    }
}

/// Whether `evaluation(c, x, n)` can be computed: each power of `x` below
/// the `n`th, each term and each partial sum.
pub open spec fn can_evaluate<F: Field>(c: Seq<F::Value>, x: F::Value, n: nat) -> bool
    decreases n,
{
    n == 0 || {
        let k = (n - 1) as nat;
        &&& can_evaluate::<F>(c, x, k)
        &&& can_power::<F>(x, k)
        &&& F::can_mul(c[k as int], power::<F>(x, k))
        &&& F::can_add(evaluation::<F>(c, x, k), F::mul_value(c[k as int], power::<F>(x, k)))
    }
}

/// What is trimmed is in canonical form, and no longer than it was.
pub proof fn lemma_trimmed_is_trimmed<F: Field>(c: Seq<F::Value>)
    ensures
        is_trimmed::<F>(trimmed::<F>(c)),
        trimmed_len::<F>(c) <= c.len(),
    decreases c.len(),
{
    if !is_trimmed::<F>(c) {
        lemma_trimmed_is_trimmed::<F>(c.drop_last());
        assert(trimmed::<F>(c) =~= trimmed::<F>(c.drop_last()));
    } else {
        assert(trimmed::<F>(c) =~= c);
    }
}

/// Trimming coefficients in canonical form changes nothing, so trimming twice
/// is trimming once.
pub proof fn lemma_trimmed_idempotent<F: Field>(c: Seq<F::Value>)
    ensures
        is_trimmed::<F>(c) ==> trimmed::<F>(c) == c,
        trimmed::<F>(trimmed::<F>(c)) == trimmed::<F>(c),
{
    lemma_trimmed_is_trimmed::<F>(c);
    if is_trimmed::<F>(c) {
        assert(trimmed::<F>(c) =~= c);
    }
    let t = trimmed::<F>(c);
    assert(trimmed::<F>(t) =~= t);
}

/// A polynomial over a field: the coefficient at index `i` is that of
/// degree `i`. The last coefficient is never zero; the zero polynomial has no
/// coefficients.
#[derive(Debug, PartialEq)]
pub struct Polynom<F: Field>(Vec<F>);

impl<F: Field> Clone for Polynom<F> {
    /// A polynomial of the same coefficients.
    fn clone(&self) -> (r: Self)
        ensures
            r@ == self@,
    {
        proof {
            use_type_invariant(self);
        }
        let mut v: Vec<F> = Vec::new();
        let mut i: usize = 0;
        while i < self.0.len()
            invariant
                i <= self.0@.len(),
                v@ == self.0@.take(i as int),
            decreases self.0@.len() - i,
        {
            v.push(self.0[i]);
            assert(v@ =~= self.0@.take(i + 1));
            i += 1;
        }
        assert(v@ =~= self.0@);
        Polynom(v)
    }
}

impl<F: Field> View for Polynom<F> {
    type V = Seq<F>;

    /// The coefficients, from degree 0 up.
    closed spec fn view(&self) -> Seq<F> {
        self.0@
    }
}

impl<F: Field> Polynom<F> {
    /// The values of the coefficients, from degree 0 up.
    pub open spec fn values(self) -> Seq<F::Value> {
        values(self@)
    }

    /// The polynomial is in canonical form.
    pub open spec fn is_trimmed(self) -> bool {
        is_trimmed::<F>(self.values())
    }

    /// Every polynomial that exists is in canonical form.
    #[verifier::type_invariant]
    spec fn canonical(self) -> bool {
        is_trimmed::<F>(values(self.0@))
    }

    /// Returns the number of coefficients: one more than the degree, and 0
    /// for the zero polynomial.
    pub fn len(&self) -> (r: usize)
        ensures
            r == self@.len(),
            self.is_trimmed(),
    {
        proof {
            use_type_invariant(self);
        }
        self.0.len()
    }

    /// Appends zeros to the end of `v` so that it can be indexed up to `n`.
    /// The coefficients are no longer in canonical form afterwards.
    pub fn alloc_space(v: &mut Vec<F>, n: usize)
        ensures
            final(v)@.len() == longer(old(v)@.len(), n as nat),
            forall|i: int| 0 <= i < old(v)@.len() ==> final(v)@[i] == old(v)@[i],
            forall|i: int|
                old(v)@.len() <= i < final(v)@.len() ==> (#[trigger] final(v)@[i]).value()
                    == F::zero_value(),
    {
        while v.len() < n
            invariant
                old(v)@.len() <= v@.len(),
                v@.len() <= longer(old(v)@.len(), n as nat),
                forall|i: int| 0 <= i < old(v)@.len() ==> v@[i] == old(v)@[i],
                forall|i: int|
                    old(v)@.len() <= i < v@.len() ==> (#[trigger] v@[i]).value()
                        == F::zero_value(),
            decreases n - v.len(),
        {
            v.push(F::zero());
        }
    }

    /// Removes all zeros from the end of `v`, which puts the coefficients in
    /// canonical form. Coefficients that are in canonical form stay as they
    /// are.
    pub fn shrink(v: &mut Vec<F>)
        ensures
            final(v)@ == old(v)@.take(trimmed_len::<F>(values(old(v)@)) as int),
            values(final(v)@) == trimmed::<F>(values(old(v)@)),
            is_trimmed::<F>(values(final(v)@)),
            is_trimmed::<F>(values(old(v)@)) ==> final(v)@ == old(v)@,
    {
        let zero = F::zero();
        proof {
            lemma_trimmed_is_trimmed::<F>(values(old(v)@));
        }
        while v.len() > 0 && v[v.len() - 1].equals(&zero)
            invariant
                zero.value() == F::zero_value(),
                v@.len() <= old(v)@.len(),
                v@ == old(v)@.take(v@.len() as int),
                trimmed_len::<F>(values(v@)) == trimmed_len::<F>(values(old(v)@)),
            decreases v@.len(),
        {
            proof {
                assert(values(v@).drop_last() =~= values(v@.drop_last()));
                assert(v@.drop_last() =~= old(v)@.take(v@.len() - 1));
            }
            v.pop();
        }
        proof {
            assert(is_trimmed::<F>(values(v@)));
            assert(values(v@) =~= trimmed::<F>(values(old(v)@)));
            if is_trimmed::<F>(values(old(v)@)) {
                assert(v@ =~= old(v)@);
            }
        }
    }

    /// Evaluates the polynomial at the given `x`: the terms are added from
    /// the lowest degree up, with a running power of `x`. The zero
    /// polynomial evaluates to zero.
    pub fn eval_at(&self, x: F) -> (r: F)
        requires
            can_evaluate::<F>(self.values(), x.value(), self@.len()),
        ensures
            r.value() == evaluation::<F>(self.values(), x.value(), self@.len()),
    {
        let mut exponential = F::one();
        let mut accum = F::zero();
        let mut i: usize = 0;
        while i < self.0.len()
            invariant
                i <= self@.len(),
                can_evaluate::<F>(self.values(), x.value(), self@.len()),
                i < self@.len() ==> exponential.value() == power::<F>(x.value(), i as nat),
                accum.value() == evaluation::<F>(self.values(), x.value(), i as nat),
            decreases self@.len() - i,
        {
            proof {
                lemma_can_evaluate_prefix::<F>(
                    self.values(),
                    x.value(),
                    (i + 1) as nat,
                    self@.len(),
                );
            }
            accum = accum.add(self.0[i].mul(exponential));
            i += 1;
            if i < self.0.len() {
                proof {
                    lemma_can_evaluate_prefix::<F>(
                        self.values(),
                        x.value(),
                        (i + 1) as nat,
                        self@.len(),
                    );
                }
                exponential = exponential.mul(x);
            }
        }
        accum
    }
}

/// An evaluation that can be computed can be computed up to any lower degree.
pub proof fn lemma_can_evaluate_prefix<F: Field>(c: Seq<F::Value>, x: F::Value, k: nat, n: nat)
    requires
        k <= n,
        can_evaluate::<F>(c, x, n),
    ensures
        can_evaluate::<F>(c, x, k),
    decreases n,
{
    if k < n {
        lemma_can_evaluate_prefix::<F>(c, x, k, (n - 1) as nat);
    }
}

impl<F: Field> Polynom<F> {
    /// The polynomial of the coefficients of `v`, trimmed.
    fn trimmed_from(v: Vec<F>) -> (r: Self)
        ensures
            r@ == v@.take(trimmed_len::<F>(values(v@)) as int),
            r.values() == trimmed::<F>(values(v@)),
            r.is_trimmed(),
    {
        let mut v = v;
        Self::shrink(&mut v);
        Polynom(v)
    }

    /// Stores `value` as the coefficient of degree `idx`, which must be less
    /// than `len()`, and trims the polynomial: storing zero as the leading
    /// coefficient lowers the degree.
    pub fn set(&mut self, idx: usize, value: F)
        requires
            idx < old(self)@.len(),
        ensures
            final(self).values() == trimmed::<F>(old(self).values().update(idx as int, value.value())),
            final(self).is_trimmed(),
    {
        let mut v: Vec<F> = Vec::new();
        std::mem::swap(&mut self.0, &mut v);
        let ghost before = v@;
        v.set(idx, value);
        assert(values(v@) =~= values(before).update(idx as int, value.value()));
        Self::shrink(&mut v);
        self.0 = v;
    }

    /// Replaces `self` by `self + rhs`: the receiver grows to the length of `rhs` where it is shorter, the coefficients of `rhs` are added, and the result is trimmed.
    pub fn add_assign_ref(&mut self, rhs: &Self)
        requires
            can_padded_sum::<F>(old(self).values(), rhs.values()),
        ensures
            final(self).values() == trimmed::<F>(padded_sum::<F>(old(self).values(), rhs.values())),
            final(self).is_trimmed(),
    {
        let mut v: Vec<F> = Vec::new();
        std::mem::swap(&mut self.0, &mut v);
        let ghost before = v@;
        Self::alloc_space(&mut v, rhs.0.len());
        let ghost padded = v@;
        let mut i: usize = 0;
        while i < rhs.0.len()
            invariant
                i <= rhs@.len(),
                rhs@ == rhs.0@,
                v@.len() == padded.len(),
                padded.len() == longer(before.len(), rhs@.len()),
                can_padded_sum::<F>(values(before), rhs.values()),
                forall|j: int| 0 <= j < before.len() ==> padded[j] == before[j],
                forall|j: int|
                    before.len() <= j < padded.len() ==> (#[trigger] padded[j]).value()
                        == F::zero_value(),
                forall|j: int|
                    0 <= j < i ==> (#[trigger] v@[j]).value() == F::add_value(
                        coefficient::<F>(values(before), j),
                        rhs@[j].value(),
                    ),
                forall|j: int| i <= j < v@.len() ==> v@[j] == padded[j],
            decreases rhs@.len() - i,
        {
            proof {
                assert(F::can_add(
                    coefficient::<F>(values(before), i as int),
                    rhs.values()[i as int],
                ));
                assert(v@[i as int] == padded[i as int]);
                assert(v@[i as int].value() == coefficient::<F>(values(before), i as int));
            }
            let updated = v[i].add(rhs.0[i]);
            v.set(i, updated);
            i += 1;
        }
        assert(values(v@) =~= padded_sum::<F>(values(before), rhs.values()));
        Self::shrink(&mut v);
        self.0 = v;
    }

    /// Replaces `self` by `self + rhs`: the receiver grows to the length of `rhs` where it is shorter, the coefficients of `rhs` are added, and the result is trimmed.
    pub fn add_assign(&mut self, rhs: Self)
        requires
            can_padded_sum::<F>(old(self).values(), rhs.values()),
        ensures
            final(self).values() == trimmed::<F>(padded_sum::<F>(old(self).values(), rhs.values())),
            final(self).is_trimmed(),
    {
        self.add_assign_ref(&rhs);
    }

    /// Replaces `self` by `self - rhs`: the receiver grows to the length of `rhs` where it is shorter, the coefficients of `rhs` are subtracted, and the result is trimmed.
    pub fn sub_assign_ref(&mut self, rhs: &Self)
        requires
            can_padded_difference::<F>(old(self).values(), rhs.values()),
        ensures
            final(self).values() == trimmed::<F>(padded_difference::<F>(old(self).values(), rhs.values())),
            final(self).is_trimmed(),
    {
        let mut v: Vec<F> = Vec::new();
        std::mem::swap(&mut self.0, &mut v);
        let ghost before = v@;
        Self::alloc_space(&mut v, rhs.0.len());
        let ghost padded = v@;
        let mut i: usize = 0;
        while i < rhs.0.len()
            invariant
                i <= rhs@.len(),
                rhs@ == rhs.0@,
                v@.len() == padded.len(),
                padded.len() == longer(before.len(), rhs@.len()),
                can_padded_difference::<F>(values(before), rhs.values()),
                forall|j: int| 0 <= j < before.len() ==> padded[j] == before[j],
                forall|j: int|
                    before.len() <= j < padded.len() ==> (#[trigger] padded[j]).value()
                        == F::zero_value(),
                forall|j: int|
                    0 <= j < i ==> (#[trigger] v@[j]).value() == F::sub_value(
                        coefficient::<F>(values(before), j),
                        rhs@[j].value(),
                    ),
                forall|j: int| i <= j < v@.len() ==> v@[j] == padded[j],
            decreases rhs@.len() - i,
        {
            proof {
                assert(F::can_sub(
                    coefficient::<F>(values(before), i as int),
                    rhs.values()[i as int],
                ));
                assert(v@[i as int] == padded[i as int]);
                assert(v@[i as int].value() == coefficient::<F>(values(before), i as int));
            }
            let updated = v[i].sub(rhs.0[i]);
            v.set(i, updated);
            i += 1;
        }
        assert(values(v@) =~= padded_difference::<F>(values(before), rhs.values()));
        Self::shrink(&mut v);
        self.0 = v;
    }

    /// Replaces `self` by `self - rhs`: the receiver grows to the length of `rhs` where it is shorter, the coefficients of `rhs` are subtracted, and the result is trimmed.
    pub fn sub_assign(&mut self, rhs: Self)
        requires
            can_padded_difference::<F>(old(self).values(), rhs.values()),
        ensures
            final(self).values() == trimmed::<F>(padded_difference::<F>(old(self).values(), rhs.values())),
            final(self).is_trimmed(),
    {
        self.sub_assign_ref(&rhs);
    }

    /// Multiplies each coefficient by `scale` and trims: scaling by zero gives the zero polynomial.
    pub fn mul_assign(&mut self, scale: F)
        requires
            can_scale::<F>(old(self).values(), scale.value()),
        ensures
            final(self).values() == trimmed::<F>(scaled::<F>(old(self).values(), scale.value())),
            final(self).is_trimmed(),
    {
        let mut v: Vec<F> = Vec::new();
        std::mem::swap(&mut self.0, &mut v);
        let ghost before = v@;
        let mut i: usize = 0;
        while i < v.len()
            invariant
                i <= v@.len(),
                v@.len() == before.len(),
                can_scale::<F>(values(before), scale.value()),
                forall|j: int|
                    0 <= j < i ==> (#[trigger] v@[j]).value() == F::mul_value(
                        before[j].value(),
                        scale.value(),
                    ),
                forall|j: int| i <= j < v@.len() ==> v@[j] == before[j],
            decreases v@.len() - i,
        {
            assert(F::can_mul(values(before)[i as int], scale.value()));
            let updated = v[i].mul(scale);
            v.set(i, updated);
            i += 1;
        }
        assert(values(v@) =~= scaled::<F>(values(before), scale.value()));
        Self::shrink(&mut v);
        self.0 = v;
    }

    /// Divides each coefficient by `scale` and trims.
    pub fn div_assign(&mut self, scale: F)
        requires
            can_divide::<F>(old(self).values(), scale.value()),
        ensures
            final(self).values() == trimmed::<F>(divided::<F>(old(self).values(), scale.value())),
            final(self).is_trimmed(),
    {
        let mut v: Vec<F> = Vec::new();
        std::mem::swap(&mut self.0, &mut v);
        let ghost before = v@;
        let mut i: usize = 0;
        while i < v.len()
            invariant
                i <= v@.len(),
                v@.len() == before.len(),
                can_divide::<F>(values(before), scale.value()),
                forall|j: int|
                    0 <= j < i ==> (#[trigger] v@[j]).value() == F::div_value(
                        before[j].value(),
                        scale.value(),
                    ),
                forall|j: int| i <= j < v@.len() ==> v@[j] == before[j],
            decreases v@.len() - i,
        {
            assert(F::can_div(values(before)[i as int], scale.value()));
            let updated = v[i].div(scale);
            v.set(i, updated);
            i += 1;
        }
        assert(values(v@) =~= divided::<F>(values(before), scale.value()));
        Self::shrink(&mut v);
        self.0 = v;
    }

}

impl<F: Field> From<Vec<F>> for Polynom<F> {
    /// The polynomial of the coefficients of `v`, without its trailing zeros.
    fn from(v: Vec<F>) -> (r: Self)
        ensures
            r@ == v@.take(trimmed_len::<F>(values(v@)) as int),
            r.values() == trimmed::<F>(values(v@)),
            r.is_trimmed(),
    {
        Polynom::trimmed_from(v)
    }
}

impl<F: Field> FromSpecImpl<Vec<F>> for Polynom<F> {
    open spec fn obeys_from_spec() -> bool {
        false
    }

    open spec fn from_spec(v: Vec<F>) -> Self {
        arbitrary()
    }
}

impl<F: Field, const N: usize> From<[F; N]> for Polynom<F> {
    /// The polynomial of the coefficients of `arr`, without its trailing
    /// zeros.
    fn from(arr: [F; N]) -> (r: Self)
        ensures
            r@ == arr@.take(trimmed_len::<F>(values(arr@)) as int),
            r.values() == trimmed::<F>(values(arr@)),
            r.is_trimmed(),
    {
        let mut v: Vec<F> = Vec::new();
        let mut i: usize = 0;
        while i < N
            invariant
                i <= N,
                v@ == arr@.take(i as int),
            decreases N - i,
        {
            v.push(arr[i]);
            assert(v@ =~= arr@.take(i + 1));
            i += 1;
        }
        assert(v@ =~= arr@);
        Polynom::trimmed_from(v)
    }
}

impl<F: Field, const N: usize> FromSpecImpl<[F; N]> for Polynom<F> {
    open spec fn obeys_from_spec() -> bool {
        false
    }

    open spec fn from_spec(arr: [F; N]) -> Self {
        arbitrary()
    }
}

/// The integers of `s` as fractions `x/1`.
pub open spec fn wholes(s: Seq<Int>) -> Seq<crate::field::fraction::Fraction> {
    Seq::new(s.len(), |i: int| whole(s[i] as int))
}

impl<const N: usize> From<[Int; N]> for Polynom<Rational> {
    /// The polynomial whose coefficients are the integers of `arr`, each as a
    /// rational `x/1`, without its trailing zeros.
    fn from(arr: [Int; N]) -> (r: Self)
        ensures
            r.values() == trimmed::<Rational>(wholes(arr@)),
            r.is_trimmed(),
    {
        let mut v: Vec<Rational> = Vec::new();
        let mut i: usize = 0;
        while i < N
            invariant
                i <= N,
                v@.len() == i,
                forall|j: int| 0 <= j < i ==> (#[trigger] v@[j])@ == whole(arr@[j] as int),
            decreases N - i,
        {
            v.push(Rational::from(arr[i]));
            i += 1;
        }
        assert(values(v@) =~= wholes(arr@));
        Polynom::trimmed_from(v)
    }
}

impl<const N: usize> FromSpecImpl<[Int; N]> for Polynom<Rational> {
    open spec fn obeys_from_spec() -> bool {
        false
    }

    open spec fn from_spec(arr: [Int; N]) -> Self {
        arbitrary()
    }
}

impl<F: Field> Index<usize> for Polynom<F> {
    type Output = F;

    /// The coefficient of degree `idx`, which must be less than `len()`.
    fn index(&self, idx: usize) -> (r: &F)
        ensures
            *r == self@[idx as int],
    {
        &self.0[idx]
    }
}

impl<F: Field> vstd::std_specs::core::IndexSpecImpl<usize> for Polynom<F> {
    open spec fn index_req(&self, idx: &usize) -> bool {
        *idx < self@.len()
    }
}

impl<F: Field> Neg for Polynom<F> {
    type Output = Self;

    /// Negates each coefficient.
    fn neg(self) -> (r: Self)
        ensures
            r.values() == trimmed::<F>(negated::<F>(self.values())),
            r.is_trimmed(),
    {
        let mut v = self.0;
        let ghost before = v@;
        let mut i: usize = 0;
        while i < v.len()
            invariant
                i <= v@.len(),
                v@.len() == before.len(),
                can_negate::<F>(values(before)),
                forall|j: int|
                    0 <= j < i ==> (#[trigger] v@[j]).value() == F::neg_value(before[j].value()),
                forall|j: int| i <= j < v@.len() ==> v@[j] == before[j],
            decreases v@.len() - i,
        {
            assert(F::can_neg(values(before)[i as int]));
            let updated = v[i].neg();
            v.set(i, updated);
            i += 1;
        }
        assert(values(v@) =~= negated::<F>(values(before)));
        Polynom::trimmed_from(v)
    }
}

impl<F: Field> NegSpecImpl for Polynom<F> {
    open spec fn obeys_neg_spec() -> bool {
        false
    }

    open spec fn neg_req(self) -> bool {
        can_negate::<F>(self.values())
    }

    open spec fn neg_spec(self) -> Self {
        arbitrary()
    }
}

impl<F: Field> Add<Self> for Polynom<F> {
    type Output = Self;

    /// The sum, trimmed.
    fn add(self, rhs: Self) -> (r: Self)
        ensures
            r.values() == trimmed::<F>(padded_sum::<F>(self.values(), rhs.values())),
            r.is_trimmed(),
    {
        let mut out = self;
        out.add_assign_ref(&rhs);
        out
    }
}

impl<F: Field> AddSpecImpl<Self> for Polynom<F> {
    open spec fn obeys_add_spec() -> bool {
        false
    }

    open spec fn add_req(self, rhs: Self) -> bool {
        can_padded_sum::<F>(self.values(), rhs.values())
    }

    open spec fn add_spec(self, rhs: Self) -> Self {
        arbitrary()
    }
}

impl<'a, F: Field> Add<&'a Self> for Polynom<F> {
    type Output = Self;

    /// The sum, trimmed.
    fn add(self, rhs: &'a Self) -> (r: Self)
        ensures
            r.values() == trimmed::<F>(padded_sum::<F>(self.values(), rhs.values())),
            r.is_trimmed(),
    {
        let mut out = self;
        out.add_assign_ref(rhs);
        out
    }
}

impl<'a, F: Field> AddSpecImpl<&'a Self> for Polynom<F> {
    open spec fn obeys_add_spec() -> bool {
        false
    }

    open spec fn add_req(self, rhs: &'a Self) -> bool {
        can_padded_sum::<F>(self.values(), rhs.values())
    }

    open spec fn add_spec(self, rhs: &'a Self) -> Self {
        arbitrary()
    }
}

impl<F: Field> Sub<Self> for Polynom<F> {
    type Output = Self;

    /// The difference, trimmed.
    fn sub(self, rhs: Self) -> (r: Self)
        ensures
            r.values() == trimmed::<F>(padded_difference::<F>(self.values(), rhs.values())),
            r.is_trimmed(),
    {
        let mut out = self;
        out.sub_assign_ref(&rhs);
        out
    }
}

impl<F: Field> SubSpecImpl<Self> for Polynom<F> {
    open spec fn obeys_sub_spec() -> bool {
        false
    }

    open spec fn sub_req(self, rhs: Self) -> bool {
        can_padded_difference::<F>(self.values(), rhs.values())
    }

    open spec fn sub_spec(self, rhs: Self) -> Self {
        arbitrary()
    }
}

impl<'a, F: Field> Sub<&'a Self> for Polynom<F> {
    type Output = Self;

    /// The difference, trimmed.
    fn sub(self, rhs: &'a Self) -> (r: Self)
        ensures
            r.values() == trimmed::<F>(padded_difference::<F>(self.values(), rhs.values())),
            r.is_trimmed(),
    {
        let mut out = self;
        out.sub_assign_ref(rhs);
        out
    }
}

impl<'a, F: Field> SubSpecImpl<&'a Self> for Polynom<F> {
    open spec fn obeys_sub_spec() -> bool {
        false
    }

    open spec fn sub_req(self, rhs: &'a Self) -> bool {
        can_padded_difference::<F>(self.values(), rhs.values())
    }

    open spec fn sub_spec(self, rhs: &'a Self) -> Self {
        arbitrary()
    }
}

impl<F: Field> Mul<F> for Polynom<F> {
    type Output = Self;

    /// Scales the polynomial: each coefficient is multiplied by `rhs`.
    fn mul(self, rhs: F) -> (r: Self)
        ensures
            r.values() == trimmed::<F>(scaled::<F>(self.values(), rhs.value())),
            r.is_trimmed(),
    {
        let mut out = self;
        out.mul_assign(rhs);
        out
    }
}

impl<F: Field> MulSpecImpl<F> for Polynom<F> {
    open spec fn obeys_mul_spec() -> bool {
        false
    }

    open spec fn mul_req(self, rhs: F) -> bool {
        can_scale::<F>(self.values(), rhs.value())
    }

    open spec fn mul_spec(self, rhs: F) -> Self {
        arbitrary()
    }
}

impl<F: Field> Div<F> for Polynom<F> {
    type Output = Self;

    /// Divides each coefficient by `rhs`.
    fn div(self, rhs: F) -> (r: Self)
        ensures
            r.values() == trimmed::<F>(divided::<F>(self.values(), rhs.value())),
            r.is_trimmed(),
    {
        let mut out = self;
        out.div_assign(rhs);
        out
    }
}

impl<F: Field> DivSpecImpl<F> for Polynom<F> {
    open spec fn obeys_div_spec() -> bool {
        false
    }

    open spec fn div_req(self, rhs: F) -> bool {
        can_divide::<F>(self.values(), rhs.value())
    }

    open spec fn div_spec(self, rhs: F) -> Self {
        arbitrary()
    }
}

impl Mul<Int> for Polynom<Rational> {
    type Output = Self;

    /// Scales the polynomial by the integer `rhs`, taken as the rational `rhs/1`.
    fn mul(self, rhs: Int) -> (r: Self)
        ensures
            r.values() == trimmed::<Rational>(scaled::<Rational>(self.values(), whole(rhs as int))),
            r.is_trimmed(),
    {
        let mut out = self;
        out.mul_assign(Rational::from(rhs));
        out
    }
}

impl MulSpecImpl<Int> for Polynom<Rational> {
    open spec fn obeys_mul_spec() -> bool {
        false
    }

    open spec fn mul_req(self, rhs: Int) -> bool {
        can_scale::<Rational>(self.values(), whole(rhs as int))
    }

    open spec fn mul_spec(self, rhs: Int) -> Self {
        arbitrary()
    }
}

impl Div<Int> for Polynom<Rational> {
    type Output = Self;

    /// Divides the polynomial by the integer `rhs`, taken as the rational `rhs/1`.
    fn div(self, rhs: Int) -> (r: Self)
        ensures
            r.values() == trimmed::<Rational>(divided::<Rational>(self.values(), whole(rhs as int))),
            r.is_trimmed(),
    {
        let mut out = self;
        out.div_assign(Rational::from(rhs));
        out
    }
}

impl DivSpecImpl<Int> for Polynom<Rational> {
    open spec fn obeys_div_spec() -> bool {
        false
    }

    open spec fn div_req(self, rhs: Int) -> bool {
        can_divide::<Rational>(self.values(), whole(rhs as int))
    }

    open spec fn div_spec(self, rhs: Int) -> Self {
        arbitrary()
    }
}

impl<F: Field> VectorSpace<F> for Polynom<F> {
    /// The zero polynomial has no coefficients.
    open spec fn is_zero(&self) -> bool {
        self@.len() == 0
    }

    fn zero() -> (r: Self) {
        Polynom(Vec::new())
    }
}

/// The text of the term of degree `k` with coefficient `x`: the
/// coefficient, followed from degree 1 on by `x^` and the degree.
pub open spec fn term_text<F: Field>(x: F, k: nat) -> Seq<char> {
    if k == 0 {
        x.text()
    } else {
        x.text() + "x^"@ + decimal(k)
    }
}

/// The text of the terms of degree `k` and more of the coefficients `c`, from
/// the highest degree down: the terms whose coefficient is not zero, with a
/// plus sign before each but the leading one.
pub open spec fn terms_text<F: Field>(c: Seq<F>, k: nat) -> Seq<char>
    decreases c.len() - k,
{
    if k >= c.len() {
        Seq::empty()
    } else {
        let higher = terms_text::<F>(c, k + 1);
        if c[k as int].value() == F::zero_value() {
            higher
        } else if k + 1 < c.len() {
            higher + "+"@ + term_text::<F>(c[k as int], k)
        } else {
            higher + term_text::<F>(c[k as int], k)
        }
    }
}

/// The text of the polynomial of the coefficients `c`: `0` for the zero
/// polynomial, else its terms from the highest degree down, joined by plus
/// signs.
pub open spec fn polynom_text<F: Field>(c: Seq<F>) -> Seq<char> {
    if c.len() == 0 {
        "0"@
    } else {
        terms_text::<F>(c, 0)
    }
}

impl<F: Field> Polynom<F> {
    /// The polynomial in human-readable form, such as `2x^2+1`.
    pub fn to_string(&self) -> (r: String)
        ensures
            r@ == polynom_text::<F>(self@),
    {
        let len = self.0.len();
        if len == 0 {
            return String::from_str("0");
        }
        let zero = F::zero();
        let mut out = String::new();
        let mut i: usize = len;
        assert(out@ =~= terms_text::<F>(self@, len as nat));
        while i > 0
            invariant
                i <= len,
                len == self@.len(),
                len <= usize::MAX,
                zero.value() == F::zero_value(),
                out@ == terms_text::<F>(self@, i as nat),
            decreases i,
        {
            i -= 1;
            if !self.0[i].equals(&zero) {
                if i + 1 < len {
                    out.append("+");
                }
                let coefficient = self.0[i].to_string();
                out.append(coefficient.as_str());
                if i > 0 {
                    out.append("x^");
                    push_decimal(&mut out, i as u64);
                }
            }
            assert(out@ =~= terms_text::<F>(self@, i as nat));
        }
        out
    }
}

} // verus!
