//! Fixed-length tuples of scalars.
use vstd::prelude::*;
use vstd::std_specs::convert::FromSpec;
use vstd::std_specs::convert::FromSpecImpl;
use vstd::std_specs::convert::IntoSpecImpl;
use vstd::std_specs::ops::AddSpecImpl;
use vstd::std_specs::ops::DivSpecImpl;
use vstd::std_specs::ops::MulSpecImpl;
use vstd::std_specs::ops::NegSpecImpl;
use vstd::std_specs::ops::SubSpecImpl;
use vstd::string::StringExecFns;
use std::ops::Add;
use std::ops::Div;
use std::ops::Index;
use std::ops::Mul;
use std::ops::Neg;
use std::ops::Sub;
use crate::field::Field;
use crate::field::Int;
use crate::field::Rational;
use crate::field::fraction::lemma_whole_is_simplified;
use crate::field::fraction::whole;
use crate::text::listed;
use super::VectorSpace;
use super::all_in_field;
use super::can_divide;
use super::can_negate;
use super::can_scale;
use super::can_subtract;
use super::can_sum;
use super::difference;
use super::divided;
use super::negated;
use super::scaled;
use super::sum;
use super::texts;
use super::values;
use super::zeros;

verus! {

/// A fixed-size column vector of `N` elements of a field.
#[derive(Debug, PartialEq)]
pub struct Tuple<F: Field, const N: usize>([F; N]);

impl<F: Field, const N: usize> Clone for Tuple<F, N> {
    /// A tuple of the same elements.
    fn clone(&self) -> (r: Self)
        ensures
            r@ == self@,
    {
        Tuple(self.0)
    }
}

impl<F: Field, const N: usize> View for Tuple<F, N> {
    type V = Seq<F>;

    /// The `N` elements in order.
    closed spec fn view(&self) -> Seq<F> {
        self.0@
    }
}

impl<F: Field, const N: usize> Tuple<F, N> {
    /// The values of the `N` elements in order.
    pub open spec fn values(self) -> Seq<F::Value> {
        values(self@)
    }

    /// A tuple has exactly `N` elements.
    pub proof fn lemma_len(self)
        ensures
            self@.len() == N,
            self.values().len() == N,
    {
    }

    /// The factor that `is_parallel` tests with: the quotient of the first
    /// coordinates.
    pub open spec fn ratio(self, other: Self) -> F::Value {
        F::div_value(self@[0].value(), other@[0].value())
    }

    /// Whether coordinate `i` of `other`, scaled by `ratio`, is coordinate
    /// `i` of `self`.
    pub open spec fn scales_to(self, other: Self, i: int) -> bool {
        F::mul_value(other@[i].value(), self.ratio(other)) == self@[i].value()
    }

    /// Whether `is_parallel` is defined: the first coordinates can be
    /// divided, and each later coordinate that the test reaches can be
    /// multiplied by their quotient.
    pub open spec fn can_test_parallel(self, other: Self) -> bool {
        N == 0 || {
            &&& F::can_div(self@[0].value(), other@[0].value())
            &&& forall|i: int|
                1 <= i < N && (forall|j: int| 1 <= j < i ==> self.scales_to(other, j))
                    ==> F::can_mul(#[trigger] other@[i].value(), self.ratio(other))
        }
    }

    /// Whether `self` is `other` scaled by the quotient of their first
    /// coordinates: every coordinate of `other` after the first, times that
    /// quotient, is the coordinate of `self`. Tuples of length 0 are parallel.
    pub fn is_parallel(&self, other: &Self) -> (r: bool)
        requires
            self.can_test_parallel(*other),
        ensures
            r <==> forall|i: int| 1 <= i < N ==> self.scales_to(*other, i),
    {
        if N == 0 {
            return true;
        }
        let scale = self.0[0].div(other.0[0]);
        let mut i: usize = 1;
        while i < N
            invariant
                1 <= i <= N,
                self.can_test_parallel(*other),
                scale.value() == self.ratio(*other),
                forall|j: int| 1 <= j < i ==> self.scales_to(*other, j),
            decreases N - i,
        {
            let scaled = other.0[i].mul(scale);
            if !scaled.equals(&self.0[i]) {
                assert(!self.scales_to(*other, i as int));
                return false;
            }
            i += 1;
        }
        true
    }

    /// Converts each element into the field `G`.
    pub fn into<G: Field + From<F>>(self) -> (r: Tuple<G, N>)
        ensures
            forall|i: int| 0 <= i < N ==> call_ensures(G::from, (self@[i],), #[trigger] r@[i]),
            G::obeys_from_spec() ==> forall|i: int|
                0 <= i < N ==> #[trigger] r@[i] == G::from_spec(self@[i]),
    {
        let mut new_arr = [G::zero();N];
        let mut i: usize = 0;
        while i < N
            invariant
                i <= N,
                forall|j: int| 0 <= j < i ==> call_ensures(G::from, (self@[j],), #[trigger] new_arr@[j]),
                G::obeys_from_spec() ==> forall|j: int|
                    0 <= j < i ==> #[trigger] new_arr@[j] == G::from_spec(self@[j]),
            decreases N - i,
        {
            new_arr[i] = G::from(self.0[i]);
            i += 1;
        }
        Tuple::<G, N>(new_arr)
    }
}

impl<F: Field, const N: usize> Tuple<F, N> {
    /// Replaces `self` by `self + rhs`, coordinate by coordinate.
    pub fn add_assign_ref(&mut self, rhs: &Self)
        requires
            can_sum::<F>(old(self).values(), rhs.values()),
        ensures
            final(self).values() == sum::<F>(old(self).values(), rhs.values()),
    {
        let mut i: usize = 0;
        while i < N
            invariant
                i <= N,
                can_sum::<F>(old(self).values(), rhs.values()),
                forall|j: int|
                    0 <= j < i ==> (#[trigger] self@[j]).value() == F::add_value(
                        old(self)@[j].value(),
                        rhs@[j].value(),
                    ),
                forall|j: int| i <= j < N ==> self@[j] == old(self)@[j],
            decreases N - i,
        {
            assert(F::can_add(old(self).values()[i as int], rhs.values()[i as int]));
            self.0[i] = self.0[i].add(rhs.0[i]);
            i += 1;
        }
        assert(self.values() =~= sum::<F>(old(self).values(), rhs.values()));
    }

    /// Replaces `self` by `self + rhs`, coordinate by coordinate.
    pub fn add_assign(&mut self, rhs: Self)
        requires
            can_sum::<F>(old(self).values(), rhs.values()),
        ensures
            final(self).values() == sum::<F>(old(self).values(), rhs.values()),
    {
        self.add_assign_ref(&rhs);
    }

    /// Replaces `self` by `self - rhs`, coordinate by coordinate.
    pub fn sub_assign_ref(&mut self, rhs: &Self)
        requires
            can_subtract::<F>(old(self).values(), rhs.values()),
        ensures
            final(self).values() == difference::<F>(old(self).values(), rhs.values()),
    {
        let mut i: usize = 0;
        while i < N
            invariant
                i <= N,
                can_subtract::<F>(old(self).values(), rhs.values()),
                forall|j: int|
                    0 <= j < i ==> (#[trigger] self@[j]).value() == F::sub_value(
                        old(self)@[j].value(),
                        rhs@[j].value(),
                    ),
                forall|j: int| i <= j < N ==> self@[j] == old(self)@[j],
            decreases N - i,
        {
            assert(F::can_sub(old(self).values()[i as int], rhs.values()[i as int]));
            self.0[i] = self.0[i].sub(rhs.0[i]);
            i += 1;
        }
        assert(self.values() =~= difference::<F>(old(self).values(), rhs.values()));
    }

    /// Replaces `self` by `self - rhs`, coordinate by coordinate.
    pub fn sub_assign(&mut self, rhs: Self)
        requires
            can_subtract::<F>(old(self).values(), rhs.values()),
        ensures
            final(self).values() == difference::<F>(old(self).values(), rhs.values()),
    {
        self.sub_assign_ref(&rhs);
    }

    /// Multiplies each coordinate by `scale`.
    pub fn mul_assign(&mut self, scale: F)
        requires
            can_scale::<F>(old(self).values(), scale.value()),
        ensures
            final(self).values() == scaled::<F>(old(self).values(), scale.value()),
    {
        let mut i: usize = 0;
        while i < N
            invariant
                i <= N,
                can_scale::<F>(old(self).values(), scale.value()),
                forall|j: int|
                    0 <= j < i ==> (#[trigger] self@[j]).value() == F::mul_value(
                        old(self)@[j].value(),
                        scale.value(),
                    ),
                forall|j: int| i <= j < N ==> self@[j] == old(self)@[j],
            decreases N - i,
        {
            assert(F::can_mul(old(self).values()[i as int], scale.value()));
            self.0[i] = self.0[i].mul(scale);
            i += 1;
        }
        assert(self.values() =~= scaled::<F>(old(self).values(), scale.value()));
    }

    /// Divides each coordinate by `scale`.
    pub fn div_assign(&mut self, scale: F)
        requires
            can_divide::<F>(old(self).values(), scale.value()),
        ensures
            final(self).values() == divided::<F>(old(self).values(), scale.value()),
    {
        let mut i: usize = 0;
        while i < N
            invariant
                i <= N,
                can_divide::<F>(old(self).values(), scale.value()),
                forall|j: int|
                    0 <= j < i ==> (#[trigger] self@[j]).value() == F::div_value(
                        old(self)@[j].value(),
                        scale.value(),
                    ),
                forall|j: int| i <= j < N ==> self@[j] == old(self)@[j],
            decreases N - i,
        {
            assert(F::can_div(old(self).values()[i as int], scale.value()));
            self.0[i] = self.0[i].div(scale);
            i += 1;
        }
        assert(self.values() =~= divided::<F>(old(self).values(), scale.value()));
    }
}

impl<F: Field, const N: usize> From<[F; N]> for Tuple<F, N> {
    /// The tuple of the elements of `arr`.
    fn from(arr: [F; N]) -> (r: Self)
        ensures
            r@ == arr@,
    {
        Tuple(arr)
    }
}

impl<F: Field, const N: usize> FromSpecImpl<[F; N]> for Tuple<F, N> {
    open spec fn obeys_from_spec() -> bool {
        false
    }

    open spec fn from_spec(arr: [F; N]) -> Self {
        arbitrary()
    }
}

impl<const N: usize> From<[Int; N]> for Tuple<Rational, N> {
    /// The tuple of the integers of `arr`, each as a rational `x/1`.
    fn from(arr: [Int; N]) -> (r: Self)
        ensures
            r@.len() == N,
            forall|i: int| 0 <= i < N ==> (#[trigger] r@[i])@ == whole(arr@[i] as int),
            all_in_field::<Rational>(r.values()),
    {
        let mut new_arr = [Rational::zero();N];
        let mut i: usize = 0;
        while i < N
            invariant
                i <= N,
                forall|j: int| 0 <= j < i ==> (#[trigger] new_arr@[j])@ == whole(arr@[j] as int),
            decreases N - i,
        {
            new_arr[i] = Rational::from(arr[i]);
            i += 1;
        }
        let r = Tuple(new_arr);
        proof {
            assert forall|i: int| 0 <= i < r.values().len() implies Rational::in_field(
                #[trigger] r.values()[i],
            ) by {
                lemma_whole_is_simplified(arr@[i] as int);
            }
        }
        r
    }
}

impl<F: Field, const N: usize> Tuple<F, N> {
    /// The array of the elements.
    pub closed spec fn as_array(self) -> [F; N] {
        self.0
    }

    /// The array of the elements holds the elements, in order.
    pub proof fn lemma_as_array(self)
        ensures
            self.as_array()@ == self@,
    {
    }
}

impl<F: Field, const N: usize> Into<[F; N]> for Tuple<F, N> {
    /// The array of the elements.
    fn into(self) -> (r: [F; N]) {
        self.0
    }
}

impl<F: Field, const N: usize> IntoSpecImpl<[F; N]> for Tuple<F, N> {
    open spec fn obeys_into_spec() -> bool {
        true
    }

    open spec fn into_spec(self) -> [F; N] {
        self.as_array()
    }
}

impl<const N: usize> FromSpecImpl<[Int; N]> for Tuple<Rational, N> {
    open spec fn obeys_from_spec() -> bool {
        false
    }

    open spec fn from_spec(arr: [Int; N]) -> Self {
        arbitrary()
    }
}

impl<F: Field, const N: usize> Index<usize> for Tuple<F, N> {
    type Output = F;

    /// The element at `idx`, which must be less than `N`.
    fn index(&self, idx: usize) -> (r: &F)
        ensures
            *r == self@[idx as int],
    {
        &self.0[idx]
    }
}

impl<F: Field, const N: usize> vstd::std_specs::core::IndexSpecImpl<usize> for Tuple<F, N> {
    open spec fn index_req(&self, idx: &usize) -> bool {
        *idx < N
    }
}

impl<F: Field, const N: usize> Tuple<F, N> {
    /// The element at `idx` for writing: what is stored through the result
    /// becomes element `idx`, and the others stay.
    pub fn index_mut(&mut self, idx: usize) -> (r: &mut F)
        requires
            idx < N,
        ensures
            *r == old(self)@[idx as int],
            final(self)@ == old(self)@.update(idx as int, *final(r)),
    {
        &mut self.0[idx]
    }
}

impl<F: Field, const N: usize> Neg for Tuple<F, N> {
    type Output = Self;

    fn neg(self) -> (r: Self)
        ensures
            r.values() == negated::<F>(self.values()),
    {
        let mut out = self;
        let mut i: usize = 0;
        while i < N
            invariant
                i <= N,
                can_negate::<F>(self.values()),
                forall|j: int|
                    0 <= j < i ==> (#[trigger] out@[j]).value() == F::neg_value(self@[j].value()),
                forall|j: int| i <= j < N ==> out@[j] == self@[j],
            decreases N - i,
        {
            assert(F::can_neg(self.values()[i as int]));
            out.0[i] = out.0[i].neg();
            i += 1;
        }
        assert(out.values() =~= negated::<F>(self.values()));
        out
    }
}

impl<F: Field, const N: usize> NegSpecImpl for Tuple<F, N> {
    open spec fn obeys_neg_spec() -> bool {
        false
    }

    open spec fn neg_req(self) -> bool {
        can_negate::<F>(self.values())
    }

    open spec fn neg_spec(self) -> Self {
        arbitrary()
    }
}

impl<F: Field, const N: usize> Add<Self> for Tuple<F, N> {
    type Output = Self;

    fn add(self, rhs: Self) -> (r: Self)
        ensures
            r.values() == sum::<F>(self.values(), rhs.values()),
    {
        let mut out = self;
        out.add_assign_ref(&rhs);
        out
    }
}

impl<F: Field, const N: usize> AddSpecImpl<Self> for Tuple<F, N> {
    open spec fn obeys_add_spec() -> bool {
        false
    }

    open spec fn add_req(self, rhs: Self) -> bool {
        can_sum::<F>(self.values(), rhs.values())
    }

    open spec fn add_spec(self, rhs: Self) -> Self {
        arbitrary()
    }
}

impl<'a, F: Field, const N: usize> Add<&'a Self> for Tuple<F, N> {
    type Output = Self;

    fn add(self, rhs: &'a Self) -> (r: Self)
        ensures
            r.values() == sum::<F>(self.values(), rhs.values()),
    {
        let mut out = self;
        out.add_assign_ref(rhs);
        out
    }
}

impl<'a, F: Field, const N: usize> AddSpecImpl<&'a Self> for Tuple<F, N> {
    open spec fn obeys_add_spec() -> bool {
        false
    }

    open spec fn add_req(self, rhs: &'a Self) -> bool {
        can_sum::<F>(self.values(), rhs.values())
    }

    open spec fn add_spec(self, rhs: &'a Self) -> Self {
        arbitrary()
    }
}

impl<F: Field, const N: usize> Sub<Self> for Tuple<F, N> {
    type Output = Self;

    fn sub(self, rhs: Self) -> (r: Self)
        ensures
            r.values() == difference::<F>(self.values(), rhs.values()),
    {
        let mut out = self;
        out.sub_assign_ref(&rhs);
        out
    }
}

impl<F: Field, const N: usize> SubSpecImpl<Self> for Tuple<F, N> {
    open spec fn obeys_sub_spec() -> bool {
        false
    }

    open spec fn sub_req(self, rhs: Self) -> bool {
        can_subtract::<F>(self.values(), rhs.values())
    }

    open spec fn sub_spec(self, rhs: Self) -> Self {
        arbitrary()
    }
}

impl<'a, F: Field, const N: usize> Sub<&'a Self> for Tuple<F, N> {
    type Output = Self;

    fn sub(self, rhs: &'a Self) -> (r: Self)
        ensures
            r.values() == difference::<F>(self.values(), rhs.values()),
    {
        let mut out = self;
        out.sub_assign_ref(rhs);
        out
    }
}

impl<'a, F: Field, const N: usize> SubSpecImpl<&'a Self> for Tuple<F, N> {
    open spec fn obeys_sub_spec() -> bool {
        false
    }

    open spec fn sub_req(self, rhs: &'a Self) -> bool {
        can_subtract::<F>(self.values(), rhs.values())
    }

    open spec fn sub_spec(self, rhs: &'a Self) -> Self {
        arbitrary()
    }
}

impl<F: Field, const N: usize> Mul<F> for Tuple<F, N> {
    type Output = Self;

    /// Scales the tuple: each coordinate is multiplied by `rhs`.
    fn mul(self, rhs: F) -> (r: Self)
        ensures
            r.values() == scaled::<F>(self.values(), rhs.value()),
    {
        let mut out = self;
        out.mul_assign(rhs);
        out
    }
}

impl<F: Field, const N: usize> MulSpecImpl<F> for Tuple<F, N> {
    open spec fn obeys_mul_spec() -> bool {
        false
    }

    open spec fn mul_req(self, rhs: F) -> bool {
        can_scale::<F>(self.values(), rhs.value())
    }

    open spec fn mul_spec(self, rhs: F) -> Self {
        arbitrary()
    }
}

impl<F: Field, const N: usize> Div<F> for Tuple<F, N> {
    type Output = Self;

    /// Divides each coordinate by `rhs`.
    fn div(self, rhs: F) -> (r: Self)
        ensures
            r.values() == divided::<F>(self.values(), rhs.value()),
    {
        let mut out = self;
        out.div_assign(rhs);
        out
    }
}

impl<F: Field, const N: usize> DivSpecImpl<F> for Tuple<F, N> {
    open spec fn obeys_div_spec() -> bool {
        false
    }

    open spec fn div_req(self, rhs: F) -> bool {
        can_divide::<F>(self.values(), rhs.value())
    }

    open spec fn div_spec(self, rhs: F) -> Self {
        arbitrary()
    }
}

impl<const N: usize> Mul<Int> for Tuple<Rational, N> {
    type Output = Self;

    /// Scales the tuple by the integer `rhs`, taken as the rational `rhs/1`.
    fn mul(self, rhs: Int) -> (r: Self)
        ensures
            r.values() == scaled::<Rational>(self.values(), whole(rhs as int)),
    {
        let mut out = self;
        out.mul_assign(Rational::from(rhs));
        out
    }
}

impl<const N: usize> MulSpecImpl<Int> for Tuple<Rational, N> {
    open spec fn obeys_mul_spec() -> bool {
        false
    }

    open spec fn mul_req(self, rhs: Int) -> bool {
        can_scale::<Rational>(self.values(), whole(rhs as int))
    }

    open spec fn mul_spec(self, rhs: Int) -> Self {
        arbitrary()
    }
}

impl<const N: usize> Div<Int> for Tuple<Rational, N> {
    type Output = Self;

    /// Divides the tuple by the integer `rhs`, taken as the rational `rhs/1`.
    fn div(self, rhs: Int) -> (r: Self)
        ensures
            r.values() == divided::<Rational>(self.values(), whole(rhs as int)),
    {
        let mut out = self;
        out.div_assign(Rational::from(rhs));
        out
    }
}

impl<const N: usize> DivSpecImpl<Int> for Tuple<Rational, N> {
    open spec fn obeys_div_spec() -> bool {
        false
    }

    open spec fn div_req(self, rhs: Int) -> bool {
        can_divide::<Rational>(self.values(), whole(rhs as int))
    }

    open spec fn div_spec(self, rhs: Int) -> Self {
        arbitrary()
    }
}

impl<F: Field, const N: usize> VectorSpace<F> for Tuple<F, N> {
    /// Every coordinate is the zero of the field.
    open spec fn is_zero(&self) -> bool {
        self.values() == zeros::<F>(N as nat)
    }

    fn zero() -> (r: Self) {
        let r = Tuple([F::zero();N]);
        assert(r.values() =~= zeros::<F>(N as nat));
        r
    }
}

/// Round trip: where `t` is the tuple made from the integers `arr` and
/// `back` is the array that `t` is turned into, each rational of `back` is the
/// integer of `arr` at its place.
pub proof fn lemma_integers_round_trip<const N: usize>(
    arr: [Int; N],
    t: Tuple<Rational, N>,
    back: [Rational; N],
)
    requires
        forall|i: int| 0 <= i < N ==> (#[trigger] t@[i])@ == whole(arr@[i] as int),
        back == t.as_array(),
    ensures
        forall|i: int|
            0 <= i < N ==> (#[trigger] back@[i]).num == arr@[i] && back@[i].denom == 1,
{
    t.lemma_len();
    t.lemma_as_array();
}

/// The text of a tuple of the given `items`: in parentheses, separated by a
/// comma and a space; a fixed text for the tuple of length 0.
pub open spec fn tuple_text(items: Seq<Seq<char>>) -> Seq<char> {
    if items.len() == 0 {
        "(empty tuple)"@
    } else {
        "("@ + listed(items, ", "@, (items.len() - 1) as nat) + items.last() + ")"@
    }
}

impl<F: Field, const N: usize> Tuple<F, N> {
    /// The tuple in human-readable form.
    pub fn to_string(&self) -> (r: String)
        ensures
            r@ == tuple_text(texts(self@)),
    {
        if N == 0 {
            return String::from_str("(empty tuple)");
        }
        let mut out = String::from_str("(");
        let mut i: usize = 0;
        while i < N - 1
            invariant
                N > 0,
                i <= N - 1,
                out@ == "("@ + listed(texts(self@), ", "@, i as nat),
            decreases N - 1 - i,
        {
            let element = self.0[i].to_string();
            out.append(element.as_str());
            out.append(", ");
            assert(out@ =~= "("@ + listed(texts(self@), ", "@, (i + 1) as nat));
            i += 1;
        }
        let element = self.0[N - 1].to_string();
        out.append(element.as_str());
        out.append(")");
        assert(out@ =~= tuple_text(texts(self@)));
        out
    }
}

} // verus!
