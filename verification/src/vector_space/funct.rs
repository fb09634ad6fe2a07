//! Functions into a field, as expressions that are evaluated on demand.
use vstd::prelude::*;
use vstd::std_specs::ops::AddSpecImpl;
use vstd::std_specs::ops::DivSpecImpl;
use vstd::std_specs::ops::MulSpecImpl;
use vstd::std_specs::ops::NegSpecImpl;
use vstd::std_specs::ops::SubSpecImpl;
use vstd::string::StringExecFns;
use std::ops::Add;
use std::ops::Div;
use std::ops::Mul;
use std::ops::Neg;
use std::ops::Sub;
use crate::field::Field;
use crate::text::listed;
use super::VectorSpace;
use super::texts;

verus! {

/// A total mapping from `S` to `F` that can be called.
///
/// `defined_at` says where the mapping may be called, and `relates` which
/// results a call may give. Every function or closure from `S` to `F` is a
/// mapping, with its own precondition and postcondition.
pub trait Mapping<S, F> {
    /// Whether the mapping may be called at `s`.
    spec fn defined_at(&self, s: S) -> bool;

    /// Whether a call at `s` may return `r`.
    spec fn relates(&self, s: S, r: F) -> bool;

    /// Calls the mapping at `s`.
    fn call(&self, s: S) -> (r: F)
        requires
            self.defined_at(s),
        ensures
            self.relates(s, r),
    ;
}

impl<S, F, G: Fn(S) -> F> Mapping<S, F> for G {
    open spec fn defined_at(&self, s: S) -> bool {
        call_requires(*self, (s,))
    }

    open spec fn relates(&self, s: S, r: F) -> bool {
        call_ensures(*self, (s,), r)
    }

    fn call(&self, s: S) -> (r: F) {
        self(s)
    }
}

/// A function from `S` to the field `F`.
///
/// A function is either a mapping that was given, or an expression over other
/// functions: nothing is computed when functions are combined, and
/// evaluating the expression at a point evaluates its operands there.
#[verifier::reject_recursive_types(S)]
#[verifier::reject_recursive_types(F)]
pub enum Funct<S: Copy + 'static, F: Field> {
    /// A mapping that is called as it is.
    Leaf(Box<dyn Mapping<S, F>>),
    /// `-f`.
    Negated(Box<Funct<S, F>>),
    /// `f + g`.
    Sum(Box<Funct<S, F>>, Box<Funct<S, F>>),
    /// `f - g`.
    Difference(Box<Funct<S, F>>, Box<Funct<S, F>>),
    /// `f + g`, with `g` borrowed for good.
    SumShared(Box<Funct<S, F>>, &'static Funct<S, F>),
    /// `f - g`, with `g` borrowed for good.
    DifferenceShared(Box<Funct<S, F>>, &'static Funct<S, F>),
    /// `f * k`.
    Scaled(Box<Funct<S, F>>, F),
    /// `f / k`.
    Divided(Box<Funct<S, F>>, F),
}

/// A sequence: a function of a non-negative index.
pub type Sequence<F> = Funct<usize, F>;

impl<S: Copy + 'static, F: Field> Funct<S, F> {
    /// Whether `r` may be the result of evaluating the function at `s`: for
    /// a mapping, what a call may return; for an expression, the operation on
    /// the values of what the operands may give.
    pub open spec fn gives(&self, s: S, r: F) -> bool
        decreases self,
    {
        match self {
            Funct::Leaf(f) => f.relates(s, r),
            Funct::Negated(f) => exists|x: F|
                #![trigger x.value()]
                f.gives(s, x) && r.value() == F::neg_value(x.value()),
            Funct::Sum(f, g) => exists|x: F, y: F|
                #![trigger x.value(), y.value()]
                f.gives(s, x) && g.gives(s, y) && r.value() == F::add_value(
                    x.value(),
                    y.value(),
                ),
            Funct::Difference(f, g) => exists|x: F, y: F|
                #![trigger x.value(), y.value()]
                f.gives(s, x) && g.gives(s, y) && r.value() == F::sub_value(
                    x.value(),
                    y.value(),
                ),
            Funct::SumShared(f, g) => exists|x: F, y: F|
                #![trigger x.value(), y.value()]
                f.gives(s, x) && g.gives(s, y) && r.value() == F::add_value(
                    x.value(),
                    y.value(),
                ),
            Funct::DifferenceShared(f, g) => exists|x: F, y: F|
                #![trigger x.value(), y.value()]
                f.gives(s, x) && g.gives(s, y) && r.value() == F::sub_value(
                    x.value(),
                    y.value(),
                ),
            Funct::Scaled(f, k) => exists|x: F|
                #![trigger x.value()]
                f.gives(s, x) && r.value() == F::mul_value(x.value(), k.value()),
            Funct::Divided(f, k) => exists|x: F|
                #![trigger x.value()]
                f.gives(s, x) && r.value() == F::div_value(x.value(), k.value()),
        }
    }

    /// Whether the function can be evaluated at `s`: a mapping may be called
    /// there; the operands of an expression can be evaluated there, and the
    /// operation is defined on whatever they may give.
    pub open spec fn can_apply(&self, s: S) -> bool
        decreases self,
    {
        match self {
            Funct::Leaf(f) => f.defined_at(s),
            Funct::Negated(f) => f.can_apply(s) && forall|x: F|
                #![trigger x.value()]
                f.gives(s, x) ==> F::can_neg(x.value()),
            Funct::Sum(f, g) => f.can_apply(s) && g.can_apply(s) && forall|x: F, y: F|
                #![trigger x.value(), y.value()]
                f.gives(s, x) && g.gives(s, y) ==> F::can_add(
                    x.value(),
                    y.value(),
                ),
            Funct::Difference(f, g) => f.can_apply(s) && g.can_apply(s) && forall|x: F, y: F|
                #![trigger x.value(), y.value()]
                f.gives(s, x) && g.gives(s, y) ==> F::can_sub(
                    x.value(),
                    y.value(),
                ),
            Funct::SumShared(f, g) => f.can_apply(s) && g.can_apply(s) && forall|x: F, y: F|
                #![trigger x.value(), y.value()]
                f.gives(s, x) && g.gives(s, y) ==> F::can_add(
                    x.value(),
                    y.value(),
                ),
            Funct::DifferenceShared(f, g) => f.can_apply(s) && g.can_apply(s) && forall|x: F, y: F|
                #![trigger x.value(), y.value()]
                f.gives(s, x) && g.gives(s, y) ==> F::can_sub(
                    x.value(),
                    y.value(),
                ),
            Funct::Scaled(f, k) => f.can_apply(s) && forall|x: F|
                #![trigger x.value()]
                f.gives(s, x) ==> F::can_mul(x.value(), k.value()),
            Funct::Divided(f, k) => f.can_apply(s) && forall|x: F|
                #![trigger x.value()]
                f.gives(s, x) ==> F::can_div(x.value(), k.value()),
        }
    }

    /// A leaf can be evaluated where its mapping may be called, and gives
    /// what the mapping may return.
    pub proof fn lemma_leaf(self, s: S, r: F)
        requires
            self is Leaf,
        ensures
            self.can_apply(s) == self->Leaf_0.defined_at(s),
            self.gives(s, r) == self->Leaf_0.relates(s, r),
    {
    }

    /// The function that evaluates to what `f` returns.
    pub fn new(f: impl Fn(S) -> F + 'static) -> (r: Self)
        ensures
            r is Leaf,
            forall|s: S| #[trigger] r.can_apply(s) <==> call_requires(f, (s,)),
            forall|s: S, x: F| #[trigger] r.gives(s, x) <==> call_ensures(f, (s,), x),
    {
        let boxed: Box<dyn Mapping<S, F>> = Box::new(f);
        let r = Funct::Leaf(boxed);
        proof {
            assert forall|s: S| #[trigger] r.can_apply(s) <==> call_requires(f, (s,)) by {
                r.lemma_leaf(s, arbitrary());
                assert(f.defined_at(s) == r->Leaf_0.defined_at(s));
            }
            assert forall|s: S, x: F| #[trigger] r.gives(s, x) <==> call_ensures(f, (s,), x) by {
                r.lemma_leaf(s, x);
                assert(f.relates(s, x) == r->Leaf_0.relates(s, x));
            }
        }
        r
    }

    /// Evaluates the function at `s`.
    pub fn apply(&self, s: S) -> (r: F)
        requires
            self.can_apply(s),
        ensures
            self.gives(s, r),
        decreases self,
    {
        match self {
            Funct::Leaf(f) => f.call(s),
            Funct::Negated(f) => {
                let x = f.apply(s);
                x.neg()
            },
            Funct::Sum(f, g) => {
                let x = f.apply(s);
                let y = g.apply(s);
                x.add(y)
            },
            Funct::Difference(f, g) => {
                let x = f.apply(s);
                let y = g.apply(s);
                x.sub(y)
            },
            Funct::SumShared(f, g) => {
                let x = f.apply(s);
                let y = g.apply(s);
                x.add(y)
            },
            Funct::DifferenceShared(f, g) => {
                let x = f.apply(s);
                let y = g.apply(s);
                x.sub(y)
            },
            Funct::Scaled(f, k) => {
                let x = f.apply(s);
                x.mul(*k)
            },
            Funct::Divided(f, k) => {
                let x = f.apply(s);
                x.div(*k)
            },
        }
    }
}

impl<S: Copy + 'static, F: Field> Funct<S, F> {
    /// Replaces `self` by the expression `self + rhs`.
    pub fn add_assign(&mut self, rhs: Self)
        ensures
            *final(self) == Funct::Sum(Box::new(*old(self)), Box::new(rhs)),
    {
        let mut f = Self::zero();
        std::mem::swap(self, &mut f);
        *self = Funct::Sum(Box::new(f), Box::new(rhs));
    }

    /// Replaces `self` by the expression `self + rhs`.
    pub fn add_assign_ref(&mut self, rhs: &'static Self)
        ensures
            *final(self) == Funct::SumShared(Box::new(*old(self)), rhs),
    {
        let mut f = Self::zero();
        std::mem::swap(self, &mut f);
        *self = Funct::SumShared(Box::new(f), rhs);
    }

    /// Replaces `self` by the expression `self - rhs`.
    pub fn sub_assign(&mut self, rhs: Self)
        ensures
            *final(self) == Funct::Difference(Box::new(*old(self)), Box::new(rhs)),
    {
        let mut f = Self::zero();
        std::mem::swap(self, &mut f);
        *self = Funct::Difference(Box::new(f), Box::new(rhs));
    }

    /// Replaces `self` by the expression `self - rhs`.
    pub fn sub_assign_ref(&mut self, rhs: &'static Self)
        ensures
            *final(self) == Funct::DifferenceShared(Box::new(*old(self)), rhs),
    {
        let mut f = Self::zero();
        std::mem::swap(self, &mut f);
        *self = Funct::DifferenceShared(Box::new(f), rhs);
    }

    /// Replaces `self` by the expression `self * scale`.
    pub fn mul_assign(&mut self, scale: F)
        ensures
            *final(self) == Funct::Scaled(Box::new(*old(self)), scale),
    {
        let mut f = Self::zero();
        std::mem::swap(self, &mut f);
        *self = Funct::Scaled(Box::new(f), scale);
    }

    /// Replaces `self` by the expression `self / scale`.
    pub fn div_assign(&mut self, scale: F)
        ensures
            *final(self) == Funct::Divided(Box::new(*old(self)), scale),
    {
        let mut f = Self::zero();
        std::mem::swap(self, &mut f);
        *self = Funct::Divided(Box::new(f), scale);
    }

}

impl<S: Copy + 'static, F: Field> Neg for Funct<S, F> {
    type Output = Self;

    /// The expression `-self`.
    fn neg(self) -> (r: Self) {
        Funct::Negated(Box::new(self))
    }
}

impl<S: Copy + 'static, F: Field> NegSpecImpl for Funct<S, F> {
    open spec fn obeys_neg_spec() -> bool {
        true
    }

    open spec fn neg_req(self) -> bool {
        true
    }

    open spec fn neg_spec(self) -> Self {
        Funct::Negated(Box::new(self))
    }
}

impl<S: Copy + 'static, F: Field> Add<Self> for Funct<S, F> {
    type Output = Self;

    /// The expression `self + rhs`.
    fn add(self, rhs: Self) -> (r: Self) {
        Funct::Sum(Box::new(self), Box::new(rhs))
    }
}

impl<S: Copy + 'static, F: Field> AddSpecImpl<Self> for Funct<S, F> {
    open spec fn obeys_add_spec() -> bool {
        true
    }

    open spec fn add_req(self, rhs: Self) -> bool {
        true
    }

    open spec fn add_spec(self, rhs: Self) -> Self {
        Funct::Sum(Box::new(self), Box::new(rhs))
    }
}

impl<S: Copy + 'static, F: Field> Add<&'static Self> for Funct<S, F> {
    type Output = Self;

    /// The expression `self + rhs`.
    fn add(self, rhs: &'static Self) -> (r: Self) {
        Funct::SumShared(Box::new(self), rhs)
    }
}

impl<S: Copy + 'static, F: Field> AddSpecImpl<&'static Self> for Funct<S, F> {
    open spec fn obeys_add_spec() -> bool {
        true
    }

    open spec fn add_req(self, rhs: &'static Self) -> bool {
        true
    }

    open spec fn add_spec(self, rhs: &'static Self) -> Self {
        Funct::SumShared(Box::new(self), rhs)
    }
}

impl<S: Copy + 'static, F: Field> Sub<Self> for Funct<S, F> {
    type Output = Self;

    /// The expression `self - rhs`.
    fn sub(self, rhs: Self) -> (r: Self) {
        Funct::Difference(Box::new(self), Box::new(rhs))
    }
}

impl<S: Copy + 'static, F: Field> SubSpecImpl<Self> for Funct<S, F> {
    open spec fn obeys_sub_spec() -> bool {
        true
    }

    open spec fn sub_req(self, rhs: Self) -> bool {
        true
    }

    open spec fn sub_spec(self, rhs: Self) -> Self {
        Funct::Difference(Box::new(self), Box::new(rhs))
    }
}

impl<S: Copy + 'static, F: Field> Sub<&'static Self> for Funct<S, F> {
    type Output = Self;

    /// The expression `self - rhs`.
    fn sub(self, rhs: &'static Self) -> (r: Self) {
        Funct::DifferenceShared(Box::new(self), rhs)
    }
}

impl<S: Copy + 'static, F: Field> SubSpecImpl<&'static Self> for Funct<S, F> {
    open spec fn obeys_sub_spec() -> bool {
        true
    }

    open spec fn sub_req(self, rhs: &'static Self) -> bool {
        true
    }

    open spec fn sub_spec(self, rhs: &'static Self) -> Self {
        Funct::DifferenceShared(Box::new(self), rhs)
    }
}

impl<S: Copy + 'static, F: Field> Mul<F> for Funct<S, F> {
    type Output = Self;

    /// The expression `self * rhs`.
    fn mul(self, rhs: F) -> (r: Self) {
        Funct::Scaled(Box::new(self), rhs)
    }
}

impl<S: Copy + 'static, F: Field> MulSpecImpl<F> for Funct<S, F> {
    open spec fn obeys_mul_spec() -> bool {
        true
    }

    open spec fn mul_req(self, rhs: F) -> bool {
        true
    }

    open spec fn mul_spec(self, rhs: F) -> Self {
        Funct::Scaled(Box::new(self), rhs)
    }
}

impl<S: Copy + 'static, F: Field> Div<F> for Funct<S, F> {
    type Output = Self;

    /// The expression `self / rhs`.
    fn div(self, rhs: F) -> (r: Self) {
        Funct::Divided(Box::new(self), rhs)
    }
}

impl<S: Copy + 'static, F: Field> DivSpecImpl<F> for Funct<S, F> {
    open spec fn obeys_div_spec() -> bool {
        true
    }

    open spec fn div_req(self, rhs: F) -> bool {
        true
    }

    open spec fn div_spec(self, rhs: F) -> Self {
        Funct::Divided(Box::new(self), rhs)
    }
}

impl<S: Copy + 'static, F: Field> VectorSpace<F> for Funct<S, F> {
    /// The function can be evaluated everywhere and gives zero everywhere.
    open spec fn is_zero(&self) -> bool {
        &&& forall|s: S| #[trigger] self.can_apply(s)
        &&& forall|s: S, r: F| #[trigger] self.gives(s, r) ==> r.value() == F::zero_value()
    }

    fn zero() -> (r: Self) {
        let constant = |_s: S| -> (r: F)
            ensures
                r.value() == F::zero_value(),
            {
                let z = F::zero();
                z
            };
        Funct::new(constant)
    }
}

/// How many terms of a sequence its text shows.
pub const DISPLAY_LENGTH: usize = 10;

/// The text of a sequence whose first terms are `items`: the terms, each
/// followed by a comma, in parentheses that close after an ellipsis.
pub open spec fn sequence_text(items: Seq<Seq<char>>) -> Seq<char> {
    "("@ + listed(items, ","@, items.len()) + "\u{2026})"@
}

impl<F: Field> Funct<usize, F> {
    /// The first terms of the sequence in human-readable form. The sequence
    /// goes on after them: the text shows its beginning only.
    pub fn to_string(&self) -> (r: String)
        requires
            forall|i: usize| i < DISPLAY_LENGTH ==> #[trigger] self.can_apply(i),
        ensures
            exists|terms: Seq<F>|
                {
                    &&& terms.len() == DISPLAY_LENGTH
                    &&& forall|i: usize| i < DISPLAY_LENGTH ==> self.gives(i, #[trigger] terms[i as int])
                    &&& r@ == sequence_text(texts(terms))
                },
    {
        let mut out = String::from_str("(");
        let ghost mut terms: Seq<F> = Seq::empty();
        let mut i: usize = 0;
        while i < DISPLAY_LENGTH
            invariant
                i <= DISPLAY_LENGTH,
                forall|j: usize| j < DISPLAY_LENGTH ==> #[trigger] self.can_apply(j),
                terms.len() == i,
                forall|j: usize| j < i ==> self.gives(j, #[trigger] terms[j as int]),
                out@ == "("@ + listed(texts(terms), ","@, i as nat),
            decreases DISPLAY_LENGTH - i,
        {
            let term = self.apply(i);
            let text = term.to_string();
            proof {
                let longer = terms.push(term);
                lemma_listed_agrees(texts(terms), texts(longer), ","@, i as nat);
                terms = longer;
            }
            out.append(text.as_str());
            out.append(",");
            assert(out@ =~= "("@ + listed(texts(terms), ","@, (i + 1) as nat));
            i += 1;
        }
        out.append("\u{2026})");
        assert(out@ =~= sequence_text(texts(terms)));
        out
    }
}

/// What is listed of the first `k` items depends on those items only.
pub proof fn lemma_listed_agrees(a: Seq<Seq<char>>, b: Seq<Seq<char>>, end: Seq<char>, k: nat)
    requires
        k <= a.len(),
        k <= b.len(),
        forall|i: int| 0 <= i < k ==> a[i] == b[i],
    ensures
        listed(a, end, k) == listed(b, end, k),
    decreases k,
{
    if k > 0 {
        lemma_listed_agrees(a, b, end, (k - 1) as nat);
    }
}

} // verus!
