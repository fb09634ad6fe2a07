//! Parameterized lines.
use vstd::prelude::*;
use vstd::string::StringExecFns;
use crate::field::ExactField;
use crate::field::Field;
use crate::vector_space::Tuple;
use crate::vector_space::all_in_field;
use crate::vector_space::can_scale;
use crate::vector_space::can_subtract;
use crate::vector_space::can_sum;
use crate::vector_space::difference;
use crate::vector_space::laws::lemma_mul_zero;
use crate::vector_space::scaled;
use crate::vector_space::sum;
use crate::vector_space::texts;
use crate::vector_space::tuple::tuple_text;

verus! {

/// A line in N-dimensional space: the points `initial + t * direction`.
#[derive(Debug, PartialEq)]
pub struct Line<F: Field, const N: usize> {
    initial: Tuple<F, N>,
    direction: Tuple<F, N>,
}

impl<F: Field, const N: usize> Clone for Line<F, N> {
    /// The same line.
    fn clone(&self) -> (r: Self)
        ensures
            r.initial()@ == self.initial()@,
            r.direction()@ == self.direction()@,
    {
        Line { initial: self.initial.clone(), direction: self.direction.clone() }
    }
}

impl<F: Field, const N: usize> Line<F, N> {
    /// The point of the line at `t = 0`.
    pub closed spec fn initial(self) -> Tuple<F, N> {
        self.initial
    }

    /// The vector from the point at `t = 0` to the point at `t = 1`.
    pub closed spec fn direction(self) -> Tuple<F, N> {
        self.direction
    }

    /// Creates a new line with the given initial point and direction vector.
    pub fn new(initial: Tuple<F, N>, direction: Tuple<F, N>) -> (r: Self)
        ensures
            r.initial() == initial,
            r.direction() == direction,
    {
        Line { initial, direction }
    }

    /// Creates a new line which starts at `from` and passes through `to` at
    /// `t = 1`: its direction is `to - from`.
    pub fn through_points(from: Tuple<F, N>, to: Tuple<F, N>) -> (r: Self)
        requires
            can_subtract::<F>(to.values(), from.values()),
        ensures
            r.initial() == from,
            r.direction().values() == difference::<F>(to.values(), from.values()),
    {
        let direction = to - &from;
        let initial = from;
        Line { initial, direction }
    }

    /// Whether the line can be evaluated at `t`: the direction can be scaled
    /// by `t`, and the initial point added to the result.
    pub open spec fn can_eval_at(self, t: F) -> bool {
        &&& can_scale::<F>(self.direction().values(), t.value())
        &&& can_sum::<F>(
            scaled::<F>(self.direction().values(), t.value()),
            self.initial().values(),
        )
    }

    /// Evaluates the parameterized version of the line at time `t`: returns
    /// `direction * t + initial`.
    pub fn eval_at(&self, t: F) -> (r: Tuple<F, N>)
        requires
            self.can_eval_at(t),
        ensures
            r.values() == sum::<F>(
                scaled::<F>(self.direction().values(), t.value()),
                self.initial().values(),
            ),
    {
        (self.direction.clone() * t) + &self.initial
    }

    /// The line in human-readable form: the initial point, `+t`, and the
    /// direction.
    pub fn to_string(&self) -> (r: String)
        ensures
            r@ == tuple_text(texts(self.initial()@)) + "+t"@ + tuple_text(
                texts(self.direction()@),
            ),
    {
        let mut out = self.initial.to_string();
        out.append("+t");
        let direction = self.direction.to_string();
        out.append(direction.as_str());
        out
    }
}

/// At `t = 0` a line is at its initial point: over an exact field,
/// `direction * 0 + initial` is `initial`, coordinate by coordinate.
pub proof fn lemma_at_zero_is_initial<F: ExactField>(
    direction: Seq<F::Value>,
    initial: Seq<F::Value>,
)
    requires
        direction.len() == initial.len(),
        all_in_field::<F>(direction),
        all_in_field::<F>(initial),
    ensures
        sum::<F>(scaled::<F>(direction, F::zero_value()), initial) == initial,
{
    let at_zero = sum::<F>(scaled::<F>(direction, F::zero_value()), initial);
    assert forall|i: int| 0 <= i < initial.len() implies #[trigger] at_zero[i] == initial[i] by {
        assert(F::in_field(direction[i]));
        assert(F::in_field(initial[i]));
        F::lemma_identities();
        lemma_mul_zero::<F>(direction[i]);
        F::lemma_add_commutative(F::zero_value(), initial[i]);
        F::lemma_add_zero(initial[i]);
    }
    assert(at_zero =~= initial);
}

} // verus!
