//! Parameterized planes.
use vstd::prelude::*;
use vstd::string::StringExecFns;
use crate::field::Field;
use crate::vector_space::Tuple;
use crate::vector_space::can_scale;
use crate::vector_space::can_subtract;
use crate::vector_space::can_sum;
use crate::vector_space::difference;
use crate::vector_space::scaled;
use crate::vector_space::sum;
use crate::vector_space::texts;
use crate::vector_space::tuple::tuple_text;

verus! {

/// A plane in N-dimensional space: the points
/// `initial + t * direction_1 + s * direction_2`. The two directions are
/// meant not to be parallel.
#[derive(Debug, PartialEq)]
pub struct Plane<F: Field, const N: usize> {
    initial: Tuple<F, N>,
    direction_1: Tuple<F, N>,
    direction_2: Tuple<F, N>,
}

impl<F: Field, const N: usize> Clone for Plane<F, N> {
    /// The same plane.
    fn clone(&self) -> (r: Self)
        ensures
            r.initial()@ == self.initial()@,
            r.direction_1()@ == self.direction_1()@,
            r.direction_2()@ == self.direction_2()@,
    {
        Plane {
            initial: self.initial.clone(),
            direction_1: self.direction_1.clone(),
            direction_2: self.direction_2.clone(),
        }
    }
}

impl<F: Field, const N: usize> Plane<F, N> {
    /// The point of the plane at `(t, s) = (0, 0)`.
    pub closed spec fn initial(self) -> Tuple<F, N> {
        self.initial
    }

    /// The vector from the initial point to the point at `(t, s) = (1, 0)`.
    pub closed spec fn direction_1(self) -> Tuple<F, N> {
        self.direction_1
    }

    /// The vector from the initial point to the point at `(t, s) = (0, 1)`.
    pub closed spec fn direction_2(self) -> Tuple<F, N> {
        self.direction_2
    }

    /// Creates a new plane with the given initial point and direction
    /// vectors.
    pub fn new(initial: Tuple<F, N>, direction_1: Tuple<F, N>, direction_2: Tuple<F, N>) -> (r:
        Self)
        ensures
            r.initial() == initial,
            r.direction_1() == direction_1,
            r.direction_2() == direction_2,
    {
        Plane { initial, direction_1, direction_2 }
    }

    /// Creates a new plane which passes through `origin` at
    /// `(t, s) = (0, 0)`, through `first` at `(1, 0)` and through `second`
    /// at `(0, 1)`: its directions are `first - origin` and
    /// `second - origin`.
    pub fn through_points(origin: Tuple<F, N>, first: Tuple<F, N>, second: Tuple<F, N>) -> (r:
        Self)
        requires
            can_subtract::<F>(first.values(), origin.values()),
            can_subtract::<F>(second.values(), origin.values()),
        ensures
            r.initial() == origin,
            r.direction_1().values() == difference::<F>(first.values(), origin.values()),
            r.direction_2().values() == difference::<F>(second.values(), origin.values()),
    {
        let direction_1 = first - &origin;
        let direction_2 = second - &origin;
        let initial = origin;
        Plane { initial, direction_1, direction_2 }
    }

    /// Whether the plane can be evaluated at `(t, s)`: each direction can be
    /// scaled by its parameter, and the results and the initial point added
    /// up in that order.
    pub open spec fn can_eval_at(self, t: F, s: F) -> bool {
        &&& can_scale::<F>(self.direction_1().values(), t.value())
        &&& can_scale::<F>(self.direction_2().values(), s.value())
        &&& can_sum::<F>(
            scaled::<F>(self.direction_1().values(), t.value()),
            scaled::<F>(self.direction_2().values(), s.value()),
        )
        &&& can_sum::<F>(
            sum::<F>(
                scaled::<F>(self.direction_1().values(), t.value()),
                scaled::<F>(self.direction_2().values(), s.value()),
            ),
            self.initial().values(),
        )
    }

    /// Evaluates the parameterized version of the plane at the parameters
    /// `t` and `s`: returns `direction_1 * t + direction_2 * s + initial`.
    pub fn eval_at(&self, t: F, s: F) -> (r: Tuple<F, N>)
        requires
            self.can_eval_at(t, s),
        ensures
            r.values() == sum::<F>(
                sum::<F>(
                    scaled::<F>(self.direction_1().values(), t.value()),
                    scaled::<F>(self.direction_2().values(), s.value()),
                ),
                self.initial().values(),
            ),
    {
        (self.direction_1.clone() * t) + (self.direction_2.clone() * s) + &self.initial
    }

    /// The plane in human-readable form: the initial point, `+t` and the
    /// first direction, `+s` and the second.
    pub fn to_string(&self) -> (r: String)
        ensures
            r@ == tuple_text(texts(self.initial()@)) + "+t"@ + tuple_text(
                texts(self.direction_1()@),
            ) + "+s"@ + tuple_text(texts(self.direction_2()@)),
    {
        let mut out = self.initial.to_string();
        out.append("+t");
        let first = self.direction_1.to_string();
        out.append(first.as_str());
        out.append("+s");
        let second = self.direction_2.to_string();
        out.append(second.as_str());
        out
    }
}

} // verus!
