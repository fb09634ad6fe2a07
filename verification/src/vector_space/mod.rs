//! Vector spaces over a [`Field`]: the contract and the containers that meet
//! it, with the arithmetic of coordinate sequences that their contracts share.
use vstd::prelude::*;
use std::ops::Add;
use std::ops::Div;
use std::ops::Mul;
use std::ops::Neg;
use std::ops::Sub;
use crate::field::Field;

pub mod funct;
pub mod laws;
pub mod matrix;
pub mod polynom;
pub mod tuple;
pub mod zero;

pub use funct::Funct;
pub use funct::Mapping;
pub use funct::Sequence;
pub use matrix::Matrix;
pub use polynom::Polynom;
pub use tuple::Tuple;
pub use zero::Zero;

verus! {

/// A vector type over the scalar field `Scalar`.
///
/// Vectors are negated, added and subtracted, and scaled by a scalar or by
/// its inverse; `zero()` is the identity of addition.
pub trait VectorSpace<Scalar: Field>: Sized + Neg<Output = Self> + Add<Self, Output = Self> + Sub<
    Self,
    Output = Self,
> + Mul<Scalar, Output = Self> + Div<Scalar, Output = Self> {
    /// Whether this vector is the zero vector of the space. The body here
    /// says nothing: each vector type that is verified defines its own.
    open spec fn is_zero(&self) -> bool {
        arbitrary()
    }

    /// Returns the zero element of the vector space.
    fn zero() -> (r: Self)
        ensures
            r.is_zero(),
    ;
}

/// The values of a sequence of scalars.
pub open spec fn values<F: Field>(s: Seq<F>) -> Seq<F::Value> {
    Seq::new(s.len(), |i: int| s[i].value())
}

/// The texts of a sequence of scalars.
pub open spec fn texts<F: Field>(s: Seq<F>) -> Seq<Seq<char>> {
    Seq::new(s.len(), |i: int| s[i].text())
}

/// Whether every value of `a` belongs to the field.
pub open spec fn all_in_field<F: Field>(a: Seq<F::Value>) -> bool {
    forall|i: int| 0 <= i < a.len() ==> F::in_field(#[trigger] a[i])
}

/// The sequence of `n` zeros.
pub open spec fn zeros<F: Field>(n: nat) -> Seq<F::Value> {
    Seq::new(n, |i: int| F::zero_value())
}

/// The coordinates of `-a`.
pub open spec fn negated<F: Field>(a: Seq<F::Value>) -> Seq<F::Value> {
    Seq::new(a.len(), |i: int| F::neg_value(a[i]))
}

/// The coordinates of `a + b`, for sequences of one length.
pub open spec fn sum<F: Field>(a: Seq<F::Value>, b: Seq<F::Value>) -> Seq<F::Value> {
    Seq::new(a.len(), |i: int| F::add_value(a[i], b[i]))
}

/// The coordinates of `a - b`, for sequences of one length.
pub open spec fn difference<F: Field>(a: Seq<F::Value>, b: Seq<F::Value>) -> Seq<F::Value> {
    Seq::new(a.len(), |i: int| F::sub_value(a[i], b[i]))
}

/// The coordinates of `a` scaled by `k`: each is multiplied by `k` on the
/// right.
pub open spec fn scaled<F: Field>(a: Seq<F::Value>, k: F::Value) -> Seq<F::Value> {
    Seq::new(a.len(), |i: int| F::mul_value(a[i], k))
}

/// The coordinates of `a` divided by `k`.
pub open spec fn divided<F: Field>(a: Seq<F::Value>, k: F::Value) -> Seq<F::Value> {
    Seq::new(a.len(), |i: int| F::div_value(a[i], k))
}

/// Whether each coordinate of `a` can be negated.
pub open spec fn can_negate<F: Field>(a: Seq<F::Value>) -> bool {
    forall|i: int| 0 <= i < a.len() ==> F::can_neg(#[trigger] a[i])
}

/// Whether the coordinates of `a` and `b` can be added pairwise.
pub open spec fn can_sum<F: Field>(a: Seq<F::Value>, b: Seq<F::Value>) -> bool {
    forall|i: int| 0 <= i < a.len() ==> F::can_add(#[trigger] a[i], b[i])
}

/// Whether the coordinates of `b` can be subtracted pairwise from those of
/// `a`.
pub open spec fn can_subtract<F: Field>(a: Seq<F::Value>, b: Seq<F::Value>) -> bool {
    forall|i: int| 0 <= i < a.len() ==> F::can_sub(#[trigger] a[i], b[i])
}

/// Whether each coordinate of `a` can be multiplied by `k`.
pub open spec fn can_scale<F: Field>(a: Seq<F::Value>, k: F::Value) -> bool {
    forall|i: int| 0 <= i < a.len() ==> F::can_mul(#[trigger] a[i], k)
}

/// Whether each coordinate of `a` can be divided by `k`.
pub open spec fn can_divide<F: Field>(a: Seq<F::Value>, k: F::Value) -> bool {
    forall|i: int| 0 <= i < a.len() ==> F::can_div(#[trigger] a[i], k)
}

/// The sum of the first `n` products `a[i] * b[i]`, accumulated from zero in
/// the order of the indices.
pub open spec fn dot<F: Field>(a: Seq<F::Value>, b: Seq<F::Value>, n: nat) -> F::Value
    decreases n,
{
    if n == 0 {
        F::zero_value()
    } else {
        F::add_value(dot::<F>(a, b, (n - 1) as nat), F::mul_value(a[n - 1], b[n - 1]))
    }
}

/// Whether every product and every partial sum of `dot(a, b, n)` is defined.
pub open spec fn can_dot<F: Field>(a: Seq<F::Value>, b: Seq<F::Value>, n: nat) -> bool
    decreases n,
{
    n == 0 || {
        &&& can_dot::<F>(a, b, (n - 1) as nat)
        &&& F::can_mul(a[n - 1], b[n - 1])
        &&& F::can_add(dot::<F>(a, b, (n - 1) as nat), F::mul_value(a[n - 1], b[n - 1]))
    }
}

/// The values of a grid of scalars, row by row.
pub open spec fn grid_values<F: Field>(g: Seq<Seq<F>>) -> Seq<Seq<F::Value>> {
    Seq::new(g.len(), |i: int| values(g[i]))
}

/// Whether `g` has `m` rows of `n` entries each.
pub open spec fn is_grid<V>(g: Seq<Seq<V>>, m: nat, n: nat) -> bool {
    &&& g.len() == m
    &&& forall|i: int| 0 <= i < m ==> (#[trigger] g[i]).len() == n
}

/// Column `j` of the grid `g`: entry `j` of each row.
pub open spec fn column<V>(g: Seq<Seq<V>>, j: int) -> Seq<V> {
    Seq::new(g.len(), |k: int| g[k][j])
}

/// The grid of `m` rows of `n` zeros.
pub open spec fn grid_zeros<F: Field>(m: nat, n: nat) -> Seq<Seq<F::Value>> {
    Seq::new(m, |i: int| zeros::<F>(n))
}

/// The entries of `-a`.
pub open spec fn grid_negated<F: Field>(a: Seq<Seq<F::Value>>) -> Seq<Seq<F::Value>> {
    Seq::new(a.len(), |i: int| negated::<F>(a[i]))
}

/// The entries of `a + b`, for grids of one shape.
pub open spec fn grid_sum<F: Field>(a: Seq<Seq<F::Value>>, b: Seq<Seq<F::Value>>) -> Seq<
    Seq<F::Value>,
> {
    Seq::new(a.len(), |i: int| sum::<F>(a[i], b[i]))
}

/// The entries of `a - b`, for grids of one shape.
pub open spec fn grid_difference<F: Field>(a: Seq<Seq<F::Value>>, b: Seq<Seq<F::Value>>) -> Seq<
    Seq<F::Value>,
> {
    Seq::new(a.len(), |i: int| difference::<F>(a[i], b[i]))
}

/// The entries of `a`, each multiplied by `k`.
pub open spec fn grid_scaled<F: Field>(a: Seq<Seq<F::Value>>, k: F::Value) -> Seq<Seq<F::Value>> {
    Seq::new(a.len(), |i: int| scaled::<F>(a[i], k))
}

/// The entries of `a`, each divided by `k`.
pub open spec fn grid_divided<F: Field>(a: Seq<Seq<F::Value>>, k: F::Value) -> Seq<Seq<F::Value>> {
    Seq::new(a.len(), |i: int| divided::<F>(a[i], k))
}

/// Whether every entry of `a` can be negated.
pub open spec fn can_grid_negate<F: Field>(a: Seq<Seq<F::Value>>) -> bool {
    forall|i: int| 0 <= i < a.len() ==> can_negate::<F>(#[trigger] a[i])
}

/// Whether the entries of `a` and `b` can be added pairwise.
pub open spec fn can_grid_sum<F: Field>(a: Seq<Seq<F::Value>>, b: Seq<Seq<F::Value>>) -> bool {
    forall|i: int| 0 <= i < a.len() ==> can_sum::<F>(#[trigger] a[i], b[i])
}

/// Whether the entries of `b` can be subtracted pairwise from those of `a`.
pub open spec fn can_grid_subtract<F: Field>(a: Seq<Seq<F::Value>>, b: Seq<Seq<F::Value>>) -> bool {
    forall|i: int| 0 <= i < a.len() ==> can_subtract::<F>(#[trigger] a[i], b[i])
}

/// Whether every entry of `a` can be multiplied by `k`.
pub open spec fn can_grid_scale<F: Field>(a: Seq<Seq<F::Value>>, k: F::Value) -> bool {
    forall|i: int| 0 <= i < a.len() ==> can_scale::<F>(#[trigger] a[i], k)
}

/// Whether every entry of `a` can be divided by `k`.
pub open spec fn can_grid_divide<F: Field>(a: Seq<Seq<F::Value>>, k: F::Value) -> bool {
    forall|i: int| 0 <= i < a.len() ==> can_divide::<F>(#[trigger] a[i], k)
}

/// The matrix product of `a` and `b`, where `b` has as many rows as `a` has
/// columns and the product has `n` columns: entry `(i, j)` is the dot product
/// of row `i` of `a` and column `j` of `b`.
pub open spec fn product<F: Field>(a: Seq<Seq<F::Value>>, b: Seq<Seq<F::Value>>, n: nat) -> Seq<
    Seq<F::Value>,
> {
    Seq::new(a.len(), |i: int| Seq::new(n, |j: int| dot::<F>(a[i], column(b, j), b.len())))
}

/// Whether every entry of `product(a, b, n)` can be computed.
pub open spec fn can_multiply<F: Field>(a: Seq<Seq<F::Value>>, b: Seq<Seq<F::Value>>, n: nat) -> bool {
    forall|i: int, j: int|
        0 <= i < a.len() && 0 <= j < n ==> can_dot::<F>(#[trigger] a[i], #[trigger] column(b, j), b.len())
}

/// A dot product that can be computed can be computed up to any shorter
/// length.
pub proof fn lemma_can_dot_prefix<F: Field>(a: Seq<F::Value>, b: Seq<F::Value>, k: nat, n: nat)
    requires
        k <= n,
        can_dot::<F>(a, b, n),
    ensures
        can_dot::<F>(a, b, k),
    decreases n,
{
    if k < n {
        lemma_can_dot_prefix::<F>(a, b, k, (n - 1) as nat);
    }
}

} // verus!
