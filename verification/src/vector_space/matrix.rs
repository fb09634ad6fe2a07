//! Fixed-size matrices of scalars.
use vstd::prelude::*;
use vstd::std_specs::convert::FromSpecImpl;
use vstd::std_specs::ops::AddSpecImpl;
use vstd::std_specs::ops::DivSpecImpl;
use vstd::std_specs::ops::MulSpecImpl;
use vstd::std_specs::ops::NegSpecImpl;
use vstd::std_specs::ops::SubSpecImpl;
use std::ops::Add;
use std::ops::Div;
use std::ops::Index;
use std::ops::Mul;
use std::ops::Neg;
use std::ops::Sub;
use crate::field::ExactField;
use crate::field::Field;
use crate::field::Int;
use crate::field::Rational;
use crate::field::fraction::lemma_whole_is_simplified;
use crate::field::fraction::whole;
use super::VectorSpace;
use super::all_in_field;
use super::can_divide;
use super::can_dot;
use super::can_grid_divide;
use super::can_grid_negate;
use super::can_grid_scale;
use super::can_grid_subtract;
use super::can_grid_sum;
use super::can_multiply;
use super::can_negate;
use super::can_scale;
use super::can_subtract;
use super::can_sum;
use super::column;
use super::dot;
use super::grid_difference;
use super::grid_divided;
use super::grid_negated;
use super::grid_scaled;
use super::grid_sum;
use super::grid_values;
use super::grid_zeros;
use super::laws::grid_in_field;
use super::laws::lemma_product_associative;
use super::lemma_can_dot_prefix;
use super::product;
use super::values;

verus! {

/// A matrix of `M` rows and `N` columns over a field, stored row by row.
#[derive(Debug, PartialEq)]
pub struct Matrix<F: Field, const M: usize, const N: usize>([[F; N]; M]);

impl<F: Field, const M: usize, const N: usize> Clone for Matrix<F, M, N> {
    /// The same matrix.
    fn clone(&self) -> (r: Self)
        ensures
            r == *self,
    {
        Matrix(self.0)
    }
}

impl<F: Field, const M: usize, const N: usize> Copy for Matrix<F, M, N> {

}

impl<F: Field, const M: usize, const N: usize> View for Matrix<F, M, N> {
    type V = Seq<Seq<F>>;

    /// The `M` rows in order, each of `N` entries.
    closed spec fn view(&self) -> Seq<Seq<F>> {
        Seq::new(M as nat, |i: int| self.0@[i]@)
    }
}

impl<F: Field, const M: usize, const N: usize> Matrix<F, M, N> {
    /// The values of the entries, row by row.
    pub open spec fn values(self) -> Seq<Seq<F::Value>> {
        grid_values(self@)
    }

    /// A matrix has `M` rows of `N` entries.
    pub proof fn lemma_shape(self)
        ensures
            self@.len() == M,
            forall|i: int| 0 <= i < M ==> (#[trigger] self@[i]).len() == N,
            self.values().len() == M,
            forall|i: int| 0 <= i < M ==> (#[trigger] self.values()[i]).len() == N,
    {
    }

    /// Retrieves the `col`'th column. `col` must be less than `N`.
    pub fn get_column(&self, col: usize) -> (r: [F; M])
        requires
            col < N,
        ensures
            r@ == column(self@, col as int),
    {
        let mut output = [F::zero();M];
        let mut row: usize = 0;
        while row < M
            invariant
                row <= M,
                col < N,
                forall|k: int| 0 <= k < row ==> output@[k] == self@[k][col as int],
            decreases M - row,
        {
            output[row] = self.0[row][col];
            row += 1;
        }
        assert(output@ =~= column(self@, col as int));
        output
    }

    /// Retrieves the `row`'th row. `row` must be less than `M`.
    pub fn get_row(&self, row: usize) -> (r: [F; N])
        requires
            row < M,
        ensures
            r@ == self@[row as int],
    {
        self.0[row]
    }

    /// The entry at `idx`, a pair of a row less than `M` and a column less
    /// than `N`, for writing: what is stored through the result becomes that
    /// entry, and the others stay.
    pub fn index_mut(&mut self, idx: (usize, usize)) -> (r: &mut F)
        requires
            idx.0 < M,
            idx.1 < N,
        ensures
            *r == old(self)@[idx.0 as int][idx.1 as int],
            final(self)@ == old(self)@.update(
                idx.0 as int,
                old(self)@[idx.0 as int].update(idx.1 as int, *final(r)),
            ),
    {
        &mut self.0[idx.0][idx.1]
    }
}

impl<F: Field, const M: usize, const N: usize> Matrix<F, M, N> {
    /// Replaces `self` by `self + rhs`, entry by entry.
    pub fn add_assign_ref(&mut self, rhs: &Self)
        requires
            can_grid_sum::<F>(old(self).values(), rhs.values()),
        ensures
            final(self).values() == grid_sum::<F>(old(self).values(), rhs.values()),
    {
        let mut i: usize = 0;
        while i < M
            invariant
                i <= M,
                can_grid_sum::<F>(old(self).values(), rhs.values()),
                forall|a: int, b: int|
                    0 <= a < i && 0 <= b < N ==> (#[trigger] self@[a][b]).value() == F::add_value(
                        old(self)@[a][b].value(),
                        rhs@[a][b].value(),
                    ),
                forall|a: int| i <= a < M ==> self@[a] == old(self)@[a],
            decreases M - i,
        {
            let ghost before = self@;
            let mut row = self.0[i];
            let mut j: usize = 0;
            assert(can_sum::<F>(old(self).values()[i as int], rhs.values()[i as int]));
            while j < N
                invariant
                    i < M,
                    j <= N,
                    can_sum::<F>(old(self).values()[i as int], rhs.values()[i as int]),
                    forall|b: int|
                        0 <= b < j ==> (#[trigger] row@[b]).value() == F::add_value(
                            old(self)@[i as int][b].value(),
                            rhs@[i as int][b].value(),
                        ),
                    forall|b: int| j <= b < N ==> row@[b] == old(self)@[i as int][b],
                decreases N - j,
            {
                assert(F::can_add(old(self).values()[i as int][j as int], rhs.values()[i as int][j as int]));
                row[j] = row[j].add(rhs.0[i][j]);
                j += 1;
            }
            self.0[i] = row;
            proof {
                assert(self@[i as int] == row@);
                assert forall|a: int, b: int| 0 <= a <= i && 0 <= b < N implies (
                #[trigger] self@[a][b]).value() == F::add_value(old(self)@[a][b].value(), rhs@[a][b].value()) by {
                    if a < i {
                        assert(self@[a] == before[a]);
                        assert(before[a][b].value() == F::add_value(
                            old(self)@[a][b].value(),
                            rhs@[a][b].value(),
                        ));
                    } else {
                        assert(self@[a][b] == row@[b]);
                    }
                }
                assert forall|a: int| i < a < M implies self@[a] == old(self)@[a] by {
                    assert(self@[a] == before[a]);
                }
            }
            i += 1;
        }
        assert(self.values() =~~= grid_sum::<F>(old(self).values(), rhs.values()));
    }

    /// Replaces `self` by `self - rhs`, entry by entry.
    pub fn sub_assign_ref(&mut self, rhs: &Self)
        requires
            can_grid_subtract::<F>(old(self).values(), rhs.values()),
        ensures
            final(self).values() == grid_difference::<F>(old(self).values(), rhs.values()),
    {
        let mut i: usize = 0;
        while i < M
            invariant
                i <= M,
                can_grid_subtract::<F>(old(self).values(), rhs.values()),
                forall|a: int, b: int|
                    0 <= a < i && 0 <= b < N ==> (#[trigger] self@[a][b]).value() == F::sub_value(
                        old(self)@[a][b].value(),
                        rhs@[a][b].value(),
                    ),
                forall|a: int| i <= a < M ==> self@[a] == old(self)@[a],
            decreases M - i,
        {
            let ghost before = self@;
            let mut row = self.0[i];
            let mut j: usize = 0;
            assert(can_subtract::<F>(old(self).values()[i as int], rhs.values()[i as int]));
            while j < N
                invariant
                    i < M,
                    j <= N,
                    can_subtract::<F>(old(self).values()[i as int], rhs.values()[i as int]),
                    forall|b: int|
                        0 <= b < j ==> (#[trigger] row@[b]).value() == F::sub_value(
                            old(self)@[i as int][b].value(),
                            rhs@[i as int][b].value(),
                        ),
                    forall|b: int| j <= b < N ==> row@[b] == old(self)@[i as int][b],
                decreases N - j,
            {
                assert(F::can_sub(old(self).values()[i as int][j as int], rhs.values()[i as int][j as int]));
                row[j] = row[j].sub(rhs.0[i][j]);
                j += 1;
            }
            self.0[i] = row;
            proof {
                assert(self@[i as int] == row@);
                assert forall|a: int, b: int| 0 <= a <= i && 0 <= b < N implies (
                #[trigger] self@[a][b]).value() == F::sub_value(old(self)@[a][b].value(), rhs@[a][b].value()) by {
                    if a < i {
                        assert(self@[a] == before[a]);
                        assert(before[a][b].value() == F::sub_value(
                            old(self)@[a][b].value(),
                            rhs@[a][b].value(),
                        ));
                    } else {
                        assert(self@[a][b] == row@[b]);
                    }
                }
                assert forall|a: int| i < a < M implies self@[a] == old(self)@[a] by {
                    assert(self@[a] == before[a]);
                }
            }
            i += 1;
        }
        assert(self.values() =~~= grid_difference::<F>(old(self).values(), rhs.values()));
    }

    /// Multiplies each entry by `scale`.
    pub fn mul_assign(&mut self, scale: F)
        requires
            can_grid_scale::<F>(old(self).values(), scale.value()),
        ensures
            final(self).values() == grid_scaled::<F>(old(self).values(), scale.value()),
    {
        let mut i: usize = 0;
        while i < M
            invariant
                i <= M,
                can_grid_scale::<F>(old(self).values(), scale.value()),
                forall|a: int, b: int|
                    0 <= a < i && 0 <= b < N ==> (#[trigger] self@[a][b]).value() == F::mul_value(
                        old(self)@[a][b].value(),
                        scale.value(),
                    ),
                forall|a: int| i <= a < M ==> self@[a] == old(self)@[a],
            decreases M - i,
        {
            let ghost before = self@;
            let mut row = self.0[i];
            let mut j: usize = 0;
            assert(can_scale::<F>(old(self).values()[i as int], scale.value()));
            while j < N
                invariant
                    i < M,
                    j <= N,
                    can_scale::<F>(old(self).values()[i as int], scale.value()),
                    forall|b: int|
                        0 <= b < j ==> (#[trigger] row@[b]).value() == F::mul_value(
                            old(self)@[i as int][b].value(),
                            scale.value(),
                        ),
                    forall|b: int| j <= b < N ==> row@[b] == old(self)@[i as int][b],
                decreases N - j,
            {
                assert(F::can_mul(old(self).values()[i as int][j as int], scale.value()));
                row[j] = row[j].mul(scale);
                j += 1;
            }
            self.0[i] = row;
            proof {
                assert(self@[i as int] == row@);
                assert forall|a: int, b: int| 0 <= a <= i && 0 <= b < N implies (
                #[trigger] self@[a][b]).value() == F::mul_value(old(self)@[a][b].value(), scale.value()) by {
                    if a < i {
                        assert(self@[a] == before[a]);
                        assert(before[a][b].value() == F::mul_value(
                            old(self)@[a][b].value(),
                            scale.value(),
                        ));
                    } else {
                        assert(self@[a][b] == row@[b]);
                    }
                }
                assert forall|a: int| i < a < M implies self@[a] == old(self)@[a] by {
                    assert(self@[a] == before[a]);
                }
            }
            i += 1;
        }
        assert(self.values() =~~= grid_scaled::<F>(old(self).values(), scale.value()));
    }

    /// Divides each entry by `scale`.
    pub fn div_assign(&mut self, scale: F)
        requires
            can_grid_divide::<F>(old(self).values(), scale.value()),
        ensures
            final(self).values() == grid_divided::<F>(old(self).values(), scale.value()),
    {
        let mut i: usize = 0;
        while i < M
            invariant
                i <= M,
                can_grid_divide::<F>(old(self).values(), scale.value()),
                forall|a: int, b: int|
                    0 <= a < i && 0 <= b < N ==> (#[trigger] self@[a][b]).value() == F::div_value(
                        old(self)@[a][b].value(),
                        scale.value(),
                    ),
                forall|a: int| i <= a < M ==> self@[a] == old(self)@[a],
            decreases M - i,
        {
            let ghost before = self@;
            let mut row = self.0[i];
            let mut j: usize = 0;
            assert(can_divide::<F>(old(self).values()[i as int], scale.value()));
            while j < N
                invariant
                    i < M,
                    j <= N,
                    can_divide::<F>(old(self).values()[i as int], scale.value()),
                    forall|b: int|
                        0 <= b < j ==> (#[trigger] row@[b]).value() == F::div_value(
                            old(self)@[i as int][b].value(),
                            scale.value(),
                        ),
                    forall|b: int| j <= b < N ==> row@[b] == old(self)@[i as int][b],
                decreases N - j,
            {
                assert(F::can_div(old(self).values()[i as int][j as int], scale.value()));
                row[j] = row[j].div(scale);
                j += 1;
            }
            self.0[i] = row;
            proof {
                assert(self@[i as int] == row@);
                assert forall|a: int, b: int| 0 <= a <= i && 0 <= b < N implies (
                #[trigger] self@[a][b]).value() == F::div_value(old(self)@[a][b].value(), scale.value()) by {
                    if a < i {
                        assert(self@[a] == before[a]);
                        assert(before[a][b].value() == F::div_value(
                            old(self)@[a][b].value(),
                            scale.value(),
                        ));
                    } else {
                        assert(self@[a][b] == row@[b]);
                    }
                }
                assert forall|a: int| i < a < M implies self@[a] == old(self)@[a] by {
                    assert(self@[a] == before[a]);
                }
            }
            i += 1;
        }
        assert(self.values() =~~= grid_divided::<F>(old(self).values(), scale.value()));
    }

    /// Replaces `self` by `self + rhs`, entry by entry.
    pub fn add_assign(&mut self, rhs: Self)
        requires
            can_grid_sum::<F>(old(self).values(), rhs.values()),
        ensures
            final(self).values() == grid_sum::<F>(old(self).values(), rhs.values()),
    {
        self.add_assign_ref(&rhs);
    }

    /// Replaces `self` by `self - rhs`, entry by entry.
    pub fn sub_assign(&mut self, rhs: Self)
        requires
            can_grid_subtract::<F>(old(self).values(), rhs.values()),
        ensures
            final(self).values() == grid_difference::<F>(old(self).values(), rhs.values()),
    {
        self.sub_assign_ref(&rhs);
    }
}

/// The dot product of the array `a` and column `j` of `b`, accumulated from
/// zero.
fn row_by_column<F: Field, const P: usize, const N: usize>(
    a: &[F; P],
    b: &Matrix<F, P, N>,
    j: usize,
) -> (r: F)
    requires
        j < N,
        can_dot::<F>(values(a@), column(b.values(), j as int), P as nat),
    ensures
        r.value() == dot::<F>(values(a@), column(b.values(), j as int), P as nat),
{
    let mut acc = F::zero();
    let mut k: usize = 0;
    while k < P
        invariant
            k <= P,
            j < N,
            can_dot::<F>(values(a@), column(b.values(), j as int), P as nat),
            acc.value() == dot::<F>(values(a@), column(b.values(), j as int), k as nat),
        decreases P - k,
    {
        proof {
            lemma_can_dot_prefix::<F>(
                values(a@),
                column(b.values(), j as int),
                (k + 1) as nat,
                P as nat,
            );
        }
        acc = acc.add(a[k].mul(b.0[k][j]));
        k += 1;
    }
    acc
}

/// The dot product of the arrays `a` and `b`, accumulated from zero.
fn row_by_array<F: Field, const P: usize>(a: &[F; P], b: &[F; P]) -> (r: F)
    requires
        can_dot::<F>(values(a@), values(b@), P as nat),
    ensures
        r.value() == dot::<F>(values(a@), values(b@), P as nat),
{
    let mut acc = F::zero();
    let mut k: usize = 0;
    while k < P
        invariant
            k <= P,
            can_dot::<F>(values(a@), values(b@), P as nat),
            acc.value() == dot::<F>(values(a@), values(b@), k as nat),
        decreases P - k,
    {
        proof {
            lemma_can_dot_prefix::<F>(values(a@), values(b@), (k + 1) as nat, P as nat);
        }
        acc = acc.add(a[k].mul(b[k]));
        k += 1;
    }
    acc
}

impl<F: Field, const M: usize, const N: usize> Matrix<F, M, N> {
    /// Multiplies this matrix in place by `rhs` on the right: `self`
    /// becomes `self * rhs`. Each row is copied before it is rebuilt.
    pub fn right_multiply(&mut self, rhs: &Matrix<F, N, N>)
        requires
            can_multiply::<F>(old(self).values(), rhs.values(), N as nat),
        ensures
            final(self).values() == product::<F>(old(self).values(), rhs.values(), N as nat),
    {
        let mut i: usize = 0;
        while i < M
            invariant
                i <= M,
                can_multiply::<F>(old(self).values(), rhs.values(), N as nat),
                forall|a: int, b: int|
                    0 <= a < i && 0 <= b < N ==> (#[trigger] self@[a][b]).value() == dot::<F>(
                        old(self).values()[a],
                        column(rhs.values(), b),
                        N as nat,
                    ),
                forall|a: int| i <= a < M ==> self@[a] == old(self)@[a],
            decreases M - i,
        {
            let ghost before = self@;
            let row = self.get_row(i);
            let mut fresh = row;
            let mut j: usize = 0;
            assert(values(row@) == old(self).values()[i as int]);
            while j < N
                invariant
                    i < M,
                    j <= N,
                    values(row@) == old(self).values()[i as int],
                    can_multiply::<F>(old(self).values(), rhs.values(), N as nat),
                    forall|b: int|
                        0 <= b < j ==> (#[trigger] fresh@[b]).value() == dot::<F>(
                            old(self).values()[i as int],
                            column(rhs.values(), b),
                            N as nat,
                        ),
                decreases N - j,
            {
                assert(can_dot::<F>(
                    old(self).values()[i as int],
                    column(rhs.values(), j as int),
                    rhs.values().len(),
                ));
                fresh[j] = row_by_column(&row, rhs, j);
                j += 1;
            }
            self.0[i] = fresh;
            proof {
                assert(self@[i as int] == fresh@);
                assert forall|a: int, b: int| 0 <= a <= i && 0 <= b < N implies (
                #[trigger] self@[a][b]).value() == dot::<F>(
                    old(self).values()[a],
                    column(rhs.values(), b),
                    N as nat,
                ) by {
                    if a < i {
                        assert(self@[a] == before[a]);
                        assert(before[a][b].value() == dot::<F>(
                            old(self).values()[a],
                            column(rhs.values(), b),
                            N as nat,
                        ));
                    } else {
                        assert(self@[a][b] == fresh@[b]);
                    }
                }
                assert forall|a: int| i < a < M implies self@[a] == old(self)@[a] by {
                    assert(self@[a] == before[a]);
                }
            }
            i += 1;
        }
        assert(self.values() =~~= product::<F>(old(self).values(), rhs.values(), N as nat));
    }

    /// Multiplies this matrix in place by `lhs` on the left: `self` becomes
    /// `lhs * self`. Each column is copied before it is rebuilt.
    pub fn left_multiply(&mut self, lhs: &Matrix<F, M, M>)
        requires
            can_multiply::<F>(lhs.values(), old(self).values(), N as nat),
        ensures
            final(self).values() == product::<F>(lhs.values(), old(self).values(), N as nat),
    {
        let mut c: usize = 0;
        while c < N
            invariant
                c <= N,
                can_multiply::<F>(lhs.values(), old(self).values(), N as nat),
                forall|a: int, b: int|
                    0 <= a < M && 0 <= b < c ==> (#[trigger] self@[a][b]).value() == dot::<F>(
                        lhs.values()[a],
                        column(old(self).values(), b),
                        M as nat,
                    ),
                forall|a: int, b: int|
                    0 <= a < M && c <= b < N ==> #[trigger] self@[a][b] == old(self)@[a][b],
            decreases N - c,
        {
            let column_c = self.get_column(c);
            assert(values(column_c@) =~= column(old(self).values(), c as int));
            let mut r: usize = 0;
            while r < M
                invariant
                    r <= M,
                    c < N,
                    values(column_c@) == column(old(self).values(), c as int),
                    can_multiply::<F>(lhs.values(), old(self).values(), N as nat),
                    forall|a: int, b: int|
                        0 <= a < M && 0 <= b < c ==> (#[trigger] self@[a][b]).value() == dot::<F>(
                            lhs.values()[a],
                            column(old(self).values(), b),
                            M as nat,
                        ),
                    forall|a: int|
                        0 <= a < r ==> (#[trigger] self@[a][c as int]).value() == dot::<F>(
                            lhs.values()[a],
                            column(old(self).values(), c as int),
                            M as nat,
                        ),
                    forall|a: int| r <= a < M ==> #[trigger] self@[a][c as int] == old(self)@[a][c as int],
                    forall|a: int, b: int|
                        0 <= a < M && c < b < N ==> #[trigger] self@[a][b] == old(self)@[a][b],
                decreases M - r,
            {
                let ghost before = self@;
                assert(can_dot::<F>(
                    lhs.values()[r as int],
                    column(old(self).values(), c as int),
                    old(self).values().len(),
                ));
                assert(values(lhs.0[r as int]@) == lhs.values()[r as int]);
                let entry = row_by_array(&lhs.0[r], &column_c);
                self.0[r][c] = entry;
                proof {
                    assert(self@[r as int] == before[r as int].update(c as int, entry));
                    assert forall|a: int| 0 <= a < M && a != r implies self@[a] == before[a] by {}
                    assert forall|a: int, b: int| 0 <= a < M && 0 <= b < N && !(a == r && b == c)
                        implies #[trigger] self@[a][b] == before[a][b] by {
                        if a != r {
                            assert(self@[a] == before[a]);
                        }
                    }
                }
                r += 1;
            }
            c += 1;
        }
        assert(self.values() =~~= product::<F>(lhs.values(), old(self).values(), N as nat));
    }
}

impl<F: Field, const M: usize, const N: usize> Matrix<F, M, N> {
    /// The row at `idx`, which must be less than `M`, for writing: what is
    /// stored through the result becomes that row, and the others stay.
    pub fn row_mut(&mut self, idx: usize) -> (r: &mut [F; N])
        requires
            idx < M,
        ensures
            r@ == old(self)@[idx as int],
            final(self)@ == old(self)@.update(idx as int, final(r)@),
    {
        &mut self.0[idx]
    }
}

impl<F: Field, const M: usize, const N: usize> From<[[F; N]; M]> for Matrix<F, M, N> {
    /// The matrix whose rows are the arrays of `arr`.
    fn from(arr: [[F; N]; M]) -> (r: Self)
        ensures
            r@.len() == M,
            forall|i: int| 0 <= i < M ==> #[trigger] r@[i] == arr@[i]@,
    {
        Matrix(arr)
    }
}

impl<F: Field, const M: usize, const N: usize> FromSpecImpl<[[F; N]; M]> for Matrix<F, M, N> {
    open spec fn obeys_from_spec() -> bool {
        false
    }

    open spec fn from_spec(arr: [[F; N]; M]) -> Self {
        arbitrary()
    }
}

impl<const M: usize, const N: usize> From<[[Int; N]; M]> for Matrix<Rational, M, N> {
    /// The matrix of the integers of `arr`, each as a rational `x/1`.
    fn from(arr: [[Int; N]; M]) -> (r: Self)
        ensures
            r@.len() == M,
            forall|i: int, j: int|
                0 <= i < M && 0 <= j < N ==> (#[trigger] r@[i][j])@ == whole(arr@[i]@[j] as int),
            grid_in_field::<Rational>(r.values()),
    {
        let mut new_arr = [[Rational::zero();N];M];
        let mut i: usize = 0;
        while i < M
            invariant
                i <= M,
                forall|a: int, b: int|
                    0 <= a < i && 0 <= b < N ==> (#[trigger] new_arr@[a]@[b])@ == whole(
                        arr@[a]@[b] as int,
                    ),
            decreases M - i,
        {
            let mut row = [Rational::zero();N];
            let mut j: usize = 0;
            while j < N
                invariant
                    i < M,
                    j <= N,
                    forall|b: int|
                        0 <= b < j ==> (#[trigger] row@[b])@ == whole(arr@[i as int]@[b] as int),
                decreases N - j,
            {
                row[j] = Rational::from(arr[i][j]);
                j += 1;
            }
            new_arr[i] = row;
            i += 1;
        }
        let r = Matrix(new_arr);
        proof {
            assert forall|i: int| 0 <= i < r.values().len() implies all_in_field::<Rational>(
                #[trigger] r.values()[i],
            ) by {
                assert forall|j: int| 0 <= j < r.values()[i].len() implies Rational::in_field(
                    #[trigger] r.values()[i][j],
                ) by {
                    assert(r@[i][j]@ == whole(arr@[i]@[j] as int));
                    lemma_whole_is_simplified(arr@[i]@[j] as int);
                }
            }
        }
        r
    }
}

impl<const M: usize, const N: usize> FromSpecImpl<[[Int; N]; M]> for Matrix<Rational, M, N> {
    open spec fn obeys_from_spec() -> bool {
        false
    }

    open spec fn from_spec(arr: [[Int; N]; M]) -> Self {
        arbitrary()
    }
}

impl<F: Field, const M: usize, const N: usize> Index<(usize, usize)> for Matrix<F, M, N> {
    type Output = F;

    /// The entry at `idx`, a pair of a row less than `M` and a column less
    /// than `N`.
    fn index(&self, idx: (usize, usize)) -> (r: &F)
        ensures
            *r == self@[idx.0 as int][idx.1 as int],
    {
        &self.0[idx.0][idx.1]
    }
}

impl<F: Field, const M: usize, const N: usize> vstd::std_specs::core::IndexSpecImpl<(usize, usize)> for Matrix<F, M, N> {
    open spec fn index_req(&self, idx: &(usize, usize)) -> bool {
        idx.0 < M && idx.1 < N
    }
}

impl<F: Field, const M: usize, const N: usize> Index<usize> for Matrix<F, M, N> {
    type Output = [F; N];

    /// The row at `idx`, which must be less than `M`.
    fn index(&self, idx: usize) -> (r: &[F; N])
        ensures
            r@ == self@[idx as int],
    {
        &self.0[idx]
    }
}

impl<F: Field, const M: usize, const N: usize> vstd::std_specs::core::IndexSpecImpl<usize> for Matrix<F, M, N> {
    open spec fn index_req(&self, idx: &usize) -> bool {
        *idx < M
    }
}

impl<F: Field, const M: usize, const N: usize> Neg for Matrix<F, M, N> {
    type Output = Self;

    fn neg(self) -> (r: Self)
        ensures
            r.values() == grid_negated::<F>(self.values()),
    {
        let mut out = self;
        let mut i: usize = 0;
        while i < M
            invariant
                i <= M,
                can_grid_negate::<F>(self.values()),
                forall|a: int, b: int|
                    0 <= a < i && 0 <= b < N ==> (#[trigger] out@[a][b]).value() == F::neg_value(
                        self@[a][b].value(),
                    ),
                forall|a: int| i <= a < M ==> out@[a] == self@[a],
            decreases M - i,
        {
            let ghost before = out@;
            let mut row = out.0[i];
            let mut j: usize = 0;
            assert(can_negate::<F>(self.values()[i as int]));
            while j < N
                invariant
                    i < M,
                    j <= N,
                    can_negate::<F>(self.values()[i as int]),
                    forall|b: int|
                        0 <= b < j ==> (#[trigger] row@[b]).value() == F::neg_value(
                            self@[i as int][b].value(),
                        ),
                    forall|b: int| j <= b < N ==> row@[b] == self@[i as int][b],
                decreases N - j,
            {
                assert(F::can_neg(self.values()[i as int][j as int]));
                row[j] = row[j].neg();
                j += 1;
            }
            out.0[i] = row;
            proof {
                assert(out@[i as int] == row@);
                assert forall|a: int, b: int| 0 <= a <= i && 0 <= b < N implies (
                #[trigger] out@[a][b]).value() == F::neg_value(self@[a][b].value()) by {
                    if a < i {
                        assert(out@[a] == before[a]);
                        assert(before[a][b].value() == F::neg_value(self@[a][b].value()));
                    } else {
                        assert(out@[a][b] == row@[b]);
                    }
                }
                assert forall|a: int| i < a < M implies out@[a] == self@[a] by {
                    assert(out@[a] == before[a]);
                }
            }
            i += 1;
        }
        assert(out.values() =~~= grid_negated::<F>(self.values()));
        out
    }
}

impl<F: Field, const M: usize, const N: usize> NegSpecImpl for Matrix<F, M, N> {
    open spec fn obeys_neg_spec() -> bool {
        false
    }

    open spec fn neg_req(self) -> bool {
        can_grid_negate::<F>(self.values())
    }

    open spec fn neg_spec(self) -> Self {
        arbitrary()
    }
}

impl<F: Field, const M: usize, const N: usize> Add<Self> for Matrix<F, M, N> {
    type Output = Self;

    /// The sum, entry by entry.
    fn add(self, rhs: Self) -> (r: Self)
        ensures
            r.values() == grid_sum::<F>(self.values(), rhs.values()),
    {
        let mut out = self;
        out.add_assign_ref(&rhs);
        out
    }
}

impl<F: Field, const M: usize, const N: usize> AddSpecImpl<Self> for Matrix<F, M, N> {
    open spec fn obeys_add_spec() -> bool {
        false
    }

    open spec fn add_req(self, rhs: Self) -> bool {
        can_grid_sum::<F>(self.values(), rhs.values())
    }

    open spec fn add_spec(self, rhs: Self) -> Self {
        arbitrary()
    }
}

impl<'a, F: Field, const M: usize, const N: usize> Add<&'a Self> for Matrix<F, M, N> {
    type Output = Self;

    /// The sum, entry by entry.
    fn add(self, rhs: &'a Self) -> (r: Self)
        ensures
            r.values() == grid_sum::<F>(self.values(), rhs.values()),
    {
        let mut out = self;
        out.add_assign_ref(rhs);
        out
    }
}

impl<'a, F: Field, const M: usize, const N: usize> AddSpecImpl<&'a Self> for Matrix<F, M, N> {
    open spec fn obeys_add_spec() -> bool {
        false
    }

    open spec fn add_req(self, rhs: &'a Self) -> bool {
        can_grid_sum::<F>(self.values(), rhs.values())
    }

    open spec fn add_spec(self, rhs: &'a Self) -> Self {
        arbitrary()
    }
}

impl<F: Field, const M: usize, const N: usize> Sub<Self> for Matrix<F, M, N> {
    type Output = Self;

    /// The difference, entry by entry.
    fn sub(self, rhs: Self) -> (r: Self)
        ensures
            r.values() == grid_difference::<F>(self.values(), rhs.values()),
    {
        let mut out = self;
        out.sub_assign_ref(&rhs);
        out
    }
}

impl<F: Field, const M: usize, const N: usize> SubSpecImpl<Self> for Matrix<F, M, N> {
    open spec fn obeys_sub_spec() -> bool {
        false
    }

    open spec fn sub_req(self, rhs: Self) -> bool {
        can_grid_subtract::<F>(self.values(), rhs.values())
    }

    open spec fn sub_spec(self, rhs: Self) -> Self {
        arbitrary()
    }
}

impl<'a, F: Field, const M: usize, const N: usize> Sub<&'a Self> for Matrix<F, M, N> {
    type Output = Self;

    /// The difference, entry by entry.
    fn sub(self, rhs: &'a Self) -> (r: Self)
        ensures
            r.values() == grid_difference::<F>(self.values(), rhs.values()),
    {
        let mut out = self;
        out.sub_assign_ref(rhs);
        out
    }
}

impl<'a, F: Field, const M: usize, const N: usize> SubSpecImpl<&'a Self> for Matrix<F, M, N> {
    open spec fn obeys_sub_spec() -> bool {
        false
    }

    open spec fn sub_req(self, rhs: &'a Self) -> bool {
        can_grid_subtract::<F>(self.values(), rhs.values())
    }

    open spec fn sub_spec(self, rhs: &'a Self) -> Self {
        arbitrary()
    }
}

impl<F: Field, const M: usize, const N: usize> Mul<F> for Matrix<F, M, N> {
    type Output = Self;

    /// Scales the matrix: each entry is multiplied by `rhs`.
    fn mul(self, rhs: F) -> (r: Self)
        ensures
            r.values() == grid_scaled::<F>(self.values(), rhs.value()),
    {
        let mut out = self;
        out.mul_assign(rhs);
        out
    }
}

impl<F: Field, const M: usize, const N: usize> MulSpecImpl<F> for Matrix<F, M, N> {
    open spec fn obeys_mul_spec() -> bool {
        false
    }

    open spec fn mul_req(self, rhs: F) -> bool {
        can_grid_scale::<F>(self.values(), rhs.value())
    }

    open spec fn mul_spec(self, rhs: F) -> Self {
        arbitrary()
    }
}

impl<F: Field, const M: usize, const N: usize> Div<F> for Matrix<F, M, N> {
    type Output = Self;

    /// Divides each entry by `rhs`.
    fn div(self, rhs: F) -> (r: Self)
        ensures
            r.values() == grid_divided::<F>(self.values(), rhs.value()),
    {
        let mut out = self;
        out.div_assign(rhs);
        out
    }
}

impl<F: Field, const M: usize, const N: usize> DivSpecImpl<F> for Matrix<F, M, N> {
    open spec fn obeys_div_spec() -> bool {
        false
    }

    open spec fn div_req(self, rhs: F) -> bool {
        can_grid_divide::<F>(self.values(), rhs.value())
    }

    open spec fn div_spec(self, rhs: F) -> Self {
        arbitrary()
    }
}

impl<const M: usize, const N: usize> Mul<Int> for Matrix<Rational, M, N> {
    type Output = Self;

    /// Scales the matrix by the integer `rhs`, taken as the rational `rhs/1`.
    fn mul(self, rhs: Int) -> (r: Self)
        ensures
            r.values() == grid_scaled::<Rational>(self.values(), whole(rhs as int)),
    {
        let mut out = self;
        out.mul_assign(Rational::from(rhs));
        out
    }
}

impl<const M: usize, const N: usize> MulSpecImpl<Int> for Matrix<Rational, M, N> {
    open spec fn obeys_mul_spec() -> bool {
        false
    }

    open spec fn mul_req(self, rhs: Int) -> bool {
        can_grid_scale::<Rational>(self.values(), whole(rhs as int))
    }

    open spec fn mul_spec(self, rhs: Int) -> Self {
        arbitrary()
    }
}

impl<const M: usize, const N: usize> Div<Int> for Matrix<Rational, M, N> {
    type Output = Self;

    /// Divides the matrix by the integer `rhs`, taken as the rational `rhs/1`.
    fn div(self, rhs: Int) -> (r: Self)
        ensures
            r.values() == grid_divided::<Rational>(self.values(), whole(rhs as int)),
    {
        let mut out = self;
        out.div_assign(Rational::from(rhs));
        out
    }
}

impl<const M: usize, const N: usize> DivSpecImpl<Int> for Matrix<Rational, M, N> {
    open spec fn obeys_div_spec() -> bool {
        false
    }

    open spec fn div_req(self, rhs: Int) -> bool {
        can_grid_divide::<Rational>(self.values(), whole(rhs as int))
    }

    open spec fn div_spec(self, rhs: Int) -> Self {
        arbitrary()
    }
}

impl<F: Field, const M: usize, const P: usize> Matrix<F, M, P> {
    /// The matrix product `self * rhs`: entry `(i, j)` is the sum over `k`
    /// of `self[(i, k)] * rhs[(k, j)]`, accumulated from zero.
    pub fn mul_matrix<const N: usize>(&self, rhs: &Matrix<F, P, N>) -> (r: Matrix<F, M, N>)
        requires
            can_multiply::<F>(self.values(), rhs.values(), N as nat),
        ensures
            r.values() == product::<F>(self.values(), rhs.values(), N as nat),
    {
        let mut out = Matrix::<F, M, N>::zero();
        let mut i: usize = 0;
        while i < M
            invariant
                i <= M,
                can_multiply::<F>(self.values(), rhs.values(), N as nat),
                forall|a: int, b: int|
                    0 <= a < i && 0 <= b < N ==> (#[trigger] out@[a][b]).value() == dot::<F>(
                        self.values()[a],
                        column(rhs.values(), b),
                        P as nat,
                    ),
            decreases M - i,
        {
            let ghost before = out@;
            let mut fresh = out.0[i];
            let mut j: usize = 0;
            assert(values(self.0[i as int]@) == self.values()[i as int]);
            while j < N
                invariant
                    i < M,
                    j <= N,
                    values(self.0[i as int]@) == self.values()[i as int],
                    can_multiply::<F>(self.values(), rhs.values(), N as nat),
                    forall|b: int|
                        0 <= b < j ==> (#[trigger] fresh@[b]).value() == dot::<F>(
                            self.values()[i as int],
                            column(rhs.values(), b),
                            P as nat,
                        ),
                decreases N - j,
            {
                assert(can_dot::<F>(
                    self.values()[i as int],
                    column(rhs.values(), j as int),
                    rhs.values().len(),
                ));
                fresh[j] = row_by_column(&self.0[i], rhs, j);
                j += 1;
            }
            out.0[i] = fresh;
            proof {
                assert(out@[i as int] == fresh@);
                assert forall|a: int, b: int| 0 <= a <= i && 0 <= b < N implies (
                #[trigger] out@[a][b]).value() == dot::<F>(
                    self.values()[a],
                    column(rhs.values(), b),
                    P as nat,
                ) by {
                    if a < i {
                        assert(out@[a] == before[a]);
                        assert(before[a][b].value() == dot::<F>(
                            self.values()[a],
                            column(rhs.values(), b),
                            P as nat,
                        ));
                    } else {
                        assert(out@[a][b] == fresh@[b]);
                    }
                }
            }
            i += 1;
        }
        assert(out.values() =~~= product::<F>(self.values(), rhs.values(), N as nat));
        out
    }
}

impl<'a, 'b, F: Field, const M: usize, const N: usize, const P: usize> Mul<&'b Matrix<F, P, N>> for &'a Matrix<F, M, P> {
    type Output = Matrix<F, M, N>;

    /// The matrix product: entry `(i, j)` is the sum over `k` of
    /// `self[(i, k)] * rhs[(k, j)]`, accumulated from zero.
    fn mul(self, rhs: &'b Matrix<F, P, N>) -> (r: Matrix<F, M, N>)
        ensures
            r.values() == product::<F>(self.values(), rhs.values(), N as nat),
    {
        self.mul_matrix(rhs)
    }
}

impl<'a, 'b, F: Field, const M: usize, const N: usize, const P: usize> MulSpecImpl<&'b Matrix<F, P, N>> for &'a Matrix<F, M, P> {
    open spec fn obeys_mul_spec() -> bool {
        false
    }

    open spec fn mul_req(self, rhs: &'b Matrix<F, P, N>) -> bool {
        can_multiply::<F>(self.values(), rhs.values(), N as nat)
    }

    open spec fn mul_spec(self, rhs: &'b Matrix<F, P, N>) -> Matrix<F, M, N> {
        arbitrary()
    }
}

impl<F: Field, const M: usize, const N: usize> VectorSpace<F> for Matrix<F, M, N> {
    /// Every entry is the zero of the field.
    open spec fn is_zero(&self) -> bool {
        self.values() == grid_zeros::<F>(M as nat, N as nat)
    }

    fn zero() -> (r: Self) {
        let r = Matrix([[F::zero();N];M]);
        assert(r.values() =~~= grid_zeros::<F>(M as nat, N as nat));
        r
    }
}

/// Matrix multiplication is associative: over an exact field, for matrices
/// whose entries belong to the field, `(a * b) * c` and `a * (b * c)` have the
/// same entries.
pub proof fn lemma_matrix_product_associative<
    F: ExactField,
    const M: usize,
    const P: usize,
    const Q: usize,
    const N: usize,
>(a: Matrix<F, M, P>, b: Matrix<F, P, Q>, c: Matrix<F, Q, N>)
    requires
        grid_in_field::<F>(a.values()),
        grid_in_field::<F>(b.values()),
        grid_in_field::<F>(c.values()),
    ensures
        product::<F>(product::<F>(a.values(), b.values(), Q as nat), c.values(), N as nat)
            == product::<F>(a.values(), product::<F>(b.values(), c.values(), N as nat), N as nat),
{
    a.lemma_shape();
    b.lemma_shape();
    c.lemma_shape();
    lemma_product_associative::<F>(
        a.values(),
        b.values(),
        c.values(),
        M as nat,
        P as nat,
        Q as nat,
        N as nat,
    );
}

} // verus!
