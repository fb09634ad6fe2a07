use linalg::Matrix;
use linalg::Rational;
use linalg::VectorSpace;
use linalg::IntMod2::One;
use linalg::IntMod2::Zero;

#[test]
fn matrix_zero() {
    assert_eq!(
        <Matrix::<Rational, 3, 4> as VectorSpace<Rational>>::zero(),
        Matrix::from([[0, 0, 0, 0], [0, 0, 0, 0], [0, 0, 0, 0]])
    );
}

#[test]
fn matrix_scaling() {
    assert_eq!(
        Matrix::from([[1, 0, -2], [-3, 2, 3]]) * -3,
        Matrix::from([[-3, 0, 6], [9, -6, -9]])
    );
    assert_eq!(
        Matrix::from([[2, 5, -3], [1, 0, 7]]) * 4,
        Matrix::from([[8, 20, -12], [4, 0, 28]])
    );
    assert_eq!(
        Matrix::from([[-6, 4], [3, -2], [1, 8]]) * -5,
        Matrix::from([[30, -20], [-15, 10], [-5, -40]])
    );
}

#[test]
fn matrix_addition() {
    assert_eq!(
        Matrix::from([[2, 0, -1], [1, -3, 4]]) + Matrix::from([[-5, -2, 6], [3, 4, -1]]),
        Matrix::from([[-3, -2, 5], [4, 1, 3]])
    );
    assert_eq!(
        Matrix::from([[2, 5, -3], [1, 0, 7]]) + Matrix::from([[4, -2, 5], [-5, 3, 2]]),
        Matrix::from([[6, 3, 2], [-4, 3, 9]])
    );
    assert_eq!(
        Matrix::from([[-6, 4], [3, -2], [1, 8]]) + Matrix::from([[7, -5], [0, -3], [2, 0]]),
        Matrix::from([[1, -1], [3, -5], [3, 8]])
    );
    assert_eq!(
        Matrix::from([[8, 3, 1], [3, 0, 0], [3, 0, 0]])
            + Matrix::from([[9, 1, 4], [3, 0, 0], [1, 1, 0]]),
        Matrix::from([[17, 4, 5], [6, 0, 0], [4, 1, 0]])
    );
}

#[test]
fn matrix_subtraction() {
    let m = Matrix::from([[4, 2, 1, 3], [5, 1, 1, 4], [3, 1, 2, 6]]);
    let a = Matrix::from([[5, 3, 1, 2], [6, 2, 1, 5], [1, 0, 3, 3]]);
    assert_eq!(
        m * 2 - a,
        Matrix::from([[3, 1, 1, 4], [4, 0, 1, 3], [5, 2, 1, 9]])
    );
}

#[test]
fn matrix_indexing() {
    let m = Matrix::from([[1, 2, 3], [4, 5, 6]]);
    assert_eq!(m[(0, 2)], 3);
    assert_eq!(m[(1, 0)], 4);
    assert_eq!(m[(1, 1)], 5);
}

#[test]
fn matrix_product() {
    let a: Matrix<Rational, 2, 3> = Matrix::from([[1, 2, 3], [4, 5, 6]]);
    let b: Matrix<Rational, 3, 2> = Matrix::from([[7, 8], [9, 10], [11, 12]]);
    assert_eq!(&a * &b, Matrix::from([[58, 64], [139, 154]]));
}

#[test]
fn matrix_right_multiply_is_product() {
    let mut a: Matrix<Rational, 2, 2> = Matrix::from([[1, 2], [3, 4]]);
    let b: Matrix<Rational, 2, 2> = Matrix::from([[0, 1], [1, 1]]);
    let expected = &a * &b;
    a.right_multiply(&b);
    assert_eq!(a, expected);
    assert_eq!(a, Matrix::from([[2, 3], [4, 7]]));
}

#[test]
fn matrix_left_multiply_is_product() {
    let mut a: Matrix<Rational, 2, 3> = Matrix::from([[1, 2, 3], [4, 5, 6]]);
    let l: Matrix<Rational, 2, 2> = Matrix::from([[0, 1], [1, 1]]);
    let expected = &l * &a;
    a.left_multiply(&l);
    assert_eq!(a, expected);
    assert_eq!(a, Matrix::from([[4, 5, 6], [5, 7, 9]]));
}

#[test]
fn matrix_product_is_associative_on_an_example() {
    let a: Matrix<Rational, 2, 3> = Matrix::from([[1, -2, 3], [0, 5, -1]]);
    let b: Matrix<Rational, 3, 2> = Matrix::from([[2, 1], [-3, 4], [0, 6]]);
    let c: Matrix<Rational, 2, 2> = Matrix::from([[1, 2], [3, -4]]);
    assert_eq!(&(&a * &b) * &c, &a * &(&b * &c));
}

#[test]
fn matrix_rows_and_columns() {
    let m: Matrix<Rational, 2, 3> = Matrix::from([[1, 2, 3], [4, 5, 6]]);
    assert_eq!(m.get_row(1), [Rational::from(4), Rational::from(5), Rational::from(6)]);
    assert_eq!(m.get_column(2), [Rational::from(3), Rational::from(6)]);
}

#[test]
fn matrix_negation_and_division() {
    assert_eq!(
        -Matrix::from([[1, 0, -2], [-3, 2, 3]]),
        Matrix::from([[-1, 0, 2], [3, -2, -3]])
    );
    assert_eq!(
        Matrix::from([[2, 0, -4], [-6, 2, 8]]) / 2,
        Matrix::from([[1, 0, -2], [-3, 1, 4]])
    );
    assert_eq!(
        Matrix::from([[1, 2]]) / Rational::from(2),
        Matrix::from([[Rational { num: 1, denom: 2 }, Rational::from(1)]])
    );
    assert_eq!(
        Matrix::from([[1, 2]]) * Rational { num: 1, denom: 2 },
        Matrix::from([[Rational { num: 1, denom: 2 }, Rational::from(1)]])
    );
}

#[test]
fn matrix_operations_by_reference() {
    let a = Matrix::from([[1, 2], [3, 4]]);
    let b = Matrix::from([[10, 20], [30, 40]]);
    assert_eq!(a + &b, Matrix::from([[11, 22], [33, 44]]));
    assert_eq!(b - &a, Matrix::from([[9, 18], [27, 36]]));
}

#[test]
fn matrix_compound_assignment() {
    let mut m = Matrix::from([[1, 2], [3, 4]]);
    m.add_assign(Matrix::from([[1, 1], [1, 1]]));
    assert_eq!(m, Matrix::from([[2, 3], [4, 5]]));
    m.add_assign_ref(&Matrix::from([[0, 1], [0, 1]]));
    assert_eq!(m, Matrix::from([[2, 4], [4, 6]]));
    m.sub_assign(Matrix::from([[2, 0], [0, 2]]));
    assert_eq!(m, Matrix::from([[0, 4], [4, 4]]));
    m.sub_assign_ref(&Matrix::from([[0, 4], [0, 0]]));
    assert_eq!(m, Matrix::from([[0, 0], [4, 4]]));
    m.mul_assign(Rational::from(3));
    assert_eq!(m, Matrix::from([[0, 0], [12, 12]]));
    m.div_assign(Rational::from(4));
    assert_eq!(m, Matrix::from([[0, 0], [3, 3]]));
}

#[test]
fn matrix_writing_entries_and_rows() {
    let mut m = Matrix::from([[1, 2, 3], [4, 5, 6]]);
    *m.index_mut((1, 2)) = Rational::from(9);
    assert_eq!(m, Matrix::from([[1, 2, 3], [4, 5, 9]]));
    *m.row_mut(0) = [Rational::from(7), Rational::from(8), Rational::from(0)];
    assert_eq!(m, Matrix::from([[7, 8, 0], [4, 5, 9]]));
    assert_eq!(m[1], [Rational::from(4), Rational::from(5), Rational::from(9)]);
    let copy = m;
    assert_eq!(copy, m);
}

#[test]
fn matrix_product_by_method() {
    let a: Matrix<Rational, 2, 3> = Matrix::from([[1, 2, 3], [4, 5, 6]]);
    let b: Matrix<Rational, 3, 2> = Matrix::from([[7, 8], [9, 10], [11, 12]]);
    assert_eq!(a.mul_matrix(&b), Matrix::from([[58, 64], [139, 154]]));
    let identity: Matrix<Rational, 3, 3> = Matrix::from([[1, 0, 0], [0, 1, 0], [0, 0, 1]]);
    assert_eq!(a.mul_matrix(&identity), a);
}

#[test]
fn matrix_product_with_fractions() {
    let half = Rational { num: 1, denom: 2 };
    let third = Rational { num: 1, denom: 3 };
    let a = Matrix::from([[half, third]]);
    let b = Matrix::from([[third], [half]]);
    assert_eq!(&a * &b, Matrix::from([[Rational { num: 1, denom: 3 }]]));
}

#[test]
fn matrix_left_multiply_of_a_tall_matrix() {
    let mut a: Matrix<Rational, 3, 2> = Matrix::from([[1, 2], [3, 4], [5, 6]]);
    let l: Matrix<Rational, 3, 3> = Matrix::from([[1, 0, 0], [1, 1, 0], [1, 1, 1]]);
    a.left_multiply(&l);
    assert_eq!(a, Matrix::from([[1, 2], [4, 6], [9, 12]]));
}

#[test]
fn matrix_over_integers_mod_2() {
    let a = Matrix::from([[One, One], [Zero, One]]);
    let b = Matrix::from([[One, Zero], [One, One]]);
    assert_eq!(&a * &b, Matrix::from([[Zero, One], [One, One]]));
    assert_eq!(a + b, Matrix::from([[Zero, One], [One, Zero]]));
    let c = Matrix::from([[One, One], [One, Zero]]);
    assert_eq!(&(&a * &b) * &c, &a * &(&b * &c));
}
