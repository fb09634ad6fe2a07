use linalg::Field;
use linalg::Polynom;
use linalg::Rational;
use linalg::VectorSpace;

fn rationals(xs: &[i64]) -> Vec<Rational> {
    xs.iter().map(|x| Rational::from(*x)).collect()
}

#[test]
fn polynomial_scaling() {
    assert_eq!(
        Polynom::from([0, -3, 8, 0, -6, 0, 0, 2]) * 5,
        Polynom::from([0, -15, 40, 0, -30, 0, 0, 10])
    );
    assert_eq!(
        Polynom::from([2, 4, 0, -2, 0, 1]) * 3,
        Polynom::from([6, 12, 0, -6, 0, 3])
    );
}

#[test]
fn polynomial_addition() {
    assert_eq!(
        Polynom::from([3, 4, 0, -7, 2]) + Polynom::from([7, -6, 2, 8]),
        Polynom::from([10, -2, 2, 1, 2])
    );
    assert_eq!(
        Polynom::from([-6, 8, 7, -3]) + Polynom::from([10, -8, 0, 2]),
        Polynom::from([4, 0, 7, -1])
    );
}

#[test]
fn polynomial_is_trimmed_on_construction() {
    let p = Polynom::from(rationals(&[1, 0, 2, 0, 0]));
    assert_eq!(p.len(), 3);
    assert_eq!(p[2], 2);
    let zero = Polynom::from(rationals(&[0, 0, 0]));
    assert_eq!(zero.len(), 0);
    assert_eq!(zero, <Polynom<Rational> as VectorSpace<Rational>>::zero());
}

#[test]
fn polynomial_trimming_twice_is_trimming_once() {
    let mut v = rationals(&[4, 0, 5, 0, 0, 0]);
    Polynom::shrink(&mut v);
    assert_eq!(v, rationals(&[4, 0, 5]));
    let once = v.clone();
    Polynom::shrink(&mut v);
    assert_eq!(v, once);
}

#[test]
fn polynomial_alloc_space_pads_with_zeros() {
    let mut v = rationals(&[1, 2]);
    Polynom::alloc_space(&mut v, 4);
    assert_eq!(v, rationals(&[1, 2, 0, 0]));
    Polynom::alloc_space(&mut v, 1);
    assert_eq!(v, rationals(&[1, 2, 0, 0]));
}

#[test]
fn polynomial_addition_cancels_leading_terms() {
    let p = Polynom::from([1, 2, 3]) + Polynom::from([0, 0, -3]);
    assert_eq!(p.len(), 2);
    assert_eq!(p, Polynom::from([1, 2]));
    let q = Polynom::from([1, 2, 3]) + Polynom::from([-1, -2, -3]);
    assert_eq!(q.len(), 0);
}

#[test]
fn polynomial_addition_pads_the_shorter_operand() {
    assert_eq!(
        Polynom::from([1]) + Polynom::from([0, 0, 0, 5]),
        Polynom::from([1, 0, 0, 5])
    );
    assert_eq!(
        Polynom::from([0, 0, 0, 5]) + Polynom::from([1]),
        Polynom::from([1, 0, 0, 5])
    );
}

#[test]
fn polynomial_subtraction() {
    assert_eq!(
        Polynom::from([3, 4, 0, -7, 2]) - Polynom::from([7, -6, 2, 8]),
        Polynom::from([-4, 10, -2, -15, 2])
    );
    assert_eq!(
        Polynom::from([1]) - Polynom::from([0, 0, 0, 5]),
        Polynom::from([1, 0, 0, -5])
    );
    let r = Polynom::from([1, 2]);
    assert_eq!(Polynom::from([5, 2]) - &r, Polynom::from([4]));
}

#[test]
fn polynomial_scaling_by_zero_is_the_zero_polynomial() {
    let p = Polynom::from([1, 2, 3]) * 0;
    assert_eq!(p.len(), 0);
}

#[test]
fn polynomial_division_by_a_scalar() {
    assert_eq!(
        Polynom::from([2, 4, 6]) / 2,
        Polynom::from([1, 2, 3])
    );
    assert_eq!(
        Polynom::from([1, 0, 3]) / Rational::from(2),
        Polynom::from(vec![
            Rational { num: 1, denom: 2 },
            Rational::from(0),
            Rational { num: 3, denom: 2 },
        ])
    );
}

#[test]
fn polynomial_negation() {
    assert_eq!(-Polynom::from([1, -2, 3]), Polynom::from([-1, 2, -3]));
}

#[test]
fn polynomial_evaluation() {
    // 2x^2 + 1 at x = 3 is 19.
    let p = Polynom::from([1, 0, 2]);
    assert_eq!(p.eval_at(Rational::from(3)), 19);
    // x^3 - 2x + 5 at x = -2 is 1.
    let q = Polynom::from([5, -2, 0, 1]);
    assert_eq!(q.eval_at(Rational::from(-2)), 1);
    let zero = <Polynom<Rational> as VectorSpace<Rational>>::zero();
    assert_eq!(zero.eval_at(Rational::from(7)), 0);
    // At a fraction: 2x^2 + 1 at x = 1/2 is 3/2.
    let half = Rational::one() / Rational::from(2);
    assert_eq!(p.eval_at(half), Rational { num: 3, denom: 2 });
}

#[test]
fn polynomial_set_trims() {
    let mut p = Polynom::from([1, 2, 3]);
    p.set(0, Rational::from(9));
    assert_eq!(p, Polynom::from([9, 2, 3]));
    p.set(2, Rational::from(0));
    assert_eq!(p, Polynom::from([9, 2]));
}

#[test]
fn polynomial_compound_assignment() {
    let mut p = Polynom::from([1, 2, 3]);
    p.add_assign(Polynom::from([1, 1, 1, 1]));
    assert_eq!(p, Polynom::from([2, 3, 4, 1]));
    p.sub_assign_ref(&Polynom::from([0, 0, 0, 1]));
    assert_eq!(p, Polynom::from([2, 3, 4]));
    p.mul_assign(Rational::from(2));
    assert_eq!(p, Polynom::from([4, 6, 8]));
    p.div_assign(Rational::from(4));
    assert_eq!(
        p,
        Polynom::from(vec![
            Rational::from(1),
            Rational { num: 3, denom: 2 },
            Rational::from(2),
        ])
    );
    assert_eq!(p.clone(), p);
}

#[test]
fn polynomial_to_string() {
    assert_eq!(Polynom::from([1, 0, 2]).to_string(), "2x^2+1");
    assert_eq!(Polynom::from([1, 3, 2]).to_string(), "2x^2+3x^1+1");
    assert_eq!(Polynom::from([0, 0, 5]).to_string(), "5x^2");
    assert_eq!(Polynom::from([-4]).to_string(), "-4");
    assert_eq!(Polynom::from([0, -3, 8, 0, -6, 0, 0, 2]).to_string(), "2x^7+-6x^4+8x^2+-3x^1");
    assert_eq!(
        <Polynom<Rational> as VectorSpace<Rational>>::zero().to_string(),
        "0"
    );
    let p = Polynom::from([1, 0, 0, 0, 0, 0, 0, 0, 0, 0, 0, 0, 7]);
    assert_eq!(p.to_string(), "7x^12+1");
}
