use linalg::Field;
use linalg::Rational;
use linalg::Tuple;
use linalg::VectorSpace;
use linalg::IntMod2;

/// A complex number over floating-point reals, as a user of the library
/// would supply one.
#[derive(Clone, Copy, Debug, PartialEq)]
struct Complex {
    re: f64,
    im: f64,
}

fn cmplx(re: f64, im: f64) -> Complex {
    Complex { re, im }
}

impl Field for Complex {
    type Value = (f64, f64);

    fn one() -> Self {
        cmplx(1.0, 0.0)
    }

    fn zero() -> Self {
        cmplx(0.0, 0.0)
    }

    fn neg(self) -> Self {
        cmplx(-self.re, -self.im)
    }

    fn add(self, rhs: Self) -> Self {
        cmplx(self.re + rhs.re, self.im + rhs.im)
    }

    fn sub(self, rhs: Self) -> Self {
        cmplx(self.re - rhs.re, self.im - rhs.im)
    }

    fn mul(self, rhs: Self) -> Self {
        cmplx(
            self.re * rhs.re - self.im * rhs.im,
            self.re * rhs.im + self.im * rhs.re,
        )
    }

    fn div(self, rhs: Self) -> Self {
        let mag_sq = rhs.re * rhs.re + rhs.im * rhs.im;
        let num = self.mul(cmplx(rhs.re, -rhs.im));
        cmplx(num.re / mag_sq, num.im / mag_sq)
    }

    fn equals(&self, other: &Self) -> bool {
        self == other
    }

    fn to_string(&self) -> String {
        format!("{}+{}i", self.re, self.im)
    }
}

#[test]
fn tuple_scaling() {
    assert_eq!(Tuple::from([1, -2, 0]) * -5, Tuple::from([-5, 10, 0]));
    assert_eq!(
        Tuple::from([cmplx(1.0, 1.0), cmplx(2.0, 0.0)]) * cmplx(0.0, 1.0),
        Tuple::from([cmplx(-1.0, 1.0), cmplx(0.0, 2.0)])
    );
}

#[test]
fn tuple_addition() {
    assert_eq!(
        Tuple::from([3, -2, 0]) + Tuple::from([-1, 1, 4]),
        Tuple::from([2, -1, 4])
    );
    assert_eq!(
        Tuple::from([cmplx(1.0, 1.0), cmplx(2.0, 0.0)])
            + Tuple::from([cmplx(2.0, -3.0), cmplx(0.0, 4.0)]),
        Tuple::from([cmplx(3.0, -2.0), cmplx(2.0, 4.0)])
    );
}

#[test]
fn tuple_subtraction() {
    assert_eq!(
        Tuple::from([4, 5, 3]) - Tuple::from([-2, 0, 1]),
        Tuple::from([6, 5, 2])
    );
    assert_eq!(
        Tuple::from([-3, -2, 4]) - Tuple::from([1, 0, 2]),
        Tuple::from([-4, -2, 2])
    );
}

#[test]
fn tuple_is_parallel() {
    assert!(!Tuple::from([3, 1, 2]).is_parallel(&Tuple::from([6, 4, 2])));
    assert!(Tuple::from([-3, 1, 7]).is_parallel(&Tuple::from([9, -3, -21])));
    assert!(Tuple::from([5, -6, 7]).is_parallel(&Tuple::from([-5, 6, -7])));
    assert!(!Tuple::from([2, 0, -5]).is_parallel(&Tuple::from([5, 0, -2])));
}

#[test]
fn tuple_is_parallel_when_empty() {
    let none: [Rational; 0] = [];
    let a = Tuple::from(none);
    let b = Tuple::from(none);
    assert!(a.is_parallel(&b));
}

#[test]
fn tuple_zero_is_all_zeros() {
    let z = <Tuple<Rational, 3> as VectorSpace<Rational>>::zero();
    assert_eq!(z, Tuple::from([0, 0, 0]));
}

#[test]
fn tuple_to_string() {
    assert_eq!(Tuple::from([3, -2, 0]).to_string(), "(3, -2, 0)");
    assert_eq!(Tuple::from([7]).to_string(), "(7)");
    let none: [Rational; 0] = [];
    assert_eq!(Tuple::from(none).to_string(), "(empty tuple)");
    assert_eq!(
        Tuple::from([Rational { num: 1, denom: 2 }, Rational::from(-4)]).to_string(),
        "(1/2, -4)"
    );
    assert_eq!(
        Tuple::from([cmplx(1.5, -2.0), cmplx(0.0, 1.0)]).to_string(),
        "(1.5+-2i, 0+1i)"
    );
}

#[test]
fn tuple_into_array_round_trip() {
    let ints = [3, -2, 0, 9];
    let t = Tuple::from(ints);
    let back: [Rational; 4] = Into::into(t);
    for i in 0..4 {
        assert_eq!(back[i], ints[i]);
    }
}

#[test]
fn tuple_indexing() {
    let mut t = Tuple::from([1, 2, 3]);
    assert_eq!(t[0], 1);
    assert_eq!(t[2], 3);
    *t.index_mut(1) = Rational::from(8);
    assert_eq!(t, Tuple::from([1, 8, 3]));
}

#[test]
fn tuple_negation_and_division() {
    assert_eq!(-Tuple::from([1, -2, 0]), Tuple::from([-1, 2, 0]));
    assert_eq!(Tuple::from([2, -4, 0]) / 2, Tuple::from([1, -2, 0]));
    assert_eq!(
        Tuple::from([1, 2]) / Rational::from(2),
        Tuple::from([Rational { num: 1, denom: 2 }, Rational::from(1)])
    );
    let r = Tuple::from([1, 1, 1]);
    assert_eq!(Tuple::from([1, 2, 3]) + &r, Tuple::from([2, 3, 4]));
    assert_eq!(Tuple::from([1, 2, 3]) - &r, Tuple::from([0, 1, 2]));
}

#[test]
fn tuple_compound_assignment() {
    let mut t = Tuple::from([1, 2, 3]);
    t.add_assign(Tuple::from([1, 1, 1]));
    assert_eq!(t, Tuple::from([2, 3, 4]));
    t.sub_assign_ref(&Tuple::from([2, 2, 2]));
    assert_eq!(t, Tuple::from([0, 1, 2]));
    t.mul_assign(Rational::from(6));
    assert_eq!(t, Tuple::from([0, 6, 12]));
    t.div_assign(Rational::from(4));
    assert_eq!(
        t,
        Tuple::from([Rational::from(0), Rational { num: 3, denom: 2 }, Rational::from(3)])
    );
}

#[test]
fn tuple_into_another_field() {
    let bits = Tuple::from([IntMod2::One, IntMod2::Zero, IntMod2::One]);
    let rationals: Tuple<Rational, 3> = bits.into::<Rational>();
    assert_eq!(rationals, Tuple::from([1, 0, 1]));
    let same: Tuple<Rational, 3> = Tuple::from([1, 2, 3]).into::<Rational>();
    assert_eq!(same, Tuple::from([1, 2, 3]));
}

#[test]
fn tuple_is_parallel_over_integers_mod_2() {
    let a = Tuple::from([IntMod2::One, IntMod2::Zero, IntMod2::One]);
    assert!(a.is_parallel(&Tuple::from([IntMod2::One, IntMod2::Zero, IntMod2::One])));
    assert!(!a.is_parallel(&Tuple::from([IntMod2::One, IntMod2::One, IntMod2::One])));
}

#[test]
fn tuple_clone_is_equal() {
    let t = Tuple::from([1, 2, 3]);
    assert_eq!(t.clone(), t);
}
