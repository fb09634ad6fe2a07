use linalg::Field;
use linalg::Zero;
use linalg::Rational;
use linalg::VectorSpace;

/// A floating-point real number, as a user of the library would supply one.
#[derive(Clone, Copy, Debug, PartialEq)]
struct Real(f64);

impl Field for Real {
    type Value = f64;

    fn one() -> Self {
        Real(1.0)
    }

    fn zero() -> Self {
        Real(0.0)
    }

    fn neg(self) -> Self {
        Real(-self.0)
    }

    fn add(self, rhs: Self) -> Self {
        Real(self.0 + rhs.0)
    }

    fn sub(self, rhs: Self) -> Self {
        Real(self.0 - rhs.0)
    }

    fn mul(self, rhs: Self) -> Self {
        Real(self.0 * rhs.0)
    }

    fn div(self, rhs: Self) -> Self {
        Real(self.0 / rhs.0)
    }

    fn equals(&self, other: &Self) -> bool {
        self == other
    }

    fn to_string(&self) -> String {
        format!("{}", self.0)
    }
}

#[test]
fn zero_space() {
    assert_eq!(Zero() + Zero(), Zero());
    assert_eq!(Zero() * Real(2.0), Zero());
}

#[test]
fn zero_space_absorbs_every_operation() {
    let z = Zero();
    assert_eq!(-z, Zero());
    assert_eq!(z - Zero(), Zero());
    assert_eq!(z + &Zero(), Zero());
    assert_eq!(z - &Zero(), Zero());
    assert_eq!(z * Rational::from(5), Zero());
    assert_eq!(z / Rational::from(0), Zero());
    assert_eq!(z / Real(0.0), Zero());
    assert_eq!(<Zero as VectorSpace<Rational>>::zero(), Zero());
    let mut w = Zero();
    w.add_assign(Zero());
    w.add_assign_ref(&Zero());
    w.sub_assign(Zero());
    w.sub_assign_ref(&Zero());
    w.mul_assign(Rational::from(3));
    w.div_assign(Rational::from(3));
    assert_eq!(w, Zero());
}
