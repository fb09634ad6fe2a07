use linalg::Field;
use linalg::Line;
use linalg::Plane;
use linalg::Rational;
use linalg::Tuple;

/// A floating-point real number, as a user of the library would supply one.
#[derive(Clone, Copy, Debug, PartialEq)]
struct Real(f64);

impl Field for Real {
    type Value = f64;

    fn one() -> Self {
        Real(1.0)
    }

    fn zero() -> Self {
        Real(0.0)
    }

    fn neg(self) -> Self {
        Real(-self.0)
    }

    fn add(self, rhs: Self) -> Self {
        Real(self.0 + rhs.0)
    }

    fn sub(self, rhs: Self) -> Self {
        Real(self.0 - rhs.0)
    }

    fn mul(self, rhs: Self) -> Self {
        Real(self.0 * rhs.0)
    }

    fn div(self, rhs: Self) -> Self {
        Real(self.0 / rhs.0)
    }

    fn equals(&self, other: &Self) -> bool {
        self == other
    }

    fn to_string(&self) -> String {
        format!("{}", self.0)
    }
}

fn point(x: f64, y: f64, z: f64) -> Tuple<Real, 3> {
    Tuple::from([Real(x), Real(y), Real(z)])
}

#[test]
fn line_through_points() {
    assert_eq!(
        Line::through_points(point(3.0, -2.0, 4.0), point(-5.0, 7.0, 1.0)),
        Line::new(point(3.0, -2.0, 4.0), point(-8.0, 9.0, -3.0))
    );

    assert_eq!(
        Line::through_points(point(2.0, 4.0, 0.0), point(-3.0, -6.0, 0.0)),
        Line::new(point(2.0, 4.0, 0.0), point(-5.0, -10.0, 0.0))
    );

    assert_eq!(
        Line::through_points(point(3.0, 7.0, 2.0), point(3.0, 7.0, -8.0)),
        Line::new(point(3.0, 7.0, 2.0), point(0.0, 0.0, -10.0))
    );

    assert_eq!(
        Line::through_points(point(3.0, 7.0, 2.0), point(3.0, 7.0, -8.0)),
        Line::new(point(3.0, 7.0, 2.0), point(0.0, 0.0, -10.0))
    );

    assert_eq!(
        Line::through_points(point(-2.0, -1.0, 5.0), point(3.0, 9.0, 7.0)),
        Line::new(point(-2.0, -1.0, 5.0), point(5.0, 10.0, 2.0))
    );
}

#[test]
fn plane_through_points() {
    assert_eq!(
        Plane::through_points(point(2.0, -5.0, -1.0), point(0.0, 4.0, 6.0), point(-3.0, 7.0, 1.0)),
        Plane::new(point(2.0, -5.0, -1.0), point(-2.0, 9.0, 7.0), point(-5.0, 12.0, 2.0))
    );

    assert_eq!(
        Plane::through_points(point(3.0, -6.0, 7.0), point(-2.0, 0.0, -4.0), point(5.0, -9.0, -2.0)),
        Plane::new(point(3.0, -6.0, 7.0), point(-5.0, 6.0, -11.0), point(2.0, -3.0, -9.0))
    );

    assert_eq!(
        Plane::through_points(point(-8.0, 2.0, 0.0), point(1.0, 3.0, 0.0), point(6.0, -5.0, 0.0)),
        Plane::new(point(-8.0, 2.0, 0.0), point(9.0, 1.0, 0.0), point(14.0, -7.0, 0.0))
    );

    assert_eq!(
        Plane::through_points(point(1.0, 1.0, 1.0), point(5.0, 5.0, 5.0), point(-6.0, 4.0, 2.0)),
        Plane::new(point(1.0, 1.0, 1.0), point(4.0, 4.0, 4.0), point(-7.0, 3.0, 1.0))
    );
}

#[test]
fn line_at_zero_is_the_initial_point() {
    let line = Line::through_points(point(3.0, -2.0, 4.0), point(-5.0, 7.0, 1.0));
    assert_eq!(line.eval_at(Real(0.0)), point(3.0, -2.0, 4.0));
    assert_eq!(line.eval_at(Real(1.0)), point(-5.0, 7.0, 1.0));
    assert_eq!(line.eval_at(Real(2.0)), point(-13.0, 16.0, -2.0));
}

#[test]
fn line_over_rationals() {
    let line = Line::through_points(Tuple::from([3, -2, 4]), Tuple::from([-5, 7, 1]));
    assert_eq!(
        line,
        Line::new(Tuple::from([3, -2, 4]), Tuple::from([-8, 9, -3]))
    );
    assert_eq!(line.eval_at(Rational::from(0)), Tuple::from([3, -2, 4]));
    assert_eq!(
        line.eval_at(Rational { num: 1, denom: 2 }),
        Tuple::from([
            Rational::from(-1),
            Rational { num: 5, denom: 2 },
            Rational { num: 5, denom: 2 },
        ])
    );
    assert_eq!(line.clone(), line);
    assert_eq!(line.to_string(), "(3, -2, 4)+t(-8, 9, -3)");
}

#[test]
fn plane_evaluation() {
    let plane = Plane::through_points(
        Tuple::from([1, 1, 1]),
        Tuple::from([5, 5, 5]),
        Tuple::from([-6, 4, 2]),
    );
    assert_eq!(
        plane.eval_at(Rational::from(0), Rational::from(0)),
        Tuple::from([1, 1, 1])
    );
    assert_eq!(
        plane.eval_at(Rational::from(1), Rational::from(0)),
        Tuple::from([5, 5, 5])
    );
    assert_eq!(
        plane.eval_at(Rational::from(0), Rational::from(1)),
        Tuple::from([-6, 4, 2])
    );
    assert_eq!(
        plane.eval_at(Rational::from(2), Rational::from(-1)),
        Tuple::from([16, 6, 8])
    );
    assert_eq!(plane.clone(), plane);
    assert_eq!(plane.to_string(), "(1, 1, 1)+t(4, 4, 4)+s(-7, 3, 1)");
}
