use linalg::Field;
use linalg::Funct;
use linalg::Int;
use linalg::IntMod2;
use linalg::Rational;
use linalg::VectorSpace;

/// A floating-point real number, as a user of the library would supply one.
#[derive(Clone, Copy, Debug, PartialEq)]
struct Real(f64);

impl Field for Real {
    type Value = f64;

    fn one() -> Self {
        Real(1.0)
    }

    fn zero() -> Self {
        Real(0.0)
    }

    fn neg(self) -> Self {
        Real(-self.0)
    }

    fn add(self, rhs: Self) -> Self {
        Real(self.0 + rhs.0)
    }

    fn sub(self, rhs: Self) -> Self {
        Real(self.0 - rhs.0)
    }

    fn mul(self, rhs: Self) -> Self {
        Real(self.0 * rhs.0)
    }

    fn div(self, rhs: Self) -> Self {
        Real(self.0 / rhs.0)
    }

    fn equals(&self, other: &Self) -> bool {
        self == other
    }

    fn to_string(&self) -> String {
        format!("{}", self.0)
    }
}

#[test]
fn funct_apply() {
    let f = Funct::new(|t: Int| Real((2 * t + 1) as f64));
    let g = Funct::new(|t: Int| Real((1 + 4 * t - 2 * t * t) as f64));
    let h = Funct::new(|t: Int| Real((5i64.pow(t as u32) + 1) as f64));
    assert_eq!(f.apply(0), g.apply(0));
    assert_eq!(f.apply(1), g.apply(1));

    let i = f + g;
    assert_eq!(i.apply(0), h.apply(0));
    assert_eq!(i.apply(1), h.apply(1));
}

#[test]
fn funct_expressions_over_rationals() {
    let f = Funct::new(|t: Int| Rational::from(2 * t + 1));
    let g = Funct::new(|t: Int| Rational::from(t * t));
    let d = f - g;
    assert_eq!(d.apply(3), -2);
    let s = d * Rational::from(3);
    assert_eq!(s.apply(3), -6);
    let q = s / Rational::from(4);
    assert_eq!(q.apply(3), Rational { num: -3, denom: 2 });
    let n = -q;
    assert_eq!(n.apply(3), Rational { num: 3, denom: 2 });
}

#[test]
fn funct_compound_assignment_replaces_the_function() {
    let mut f = Funct::new(|t: Int| Rational::from(t));
    f.add_assign(Funct::new(|t: Int| Rational::from(10 * t)));
    assert_eq!(f.apply(2), 22);
    f.sub_assign(Funct::new(|_t: Int| Rational::from(2)));
    assert_eq!(f.apply(2), 20);
    f.mul_assign(Rational::from(3));
    assert_eq!(f.apply(2), 60);
    f.div_assign(Rational::from(8));
    assert_eq!(f.apply(2), Rational { num: 15, denom: 2 });
}

#[test]
fn funct_zero_is_zero_everywhere() {
    let z = <Funct<usize, IntMod2> as VectorSpace<IntMod2>>::zero();
    for i in 0..10usize {
        assert_eq!(z.apply(i), IntMod2::Zero);
    }
}

#[test]
fn funct_sequence_over_integers_mod_2() {
    let parity = Funct::new(|i: usize| IntMod2::from(i as i64));
    let ones = Funct::new(|_i: usize| IntMod2::One);
    let flipped = parity + ones;
    assert_eq!(flipped.apply(0), IntMod2::One);
    assert_eq!(flipped.apply(1), IntMod2::Zero);
    assert_eq!(flipped.apply(7), IntMod2::Zero);
}

#[test]
fn sequence_to_string_shows_the_first_ten_terms() {
    let squares = Funct::new(|i: usize| Rational::from((i * i) as i64));
    assert_eq!(squares.to_string(), "(0,1,4,9,16,25,36,49,64,81,\u{2026})");
    let halves = Funct::new(|i: usize| Rational::from(i as i64)) / Rational::from(2);
    assert_eq!(halves.to_string(), "(0,1/2,1,3/2,2,5/2,3,7/2,4,9/2,\u{2026})");
}
