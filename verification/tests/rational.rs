use linalg::field::rational::gcd;
use linalg::Field;
use linalg::IntMod2;
use linalg::Rational;

fn frac(num: i64, denom: i64) -> Rational {
    Rational { num, denom }
}

#[test]
fn gcd_of_positive_integers() {
    assert_eq!(gcd(12, 18), 6);
    assert_eq!(gcd(18, 12), 6);
    assert_eq!(gcd(7, 13), 1);
    assert_eq!(gcd(5, 5), 5);
    assert_eq!(gcd(1, 9), 1);
    assert_eq!(gcd(9, 1), 1);
    assert_eq!(gcd(1071, 462), 21);
}

#[test]
fn simplify_puts_fractions_in_lowest_terms() {
    let mut a = frac(2, 4);
    a.simplify();
    assert_eq!(a, frac(1, 2));
    let mut b = frac(-6, 9);
    b.simplify();
    assert_eq!(b, frac(-2, 3));
    let mut c = frac(6, -9);
    c.simplify();
    assert_eq!(c, frac(-2, 3));
    let mut d = frac(-6, -9);
    d.simplify();
    assert_eq!(d, frac(2, 3));
}

#[test]
fn simplify_writes_zero_as_zero_over_one() {
    let mut a = frac(0, 7);
    a.simplify();
    assert_eq!(a, frac(0, 1));
    let mut b = frac(0, -7);
    b.simplify();
    assert_eq!(b, frac(0, 1));
    let mut c = frac(5, 0);
    c.simplify();
    assert_eq!(c, frac(0, 1));
}

#[test]
fn simplify_is_idempotent() {
    for (n, d) in [(2, 4), (-6, 9), (6, -9), (0, 5), (7, 1), (-3, -12)] {
        let mut once = frac(n, d);
        once.simplify();
        let mut twice = once;
        twice.simplify();
        assert_eq!(once, twice);
    }
}

#[test]
fn results_are_simplified() {
    let values = [frac(1, 2), frac(-2, 3), frac(3, 4), frac(0, 1), frac(5, 1), frac(-7, 6)];
    for a in values {
        for b in values {
            let mut results = vec![a + b, a - b, a * b, b / a];
            if a.num != 0 {
                results.push(b / a);
            }
            for r in results {
                assert!(r.denom > 0);
                if r.num == 0 {
                    assert_eq!(r.denom, 1);
                } else {
                    assert_eq!(gcd(r.num.abs(), r.denom), 1);
                }
            }
        }
    }
}

#[test]
fn rational_addition_and_subtraction() {
    assert_eq!(frac(1, 2) + frac(1, 3), frac(5, 6));
    assert_eq!(frac(1, 2) + frac(1, 2), frac(1, 1));
    assert_eq!(frac(1, 2) - frac(1, 3), frac(1, 6));
    assert_eq!(frac(1, 3) - frac(1, 2), frac(-1, 6));
    assert_eq!(frac(1, 2) - frac(1, 2), frac(0, 1));
    assert_eq!(-frac(1, 2), frac(-1, 2));
}

#[test]
fn rational_multiplication_does_not_square_the_denominator() {
    // The product of a/b and c/d is ac/bd: the denominator of the receiver
    // enters once.
    assert_eq!(frac(1, 2) * frac(1, 3), frac(1, 6));
    assert_eq!(frac(2, 3) * frac(3, 4), frac(1, 2));
    assert_eq!(frac(-2, 5) * frac(5, 2), frac(-1, 1));
    assert_eq!(frac(3, 7) * frac(0, 1), frac(0, 1));
}

#[test]
fn rational_division() {
    assert_eq!(frac(1, 2) / frac(1, 3), frac(3, 2));
    assert_eq!(frac(1, 2) / frac(-1, 3), frac(-3, 2));
    assert_eq!(frac(0, 1) / frac(5, 3), frac(0, 1));
    assert_eq!(frac(3, 4) / frac(3, 4), frac(1, 1));
}

#[test]
fn rational_division_by_zero_is_zero_over_one() {
    assert_eq!(frac(3, 4) / frac(0, 1), frac(0, 1));
    assert_eq!(frac(3, 4) / 0, frac(0, 1));
}

#[test]
fn rational_with_integers() {
    assert_eq!(frac(1, 2) + 3, frac(7, 2));
    assert_eq!(frac(1, 2) - 3, frac(-5, 2));
    assert_eq!(frac(1, 2) * 4, frac(2, 1));
    assert_eq!(frac(1, 2) * 3, frac(3, 2));
    assert_eq!(frac(3, 2) / 3, frac(1, 2));
    assert_eq!(frac(3, 2) / -3, frac(-1, 2));
    let mut a = frac(1, 2);
    a.add_assign_int(1);
    assert_eq!(a, frac(3, 2));
    a.sub_assign_int(2);
    assert_eq!(a, frac(-1, 2));
    a.mul_assign_int(6);
    assert_eq!(a, frac(-3, 1));
    a.div_assign_int(9);
    assert_eq!(a, frac(-1, 3));
}

#[test]
fn rational_equals_an_integer_only_over_one() {
    assert_eq!(frac(3, 1), 3);
    assert!(frac(3, 2) != 3);
    assert!(frac(6, 2) != 3);
    assert!(frac(3, 1) != 4);
    assert_eq!(Rational::from(-8), -8);
}

#[test]
fn rational_identities_and_inverses() {
    assert_eq!(Rational::one(), frac(1, 1));
    assert_eq!(Rational::zero(), frac(0, 1));
    assert_eq!(Rational::mul_inverse(frac(2, 3)), frac(3, 2));
    assert_eq!(Rational::mul_inverse(frac(-2, 3)), frac(-3, 2));
    assert_eq!(Rational::add_inverse(frac(2, 3)), frac(-2, 3));
    assert!(frac(1, 2).equals(&frac(1, 2)));
    assert!(!frac(1, 2).equals(&frac(1, 3)));
}

#[test]
fn rational_compound_assignment() {
    let mut a = frac(1, 2);
    a.add_assign(frac(1, 3));
    assert_eq!(a, frac(5, 6));
    a.sub_assign(frac(1, 6));
    assert_eq!(a, frac(2, 3));
    a.mul_assign(frac(3, 4));
    assert_eq!(a, frac(1, 2));
    a.div_assign(frac(1, 4));
    assert_eq!(a, frac(2, 1));
}

#[test]
fn rational_field_laws_on_examples() {
    let values = [frac(1, 2), frac(-2, 3), frac(3, 4), frac(0, 1), frac(5, 1), frac(-7, 6)];
    for a in values {
        assert_eq!(a + Rational::zero(), a);
        assert_eq!(a * Rational::one(), a);
        assert_eq!(a + (-a), Rational::zero());
        for b in values {
            assert_eq!(a + b, b + a);
            assert_eq!(a * b, b * a);
            assert_eq!(a - b, a + (-b));
            if b.num != 0 {
                assert_eq!((a / b) * b, a);
            }
            for c in values {
                assert_eq!((a + b) + c, a + (b + c));
                assert_eq!((a * b) * c, a * (b * c));
                assert_eq!(a * (b + c), a * b + a * c);
            }
        }
    }
}

#[test]
fn rational_to_string() {
    assert_eq!(frac(3, 1).to_string(), "3");
    assert_eq!(frac(-3, 1).to_string(), "-3");
    assert_eq!(frac(0, 1).to_string(), "0");
    assert_eq!(frac(1, 2).to_string(), "1/2");
    assert_eq!(frac(-7, 12).to_string(), "-7/12");
    assert_eq!(frac(1234567890, 1).to_string(), "1234567890");
    assert_eq!(frac(i64::MIN, 1).to_string(), "-9223372036854775808");
    assert_eq!(frac(i64::MAX, 10).to_string(), "9223372036854775807/10");
}

#[test]
fn rational_from_integers_mod_2() {
    assert_eq!(Rational::from(IntMod2::Zero), frac(0, 1));
    assert_eq!(Rational::from(IntMod2::One), frac(1, 1));
    let x: i64 = IntMod2::One.into();
    assert_eq!(x, 1);
    let y: i64 = IntMod2::Zero.into();
    assert_eq!(y, 0);
}
