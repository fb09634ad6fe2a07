use linalg::Field;
use linalg::IntMod2;
use linalg::IntMod2::One;
use linalg::IntMod2::Zero;

#[test]
fn int_mod_2_from_integers() {
    assert_eq!(IntMod2::from(0), Zero);
    assert_eq!(IntMod2::from(1), One);
    assert_eq!(IntMod2::from(2), Zero);
    assert_eq!(IntMod2::from(7), One);
    assert_eq!(IntMod2::from(-1), One);
    assert_eq!(IntMod2::from(-4), Zero);
    assert_eq!(Zero.to_int(), 0);
    assert_eq!(One.to_int(), 1);
}

#[test]
fn int_mod_2_addition_and_subtraction() {
    assert_eq!(Zero + Zero, Zero);
    assert_eq!(Zero + One, One);
    assert_eq!(One + Zero, One);
    assert_eq!(One + One, Zero);
    assert_eq!(Zero - Zero, Zero);
    assert_eq!(Zero - One, One);
    assert_eq!(One - Zero, One);
    assert_eq!(One - One, Zero);
    assert_eq!(-One, One);
    assert_eq!(-Zero, Zero);
}

#[test]
fn int_mod_2_multiplication_and_division() {
    assert_eq!(Zero * Zero, Zero);
    assert_eq!(Zero * One, Zero);
    assert_eq!(One * Zero, Zero);
    assert_eq!(One * One, One);
    assert_eq!(Zero / One, Zero);
    assert_eq!(One / One, One);
}

#[test]
fn int_mod_2_with_integers() {
    assert_eq!(One + 3, Zero);
    assert_eq!(One + 4, One);
    assert_eq!(One - 3, Zero);
    assert_eq!(One * 3, One);
    assert_eq!(One * 4, Zero);
    let mut a = One;
    a.add_assign_int(5);
    assert_eq!(a, Zero);
    a.sub_assign_int(1);
    assert_eq!(a, One);
    a.mul_assign_int(2);
    assert_eq!(a, Zero);
}

#[test]
fn int_mod_2_identities_and_inverses() {
    assert_eq!(IntMod2::one(), One);
    assert_eq!(IntMod2::zero(), Zero);
    assert_eq!(IntMod2::mul_inverse(One), One);
    assert_eq!(IntMod2::add_inverse(One), One);
    assert_eq!(IntMod2::add_inverse(Zero), Zero);
    assert!(One.equals(&One));
    assert!(!One.equals(&Zero));
}

#[test]
fn int_mod_2_compound_assignment() {
    let mut a = One;
    a.add_assign(One);
    assert_eq!(a, Zero);
    a.sub_assign(One);
    assert_eq!(a, One);
    a.mul_assign(One);
    assert_eq!(a, One);
    a.div_assign(One);
    assert_eq!(a, One);
}

#[test]
fn int_mod_2_field_laws() {
    let values = [Zero, One];
    for a in values {
        assert_eq!(a + Zero, a);
        assert_eq!(a * One, a);
        assert_eq!(a + (-a), Zero);
        for b in values {
            assert_eq!(a + b, b + a);
            assert_eq!(a * b, b * a);
            for c in values {
                assert_eq!((a + b) + c, a + (b + c));
                assert_eq!((a * b) * c, a * (b * c));
                assert_eq!(a * (b + c), a * b + a * c);
            }
        }
    }
}

#[test]
fn int_mod_2_to_string() {
    assert_eq!(Zero.to_string(), "0");
    assert_eq!(One.to_string(), "1");
}
