use linalg::text::int_to_string;

#[test]
fn decimal_text_of_integers() {
    assert_eq!(int_to_string(0), "0");
    assert_eq!(int_to_string(7), "7");
    assert_eq!(int_to_string(10), "10");
    assert_eq!(int_to_string(-10), "-10");
    assert_eq!(int_to_string(1002003), "1002003");
    assert_eq!(int_to_string(i64::MAX), "9223372036854775807");
    assert_eq!(int_to_string(i64::MIN), "-9223372036854775808");
    for x in [-12345i64, -1, 1, 99, 100, 101, 65536] {
        assert_eq!(int_to_string(x), format!("{}", x));
    }
}
