use blog3::digits::{push_decimal, push_padded};

#[test]
fn decimal_numerals() {
    for n in [0u64, 1, 9, 10, 11, 99, 100, 12345, 1_000_000, u64::MAX] {
        let mut out = String::new();
        push_decimal(&mut out, n);
        assert_eq!(out, n.to_string());
    }
}

#[test]
fn decimal_appends_to_what_is_there() {
    let mut out = String::from("base-");
    push_decimal(&mut out, 42);
    assert_eq!(out, "base-42");
}

#[test]
fn padded_numerals() {
    let cases = [
        (0u64, 0usize, "0"),
        (0, 1, "0"),
        (0, 4, "0000"),
        (7, 2, "07"),
        (12, 2, "12"),
        (123, 2, "123"),
        (2024, 4, "2024"),
        (5, 3, "005"),
    ];
    for (n, width, expected) in cases {
        let mut out = String::new();
        push_padded(&mut out, n, width);
        assert_eq!(out, expected);
    }
}

#[test]
fn padded_appends_to_what_is_there() {
    let mut out = String::from("x");
    push_padded(&mut out, 3, 2);
    assert_eq!(out, "x03");
}
