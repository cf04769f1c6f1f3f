use rust_ws_benchmark::text::{push_decimal, repeat};

fn decimal(n: u128) -> String {
    let mut out = String::new();
    push_decimal(&mut out, n);
    out
}

#[test]
fn numbers_are_written_in_decimal() {
    for n in [0, 1, 9, 10, 11, 99, 100, 1000, 65_535, u64::MAX as u128, u128::MAX] {
        assert_eq!(decimal(n), n.to_string());
        assert_eq!(decimal(n).parse::<u128>().unwrap(), n);
    }
}

#[test]
fn numbers_are_appended() {
    let mut out = "at ".to_string();
    push_decimal(&mut out, 1_700_000_000_123);
    assert_eq!(out, "at 1700000000123");
}

#[test]
fn one_character_is_repeated() {
    assert_eq!(repeat("x", 0), "");
    assert_eq!(repeat("X", 5), "XXXXX");
    assert_eq!(repeat("x", 1000), "x".repeat(1000));
}
