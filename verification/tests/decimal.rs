use malstrom::decimal::{i32_decimal, u64_decimal};

#[test]
fn decimal_text_matches_to_string() {
    for n in [0u64, 7, 10, 1234, 1_000_000, u64::MAX] {
        assert_eq!(u64_decimal(n), n.to_string());
    }
    for i in [0i32, 3, -5, -1200, i32::MAX, i32::MIN] {
        assert_eq!(i32_decimal(i), i.to_string());
    }
}
