use toggl_openproject::decimal::{i64_to_string, u64_to_string};

#[test]
fn unsigned_numerals() {
    assert_eq!(u64_to_string(0), "0");
    assert_eq!(u64_to_string(7), "7");
    assert_eq!(u64_to_string(10), "10");
    assert_eq!(u64_to_string(999), "999");
    assert_eq!(u64_to_string(1800), "1800");
    assert_eq!(u64_to_string(u64::MAX), "18446744073709551615");
}

#[test]
fn signed_numerals() {
    assert_eq!(i64_to_string(0), "0");
    assert_eq!(i64_to_string(60), "60");
    assert_eq!(i64_to_string(-1), "-1");
    assert_eq!(i64_to_string(-1700000000), "-1700000000");
    assert_eq!(i64_to_string(i64::MAX), "9223372036854775807");
    assert_eq!(i64_to_string(i64::MIN), "-9223372036854775808");
}

#[test]
fn numerals_agree_with_std() {
    for n in [0u64, 1, 9, 10, 11, 99, 100, 101, 12345, 4_000_000_000, u64::MAX - 1] {
        assert_eq!(u64_to_string(n), n.to_string());
    }
    for n in [-100i64, -99, -10, -9, 59, 60, 61, 3600] {
        assert_eq!(i64_to_string(n), n.to_string());
    }
}
