use pastebin::codec::decimal_string;
use pastebin::codec::is_valid_id;
use pastebin::codec::decimal_width;
use pastebin::codec::encode_base62;
use pastebin::codec::encode_radix;

#[test]
fn base62_of_zero_is_zero_symbol() {
    assert_eq!(encode_base62(0), "0");
}

#[test]
fn base62_single_symbols() {
    assert_eq!(encode_base62(9), "9");
    assert_eq!(encode_base62(10), "a");
    assert_eq!(encode_base62(35), "z");
    assert_eq!(encode_base62(36), "A");
    assert_eq!(encode_base62(61), "Z");
}

#[test]
fn base62_multi_symbol_values() {
    assert_eq!(encode_base62(62), "10");
    assert_eq!(encode_base62(63), "11");
    assert_eq!(encode_base62(12345), "3d7");
    assert_eq!(encode_base62(62 * 62), "100");
}

#[test]
fn base62_distinct_values_distinct_strings() {
    let mut seen = Vec::new();
    for v in 0..4000u64 {
        let s = encode_base62(v);
        assert!(!seen.contains(&s), "duplicate encoding for {}", v);
        seen.push(s);
    }
}

#[test]
fn decimal_rendering() {
    assert_eq!(decimal_string(0), "0");
    assert_eq!(decimal_string(7), "7");
    assert_eq!(decimal_string(42), "42");
    assert_eq!(decimal_string(100), "100");
}

#[test]
fn decimal_width_counts_digits() {
    assert_eq!(decimal_width(0), 1);
    assert_eq!(decimal_width(9), 1);
    assert_eq!(decimal_width(10), 2);
    assert_eq!(decimal_width(99), 2);
    assert_eq!(decimal_width(100), 3);
}

#[test]
fn valid_id_accepts_the_alphabet_alone() {
    assert!(is_valid_id("0aZ9"));
    assert!(!is_valid_id(""));
    assert!(!is_valid_id("../secret"));
    assert!(!is_valid_id("a b"));
    assert!(!is_valid_id("caf\u{e9}"));
    for v in [0u64, 61, 62, 3843, 123456789] {
        assert!(is_valid_id(&encode_base62(v)));
    }
}

#[test]
fn radix_two_renders_binary() {
    assert_eq!(encode_radix(6, 2), "110");
    assert_eq!(encode_radix(0, 2), "0");
}
