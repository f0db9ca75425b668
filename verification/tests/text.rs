use tdx_qgs::text::{
    all_hex_digits, encode_hex_lower, hex_digit, parse_u64, split_once, trim, u64_to_decimal,
    whitespace,
};

#[test]
fn trimming_matches_str_trim() {
    for s in ["", "   ", " a b ", "\t\nx\r\n", "\u{3000}wide\u{a0}", "no-space"] {
        assert_eq!(trim(s), s.trim(), "case {s:?}");
    }
    assert!(whitespace('\u{85}'));
    assert!(!whitespace('x'));
}

#[test]
fn split_once_at_first_separator() {
    assert_eq!(split_once("a=b=c", '='), Some(("a".to_string(), "b=c".to_string())));
    assert_eq!(split_once("=x", '='), Some((String::new(), "x".to_string())));
    assert_eq!(split_once("none", '='), None);
}

#[test]
fn decimal_roundtrip() {
    for n in [0u64, 7, 10, 1234567890, u64::MAX] {
        let s = u64_to_decimal(n);
        assert_eq!(s, n.to_string());
        assert_eq!(parse_u64(&s), Some(n));
    }
}

#[test]
fn parse_u64_matches_std() {
    for s in ["", "+", "+0", "007", "-1", "1 ", " 1", "18446744073709551615", "18446744073709551616", "12a", "\u{661}"] {
        assert_eq!(parse_u64(s), s.parse::<u64>().ok(), "case {s:?}");
    }
}

#[test]
fn hex_helpers() {
    assert_eq!(encode_hex_lower(&[0x00, 0x0f, 0xa0, 0xff]), "000fa0ff");
    assert_eq!(encode_hex_lower(&[]), "");
    assert!(hex_digit(b'F') && hex_digit(b'0') && !hex_digit(b'g'));
    assert!(all_hex_digits(b"09afAF"));
    assert!(!all_hex_digits(b"0x"));
}
