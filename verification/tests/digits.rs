use recall::digits::{decimal_chars, hex_fixed_chars, parse_hex_u64_chars, parse_i32_chars, parse_unsigned_chars};

fn chars(s: &str) -> Vec<char> {
    s.chars().collect()
}

#[test]
fn decimal_formatting() {
    assert_eq!(decimal_chars(0), chars("0"));
    assert_eq!(decimal_chars(1234567890), chars("1234567890"));
    assert_eq!(decimal_chars(u64::MAX), chars("18446744073709551615"));
}

#[test]
fn unsigned_parsing_follows_str_parse() {
    for s in ["0", "+7", "42", "007", "18446744073709551615", "", "+", "-1", " 1", "1 ", "1a", "18446744073709551616"] {
        assert_eq!(parse_unsigned_chars(&chars(s), u64::MAX), s.parse::<u64>().ok(), "{s}");
    }
    for s in ["255", "256", "+255"] {
        assert_eq!(parse_unsigned_chars(&chars(s), u8::MAX as u64).map(|v| v as u8), s.parse::<u8>().ok(), "{s}");
    }
}

#[test]
fn i32_parsing_follows_str_parse() {
    for s in ["0", "-0", "-1", "+5", "2147483647", "2147483648", "-2147483648", "-2147483649", "-", "--1", "+-1", ""] {
        assert_eq!(parse_i32_chars(&chars(s)), s.parse::<i32>().ok(), "{s}");
    }
}

#[test]
fn hex_roundtrip() {
    for x in [0u64, 1, 0xdead_beef, u64::MAX] {
        let h = hex_fixed_chars(x, 16);
        assert_eq!(h.iter().collect::<String>(), format!("{x:016x}"));
        assert_eq!(parse_hex_u64_chars(&h), Some(x));
    }
}

#[test]
fn hex_parsing_follows_from_str_radix() {
    for s in ["ff", "FF", "+a", "", "g", "10000000000000000", "ffffffffffffffff", "-1"] {
        assert_eq!(parse_hex_u64_chars(&chars(s)), u64::from_str_radix(s, 16).ok(), "{s}");
    }
}
