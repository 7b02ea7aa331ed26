use lincstation_leds::text::{
    append_decimal, chars_of, is_space_char, parse_i32, parse_u32, parse_u64, parse_u8_hex,
    same_text, strip_prefix_str, trim_start_matches_str, trim_str, word_ranges,
};

#[test]
fn whitespace_characters() {
    assert!(is_space_char(' '));
    assert!(is_space_char('\t'));
    assert!(is_space_char('\n'));
    assert!(is_space_char('\u{3000}'));
    assert!(!is_space_char('a'));
    assert!(!is_space_char('0'));
    for c in ['\u{85}', '\u{a0}', '\u{2000}', '\u{200a}', '\u{2028}', '\u{205f}'] {
        assert_eq!(is_space_char(c), c.is_whitespace());
    }
}

#[test]
fn trim_removes_surrounding_whitespace() {
    assert_eq!(trim_str("  running\n"), "running");
    assert_eq!(trim_str("live"), "live");
    assert_eq!(trim_str(" \t\n "), "");
    assert_eq!(trim_str(""), "");
    assert_eq!(trim_str(" a b "), "a b");
}

#[test]
fn word_positions() {
    let v = chars_of("  8  0 sda 12 ");
    let r = word_ranges(&v);
    assert_eq!(r, vec![(2, 3), (5, 6), (7, 10), (11, 13)]);
    assert!(word_ranges(&chars_of("   ")).is_empty());
}

#[test]
fn unsigned_parsing_follows_std() {
    for s in ["0", "42", "+7", "-1", "", "+", "-", "18446744073709551615", "18446744073709551616", "1a", " 1", "007"] {
        assert_eq!(parse_u64(s), s.parse::<u64>().ok(), "u64 {:?}", s);
    }
    for s in ["4294967295", "4294967296", "12", "-0", "+0"] {
        assert_eq!(parse_u32(s), s.parse::<u32>().ok(), "u32 {:?}", s);
    }
}

#[test]
fn signed_parsing_follows_std() {
    for s in ["0", "-0", "+12", "-12", "2147483647", "2147483648", "-2147483648", "-2147483649", "-", "+", "", "x1"] {
        assert_eq!(parse_i32(s), s.parse::<i32>().ok(), "i32 {:?}", s);
    }
}

#[test]
fn hex_byte_parsing_follows_std() {
    for s in ["01", "3a", "3B", "ff", "FF", "100", "+a", "-1", "0x01", "", "g"] {
        assert_eq!(parse_u8_hex(s), u8::from_str_radix(s, 16).ok(), "hex {:?}", s);
    }
}

#[test]
fn prefixes() {
    assert_eq!(trim_start_matches_str("0x0x05", "0x"), "05");
    assert_eq!(trim_start_matches_str("0x01 0x01\n", "0x"), "01 0x01\n");
    assert_eq!(trim_start_matches_str("abc", ""), "abc");
    assert_eq!(strip_prefix_str("i2c-3", "i2c-"), Some("3"));
    assert_eq!(strip_prefix_str("spi-3", "i2c-"), None);
    assert!(same_text("abc", "abc"));
    assert!(!same_text("abc", "abd"));
}

#[test]
fn decimal_formatting() {
    for n in [0, 7, 10, 305, -1, -42, i32::MAX as i64, i32::MIN as i64, i64::MAX, i64::MIN] {
        let mut s = String::from("x");
        append_decimal(&mut s, n);
        assert_eq!(s, format!("x{}", n));
    }
}
