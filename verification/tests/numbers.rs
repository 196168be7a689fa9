use rustanel::highlighting::{parse_number, to_digit, wrapping_parse};

#[test]
fn minus_one_is_all_ones() {
    assert_eq!(wrapping_parse("-1"), Some(0xFFFF));
    assert_eq!(wrapping_parse("0xFFFF"), Some(0xFFFF));
    assert_eq!(wrapping_parse("65535"), Some(0xFFFF));
    assert_eq!(wrapping_parse("-0x1"), Some(0xFFFF));
}

#[test]
fn decimal_literals() {
    assert_eq!(wrapping_parse("0"), Some(0));
    assert_eq!(wrapping_parse("007"), Some(7));
    assert_eq!(wrapping_parse("4095"), Some(4095));
    assert_eq!(wrapping_parse("-32768"), Some(32768));
}

#[test]
fn hexadecimal_literals_in_either_case() {
    assert_eq!(wrapping_parse("0x0"), Some(0));
    assert_eq!(wrapping_parse("0xAbC"), Some(0xABC));
    assert_eq!(wrapping_parse("0xabc"), Some(0xABC));
    assert_eq!(wrapping_parse("0x10"), Some(16));
    assert_eq!(wrapping_parse("-0x10"), Some(0xFFF0));
}

#[test]
fn overflow_wraps() {
    assert_eq!(wrapping_parse("65536"), Some(0));
    assert_eq!(wrapping_parse("65537"), Some(1));
    assert_eq!(wrapping_parse("-65536"), Some(0));
    assert_eq!(wrapping_parse("123456789"), Some(52501));
    assert_eq!(wrapping_parse("2147483648"), Some(0));
    assert_eq!(wrapping_parse("4294967296"), Some(0));
    assert_eq!(wrapping_parse("99999999999"), Some(59391));
    assert_eq!(wrapping_parse("-99999999999"), Some(6145));
    assert_eq!(wrapping_parse("0x12345"), Some(0x2345));
    assert_eq!(wrapping_parse("0xFFFFFFFFFFFFFFFFFFFF"), Some(0xFFFF));
}

#[test]
fn what_is_no_number() {
    for text in ["", "-", "0x", "-0x", "0X10", " 1", "1 ", "+1", "12a", "0xg", "--1", "1-", "x1", "٣", "1_000"] {
        assert_eq!(wrapping_parse(text), None, "{text:?}");
    }
}

#[test]
fn a_lone_zero_before_x_is_a_prefix_only_once() {
    assert_eq!(wrapping_parse("0x0x1"), None);
    assert_eq!(wrapping_parse("00x1"), None);
}

#[test]
fn digits() {
    assert_eq!(to_digit('0', 10), Some(0));
    assert_eq!(to_digit('9', 10), Some(9));
    assert_eq!(to_digit('a', 10), None);
    assert_eq!(to_digit('a', 16), Some(10));
    assert_eq!(to_digit('F', 16), Some(15));
    assert_eq!(to_digit('g', 16), None);
    assert_eq!(to_digit('/', 16), None);
    assert_eq!(to_digit(':', 16), None);
    assert_eq!(to_digit('@', 16), None);
    assert_eq!(to_digit('`', 16), None);
    for c in ['0', '7', 'a', 'Z', 'é', ' '] {
        for base in [10u32, 16] {
            assert_eq!(to_digit(c, base), c.to_digit(base));
        }
    }
}

#[test]
fn numbers_of_characters() {
    let text: Vec<char> = "-0x1f".chars().collect();
    assert_eq!(parse_number(&text), Some(0xFFE1));
    assert_eq!(parse_number(&[]), None);
}
