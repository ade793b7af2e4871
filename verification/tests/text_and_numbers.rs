use gdq_tracker::decimal::{parse_i32, parse_i64, parse_u32, push_i64_decimal, u64_to_decimal};
use gdq_tracker::money::{amount_from_capture, format_dollars, parse_donation_amount};
use gdq_tracker::text::{chars_match, chars_of, is_whitespace_char, remove_char, string_from_chars, trim_chars};

fn cs(s: &str) -> Vec<char> {
    s.chars().collect()
}

#[test]
fn format_dollars_writes_dollars_and_unpadded_cents() {
    assert_eq!(format_dollars(1205), "$12.5");
    assert_eq!(format_dollars(1250), "$12.50");
    assert_eq!(format_dollars(0), "$0.0");
    assert_eq!(format_dollars(100), "$1.0");
    assert_eq!(format_dollars(99), "$0.99");
    assert_eq!(format_dollars(-150), "$-1.-50");
    assert_eq!(format_dollars(-5), "$0.-5");
    assert_eq!(format_dollars(i64::MIN), "$-92233720368547758.-8");
    assert_eq!(format_dollars(i64::MAX), "$92233720368547758.7");
}

#[test]
fn decimal_printing_matches_display() {
    for n in [0u64, 7, 10, 99, 100, 12345, u64::MAX] {
        assert_eq!(u64_to_decimal(n), n.to_string());
    }
    for i in [0i64, -1, 5, -10, i64::MIN, i64::MAX] {
        let mut s = String::from("x");
        push_i64_decimal(&mut s, i);
        assert_eq!(s, format!("x{}", i));
    }
}

#[test]
fn parse_u32_follows_from_str() {
    for s in ["0", "7", "+12", "-0", "", "+", "12a", " 1", "4294967295", "4294967296", "00012", "٣"] {
        assert_eq!(parse_u32(&cs(s)), s.parse::<u32>().ok(), "input {:?}", s);
    }
}

#[test]
fn parse_i64_follows_from_str() {
    for s in [
        "0", "-1", "+1", "-", "+", "--1", "-+1", "9223372036854775807", "9223372036854775808",
        "-9223372036854775808", "-9223372036854775809", "123456", "1,2", "99999999999999999999999",
    ] {
        assert_eq!(parse_i64(&cs(s)), s.parse::<i64>().ok(), "input {:?}", s);
    }
}

#[test]
fn parse_i32_follows_from_str() {
    for s in ["2147483647", "2147483648", "-2147483648", "-2147483649", "12", "x", "-"] {
        assert_eq!(parse_i32(&cs(s)), s.parse::<i32>().ok(), "input {:?}", s);
    }
}

#[test]
fn decimal_round_trip_scenarios() {
    for n in [0u32, 1, 10, 4294967295] {
        assert_eq!(parse_u32(&cs(&u64_to_decimal(n as u64))), Some(n));
    }
    for i in [0i64, -1, i64::MIN, i64::MAX, 1205] {
        let mut s = String::new();
        push_i64_decimal(&mut s, i);
        assert_eq!(parse_i64(&cs(&s)), Some(i));
    }
}

#[test]
fn trimming_follows_str_trim() {
    for s in ["", "  ", " a ", "\u{a0}x\u{3000}", "\t\nYes\r\n", "a b", "\u{85}q\u{2029}", "\u{200b}z"] {
        let t = trim_chars(&cs(s));
        assert_eq!(string_from_chars(&t), s.trim(), "input {:?}", s);
    }
    for c in ['\u{9}', '\u{d}', ' ', '\u{85}', '\u{a0}', '\u{1680}', '\u{2000}', '\u{200a}', '\u{2028}', '\u{2029}', '\u{202f}', '\u{205f}', '\u{3000}', 'a', '\u{200b}', '\u{180e}'] {
        assert_eq!(is_whitespace_char(c), c.is_whitespace(), "char {:?}", c);
    }
}

#[test]
fn removing_characters() {
    assert_eq!(string_from_chars(&remove_char(&cs("$1,234.56"), ',')), "$1234.56");
    assert_eq!(string_from_chars(&remove_char(&cs(",,,"), ',')), "");
    assert!(chars_match(&cs("Yes"), "Yes"));
    assert!(!chars_match(&cs("Yes "), "Yes"));
    assert_eq!(chars_of("héllo"), vec!['h', 'é', 'l', 'l', 'o']);
}

#[test]
fn amounts_in_cents() {
    assert_eq!(parse_donation_amount(" $1,234.56 \n"), Some(123456));
    assert_eq!(parse_donation_amount("$25.00"), Some(2500));
    assert_eq!(parse_donation_amount("$5"), Some(5));
    assert_eq!(parse_donation_amount("$ 5.00"), None);
    assert_eq!(parse_donation_amount(""), None);
    assert_eq!(amount_from_capture("1,000.50"), Some(100050));
    assert_eq!(amount_from_capture("..."), None);
}
