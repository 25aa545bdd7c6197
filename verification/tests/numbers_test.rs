use mpm::numbers::{i64_to_chars, is_all_digits, padded_chars, parse_number, timestamp_chars, u64_to_chars};

fn text(chars: Vec<char>) -> String {
    chars.into_iter().collect()
}

fn chars(s: &str) -> Vec<char> {
    s.chars().collect()
}

#[test]
fn decimal_text_of_numbers() {
    assert_eq!(text(u64_to_chars(0)), "0");
    assert_eq!(text(u64_to_chars(7)), "7");
    assert_eq!(text(u64_to_chars(1234567890)), "1234567890");
    assert_eq!(text(u64_to_chars(u64::MAX)), "18446744073709551615");
    assert_eq!(text(i64_to_chars(-42)), "-42");
    assert_eq!(text(i64_to_chars(i64::MIN)), "-9223372036854775808");
    assert_eq!(text(i64_to_chars(i64::MAX)), "9223372036854775807");
}

#[test]
fn parsing_digits_within_a_limit() {
    assert_eq!(parse_number(&chars("0"), 10), Some(0));
    assert_eq!(parse_number(&chars("007"), 10), Some(7));
    assert_eq!(parse_number(&chars("10"), 10), Some(10));
    assert_eq!(parse_number(&chars("11"), 10), None);
    assert_eq!(parse_number(&chars(""), 10), None);
    assert_eq!(parse_number(&chars("1a"), 100), None);
    assert_eq!(parse_number(&chars("-1"), 100), None);
    assert_eq!(parse_number(&chars("9223372036854775807"), i64::MAX as u64), Some(9223372036854775807));
    assert_eq!(parse_number(&chars("9223372036854775808"), i64::MAX as u64), None);
    assert_eq!(parse_number(&chars("99999999999999999999999"), u64::MAX), None);
    assert_eq!(parse_number(&chars("5"), 3), None);
}

#[test]
fn digits_only() {
    assert!(is_all_digits(&chars("0123456789")));
    assert!(is_all_digits(&chars("")));
    assert!(!is_all_digits(&chars("12x")));
    assert!(!is_all_digits(&chars("\u{661}")));
}

#[test]
fn padded_text_has_the_width() {
    assert_eq!(text(padded_chars(42, 5)), "00042");
    assert_eq!(text(padded_chars(123456, 3)), "456");
    assert_eq!(text(padded_chars(9, 0)), "");
}

#[test]
fn timestamp_text_sorts_like_the_times() {
    assert_eq!(text(timestamp_chars(0)), "09223372036854775808");
    assert_eq!(text(timestamp_chars(i64::MIN)), "00000000000000000000");
    assert_eq!(text(timestamp_chars(i64::MAX)), "18446744073709551615");
    let times = [i64::MIN, -5, -1, 0, 9, 10, 99, 100, 1_700_000_000, 17_000_000_000, i64::MAX];
    for a in times {
        for b in times {
            assert_eq!(a <= b, text(timestamp_chars(a)) <= text(timestamp_chars(b)));
        }
    }
}
