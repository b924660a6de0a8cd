use httpcache::numbers::{lesser_of, sum_bounded, to_signed, to_unsigned};
use httpcache::text::{
    chars_of, decimal_text, ends_with, is_blank, joined, parse_u64, same, same_ignoring_case,
    split_chars, starts_with, sub_chars, text_of, to_lower, trim_chars,
};

fn number(s: &str) -> Option<u64> {
    parse_u64(&chars_of(s))
}

#[test]
fn numbers_are_read() {
    assert_eq!(number("0"), Some(0));
    assert_eq!(number("0042"), Some(42));
    assert_eq!(number("+7"), Some(7));
    assert_eq!(number("18446744073709551615"), Some(u64::MAX));
    assert_eq!(number("18446744073709551616"), None);
    assert_eq!(number("99999999999999999999999"), None);
    assert_eq!(number(""), None);
    assert_eq!(number("+"), None);
    assert_eq!(number("-1"), None);
    assert_eq!(number(" 1"), None);
    assert_eq!(number("1a"), None);
}

#[test]
fn numbers_are_written_and_read_back() {
    for n in [0, 9, 10, 80, 65535, 1_073_741_824, u64::MAX] {
        assert_eq!(decimal_text(n), n.to_string());
        assert_eq!(number(decimal_text(n).as_str()), Some(n));
    }
}

#[test]
fn texts_are_trimmed() {
    let trimmed = |s: &str| text_of(&trim_chars(&chars_of(s)));
    assert_eq!(trimmed(" \t a b\r\n"), "a b");
    assert_eq!(trimmed("\u{a0}x\u{3000}"), "x");
    assert_eq!(trimmed(""), "");
    assert!(is_blank(" \t\u{2003}"));
    assert!(!is_blank(" x "));
}

#[test]
fn texts_are_split() {
    let parts = |s: &str| -> Vec<String> {
        split_chars(&chars_of(s), ',').iter().map(text_of).collect()
    };
    assert_eq!(parts("a,b"), vec!["a", "b"]);
    assert_eq!(parts(",a,"), vec!["", "a", ""]);
    assert_eq!(parts(""), vec![""]);
}

#[test]
fn texts_are_compared() {
    assert_eq!(to_lower("ÄBC-d"), "Äbc-d");
    assert!(same("a", "a"));
    assert!(!same("a", "A"));
    assert!(same_ignoring_case(&chars_of("No-Store"), "no-store"));
    assert!(!same_ignoring_case(&chars_of("no-stor"), "no-store"));
    assert!(starts_with(&chars_of("max-age=1"), "max-age="));
    assert!(!starts_with(&chars_of("max"), "max-age="));
    assert!(ends_with(&chars_of("a.b"), &chars_of(".b")));
    assert!(!ends_with(&chars_of("b"), &chars_of(".b")));
    assert_eq!(joined("a", "b"), "ab");
    assert_eq!(text_of(&sub_chars(&chars_of("abcd"), 1, 3)), "bc");
}

#[test]
fn integers_keep_their_bits() {
    for n in [0, 1, i64::MAX as u64, i64::MAX as u64 + 1, u64::MAX] {
        assert_eq!(to_signed(n), n as i64);
        assert_eq!(to_unsigned(to_signed(n)), n);
    }
    assert_eq!(to_unsigned(-1), u64::MAX);
}

#[test]
fn sums_stop_at_the_ends() {
    assert_eq!(sum_bounded(1, 2), 3);
    assert_eq!(sum_bounded(i64::MAX, 1), i64::MAX);
    assert_eq!(sum_bounded(i64::MIN, -1), i64::MIN);
    assert_eq!(lesser_of(2, 1), 1);
    assert_eq!(lesser_of(1, 2), 1);
}
