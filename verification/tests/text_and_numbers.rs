use bbg::decimal::{parse_decimal, push_decimal, push_signed, push_two_digit, u64_text};
use bbg::text::{join, same_text, shorten, starts_with};

#[test]
fn decimal_text_of_numbers() {
    assert_eq!(u64_text(0), "0");
    assert_eq!(u64_text(7), "7");
    assert_eq!(u64_text(1234), "1234");
    assert_eq!(u64_text(u64::MAX), u64::MAX.to_string());
}

#[test]
fn decimal_text_is_appended() {
    let mut s = String::from("n=");
    push_decimal(&mut s, 905);
    assert_eq!(s, "n=905");
}

#[test]
fn signed_text() {
    let mut s = String::new();
    push_signed(&mut s, -42);
    assert_eq!(s, "-42");
    let mut s = String::new();
    push_signed(&mut s, i64::MIN);
    assert_eq!(s, i64::MIN.to_string());
    let mut s = String::new();
    push_signed(&mut s, 0);
    assert_eq!(s, "0");
}

#[test]
fn two_digit_padding() {
    let mut s = String::new();
    push_two_digit(&mut s, 5);
    assert_eq!(s, "05");
    let mut s = String::new();
    push_two_digit(&mut s, 42);
    assert_eq!(s, "42");
    let mut s = String::new();
    push_two_digit(&mut s, 123);
    assert_eq!(s, "123");
}

#[test]
fn parse_accepts_what_std_accepts() {
    let max = u32::MAX as u64;
    for text in ["0", "42", "+42", "007", "4294967295", "", "+", "-1", "-0", "4294967296", "12a", "٣", " 1", "1 ", "++1"] {
        let expected = text.parse::<u32>().ok().map(|v| v as u64);
        assert_eq!(parse_decimal(text, max), expected, "text {:?}", text);
    }
}

#[test]
fn parse_u64_bounds() {
    assert_eq!(parse_decimal("18446744073709551615", u64::MAX), Some(u64::MAX));
    assert_eq!(parse_decimal("18446744073709551616", u64::MAX), None);
    assert_eq!(parse_decimal("99999999999999999999999", u64::MAX), None);
}

#[test]
fn parse_reads_back_decimal_text() {
    for n in [0u64, 1, 9, 10, 255, 65535, 4294967295] {
        assert_eq!(parse_decimal(&u64_text(n), u32::MAX as u64), Some(n));
    }
}

#[test]
fn text_equality_and_prefix() {
    assert!(same_text("abc", "abc"));
    assert!(!same_text("abc", "abd"));
    assert!(!same_text("ab", "abc"));
    assert!(starts_with("image/png", "image/"));
    assert!(!starts_with("text/plain", "image/"));
    assert!(!starts_with("ima", "image/"));
    assert!(starts_with("anything", ""));
}

#[test]
fn join_like_std() {
    let items = vec!["a".to_string(), "bb".to_string(), "c".to_string()];
    assert_eq!(join(&items, ", "), items.join(", "));
    assert_eq!(join(&[], ", "), "");
    assert_eq!(join(&["only".to_string()], ", "), "only");
}

#[test]
fn shorten_cuts_after_150_chars() {
    let long = "é".repeat(200);
    let short = shorten(&long);
    assert_eq!(short, format!("{}...", "é".repeat(150)));
    let exact = "x".repeat(150);
    assert_eq!(shorten(&exact), exact);
    assert_eq!(shorten("hi"), "hi");
}
