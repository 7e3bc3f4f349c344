use proctree::text::{first_line_of, parse_i32, parse_u64, split_words};

#[test]
fn parse_u64_accepts_digits_and_plus() {
    assert_eq!(parse_u64("42"), Some(42));
    assert_eq!(parse_u64("+7"), Some(7));
    assert_eq!(parse_u64("007"), Some(7));
    assert_eq!(parse_u64("18446744073709551615"), Some(u64::MAX));
}

#[test]
fn parse_u64_refuses_other_text() {
    assert_eq!(parse_u64(""), None);
    assert_eq!(parse_u64("+"), None);
    assert_eq!(parse_u64("-1"), None);
    assert_eq!(parse_u64("4a"), None);
    assert_eq!(parse_u64(" 4"), None);
    assert_eq!(parse_u64("18446744073709551616"), None);
    assert_eq!(parse_u64("99999999999999999999999"), None);
}

#[test]
fn parse_u64_agrees_with_std() {
    for s in ["0", "12", "+3", "-0", "", "x", "1.5", "184467440737095516150"] {
        assert_eq!(parse_u64(s), s.parse::<u64>().ok());
    }
}

#[test]
fn parse_i32_handles_signs_and_range() {
    assert_eq!(parse_i32("-2147483648"), Some(i32::MIN));
    assert_eq!(parse_i32("2147483647"), Some(i32::MAX));
    assert_eq!(parse_i32("2147483648"), None);
    assert_eq!(parse_i32("-2147483649"), None);
    assert_eq!(parse_i32("+15"), Some(15));
    assert_eq!(parse_i32("-15"), Some(-15));
    assert_eq!(parse_i32("-"), None);
    assert_eq!(parse_i32("abc"), None);
    for s in ["1", "-0", "+0", "--1", "3000000000", " 1"] {
        assert_eq!(parse_i32(s), s.parse::<i32>().ok());
    }
}

#[test]
fn split_words_splits_on_any_whitespace() {
    assert_eq!(split_words("  a b\tc\n"), vec!["a", "b", "c"]);
    assert_eq!(split_words(""), Vec::<String>::new());
    assert_eq!(split_words(" \t\n"), Vec::<String>::new());
    assert_eq!(split_words("one"), vec!["one"]);
    let odd = "x\u{a0}y\u{3000}z";
    let expected: Vec<&str> = odd.split_whitespace().collect();
    assert_eq!(split_words(odd), expected);
}

#[test]
fn first_line_of_takes_text_before_newline() {
    assert_eq!(first_line_of("cpu 1 2\nx"), Some("cpu 1 2".to_string()));
    assert_eq!(first_line_of("only"), Some("only".to_string()));
    assert_eq!(first_line_of("a\r\nb"), Some("a".to_string()));
    assert_eq!(first_line_of("\n"), Some(String::new()));
    assert_eq!(first_line_of(""), None);
}
