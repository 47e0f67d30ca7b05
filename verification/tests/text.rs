use pixhub::text::{
    begins_with, comma_items, digits_only, finishes_with, lower_text, number_text, parse_signed,
    parse_unsigned, pieces, trim_text,
};

#[test]
fn numbers_are_written_and_read() {
    assert_eq!(number_text(0), "0");
    assert_eq!(number_text(10_203), "10203");
    assert_eq!(number_text(u64::MAX), "18446744073709551615");
    assert_eq!(parse_unsigned("+10203", 65535), Some(10203));
    assert_eq!(parse_unsigned(&number_text(987_654), 1_000_000), Some(987_654));
}

#[test]
fn numbers_that_are_none_are_refused() {
    assert_eq!(parse_unsigned("", 10), None);
    assert_eq!(parse_unsigned("+", 10), None);
    assert_eq!(parse_unsigned("-0", 10), None);
    assert_eq!(parse_unsigned(" 1", 10), None);
    assert_eq!(parse_unsigned("65536", 65535), None);
    assert_eq!(parse_unsigned("00065535", 65535), Some(65535));
    assert_eq!(parse_unsigned("18446744073709551616", u64::MAX), None);
    assert_eq!(parse_unsigned("99999999999999999999999999999999999999999", u64::MAX), None);
}

#[test]
fn signed_numbers_are_those_of_thirty_two_bits() {
    assert_eq!(parse_signed("12"), Some(12));
    assert_eq!(parse_signed("-12"), Some(-12));
    assert_eq!(parse_signed("+12"), Some(12));
    assert_eq!(parse_signed("2147483647"), Some(i32::MAX));
    assert_eq!(parse_signed("2147483648"), None);
    assert_eq!(parse_signed("-2147483648"), Some(i32::MIN));
    assert_eq!(parse_signed("-2147483649"), None);
    assert_eq!(parse_signed("-"), None);
    assert_eq!(parse_signed(""), None);
}

#[test]
fn lists_between_commas_are_trimmed() {
    assert_eq!(comma_items(" a, b ,,c\t"), vec!["a", "b", "c"]);
    assert_eq!(comma_items(" , ,"), Vec::<String>::new());
    assert_eq!(comma_items(""), Vec::<String>::new());
}

#[test]
fn texts_are_cut_and_trimmed() {
    assert_eq!(pieces("a;b;;", ';'), vec!["a", "b", "", ""]);
    assert_eq!(pieces("", ';'), vec![""]);
    assert_eq!(trim_text("\u{3000} 中文 \n"), "中文");
    assert_eq!(trim_text(" \t "), "");
    assert!(begins_with("http://a", "http://"));
    assert!(!begins_with("http:", "http://"));
    assert!(finishes_with("a.jpg", ".jpg"));
    assert!(!finishes_with("jpg", ".jpg"));
    assert!(digits_only(""));
    assert!(digits_only("0129"));
    assert!(!digits_only("12a"));
    assert!(!digits_only("１２"));
}

#[test]
fn letters_are_made_small() {
    assert_eq!(lower_text("A.Jp[G]_9"), "a.jp[g]_9");
    assert_eq!(lower_text("É夜Z"), "é夜z");
    assert_eq!(lower_text(""), "");
}
