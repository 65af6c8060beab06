use trascrivi::text::{is_blank, json_escape, parse_number_ms, u64_to_string};

#[test]
fn decimal_formatting() {
    assert_eq!(u64_to_string(0), "0");
    assert_eq!(u64_to_string(7), "7");
    assert_eq!(u64_to_string(1234), "1234");
    assert_eq!(u64_to_string(1000000), "1000000");
}

#[test]
fn blank_detection() {
    assert!(is_blank(""));
    assert!(is_blank("   \t\r\n"));
    assert!(!is_blank("  a "));
}

#[test]
fn json_escaping() {
    assert_eq!(json_escape("plain"), "plain");
    assert_eq!(json_escape("a\"b"), "a\\\"b");
    assert_eq!(json_escape("back\\slash"), "back\\\\slash");
    assert_eq!(json_escape("line\nbreak\ttab\rret"), "line\\nbreak\\ttab\\rret");
    assert_eq!(json_escape("\u{01}"), "\\u0001");
    assert_eq!(json_escape("\u{1f}"), "\\u001f");
}

#[test]
fn number_parsing_to_milliseconds() {
    assert_eq!(parse_number_ms("0"), Some(0));
    assert_eq!(parse_number_ms("3"), Some(3000));
    assert_eq!(parse_number_ms("12.5"), Some(12500));
    assert_eq!(parse_number_ms("0.0"), Some(0));
    assert_eq!(parse_number_ms("1.2345"), Some(1234));
    assert_eq!(parse_number_ms("7.25"), Some(7250));
    // Negative times clamp to zero.
    assert_eq!(parse_number_ms("-4.2"), Some(0));
    // Not a plain decimal numeral.
    assert_eq!(parse_number_ms(""), None);
    assert_eq!(parse_number_ms("abc"), None);
    assert_eq!(parse_number_ms("1.2.3"), None);
    assert_eq!(parse_number_ms("."), None);
    // An integer part beyond 15 digits is rejected.
    assert_eq!(parse_number_ms("1234567890123456"), None);
    assert_eq!(parse_number_ms("999999999999999"), Some(999999999999999000));
}
