use libpkg::text::{decimal_text, list_entries, parse_unsigned, trim, IntError};

#[test]
fn list_entries_skips_blank_lines() {
    let got = list_entries("bin/a\n\n   \nlib/b\r\n  spaced  \n");
    assert_eq!(got, vec!["bin/a".to_string(), "lib/b".to_string(), "  spaced  ".to_string()]);
}

#[test]
fn list_entries_of_empty_text_is_empty() {
    assert!(list_entries("").is_empty());
    assert!(list_entries("\n\n").is_empty());
}

#[test]
fn list_entries_keeps_last_line_without_newline() {
    assert_eq!(list_entries("a\nb"), vec!["a".to_string(), "b".to_string()]);
    assert_eq!(list_entries("x\r"), vec!["x\r".to_string()]);
}

#[test]
fn trim_removes_outer_white_space() {
    assert_eq!(trim("  1700000000\n"), "1700000000");
    assert_eq!(trim("\u{3000}a b\t"), "a b");
    assert_eq!(trim("   "), "");
}

#[test]
fn parse_unsigned_reads_decimal_numbers() {
    assert_eq!(parse_unsigned("42", u64::MAX), Ok(42));
    assert_eq!(parse_unsigned("+7", u64::MAX), Ok(7));
    assert_eq!(parse_unsigned("007", u64::MAX), Ok(7));
    assert_eq!(parse_unsigned("18446744073709551615", u64::MAX), Ok(u64::MAX));
}

#[test]
fn parse_unsigned_reports_each_error() {
    assert_eq!(parse_unsigned("", u64::MAX), Err(IntError::Empty));
    assert_eq!(parse_unsigned("+", u64::MAX), Err(IntError::InvalidDigit));
    assert_eq!(parse_unsigned("-1", u64::MAX), Err(IntError::InvalidDigit));
    assert_eq!(parse_unsigned("4a", u64::MAX), Err(IntError::InvalidDigit));
    assert_eq!(parse_unsigned("4294967296", u32::MAX as u64), Err(IntError::Overflow));
    assert_eq!(parse_unsigned("18446744073709551616", u64::MAX), Err(IntError::Overflow));
    assert_eq!(parse_unsigned("99999999999999999999x", u64::MAX), Err(IntError::InvalidDigit));
}

#[test]
fn decimal_text_writes_digits() {
    assert_eq!(decimal_text(0), "0");
    assert_eq!(decimal_text(1234), "1234");
    assert_eq!(decimal_text(u64::MAX), "18446744073709551615");
}

#[test]
fn decimal_text_reads_back() {
    for n in [0u64, 1, 9, 10, 99, 100, 65535, 4294967295] {
        assert_eq!(parse_unsigned(&decimal_text(n), u64::MAX), Ok(n));
    }
}
