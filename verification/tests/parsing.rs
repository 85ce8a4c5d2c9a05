//! Version-string parsing and musl stderr extraction.

use libc_detect::parse::{musl_version_from_stderr, parse_major_minor_version};

#[test]
fn test_parse_simple_pair() {
    assert_eq!(parse_major_minor_version(b"2.31"), Some((2, 31)));
}

#[test]
fn test_parse_trims_and_ignores_trailing_segment() {
    assert_eq!(parse_major_minor_version(b"  5.10.3 "), Some((5, 10)));
}

#[test]
fn test_parse_single_segment_is_absent() {
    assert_eq!(parse_major_minor_version(b"7"), None);
}

#[test]
fn test_parse_non_numeric_is_absent() {
    assert_eq!(parse_major_minor_version(b"abc.def"), None);
}

#[test]
fn test_parse_empty_is_absent() {
    assert_eq!(parse_major_minor_version(b""), None);
}

#[test]
fn test_parse_empty_segment_is_absent() {
    assert_eq!(parse_major_minor_version(b"1..2"), None);
    assert_eq!(parse_major_minor_version(b".5"), None);
}

#[test]
fn test_parse_leading_plus_as_u32_does() {
    assert_eq!(parse_major_minor_version(b"+5.10"), Some((5, 10)));
}

#[test]
fn test_parse_u32_range() {
    assert_eq!(parse_major_minor_version(b"4294967295.0"), Some((4294967295, 0)));
    assert_eq!(parse_major_minor_version(b"4294967296.1"), None);
    assert_eq!(parse_major_minor_version(b"1.99999999999999999999"), None);
}

#[test]
fn test_parse_negative_is_absent() {
    assert_eq!(parse_major_minor_version(b"-1.2"), None);
}

#[test]
fn test_parse_inner_whitespace_is_absent() {
    assert_eq!(parse_major_minor_version(b"1 .2"), None);
}

#[test]
fn test_musl_extraction() {
    let stderr = b"musl libc (x86_64)\nVersion 1.2.3\nUsage: ...";
    assert_eq!(musl_version_from_stderr(stderr), Some((1, 2)));
}

#[test]
fn test_musl_extraction_crlf() {
    let stderr = b"musl libc (x86_64)\r\nVersion 1.2.3\r\nUsage: ...\r\n";
    assert_eq!(musl_version_from_stderr(stderr), Some((1, 2)));
}

#[test]
fn test_musl_extraction_first_version_line_decides() {
    let stderr = b"Version abc\nVersion 1.2\n";
    assert_eq!(musl_version_from_stderr(stderr), None);
}

#[test]
fn test_musl_extraction_no_version_line() {
    assert_eq!(musl_version_from_stderr(b"musl libc\nUsage: ..."), None);
    assert_eq!(musl_version_from_stderr(b""), None);
}
