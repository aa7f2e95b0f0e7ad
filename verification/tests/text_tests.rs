use http_server::text::{
    append, append_text, bytes_equal, format_decimal, names_match, parse_length, slice_of,
    starts_with, tail, text_bytes, to_lower,
};

#[test]
fn text_bytes_copies_the_literal() {
    assert_eq!(text_bytes("gzip"), b"gzip".to_vec());
    assert_eq!(text_bytes(""), Vec::<u8>::new());
    assert_eq!(text_bytes("\u{00E9}"), vec![0xC3, 0xA9]);
}

#[test]
fn to_lower_changes_letters_only() {
    assert_eq!(to_lower(b'A'), b'a');
    assert_eq!(to_lower(b'Z'), b'z');
    assert_eq!(to_lower(b'a'), b'a');
    assert_eq!(to_lower(b'@'), b'@');
    assert_eq!(to_lower(b'['), b'[');
    assert_eq!(to_lower(b'-'), b'-');
    assert_eq!(to_lower(0xC4), 0xC4);
}

#[test]
fn names_match_ignores_case() {
    assert!(names_match(b"User-Agent", b"user-agent"));
    assert!(names_match(b"USER-AGENT", b"user-agent"));
    assert!(names_match(b"", b""));
    assert!(!names_match(b"User-Agent", b"user_agent"));
    assert!(!names_match(b"User-Agent", b"user-agen"));
    assert!(!names_match(b"User-Agent", b"user-agents"));
}

#[test]
fn bytes_equal_is_exact() {
    assert!(bytes_equal(b"GET", b"GET"));
    assert!(!bytes_equal(b"GET", b"get"));
    assert!(!bytes_equal(b"GET", b"GE"));
    assert!(bytes_equal(b"", b""));
}

#[test]
fn starts_with_tests_the_prefix() {
    assert!(starts_with(b"/echo/abc", b"/echo/"));
    assert!(starts_with(b"/echo/", b"/echo/"));
    assert!(starts_with(b"abc", b""));
    assert!(!starts_with(b"/echo", b"/echo/"));
    assert!(!starts_with(b"/Echo/abc", b"/echo/"));
}

#[test]
fn tail_and_slice_of_cut_the_bytes() {
    assert_eq!(tail(b"/echo/abc", 6), b"abc".to_vec());
    assert_eq!(tail(b"/echo/", 6), Vec::<u8>::new());
    assert_eq!(slice_of(b"hello world", 6, 11), b"world".to_vec());
    assert_eq!(slice_of(b"hello", 2, 2), Vec::<u8>::new());
}

#[test]
fn append_adds_at_the_end() {
    let mut out = b"ab".to_vec();
    append(&mut out, b"cd");
    append_text(&mut out, "ef");
    append(&mut out, b"");
    assert_eq!(out, b"abcdef".to_vec());
}

#[test]
fn format_decimal_writes_the_number() {
    assert_eq!(format_decimal(0), b"0".to_vec());
    assert_eq!(format_decimal(9), b"9".to_vec());
    assert_eq!(format_decimal(10), b"10".to_vec());
    assert_eq!(format_decimal(1024), b"1024".to_vec());
    assert_eq!(format_decimal(usize::MAX), usize::MAX.to_string().into_bytes());
}

#[test]
fn parse_length_reads_digits() {
    assert_eq!(parse_length(b"5"), Some(5));
    assert_eq!(parse_length(b"0"), Some(0));
    assert_eq!(parse_length(b"007"), Some(7));
    assert_eq!(parse_length(b"+12"), Some(12));
    assert_eq!(parse_length(b"1024"), Some(1024));
}

#[test]
fn parse_length_refuses_what_is_no_number() {
    assert_eq!(parse_length(b""), None);
    assert_eq!(parse_length(b"+"), None);
    assert_eq!(parse_length(b"-1"), None);
    assert_eq!(parse_length(b" 5"), None);
    assert_eq!(parse_length(b"5 "), None);
    assert_eq!(parse_length(b"5a"), None);
    assert_eq!(parse_length(b"++5"), None);
    assert_eq!(parse_length(&[0xFF, 0x35]), None);
}

#[test]
fn parse_length_refuses_what_does_not_fit() {
    let max = usize::MAX.to_string();
    assert_eq!(parse_length(max.as_bytes()), Some(usize::MAX));
    let mut over = max.clone().into_bytes();
    let last = over.len() - 1;
    over[last] += 1;
    assert_eq!(parse_length(&over), None);
    let longer = format!("{}0", max);
    assert_eq!(parse_length(longer.as_bytes()), None);
    let with_junk = format!("{}0x", max);
    assert_eq!(parse_length(with_junk.as_bytes()), None);
}

#[test]
fn a_length_reads_back_as_written() {
    for n in [0usize, 1, 9, 10, 99, 100, 1023, 1024, 65535, usize::MAX] {
        assert_eq!(parse_length(&format_decimal(n)), Some(n));
    }
}

#[test]
fn parse_length_agrees_with_the_standard_parser() {
    let inputs: [&str; 8] = ["42", "+42", "0042", "", "+", "4 2", "-0", "18446744073709551616"];
    for text in inputs {
        assert_eq!(parse_length(text.as_bytes()), text.parse::<usize>().ok());
    }
}
