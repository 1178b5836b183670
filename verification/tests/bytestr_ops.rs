use tracker_proxy::bytestr::append_bytes;
use tracker_proxy::bytestr::bytes_eq;
use tracker_proxy::bytestr::ends_with_bytes;
use tracker_proxy::bytestr::find_byte;
use tracker_proxy::bytestr::parse_u64_dec;
use tracker_proxy::bytestr::starts_with_bytes;
use tracker_proxy::bytestr::u64_to_dec;

#[test]
fn equality_is_exact() {
    assert!(bytes_eq(b"abc", b"abc"));
    assert!(!bytes_eq(b"abc", b"abd"));
    assert!(!bytes_eq(b"abc", b"ab"));
    assert!(bytes_eq(b"", b""));
}

#[test]
fn prefix_and_suffix_tests() {
    assert!(starts_with_bytes(b"https://x", b"https://"));
    assert!(!starts_with_bytes(b"http://x", b"https://"));
    assert!(starts_with_bytes(b"x", b""));
    assert!(ends_with_bytes(b"a.artistgrid.", b".artistgrid."));
    assert!(!ends_with_bytes(b"artistgrid.cx", b".artistgrid."));
}

#[test]
fn find_byte_returns_first_occurrence() {
    assert_eq!(find_byte(b"host:443:9", b':'), Some(4));
    assert_eq!(find_byte(b"host", b':'), None);
    assert_eq!(find_byte(b"", b':'), None);
}

#[test]
fn append_concatenates() {
    let mut v = b"ab".to_vec();
    append_bytes(&mut v, b"cd");
    assert_eq!(v, b"abcd".to_vec());
}

#[test]
fn decimal_formatting_is_exact() {
    assert_eq!(u64_to_dec(0), b"0".to_vec());
    assert_eq!(u64_to_dec(7), b"7".to_vec());
    assert_eq!(u64_to_dec(600), b"600".to_vec());
    assert_eq!(u64_to_dec(u64::MAX), b"18446744073709551615".to_vec());
}

#[test]
fn decimal_parsing_matches_rust() {
    assert_eq!(parse_u64_dec(b"0"), Some(0));
    assert_eq!(parse_u64_dec(b"3000"), Some(3000));
    assert_eq!(parse_u64_dec(b"0012"), Some(12));
    assert_eq!(parse_u64_dec(b"+42"), Some(42));
    assert_eq!(parse_u64_dec(b""), None);
    assert_eq!(parse_u64_dec(b"+"), None);
    assert_eq!(parse_u64_dec(b"++1"), None);
    assert_eq!(parse_u64_dec(b"12x"), None);
    assert_eq!(parse_u64_dec(b"-1"), None);
    assert_eq!(parse_u64_dec(b"18446744073709551615"), Some(u64::MAX));
    assert_eq!(parse_u64_dec(b"18446744073709551616"), None);
    // Spot-check against the standard library's own reading.
    for s in ["0", "+7", "999999999999", "18446744073709551616", "4 2", ""] {
        assert_eq!(parse_u64_dec(s.as_bytes()), s.parse::<u64>().ok());
    }
}
