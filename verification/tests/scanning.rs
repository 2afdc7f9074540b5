use podmon::text::{
    bytes_eq_ignore_case, parse_hex_u8_bytes, parse_i32_bytes, parse_u64_bytes, scan_kv,
    split_lines, strip_trailing_slice, tokenize, trim_slice,
};

#[test]
fn lines_split_on_newlines_and_drop_one_cr() {
    let ls = split_lines(b"a\nb\r\n\nlast");
    let v: Vec<&[u8]> = ls.iter().map(|l| l.as_slice()).collect();
    assert_eq!(v, vec![&b"a"[..], &b"b"[..], &b""[..], &b"last"[..]]);
    assert!(split_lines(b"").is_empty());
    assert_eq!(split_lines(b"x\n").len(), 1);
}

#[test]
fn tokens_split_on_runs_of_whitespace() {
    let ts = tokenize(b"  one\t two\n\nthree   ");
    let v: Vec<&[u8]> = ts.iter().map(|t| t.as_slice()).collect();
    assert_eq!(v, vec![&b"one"[..], &b"two"[..], &b"three"[..]]);
    assert!(tokenize(b" \t ").is_empty());
}

#[test]
fn decimal_parsing_is_exact_and_checked() {
    assert_eq!(parse_u64_bytes(b"0"), Some(0));
    assert_eq!(parse_u64_bytes(b"18446744073709551615"), Some(u64::MAX));
    assert_eq!(parse_u64_bytes(b"18446744073709551616"), None);
    assert_eq!(parse_u64_bytes(b""), None);
    assert_eq!(parse_u64_bytes(b"12x"), None);
    assert_eq!(parse_u64_bytes(b"-1"), None);
}

#[test]
fn hex_parsing_handles_both_cases() {
    assert_eq!(parse_hex_u8_bytes(b"0A"), Some(0x0A));
    assert_eq!(parse_hex_u8_bytes(b"ff"), Some(0xFF));
    assert_eq!(parse_hex_u8_bytes(b"01"), Some(1));
    assert_eq!(parse_hex_u8_bytes(b"100"), None);
    assert_eq!(parse_hex_u8_bytes(b""), None);
    assert_eq!(parse_hex_u8_bytes(b"0G"), None);
}

#[test]
fn signed_parsing_covers_pids() {
    assert_eq!(parse_i32_bytes(b"123"), Some(123));
    assert_eq!(parse_i32_bytes(b"-5"), Some(-5));
    assert_eq!(parse_i32_bytes(b"+7"), Some(7));
    assert_eq!(parse_i32_bytes(b"2147483647"), Some(i32::MAX));
    assert_eq!(parse_i32_bytes(b"2147483648"), None);
    assert_eq!(parse_i32_bytes(b"-2147483648"), Some(i32::MIN));
    assert_eq!(parse_i32_bytes(b"-"), None);
}

#[test]
fn trimming_and_stripping() {
    assert_eq!(trim_slice(b"  a b \t\n"), b"a b");
    assert_eq!(trim_slice(b"   "), b"");
    assert_eq!(strip_trailing_slice(b"MemTotal::", 58), b"MemTotal");
    assert_eq!(strip_trailing_slice(b"x", 58), b"x");
}

#[test]
fn case_insensitive_comparison() {
    assert!(bytes_eq_ignore_case(b"FFff00", b"ffFF00"));
    assert!(!bytes_eq_ignore_case(b"FFff00", b"ffFF01"));
    assert!(!bytes_eq_ignore_case(b"abc", b"abcd"));
}

#[test]
fn key_value_scan_takes_the_last_occurrence() {
    assert_eq!(scan_kv(b"k 1\nother 9\nk 2\n", b"k"), Some(2));
    assert_eq!(scan_kv(b"k 1\n", b"missing"), None);
    assert_eq!(scan_kv(b"k\n", b"k"), Some(0));
    assert_eq!(scan_kv(b"k notanumber\n", b"k"), Some(0));
}
