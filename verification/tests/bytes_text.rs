use iface_proxy::bytes::{
    contains_bytes, decimal_len, equals_ignore_case, find_byte, find_bytes, matches_at,
    parse_port_bytes, push_decimal, push_padded, same_bytes, skip_spaces_in, skip_word_in,
    split_once, starts_with, starts_with_ignore_case, text_bytes, to_lower, trim_bytes,
};

#[test]
fn lower_case_touches_ascii_letters_only() {
    assert_eq!(to_lower(b'A'), b'a');
    assert_eq!(to_lower(b'Z'), b'z');
    assert_eq!(to_lower(b'a'), b'a');
    assert_eq!(to_lower(b'@'), b'@');
    assert_eq!(to_lower(b'['), b'[');
    assert_eq!(to_lower(0xC9), 0xC9);
}

#[test]
fn prefixes_with_and_without_case() {
    assert!(starts_with_ignore_case(b"Host: a", b"host:"));
    assert!(starts_with_ignore_case(b"HOST:", b"host:"));
    assert!(!starts_with_ignore_case(b"Hos", b"host:"));
    assert!(!starts_with_ignore_case(b"Hast: a", b"host:"));
    assert!(starts_with_ignore_case(b"anything", b""));
    assert!(starts_with(b"http://a", b"http://"));
    assert!(!starts_with(b"HTTP://a", b"http://"));
    assert!(equals_ignore_case(b"CoNNect", b"CONNECT"));
    assert!(!equals_ignore_case(b"CONNECTS", b"CONNECT"));
}

#[test]
fn search_finds_the_first_occurrence() {
    assert_eq!(find_bytes(b"abcabc", b"bc", 0), Some(1));
    assert_eq!(find_bytes(b"abcabc", b"bc", 2), Some(4));
    assert_eq!(find_bytes(b"abcabc", b"bc", 5), None);
    assert_eq!(find_bytes(b"abcabc", b"cb", 0), None);
    assert_eq!(find_bytes(b"ab", b"abc", 0), None);
    assert_eq!(find_bytes(b"ab", b"ab", 7), None);
    assert_eq!(find_byte(b"a:b:c", b':'), Some(1));
    assert_eq!(find_byte(b"abc", b':'), None);
    assert!(matches_at(b"abc", b"bc", 1));
    assert!(!matches_at(b"abc", b"bc", 2));
    assert!(contains_bytes(b"xxbroken pipexx", b"broken pipe"));
    assert!(!contains_bytes(b"xxbroken pip", b"broken pipe"));
}

#[test]
fn split_once_splits_at_the_first_separator() {
    assert_eq!(split_once(b"a:b:c", b':'), Some((&b"a"[..], &b"b:c"[..])));
    assert_eq!(split_once(b":", b':'), Some((&b""[..], &b""[..])));
    assert_eq!(split_once(b"abc", b':'), None);
}

#[test]
fn white_space_is_skipped_and_trimmed() {
    assert_eq!(skip_spaces_in(b"  \t\r\n\x0b\x0cx ", 0), 7);
    assert_eq!(skip_word_in(b"ab cd", 0), 2);
    assert_eq!(skip_word_in(b"ab cd", 3), 5);
    assert_eq!(trim_bytes(b"  a b \t"), b"a b");
    assert_eq!(trim_bytes(b" \r\n "), b"");
    assert_eq!(trim_bytes(b""), b"");
    assert_eq!(trim_bytes(b"x"), b"x");
    assert_eq!(trim_bytes(b"\xa0x\xa0"), b"\xa0x\xa0");
}

#[test]
fn decimal_numbers_are_written() {
    let mut out = b"n=".to_vec();
    push_decimal(&mut out, 0);
    push_decimal(&mut out, 65535);
    push_decimal(&mut out, u64::MAX);
    assert_eq!(out, b"n=06553518446744073709551615".to_vec());
    assert_eq!(decimal_len(0), 1);
    assert_eq!(decimal_len(9), 1);
    assert_eq!(decimal_len(10), 2);
    assert_eq!(decimal_len(u64::MAX), 20);
}

#[test]
fn padded_numbers_are_written() {
    let mut out = Vec::new();
    push_padded(&mut out, 7, 3);
    out.push(b' ');
    push_padded(&mut out, 1234, 3);
    out.push(b' ');
    push_padded(&mut out, 0, 0);
    assert_eq!(out, b"007 1234 0".to_vec());
}

#[test]
fn ports_are_read_like_unsigned_numbers() {
    assert_eq!(parse_port_bytes(b"80"), Some(80));
    assert_eq!(parse_port_bytes(b"0"), Some(0));
    assert_eq!(parse_port_bytes(b"65535"), Some(65535));
    assert_eq!(parse_port_bytes(b"65536"), None);
    assert_eq!(parse_port_bytes(b"+443"), Some(443));
    assert_eq!(parse_port_bytes(b"000000000000000000000443"), Some(443));
    assert_eq!(parse_port_bytes(b""), None);
    assert_eq!(parse_port_bytes(b"+"), None);
    assert_eq!(parse_port_bytes(b"-1"), None);
    assert_eq!(parse_port_bytes(b"++1"), None);
    assert_eq!(parse_port_bytes(b" 80"), None);
    assert_eq!(parse_port_bytes(b"80 "), None);
    assert_eq!(parse_port_bytes(b"8o"), None);
    assert_eq!(parse_port_bytes(b"99999999999999999999999"), None);
}

#[test]
fn ports_are_read_as_the_standard_library_reads_them() {
    for s in ["80", "0", "65535", "65536", "+443", "", "+", "-1", "++1", " 80", "0x50", "00080", "+0", "4294967376"] {
        assert_eq!(parse_port_bytes(s.as_bytes()), s.parse::<u16>().ok(), "{:?}", s);
    }
}

#[test]
fn text_and_bytes_agree() {
    assert_eq!(text_bytes("host:"), b"host:");
    assert!(same_bytes(b"abc", b"abc"));
    assert!(!same_bytes(b"abc", b"abd"));
    assert!(!same_bytes(b"abc", b"ab"));
    assert!(same_bytes(b"", b""));
}
