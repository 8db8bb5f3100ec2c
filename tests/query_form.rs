use musicabgleich::form::{decode_range, encode_query, parse_query_bytes};
use musicabgleich::text::decimal_string;

fn pairs(items: &[(&str, &str)]) -> Vec<(String, String)> {
    items.iter().map(|(k, v)| (k.to_string(), v.to_string())).collect()
}

fn byte_pairs(items: &[(&str, &str)]) -> Vec<(Vec<u8>, Vec<u8>)> {
    items
        .iter()
        .map(|(k, v)| (k.as_bytes().to_vec(), v.as_bytes().to_vec()))
        .collect()
}

#[test]
fn encode_query_plain_pairs() {
    let q = encode_query(&pairs(&[("q_track", "hello"), ("page", "2")]));
    assert_eq!(q, "q_track=hello&page=2");
}

#[test]
fn encode_query_empty_is_empty() {
    assert_eq!(encode_query(&Vec::new()), "");
}

#[test]
fn encode_query_escapes_reserved_and_spaces() {
    let q = encode_query(&pairs(&[("q", "a b&c=d+e%f/g?h")]));
    assert_eq!(q, "q=a+b%26c%3Dd%2Be%25f%2Fg%3Fh");
}

#[test]
fn encode_query_keeps_unreserved_bytes() {
    let q = encode_query(&pairs(&[("k", "AZaz09*-._")]));
    assert_eq!(q, "k=AZaz09*-._");
}

#[test]
fn encode_query_escapes_utf8_bytes_upper_case() {
    let q = encode_query(&pairs(&[("q_artist", "Björk")]));
    assert_eq!(q, "q_artist=Bj%C3%B6rk");
}

#[test]
fn parse_query_bytes_round_trip() {
    let items = [("q_artist", "Björk & friends"), ("f_has_lyrics", "true"), ("", "=")];
    let q = encode_query(&pairs(&items));
    assert_eq!(parse_query_bytes(&q), byte_pairs(&items));
}

#[test]
fn parse_query_bytes_empty_query() {
    assert!(parse_query_bytes("").is_empty());
}

#[test]
fn parse_query_bytes_segment_without_equals() {
    assert_eq!(
        parse_query_bytes("a&b=1"),
        vec![(b"a".to_vec(), Vec::new()), (b"b".to_vec(), b"1".to_vec())]
    );
}

#[test]
fn parse_query_bytes_trailing_ampersand_gives_empty_pair() {
    assert_eq!(
        parse_query_bytes("a=1&"),
        vec![(b"a".to_vec(), b"1".to_vec()), (Vec::new(), Vec::new())]
    );
}

#[test]
fn decode_accepts_both_hex_cases_and_keeps_lone_percent() {
    let s = b"%e2%82%AC+%zz%4";
    assert_eq!(decode_range(s, 0, s.len()), b"\xe2\x82\xac %zz%4".to_vec());
}

#[test]
fn decimal_string_values() {
    assert_eq!(decimal_string(0), "0");
    assert_eq!(decimal_string(7), "7");
    assert_eq!(decimal_string(10), "10");
    assert_eq!(decimal_string(1234567890), "1234567890");
    assert_eq!(decimal_string(u64::MAX), "18446744073709551615");
}
