use tdi::query::{build_query, find_param, find_param_decoded, split_pair};
use tdi::urlenc::{pct_decode, pct_encode};

#[test]
fn encode_keeps_unreserved_bytes() {
    let r = pct_encode(b"AZaz09-._~");
    assert_eq!(r, b"AZaz09-._~".to_vec());
}

#[test]
fn encode_escapes_reserved_bytes() {
    let r = pct_encode(b"a b/c?d&e=f");
    assert_eq!(r, b"a%20b%2Fc%3Fd%26e%3Df".to_vec());
}

#[test]
fn decode_inverts_encode() {
    let original = b"http://localhost:8000/redirect".to_vec();
    let encoded = pct_encode(&original);
    assert_eq!(encoded, b"http%3A%2F%2Flocalhost%3A8000%2Fredirect".to_vec());
    assert_eq!(pct_decode(&encoded), Some(original));
}

#[test]
fn decode_maps_plus_to_space() {
    assert_eq!(pct_decode(b"a+b"), Some(b"a b".to_vec()));
}

#[test]
fn decode_rejects_malformed_escapes() {
    assert_eq!(pct_decode(b"%4"), None);
    assert_eq!(pct_decode(b"%GG"), None);
    assert_eq!(pct_decode(b"abc%"), None);
}

#[test]
fn decode_accepts_lower_and_upper_hex() {
    assert_eq!(pct_decode(b"%2f%2F"), Some(b"//".to_vec()));
}

#[test]
fn find_param_takes_first_occurrence() {
    assert_eq!(find_param(b"code=ABC&x=1", b"code"), Some(b"ABC".to_vec()));
    assert_eq!(find_param(b"x=1&code=ABC&code=ZZZ", b"code"), Some(b"ABC".to_vec()));
    assert_eq!(find_param(b"x=1&y=2", b"code"), None);
}

#[test]
fn find_param_decoded_unescapes_the_value() {
    assert_eq!(
        find_param_decoded(b"code=A%20B%2BC", b"code"),
        Some(b"A B+C".to_vec())
    );
    assert_eq!(find_param_decoded(b"code=%4", b"code"), None);
}

#[test]
fn split_pair_splits_at_first_equals() {
    assert_eq!(split_pair(b"k=v=w"), (b"k".to_vec(), b"v=w".to_vec()));
    assert_eq!(split_pair(b"lone"), (b"lone".to_vec(), b"".to_vec()));
    assert_eq!(split_pair(b"=v"), (b"".to_vec(), b"v".to_vec()));
}

#[test]
fn build_query_encodes_values() {
    let pairs = vec![
        (b"a".to_vec(), b"x y".to_vec()),
        (b"b".to_vec(), b"1&2".to_vec()),
    ];
    let q = build_query(&pairs);
    assert_eq!(q, b"a=x%20y&b=1%262".to_vec());
    assert_eq!(find_param_decoded(&q, b"a"), Some(b"x y".to_vec()));
    assert_eq!(find_param_decoded(&q, b"b"), Some(b"1&2".to_vec()));
}

#[test]
fn empty_values_and_keys_are_kept_apart() {
    assert_eq!(find_param(b"code=", b"code"), Some(b"".to_vec()));
    assert_eq!(find_param(b"", b"code"), None);
    assert_eq!(find_param(b"xcode=1", b"code"), None);
}
