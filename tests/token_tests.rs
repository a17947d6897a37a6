use survey_manager_api::extractors::bearer_token;
use survey_manager_api::hex::{decode_hex, encode_hex};
use survey_manager_api::token::{create_token, decode_payload, TokenError, TOKEN_LIFETIME};

const KEY: &[u8] = b"a secret key for tests";

#[test]
fn hex_encodes_lower_case() {
    assert_eq!(encode_hex(&[0x00, 0xab, 0x7f, 0xff]), b"00ab7fff".to_vec());
}

#[test]
fn hex_decodes_what_it_encodes() {
    let text = b"xx0a1bffyy";
    assert_eq!(decode_hex(text, 2, 8), Some(vec![0x0a, 0x1b, 0xff]));
    assert_eq!(decode_hex(text, 2, 7), None);
    assert_eq!(decode_hex(b"0A", 0, 2), None);
    assert_eq!(decode_hex(b"", 0, 0), Some(vec![]));
}

#[test]
fn token_round_trip_names_subject() {
    let token = create_token(KEY, "alice", "u-1", 1_000);
    let p = decode_payload(KEY, &token, 1_000).unwrap();
    assert_eq!(p.username, "alice");
    assert_eq!(p.user_id, "u-1");
    assert_eq!(p.exp, 1_000 + TOKEN_LIFETIME);
}

#[test]
fn token_round_trip_keeps_non_ascii_subject() {
    let token = create_token(KEY, "Jos\u{e9} \u{1f600}", "", 5);
    let p = decode_payload(KEY, &token, 5).unwrap();
    assert_eq!(p.username, "Jos\u{e9} \u{1f600}");
    assert_eq!(p.user_id, "");
}

#[test]
fn token_layout_has_hex_fields_and_a_full_tag() {
    let token = create_token(KEY, "ab", "c", 0);
    let text = String::from_utf8(token.clone()).unwrap();
    let parts: Vec<&str> = text.split('.').collect();
    assert_eq!(parts.len(), 4);
    assert_eq!(parts[0], "6162");
    assert_eq!(parts[1], "63");
    assert_eq!(parts[2], "0000000000000e10");
    assert_eq!(parts[3].len(), 64);
    let other = create_token(b"another key", "ab", "c", 0);
    assert_ne!(token, other);
}

#[test]
fn token_still_valid_at_expiry() {
    let token = create_token(KEY, "alice", "u-1", 10);
    assert!(decode_payload(KEY, &token, 10 + TOKEN_LIFETIME).is_ok());
}

#[test]
fn token_after_expiry_is_expired() {
    let token = create_token(KEY, "alice", "u-1", 10);
    let r = decode_payload(KEY, &token, 10 + TOKEN_LIFETIME + 1);
    assert_eq!(r.unwrap_err(), TokenError::TokenExpired);
}

#[test]
fn token_with_other_key_is_malformed() {
    let token = create_token(KEY, "alice", "u-1", 10);
    let r = decode_payload(b"wrong", &token, 10);
    assert_eq!(r.unwrap_err(), TokenError::TokenMalformed);
}

#[test]
fn tampered_token_is_malformed() {
    let mut token = create_token(KEY, "alice", "u-1", 10);
    token[0] = b'7';
    assert_eq!(decode_payload(KEY, &token, 10).unwrap_err(), TokenError::TokenMalformed);
}

#[test]
fn garbage_token_is_malformed() {
    for t in [&b""[..], b"...", b"abc", b"a.b.c.d", b"\xff\xfe.00.00.00"] {
        assert_eq!(decode_payload(KEY, t, 0).unwrap_err(), TokenError::TokenMalformed);
    }
}

#[test]
fn bearer_header_forms() {
    assert_eq!(bearer_token(None), Err(TokenError::TokenMissing));
    assert_eq!(bearer_token(Some(b"Basic abc")), Err(TokenError::TokenMalformed));
    assert_eq!(bearer_token(Some(b"Bearer ")), Err(TokenError::TokenMalformed));
    assert_eq!(bearer_token(Some(b"Bearer abc")), Ok(&b"abc"[..]));
}
