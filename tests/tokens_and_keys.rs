use base64::Engine;
use globed_auth::keys::{derive_authkey, generate_totp, verify_totp};
use globed_auth::token::{TokenError, TokenIssuer};
use sha2::Digest;

const NOW: u64 = 1_700_000_000;

fn issuer() -> TokenIssuer {
    TokenIssuer::new("relay-password".to_string(), 86400)
}

#[test]
fn authkey_is_deterministic() {
    let a = derive_authkey("s1", "s2", 42, "Alice");
    let b = derive_authkey("s1", "s2", 42, "Alice");
    assert_eq!(a, b);
    assert_eq!(a.len(), 32);
}

#[test]
fn authkey_matches_hash_of_inputs() {
    let mut h = sha2::Sha256::new();
    h.update(b"s1s2");
    h.update((-7i32).to_le_bytes());
    h.update(b"alice");
    assert_eq!(derive_authkey("s1", "s2", -7, "ALICE"), h.finalize().to_vec());
}

#[test]
fn authkey_ignores_name_case_only() {
    assert_eq!(derive_authkey("s1", "s2", 42, "Alice"), derive_authkey("s1", "s2", 42, "aLICE"));
    assert_ne!(derive_authkey("s1", "s2", 42, "Alice"), derive_authkey("s1", "s2", 43, "Alice"));
    assert_ne!(derive_authkey("s1", "s2", 42, "Alice"), derive_authkey("s1", "s3", 42, "Alice"));
}

#[test]
fn authkey_base64_round_trip() {
    let key = derive_authkey("s1", "s2", 42, "Alice");
    let text = base64::engine::general_purpose::STANDARD.encode(&key);
    let back = base64::engine::general_purpose::STANDARD.decode(text).unwrap();
    assert_eq!(back, key);
}

#[test]
fn totp_known_value() {
    // HMAC-SHA-256 of step 1 (time 59) under the RFC 6238 test key.
    let code = generate_totp(b"12345678901234567890123456789012", 59);
    assert_eq!(code, b"119246".to_vec());
}

#[test]
fn totp_window_boundaries() {
    let key = b"some challenge value".to_vec();
    let now = NOW;
    for dt in [0i64, 30, -30] {
        let code = generate_totp(&key, (now as i64 + dt) as u64);
        assert!(verify_totp(&key, &code, now), "offset {dt}");
    }
    for dt in [60i64, -60] {
        let code = generate_totp(&key, (now as i64 + dt) as u64);
        assert!(!verify_totp(&key, &code, now), "offset {dt}");
    }
    assert!(!verify_totp(&key, b"12345", now));
}

#[test]
fn token_round_trip() {
    let t = issuer().generate(42, "Alice", NOW);
    assert_eq!(issuer().validate(&t, NOW), Ok((42, "Alice".to_string())));
    assert_eq!(issuer().validate(&t, NOW + 86400), Ok((42, "Alice".to_string())));
    assert_eq!(issuer().validate(&t, NOW + 86401), Err(TokenError::Expired));
}

#[test]
fn token_wire_format() {
    let t = issuer().generate(-3, "Zoë", 5);
    let (left, right) = t.split_once('.').unwrap();
    let payload = base64::engine::general_purpose::URL_SAFE.decode(left).unwrap();
    let mut expected = (-3i32).to_le_bytes().to_vec();
    expected.extend_from_slice("Zoë".as_bytes());
    expected.extend_from_slice(&5u64.to_le_bytes());
    assert_eq!(payload, expected);
    assert_eq!(base64::engine::general_purpose::URL_SAFE.decode(right).unwrap().len(), 32);
    assert_eq!(issuer().validate(&t, 5), Ok((-3, "Zoë".to_string())));
}

#[test]
fn token_issued_in_future() {
    let ahead = issuer().generate(1, "a", NOW + 60);
    assert!(issuer().validate(&ahead, NOW).is_ok());
    let too_far = issuer().generate(1, "a", NOW + 61);
    assert_eq!(issuer().validate(&too_far, NOW), Err(TokenError::Expired));
}

#[test]
fn token_tampering_fails() {
    let t = issuer().generate(42, "Alice", NOW);
    let bytes = t.as_bytes();
    for i in 0..bytes.len() {
        let mut changed = bytes.to_vec();
        changed[i] = if changed[i] == b'A' { b'B' } else { b'A' };
        let text = String::from_utf8(changed).unwrap();
        assert!(issuer().validate(&text, NOW).is_err(), "byte {i}");
    }
}

#[test]
fn token_other_password_fails() {
    let t = TokenIssuer::new("other".to_string(), 86400).generate(42, "Alice", NOW);
    assert_eq!(issuer().validate(&t, NOW), Err(TokenError::BadSignature));
}

#[test]
fn token_malformed() {
    assert_eq!(issuer().validate("no-dot-here", NOW), Err(TokenError::MalformedToken));
    assert_eq!(issuer().validate("!!!.AAAA", NOW), Err(TokenError::MalformedToken));
    let short = base64::engine::general_purpose::URL_SAFE.encode([1u8, 2, 3]);
    let text = format!("{short}.{short}");
    assert_eq!(issuer().validate(&text, NOW), Err(TokenError::MalformedToken));
}
