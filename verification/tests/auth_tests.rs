use addon::auth::{
    compute_hmac, decide_auth, generate_nonce, generate_secret, push_le_bytes, timestamp_is_fresh, unix_now,
    utf8_bytes, verify_auth_token, MAX_CLOCK_SKEW_SECS,
};
use addon::ipc::AuthToken;

#[test]
fn hmac_matches_reference_values() {
    assert_eq!(compute_hmac("secret", "nonce", 1234), "f12388f55de3b6b2c9aeec0a39c2cfb14bf45f98a75cbc73a6b20a7d218df840");
    assert_eq!(compute_hmac("s3cr3t", "abc", 0), "e1b50a5a7b2d566e560c8330d675f7e807f7c925d5abcaba8afdbfe09aa51370");
}

#[test]
fn le_bytes_and_utf8() {
    let mut v = vec![9u8];
    push_le_bytes(&mut v, 0x01020304);
    assert_eq!(v, vec![9, 4, 3, 2, 1]);
    assert_eq!(utf8_bytes("é"), vec![0xc3, 0xa9]);
}

#[test]
fn freshness_window() {
    assert_eq!(MAX_CLOCK_SKEW_SECS, 30);
    assert!(timestamp_is_fresh(100, 70));
    assert!(timestamp_is_fresh(70, 100));
    assert!(!timestamp_is_fresh(100, 69));
    assert!(!timestamp_is_fresh(69, 100));
    assert!(timestamp_is_fresh(0, 0));
}

#[test]
fn decision_order() {
    assert_eq!(decide_auth(false, Ok(10), 10), Err("invalid_signature"));
    assert_eq!(decide_auth(true, Err("clock".to_string()), 10), Err("unknown"));
    assert_eq!(decide_auth(true, Ok(100), 10), Err("expired"));
    assert_eq!(decide_auth(true, Ok(100), 95), Ok(()));
}

#[test]
fn random_values_are_32_bytes_of_hex() {
    let n = generate_nonce();
    let s = generate_secret();
    assert_eq!(n.len(), 64);
    assert_eq!(s.len(), 64);
    assert!(n.chars().all(|c| c.is_ascii_hexdigit() && !c.is_ascii_uppercase()));
    assert!(s.chars().all(|c| c.is_ascii_hexdigit() && !c.is_ascii_uppercase()));
}

#[test]
fn token_verification() {
    let now = unix_now().unwrap();
    let token = AuthToken {
        client_pid: 7,
        nonce: "abcd".to_string(),
        timestamp: now,
        signature: compute_hmac("shared", "abcd", 4242),
    };
    assert_eq!(verify_auth_token("shared", &token, 4242, now), Ok(()));
    assert_eq!(verify_auth_token("other", &token, 4242, now), Err("invalid_signature"));
    assert_eq!(verify_auth_token("shared", &token, 4243, now), Err("invalid_signature"));
    assert_eq!(verify_auth_token("shared", &token, 4242, now - 3600), Err("expired"));
}
