use landfall_server::ids::new_v7;
use landfall_server::secrets::{decode_hex_key, route_endpoint, RouteSecretCipher, SecretConfigError};
use landfall_server::trace_filters::{validate_trace_filter, TraceFilterError, TraceListFilter};
use landfall_server::x402_payments::{
    valid_atomic_amount, valid_https_origin, valid_reference, X402RateLimiter,
    MAX_X402_REQUESTS_PER_SECOND_PER_PROJECT,
};

#[test]
fn encrypts_with_unique_nonce_and_round_trips() {
    assert!(decode_hex_key("ab".repeat(32).as_str()).is_some());
    let value = RouteSecretCipher::new([7_u8; 32]);
    let (encrypted, nonce) = value.encrypt("https://private.rpc.example/key").expect("encrypt");
    assert!(!String::from_utf8_lossy(&encrypted).contains("private"));
    assert_eq!(value.decrypt(&encrypted, &nonce).expect("decrypt"), "https://private.rpc.example/key");
}

#[test]
fn two_encryptions_use_different_nonces() {
    let value = RouteSecretCipher::new([9_u8; 32]);
    let (first, first_nonce) = value.encrypt("https://rpc.example").expect("encrypt");
    let (second, second_nonce) = value.encrypt("https://rpc.example").expect("encrypt");
    assert_eq!(first_nonce.len(), 12);
    assert_ne!(first_nonce, second_nonce);
    assert_ne!(first, second);
}

#[test]
fn wrong_key_or_tampered_ciphertext_fails_to_decrypt() {
    let value = RouteSecretCipher::new([1_u8; 32]);
    let other = RouteSecretCipher::new([2_u8; 32]);
    let (mut encrypted, nonce) = value.encrypt("https://rpc.example").expect("encrypt");
    assert!(other.decrypt(&encrypted, &nonce).is_err());
    encrypted[0] ^= 1;
    assert!(value.decrypt(&encrypted, &nonce).is_err());
}

#[test]
fn hex_keys_must_be_exactly_32_bytes_of_hex() {
    let key = decode_hex_key(&"0F".repeat(32)).expect("key");
    assert_eq!(key, [15_u8; 32]);
    assert_eq!(decode_hex_key(&"ab".repeat(31)), None);
    assert_eq!(decode_hex_key(&format!("{}zz", "ab".repeat(31))), None);
    assert!(matches!(RouteSecretCipher::from_env(None), Ok(None)));
    assert!(matches!(RouteSecretCipher::from_env(Some("nope")), Err(SecretConfigError::InvalidKey)));
    let padded = format!("  {}\n", "cd".repeat(32));
    assert!(matches!(RouteSecretCipher::from_env(Some(&padded)), Ok(Some(_))));
}

#[test]
fn route_endpoint_prefers_ciphertext_and_requires_the_key() {
    let cipher = RouteSecretCipher::new([3_u8; 32]);
    let (encrypted, nonce) = cipher.encrypt("https://secret.rpc").expect("encrypt");
    assert_eq!(
        route_endpoint(Some(encrypted.as_slice()), Some(nonce.as_slice()), Some(&cipher), Some("https://plain")),
        Ok("https://secret.rpc".to_string())
    );
    assert_eq!(
        route_endpoint(Some(encrypted.as_slice()), Some(nonce.as_slice()), None, None),
        Err("encrypted RPC route requires route secret key")
    );
    assert_eq!(route_endpoint(None, None, None, Some("https://plain")), Ok("https://plain".to_string()));
    assert_eq!(route_endpoint(None, None, Some(&cipher), None), Err("configured route has no endpoint"));
    let wrong = RouteSecretCipher::new([4_u8; 32]);
    assert_eq!(
        route_endpoint(Some(encrypted.as_slice()), Some(nonce.as_slice()), Some(&wrong), None),
        Err("rpc endpoint decryption failed")
    );
}

#[test]
fn accepts_bounded_range_and_rejects_unbounded_range() {
    let valid = validate_trace_filter(TraceListFilter {
        from: Some("2026-01-01T00:00:00Z".into()),
        to: Some("2026-01-15T00:00:00Z".into()),
        ..Default::default()
    })
    .expect("valid");
    assert!(valid.from.is_some());
    assert_eq!(
        validate_trace_filter(TraceListFilter {
            from: Some("2026-01-01T00:00:00Z".into()),
            to: Some("2026-03-01T00:00:00Z".into()),
            ..Default::default()
        }),
        Err(TraceFilterError::InvalidRange)
    );
}

#[test]
fn trace_filter_rejects_bad_timestamps_and_backward_ranges() {
    assert_eq!(
        validate_trace_filter(TraceListFilter { from: Some("yesterday".into()), ..Default::default() }),
        Err(TraceFilterError::InvalidTimestamp)
    );
    assert_eq!(
        validate_trace_filter(TraceListFilter {
            from: Some("2026-01-15T00:00:00Z".into()),
            to: Some("2026-01-01T00:00:00Z".into()),
            ..Default::default()
        }),
        Err(TraceFilterError::InvalidRange)
    );
    let exactly_31_days = validate_trace_filter(TraceListFilter {
        project_id: Some("p".into()),
        from: Some("2026-01-01T00:00:00Z".into()),
        to: Some("2026-02-01T00:00:00Z".into()),
        ..Default::default()
    })
    .expect("31 days is allowed");
    assert_eq!(exactly_31_days.project_id.as_deref(), Some("p"));
    let open_ended = validate_trace_filter(TraceListFilter::default()).expect("no bounds");
    assert!(open_ended.from.is_none() && open_ended.to.is_none());
}

#[test]
fn settlement_reference_is_an_identifier_not_a_payload() {
    assert!(valid_reference("5NfVx7Zp9-merchant.receipt:42"));
    assert!(!valid_reference("eyJzaWduYXR1cmUiOiJwYXlsb2FkIn0="));
    assert!(!valid_reference("receipt/with/path"));
}

#[test]
fn authorization_values_are_constrained_before_storage() {
    assert!(valid_https_origin("https://merchant.example:8443"));
    assert!(!valid_https_origin("http://merchant.example"));
    assert!(!valid_https_origin("https://user@merchant.example"));
    assert!(valid_atomic_amount("1000000"));
    assert!(!valid_atomic_amount("0"));
    assert!(!valid_atomic_amount("01"));
    assert!(!valid_atomic_amount("1.5"));
}

#[test]
fn x402_rate_limit_is_scoped_to_one_project() {
    let mut limiter = X402RateLimiter::new();
    let first = new_v7();
    let second = new_v7();
    let now = 1_000_000_u64;
    for _ in 0..MAX_X402_REQUESTS_PER_SECOND_PER_PROJECT {
        assert!(limiter.allow(first, now));
    }
    assert!(!limiter.allow(first, now));
    assert!(limiter.allow(second, now));
}

#[test]
fn x402_window_reopens_after_one_second() {
    let mut limiter = X402RateLimiter::new();
    for _ in 0..MAX_X402_REQUESTS_PER_SECOND_PER_PROJECT {
        assert!(limiter.allow(7, 5_000));
    }
    assert!(!limiter.allow(7, 5_999));
    assert!(limiter.allow(7, 6_000));
}

#[test]
fn sealing_under_a_given_nonce_is_deterministic_and_opens() {
    let cipher = RouteSecretCipher::new([5_u8; 32]);
    let first = cipher.encrypt_with_nonce("https://rpc.example/a", [1_u8; 12]).expect("seal");
    let second = cipher.encrypt_with_nonce("https://rpc.example/a", [1_u8; 12]).expect("seal");
    assert_eq!(first, second);
    assert_eq!(first.len(), "https://rpc.example/a".len() + 16);
    assert_ne!(first, cipher.encrypt_with_nonce("https://rpc.example/a", [2_u8; 12]).expect("seal"));
    assert_eq!(cipher.decrypt(&first, &[1_u8; 12]).expect("open"), "https://rpc.example/a");
}

#[test]
fn amounts_need_a_digit_and_keys_exactly_hex_digits() {
    assert!(!valid_atomic_amount(""));
    assert!(valid_atomic_amount("7"));
    assert!(!valid_atomic_amount(&"1".repeat(81)));
    assert_eq!(decode_hex_key(&format!("+f{}", "ab".repeat(31))), None);
    assert_eq!(decode_hex_key(&format!("{}-1", "ab".repeat(31))), None);
    assert!(decode_hex_key(&"aB".repeat(32)).is_some());
}

#[test]
fn route_decryption_succeeds_for_a_sealed_endpoint() {
    let cipher = RouteSecretCipher::new([8_u8; 32]);
    let sealed = cipher.encrypt_with_nonce("https://rpc.example/z", [3_u8; 12]).expect("seal");
    assert_eq!(
        route_endpoint(Some(sealed.as_slice()), Some(&[3_u8; 12][..]), Some(&cipher), None),
        Ok("https://rpc.example/z".to_string())
    );
    assert_eq!(
        route_endpoint(Some(sealed.as_slice()), Some(&[3_u8; 11][..]), Some(&cipher), None),
        Err("rpc endpoint decryption failed")
    );
}
