use landfall_server::accounts::{
    check_registration, hash_password, normalize_email, unique_slug, valid_email, valid_password, verify_password,
    RegisterRequest,
};
use landfall_server::auth::{authenticate, authorize, hash_token, presented_digest, ApiTokenRecord, AuthError, AuthenticatedToken, Timestamp, project_admin};
use landfall_server::control_plane::{
    authorize_bootstrap, bootstrap_token_hash, check_bootstrap, issue_token, valid_atomic_amount, valid_merchant_origin, valid_rpc_endpoint,
    valid_scopes, valid_text, valid_x402_policy, CreateProjectRequest, UpsertX402SpendPolicyRequest,
};
use landfall_server::system_status::{authenticated_status, Status, SystemStatusSnapshot};

fn token_record(token: &str) -> ApiTokenRecord {
    ApiTokenRecord { token_hash: hash_token(token), scopes: vec!["ingest:write".into()], expires_at: None, revoked_at: None }
}

#[test]
fn accepts_valid_scoped_token_and_rejects_lifecycle_failures() {
    let now = Timestamp::unix_epoch();
    let valid = token_record("secret");
    assert!(authorize(Some("Bearer secret"), std::slice::from_ref(&valid), "ingest:write", now).is_ok());
    assert_eq!(authorize(None, std::slice::from_ref(&valid), "ingest:write", now), Err(AuthError::MissingBearer));
    assert_eq!(authorize(Some("Bearer secret"), std::slice::from_ref(&valid), "admin", now), Err(AuthError::MissingScope));
    let mut revoked = valid.clone();
    revoked.revoked_at = Some(now);
    assert_eq!(authorize(Some("Bearer secret"), &[revoked], "ingest:write", now), Err(AuthError::RevokedToken));
    let mut expired = valid.clone();
    expired.expires_at = Some(now);
    assert_eq!(authorize(Some("Bearer secret"), &[expired], "ingest:write", now), Err(AuthError::ExpiredToken));
    assert_eq!(authorize(Some("Basic secret"), std::slice::from_ref(&valid), "ingest:write", now), Err(AuthError::InvalidBearer));
    assert_eq!(
        authorize(Some("Bearer secret with-space"), std::slice::from_ref(&valid), "ingest:write", now),
        Err(AuthError::InvalidBearer)
    );
    assert_eq!(authorize(Some("Bearer other"), std::slice::from_ref(&valid), "ingest:write", now), Err(AuthError::UnknownToken));
}

#[test]
fn unexpired_token_with_future_expiry_is_accepted() {
    let mut record = token_record("secret");
    record.expires_at = Some(Timestamp::from_unix_nanos(10));
    assert!(authorize(Some("Bearer secret"), &[record], "ingest:write", Timestamp::from_unix_nanos(9)).is_ok());
}

#[test]
fn token_digest_is_the_sha256_of_the_secret() {
    let digest = hash_token("abc");
    assert_eq!(digest[0], 0xba);
    assert_eq!(digest[1], 0x78);
    assert_eq!(digest[31], 0xad);
}

fn snapshot() -> SystemStatusSnapshot {
    SystemStatusSnapshot {
        database_ready: true,
        queue_depth: 4,
        projection_lag_seconds: 2,
        observer_routes: 2,
        unhealthy_observer_routes: 0,
        schema_version: "events-v1".into(),
        rule_set_version: "rules-v1".into(),
        retention_days: 30,
    }
}

#[test]
fn requires_admin_scope_and_marks_degraded_dependencies() {
    let token = ApiTokenRecord {
        token_hash: hash_token("admin"),
        scopes: vec!["system:read".into()],
        expires_at: None,
        revoked_at: None,
    };
    assert_eq!(
        authenticated_status(None, &[token.clone()], Timestamp::unix_epoch(), snapshot()),
        Err(AuthError::MissingBearer)
    );
    let mut degraded = snapshot();
    degraded.unhealthy_observer_routes = 1;
    let result = authenticated_status(Some("Bearer admin"), &[token.clone()], Timestamp::unix_epoch(), degraded).unwrap();
    assert_eq!(result.status, Status::Degraded);
    assert_eq!(result.queue_depth, 4);
    let healthy = authenticated_status(Some("Bearer admin"), &[token], Timestamp::unix_epoch(), snapshot()).unwrap();
    assert_eq!(healthy.status, Status::Operational);
}

#[test]
fn password_hash_is_not_reversible_and_verifies() {
    let hash = hash_password("correct horse battery staple").expect("hash");
    assert_ne!(hash, "correct horse battery staple");
    assert!(verify_password("correct horse battery staple", &hash));
    assert!(!verify_password("other password", &hash));
}

#[test]
fn password_policy_and_slug_are_deterministic() {
    assert!(!valid_password("short"));
    assert!(valid_password("twelve chars!"));
    assert_eq!(unique_slug("Acme Payments", uuid::Uuid::nil().as_u128()), "acme-payments-00000000");
}

#[test]
fn slug_falls_back_and_truncates() {
    assert_eq!(unique_slug("!!!", 0), "workspace-00000000");
    let long = "a".repeat(80);
    let slug = unique_slug(&long, 0xabcdef01_0000_0000_0000_000000000000);
    assert_eq!(slug, format!("{}-abcdef01", "a".repeat(65)));
    assert_eq!(unique_slug("--Ops Team--", 0), "ops-team-00000000");
}

#[test]
fn emails_are_checked_and_normalized() {
    assert!(valid_email("ada@example.com"));
    assert!(!valid_email("ada@localhost"));
    assert!(!valid_email("no-at-sign.example"));
    assert!(valid_email("a@b@c.d"));
    assert_eq!(normalize_email("  Ada@Example.COM "), "ada@example.com");
}

#[test]
fn registration_requires_every_field() {
    let good = RegisterRequest {
        email: "ada@example.com".into(),
        display_name: "Ada".into(),
        password: "twelve chars!".into(),
        workspace_name: "Acme".into(),
    };
    assert!(check_registration(&good).is_ok());
    let mut bad = good.clone();
    bad.password = "short".into();
    let (status, error) = check_registration(&bad).unwrap_err();
    assert_eq!(status, 400);
    assert_eq!(error.code, "invalid_account_input");
}

#[test]
fn issued_tokens_are_prefixed_and_have_256_random_bits() {
    let (token, prefix) = issue_token().expect("system CSPRNG available");
    assert!(token.starts_with("lf_"));
    assert_eq!(token.len(), 67);
    assert_eq!(prefix, token[..11]);
    assert!(token[3..].chars().all(|c| c.is_ascii_hexdigit() && !c.is_ascii_uppercase()));
}

#[test]
fn token_scope_sets_must_be_known_and_unique() {
    assert!(valid_scopes(&vec!["ingest:write".into()]));
    assert!(!valid_scopes(&vec![]));
    assert!(!valid_scopes(&vec!["nope".into()]));
    assert!(!valid_scopes(&vec!["ingest:write".into(), "ingest:write".into()]));
}

#[test]
fn rpc_endpoint_must_be_https_and_never_embed_credentials() {
    assert!(valid_rpc_endpoint("https://api.mainnet-beta.solana.com"));
    assert!(!valid_rpc_endpoint("http://localhost:8899"));
    assert!(!valid_rpc_endpoint("https://key@rpc.example"));
    assert!(!valid_rpc_endpoint("https://rpc.example/with space"));
}

#[test]
fn control_text_counts_characters() {
    assert!(valid_text("é", 1));
    assert!(!valid_text("", 10));
    assert!(!valid_text("abc", 2));
}

#[test]
fn x402_policies_need_canonical_ordered_limits_and_lowercase_origins() {
    let policy = UpsertX402SpendPolicyRequest {
        agent_id: "agent".into(),
        network: "solana:mainnet".into(),
        asset: "USDC".into(),
        max_per_request_atomic: "100".into(),
        max_per_day_atomic: "1000".into(),
        merchant_origins: vec!["https://shop.example".into()],
        enabled: true,
    };
    assert!(valid_x402_policy(&policy));
    let mut reversed = policy.clone();
    reversed.max_per_request_atomic = "10000".into();
    assert!(!valid_x402_policy(&reversed));
    let mut duplicate = policy.clone();
    duplicate.merchant_origins = vec!["https://shop.example".into(), "https://shop.example".into()];
    assert!(!valid_x402_policy(&duplicate));
    assert!(!valid_merchant_origin("https://Shop.example"));
    assert!(!valid_merchant_origin("https://shop.example/path"));
    assert!(!valid_atomic_amount("0"));
    assert!(!valid_atomic_amount("007"));
    assert!(valid_atomic_amount("340282366920938463463374607431768211455"));
    assert!(!valid_atomic_amount("340282366920938463463374607431768211456"));
}

#[test]
fn bootstrap_needs_a_configured_and_presented_credential() {
    let request = CreateProjectRequest { name: "test".into(), initial_token_name: "owner".into() };
    let now = Timestamp::unix_epoch();
    let (status, error) = check_bootstrap(Some("Bearer boot"), None, now, &request).unwrap_err();
    assert_eq!(status, 503);
    assert_eq!(error.code, "bootstrap_unavailable");
    let hash = hash_token("boot");
    assert!(authorize_bootstrap(Some("Bearer boot"), Some(hash), now));
    assert!(!authorize_bootstrap(Some("Bearer other"), Some(hash), now));
    assert_eq!(check_bootstrap(Some("Bearer other"), Some(hash), now, &request).unwrap_err().0, 401);
    assert!(check_bootstrap(Some("Bearer boot"), Some(hash), now, &request).is_ok());
}

#[test]
fn project_administration_needs_the_project_and_the_scope() {
    let admin = AuthenticatedToken { project_id: 7, scopes: vec!["project:admin".into()] };
    assert!(project_admin(Some(&admin), 7));
    assert!(!project_admin(Some(&admin), 8));
    assert!(!project_admin(None, 7));
    let reader = AuthenticatedToken { project_id: 7, scopes: vec!["traces:read".into()] };
    assert!(!project_admin(Some(&reader), 7));
}

#[test]
fn bootstrap_secret_is_trimmed_and_blank_disables_it() {
    assert_eq!(bootstrap_token_hash(Some("  boot-secret\n")), Some(hash_token("boot-secret")));
    assert_eq!(bootstrap_token_hash(Some(" \t\n")), None);
    assert_eq!(bootstrap_token_hash(None), None);
}

#[test]
fn authentication_names_the_project_of_the_matching_token() {
    let records = vec![token_record("first"), token_record("second")];
    let projects = vec![11_u128, 22_u128];
    let now = Timestamp::unix_epoch();
    let principal = authenticate(Some("Bearer second"), &records, &projects, "ingest:write", now).expect("authorized");
    assert_eq!(principal.project_id, 22);
    assert_eq!(principal.scopes, vec!["ingest:write".to_string()]);
    assert_eq!(
        authenticate(Some("Bearer second"), &records, &projects, "admin", now),
        Err(AuthError::MissingScope)
    );
    assert_eq!(authenticate(Some("Bearer third"), &records, &projects, "ingest:write", now), Err(AuthError::UnknownToken));
    assert_eq!(authenticate(None, &records, &projects, "ingest:write", now), Err(AuthError::MissingBearer));
    assert_eq!(presented_digest(Some("Bearer second")), Some(hash_token("second")));
    assert_eq!(presented_digest(Some("Bearer two words")), None);
    assert_eq!(presented_digest(Some("Basic abc")), None);
    assert_eq!(presented_digest(None), None);
}

#[test]
fn secrets_and_tokens_are_the_hex_of_their_bytes() {
    let mut bytes = [0_u8; 32];
    for (i, b) in bytes.iter_mut().enumerate() {
        *b = i as u8 * 8;
    }
    let expected_hex: String = bytes.iter().map(|b| format!("{b:02x}")).collect();
    let (secret, digest) = landfall_server::secret_tokens::secret_from_bytes("lfs_", &bytes);
    assert_eq!(secret, format!("lfs_{expected_hex}"));
    assert_eq!(digest, hash_token(&secret).to_vec());
    let (token, prefix) = landfall_server::control_plane::token_from_bytes(&bytes);
    assert_eq!(token, format!("lf_{expected_hex}"));
    assert_eq!(token.len(), 67);
    assert_eq!(prefix, "lf_00081018");
}

#[test]
fn passwords_are_counted_in_characters_and_limits_take_no_sign() {
    assert!(!valid_password("ééééé"));
    assert!(!valid_password("éééééé"));
    assert!(valid_password("éééééééééééé"));
    assert!(!valid_password(&"a".repeat(257)));
    assert!(!valid_atomic_amount("+5"));
    assert!(!valid_atomic_amount("+0"));
    assert!(!valid_atomic_amount(""));
    assert!(valid_atomic_amount("5"));
}
