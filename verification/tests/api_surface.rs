use landfall_server::http_policy::{
    compressed_body_too_large, content_security_policy, cors_allows_origin, is_dashboard_request, readiness_status,
    request_id, required_scope, trace_list_limit, RateWindow,
};
use landfall_server::ingest::{
    batch_identity, check_batch, contains_prohibited_key, durable_batch, ingest_response, read_event_header, IngestError,
    MAX_COMPRESSED_BODY_BYTES, MAX_CONCURRENT_REQUESTS, MAX_EVENTS_PER_BATCH, MAX_REQUESTS_PER_SECOND,
};
use landfall_server::json::JsonValue;
use landfall_server::read_api::{comparison_summary, state_label, system_health, EnvironmentCounts};

fn text(s: &str) -> JsonValue {
    JsonValue::String(s.to_string())
}

fn object(members: Vec<(&str, JsonValue)>) -> JsonValue {
    JsonValue::Object(members.into_iter().map(|(k, v)| (k.to_string(), v)).collect())
}

fn header_event(event_type: &str) -> JsonValue {
    object(vec![("schema_version", text("1.0")), ("event_type", text(event_type))])
}

#[test]
fn limits_are_positive_and_bounded() {
    assert!(MAX_REQUESTS_PER_SECOND > 0);
    assert!(MAX_CONCURRENT_REQUESTS <= MAX_REQUESTS_PER_SECOND as usize);
}

#[test]
fn cors_policy_allows_only_same_origin_host() {
    assert!(cors_allows_origin("https://example.test", Some("example.test")));
    assert!(!cors_allows_origin("https://evil.test", Some("example.test")));
    assert!(!cors_allows_origin("null", Some("example.test")));
    assert!(!cors_allows_origin("https://example.test", None));
}

#[test]
fn route_scope_classification_is_explicit() {
    assert_eq!(required_scope("/v1/control/projects/id/tokens"), "project:admin");
    assert_eq!(required_scope("/v1/ingest"), "ingest:write");
    assert_eq!(required_scope("/v1/traces"), "traces:read");
    assert_eq!(required_scope("/v1/traces/id/diagnostics"), "diagnostics:read");
    assert_eq!(required_scope("/v1/system/status"), "admin");
    assert_eq!(required_scope("/v1/x402/settlements"), "x402:pay");
}

#[test]
fn maps_duplicate_batch_to_ok_and_new_batch_to_accepted() {
    assert_eq!(ingest_response(0, 3).0, 200);
    assert_eq!(ingest_response(2, 1).0, 202);
    assert_eq!(ingest_response(0, 0).0, 202);
    assert_eq!(ingest_response(2, 1).1.accepted, 2);
    assert_eq!(ingest_response(2, 1).1.duplicate, 1);
}

#[test]
fn empty_and_oversized_batches_are_refused() {
    assert_eq!(check_batch(&vec![], &vec![]), Err(IngestError::EmptyBatch));
    let many: Vec<JsonValue> = (0..MAX_EVENTS_PER_BATCH + 1).map(|_| header_event("solana.trace.created")).collect();
    let verdicts = vec![true; many.len()];
    assert_eq!(check_batch(&many, &verdicts), Err(IngestError::BatchTooLarge));
    assert_eq!(IngestError::BatchTooLarge.status(), 413);
    assert_eq!(IngestError::EmptyBatch.status(), 400);
}

#[test]
fn batch_with_valid_events_is_admitted() {
    let events = vec![header_event("solana.trace.created")];
    assert_eq!(check_batch(&events, &vec![true]), Ok(()));
}

#[test]
fn incompatible_or_headless_events_are_invalid() {
    let events = vec![header_event("unknown")];
    assert_eq!(check_batch(&events, &vec![false]), Err(IngestError::InvalidEvent));
    let headless = vec![object(vec![("event_type", text("x"))])];
    assert_eq!(check_batch(&headless, &vec![true]), Err(IngestError::InvalidEvent));
    assert_eq!(read_event_header(&JsonValue::Null), Err("event_not_object"));
    assert_eq!(read_event_header(&object(vec![("schema_version", text("1.0"))])), Err("missing_event_type"));
    assert_eq!(read_event_header(&header_event("t")), Ok(("1.0", "t")));
}

#[test]
fn prohibited_privacy_keys_are_found_at_any_depth() {
    let nested = object(vec![
        ("schema_version", text("1.0")),
        ("event_type", text("solana.trace.created")),
        ("attributes", object(vec![("seed_phrase", text("canary-secret"))])),
    ]);
    assert!(contains_prohibited_key(&nested));
    let in_array = JsonValue::Array(vec![JsonValue::Null, object(vec![("cookie", JsonValue::Bool(true))])]);
    assert!(contains_prohibited_key(&in_array));
    assert!(!contains_prohibited_key(&header_event("t")));
    assert_eq!(check_batch(&vec![nested], &vec![true]), Err(IngestError::PrivacyViolation));
}

#[test]
fn durable_events_need_identities_and_a_timestamp() {
    let project = uuid::Uuid::now_v7();
    let good = object(vec![
        ("event_id", text(&uuid::Uuid::now_v7().to_string())),
        ("project_id", text(&project.to_string())),
        ("environment_id", text(&uuid::Uuid::now_v7().to_string())),
        ("occurred_at", text("2026-01-02T03:04:05Z")),
        ("event_type", text("solana.trace.created")),
    ]);
    let stored = durable_batch(&vec![good], &vec![b"{}".to_vec()], Some(project.as_u128())).unwrap();
    assert_eq!(stored.len(), 1);
    assert_eq!(stored[0].project_id, project.as_u128());
    assert_eq!(stored[0].event_type, "solana.trace.created");
    assert_eq!(stored[0].partition_day, 2_461_043);
    assert_eq!(stored[0].trace_id, None);
    assert_eq!(stored[0].payload_hash[0], 0x44);
    let other_project = object(vec![
        ("event_id", text(&uuid::Uuid::now_v7().to_string())),
        ("project_id", text(&uuid::Uuid::now_v7().to_string())),
    ]);
    assert_eq!(
        durable_batch(&vec![other_project], &vec![vec![]], Some(project.as_u128())),
        Err(IngestError::ProjectForbidden)
    );
    let bad_time = object(vec![
        ("event_id", text(&uuid::Uuid::now_v7().to_string())),
        ("project_id", text(&project.to_string())),
        ("environment_id", text(&uuid::Uuid::now_v7().to_string())),
        ("occurred_at", text("yesterday")),
    ]);
    assert_eq!(durable_batch(&vec![bad_time], &vec![vec![]], None), Err(IngestError::InvalidOccurredAt));
    assert_eq!(durable_batch(&vec![JsonValue::Null], &vec![vec![]], None), Err(IngestError::InvalidEventId));
}

#[test]
fn batch_ids_must_be_uuids() {
    assert_eq!(batch_identity(Some("not-a-uuid")), Err(IngestError::InvalidBatchId));
    let id = uuid::Uuid::now_v7();
    assert_eq!(batch_identity(Some(&id.to_string())), Ok(id.as_u128()));
    assert!(batch_identity(None).is_ok());
}

#[test]
fn oversized_compressed_body_is_refused_before_decoding() {
    let too_long = (MAX_COMPRESSED_BODY_BYTES + 1).to_string();
    assert!(compressed_body_too_large(true, Some(&too_long)));
    assert!(!compressed_body_too_large(false, Some(&too_long)));
    assert!(!compressed_body_too_large(true, Some("12")));
    assert!(!compressed_body_too_large(true, Some("lots")));
    assert!(!compressed_body_too_large(true, None));
}

#[test]
fn request_id_is_preserved_or_generated() {
    assert_eq!(request_id(Some("portfolio-test-1")), "portfolio-test-1");
    assert_eq!(request_id(None).len(), 36);
    assert_eq!(request_id(Some("")).len(), 36);
    assert_eq!(request_id(Some(&"x".repeat(129))).len(), 36);
}

#[test]
fn dashboard_and_api_paths_get_separate_policies() {
    assert!(is_dashboard_request("/"));
    assert!(is_dashboard_request("/assets/app.js"));
    assert!(!is_dashboard_request("/openapi.json"));
    assert!(!is_dashboard_request("/v1/traces"));
    assert_eq!(
        content_security_policy(true),
        "default-src 'self'; connect-src 'self'; script-src 'self'; style-src 'self'; img-src 'self'; base-uri 'none'; frame-ancestors 'none'"
    );
    assert_eq!(content_security_policy(false), "default-src 'none'; frame-ancestors 'none'");
}

#[test]
fn readiness_and_listing_limits() {
    assert_eq!(readiness_status(false), 503);
    assert_eq!(readiness_status(true), 200);
    assert_eq!(trace_list_limit(None), 50);
    assert_eq!(trace_list_limit(Some(0)), 1);
    assert_eq!(trace_list_limit(Some(500)), 100);
    assert_eq!(trace_list_limit(Some(7)), 7);
}

#[test]
fn rate_window_admits_one_hundred_per_second() {
    let mut window = RateWindow::new(0);
    for _ in 0..MAX_REQUESTS_PER_SECOND {
        assert!(window.try_acquire(10));
    }
    assert!(!window.try_acquire(999));
    assert!(window.try_acquire(1000));
    assert_eq!(window.total_requests, 1);
}

#[test]
fn state_labels_are_snake_case() {
    assert_eq!(state_label("NotLanded"), "not_landed");
    assert_eq!(state_label("Success"), "success");
    assert_eq!(state_label("ABC"), "a_b_c");
}

#[test]
fn system_health_degrades_on_dead_letters() {
    assert_eq!(system_health(1, 1, 0, 0, 0, 0).status, "ok");
    assert_eq!(system_health(1, 1, 0, 0, 2, 0).status, "degraded");
    assert_eq!(system_health(0, 1, 0, 0, 0, 0).status, "degraded");
}

#[test]
fn comparison_needs_two_environments() {
    let rows = vec![
        EnvironmentCounts { environment_id: 2, traces: 20, landed: 10 },
        EnvironmentCounts { environment_id: 1, traces: 8, landed: 4 },
    ];
    let summary = comparison_summary(&rows).unwrap();
    assert_eq!(summary.baseline_environment_id, "00000000-0000-0000-0000-000000000001");
    assert_eq!(summary.candidate_traces, 20);
    assert_eq!(comparison_summary(&rows[..1].to_vec()).unwrap_err().code, "insufficient_cohorts");
}
