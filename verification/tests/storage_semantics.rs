use landfall_server::acknowledged_events::{find_durability_gaps, DurabilityGap};
use landfall_server::artifact_store::{store_artifact, ArtifactError, ArtifactFormat, ArtifactPrivacy, MAX_ARTIFACT_BYTES};
use landfall_server::backup::{create_manifest, validate_restore, RestoreError};
use landfall_server::deletion::{execute_deletion_job, DeletionError, DeletionJob, DeletionLedger, TraceTombstone};
use landfall_server::etag::{conditional_read, etag_for, ConditionalRead};
use landfall_server::fault_injection::{expected_outcome, FailureKind, SafeOutcome};
use landfall_server::job_recovery::{DurableJob, JobState};
use landfall_server::pagination::{paginate, CursorError};
use landfall_server::recommendation_disposition::{
    append_disposition, latest_disposition, DispositionError, DispositionRecord, RecommendationDisposition,
};
use landfall_server::retention::{plan_retention, CalendarDate, RetentionError};

fn record(id: &str, recommendation_id: &str, disposition: RecommendationDisposition) -> DispositionRecord {
    DispositionRecord {
        disposition_id: id.into(),
        recommendation_id: recommendation_id.into(),
        disposition,
        reason: Some("reviewed".into()),
        recorded_at: "2026-01-01T00:00:00Z".into(),
        actor: "operator".into(),
    }
}

#[test]
fn detects_missing_acknowledged_event_without_false_success() {
    let durable = vec!["e1".to_string(), "e3".to_string()];
    assert!(find_durability_gaps(vec!["e1".into(), "e3".into()], &durable).is_empty());
    assert_eq!(
        find_durability_gaps(vec!["e2".into(), "e1".into()], &durable),
        vec![DurabilityGap { event_id: "e2".into() }]
    );
}

#[test]
fn durability_gaps_are_sorted_by_event_id() {
    let durable = vec!["b".to_string()];
    let gaps = find_durability_gaps(vec!["z".into(), "b".into(), "a".into(), "m".into()], &durable);
    let ids: Vec<&str> = gaps.iter().map(|g| g.event_id.as_str()).collect();
    assert_eq!(ids, vec!["a", "m", "z"]);
}

#[test]
fn records_size_and_checksum_and_rejects_oversize() {
    let artifact = store_artifact("reports/r1.json", ArtifactFormat::Json, ArtifactPrivacy::Shareable, b"{}".to_vec())
        .unwrap();
    assert_eq!(artifact.content_bytes, 2);
    assert!(artifact.verify(b"{}").is_ok());
    assert_eq!(artifact.verify(b"{\"x\":1}"), Err(ArtifactError::ChecksumMismatch));
    assert_eq!(
        store_artifact("r", ArtifactFormat::Html, ArtifactPrivacy::Internal, vec![0; MAX_ARTIFACT_BYTES + 1]),
        Err(ArtifactError::TooLarge)
    );
}

#[test]
fn stored_artifact_content_is_returned_unchanged_and_blank_keys_are_refused() {
    let artifact = store_artifact("k", ArtifactFormat::Html, ArtifactPrivacy::Internal, b"<p>".to_vec()).unwrap();
    assert_eq!(artifact.content(), b"<p>");
    assert_eq!(
        store_artifact("  ", ArtifactFormat::Html, ArtifactPrivacy::Internal, b"x".to_vec()),
        Err(ArtifactError::EmptyKey)
    );
}

#[test]
fn restore_requires_matching_schema_size_and_checksum() {
    let payload = b"fixture backup";
    let manifest = create_manifest("backup-1", "schema-v1", payload).unwrap();
    assert!(validate_restore(&manifest, "schema-v1", payload).is_ok());
    assert_eq!(validate_restore(&manifest, "schema-v2", payload), Err(RestoreError::SchemaMismatch));
    assert_eq!(validate_restore(&manifest, "schema-v1", b"changed"), Err(RestoreError::SizeMismatch));
}

#[test]
fn restore_detects_same_size_corruption() {
    let manifest = create_manifest("backup-2", "schema-v1", b"abcdef").unwrap();
    assert_eq!(validate_restore(&manifest, "schema-v1", b"abcdeg"), Err(RestoreError::ChecksumMismatch));
}

#[test]
fn tombstone_is_append_only_and_hides_trace() {
    let mut ledger = DeletionLedger::default();
    let tombstone = TraceTombstone {
        trace_id: "trace-1".into(),
        deleted_at: "2026-01-01T00:00:00Z".into(),
        actor: "operator".into(),
        reason: "customer request".into(),
    };
    ledger.delete(tombstone.clone()).unwrap();
    assert!(ledger.is_deleted("trace-1"));
    assert_eq!(ledger.audit("trace-1"), Some(&tombstone));
    assert_eq!(ledger.delete(tombstone), Err(DeletionError::AlreadyDeleted));
}

#[test]
fn etag_is_stable_for_version_and_changes_when_version_advances() {
    assert_eq!(etag_for(42), "\"projection-42\"");
    assert_eq!(etag_for(42), etag_for(42));
    assert_ne!(etag_for(42), etag_for(43));
    assert_eq!(conditional_read(42, Some("\"projection-42\"")), ConditionalRead::NotModified);
    assert_eq!(conditional_read(43, Some("\"projection-42\"")), ConditionalRead::Modified);
}

#[test]
fn every_failure_has_explicit_safe_outcome() {
    assert_eq!(expected_outcome(FailureKind::CollectorDown), SafeOutcome::Retryable);
    assert_eq!(expected_outcome(FailureKind::DatabaseDown), SafeOutcome::HaltWrites);
    assert_eq!(expected_outcome(FailureKind::ProjectorCrash), SafeOutcome::Rehydrate);
    assert_eq!(expected_outcome(FailureKind::ObserverRateLimited), SafeOutcome::Retryable);
    assert_eq!(expected_outcome(FailureKind::CorruptRpcResponse), SafeOutcome::Quarantine);
    assert_eq!(expected_outcome(FailureKind::DiskPressure), SafeOutcome::HaltWrites);
    assert_eq!(expected_outcome(FailureKind::ReportWorkerCrash), SafeOutcome::Rehydrate);
    assert_eq!(expected_outcome(FailureKind::RetentionFailure), SafeOutcome::DryRunOnly);
}

#[test]
fn expired_lease_is_recovered_and_reclaimed() {
    let mut job = DurableJob { id: "job-1".into(), state: JobState::Pending, attempts: 0, lease_until: None };
    assert!(job.claim(100, 10));
    assert!(!job.claim(105, 10));
    assert!(job.recover_expired(110));
    assert!(job.claim(110, 10));
    assert_eq!(job.attempts, 2);
    job.complete();
    assert_eq!(job.state, JobState::Completed);
    assert!(!job.recover_expired(999));
}

#[test]
fn cursor_pages_are_bounded_and_repeatable() {
    let source = vec![1, 2, 3, 4, 5];
    let first = paginate(&source, None, 2).expect("page");
    assert_eq!(first.items, vec![1, 2]);
    let second = paginate(&source, first.next_cursor.as_deref(), 2).expect("page");
    assert_eq!(second.items, vec![3, 4]);
    let third = paginate(&source, second.next_cursor.as_deref(), 2).expect("page");
    assert_eq!(third.items, vec![5]);
    assert!(third.next_cursor.is_none());
}

#[test]
fn invalid_cursor_and_limit_are_rejected() {
    assert_eq!(paginate::<u8>(&[], Some("bad"), 1), Err(CursorError::Invalid));
    assert_eq!(paginate::<u8>(&[], None, 0), Err(CursorError::InvalidLimit));
}

#[test]
fn appends_history_and_returns_latest() {
    let recommendation_id = "recommendation-1";
    let mut history = Vec::new();
    append_disposition(&mut history, record("disposition-1", recommendation_id, RecommendationDisposition::Accepted))
        .unwrap();
    append_disposition(&mut history, record("disposition-2", recommendation_id, RecommendationDisposition::Implemented))
        .unwrap();
    assert_eq!(history.len(), 2);
    assert_eq!(
        latest_disposition(&history, recommendation_id).unwrap().disposition,
        RecommendationDisposition::Implemented
    );
}

#[test]
fn duplicate_entries_are_rejected() {
    let recommendation_id = "recommendation-1";
    let disposition_id = "disposition-1";
    let mut history = vec![record(disposition_id, recommendation_id, RecommendationDisposition::Rejected)];
    assert_eq!(
        append_disposition(&mut history, record(disposition_id, recommendation_id, RecommendationDisposition::Accepted)),
        Err(DispositionError::DuplicateDispositionId)
    );
    assert_eq!(history.len(), 1);
}

#[test]
fn disposition_validation_reports_each_error() {
    let mut history = Vec::new();
    let mut blank_actor = record("d1", "r1", RecommendationDisposition::Accepted);
    blank_actor.actor = " ".into();
    assert_eq!(append_disposition(&mut history, blank_actor), Err(DispositionError::EmptyActor));
    let mut blank_time = record("d1", "r1", RecommendationDisposition::Accepted);
    blank_time.recorded_at = "".into();
    assert_eq!(append_disposition(&mut history, blank_time), Err(DispositionError::EmptyTimestamp));
    let mut long_reason = record("d1", "r1", RecommendationDisposition::Accepted);
    long_reason.reason = Some("x".repeat(1001));
    assert_eq!(append_disposition(&mut history, long_reason), Err(DispositionError::ReasonTooLong));
    assert!(history.is_empty());
    assert_eq!(DispositionError::ReasonTooLong.message(), "reason exceeds the 1,000-byte limit");
}

fn julian(year: i32, month: time::Month, day: u8) -> i32 {
    time::Date::from_calendar_date(year, month, day).unwrap().to_julian_day()
}

#[test]
fn dry_run_lists_only_partitions_before_safety_cutoff() {
    let today_day = julian(2026, time::Month::September, 11);
    let today = CalendarDate::from_julian_day(today_day).unwrap();
    let day = |offset: i32| CalendarDate::from_julian_day(today_day - offset).unwrap();
    let plan = plan_retention(today, 30, vec![day(31), day(30), today], true).unwrap();
    assert_eq!(plan.partitions_to_drop, vec![day(31)]);
    assert!(plan.dry_run);
    assert_eq!(plan_retention(today, 0, vec![], true), Err(RetentionError::ZeroRetention));
}

#[test]
fn retention_plan_is_sorted_oldest_first() {
    let today_day = julian(2026, time::Month::January, 31);
    let today = CalendarDate::from_julian_day(today_day).unwrap();
    let day = |offset: i32| CalendarDate::from_julian_day(today_day - offset).unwrap();
    let plan = plan_retention(today, 1, vec![day(3), day(10), day(2)], false).unwrap();
    assert_eq!(plan.partitions_to_drop, vec![day(10), day(3), day(2)]);
    assert_eq!(plan.cutoff, day(1));
    assert!(!plan.dry_run);
}

#[test]
fn deletion_jobs_apply_to_the_ledger_and_refuse_blank_fields() {
    let mut ledger = DeletionLedger::new();
    let tombstone = TraceTombstone {
        trace_id: "trace-9".into(),
        deleted_at: "2026-02-01T00:00:00Z".into(),
        actor: "operator".into(),
        reason: "retention".into(),
    };
    let job = DeletionJob { trace_id: "trace-9".into(), tombstone: tombstone.clone() };
    assert_eq!(execute_deletion_job(&mut ledger, job), Ok(()));
    assert!(ledger.is_deleted("trace-9"));
    assert!(!ledger.is_deleted("trace-8"));
    let blank = TraceTombstone { actor: "  ".into(), trace_id: "trace-8".into(), ..tombstone };
    let refused = execute_deletion_job(&mut ledger, DeletionJob { trace_id: "trace-8".into(), tombstone: blank });
    assert_eq!(refused, Err(DeletionError::EmptyActor));
    assert!(!ledger.is_deleted("trace-8"));
}

#[test]
fn deleted_trace_stays_deleted_after_later_requests() {
    let mut ledger = DeletionLedger::new();
    let first = TraceTombstone {
        trace_id: "trace-5".into(),
        deleted_at: "2026-03-01T00:00:00Z".into(),
        actor: "operator".into(),
        reason: "customer request".into(),
    };
    ledger.delete(first.clone()).unwrap();
    let again = TraceTombstone { actor: "someone else".into(), ..first.clone() };
    assert_eq!(ledger.delete(again), Err(DeletionError::AlreadyDeleted));
    let other = TraceTombstone { trace_id: "trace-6".into(), ..first.clone() };
    ledger.delete(other).unwrap();
    let blank = TraceTombstone { actor: " ".into(), ..first.clone() };
    assert_eq!(ledger.delete(blank), Err(DeletionError::EmptyActor));
    assert!(ledger.is_deleted("trace-5"));
    assert_eq!(ledger.audit("trace-5"), Some(&first));
}

#[test]
fn walking_every_page_returns_every_item_once() {
    let items: Vec<u32> = (0..23).collect();
    let mut seen = Vec::new();
    let mut cursor: Option<String> = None;
    let mut pages = 0;
    loop {
        let page = paginate(&items, cursor.as_deref(), 5).expect("page");
        pages += 1;
        seen.extend(page.items.iter().copied());
        match page.next_cursor {
            Some(next) => {
                assert_eq!(page.items.len(), 5);
                cursor = Some(next);
            }
            None => break,
        }
    }
    assert_eq!(seen, items);
    assert_eq!(pages, 5);
    let empty: Vec<u32> = Vec::new();
    let page = paginate(&empty, None, 5).expect("page");
    assert!(page.items.is_empty() && page.next_cursor.is_none());
}
