use landfall_server::auth::AuthenticatedToken;
use landfall_server::instant::{format_rfc3339, format_time, OffsetInstant};
use landfall_server::json::{get_member, get_text, JsonValue};
use landfall_server::reports::{
    check_report_request, check_report_size, download_headers, escape_html, recorded_trace_count, render_html,
    report_document, report_response, report_storage_key, report_trace, CreateReportRequest, ReportTrace, TraceRow,
    MAX_REPORT_BYTES,
};

fn admin(project_id: u128) -> AuthenticatedToken {
    AuthenticatedToken { project_id, scopes: vec!["project:admin".into()] }
}

fn request(title: &str, profile: &str) -> CreateReportRequest {
    CreateReportRequest { title: title.into(), privacy_profile: profile.into() }
}

fn row() -> TraceRow {
    TraceRow {
        trace_id: 0x0123_4567_89ab_cdef_0123_4567_89ab_cdef,
        lifecycle_state: "landed".into(),
        landing_state: "landed".into(),
        execution_state: "success".into(),
        updated_at: OffsetInstant { unix_nanos: 0, offset_seconds: 0 },
    }
}

#[test]
fn report_requests_need_an_administrator_a_title_and_a_known_profile() {
    assert_eq!(check_report_request(Some(&admin(1)), 1, &request("Weekly", "internal")), Ok(()));
    let (status, error) = check_report_request(Some(&admin(2)), 1, &request("Weekly", "internal")).unwrap_err();
    assert_eq!((status, error.code), (403, "project_access_denied"));
    let (status, error) = check_report_request(None, 1, &request("Weekly", "internal")).unwrap_err();
    assert_eq!((status, error.code), (403, "project_access_denied"));
    let (status, error) = check_report_request(Some(&admin(1)), 1, &request("  ", "internal")).unwrap_err();
    assert_eq!((status, error.code), (400, "invalid_report_request"));
    assert!(check_report_request(Some(&admin(1)), 1, &request("Weekly", "public")).is_err());
    assert!(check_report_request(Some(&admin(1)), 1, &request(&"é".repeat(240), "shareable")).is_ok());
    assert!(check_report_request(Some(&admin(1)), 1, &request(&"é".repeat(241), "shareable")).is_err());
}

#[test]
fn shareable_reports_hide_trace_identities() {
    let internal = report_trace(&row(), "internal");
    assert_eq!(internal.trace_id, "01234567-89ab-cdef-0123-456789abcdef");
    assert_eq!(internal.updated_at, "1970-01-01T00:00:00Z");
    let shared = report_trace(&row(), "shareable");
    assert_eq!(shared.trace_id, "[redacted]");
    assert_eq!(shared.execution_state, "success");
}

#[test]
fn html_is_escaped_and_laid_out_as_a_table() {
    assert_eq!(escape_html("<a href=\"x\">Tom & Jerry's</a>"), "&lt;a href=&quot;x&quot;&gt;Tom &amp; Jerry&#x27;s&lt;/a&gt;");
    let traces = vec![ReportTrace {
        trace_id: "t<1>".into(),
        lifecycle_state: "landed".into(),
        landing_state: "landed".into(),
        execution_state: "success".into(),
        updated_at: "2026-01-01T00:00:00Z".into(),
    }];
    let html = render_html("Q1 & Q2", &traces);
    assert!(html.starts_with("<!doctype html><html lang=\"en\"><meta charset=\"utf-8\"><title>Q1 &amp; Q2</title>"));
    assert!(html.contains("<h1>Q1 &amp; Q2</h1>"));
    assert!(html.contains(
        "<tbody><tr><td>t&lt;1&gt;</td><td>landed</td><td>landed</td><td>success</td><td>2026-01-01T00:00:00Z</td></tr></tbody>"
    ));
    assert!(html.ends_with("</tbody></table></html>"));
}

#[test]
fn report_document_holds_every_trace() {
    let traces = vec![report_trace(&row(), "shareable"), report_trace(&row(), "internal")];
    let document = report_document("Weekly", "internal", "2026-01-02T00:00:00Z", &traces);
    assert_eq!(get_text(&document, "title"), Some("Weekly"));
    assert_eq!(get_text(&document, "privacy_profile"), Some("internal"));
    assert_eq!(get_text(&document, "generated_at"), Some("2026-01-02T00:00:00Z"));
    match get_member(&document, "traces") {
        Some(JsonValue::Array(items)) => {
            assert_eq!(items.len(), 2);
            assert_eq!(get_text(&items[0], "trace_id"), Some("[redacted]"));
            assert_eq!(get_text(&items[1], "trace_id"), Some("01234567-89ab-cdef-0123-456789abcdef"));
            assert_eq!(get_text(&items[1], "updated_at"), Some("1970-01-01T00:00:00Z"));
        }
        _ => panic!("traces must be an array"),
    }
}

#[test]
fn size_limit_keys_counts_and_downloads() {
    assert_eq!(check_report_size(MAX_REPORT_BYTES, MAX_REPORT_BYTES), Ok(()));
    let (status, error) = check_report_size(MAX_REPORT_BYTES + 1, 10).unwrap_err();
    assert_eq!((status, error.code), (413, "report_too_large"));
    assert!(check_report_size(10, MAX_REPORT_BYTES + 1).is_err());
    assert_eq!(report_storage_key(1, "json"), "reports/00000000-0000-0000-0000-000000000001.json");
    assert_eq!(recorded_trace_count(7), 7);
    assert_eq!(recorded_trace_count(usize::MAX), i32::MAX);
    assert_eq!(download_headers("json"), Ok(("application/json", "attachment; filename=landfall-report.json")));
    assert_eq!(download_headers("html"), Ok(("text/html; charset=utf-8", "attachment; filename=landfall-report.html")));
    assert_eq!(download_headers("pdf").unwrap_err().1.code, "invalid_report_format");
    let response = report_response(2, request("Weekly", "internal"), 3, OffsetInstant { unix_nanos: 0, offset_seconds: 0 });
    assert_eq!(response.report_id, "00000000-0000-0000-0000-000000000002");
    assert_eq!((response.status.as_str(), response.trace_count), ("completed", 3));
    assert_eq!(response.created_at, "1970-01-01T00:00:00Z");
}

#[test]
fn instants_that_leave_the_calendar_in_their_offset_are_not_written() {
    let last = 253_402_300_799_999_999_999_i128;
    assert_eq!(format_rfc3339(OffsetInstant { unix_nanos: last, offset_seconds: 3600 }), "");
    assert_eq!(format_time(Some(OffsetInstant { unix_nanos: last, offset_seconds: 3600 })), None);
    assert_eq!(format_rfc3339(OffsetInstant { unix_nanos: 0, offset_seconds: 3600 }), "1970-01-01T01:00:00+01:00");
}
