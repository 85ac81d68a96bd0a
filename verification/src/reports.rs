//! Report exports: request checks, redaction, HTML rendering and limits.
use vstd::prelude::*;
use crate::text::{trim, is_blank, str_eq, push_text, owned, chars_of};
use crate::auth::{AuthenticatedToken, administers, project_admin};
use crate::http_policy::ApiError;
use crate::ids::{uuid_text, uuid_hyphenated};
use crate::instant::{OffsetInstant, format_rfc3339, rfc3339_format};
use crate::json::JsonValue;

verus! {

/// Largest report artifact, in bytes.
pub const MAX_REPORT_BYTES: usize = 10 * 1024 * 1024;

/// Most characters in a report title.
pub const MAX_REPORT_TITLE_CHARS: usize = 240;

/// A request to export a project's traces.
#[derive(Debug, Clone, PartialEq, Eq)]
pub struct CreateReportRequest {
    pub title: String,
    pub privacy_profile: String,
}

/// A stored report, as listed and returned on creation.
#[derive(Debug, Clone, PartialEq, Eq)]
pub struct ReportResponse {
    pub report_id: String,
    pub title: String,
    pub status: String,
    pub privacy_profile: String,
    pub trace_count: i64,
    pub created_at: String,
}

/// The privacy profiles a report may be exported under.
pub open spec fn valid_profile(profile: Seq<char>) -> bool {
    profile == "internal"@ || profile == "shareable"@
}

/// Whether `profile` is a known privacy profile.
pub fn profile_is_valid(profile: &str) -> (b: bool)
    ensures
        b == valid_profile(profile@),
{
    str_eq(profile, "internal") || str_eq(profile, "shareable")
}

/// A title is usable when it is not blank and has at most 240 characters.
pub open spec fn valid_title(title: Seq<char>) -> bool {
    trim(title).len() != 0 && title.len() <= MAX_REPORT_TITLE_CHARS
}

/// The refusal of a request by a caller who does not administer the project.
pub open spec fn is_access_denied(r: (u16, ApiError)) -> bool {
    r.0 == 403 && r.1.code@ == "project_access_denied"@ && r.1.message@
        == "project administrator access is required"@
}

/// Checks a report request before any data is read: the caller must
/// administer the project, and the title and profile must be valid.
pub fn check_report_request(
    principal: Option<&AuthenticatedToken>,
    project_id: u128,
    request: &CreateReportRequest,
) -> (r: Result<(), (u16, ApiError)>)
    ensures
        !administers(
            match principal {
                Some(p) => Some(*p),
                None => None,
            },
            project_id,
        ) ==> (r matches Err(e) && is_access_denied(e)),
        administers(
            match principal {
                Some(p) => Some(*p),
                None => None,
            },
            project_id,
        ) ==> (r is Ok <==> (valid_title(request.title@) && valid_profile(
            request.privacy_profile@,
        ))),
        administers(
            match principal {
                Some(p) => Some(*p),
                None => None,
            },
            project_id,
        ) && r is Err ==> (r matches Err(e) && e.0 == 400 && e.1.code@ == "invalid_report_request"@
            && e.1.message@ == "title or privacy_profile is invalid"@),
{
    if !project_admin(principal, project_id) {
        return Err(
            (
                403,
                ApiError {
                    code: "project_access_denied",
                    message: "project administrator access is required",
                },
            ),
        );
    }
    if is_blank(request.title.as_str()) || request.title.as_str().unicode_len()
        > MAX_REPORT_TITLE_CHARS || !profile_is_valid(request.privacy_profile.as_str()) {
        return Err(
            (
                400,
                ApiError {
                    code: "invalid_report_request",
                    message: "title or privacy_profile is invalid",
                },
            ),
        );
    }
    Ok(())
}

/// One trace as the reporting store holds it.
#[derive(Debug, Clone, PartialEq, Eq)]
pub struct TraceRow {
    pub trace_id: u128,
    pub lifecycle_state: String,
    pub landing_state: String,
    pub execution_state: String,
    pub updated_at: OffsetInstant,
}

/// One trace as a report shows it.
#[derive(Debug, Clone, PartialEq, Eq)]
pub struct ReportTrace {
    pub trace_id: String,
    pub lifecycle_state: String,
    pub landing_state: String,
    pub execution_state: String,
    pub updated_at: String,
}

/// The text shown in place of a trace identity in a shareable report.
pub open spec fn redacted() -> Seq<char> {
    "[redacted]"@
}

/// The report form of a stored trace: a shareable report hides the trace's
/// identity.
pub fn report_trace(row: &TraceRow, privacy_profile: &str) -> (t: ReportTrace)
    ensures
        t.trace_id@ == (if privacy_profile@ == "shareable"@ {
            redacted()
        } else {
            uuid_hyphenated(row.trace_id)
        }),
        t.lifecycle_state@ == row.lifecycle_state@,
        t.landing_state@ == row.landing_state@,
        t.execution_state@ == row.execution_state@,
        t.updated_at@ == match rfc3339_format(row.updated_at.unix_nanos, row.updated_at.offset_seconds) {
            Some(text) => text,
            None => Seq::empty(),
        },
{
    let trace_id = if str_eq(privacy_profile, "shareable") {
        owned("[redacted]")
    } else {
        uuid_text(row.trace_id)
    };
    ReportTrace {
        trace_id,
        lifecycle_state: owned(row.lifecycle_state.as_str()),
        landing_state: owned(row.landing_state.as_str()),
        execution_state: owned(row.execution_state.as_str()),
        updated_at: format_rfc3339(row.updated_at),
    }
}

/// The HTML escape of one character.
pub open spec fn escape_char(c: char) -> Seq<char> {
    if c == '&' {
        "&amp;"@
    } else if c == '<' {
        "&lt;"@
    } else if c == '>' {
        "&gt;"@
    } else if c == '"' {
        "&quot;"@
    } else if c == '\'' {
        "&#x27;"@
    } else {
        seq![c]
    }
}

/// A text with `&`, `<`, `>`, `"` and `'` escaped for HTML.
pub open spec fn escaped(s: Seq<char>) -> Seq<char>
    decreases s.len(),
{
    if s.len() == 0 {
        Seq::empty()
    } else {
        escaped(s.drop_last()) + escape_char(s.last())
    }
}

/// Escapes a text for inclusion in HTML.
pub fn escape_html(value: &str) -> (out: String)
    ensures
        out@ == escaped(value@),
{
    let chars = chars_of(value);
    let mut out = String::new();
    let mut i: usize = 0;
    while i < chars.len()
        invariant
            chars@ == value@,
            i <= chars@.len(),
            out@ == escaped(chars@.subrange(0, i as int)),
        decreases chars@.len() - i,
    {
        let c = chars[i];
        let piece: &str = if c == '&' {
            "&amp;"
        } else if c == '<' {
            "&lt;"
        } else if c == '>' {
            "&gt;"
        } else if c == '"' {
            "&quot;"
        } else if c == '\'' {
            "&#x27;"
        } else {
            ""
        };
        if c == '&' || c == '<' || c == '>' || c == '"' || c == '\'' {
            push_text(&mut out, piece);
        } else {
            crate::text::push_char(&mut out, c);
        }
        proof {
            let next = chars@.subrange(0, i + 1);
            assert(next.drop_last() == chars@.subrange(0, i as int));
            assert(next.last() == c);
        }
        i = i + 1;
    }
    assert(chars@.subrange(0, chars@.len() as int) == chars@);
    out
}

/// One table row of the HTML report.
pub open spec fn html_row(t: ReportTrace) -> Seq<char> {
    "<tr><td>"@ + escaped(t.trace_id@) + "</td><td>"@ + escaped(t.lifecycle_state@) + "</td><td>"@
        + escaped(t.landing_state@) + "</td><td>"@ + escaped(t.execution_state@) + "</td><td>"@
        + escaped(t.updated_at@) + "</td></tr>"@
}

/// The table rows of the HTML report, in order.
pub open spec fn html_rows(traces: Seq<ReportTrace>) -> Seq<char>
    decreases traces.len(),
{
    if traces.len() == 0 {
        Seq::empty()
    } else {
        html_rows(traces.drop_last()) + html_row(traces.last())
    }
}

/// The text of the HTML report before its title.
pub open spec fn html_head() -> Seq<char> {
    "<!doctype html><html lang=\"en\"><meta charset=\"utf-8\"><title>"@
}

/// The text between the page title and the heading.
pub open spec fn html_style() -> Seq<char> {
    "</title><style>body{font:16px system-ui,sans-serif;margin:2rem;max-width:1100px}table{border-collapse:collapse;width:100%}th,td{border:1px solid #ccd3dd;padding:.55rem;text-align:left}th{background:#f4f6f8}</style><h1>"@
}

/// The text between the heading and the rows.
pub open spec fn html_table_head() -> Seq<char> {
    "</h1><p>Durable Landfall lifecycle export.</p><table><thead><tr><th>Trace</th><th>Lifecycle</th><th>Landing</th><th>Execution</th><th>Updated</th></tr></thead><tbody>"@
}

/// The text after the rows.
pub open spec fn html_tail() -> Seq<char> {
    "</tbody></table></html>"@
}

/// The whole HTML report.
pub open spec fn html_report(title: Seq<char>, traces: Seq<ReportTrace>) -> Seq<char> {
    html_head() + escaped(title) + html_style() + escaped(title) + html_table_head() + html_rows(traces)
        + html_tail()
}

fn push_html_row(out: &mut String, t: &ReportTrace)
    ensures
        final(out)@ == old(out)@ + html_row(*t),
{
    push_text(out, "<tr><td>");
    let a = escape_html(t.trace_id.as_str());
    push_text(out, a.as_str());
    push_text(out, "</td><td>");
    let b = escape_html(t.lifecycle_state.as_str());
    push_text(out, b.as_str());
    push_text(out, "</td><td>");
    let c = escape_html(t.landing_state.as_str());
    push_text(out, c.as_str());
    push_text(out, "</td><td>");
    let d = escape_html(t.execution_state.as_str());
    push_text(out, d.as_str());
    push_text(out, "</td><td>");
    let e = escape_html(t.updated_at.as_str());
    push_text(out, e.as_str());
    push_text(out, "</td></tr>");
}

/// Renders the printable HTML form of a report.
pub fn render_html(title: &str, traces: &Vec<ReportTrace>) -> (html: String)
    ensures
        html@ == html_report(title@, traces@),
{
    let escaped_title = escape_html(title);
    let mut out = String::new();
    push_text(&mut out, "<!doctype html><html lang=\"en\"><meta charset=\"utf-8\"><title>");
    push_text(&mut out, escaped_title.as_str());
    push_text(
        &mut out,
        "</title><style>body{font:16px system-ui,sans-serif;margin:2rem;max-width:1100px}table{border-collapse:collapse;width:100%}th,td{border:1px solid #ccd3dd;padding:.55rem;text-align:left}th{background:#f4f6f8}</style><h1>",
    );
    push_text(&mut out, escaped_title.as_str());
    push_text(
        &mut out,
        "</h1><p>Durable Landfall lifecycle export.</p><table><thead><tr><th>Trace</th><th>Lifecycle</th><th>Landing</th><th>Execution</th><th>Updated</th></tr></thead><tbody>",
    );
    let ghost before = out@;
    let mut i: usize = 0;
    while i < traces.len()
        invariant
            i <= traces@.len(),
            out@ == before + html_rows(traces@.subrange(0, i as int)),
        decreases traces@.len() - i,
    {
        push_html_row(&mut out, &traces[i]);
        proof {
            let next = traces@.subrange(0, i + 1);
            assert(next.drop_last() == traces@.subrange(0, i as int));
            assert(next.last() == traces@[i as int]);
            assert(before + html_rows(next) == before + html_rows(traces@.subrange(0, i as int))
                + html_row(traces@[i as int]));
        }
        i = i + 1;
    }
    assert(traces@.subrange(0, traces@.len() as int) == traces@);
    push_text(&mut out, "</tbody></table></html>");
    out
}

/// Either rendering of a report above the export limit is refused.
pub fn check_report_size(json_bytes: usize, html_bytes: usize) -> (r: Result<(), (u16, ApiError)>)
    ensures
        r is Ok <==> (json_bytes <= MAX_REPORT_BYTES && html_bytes <= MAX_REPORT_BYTES),
        r matches Err(e) ==> e.0 == 413 && e.1.code@ == "report_too_large"@ && e.1.message@
            == "report exceeds the 10 MiB export limit; narrow the project data before exporting"@,
{
    if json_bytes > MAX_REPORT_BYTES || html_bytes > MAX_REPORT_BYTES {
        Err(
            (
                413,
                ApiError {
                    code: "report_too_large",
                    message: "report exceeds the 10 MiB export limit; narrow the project data before exporting",
                },
            ),
        )
    } else {
        Ok(())
    }
}

/// The storage key of one rendering of a report: `reports/<id>.<format>`.
pub fn report_storage_key(report_id: u128, format: &str) -> (key: String)
    ensures
        key@ == "reports/"@ + uuid_hyphenated(report_id) + "."@ + format@,
{
    let mut key = owned("reports/");
    let id = uuid_text(report_id);
    push_text(&mut key, id.as_str());
    push_text(&mut key, ".");
    push_text(&mut key, format);
    key
}

/// The trace count recorded with a report's metadata, capped at `i32::MAX`.
pub fn recorded_trace_count(traces: usize) -> (n: i32)
    ensures
        n == (if traces <= i32::MAX { traces as int } else { i32::MAX as int }),
{
    if traces <= 2147483647usize {
        traces as i32
    } else {
        i32::MAX
    }
}

/// The answer to a completed export.
pub fn report_response(
    report_id: u128,
    request: CreateReportRequest,
    trace_count: usize,
    created_at: OffsetInstant,
) -> (r: ReportResponse)
    requires
        trace_count <= i64::MAX,
    ensures
        r.report_id@ == uuid_hyphenated(report_id),
        r.title == request.title,
        r.status@ == "completed"@,
        r.privacy_profile == request.privacy_profile,
        r.trace_count == trace_count,
        r.created_at@ == match rfc3339_format(created_at.unix_nanos, created_at.offset_seconds) {
            Some(text) => text,
            None => Seq::empty(),
        },
{
    ReportResponse {
        report_id: uuid_text(report_id),
        title: request.title,
        status: owned("completed"),
        privacy_profile: request.privacy_profile,
        trace_count: trace_count as i64,
        created_at: format_rfc3339(created_at),
    }
}

/// The headers of a report download: its content type and disposition.
pub fn download_headers(format: &str) -> (r: Result<(&'static str, &'static str), (u16, ApiError)>)
    ensures
        format@ == "json"@ ==> r == Ok::<(&'static str, &'static str), (u16, ApiError)>(
            ("application/json", "attachment; filename=landfall-report.json"),
        ),
        format@ == "html"@ ==> r == Ok::<(&'static str, &'static str), (u16, ApiError)>(
            ("text/html; charset=utf-8", "attachment; filename=landfall-report.html"),
        ),
        format@ != "json"@ && format@ != "html"@ ==> (r matches Err(e) && e.0 == 400 && e.1.code@
            == "invalid_report_format"@ && e.1.message@ == "format must be json or html"@),
{
    proof {
        reveal_strlit("json");
        reveal_strlit("html");
        assert("json"@[0] != "html"@[0]);
    }
    if str_eq(format, "json") {
        Ok(("application/json", "attachment; filename=landfall-report.json"))
    } else if str_eq(format, "html") {
        Ok(("text/html; charset=utf-8", "attachment; filename=landfall-report.html"))
    } else {
        Err((400, ApiError { code: "invalid_report_format", message: "format must be json or html" }))
    }
}

/// A JSON string holding `text`.
pub open spec fn is_text(value: JsonValue, text: Seq<char>) -> bool {
    value matches JsonValue::String(s) && s@ == text
}

/// The JSON form of one report trace: its five fields, in key order.
pub open spec fn trace_document_of(value: JsonValue, t: ReportTrace) -> bool {
    value matches JsonValue::Object(m) && m@.len() == 5 && m@[0].0@ == "execution_state"@ && is_text(
        m@[0].1,
        t.execution_state@,
    ) && m@[1].0@ == "landing_state"@ && is_text(m@[1].1, t.landing_state@) && m@[2].0@
        == "lifecycle_state"@ && is_text(m@[2].1, t.lifecycle_state@) && m@[3].0@ == "trace_id"@
        && is_text(m@[3].1, t.trace_id@) && m@[4].0@ == "updated_at"@ && is_text(m@[4].1, t.updated_at@)
}

/// The JSON document of a report, members in key order: when it was
/// generated, its privacy profile, its title and its traces.
pub open spec fn report_document_of(
    value: JsonValue,
    title: Seq<char>,
    privacy_profile: Seq<char>,
    generated_at: Seq<char>,
    traces: Seq<ReportTrace>,
) -> bool {
    value matches JsonValue::Object(m) && m@.len() == 4 && m@[0].0@ == "generated_at"@ && is_text(
        m@[0].1,
        generated_at,
    ) && m@[1].0@ == "privacy_profile"@ && is_text(m@[1].1, privacy_profile) && m@[2].0@
        == "title"@ && is_text(m@[2].1, title) && m@[3].0@ == "traces"@ && (m@[3].1 matches JsonValue::Array(items)
        && items@.len() == traces.len() && forall|i: int|
        0 <= i < traces.len() ==> #[trigger] trace_document_of(items@[i], traces[i]))
}

fn text_member(key: &str, text: &str) -> (m: (String, JsonValue))
    ensures
        m.0@ == key@,
        is_text(m.1, text@),
{
    (owned(key), JsonValue::String(owned(text)))
}

fn trace_document(t: &ReportTrace) -> (d: JsonValue)
    ensures
        trace_document_of(d, *t),
{
    let mut members: Vec<(String, JsonValue)> = Vec::new();
    members.push(text_member("execution_state", t.execution_state.as_str()));
    members.push(text_member("landing_state", t.landing_state.as_str()));
    members.push(text_member("lifecycle_state", t.lifecycle_state.as_str()));
    members.push(text_member("trace_id", t.trace_id.as_str()));
    members.push(text_member("updated_at", t.updated_at.as_str()));
    JsonValue::Object(members)
}

/// The JSON document of a report, which is serialized and stored beside its
/// HTML rendering.
pub fn report_document(
    title: &str,
    privacy_profile: &str,
    generated_at: &str,
    traces: &Vec<ReportTrace>,
) -> (d: JsonValue)
    ensures
        report_document_of(d, title@, privacy_profile@, generated_at@, traces@),
{
    let mut items: Vec<JsonValue> = Vec::new();
    let mut i: usize = 0;
    while i < traces.len()
        invariant
            i <= traces@.len(),
            items@.len() == i,
            forall|k: int| 0 <= k < i ==> #[trigger] trace_document_of(items@[k], traces@[k]),
        decreases traces@.len() - i,
    {
        items.push(trace_document(&traces[i]));
        i = i + 1;
    }
    let mut members: Vec<(String, JsonValue)> = Vec::new();
    members.push(text_member("generated_at", generated_at));
    members.push(text_member("privacy_profile", privacy_profile));
    members.push(text_member("title", title));
    members.push((owned("traces"), JsonValue::Array(items)));
    JsonValue::Object(members)
}

/// The column headings of the HTML report's table, in order.
pub open spec fn column_names() -> Seq<Seq<char>> {
    seq!["Trace"@, "Lifecycle"@, "Landing"@, "Execution"@, "Updated"@]
}

/// The field of a trace that a column heading names.
pub open spec fn column_value(t: ReportTrace, name: Seq<char>) -> Seq<char> {
    if name == "Trace"@ {
        t.trace_id@
    } else if name == "Lifecycle"@ {
        t.lifecycle_state@
    } else if name == "Landing"@ {
        t.landing_state@
    } else if name == "Execution"@ {
        t.execution_state@
    } else {
        t.updated_at@
    }
}

/// Each of `cells`, in order, between `start_tag` and `end_tag`.
pub open spec fn tagged(cells: Seq<Seq<char>>, start_tag: Seq<char>, end_tag: Seq<char>) -> Seq<char>
    decreases cells.len(),
{
    if cells.len() == 0 {
        Seq::empty()
    } else {
        tagged(cells.drop_last(), start_tag, end_tag) + start_tag + cells.last() + end_tag
    }
}

proof fn lemma_tagged_five(cells: Seq<Seq<char>>, start_tag: Seq<char>, end_tag: Seq<char>)
    requires
        cells.len() == 5,
    ensures
        tagged(cells, start_tag, end_tag) == start_tag + cells[0] + end_tag + start_tag + cells[1] + end_tag
            + start_tag + cells[2] + end_tag + start_tag + cells[3] + end_tag + start_tag + cells[4] + end_tag,
{
    let (a, b) = (start_tag, end_tag);
    let c4 = cells.drop_last();
    let c3 = c4.drop_last();
    let c2 = c3.drop_last();
    let c1 = c2.drop_last();
    let c0 = c1.drop_last();
    assert(c1.last() == cells[0] && c2.last() == cells[1] && c3.last() == cells[2] && c4.last() == cells[3]);
    assert(tagged(c0, a, b) == Seq::<char>::empty());
    assert(tagged(c1, a, b) =~= a + cells[0] + b);
    assert(tagged(c2, a, b) =~= a + cells[0] + b + a + cells[1] + b);
    assert(tagged(c3, a, b) =~= a + cells[0] + b + a + cells[1] + b + a + cells[2] + b);
    assert(tagged(c4, a, b) =~= a + cells[0] + b + a + cells[1] + b + a + cells[2] + b + a + cells[3] + b);
    assert(tagged(cells, a, b) =~= a + cells[0] + b + a + cells[1] + b + a + cells[2] + b + a + cells[3] + b
        + a + cells[4] + b);
}

proof fn lemma_column_values(t: ReportTrace)
    ensures
        ({
            let cells = column_names().map_values(|name: Seq<char>| escaped(column_value(t, name)));
            &&& cells.len() == 5
            &&& cells[0] == escaped(t.trace_id@)
            &&& cells[1] == escaped(t.lifecycle_state@)
            &&& cells[2] == escaped(t.landing_state@)
            &&& cells[3] == escaped(t.execution_state@)
            &&& cells[4] == escaped(t.updated_at@)
        }),
{
    reveal_strlit("Trace");
    reveal_strlit("Lifecycle");
    reveal_strlit("Landing");
    reveal_strlit("Execution");
    reveal_strlit("Updated");
    assert("Lifecycle"@[0] != "Trace"@[0]);
    assert("Landing"@[0] != "Trace"@[0]);
    assert("Landing"@[1] != "Lifecycle"@[1]);
    assert("Execution"@[0] != "Trace"@[0] && "Execution"@[0] != "Lifecycle"@[0] && "Execution"@[0]
        != "Landing"@[0]);
    assert("Updated"@[0] != "Trace"@[0] && "Updated"@[0] != "Lifecycle"@[0] && "Updated"@[0] != "Landing"@[0]
        && "Updated"@[0] != "Execution"@[0]);
}

/// Every row of the HTML table has one cell per heading of the table head,
/// in the heading's order, and each cell holds the escaped field of its
/// trace that the heading names: the Landing cell the landing state, and so
/// on.
pub proof fn html_rows_follow_the_header(t: ReportTrace)
    ensures
        html_table_head() == "</h1><p>Durable Landfall lifecycle export.</p><table><thead><tr>"@ + tagged(
            column_names(),
            "<th>"@,
            "</th>"@,
        ) + "</tr></thead><tbody>"@,
        html_row(t) == "<tr>"@ + tagged(
            column_names().map_values(|name: Seq<char>| escaped(column_value(t, name))),
            "<td>"@,
            "</td>"@,
        ) + "</tr>"@,
{
    let cells = column_names().map_values(|name: Seq<char>| escaped(column_value(t, name)));
    lemma_column_values(t);
    lemma_tagged_five(cells, "<td>"@, "</td>"@);
    lemma_tagged_five(column_names(), "<th>"@, "</th>"@);
    lemma_row_text(t, cells);
    lemma_head_text();
}

proof fn lemma_row_text(t: ReportTrace, cells: Seq<Seq<char>>)
    requires
        cells.len() == 5,
        cells[0] == escaped(t.trace_id@),
        cells[1] == escaped(t.lifecycle_state@),
        cells[2] == escaped(t.landing_state@),
        cells[3] == escaped(t.execution_state@),
        cells[4] == escaped(t.updated_at@),
    ensures
        html_row(t) == "<tr>"@ + ("<td>"@ + cells[0] + "</td>"@ + "<td>"@ + cells[1] + "</td>"@ + "<td>"@
            + cells[2] + "</td>"@ + "<td>"@ + cells[3] + "</td>"@ + "<td>"@ + cells[4] + "</td>"@)
            + "</tr>"@,
{
    reveal_strlit("<td>");
    reveal_strlit("</td>");
    reveal_strlit("<tr>");
    reveal_strlit("</tr>");
    reveal_strlit("<tr><td>");
    reveal_strlit("</td><td>");
    reveal_strlit("</td></tr>");
    assert("<tr><td>"@ =~= "<tr>"@ + "<td>"@);
    assert("</td><td>"@ =~= "</td>"@ + "<td>"@);
    assert("</td></tr>"@ =~= "</td>"@ + "</tr>"@);
    assert(html_row(t) =~= "<tr>"@ + ("<td>"@ + cells[0] + "</td>"@ + "<td>"@ + cells[1] + "</td>"@ + "<td>"@
        + cells[2] + "</td>"@ + "<td>"@ + cells[3] + "</td>"@ + "<td>"@ + cells[4] + "</td>"@) + "</tr>"@);
}

proof fn lemma_head_text()
    ensures
        html_table_head() == "</h1><p>Durable Landfall lifecycle export.</p><table><thead><tr>"@ + ("<th>"@
            + column_names()[0] + "</th>"@ + "<th>"@ + column_names()[1] + "</th>"@ + "<th>"@
            + column_names()[2] + "</th>"@ + "<th>"@ + column_names()[3] + "</th>"@ + "<th>"@
            + column_names()[4] + "</th>"@) + "</tr></thead><tbody>"@,
{
    reveal_strlit("Trace");
    reveal_strlit("Lifecycle");
    reveal_strlit("Landing");
    reveal_strlit("Execution");
    reveal_strlit("Updated");
    reveal_strlit("<th>");
    reveal_strlit("</th>");
    reveal_strlit("</tr></thead><tbody>");
    reveal_strlit("</h1><p>Durable Landfall lifecycle export.</p><table><thead><tr>");
    reveal_strlit(
        "</h1><p>Durable Landfall lifecycle export.</p><table><thead><tr><th>Trace</th><th>Lifecycle</th><th>Landing</th><th>Execution</th><th>Updated</th></tr></thead><tbody>",
    );
    assert(html_table_head() =~= "</h1><p>Durable Landfall lifecycle export.</p><table><thead><tr>"@ + ("<th>"@
        + column_names()[0] + "</th>"@ + "<th>"@ + column_names()[1] + "</th>"@ + "<th>"@
        + column_names()[2] + "</th>"@ + "<th>"@ + column_names()[3] + "</th>"@ + "<th>"@
        + column_names()[4] + "</th>"@) + "</tr></thead><tbody>"@);
}

/// Escaped text holds no `<` or `>`, so a cell's text cannot open or close
/// a tag of the table.
pub proof fn escaped_text_holds_no_markup(s: Seq<char>)
    ensures
        forall|i: int| 0 <= i < escaped(s).len() ==> #[trigger] escaped(s)[i] != '<' && escaped(s)[i] != '>',
    decreases s.len(),
{
    if s.len() > 0 {
        escaped_text_holds_no_markup(s.drop_last());
        reveal_strlit("&amp;");
        reveal_strlit("&lt;");
        reveal_strlit("&gt;");
        reveal_strlit("&quot;");
        reveal_strlit("&#x27;");
        let a = escaped(s.drop_last());
        let b = escape_char(s.last());
        assert forall|i: int| 0 <= i < escaped(s).len() implies #[trigger] escaped(s)[i] != '<' && escaped(s)[i] != '>' by {
            if i >= a.len() {
                assert(escaped(s)[i] == b[i - a.len()]);
            } else {
                assert(escaped(s)[i] == a[i]);
            }
        }
    }
}

} // verus!
