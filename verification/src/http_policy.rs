//! Request-level policies of the HTTP surface: scopes, origins, rate, limits.
use vstd::prelude::*;
use crate::text::{starts_with, contains, str_starts_with, str_contains, str_eq, strip_prefix, utf8_len, byte_len, owned, chars_of, push_char};
use crate::numeric::{parse_unsigned, parse_unsigned_chars};
use crate::auth::AuthError;
use crate::ids::{new_v7, uuid_text, uuid_hyphenated, parse_uuid, uuid_parse};
use crate::ingest::{MAX_REQUESTS_PER_SECOND, MAX_COMPRESSED_BODY_BYTES};

verus! {

/// The error body of every refused request.
#[derive(Debug, Clone, Copy, PartialEq, Eq)]
pub struct ApiError {
    pub code: &'static str,
    pub message: &'static str,
}

/// The scope a bearer token needs for a request path.
pub open spec fn scope_for(path: Seq<char>) -> Seq<char> {
    if starts_with(path, "/v1/control/"@) {
        "project:admin"@
    } else if path == "/v1/x402/authorize"@ || path == "/v1/x402/settlements"@ {
        "x402:pay"@
    } else if path == "/v1/ingest"@ {
        "ingest:write"@
    } else if path == "/v1/system/status"@ {
        "admin"@
    } else if contains(path, "diagnostics"@) || contains(path, "recommendations"@) {
        "diagnostics:read"@
    } else {
        "traces:read"@
    }
}

/// Classifies a request path by the scope it requires.
pub fn required_scope(path: &str) -> (scope: &'static str)
    ensures
        scope@ == scope_for(path@),
{
    if str_starts_with(path, "/v1/control/") {
        "project:admin"
    } else if str_eq(path, "/v1/x402/authorize") || str_eq(path, "/v1/x402/settlements") {
        "x402:pay"
    } else if str_eq(path, "/v1/ingest") {
        "ingest:write"
    } else if str_eq(path, "/v1/system/status") {
        "admin"
    } else if str_contains(path, "diagnostics") || str_contains(path, "recommendations") {
        "diagnostics:read"
    } else {
        "traces:read"
    }
}

/// Paths that are served by the API rather than the dashboard bundle.
pub open spec fn api_path(path: Seq<char>) -> bool {
    ||| starts_with(path, "/v1/"@)
    ||| path == "/health/live"@
    ||| path == "/health/ready"@
    ||| path == "/health/event"@
    ||| path == "/metrics"@
    ||| path == "/openapi.json"@
}

/// Whether a request is for the dashboard bundle.
pub fn is_dashboard_request(path: &str) -> (b: bool)
    ensures
        b == !api_path(path@),
{
    !str_starts_with(path, "/v1/") && !(str_eq(path, "/health/live") || str_eq(path, "/health/ready")
        || str_eq(path, "/health/event") || str_eq(path, "/metrics") || str_eq(path, "/openapi.json"))
}

/// The content security policy sent with a response.
pub fn content_security_policy(is_dashboard: bool) -> (policy: &'static str)
    ensures
        policy@ == (if is_dashboard {
            "default-src 'self'; connect-src 'self'; script-src 'self'; style-src 'self'; img-src 'self'; base-uri 'none'; frame-ancestors 'none'"@
        } else {
            "default-src 'none'; frame-ancestors 'none'"@
        }),
{
    if is_dashboard {
        "default-src 'self'; connect-src 'self'; script-src 'self'; style-src 'self'; img-src 'self'; base-uri 'none'; frame-ancestors 'none'"
    } else {
        "default-src 'none'; frame-ancestors 'none'"
    }
}

/// The host part of an `http://` or `https://` origin.
pub open spec fn origin_host(origin: Seq<char>) -> Option<Seq<char>> {
    if starts_with(origin, "http://"@) {
        Some(origin.subrange("http://"@.len() as int, origin.len() as int))
    } else if starts_with(origin, "https://"@) {
        Some(origin.subrange("https://"@.len() as int, origin.len() as int))
    } else {
        None
    }
}

/// A cross-origin request is allowed only from the server's own host.
pub fn cors_allows_origin(origin: &str, host: Option<&str>) -> (b: bool)
    ensures
        b == (origin_host(origin@) matches Some(h) && host matches Some(expected) && h == expected@),
{
    let rest = match strip_prefix(origin, "http://") {
        Some(r) => Some(r),
        None => strip_prefix(origin, "https://"),
    };
    match rest {
        Some(value) => match host {
            Some(expected) => str_eq(value, expected),
            None => false,
        },
        None => false,
    }
}

/// The refusal of a cross-origin request from another host.
pub fn origin_not_allowed() -> (r: (u16, ApiError))
    ensures
        r.0 == 403,
        r.1.code@ == "origin_not_allowed"@,
        r.1.message@ == "cross-origin request is not allowed"@,
{
    (403, ApiError { code: "origin_not_allowed", message: "cross-origin request is not allowed" })
}

/// The answer to a request whose bearer authentication failed.
pub fn authentication_failure(error: AuthError) -> (r: (u16, ApiError))
    ensures
        error == AuthError::MissingScope ==> r.0 == 403 && r.1.code@ == "insufficient_scope"@
            && r.1.message@ == "token does not grant this operation"@,
        error != AuthError::MissingScope ==> r.0 == 401 && r.1.code@ == "unauthorized"@
            && r.1.message@ == "valid bearer authentication is required"@,
{
    match error {
        AuthError::MissingScope => (
            403,
            ApiError { code: "insufficient_scope", message: "token does not grant this operation" },
        ),
        _ => (
            401,
            ApiError { code: "unauthorized", message: "valid bearer authentication is required" },
        ),
    }
}

/// A fixed one-second window counting admitted requests.
#[derive(Debug, Clone, Copy, PartialEq, Eq, Structural)]
pub struct RateWindow {
    /// When the window opened, in milliseconds of a monotonic clock.
    pub started_at_millis: u64,
    /// Requests admitted since then.
    pub total_requests: u32,
}

/// The length of a rate window, in milliseconds.
pub const RATE_WINDOW_MILLIS: u64 = 1000;

impl RateWindow {
    /// A window that opens at `now_millis` with nothing admitted.
    pub fn new(now_millis: u64) -> (w: RateWindow)
        ensures
            w.started_at_millis == now_millis,
            w.total_requests == 0,
    {
        RateWindow { started_at_millis: now_millis, total_requests: 0 }
    }

    /// The window that is current at `now`: a fresh one once a second has
    /// passed since this one opened.
    pub open spec fn current(self, now: u64) -> RateWindow {
        if now >= self.started_at_millis + RATE_WINDOW_MILLIS {
            RateWindow { started_at_millis: now, total_requests: 0 }
        } else {
            self
        }
    }

    /// The window after a request at `now` asked for a slot.
    pub open spec fn after_request(self, now: u64) -> RateWindow {
        let c = self.current(now);
        if c.total_requests < MAX_REQUESTS_PER_SECOND {
            RateWindow { total_requests: (c.total_requests + 1) as u32, ..c }
        } else {
            c
        }
    }

    /// Takes one slot for a request at `now_millis` unless the current window is full.
    pub fn try_acquire(&mut self, now_millis: u64) -> (allowed: bool)
        ensures
            allowed == (old(self).current(now_millis).total_requests < MAX_REQUESTS_PER_SECOND),
            allowed ==> *final(self) == (RateWindow {
                total_requests: (old(self).current(now_millis).total_requests + 1) as u32,
                ..old(self).current(now_millis)
            }),
            !allowed ==> *final(self) == old(self).current(now_millis),
            *final(self) == old(self).after_request(now_millis),
    {
        if now_millis >= self.started_at_millis && now_millis - self.started_at_millis >= RATE_WINDOW_MILLIS {
            *self = RateWindow { started_at_millis: now_millis, total_requests: 0 };
        }
        if self.total_requests >= MAX_REQUESTS_PER_SECOND {
            false
        } else {
            self.total_requests = self.total_requests + 1;
            true
        }
    }
}

/// No window ever admits more than the per-second limit: a window that holds
/// at most the limit still does after any request, and a request that keeps
/// the same window adds at most one.
pub proof fn rate_window_stays_within_limit(w: RateWindow, now: u64)
    requires
        w.total_requests <= MAX_REQUESTS_PER_SECOND,
    ensures
        w.after_request(now).total_requests <= MAX_REQUESTS_PER_SECOND,
        w.after_request(now).started_at_millis == w.started_at_millis ==> w.after_request(
            now,
        ).total_requests <= w.total_requests + 1,
        w.total_requests == MAX_REQUESTS_PER_SECOND && now < w.started_at_millis + RATE_WINDOW_MILLIS
            ==> w.after_request(now) == w,
{
}

/// The refusal of a request over the rate limit.
pub fn rate_limited() -> (r: (u16, ApiError))
    ensures
        r.0 == 429,
        r.1.code@ == "rate_limited"@,
        r.1.message@ == "request rate limit exceeded"@,
{
    (429, ApiError { code: "rate_limited", message: "request rate limit exceeded" })
}

/// An encoded body whose declared length exceeds the compressed limit is
/// refused before it is read. A length that is not a `usize` is ignored.
pub open spec fn compressed_too_large(encoded: bool, content_length: Option<Seq<char>>) -> bool {
    encoded && (content_length matches Some(text) && (parse_unsigned(text, 10, usize::MAX as nat)
        matches Some(n) && n > MAX_COMPRESSED_BODY_BYTES))
}

/// Whether an encoded request body is declared larger than allowed.
pub fn compressed_body_too_large(encoded: bool, content_length: Option<&str>) -> (b: bool)
    ensures
        b == compressed_too_large(encoded, match content_length {
            Some(t) => Some(t@),
            None => None,
        }),
{
    match content_length {
        Some(text) => {
            let chars = chars_of(text);
            match parse_unsigned_chars(&chars, 10, usize::MAX as u128) {
                Some(n) => encoded && n > MAX_COMPRESSED_BODY_BYTES as u128,
                None => false,
            }
        },
        None => false,
    }
}

/// The refusal of an oversized compressed body.
pub fn compressed_body_refusal() -> (r: (u16, ApiError))
    ensures
        r.0 == 413,
        r.1.code@ == "compressed_body_too_large"@,
        r.1.message@ == "compressed request body exceeds limit"@,
{
    (413, ApiError { code: "compressed_body_too_large", message: "compressed request body exceeds limit" })
}

/// The request id kept for a request: the client's, when it is non-empty
/// and at most 128 bytes, else a fresh one.
pub fn request_id(header: Option<&str>) -> (id: String)
    ensures
        (header matches Some(h) && h@.len() > 0 && byte_len(h@) <= 128) ==> id@ == header->0@,
        !(header matches Some(h) && h@.len() > 0 && byte_len(h@) <= 128) ==> exists|u: u128|
            id@ == #[trigger] uuid_hyphenated(u),
{
    match header {
        Some(h) => {
            if h.unicode_len() > 0 && utf8_len(h) <= 128 {
                return owned(h);
            }
        },
        None => {},
    }
    let fresh = new_v7();
    let id = uuid_text(fresh);
    assert(id@ == uuid_hyphenated(fresh));
    id
}

/// The readiness probe's status: `200` when ready, else `503`.
pub fn readiness_status(ready: bool) -> (code: u16)
    ensures
        code == (if ready { 200u16 } else { 503u16 }),
{
    if ready {
        200
    } else {
        503
    }
}

/// The page size of a trace listing: 50 by default, kept within 1..=100.
pub fn trace_list_limit(limit: Option<u32>) -> (n: i64)
    ensures
        n == match limit {
            None => 50,
            Some(l) => if l < 1 {
                1
            } else if l > 100 {
                100
            } else {
                l as int
            },
        },
{
    let l: u32 = match limit {
        Some(l) => l,
        None => 50,
    };
    if l < 1 {
        1
    } else if l > 100 {
        100
    } else {
        l as i64
    }
}

} // verus!
