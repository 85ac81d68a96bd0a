//! x402 pre-payment authorization and settlement: field rules and rate windows.
use vstd::prelude::*;
use crate::text::{
    is_control, is_ascii_lower, is_ascii_digit, is_ascii_alnum, is_ascii_upper, byte_len, utf8_len, starts_with,
    has_char, chars_of, str_eq, strip_prefix, str_has_char, owned,
};
use crate::http_policy::ApiError;
use crate::ids::{parse_uuid, uuid_parse, uuid_text, uuid_hyphenated};
use crate::digest::{sha256, sha256_digest};

verus! {

/// Requests one project may make per one-second window.
pub const MAX_X402_REQUESTS_PER_SECOND_PER_PROJECT: u32 = 20;

/// Projects whose windows are tracked at once.
pub const MAX_ACTIVE_X402_RATE_WINDOWS: usize = 10_000;

/// A request to evaluate one x402 payment requirement before wallet signing.
#[derive(Debug, Clone, PartialEq, Eq)]
pub struct X402AuthorizeRequest {
    pub policy_id: String,
    pub agent_id: String,
    pub merchant_origin: String,
    pub network: String,
    pub asset: String,
    pub amount_atomic: String,
    /// Caller-chosen stable key; only its SHA-256 is persisted.
    pub idempotency_key: String,
}

/// The durable pre-payment decision. `approved` does not mean paid or settled.
#[derive(Debug, Clone, PartialEq, Eq)]
pub struct X402AuthorizeResponse {
    pub audit_id: String,
    pub decision: String,
    pub reason_code: String,
    pub replayed: bool,
}

/// A terminal result reported by an external non-custodial signer.
#[derive(Debug, Clone, PartialEq, Eq)]
pub struct X402SettlementRequest {
    pub audit_id: String,
    /// `settled` after the paid resource response, otherwise `failed`.
    pub outcome: String,
    /// Stable operational reason, never a signature or transaction payload.
    pub reason_code: String,
    /// Optional safe facilitator receipt or transaction identifier.
    pub settlement_reference: Option<String>,
}

/// The idempotent result of recording a terminal payment state.
#[derive(Debug, Clone, PartialEq, Eq)]
pub struct X402SettlementResponse {
    pub audit_id: String,
    pub outcome: String,
    pub replayed: bool,
}

/// The terminal state of a payment.
#[derive(Debug, Clone, Copy, PartialEq, Eq, Structural)]
pub enum SettlementOutcome {
    Settled,
    Failed,
}

impl SettlementOutcome {
    /// The stored name of the outcome.
    pub fn as_str(&self) -> (s: &'static str)
        ensures
            s@ == match self {
                SettlementOutcome::Settled => "settled"@,
                SettlementOutcome::Failed => "failed"@,
            },
    {
        match self {
            SettlementOutcome::Settled => "settled",
            SettlementOutcome::Failed => "failed",
        }
    }
}

/// Every character of `s` satisfies the rule of its kind.
pub open spec fn reason_char(c: char) -> bool {
    is_ascii_lower(c) || is_ascii_digit(c) || c == '_'
}

/// A reason code: 1 to 80 characters of lowercase ASCII, digits and `_`.
pub open spec fn reason_code_valid(value: Seq<char>) -> bool {
    value.len() > 0 && value.len() <= 80 && forall|i: int| 0 <= i < value.len() ==> reason_char(#[trigger] value[i])
}

pub open spec fn reference_char(c: char) -> bool {
    is_ascii_alnum(c) || c == '-' || c == '_' || c == '.' || c == ':'
}

/// A settlement reference: 1 to 128 characters of ASCII letters, digits and
/// `-_.:`; never an encoded payload.
pub open spec fn reference_valid(value: Seq<char>) -> bool {
    value.len() > 0 && value.len() <= 128 && forall|i: int| 0 <= i < value.len() ==> reference_char(#[trigger] value[i])
}

pub open spec fn origin_char(c: char) -> bool {
    is_ascii_alnum(c) || c == '.' || c == '-' || c == ':'
}

/// An HTTPS origin whose host part has 1 to 253 characters of ASCII letters,
/// digits and `.-:`.
pub open spec fn https_origin_valid(value: Seq<char>) -> bool {
    starts_with(value, "https://"@) && {
        let host = value.subrange("https://"@.len() as int, value.len() as int);
        host.len() > 0 && host.len() <= 253 && forall|i: int| 0 <= i < host.len() ==> origin_char(#[trigger] host[i])
    }
}

/// An amount of 1 to 80 decimal digits that does not start with `0`.
pub open spec fn amount_valid(value: Seq<char>) -> bool {
    0 < value.len() <= 80 && (forall|i: int| 0 <= i < value.len() ==> is_ascii_digit(#[trigger] value[i]))
        && value[0] != '0'
}

/// A field of 1 to `max_len` bytes without control characters.
pub open spec fn authorization_field_valid(value: Seq<char>, max_len: nat) -> bool {
    value.len() > 0 && byte_len(value) <= max_len && forall|i: int| 0 <= i < value.len() ==> !is_control(#[trigger] value[i])
}

fn all_chars_satisfy_reason(chars: &Vec<char>) -> (b: bool)
    ensures
        b == forall|i: int| 0 <= i < chars@.len() ==> reason_char(#[trigger] chars@[i]),
{
    let mut i: usize = 0;
    while i < chars.len()
        invariant
            i <= chars@.len(),
            forall|j: int| 0 <= j < i ==> reason_char(#[trigger] chars@[j]),
        decreases chars@.len() - i,
    {
        let c = chars[i];
        if !(('a' <= c && c <= 'z') || ('0' <= c && c <= '9') || c == '_') {
            return false;
        }
        i = i + 1;
    }
    true
}

/// Whether a reason code is a stable operational identifier.
pub fn valid_reason_code(value: &str) -> (b: bool)
    ensures
        b == reason_code_valid(value@),
{
    let chars = chars_of(value);
    chars.len() > 0 && chars.len() <= 80 && all_chars_satisfy_reason(&chars)
}

/// Whether a settlement reference is an identifier rather than a payload.
pub fn valid_reference(value: &str) -> (b: bool)
    ensures
        b == reference_valid(value@),
{
    let chars = chars_of(value);
    if chars.len() == 0 || chars.len() > 128 {
        return false;
    }
    let mut i: usize = 0;
    while i < chars.len()
        invariant
            chars@ == value@,
            i <= chars@.len(),
            forall|j: int| 0 <= j < i ==> reference_char(#[trigger] chars@[j]),
        decreases chars@.len() - i,
    {
        let c = chars[i];
        if !(('a' <= c && c <= 'z') || ('A' <= c && c <= 'Z') || ('0' <= c && c <= '9') || c == '-' || c
            == '_' || c == '.' || c == ':') {
            return false;
        }
        i = i + 1;
    }
    true
}

/// Whether an authorization field is non-empty, bounded and free of control
/// characters.
pub fn valid_authorization_field(value: &str, max_len: usize) -> (b: bool)
    ensures
        b == authorization_field_valid(value@, max_len as nat),
{
    let chars = chars_of(value);
    if chars.len() == 0 || utf8_len(value) > max_len {
        return false;
    }
    let mut i: usize = 0;
    while i < chars.len()
        invariant
            chars@ == value@,
            i <= chars@.len(),
            forall|j: int| 0 <= j < i ==> !is_control(#[trigger] chars@[j]),
        decreases chars@.len() - i,
    {
        if crate::text::is_control_char(chars[i]) {
            return false;
        }
        i = i + 1;
    }
    true
}

/// Whether `value` is an HTTPS origin with a plain host.
pub fn valid_https_origin(value: &str) -> (b: bool)
    ensures
        b == https_origin_valid(value@),
{
    let host = match strip_prefix(value, "https://") {
        Some(h) => h,
        None => {
            return false;
        },
    };
    let chars = chars_of(host);
    if chars.len() == 0 || chars.len() > 253 {
        return false;
    }
    let mut i: usize = 0;
    while i < chars.len()
        invariant
            chars@ == host@,
            starts_with(value@, "https://"@),
            host@ == value@.subrange("https://"@.len() as int, value@.len() as int),
            0 < chars@.len() <= 253,
            i <= chars@.len(),
            forall|j: int| 0 <= j < i ==> origin_char(#[trigger] chars@[j]),
        decreases chars@.len() - i,
    {
        let c = chars[i];
        if !(('a' <= c && c <= 'z') || ('A' <= c && c <= 'Z') || ('0' <= c && c <= '9') || c == '.' || c
            == '-' || c == ':') {
            assert(!origin_char(host@[i as int]));
            return false;
        }
        i = i + 1;
    }
    true
}

/// Whether an amount is a plain decimal without a leading zero.
pub fn valid_atomic_amount(value: &str) -> (b: bool)
    ensures
        b == amount_valid(value@),
{
    let chars = chars_of(value);
    if chars.len() == 0 || chars.len() > 80 {
        return false;
    }
    let mut i: usize = 0;
    while i < chars.len()
        invariant
            chars@ == value@,
            0 < chars@.len() <= 80,
            i <= chars@.len(),
            forall|j: int| 0 <= j < i ==> is_ascii_digit(#[trigger] chars@[j]),
        decreases chars@.len() - i,
    {
        let c = chars[i];
        if !('0' <= c && c <= '9') {
            return false;
        }
        i = i + 1;
    }
    chars[0] != '0'
}

/// The fields of an authorization request are usable.
pub open spec fn authorize_fields_valid(request: X402AuthorizeRequest) -> bool {
    &&& authorization_field_valid(request.idempotency_key@, 256)
    &&& authorization_field_valid(request.agent_id@, 160)
    &&& https_origin_valid(request.merchant_origin@)
    &&& authorization_field_valid(request.network@, 160)
    &&& authorization_field_valid(request.asset@, 256)
    &&& amount_valid(request.amount_atomic@)
}

/// Checks an authorization request before it reaches storage; the policy it
/// names must be a UUID.
pub fn check_authorize_request(request: &X402AuthorizeRequest) -> (r: Result<u128, (u16, ApiError)>)
    ensures
        uuid_parse(request.policy_id@) is None ==> (r matches Err(e) && e.0 == 400 && e.1.code@
            == "invalid_x402_request"@ && e.1.message@ == "policy_id must be a UUID"@),
        uuid_parse(request.policy_id@) matches Some(id) ==> (if authorize_fields_valid(*request) {
            r == Ok::<u128, (u16, ApiError)>(id)
        } else {
            r matches Err(e) && e.0 == 400 && e.1.code@ == "invalid_x402_request"@ && e.1.message@
                == "x402 authorization fields must be non-empty and bounded"@
        }),
{
    let policy_id = match parse_uuid(request.policy_id.as_str()) {
        Some(id) => id,
        None => {
            return Err(
                (400, ApiError { code: "invalid_x402_request", message: "policy_id must be a UUID" }),
            );
        },
    };
    if !valid_authorization_field(request.idempotency_key.as_str(), 256) || !valid_authorization_field(
        request.agent_id.as_str(),
        160,
    ) || !valid_https_origin(request.merchant_origin.as_str()) || !valid_authorization_field(
        request.network.as_str(),
        160,
    ) || !valid_authorization_field(request.asset.as_str(), 256) || !valid_atomic_amount(
        request.amount_atomic.as_str(),
    ) {
        return Err(
            (
                400,
                ApiError {
                    code: "invalid_x402_request",
                    message: "x402 authorization fields must be non-empty and bounded",
                },
            ),
        );
    }
    Ok(policy_id)
}

/// The digest under which an idempotency key is stored.
pub fn idempotency_key_hash(key: &str) -> (h: [u8; 32])
    ensures
        h@ == sha256(vstd::utf8::encode_utf8(key@)),
{
    sha256_digest(key.as_bytes())
}

/// The decision shown for an authorization: a recorded terminal outcome wins,
/// otherwise `approved` or `denied`.
pub fn decision_label(terminal: Option<SettlementOutcome>, approved: bool) -> (s: &'static str)
    ensures
        s@ == match terminal {
            Some(SettlementOutcome::Settled) => "settled"@,
            Some(SettlementOutcome::Failed) => "failed"@,
            None => if approved {
                "approved"@
            } else {
                "denied"@
            },
        },
{
    match terminal {
        Some(outcome) => outcome.as_str(),
        None => if approved {
            "approved"
        } else {
            "denied"
        },
    }
}

/// The answer to an authorization that storage decided.
pub fn authorize_response(
    audit_id: u128,
    terminal: Option<SettlementOutcome>,
    approved: bool,
    reason_code: String,
    replayed: bool,
) -> (r: X402AuthorizeResponse)
    ensures
        r.audit_id@ == uuid_hyphenated(audit_id),
        r.decision@ == match terminal {
            Some(SettlementOutcome::Settled) => "settled"@,
            Some(SettlementOutcome::Failed) => "failed"@,
            None => if approved {
                "approved"@
            } else {
                "denied"@
            },
        },
        r.reason_code == reason_code,
        r.replayed == replayed,
{
    X402AuthorizeResponse {
        audit_id: uuid_text(audit_id),
        decision: owned(decision_label(terminal, approved)),
        reason_code,
        replayed,
    }
}

/// The fields of a settlement request are usable.
pub open spec fn settlement_fields_valid(request: X402SettlementRequest) -> bool {
    reason_code_valid(request.reason_code@) && match request.settlement_reference {
        Some(reference) => reference_valid(reference@),
        None => true,
    }
}

/// The outcome a settlement request names, if it names one.
pub open spec fn named_outcome(outcome: Seq<char>) -> Option<SettlementOutcome> {
    if outcome == "settled"@ {
        Some(SettlementOutcome::Settled)
    } else if outcome == "failed"@ {
        Some(SettlementOutcome::Failed)
    } else {
        None
    }
}

/// Checks a settlement request before it reaches storage: a UUID audit id,
/// a known outcome, a valid reason and, if given, a valid reference.
pub fn check_settlement_request(request: &X402SettlementRequest) -> (r: Result<
    (u128, SettlementOutcome),
    (u16, ApiError),
>)
    ensures
        r matches Err(e) ==> e.0 == 400 && e.1.code@ == "invalid_x402_settlement"@,
        uuid_parse(request.audit_id@) is None ==> (r matches Err(e) && e.1.message@
            == "audit_id must be a UUID"@),
        uuid_parse(request.audit_id@) is Some && named_outcome(request.outcome@) is None ==> (r matches Err(
            e,
        ) && e.1.message@ == "outcome must be settled or failed"@),
        match (uuid_parse(request.audit_id@), named_outcome(request.outcome@)) {
            (Some(id), Some(o)) => if settlement_fields_valid(*request) {
                r == Ok::<(u128, SettlementOutcome), (u16, ApiError)>((id, o))
            } else {
                r matches Err(e) && e.1.message@ == "settlement fields are invalid"@
            },
            _ => true,
        },
{
    proof {
        reveal_strlit("settled");
        reveal_strlit("failed");
        assert("settled"@[0] != "failed"@[0]);
    }
    let audit_id = match parse_uuid(request.audit_id.as_str()) {
        Some(id) => id,
        None => {
            return Err(
                (400, ApiError { code: "invalid_x402_settlement", message: "audit_id must be a UUID" }),
            );
        },
    };
    let outcome = if str_eq(request.outcome.as_str(), "settled") {
        SettlementOutcome::Settled
    } else if str_eq(request.outcome.as_str(), "failed") {
        SettlementOutcome::Failed
    } else {
        return Err(
            (
                400,
                ApiError {
                    code: "invalid_x402_settlement",
                    message: "outcome must be settled or failed",
                },
            ),
        );
    };
    let reference_ok = match &request.settlement_reference {
        Some(reference) => valid_reference(reference.as_str()),
        None => true,
    };
    if !valid_reason_code(request.reason_code.as_str()) || !reference_ok {
        return Err(
            (400, ApiError { code: "invalid_x402_settlement", message: "settlement fields are invalid" }),
        );
    }
    Ok((audit_id, outcome))
}

/// The answer to a recorded settlement; storage refusing the transition is a
/// conflict.
pub fn settlement_response(recorded: Option<(u128, SettlementOutcome, bool)>) -> (r: Result<
    X402SettlementResponse,
    (u16, ApiError),
>)
    ensures
        match recorded {
            Some((audit_id, outcome, replayed)) => r matches Ok(s) && s.audit_id@ == uuid_hyphenated(
                audit_id,
            ) && s.outcome@ == match outcome {
                SettlementOutcome::Settled => "settled"@,
                SettlementOutcome::Failed => "failed"@,
            } && s.replayed == replayed,
            None => r matches Err(e) && e.0 == 409 && e.1.code@
                == "invalid_x402_settlement_transition"@ && e.1.message@
                == "audit record is missing or not awaiting settlement"@,
        },
{
    match recorded {
        Some((audit_id, outcome, replayed)) => Ok(
            X402SettlementResponse {
                audit_id: uuid_text(audit_id),
                outcome: owned(outcome.as_str()),
                replayed,
            },
        ),
        None => Err(
            (
                409,
                ApiError {
                    code: "invalid_x402_settlement_transition",
                    message: "audit record is missing or not awaiting settlement",
                },
            ),
        ),
    }
}

/// The refusal of a project over its x402 request rate.
pub fn x402_rate_limited() -> (r: (u16, ApiError))
    ensures
        r.0 == 429,
        r.1.code@ == "x402_rate_limited"@,
        r.1.message@ == "x402 payment-control rate limit exceeded"@,
{
    (429, ApiError { code: "x402_rate_limited", message: "x402 payment-control rate limit exceeded" })
}

/// One project's rate window: when it opened (milliseconds of a monotonic
/// clock) and how many requests it admitted.
#[derive(Debug, Clone, Copy, PartialEq, Eq, Structural)]
pub struct ProjectWindow {
    pub project_id: u128,
    pub started_at_millis: u64,
    pub requests: u32,
}

/// A window is live for one second after it opened.
pub open spec fn window_live(w: ProjectWindow, now: u64) -> bool {
    now < w.started_at_millis + 1000
}

/// The windows still live at `now`, in order.
pub open spec fn live_windows(windows: Seq<ProjectWindow>, now: u64) -> Seq<ProjectWindow>
    decreases windows.len(),
{
    if windows.len() == 0 {
        Seq::empty()
    } else {
        let rest = live_windows(windows.drop_last(), now);
        if window_live(windows.last(), now) {
            rest.push(windows.last())
        } else {
            rest
        }
    }
}

/// The position of a project's window.
pub open spec fn window_index(windows: Seq<ProjectWindow>, project_id: u128) -> Option<int> {
    if exists|i: int| 0 <= i < windows.len() && #[trigger] windows[i].project_id == project_id {
        Some(choose|i: int| 0 <= i < windows.len() && #[trigger] windows[i].project_id == project_id)
    } else {
        None
    }
}

/// No project has two windows.
pub open spec fn one_window_per_project(windows: Seq<ProjectWindow>) -> bool {
    forall|i: int, j: int|
        0 <= i < windows.len() && 0 <= j < windows.len() && i != j ==> windows[i].project_id
            != windows[j].project_id
}

/// Per-project one-second request windows for the payment-control endpoints.
pub struct X402RateLimiter {
    windows: Vec<ProjectWindow>,
}

impl X402RateLimiter {
    #[verifier::type_invariant]
    spec fn well_formed(self) -> bool {
        &&& one_window_per_project(self.windows@)
        &&& self.windows@.len() <= MAX_ACTIVE_X402_RATE_WINDOWS
        &&& forall|i: int| 0 <= i < self.windows@.len() ==> #[trigger] self.windows@[i].requests
            <= MAX_X402_REQUESTS_PER_SECOND_PER_PROJECT
    }

    /// The tracked windows.
    pub closed spec fn windows(self) -> Seq<ProjectWindow> {
        self.windows@
    }

    /// A limiter tracking no project.
    pub fn new() -> (l: X402RateLimiter)
        ensures
            l.windows() == Seq::<ProjectWindow>::empty(),
    {
        X402RateLimiter { windows: Vec::new() }
    }

    /// The windows after a request by `project_id` at `now`, and whether it
    /// was allowed: expired windows are dropped first; a project without a
    /// window gets one if fewer than the maximum are tracked; a project with
    /// a window is allowed while it holds fewer than the per-second limit.
    pub open spec fn next(windows: Seq<ProjectWindow>, project_id: u128, now: u64) -> (Seq<ProjectWindow>, bool) {
        let kept = live_windows(windows, now);
        match window_index(kept, project_id) {
            None => if kept.len() >= MAX_ACTIVE_X402_RATE_WINDOWS {
                (kept, false)
            } else {
                (kept.push(ProjectWindow { project_id, started_at_millis: now, requests: 1 }), true)
            },
            Some(i) => if kept[i].requests >= MAX_X402_REQUESTS_PER_SECOND_PER_PROJECT {
                (kept, false)
            } else {
                (kept.update(i, ProjectWindow { requests: (kept[i].requests + 1) as u32, ..kept[i] }), true)
            },
        }
    }

    /// Decides one request by `project_id` at `now_millis`.
    pub fn allow(&mut self, project_id: u128, now_millis: u64) -> (allowed: bool)
        ensures
            (final(self).windows(), allowed) == Self::next(old(self).windows(), project_id, now_millis),
    {
        proof {
            use_type_invariant(&*self);
        }
        let mut kept: Vec<ProjectWindow> = Vec::new();
        let mut i: usize = 0;
        let ghost old_windows = self.windows@;
        while i < self.windows.len()
            invariant
                self.windows@ == old_windows,
                i <= old_windows.len(),
                kept@ == live_windows(old_windows.subrange(0, i as int), now_millis),
                kept@.len() <= i,
                one_window_per_project(old_windows),
                old_windows.len() <= MAX_ACTIVE_X402_RATE_WINDOWS,
                forall|k: int| 0 <= k < old_windows.len() ==> #[trigger] old_windows[k].requests
                    <= MAX_X402_REQUESTS_PER_SECOND_PER_PROJECT,
                forall|k: int|
                    0 <= k < kept@.len() ==> exists|m: int|
                        0 <= m < i && #[trigger] kept@[k] == old_windows[m],
                one_window_per_project(kept@),
            decreases old_windows.len() - i,
        {
            let w = self.windows[i];
            proof {
                let next = old_windows.subrange(0, i + 1);
                assert(next.drop_last() == old_windows.subrange(0, i as int));
                assert(next.last() == w);
            }
            if now_millis < w.started_at_millis || now_millis - w.started_at_millis < 1000 {
                proof {
                    assert forall|k: int| 0 <= k < kept@.len() implies kept@[k].project_id != w.project_id by {
                        let m = choose|m: int| 0 <= m < i && #[trigger] kept@[k] == old_windows[m];
                        assert(old_windows[m].project_id != old_windows[i as int].project_id);
                    }
                }
                kept.push(w);
                proof {
                    assert forall|k: int| 0 <= k < kept@.len() implies exists|m: int|
                        0 <= m < i + 1 && #[trigger] kept@[k] == old_windows[m] by {
                        if k == kept@.len() - 1 {
                            assert(kept@[k] == old_windows[i as int]);
                        } else {
                            let m = choose|m: int| 0 <= m < i && #[trigger] kept@[k] == old_windows[m];
                            assert(kept@[k] == old_windows[m]);
                        }
                    }
                }
            } else {
                proof {
                    assert forall|k: int| 0 <= k < kept@.len() implies exists|m: int|
                        0 <= m < i + 1 && #[trigger] kept@[k] == old_windows[m] by {
                        let m = choose|m: int| 0 <= m < i && #[trigger] kept@[k] == old_windows[m];
                        assert(kept@[k] == old_windows[m]);
                    }
                }
            }
            i = i + 1;
        }
        assert(old_windows.subrange(0, old_windows.len() as int) == old_windows);
        assert forall|k: int| 0 <= k < kept@.len() implies #[trigger] kept@[k].requests
            <= MAX_X402_REQUESTS_PER_SECOND_PER_PROJECT by {
            let m = choose|m: int| 0 <= m < old_windows.len() && #[trigger] kept@[k] == old_windows[m];
        }
        let mut found: Option<usize> = None;
        let mut j: usize = 0;
        while j < kept.len()
            invariant
                j <= kept@.len(),
                found is None ==> forall|k: int| 0 <= k < j ==> kept@[k].project_id != project_id,
                found matches Some(f) ==> f < kept@.len() && kept@[f as int].project_id == project_id,
            decreases kept@.len() - j,
        {
            if found.is_none() && kept[j].project_id == project_id {
                found = Some(j);
            }
            j = j + 1;
        }
        let allowed = match found {
            None => {
                proof {
                    assert(!(exists|k: int| 0 <= k < kept@.len() && #[trigger] kept@[k].project_id == project_id));
                }
                if kept.len() >= MAX_ACTIVE_X402_RATE_WINDOWS {
                    false
                } else {
                    kept.push(ProjectWindow { project_id, started_at_millis: now_millis, requests: 1 });
                    proof {
                        assert forall|a: int, b: int|
                            0 <= a < kept@.len() && 0 <= b < kept@.len() && a != b implies kept@[a].project_id
                            != kept@[b].project_id by {
                            if a != kept@.len() - 1 && b != kept@.len() - 1 {
                            }
                        }
                    }
                    true
                }
            },
            Some(f) => {
                proof {
                    assert(exists|k: int| 0 <= k < kept@.len() && #[trigger] kept@[k].project_id == project_id);
                    let c = choose|k: int| 0 <= k < kept@.len() && #[trigger] kept@[k].project_id == project_id;
                    assert(c == f as int);
                }
                let w = kept[f];
                if w.requests >= MAX_X402_REQUESTS_PER_SECOND_PER_PROJECT {
                    false
                } else {
                    kept.set(f, ProjectWindow { requests: w.requests + 1, ..w });
                    true
                }
            },
        };
        self.windows = kept;
        allowed
    }
}

/// Every project stays within its limit: no window ever holds more than the
/// per-second limit, and no more than the maximum number of windows is kept.
pub proof fn x402_windows_stay_bounded(windows: Seq<ProjectWindow>, project_id: u128, now: u64)
    requires
        windows.len() <= MAX_ACTIVE_X402_RATE_WINDOWS,
        forall|i: int| 0 <= i < windows.len() ==> #[trigger] windows[i].requests
            <= MAX_X402_REQUESTS_PER_SECOND_PER_PROJECT,
    ensures
        X402RateLimiter::next(windows, project_id, now).0.len() <= MAX_ACTIVE_X402_RATE_WINDOWS,
        forall|i: int|
            0 <= i < X402RateLimiter::next(windows, project_id, now).0.len() ==> (#[trigger] X402RateLimiter::next(
                windows,
                project_id,
                now,
            ).0[i]).requests <= MAX_X402_REQUESTS_PER_SECOND_PER_PROJECT,
{
    lemma_live_windows_subset(windows, now);
}

/// The live windows are a selection of the windows, never more of them.
pub proof fn lemma_live_windows_subset(windows: Seq<ProjectWindow>, now: u64)
    ensures
        live_windows(windows, now).len() <= windows.len(),
        forall|k: int|
            0 <= k < live_windows(windows, now).len() ==> exists|m: int|
                0 <= m < windows.len() && #[trigger] live_windows(windows, now)[k] == windows[m],
    decreases windows.len(),
{
    if windows.len() > 0 {
        let rest = windows.drop_last();
        lemma_live_windows_subset(rest, now);
        assert forall|k: int|
            0 <= k < live_windows(windows, now).len() implies exists|m: int|
                0 <= m < windows.len() && #[trigger] live_windows(windows, now)[k] == windows[m] by {
            if k < live_windows(rest, now).len() {
                let m = choose|m: int| 0 <= m < rest.len() && #[trigger] live_windows(rest, now)[k] == rest[m];
                assert(live_windows(windows, now)[k] == windows[m]);
            } else {
                assert(live_windows(windows, now)[k] == windows[windows.len() - 1]);
            }
        }
    }
}

/// The window a project holds, if any.
pub open spec fn window_of(windows: Seq<ProjectWindow>, project_id: u128) -> Option<ProjectWindow> {
    match window_index(windows, project_id) {
        Some(i) => Some(windows[i]),
        None => None,
    }
}

/// Dropping expired windows keeps at most one window per project.
proof fn lemma_live_windows_unique(windows: Seq<ProjectWindow>, now: u64)
    requires
        one_window_per_project(windows),
    ensures
        one_window_per_project(live_windows(windows, now)),
    decreases windows.len(),
{
    if windows.len() > 0 {
        let rest = windows.drop_last();
        assert(one_window_per_project(rest));
        lemma_live_windows_unique(rest, now);
        lemma_live_windows_subset(rest, now);
        let kept = live_windows(rest, now);
        if window_live(windows.last(), now) {
            let all = kept.push(windows.last());
            assert forall|i: int, j: int|
                0 <= i < all.len() && 0 <= j < all.len() && i != j implies all[i].project_id
                    != all[j].project_id by {
                if i < kept.len() && j < kept.len() {
                } else if i < kept.len() {
                    let m = choose|m: int| 0 <= m < rest.len() && #[trigger] kept[i] == rest[m];
                    assert(windows[m] == rest[m]);
                } else {
                    let m = choose|m: int| 0 <= m < rest.len() && #[trigger] kept[j] == rest[m];
                    assert(windows[m] == rest[m]);
                }
            }
        }
    }
}

/// Where windows are unique, a project's window is the one carrying its id.
proof fn lemma_window_of_unique(windows: Seq<ProjectWindow>, project_id: u128, i: int)
    requires
        one_window_per_project(windows),
        0 <= i < windows.len(),
        windows[i].project_id == project_id,
    ensures
        window_of(windows, project_id) == Some(windows[i]),
{
    let c = choose|k: int| 0 <= k < windows.len() && #[trigger] windows[k].project_id == project_id;
    assert(c == i);
}

/// The payment-control limit is scoped to one project: a request by one
/// project leaves every other project's window exactly as the expiry of old
/// windows left it.
pub proof fn x402_limit_is_per_project(
    windows: Seq<ProjectWindow>,
    project_id: u128,
    other: u128,
    now: u64,
)
    requires
        one_window_per_project(windows),
        other != project_id,
    ensures
        window_of(X402RateLimiter::next(windows, project_id, now).0, other) == window_of(
            live_windows(windows, now),
            other,
        ),
{
    let kept = live_windows(windows, now);
    lemma_live_windows_unique(windows, now);
    let after = X402RateLimiter::next(windows, project_id, now).0;
    if after != kept {
        assert(after.len() == kept.len() || after.len() == kept.len() + 1);
        assert forall|k: int| 0 <= k < kept.len() && #[trigger] kept[k].project_id == other implies after[k]
            == kept[k] by {
            match window_index(kept, project_id) {
                Some(ip) => {
                    assert(kept[ip].project_id == project_id);
                },
                None => {},
            }
        }
        assert forall|i: int, j: int|
            0 <= i < after.len() && 0 <= j < after.len() && i != j implies after[i].project_id
                != after[j].project_id by {
            match window_index(kept, project_id) {
                Some(ip) => {
                    assert(kept[ip].project_id == project_id);
                },
                None => {
                    if i == kept.len() {
                        assert(!(kept[j].project_id == project_id));
                    } else if j == kept.len() {
                        assert(!(kept[i].project_id == project_id));
                    }
                },
            }
        }
        if exists|k: int| 0 <= k < kept.len() && #[trigger] kept[k].project_id == other {
            let k = choose|k: int| 0 <= k < kept.len() && #[trigger] kept[k].project_id == other;
            lemma_window_of_unique(kept, other, k);
            lemma_window_of_unique(after, other, k);
        } else {
            assert(!exists|k: int| 0 <= k < after.len() && #[trigger] after[k].project_id == other) by {
                if exists|k: int| 0 <= k < after.len() && #[trigger] after[k].project_id == other {
                    let k = choose|k: int| 0 <= k < after.len() && #[trigger] after[k].project_id == other;
                    if k < kept.len() {
                        match window_index(kept, project_id) {
                            Some(ip) => {
                                assert(kept[ip].project_id == project_id);
                                if k != ip {
                                    assert(after[k] == kept[k]);
                                }
                            },
                            None => {
                                assert(after[k] == kept[k]);
                            },
                        }
                    }
                }
            }
        }
    }
}

} // verus!
