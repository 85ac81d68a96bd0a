//! Project, environment, route, token and x402 policy provisioning rules.
use vstd::prelude::*;
use crate::text::{
    starts_with, has_char, is_ws, lower, byte_len, utf8_len, str_eq, str_starts_with, strip_prefix,
    has_whitespace, str_has_char, to_ascii_lowercase, owned, push_text, is_ascii_lower, is_ascii_digit,
};
use crate::numeric::{parse_unsigned, parse_unsigned_chars, hex};
use crate::auth::{
    AuthenticatedToken, ApiTokenRecord, AuthError, Timestamp, administers, project_admin, authorize,
    authorization, opt_view, scope_listed, bearer_secret, well_formed_secret, token_digest, grants,
    first_record_with, hash_token,
};
use crate::http_policy::ApiError;
use crate::ids::{uuid_text, uuid_hyphenated};
use crate::instant::{OffsetInstant, parse_rfc3339, rfc3339_parse, well_ranged, format_time, rfc3339_format};
use crate::text::{chars_of, trim, trim_str};
use crate::secret_tokens::{is_secret_with_prefix, hex_bytes, lemma_hex_bytes_len, random_bytes, secret_from_bytes};

verus! {

/// The scopes a token may be granted.
pub open spec fn allowed_scope(scope: Seq<char>) -> bool {
    ||| scope == "project:admin"@
    ||| scope == "ingest:write"@
    ||| scope == "traces:read"@
    ||| scope == "diagnostics:read"@
    ||| scope == "admin"@
    ||| scope == "x402:pay"@
}

/// How many scopes exist.
pub const ALLOWED_SCOPE_COUNT: usize = 6;

/// Whether `scope` is one a token may be granted.
pub fn is_allowed_scope(scope: &str) -> (b: bool)
    ensures
        b == allowed_scope(scope@),
{
    str_eq(scope, "project:admin") || str_eq(scope, "ingest:write") || str_eq(scope, "traces:read")
        || str_eq(scope, "diagnostics:read") || str_eq(scope, "admin") || str_eq(scope, "x402:pay")
}

/// A text of between 1 and `maximum` characters.
pub open spec fn text_valid(value: Seq<char>, maximum: nat) -> bool {
    1 <= value.len() <= maximum
}

/// Whether `value` has between 1 and `maximum` characters.
pub fn valid_text(value: &str, maximum: usize) -> (b: bool)
    ensures
        b == text_valid(value@, maximum as nat),
{
    let length = value.unicode_len();
    1 <= length && length <= maximum
}

/// No text occurs twice in `items`.
pub open spec fn all_distinct(items: Seq<String>) -> bool {
    forall|i: int, j: int| 0 <= j < i < items.len() ==> items[j]@ != items[i]@
}

/// A scope set is non-empty, known, and free of repeats.
pub open spec fn scopes_valid(scopes: Seq<String>) -> bool {
    &&& scopes.len() > 0
    &&& scopes.len() <= ALLOWED_SCOPE_COUNT
    &&& forall|i: int| 0 <= i < scopes.len() ==> allowed_scope(#[trigger] scopes[i]@)
    &&& all_distinct(scopes)
}

/// Whether no text occurs twice in `items`.
pub fn distinct_texts(items: &Vec<String>) -> (b: bool)
    ensures
        b == all_distinct(items@),
{
    let mut i: usize = 0;
    while i < items.len()
        invariant
            i <= items@.len(),
            forall|a: int, c: int| 0 <= c < a < i ==> items@[c]@ != items@[a]@,
        decreases items@.len() - i,
    {
        let mut j: usize = 0;
        while j < i
            invariant
                j <= i < items@.len(),
                forall|c: int| 0 <= c < j ==> items@[c]@ != items@[i as int]@,
            decreases i - j,
        {
            if str_eq(items[j].as_str(), items[i].as_str()) {
                return false;
            }
            j = j + 1;
        }
        i = i + 1;
    }
    true
}

/// Whether a requested scope set is non-empty, known and free of repeats.
pub fn valid_scopes(scopes: &Vec<String>) -> (b: bool)
    ensures
        b == scopes_valid(scopes@),
{
    if scopes.len() == 0 || scopes.len() > ALLOWED_SCOPE_COUNT {
        return false;
    }
    let mut i: usize = 0;
    while i < scopes.len()
        invariant
            i <= scopes@.len(),
            forall|k: int| 0 <= k < i ==> allowed_scope(#[trigger] scopes@[k]@),
        decreases scopes@.len() - i,
    {
        if !is_allowed_scope(scopes[i].as_str()) {
            return false;
        }
        i = i + 1;
    }
    distinct_texts(scopes)
}

/// No whitespace character occurs in `s`.
pub open spec fn no_ws(s: Seq<char>) -> bool {
    !(exists|i: int| 0 <= i < s.len() && is_ws(#[trigger] s[i]))
}

/// An RPC endpoint is an HTTPS URL of at most 2048 bytes, with no embedded
/// credentials and no whitespace.
pub open spec fn rpc_endpoint_valid(endpoint: Seq<char>) -> bool {
    &&& byte_len(endpoint) <= 2048
    &&& starts_with(endpoint, "https://"@)
    &&& !has_char(endpoint, '@')
    &&& no_ws(endpoint)
}

/// Whether an RPC endpoint may be registered.
pub fn valid_rpc_endpoint(endpoint: &str) -> (b: bool)
    ensures
        b == rpc_endpoint_valid(endpoint@),
{
    utf8_len(endpoint) <= 2048 && str_starts_with(endpoint, "https://") && !str_has_char(endpoint, '@')
        && !has_whitespace(endpoint)
}

/// A canonical positive base-10 amount that fits in 128 bits: digits only
/// (no sign), not zero, and no leading zero.
pub open spec fn atomic_amount_valid(value: Seq<char>) -> bool {
    &&& value.len() > 0
    &&& value[0] != '+'
    &&& value != "0"@
    &&& !(value.len() > 1 && value[0] == '0')
    &&& parse_unsigned(value, 10, u128::MAX as nat) is Some
}

/// Whether `value` is a canonical positive atomic amount.
pub fn valid_atomic_amount(value: &str) -> (b: bool)
    ensures
        b == atomic_amount_valid(value@),
{
    let chars = chars_of(value);
    if chars.len() == 0 || chars[0] == '+' {
        return false;
    }
    if str_eq(value, "0") {
        return false;
    }
    if chars.len() > 1 && chars[0] == '0' {
        return false;
    }
    parse_unsigned_chars(&chars, 10, u128::MAX).is_some()
}

/// A merchant origin is `https://` and a host of at most 2040 bytes, with no
/// path, query, fragment, credentials, whitespace or uppercase ASCII.
pub open spec fn merchant_origin_valid(value: Seq<char>) -> bool {
    starts_with(value, "https://"@) && {
        let host = value.subrange("https://"@.len() as int, value.len() as int);
        &&& host.len() > 0
        &&& byte_len(host) <= 2040
        &&& !has_char(host, '/')
        &&& !has_char(host, '?')
        &&& !has_char(host, '#')
        &&& !has_char(host, '@')
        &&& no_ws(host)
        &&& lower(value) == value
    }
}

/// Whether `value` is an exact lowercase HTTPS merchant origin.
pub fn valid_merchant_origin(value: &str) -> (b: bool)
    ensures
        b == merchant_origin_valid(value@),
{
    let host = match strip_prefix(value, "https://") {
        Some(h) => h,
        None => {
            return false;
        },
    };
    if host.unicode_len() == 0 || utf8_len(host) > 2040 {
        return false;
    }
    if str_has_char(host, '/') || str_has_char(host, '?') || str_has_char(host, '#') || str_has_char(
        host,
        '@',
    ) {
        return false;
    }
    if has_whitespace(host) {
        return false;
    }
    let lowered = to_ascii_lowercase(value);
    str_eq(value, lowered.as_str())
}

/// Request to provision a new customer project and its first administrator token.
#[derive(Debug, Clone, PartialEq, Eq)]
pub struct CreateProjectRequest {
    /// Human-readable project name.
    pub name: String,
    /// Label shown in token listings for the initial administrator token.
    pub initial_token_name: String,
}

/// Project identity returned by the control plane.
#[derive(Debug, Clone, PartialEq, Eq)]
pub struct ProjectResponse {
    pub project_id: String,
    pub name: String,
}

/// A newly created token. The plaintext `token` cannot be retrieved later;
/// only its SHA-256 digest is stored.
#[derive(Debug, Clone, PartialEq, Eq)]
pub struct CreatedTokenResponse {
    pub token_id: String,
    pub name: String,
    pub token_prefix: String,
    pub token: String,
    pub scopes: Vec<String>,
    pub expires_at: Option<String>,
}

/// A new project together with its first token.
#[derive(Debug, Clone, PartialEq, Eq)]
pub struct CreatedProjectResponse {
    pub project: ProjectResponse,
    pub initial_token: CreatedTokenResponse,
}

/// Request to add an environment to a project.
#[derive(Debug, Clone, PartialEq, Eq)]
pub struct CreateEnvironmentRequest {
    pub name: String,
    pub cluster: String,
}

/// Durable environment metadata.
#[derive(Debug, Clone, PartialEq, Eq)]
pub struct EnvironmentResponse {
    pub environment_id: String,
    pub project_id: String,
    pub name: String,
    pub cluster: String,
}

/// Request to register one customer-controlled Solana JSON-RPC route.
#[derive(Debug, Clone, PartialEq, Eq)]
pub struct CreateRouteRequest {
    pub name: String,
    /// HTTPS URL used only by the observer worker; never returned by listings.
    pub endpoint: String,
}

/// Non-secret route metadata; endpoint URLs are never included.
#[derive(Debug, Clone, PartialEq, Eq)]
pub struct RouteResponse {
    pub route_id: String,
    pub environment_id: String,
    pub name: String,
    pub enabled: bool,
}

/// Request to mint a scoped token for one project.
#[derive(Debug, Clone, PartialEq, Eq)]
pub struct CreateTokenRequest {
    pub name: String,
    pub scopes: Vec<String>,
    /// Optional RFC 3339 expiry; tokens without one do not expire.
    pub expires_at: Option<String>,
}

/// Non-secret token metadata for listing and revocation.
#[derive(Debug, Clone, PartialEq, Eq)]
pub struct TokenResponse {
    pub token_id: String,
    pub name: String,
    pub token_prefix: String,
    pub scopes: Vec<String>,
    pub expires_at: Option<String>,
    pub revoked_at: Option<String>,
}

/// Request to create or update a non-custodial x402 spend policy.
#[derive(Debug, Clone, PartialEq, Eq)]
pub struct UpsertX402SpendPolicyRequest {
    /// Stable application-owned agent label.
    pub agent_id: String,
    /// CAIP-2 network identifier, such as `solana:mainnet`.
    pub network: String,
    /// Asset identifier selected by the deployment.
    pub asset: String,
    /// Canonical positive base-10 atomic amount.
    pub max_per_request_atomic: String,
    /// Canonical positive base-10 aggregate daily cap.
    pub max_per_day_atomic: String,
    /// Exact HTTPS origins that the agent may pay.
    pub merchant_origins: Vec<String>,
    /// Whether the policy may authorize future requests.
    pub enabled: bool,
}

/// Safe x402 policy data returned to the project owner.
#[derive(Debug, Clone, PartialEq, Eq)]
pub struct X402SpendPolicyResponse {
    pub policy_id: String,
    pub project_id: String,
    pub agent_id: String,
    pub network: String,
    pub asset: String,
    pub max_per_request_atomic: String,
    pub max_per_day_atomic: String,
    pub merchant_origins: Vec<String>,
    pub enabled: bool,
}

/// The stored form of an x402 spend policy.
#[derive(Debug, Clone, PartialEq, Eq)]
pub struct X402SpendPolicyRecord {
    pub policy_id: u128,
    pub project_id: u128,
    pub agent_id: String,
    pub network: String,
    pub asset: String,
    pub max_per_request_atomic: String,
    pub max_per_day_atomic: String,
    pub merchant_origins: Vec<String>,
    pub enabled: bool,
}

/// A policy without an explicit `enabled` flag is enabled.
pub fn default_enabled() -> (b: bool)
    ensures
        b,
{
    true
}

/// The per-request limit does not exceed the daily cap.
pub open spec fn limits_ordered(per_request: Seq<char>, per_day: Seq<char>) -> bool {
    parse_unsigned(per_request, 10, u128::MAX as nat) matches Some(r) && (parse_unsigned(
        per_day,
        10,
        u128::MAX as nat,
    ) matches Some(d) && r <= d)
}

/// An x402 policy: bounded labels, canonical ordered limits, and 1 to 100
/// distinct valid merchant origins.
pub open spec fn x402_policy_valid(request: UpsertX402SpendPolicyRequest) -> bool {
    &&& text_valid(request.agent_id@, 160)
    &&& text_valid(request.network@, 160)
    &&& text_valid(request.asset@, 256)
    &&& atomic_amount_valid(request.max_per_request_atomic@)
    &&& atomic_amount_valid(request.max_per_day_atomic@)
    &&& limits_ordered(request.max_per_request_atomic@, request.max_per_day_atomic@)
    &&& request.merchant_origins@.len() > 0
    &&& request.merchant_origins@.len() <= 100
    &&& forall|i: int|
        0 <= i < request.merchant_origins@.len() ==> merchant_origin_valid(
            #[trigger] request.merchant_origins@[i]@,
        )
    &&& all_distinct(request.merchant_origins@)
}

fn limits_are_ordered(per_request: &str, per_day: &str) -> (b: bool)
    ensures
        b == limits_ordered(per_request@, per_day@),
{
    let r = parse_unsigned_chars(&chars_of(per_request), 10, u128::MAX);
    let d = parse_unsigned_chars(&chars_of(per_day), 10, u128::MAX);
    match (r, d) {
        (Some(r), Some(d)) => r <= d,
        _ => false,
    }
}

/// Whether an x402 spend policy may be stored.
pub fn valid_x402_policy(request: &UpsertX402SpendPolicyRequest) -> (b: bool)
    ensures
        b == x402_policy_valid(*request),
{
    if !(valid_text(request.agent_id.as_str(), 160) && valid_text(request.network.as_str(), 160)
        && valid_text(request.asset.as_str(), 256) && valid_atomic_amount(
        request.max_per_request_atomic.as_str(),
    ) && valid_atomic_amount(request.max_per_day_atomic.as_str()) && limits_are_ordered(
        request.max_per_request_atomic.as_str(),
        request.max_per_day_atomic.as_str(),
    )) {
        return false;
    }
    if request.merchant_origins.len() == 0 || request.merchant_origins.len() > 100 {
        return false;
    }
    let mut i: usize = 0;
    while i < request.merchant_origins.len()
        invariant
            i <= request.merchant_origins@.len(),
            forall|k: int|
                0 <= k < i ==> merchant_origin_valid(#[trigger] request.merchant_origins@[k]@),
        decreases request.merchant_origins@.len() - i,
    {
        if !valid_merchant_origin(request.merchant_origins[i].as_str()) {
            return false;
        }
        i = i + 1;
    }
    distinct_texts(&request.merchant_origins)
}

/// The stored record of a valid policy request.
pub fn x402_record(policy_id: u128, project_id: u128, request: UpsertX402SpendPolicyRequest) -> (r:
    X402SpendPolicyRecord)
    ensures
        r.policy_id == policy_id,
        r.project_id == project_id,
        r.agent_id == request.agent_id,
        r.network == request.network,
        r.asset == request.asset,
        r.max_per_request_atomic == request.max_per_request_atomic,
        r.max_per_day_atomic == request.max_per_day_atomic,
        r.merchant_origins == request.merchant_origins,
        r.enabled == request.enabled,
{
    X402SpendPolicyRecord {
        policy_id,
        project_id,
        agent_id: request.agent_id,
        network: request.network,
        asset: request.asset,
        max_per_request_atomic: request.max_per_request_atomic,
        max_per_day_atomic: request.max_per_day_atomic,
        merchant_origins: request.merchant_origins,
        enabled: request.enabled,
    }
}

/// The owner's view of a stored policy.
pub fn x402_response(record: X402SpendPolicyRecord) -> (r: X402SpendPolicyResponse)
    ensures
        r.policy_id@ == uuid_hyphenated(record.policy_id),
        r.project_id@ == uuid_hyphenated(record.project_id),
        r.agent_id == record.agent_id,
        r.network == record.network,
        r.asset == record.asset,
        r.max_per_request_atomic == record.max_per_request_atomic,
        r.max_per_day_atomic == record.max_per_day_atomic,
        r.merchant_origins == record.merchant_origins,
        r.enabled == record.enabled,
{
    X402SpendPolicyResponse {
        policy_id: uuid_text(record.policy_id),
        project_id: uuid_text(record.project_id),
        agent_id: record.agent_id,
        network: record.network,
        asset: record.asset,
        max_per_request_atomic: record.max_per_request_atomic,
        max_per_day_atomic: record.max_per_day_atomic,
        merchant_origins: record.merchant_origins,
        enabled: record.enabled,
    }
}

/// The refusal of a caller who does not administer the project.
pub open spec fn access_denied(r: (u16, ApiError)) -> bool {
    r.0 == 403 && r.1.code@ == "project_access_denied"@ && r.1.message@
        == "project administrator access is required"@
}

/// The answer to a caller who does not administer the project.
pub fn project_access_denied() -> (r: (u16, ApiError))
    ensures
        access_denied(r),
{
    (403, ApiError { code: "project_access_denied", message: "project administrator access is required" })
}

pub open spec fn principal_view(principal: Option<&AuthenticatedToken>) -> Option<AuthenticatedToken> {
    match principal {
        Some(p) => Some(*p),
        None => None,
    }
}

/// Checks an x402 policy change: the caller must administer the project and
/// the policy must be valid.
pub fn check_x402_policy(
    principal: Option<&AuthenticatedToken>,
    project_id: u128,
    request: &UpsertX402SpendPolicyRequest,
) -> (r: Result<(), (u16, ApiError)>)
    ensures
        !administers(principal_view(principal), project_id) ==> (r matches Err(e) && access_denied(e)),
        administers(principal_view(principal), project_id) ==> (r is Ok <==> x402_policy_valid(
            *request,
        )),
        administers(principal_view(principal), project_id) && r is Err ==> (r matches Err(e) && e.0
            == 400 && e.1.code@ == "invalid_x402_policy"@ && e.1.message@
            == "policy requires canonical limits and unique lowercase HTTPS merchant origins"@),
{
    if !project_admin(principal, project_id) {
        return Err(project_access_denied());
    }
    if !valid_x402_policy(request) {
        return Err(
            (
                400,
                ApiError {
                    code: "invalid_x402_policy",
                    message: "policy requires canonical limits and unique lowercase HTTPS merchant origins",
                },
            ),
        );
    }
    Ok(())
}

/// Checks an environment request: administrator access, a name of 1 to 120
/// characters and a cluster of 1 to 80.
pub fn check_environment_request(
    principal: Option<&AuthenticatedToken>,
    project_id: u128,
    request: &CreateEnvironmentRequest,
) -> (r: Result<(), (u16, ApiError)>)
    ensures
        !administers(principal_view(principal), project_id) ==> (r matches Err(e) && access_denied(e)),
        administers(principal_view(principal), project_id) ==> (r is Ok <==> (text_valid(
            request.name@,
            120,
        ) && text_valid(request.cluster@, 80))),
        administers(principal_view(principal), project_id) && r is Err ==> (r matches Err(e) && e.0
            == 400 && e.1.code@ == "invalid_control_input"@ && e.1.message@
            == "environment name and cluster must be non-empty and within their limits"@),
{
    if !project_admin(principal, project_id) {
        return Err(project_access_denied());
    }
    if !valid_text(request.name.as_str(), 120) || !valid_text(request.cluster.as_str(), 80) {
        return Err(
            (
                400,
                ApiError {
                    code: "invalid_control_input",
                    message: "environment name and cluster must be non-empty and within their limits",
                },
            ),
        );
    }
    Ok(())
}

/// A created environment, as returned to its owner.
pub fn environment_response(environment_id: u128, project_id: u128, request: CreateEnvironmentRequest) -> (r:
    EnvironmentResponse)
    ensures
        r.environment_id@ == uuid_hyphenated(environment_id),
        r.project_id@ == uuid_hyphenated(project_id),
        r.name == request.name,
        r.cluster == request.cluster,
{
    EnvironmentResponse {
        environment_id: uuid_text(environment_id),
        project_id: uuid_text(project_id),
        name: request.name,
        cluster: request.cluster,
    }
}

/// Checks a route request: administrator access, a name of 1 to 120
/// characters and a valid HTTPS endpoint.
pub fn check_route_request(
    principal: Option<&AuthenticatedToken>,
    project_id: u128,
    request: &CreateRouteRequest,
) -> (r: Result<(), (u16, ApiError)>)
    ensures
        !administers(principal_view(principal), project_id) ==> (r matches Err(e) && access_denied(e)),
        administers(principal_view(principal), project_id) ==> (r is Ok <==> (text_valid(
            request.name@,
            120,
        ) && rpc_endpoint_valid(request.endpoint@))),
        administers(principal_view(principal), project_id) && r is Err ==> (r matches Err(e) && e.0
            == 400 && e.1.code@ == "invalid_route_request"@ && e.1.message@
            == "route name or HTTPS endpoint is invalid"@),
{
    if !project_admin(principal, project_id) {
        return Err(project_access_denied());
    }
    if !valid_text(request.name.as_str(), 120) || !valid_rpc_endpoint(request.endpoint.as_str()) {
        return Err(
            (
                400,
                ApiError { code: "invalid_route_request", message: "route name or HTTPS endpoint is invalid" },
            ),
        );
    }
    Ok(())
}

/// A registered route, as returned to its owner: enabled, without its endpoint.
pub fn route_response(route_id: u128, environment_id: u128, name: String) -> (r: RouteResponse)
    ensures
        r.route_id@ == uuid_hyphenated(route_id),
        r.environment_id@ == uuid_hyphenated(environment_id),
        r.name == name,
        r.enabled,
{
    RouteResponse {
        route_id: uuid_text(route_id),
        environment_id: uuid_text(environment_id),
        name,
        enabled: true,
    }
}

/// The text of an optional string.
pub open spec fn string_view(s: Option<String>) -> Option<Seq<char>> {
    match s {
        Some(t) => Some(t@),
        None => None,
    }
}

/// The expiry of a token request: none, or an RFC 3339 instant that must be
/// later than `now`.
pub open spec fn expiry_verdict(expires_at: Option<Seq<char>>, now: int) -> Result<
    Option<(i128, i32)>,
    (),
> {
    match expires_at {
        None => Ok(None),
        Some(text) => match rfc3339_parse(text) {
            Some(t) => if t.0 > now {
                Ok(Some(t))
            } else {
                Err(())
            },
            None => Err(()),
        },
    }
}

/// Checks a token request at time `now` (nanoseconds since the epoch):
/// administrator access, a name of 1 to 120 characters, a valid scope set,
/// and an expiry in the future if one is given.
pub fn check_token_request(
    principal: Option<&AuthenticatedToken>,
    project_id: u128,
    request: &CreateTokenRequest,
    now: i128,
) -> (r: Result<Option<OffsetInstant>, (u16, ApiError)>)
    ensures
        !administers(principal_view(principal), project_id) ==> (r matches Err(e) && access_denied(e)),
        administers(principal_view(principal), project_id) && !(text_valid(request.name@, 120)
            && scopes_valid(request.scopes@)) ==> (r matches Err(e) && e.0 == 400 && e.1.code@
            == "invalid_token_request"@ && e.1.message@ == "token name or scopes are invalid"@),
        administers(principal_view(principal), project_id) && text_valid(request.name@, 120)
            && scopes_valid(request.scopes@) ==> match expiry_verdict(string_view(request.expires_at), now as int) {
            Ok(None) => r == Ok::<Option<OffsetInstant>, (u16, ApiError)>(None),
            Ok(Some(t)) => r matches Ok(Some(v)) && v.unix_nanos == t.0 && v.offset_seconds == t.1
                && well_ranged(v),
            Err(_) => r matches Err(e) && e.0 == 400 && e.1.code@ == "invalid_token_expiry"@
                && e.1.message@ == "expires_at must be a future RFC 3339 timestamp"@,
        },
{
    if !project_admin(principal, project_id) {
        return Err(project_access_denied());
    }
    if !valid_text(request.name.as_str(), 120) || !valid_scopes(&request.scopes) {
        return Err(
            (400, ApiError { code: "invalid_token_request", message: "token name or scopes are invalid" }),
        );
    }
    match &request.expires_at {
        Some(text) => match parse_rfc3339(text.as_str()) {
            Some(t) => {
                if t.unix_nanos > now {
                    Ok(Some(t))
                } else {
                    Err(
                        (
                            400,
                            ApiError {
                                code: "invalid_token_expiry",
                                message: "expires_at must be a future RFC 3339 timestamp",
                            },
                        ),
                    )
                }
            },
            None => Err(
                (
                    400,
                    ApiError {
                        code: "invalid_token_expiry",
                        message: "expires_at must be a future RFC 3339 timestamp",
                    },
                ),
            ),
        },
        None => Ok(None),
    }
}

/// A newly minted token, as returned once to its creator.
pub fn created_token_response(
    token_id: u128,
    request: CreateTokenRequest,
    token: String,
    token_prefix: String,
    expires_at: Option<OffsetInstant>,
) -> (r: CreatedTokenResponse)
    ensures
        r.token_id@ == uuid_hyphenated(token_id),
        r.name == request.name,
        r.token == token,
        r.token_prefix == token_prefix,
        r.scopes == request.scopes,
        match expires_at {
            Some(v) => match rfc3339_format(v.unix_nanos, v.offset_seconds) {
                Some(text) => r.expires_at matches Some(s) && s@ == text,
                None => r.expires_at is None,
            },
            None => r.expires_at is None,
        },
{
    CreatedTokenResponse {
        token_id: uuid_text(token_id),
        name: request.name,
        token_prefix,
        token,
        scopes: request.scopes,
        expires_at: format_time(expires_at),
    }
}

/// The length of the listing prefix kept for a token: `lf_` and eight digits.
pub const TOKEN_PREFIX_CHARS: usize = 11;

/// The project token `lf_<64 hex digits>` of 32 bytes, and its 11-character
/// listing prefix.
pub fn token_from_bytes(bytes: &[u8; 32]) -> (r: (String, String))
    ensures
        r.0@ == "lf_"@ + hex_bytes(bytes@),
        r.1@ == r.0@.subrange(0, 11),
{
    let (token, _digest) = secret_from_bytes("lf_", bytes);
    proof {
        reveal_strlit("lf_");
        lemma_hex_bytes_len(bytes@);
    }
    let prefix = token.as_str().substring_char(0, TOKEN_PREFIX_CHARS);
    let owned_prefix = owned(prefix);
    (token, owned_prefix)
}

/// Issues a project token `lf_<64 hex digits>` of 256 random bits and its
/// 11-character prefix. It fails only where the operating system's random
/// source fails.
pub fn issue_token() -> (r: Result<(String, String), ()>)
    ensures
        r matches Ok((token, prefix)) ==> is_secret_with_prefix(token@, "lf_"@) && token@.len()
            == 67 && prefix@ == token@.subrange(0, 11),
{
    let bytes = match random_bytes::<32>() {
        Some(b) => b,
        None => {
            return Err(());
        },
    };
    let (token, prefix) = token_from_bytes(&bytes);
    proof {
        reveal_strlit("lf_");
        lemma_hex_bytes_len(bytes@);
        assert(bytes@.len() == 32 && token@ == "lf_"@ + hex_bytes(bytes@));
    }
    Ok((token, prefix))
}

/// The digest of the configured bootstrap secret: the configured text is
/// trimmed, and a blank one configures no bootstrap credential.
pub fn bootstrap_token_hash(configured: Option<&str>) -> (h: Option<[u8; 32]>)
    ensures
        match opt_view(configured) {
            Some(text) => if trim(text).len() == 0 {
                h is None
            } else {
                h matches Some(d) && d@ == token_digest(trim(text))
            },
            None => h is None,
        },
{
    match configured {
        Some(text) => {
            let trimmed = trim_str(text);
            if trimmed.unicode_len() == 0 {
                None
            } else {
                Some(hash_token(trimmed))
            }
        },
        None => None,
    }
}

/// A request presents the bootstrap credential when it carries a well-formed
/// bearer secret whose digest is the configured one.
pub open spec fn presents_bootstrap(header: Option<Seq<char>>, token_hash: [u8; 32]) -> bool {
    header matches Some(h) && (bearer_secret(h) matches Some(token) && well_formed_secret(token)
        && token_digest(token) == token_hash@)
}

/// Whether a request carries the deployment's bootstrap credential, which
/// must hold the `project:admin` scope and is never revoked or expired.
pub fn authorize_bootstrap(
    authorization: Option<&str>,
    bootstrap_token_hash: Option<[u8; 32]>,
    now: Timestamp,
) -> (b: bool)
    ensures
        bootstrap_token_hash is None ==> !b,
        bootstrap_token_hash matches Some(h) ==> (b <==> presents_bootstrap(opt_view(authorization), h)),
{
    let token_hash = match bootstrap_token_hash {
        Some(h) => h,
        None => {
            return false;
        },
    };
    let mut scopes: Vec<String> = Vec::new();
    scopes.push(owned("project:admin"));
    let record = ApiTokenRecord { token_hash, scopes, expires_at: None, revoked_at: None };
    let ghost rec = record;
    assert(rec.scopes@[0]@ == "project:admin"@);
    let records = vec![record];
    proof {
        assert(records@[0] == rec);
        assert(grants(records@[0], "project:admin"@));
        assert(records@.drop_first().len() == 0);
        assert(records@[0].token_hash == token_hash);
        if let Some(hd) = opt_view(authorization) {
            if let Some(tok) = bearer_secret(hd) {
                assert(first_record_with(records@.drop_first(), token_digest(tok)) is None);
            }
        }
    }
    authorize(authorization, records.as_slice(), "project:admin", now).is_ok()
}

/// Checks a bootstrap request: the deployment must hold a bootstrap
/// credential, the request must present it, and both names must fit.
pub fn check_bootstrap(
    authorization: Option<&str>,
    bootstrap_token_hash: Option<[u8; 32]>,
    now: Timestamp,
    request: &CreateProjectRequest,
) -> (r: Result<(), (u16, ApiError)>)
    ensures
        bootstrap_token_hash is None ==> (r matches Err(e) && e.0 == 503 && e.1.code@
            == "bootstrap_unavailable"@ && e.1.message@ == "bootstrap token is not configured"@),
        bootstrap_token_hash matches Some(h) && !presents_bootstrap(opt_view(authorization), h) ==> (r matches Err(e) && e.0 == 401 && e.1.code@ == "unauthorized"@ && e.1.message@
            == "valid bootstrap bearer authentication is required"@),
        bootstrap_token_hash matches Some(h) && presents_bootstrap(opt_view(authorization), h) ==> (r is Ok <==> (text_valid(request.name@, 200) && text_valid(
            request.initial_token_name@,
            120,
        ))),
        bootstrap_token_hash matches Some(h) && presents_bootstrap(opt_view(authorization), h) && r is Err
            ==> (r matches Err(e) && e.0 == 400 && e.1.code@ == "invalid_control_input"@ && e.1.message@
            == "project and token names must be non-empty and within their limits"@),
{
    if bootstrap_token_hash.is_none() {
        return Err(
            (503, ApiError { code: "bootstrap_unavailable", message: "bootstrap token is not configured" }),
        );
    }
    if !authorize_bootstrap(authorization, bootstrap_token_hash, now) {
        return Err(
            (
                401,
                ApiError {
                    code: "unauthorized",
                    message: "valid bootstrap bearer authentication is required",
                },
            ),
        );
    }
    if !valid_text(request.name.as_str(), 200) || !valid_text(request.initial_token_name.as_str(), 120) {
        return Err(
            (
                400,
                ApiError {
                    code: "invalid_control_input",
                    message: "project and token names must be non-empty and within their limits",
                },
            ),
        );
    }
    Ok(())
}

/// A provisioned project and its first administrator token.
pub fn created_project_response(
    project_id: u128,
    token_id: u128,
    request: CreateProjectRequest,
    token: String,
    token_prefix: String,
) -> (r: CreatedProjectResponse)
    ensures
        r.project.project_id@ == uuid_hyphenated(project_id),
        r.project.name == request.name,
        r.initial_token.token_id@ == uuid_hyphenated(token_id),
        r.initial_token.name == request.initial_token_name,
        r.initial_token.token == token,
        r.initial_token.token_prefix == token_prefix,
        r.initial_token.scopes@.len() == 1,
        r.initial_token.scopes@[0]@ == "project:admin"@,
        r.initial_token.expires_at is None,
{
    let mut scopes: Vec<String> = Vec::new();
    scopes.push(owned("project:admin"));
    CreatedProjectResponse {
        project: ProjectResponse { project_id: uuid_text(project_id), name: request.name },
        initial_token: CreatedTokenResponse {
            token_id: uuid_text(token_id),
            name: request.initial_token_name,
            token_prefix,
            token,
            scopes,
            expires_at: None,
        },
    }
}

} // verus!
