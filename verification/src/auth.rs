//! Hash-only bearer-token authentication policy.
use vstd::prelude::*;
use crate::digest::{sha256, sha256_digest};
use crate::text::{has_whitespace, is_ws, starts_with, strip_prefix, chars_of, has_char, str_eq};

verus! {

/// An instant on the UTC time line, in nanoseconds since the Unix epoch.
#[derive(Debug, Clone, Copy, PartialEq, Eq, PartialOrd, Ord, Hash, Structural)]
pub struct Timestamp {
    pub unix_nanos: i128,
}

impl Timestamp {
    /// The Unix epoch, 1970-01-01T00:00:00Z.
    pub fn unix_epoch() -> (t: Timestamp)
        ensures
            t.unix_nanos == 0,
    {
        Timestamp { unix_nanos: 0 }
    }

    pub fn from_unix_nanos(unix_nanos: i128) -> (t: Timestamp)
        ensures
            t.unix_nanos == unix_nanos,
    {
        Timestamp { unix_nanos }
    }
}

/// One stored API token: only the SHA-256 of the secret is kept.
#[derive(Debug, Clone, PartialEq, Eq)]
pub struct ApiTokenRecord {
    pub token_hash: [u8; 32],
    pub scopes: Vec<String>,
    pub expires_at: Option<Timestamp>,
    pub revoked_at: Option<Timestamp>,
}

/// Why a request was not authorized.
#[derive(Debug, Clone, Copy, PartialEq, Eq, Structural)]
pub enum AuthError {
    MissingBearer,
    InvalidBearer,
    UnknownToken,
    RevokedToken,
    ExpiredToken,
    MissingScope,
}

/// The digest under which a token is stored: SHA-256 of its UTF-8 bytes.
pub open spec fn token_digest(token: Seq<char>) -> Seq<u8> {
    sha256(vstd::utf8::encode_utf8(token))
}

/// Hashes a bearer secret for storage and lookup.
pub fn hash_token(token: &str) -> (h: [u8; 32])
    ensures
        h@ == token_digest(token@),
{
    sha256_digest(token.as_bytes())
}

/// The secret after the `Bearer ` scheme, if the header uses that scheme.
pub open spec fn bearer_secret(header: Seq<char>) -> Option<Seq<char>> {
    if starts_with(header, "Bearer "@) {
        Some(header.skip(7))
    } else {
        None
    }
}

/// A bearer secret is non-empty and holds no whitespace.
pub open spec fn well_formed_secret(token: Seq<char>) -> bool {
    token.len() > 0 && !(exists|i: int| 0 <= i < token.len() && is_ws(#[trigger] token[i]))
}

/// The position of the first record whose stored digest is `digest`.
pub open spec fn first_record_with(records: Seq<ApiTokenRecord>, digest: Seq<u8>) -> Option<int>
    decreases records.len(),
{
    if records.len() == 0 {
        None
    } else if records[0].token_hash@ == digest {
        Some(0)
    } else {
        match first_record_with(records.drop_first(), digest) {
            Some(i) => Some(i + 1),
            None => None,
        }
    }
}

/// `first_record_with` finds the earliest record holding the digest.
pub proof fn lemma_first_record_with(records: Seq<ApiTokenRecord>, digest: Seq<u8>)
    ensures
        match first_record_with(records, digest) {
            Some(i) => 0 <= i < records.len() && records[i].token_hash@ == digest && forall|
                j: int,
            | 0 <= j < i ==> records[j].token_hash@ != digest,
            None => forall|j: int| 0 <= j < records.len() ==> records[j].token_hash@ != digest,
        },
    decreases records.len(),
{
    if records.len() > 0 && records[0].token_hash@ != digest {
        let rest = records.drop_first();
        lemma_first_record_with(rest, digest);
        assert forall|j: int| 0 < j < records.len() implies records[j] == rest[j - 1] by {}
    }
}

/// One of `scopes` equals `scope`.
pub open spec fn scope_listed(scopes: Seq<String>, scope: Seq<char>) -> bool {
    exists|j: int| 0 <= j < scopes.len() && #[trigger] scopes[j]@ == scope
}

/// A record grants a scope when one of its scopes equals it.
pub open spec fn grants(record: ApiTokenRecord, scope: Seq<char>) -> bool {
    scope_listed(record.scopes@, scope)
}

/// Whether `scopes` lists `scope`.
pub fn lists_scope(scopes: &Vec<String>, scope: &str) -> (r: bool)
    ensures
        r == scope_listed(scopes@, scope@),
{
    let mut j: usize = 0;
    while j < scopes.len()
        invariant
            j <= scopes@.len(),
            forall|k: int| 0 <= k < j ==> scopes@[k]@ != scope@,
        decreases scopes@.len() - j,
    {
        if str_eq(scopes[j].as_str(), scope) {
            assert(scopes@[j as int]@ == scope@);
            return true;
        }
        j = j + 1;
    }
    false
}

/// The principal of an authenticated request: the project its token belongs
/// to and the scopes the token grants.
#[derive(Debug, Clone, PartialEq, Eq)]
pub struct AuthenticatedToken {
    pub project_id: u128,
    pub scopes: Vec<String>,
}

/// The scope that administers a project.
pub open spec fn admin_scope() -> Seq<char> {
    "project:admin"@
}

/// A principal administers `project_id` when its token belongs to that project
/// and grants `project:admin`.
pub open spec fn administers(principal: Option<AuthenticatedToken>, project_id: u128) -> bool {
    principal matches Some(p) && p.project_id == project_id && scope_listed(p.scopes@, admin_scope())
}

/// Whether the caller may administer `project_id`.
pub fn project_admin(principal: Option<&AuthenticatedToken>, project_id: u128) -> (r: bool)
    ensures
        r == administers(
            match principal {
                Some(p) => Some(*p),
                None => None,
            },
            project_id,
        ),
{
    match principal {
        Some(p) => p.project_id == project_id && lists_scope(&p.scopes, "project:admin"),
        None => false,
    }
}

/// The outcome of authorizing a request: the index of the matching record, or
/// the first check that failed, in the order the policy applies them.
pub open spec fn authorization(
    header: Option<Seq<char>>,
    records: Seq<ApiTokenRecord>,
    required_scope: Seq<char>,
    now: int,
) -> Result<int, AuthError> {
    match header {
        None => Err(AuthError::MissingBearer),
        Some(h) => match bearer_secret(h) {
            None => Err(AuthError::InvalidBearer),
            Some(token) => if !well_formed_secret(token) {
                Err(AuthError::InvalidBearer)
            } else {
                match first_record_with(records, token_digest(token)) {
                    None => Err(AuthError::UnknownToken),
                    Some(i) => {
                        let record = records[i];
                        if record.revoked_at is Some {
                            Err(AuthError::RevokedToken)
                        } else if record.expires_at matches Some(expiry) && expiry.unix_nanos
                            <= now {
                            Err(AuthError::ExpiredToken)
                        } else if !grants(record, required_scope) {
                            Err(AuthError::MissingScope)
                        } else {
                            Ok(i)
                        }
                    },
                }
            },
        },
    }
}

pub open spec fn opt_view(s: Option<&str>) -> Option<Seq<char>> {
    match s {
        Some(t) => Some(t@),
        None => None,
    }
}

/// Compares two digests without an early exit.
fn constant_time_eq(left: &[u8; 32], right: &[u8; 32]) -> (r: bool)
    ensures
        r == (left@ == right@),
{
    let mut difference: u8 = 0;
    let mut i: usize = 0;
    while i < 32
        invariant
            i <= 32,
            left@.len() == 32,
            right@.len() == 32,
            (difference == 0) == (forall|j: int| 0 <= j < i ==> left@[j] == right@[j]),
        decreases 32 - i,
    {
        let a = left[i];
        let b = right[i];
        let x = a ^ b;
        assert((x == 0) == (a == b)) by (bit_vector)
            requires
                x == a ^ b,
        ;
        let d = difference | x;
        assert((d == 0) == (difference == 0 && x == 0)) by (bit_vector)
            requires
                d == difference | x,
        ;
        difference = d;
        i = i + 1;
    }
    if difference == 0 {
        assert(left@ =~= right@);
    }
    difference == 0
}

/// Whether a record lists `scope` among its scopes.
pub fn has_scope(record: &ApiTokenRecord, scope: &str) -> (r: bool)
    ensures
        r == grants(*record, scope@),
{
    lists_scope(&record.scopes, scope)
}

/// The position of the record that authorizes a bearer header, after its
/// lifecycle and scope are checked.
fn authorized_index(
    authorization: Option<&str>,
    records: &[ApiTokenRecord],
    required_scope: &str,
    now: Timestamp,
) -> (r: Result<usize, AuthError>)
    ensures
        match crate::auth::authorization(
            opt_view(authorization),
            records@,
            required_scope@,
            now.unix_nanos as int,
        ) {
            Ok(i) => r matches Ok(k) && k == i && 0 <= i < records@.len(),
            Err(e) => r == Err::<usize, AuthError>(e),
        },
{
    proof {
        reveal_strlit("Bearer ");
    }
    let header = match authorization {
        None => return Err(AuthError::MissingBearer),
        Some(h) => h,
    };
    let token = match strip_prefix(header, "Bearer ") {
        None => return Err(AuthError::InvalidBearer),
        Some(t) => t,
    };
    assert(bearer_secret(header@) == Some(token@));
    if token.unicode_len() == 0 || has_whitespace(token) {
        return Err(AuthError::InvalidBearer);
    }
    let hash = hash_token(token);
    let mut i: usize = 0;
    while i < records.len()
        invariant
            i <= records@.len(),
            hash@ == token_digest(token@),
            forall|j: int| 0 <= j < i ==> records@[j].token_hash@ != hash@,
        ensures
            i <= records@.len(),
            forall|j: int| 0 <= j < i ==> records@[j].token_hash@ != hash@,
            i == records@.len() || records@[i as int].token_hash@ == hash@,
        decreases records@.len() - i,
    {
        if constant_time_eq(&records[i].token_hash, &hash) {
            break;
        }
        i = i + 1;
    }
    if i == records.len() {
        proof {
            lemma_first_record_with(records@, hash@);
        }
        return Err(AuthError::UnknownToken);
    }
    let record = &records[i];
    proof {
        lemma_first_record_with(records@, hash@);
        match first_record_with(records@, hash@) {
            Some(k) => {
                if k < i {
                } else if k > i {
                }
            },
            None => {},
        }
    }
    assert(first_record_with(records@, hash@) == Some(i as int));
    if record.revoked_at.is_some() {
        return Err(AuthError::RevokedToken);
    }
    match record.expires_at {
        Some(expiry) => {
            if expiry.unix_nanos <= now.unix_nanos {
                return Err(AuthError::ExpiredToken);
            }
        },
        None => {},
    }
    if !has_scope(record, required_scope) {
        return Err(AuthError::MissingScope);
    }
    Ok(i)
}

/// Authenticates a bearer header against stored token digests and checks the
/// lifecycle and scope of the matching record.
pub fn authorize<'a>(
    authorization: Option<&str>,
    records: &'a [ApiTokenRecord],
    required_scope: &str,
    now: Timestamp,
) -> (r: Result<&'a ApiTokenRecord, AuthError>)
    ensures
        match crate::auth::authorization(
            opt_view(authorization),
            records@,
            required_scope@,
            now.unix_nanos as int,
        ) {
            Ok(i) => r matches Ok(record) && *record == records@[i],
            Err(e) => r == Err::<&ApiTokenRecord, AuthError>(e),
        },
{
    match authorized_index(authorization, records, required_scope, now) {
        Ok(i) => Ok(&records[i]),
        Err(e) => Err(e),
    }
}

/// The principal of a request, from the stored tokens that could match it:
/// `projects[i]` is the project of `records[i]`.
pub fn authenticate(
    authorization: Option<&str>,
    records: &[ApiTokenRecord],
    projects: &[u128],
    required_scope: &str,
    now: Timestamp,
) -> (r: Result<AuthenticatedToken, AuthError>)
    requires
        projects@.len() == records@.len(),
    ensures
        match crate::auth::authorization(
            opt_view(authorization),
            records@,
            required_scope@,
            now.unix_nanos as int,
        ) {
            Ok(i) => r matches Ok(p) && p.project_id == projects@[i] && p.scopes@ == records@[i].scopes@,
            Err(e) => r == Err::<AuthenticatedToken, AuthError>(e),
        },
{
    match authorized_index(authorization, records, required_scope, now) {
        Ok(i) => Ok(AuthenticatedToken { project_id: projects[i], scopes: records[i].scopes.clone() }),
        Err(e) => Err(e),
    }
}

/// The digest of the secret a header presents, where it presents a
/// well-formed bearer secret; stored tokens are looked up by it.
pub fn presented_digest(authorization: Option<&str>) -> (r: Option<[u8; 32]>)
    ensures
        match opt_view(authorization) {
            Some(h) => match bearer_secret(h) {
                Some(token) => if well_formed_secret(token) {
                    r matches Some(d) && d@ == token_digest(token)
                } else {
                    r is None
                },
                None => r is None,
            },
            None => r is None,
        },
{
    proof {
        reveal_strlit("Bearer ");
    }
    let header = match authorization {
        None => return None,
        Some(h) => h,
    };
    let token = match strip_prefix(header, "Bearer ") {
        None => return None,
        Some(t) => t,
    };
    assert(bearer_secret(header@) == Some(token@));
    if token.unicode_len() == 0 || has_whitespace(token) {
        return None;
    }
    Some(hash_token(token))
}

/// A request is only ever authorized by an unrevoked, unexpired record that
/// stores the digest of the presented secret and grants the required scope.
pub proof fn authorized_record_is_valid(
    header: Option<Seq<char>>,
    records: Seq<ApiTokenRecord>,
    required_scope: Seq<char>,
    now: int,
)
    requires
        authorization(header, records, required_scope, now) is Ok,
    ensures
        ({
            let i = authorization(header, records, required_scope, now)->Ok_0;
            &&& 0 <= i < records.len()
            &&& header matches Some(h) && bearer_secret(h) matches Some(token)
                && records[i].token_hash@ == token_digest(token)
            &&& records[i].revoked_at is None
            &&& (records[i].expires_at matches Some(e) ==> e.unix_nanos > now)
            &&& grants(records[i], required_scope)
        }),
{
    let h = header->Some_0;
    let token = bearer_secret(h)->Some_0;
    let digest = token_digest(token);
    lemma_first_record_with(records, digest);
}

/// A presented secret whose stored record is unrevoked, unexpired and lists
/// the required scope at any position among its scopes is authorized by that
/// record, the first one that stores the secret's digest.
pub proof fn valid_token_is_authorized(
    token: Seq<char>,
    records: Seq<ApiTokenRecord>,
    required_scope: Seq<char>,
    now: int,
    i: int,
    j: int,
)
    requires
        token.len() > 0,
        forall|k: int| 0 <= k < token.len() ==> !is_ws(#[trigger] token[k]),
        0 <= i < records.len(),
        records[i].token_hash@ == token_digest(token),
        forall|k: int| 0 <= k < i ==> #[trigger] records[k].token_hash@ != token_digest(token),
        records[i].revoked_at is None,
        records[i].expires_at matches Some(e) ==> e.unix_nanos > now,
        0 <= j < records[i].scopes@.len(),
        records[i].scopes@[j]@ == required_scope,
    ensures
        authorization(Some("Bearer "@ + token), records, required_scope, now) == Ok::<int, AuthError>(i),
{
    reveal_strlit("Bearer ");
    let header = "Bearer "@ + token;
    assert(header.subrange(0, 7) =~= "Bearer "@);
    assert(header.skip(7) =~= token);
    assert(bearer_secret(header) == Some(token));
    lemma_first_record_with(records, token_digest(token));
    assert(grants(records[i], required_scope));
}

/// A presented secret whose first matching record is revoked, expired or
/// lacks the required scope is refused for that reason, checked in that
/// order; a secret that no record stores is unknown.
pub proof fn token_refusals(token: Seq<char>, records: Seq<ApiTokenRecord>, required_scope: Seq<char>, now: int)
    requires
        token.len() > 0,
        forall|k: int| 0 <= k < token.len() ==> !is_ws(#[trigger] token[k]),
    ensures
        (forall|k: int| 0 <= k < records.len() ==> #[trigger] records[k].token_hash@ != token_digest(token))
            ==> authorization(Some("Bearer "@ + token), records, required_scope, now) == Err::<int, AuthError>(
            AuthError::UnknownToken,
        ),
        forall|i: int|
            0 <= i < records.len() && #[trigger] records[i].token_hash@ == token_digest(token) && (forall|
                k: int,
            | 0 <= k < i ==> #[trigger] records[k].token_hash@ != token_digest(token)) ==> {
                let r = authorization(Some("Bearer "@ + token), records, required_scope, now);
                &&& records[i].revoked_at is Some ==> r == Err::<int, AuthError>(AuthError::RevokedToken)
                &&& records[i].revoked_at is None && (records[i].expires_at matches Some(e) && e.unix_nanos
                    <= now) ==> r == Err::<int, AuthError>(AuthError::ExpiredToken)
                &&& records[i].revoked_at is None && !(records[i].expires_at matches Some(e) && e.unix_nanos
                    <= now) && (forall|j: int| 0 <= j < records[i].scopes@.len() ==> #[trigger] records[i].scopes@[j]@
                    != required_scope) ==> r == Err::<int, AuthError>(AuthError::MissingScope)
            },
{
    reveal_strlit("Bearer ");
    let header = "Bearer "@ + token;
    assert(header.subrange(0, 7) =~= "Bearer "@);
    assert(header.skip(7) =~= token);
    assert(bearer_secret(header) == Some(token));
    lemma_first_record_with(records, token_digest(token));
    assert forall|i: int|
        0 <= i < records.len() && #[trigger] records[i].token_hash@ == token_digest(token) && (forall|k: int|
            0 <= k < i ==> #[trigger] records[k].token_hash@ != token_digest(token)) implies first_record_with(
        records,
        token_digest(token),
    ) == Some(i) by {
        let f = first_record_with(records, token_digest(token));
        if f is Some {
            let m = f->Some_0;
            if m < i {
            } else if m > i {
            }
        }
    }
}

} // verus!
