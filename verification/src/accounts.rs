//! Interactive accounts and workspaces: input rules, slugs, credentials.
use vstd::prelude::*;
use crate::text::{
    trim, lower, lower_char, is_ascii_alnum, byte_len, utf8_len, has_char, is_blank, str_eq, str_has_char,
    trim_str, to_ascii_lowercase, chars_of, string_from_chars, owned, push_text, push_char, to_lower_char,
    is_alnum,
};
use crate::http_policy::ApiError;
use crate::ids::{uuid_text, uuid_hyphenated};
use crate::instant::{OffsetInstant, format_rfc3339, rfc3339_format, rfc3339_text};
use argon2::{Argon2, PasswordHash, PasswordHasher, PasswordVerifier};
use password_hash::{SaltString, rand_core::OsRng};

verus! {

/// Sessions last fourteen days.
pub const SESSION_DAYS: i64 = 14;

/// Invitations last seven days.
pub const INVITATION_DAYS: i64 = 7;

/// A registration request.
#[derive(Debug, Clone, PartialEq, Eq)]
pub struct RegisterRequest {
    pub email: String,
    pub display_name: String,
    pub password: String,
    pub workspace_name: String,
}

/// A login request.
#[derive(Debug, Clone, PartialEq, Eq)]
pub struct LoginRequest {
    pub email: String,
    pub password: String,
}

/// A request for a new workspace.
#[derive(Debug, Clone, PartialEq, Eq)]
pub struct CreateWorkspaceRequest {
    pub name: String,
}

/// A request to invite someone to a workspace.
#[derive(Debug, Clone, PartialEq, Eq)]
pub struct CreateInvitationRequest {
    pub email: String,
    pub role: String,
}

/// A request to accept an invitation by its secret.
#[derive(Debug, Clone, PartialEq, Eq)]
pub struct AcceptInvitationRequest {
    pub token: String,
}

/// A request to change a member's role.
#[derive(Debug, Clone, PartialEq, Eq)]
pub struct UpdateMemberRoleRequest {
    pub role: String,
}

/// A request for a project inside a workspace.
#[derive(Debug, Clone, PartialEq, Eq)]
pub struct CreateWorkspaceProjectRequest {
    pub name: String,
    pub initial_token_name: String,
}

/// A user, as shown to that user.
#[derive(Debug, Clone, PartialEq, Eq)]
pub struct UserResponse {
    pub user_id: String,
    pub email: String,
    pub display_name: String,
}

/// A workspace and the caller's role in it.
#[derive(Debug, Clone, PartialEq, Eq)]
pub struct WorkspaceResponse {
    pub workspace_id: String,
    pub name: String,
    pub slug: String,
    pub role: String,
}

/// A new session.
#[derive(Debug, Clone, PartialEq, Eq)]
pub struct SessionResponse {
    pub user: UserResponse,
    pub access_token: String,
    pub expires_at: String,
    pub workspace: WorkspaceResponse,
}

/// One member of a workspace.
#[derive(Debug, Clone, PartialEq, Eq)]
pub struct MemberResponse {
    pub user_id: String,
    pub email: String,
    pub display_name: String,
    pub role: String,
    pub joined_at: String,
}

/// A new invitation.
#[derive(Debug, Clone, PartialEq, Eq)]
pub struct InvitationResponse {
    pub invitation_id: String,
    pub email: String,
    pub role: String,
    pub expires_at: String,
    /// Returned only at creation, so that an email service may deliver it.
    pub invitation_token: String,
}

/// A project created inside a workspace, with its first token.
#[derive(Debug, Clone, PartialEq, Eq)]
pub struct WorkspaceProjectResponse {
    pub project_id: String,
    pub name: String,
    pub initial_token: String,
    pub token_prefix: String,
}

/// One entry of a workspace's audit log.
#[derive(Debug, Clone, PartialEq, Eq)]
pub struct AuditRecordResponse {
    pub audit_id: String,
    pub action: String,
    pub target_type: String,
    pub target_id: Option<String>,
    pub created_at: String,
}

/// A text that is not blank and has at most `max` bytes.
pub open spec fn account_text_valid(value: Seq<char>, max: nat) -> bool {
    trim(value).len() != 0 && byte_len(value) <= max
}

/// Whether `value` is a usable name of at most `max` bytes.
pub fn valid_text(value: &str, max: usize) -> (b: bool)
    ensures
        b == account_text_valid(value@, max as nat),
{
    !is_blank(value) && utf8_len(value) <= max
}

/// The position of the last `@` in `s`, if any.
pub open spec fn last_at(s: Seq<char>) -> Option<int>
    decreases s.len(),
{
    if s.len() == 0 {
        None
    } else if s.last() == '@' {
        Some(s.len() - 1)
    } else {
        last_at(s.drop_last())
    }
}

/// An email address of at most 320 bytes whose domain, after the last `@`,
/// contains a dot.
pub open spec fn email_valid(value: Seq<char>) -> bool {
    byte_len(value) <= 320 && (last_at(value) matches Some(i) && has_char(
        value.subrange(i + 1, value.len() as int),
        '.',
    ))
}

proof fn lemma_last_at(s: Seq<char>)
    ensures
        last_at(s) matches Some(i) ==> 0 <= i < s.len() && s[i] == '@' && forall|j: int|
            i < j < s.len() ==> s[j] != '@',
        last_at(s) is None ==> forall|j: int| 0 <= j < s.len() ==> s[j] != '@',
    decreases s.len(),
{
    if s.len() > 0 && s.last() != '@' {
        lemma_last_at(s.drop_last());
        assert forall|j: int| 0 <= j < s.len() - 1 implies s.drop_last()[j] == s[j] by {}
    }
}

/// Whether `value` looks like a deliverable email address.
pub fn valid_email(value: &str) -> (b: bool)
    ensures
        b == email_valid(value@),
{
    if utf8_len(value) > 320 {
        return false;
    }
    let chars = chars_of(value);
    proof {
        lemma_last_at(value@);
    }
    let mut i: usize = chars.len();
    while i > 0
        invariant
            chars@ == value@,
            byte_len(value@) <= 320,
            i <= chars@.len(),
            forall|j: int| i <= j < chars@.len() ==> chars@[j] != '@',
            last_at(value@) matches Some(k) ==> 0 <= k < value@.len() && value@[k] == '@' && forall|
                j: int,
            | k < j < value@.len() ==> value@[j] != '@',
            last_at(value@) is None ==> forall|j: int| 0 <= j < value@.len() ==> value@[j] != '@',
        decreases i,
    {
        if chars[i - 1] == '@' {
            assert(last_at(value@) == Some((i - 1) as int));
            let mut k: usize = i;
            while k < chars.len()
                invariant
                    chars@ == value@,
                    byte_len(value@) <= 320,
                    1 <= i <= k <= chars@.len(),
                    last_at(value@) == Some((i - 1) as int),
                    forall|j: int| i <= j < k ==> chars@[j] != '.',
                decreases chars@.len() - k,
            {
                if chars[k] == '.' {
                    assert(value@.subrange(i as int, value@.len() as int)[k - i] == '.');
                    return true;
                }
                k = k + 1;
            }
            assert forall|j: int|
                0 <= j < value@.subrange(i as int, value@.len() as int).len() implies value@.subrange(
                i as int,
                value@.len() as int,
            )[j] != '.' by {
                assert(value@.subrange(i as int, value@.len() as int)[j] == chars@[i + j]);
            }
            return false;
        }
        i = i - 1;
    }
    false
}

/// An email address as stored: trimmed and ASCII-lowercased.
pub fn normalize_email(value: &str) -> (r: String)
    ensures
        r@ == lower(trim(value@)),
{
    to_ascii_lowercase(trim_str(value))
}

/// A password of at least 12 characters and at most 256 bytes.
pub open spec fn password_valid(value: Seq<char>) -> bool {
    12 <= value.len() && byte_len(value) <= 256
}

/// Whether a password meets the length policy.
pub fn valid_password(value: &str) -> (b: bool)
    ensures
        b == password_valid(value@),
{
    12 <= value.unicode_len() && utf8_len(value) <= 256
}

/// The slug character of one name character: lowercase ASCII letters and
/// digits are kept, everything else becomes `-`.
pub open spec fn slug_char(c: char) -> char {
    if is_ascii_alnum(c) {
        lower_char(c)
    } else {
        '-'
    }
}

/// Leading and trailing `-` removed.
pub open spec fn trim_dashes(s: Seq<char>) -> Seq<char>
    decreases s.len(),
{
    if s.len() == 0 {
        s
    } else if s[0] == '-' {
        trim_dashes(s.drop_first())
    } else if s.last() == '-' {
        trim_dashes(s.drop_last())
    } else {
        s
    }
}

/// The slug of a workspace: its name's slug characters, without leading or
/// trailing dashes, cut at 65 characters (`workspace` if nothing is left),
/// then `-` and the first eight characters of the workspace id.
pub open spec fn slug_for(name: Seq<char>, id: u128) -> Seq<char> {
    let base = trim_dashes(name.map_values(|c: char| slug_char(c)));
    let head = if base.len() == 0 {
        "workspace"@
    } else if base.len() <= 65 {
        base
    } else {
        base.subrange(0, 65)
    };
    head + seq!['-'] + uuid_hyphenated(id).subrange(0, 8)
}

proof fn lemma_trim_dashes_of_window(s: Seq<char>, a: int, b: int)
    requires
        0 <= a <= b <= s.len(),
        forall|j: int| 0 <= j < a ==> s[j] == '-',
        forall|j: int| b <= j < s.len() ==> s[j] == '-',
        a < b ==> s[a] != '-' && s[b - 1] != '-',
    ensures
        trim_dashes(s) == s.subrange(a, b),
    decreases s.len(),
{
    if s.len() == 0 {
    } else if s[0] == '-' {
        if a == 0 {
            // then a == b and everything is a dash
            assert(a == b);
            lemma_trim_dashes_of_window(s.drop_first(), 0, 0);
            assert(s.drop_first().subrange(0, 0) == s.subrange(0, 0));
        } else {
            lemma_trim_dashes_of_window(s.drop_first(), a - 1, b - 1);
            assert(s.drop_first().subrange(a - 1, b - 1) == s.subrange(a, b));
        }
    } else if s.last() == '-' {
        if b == s.len() {
            assert(a == b);
            lemma_trim_dashes_of_window(s.drop_last(), a - 0, a - 0);
            assert(s.drop_last().subrange(a, a) == s.subrange(a, b));
        } else {
            lemma_trim_dashes_of_window(s.drop_last(), a, b);
            assert(s.drop_last().subrange(a, b) == s.subrange(a, b));
        }
    } else {
        assert(a == 0 && b == s.len());
        assert(s.subrange(0, s.len() as int) == s);
    }
}

/// A workspace slug that stays unique by ending in its id's first eight
/// characters.
pub fn unique_slug(name: &str, id: u128) -> (slug: String)
    ensures
        slug@ == slug_for(name@, id),
{
    let chars = chars_of(name);
    let mut mapped: Vec<char> = Vec::new();
    let mut i: usize = 0;
    while i < chars.len()
        invariant
            chars@ == name@,
            i <= chars@.len(),
            mapped@ == name@.map_values(|c: char| slug_char(c)).subrange(0, i as int),
        decreases chars@.len() - i,
    {
        let c = chars[i];
        let m = if is_alnum(c) {
            to_lower_char(c)
        } else {
            '-'
        };
        mapped.push(m);
        i = i + 1;
    }
    let ghost full = name@.map_values(|c: char| slug_char(c));
    assert(mapped@ == full);
    let mut a: usize = 0;
    while a < mapped.len() && mapped[a] == '-'
        invariant
            mapped@ == full,
            a <= mapped@.len(),
            forall|j: int| 0 <= j < a ==> full[j] == '-',
        decreases mapped@.len() - a,
    {
        a = a + 1;
    }
    let mut b: usize = mapped.len();
    while b > a && mapped[b - 1] == '-'
        invariant
            mapped@ == full,
            a <= b <= mapped@.len(),
            forall|j: int| b <= j < mapped@.len() ==> full[j] == '-',
        decreases b - a,
    {
        b = b - 1;
    }
    proof {
        lemma_trim_dashes_of_window(full, a as int, b as int);
    }
    let mut out = String::new();
    if a == b {
        push_text(&mut out, "workspace");
    } else {
        let end: usize = if b - a <= 65 {
            b
        } else {
            a + 65
        };
        let mut k: usize = a;
        while k < end
            invariant
                mapped@ == full,
                a <= k <= end <= b <= mapped@.len(),
                out@ == full.subrange(a as int, k as int),
            decreases end - k,
        {
            push_char(&mut out, mapped[k]);
            k = k + 1;
        }
        assert(full.subrange(a as int, b as int).subrange(0, (end - a) as int) == full.subrange(
            a as int,
            end as int,
        ));
    }
    push_char(&mut out, '-');
    let id_text = uuid_text(id);
    proof {
        lemma_uuid_text_len(id);
    }
    let head = id_text.as_str().substring_char(0, 8);
    push_text(&mut out, head);
    out
}

proof fn lemma_uuid_text_len(id: u128)
    ensures
        uuid_hyphenated(id).len() == 36,
{
    crate::ids::lemma_hex_fixed_len(id as nat, 32);
}

/// Whether `password` matches a stored Argon2 PHC string, as
/// `Argon2::default().verify_password` decides.
pub uninterp spec fn argon2_verifies(password: Seq<char>, stored: Seq<char>) -> bool;

/// `Argon2::default().hash_password` with a fresh random salt, as a PHC string.
///
/// Trusted: the salt is random, so nothing is stated of the text but that the
/// same default Argon2 verifies `password` against it, as the crate's
/// `PasswordVerifier` recomputes the hash with the stored salt and parameters.
#[verifier::external_body]
pub fn hash_password(password: &str) -> (r: Result<String, ()>)
    ensures
        r matches Ok(stored) ==> argon2_verifies(password@, stored@),
{
    let salt = SaltString::generate(&mut OsRng);
    Argon2::default().hash_password(password.as_bytes(), &salt).map(|hash| hash.to_string()).map_err(
        |_| (),
    )
}

/// `Argon2::default().verify_password` against a stored PHC string; a string
/// that does not parse verifies nothing.
///
/// Trusted: the result is the crate's verdict on exactly these two texts.
#[verifier::external_body]
pub fn verify_password(password: &str, stored: &str) -> (b: bool)
    ensures
        b == argon2_verifies(password@, stored@),
{
    PasswordHash::new(stored).ok().is_some_and(
        |hash| Argon2::default().verify_password(password.as_bytes(), &hash).is_ok(),
    )
}

/// A user, as shown to that user.
pub fn user_response(user_id: u128, email: &str, display_name: &str) -> (r: UserResponse)
    ensures
        r.user_id@ == uuid_hyphenated(user_id),
        r.email@ == email@,
        r.display_name@ == display_name@,
{
    UserResponse { user_id: uuid_text(user_id), email: owned(email), display_name: owned(display_name) }
}

/// A workspace and the caller's role in it.
pub fn workspace_response(workspace_id: u128, name: &str, slug: String, role: &str) -> (r:
    WorkspaceResponse)
    ensures
        r.workspace_id@ == uuid_hyphenated(workspace_id),
        r.name@ == name@,
        r.slug == slug,
        r.role@ == role@,
{
    WorkspaceResponse {
        workspace_id: uuid_text(workspace_id),
        name: owned(name),
        slug,
        role: owned(role),
    }
}

/// The refusal of invalid account input, with its explanation.
pub open spec fn is_bad_request(r: (u16, ApiError), message: Seq<char>) -> bool {
    r.0 == 400 && r.1.code@ == "invalid_account_input"@ && r.1.message@ == message
}

/// The explanation given for a refused registration.
pub open spec fn registration_message() -> Seq<char> {
    "registration requires a valid email, name, workspace name, and a password of at least 12 characters"@
}

/// A registration needs a valid email, display and workspace names of at most
/// 120 bytes, and a password of 12 to 256 bytes.
pub open spec fn registration_valid(request: RegisterRequest) -> bool {
    &&& email_valid(request.email@)
    &&& account_text_valid(request.display_name@, 120)
    &&& account_text_valid(request.workspace_name@, 120)
    &&& password_valid(request.password@)
}

/// Checks a registration before anything is stored.
pub fn check_registration(request: &RegisterRequest) -> (r: Result<(), (u16, ApiError)>)
    ensures
        r is Ok <==> registration_valid(*request),
        r matches Err(e) ==> is_bad_request(e, registration_message()),
{
    if !valid_email(request.email.as_str()) || !valid_text(request.display_name.as_str(), 120)
        || !valid_text(request.workspace_name.as_str(), 120) || !valid_password(
        request.password.as_str(),
    ) {
        return Err(
            (
                400,
                ApiError {
                    code: "invalid_account_input",
                    message: "registration requires a valid email, name, workspace name, and a password of at least 12 characters",
                },
            ),
        );
    }
    Ok(())
}

/// The roles an invitation or a role change may grant: never `owner`.
pub open spec fn assignable_role(role: Seq<char>) -> bool {
    role == "admin"@ || role == "developer"@ || role == "viewer"@
}

/// Whether `role` may be granted by an invitation or a role change.
pub fn is_assignable_role(role: &str) -> (b: bool)
    ensures
        b == assignable_role(role@),
{
    str_eq(role, "admin") || str_eq(role, "developer") || str_eq(role, "viewer")
}

/// Checks an invitation request: a valid email and a non-owner role.
pub fn check_invitation(request: &CreateInvitationRequest) -> (r: Result<(), (u16, ApiError)>)
    ensures
        r is Ok <==> (email_valid(request.email@) && assignable_role(request.role@)),
        r matches Err(e) ==> is_bad_request(e, "invitation requires an email and a non-owner role"@),
{
    if !valid_email(request.email.as_str()) || !is_assignable_role(request.role.as_str()) {
        return Err(
            (
                400,
                ApiError {
                    code: "invalid_account_input",
                    message: "invitation requires an email and a non-owner role",
                },
            ),
        );
    }
    Ok(())
}

/// Checks a role change: only non-owner roles may be assigned.
pub fn check_role_update(request: &UpdateMemberRoleRequest) -> (r: Result<(), (u16, ApiError)>)
    ensures
        r is Ok <==> assignable_role(request.role@),
        r matches Err(e) ==> is_bad_request(
            e,
            "only admin, developer, and viewer roles may be assigned"@,
        ),
{
    if !is_assignable_role(request.role.as_str()) {
        return Err(
            (
                400,
                ApiError {
                    code: "invalid_account_input",
                    message: "only admin, developer, and viewer roles may be assigned",
                },
            ),
        );
    }
    Ok(())
}

/// Checks a workspace request: a name of at most 120 bytes.
pub fn check_workspace(request: &CreateWorkspaceRequest) -> (r: Result<(), (u16, ApiError)>)
    ensures
        r is Ok <==> account_text_valid(request.name@, 120),
        r matches Err(e) ==> is_bad_request(e, "workspace name is required"@),
{
    if !valid_text(request.name.as_str(), 120) {
        return Err((400, ApiError { code: "invalid_account_input", message: "workspace name is required" }));
    }
    Ok(())
}

/// Checks a workspace project request: a name of at most 200 bytes and a
/// token name of at most 120.
pub fn check_workspace_project(request: &CreateWorkspaceProjectRequest) -> (r: Result<
    (),
    (u16, ApiError),
>)
    ensures
        r is Ok <==> (account_text_valid(request.name@, 200) && account_text_valid(
            request.initial_token_name@,
            120,
        )),
        r matches Err(e) ==> is_bad_request(e, "project and token names are required"@),
{
    if !valid_text(request.name.as_str(), 200) || !valid_text(request.initial_token_name.as_str(), 120) {
        return Err(
            (400, ApiError { code: "invalid_account_input", message: "project and token names are required" }),
        );
    }
    Ok(())
}

/// Whether a member's role is one of `allowed`; a non-member has none.
pub fn role_allows(role: Option<&str>, allowed: &Vec<&str>) -> (b: bool)
    ensures
        b == (role matches Some(r) && exists|i: int| 0 <= i < allowed@.len() && #[trigger] allowed@[i]@ == r@),
{
    let r = match role {
        Some(r) => r,
        None => {
            return false;
        },
    };
    let mut i: usize = 0;
    while i < allowed.len()
        invariant
            role == Some(r),
            i <= allowed@.len(),
            forall|j: int| 0 <= j < i ==> allowed@[j]@ != r@,
        decreases allowed@.len() - i,
    {
        if str_eq(allowed[i], r) {
            assert(allowed@[i as int]@ == r@);
            return true;
        }
        i = i + 1;
    }
    false
}

/// The end of a validity period of `days` days starting at `start`.
pub fn expiry_after_days(start: OffsetInstant, days: i64) -> (end: OffsetInstant)
    requires
        crate::instant::well_ranged(start),
    ensures
        end.unix_nanos == start.unix_nanos + days * 86_400_000_000_000,
        end.offset_seconds == start.offset_seconds,
{
    let d = days as i128;
    assert(-800_000_000_000_000_000_000_000_000_000_000 <= d * 86_400_000_000_000
        <= 800_000_000_000_000_000_000_000_000_000_000) by (nonlinear_arith)
        requires
            -9_223_372_036_854_775_808 <= d <= 9_223_372_036_854_775_807,
    ;
    OffsetInstant {
        unix_nanos: start.unix_nanos + d * 86_400_000_000_000i128,
        offset_seconds: start.offset_seconds,
    }
}

/// The listing prefix of a workspace project token: its first 11 characters.
pub fn token_prefix(token: &str) -> (prefix: String)
    requires
        token@.len() >= 11,
    ensures
        prefix@ == token@.subrange(0, 11),
{
    owned(token.substring_char(0, 11))
}

} // verus!
