//! Data model of the session/token authority: users, sessions, confirmations
//! and the request/response records of its public operations.

use vstd::prelude::*;

verus! {

/// The two-level role hierarchy. `User` is below `Admin`.
#[derive(Clone, Copy, Debug, PartialEq, Eq, Structural)]
pub enum AccessLevel {
    Admin,
    User,
}

impl Default for AccessLevel {
    fn default() -> (r: Self)
        ensures
            r == AccessLevel::User,
    {
        AccessLevel::User
    }
}

/// The numeric rank of a role; authorization is a comparison of ranks.
pub open spec fn role_level(role: AccessLevel) -> int {
    match role {
        AccessLevel::User => 0,
        AccessLevel::Admin => 1,
    }
}

/// Whether role `a` satisfies a requirement of at least role `b`.
pub open spec fn role_ge(a: AccessLevel, b: AccessLevel) -> bool {
    role_level(a) >= role_level(b)
}

/// Decides `role_ge(a, b)` executably.
pub fn role_at_least(a: AccessLevel, b: AccessLevel) -> (r: bool)
    ensures
        r == role_ge(a, b),
{
    match a {
        AccessLevel::Admin => true,
        AccessLevel::User => matches!(b, AccessLevel::User),
    }
}

/// The role named by a wire code: `0` is `User`, `1` is `Admin`.
pub open spec fn spec_parse_role(code: int) -> AccessLevel {
    if code == 1 {
        AccessLevel::Admin
    } else {
        AccessLevel::User
    }
}

/// Parses a wire role code. Codes other than `0` and `1` are not roles.
pub fn parse_role(role: i32) -> (r: AccessLevel)
    requires
        role == 0 || role == 1,
    ensures
        r == spec_parse_role(role as int),
{
    match role {
        1 => AccessLevel::Admin,
        _ => AccessLevel::User,
    }
}

/// The wire code of a role: `User` is `0`, `Admin` is `1`.
pub open spec fn spec_role_code(role: AccessLevel) -> int {
    match role {
        AccessLevel::User => 0,
        AccessLevel::Admin => 1,
    }
}

/// Encodes a role as its wire code.
pub fn role_code(role: AccessLevel) -> (c: i32)
    ensures
        c == spec_role_code(role),
{
    match role {
        AccessLevel::User => 0,
        AccessLevel::Admin => 1,
    }
}

/// One login channel: an email address or a phone number.
#[derive(Debug)]
pub enum Login {
    Email(String),
    Phone(String),
}

/// A persisted user record.
#[derive(Debug)]
pub struct User {
    pub id: i32,
    pub phone: Option<String>,
    pub email: Option<String>,
    pub password: String,
    pub permissions: AccessLevel,
}

/// A user record as submitted for registration.
#[derive(Debug)]
pub struct NewUser {
    pub phone: Option<String>,
    pub email: Option<String>,
    pub password: String,
    pub permissions: AccessLevel,
}

/// A persisted session: a pair of opaque tokens bound to a user with an
/// absolute expiry, given in seconds since an arbitrary epoch.
#[derive(Debug)]
pub struct Session {
    pub id: i32,
    pub refresh_token: String,
    pub access_token: String,
    pub expires_at: u64,
    pub user_id: i32,
}

/// A session as submitted to the store.
#[derive(Debug)]
pub struct NewSession {
    pub refresh_token: String,
    pub access_token: String,
    pub expires_at: u64,
    pub user_id: i32,
}

/// A persisted single-use confirmation, binding a token to a user and exactly
/// one pending login channel.
#[derive(Debug)]
pub struct Confirmation {
    pub id: i32,
    pub token: String,
    pub phone: Option<String>,
    pub email: Option<String>,
    pub user_id: i32,
}

/// A confirmation as submitted to the store.
#[derive(Debug)]
pub struct NewConfirmation {
    pub token: String,
    pub phone: Option<String>,
    pub email: Option<String>,
    pub user_id: i32,
}

#[derive(Debug)]
pub struct LoginRequest {
    pub login: String,
    pub password: String,
}

/// The token pair returned by `login` and `refresh`.
#[derive(Debug)]
pub struct LoginResponse {
    pub access_token: String,
    pub refresh_token: String,
}

#[derive(Debug)]
pub struct RefreshRequest {
    pub refresh_token: String,
}

#[derive(Debug)]
pub struct UpdateUserRequest {
    pub user_id: String,
    pub role: AccessLevel,
}

/// The outcome of `validate`: whether the token names a live session, and the
/// current role of its user.
#[derive(Debug)]
pub struct ValidateTokenResponse {
    pub valid: bool,
    pub role: AccessLevel,
}

#[derive(Debug)]
pub struct ListUsersRequest {
    pub offset: Option<i64>,
    pub limit: Option<i64>,
}

#[derive(Debug)]
pub struct ListUsersResponse {
    pub users: Vec<User>,
}

/// Whether the option holds a string whose characters are `s`.
pub open spec fn opt_is(o: Option<String>, s: Seq<char>) -> bool {
    match o {
        Some(v) => v@ == s,
        None => false,
    }
}

/// Compares two strings by their characters.
pub fn string_eq(a: &String, b: &String) -> (r: bool)
    ensures
        r == (a@ == b@),
{
    a.eq(b)
}

/// Decides `opt_is(*o, s@)` executably.
pub fn opt_string_is(o: &Option<String>, s: &String) -> (r: bool)
    ensures
        r == opt_is(*o, s@),
{
    match o {
        Some(v) => v.eq(s),
        None => false,
    }
}

/// Copies a user record field by field.
pub fn clone_user(u: &User) -> (r: User)
    ensures
        r == *u,
{
    User {
        id: u.id,
        phone: u.phone.clone(),
        email: u.email.clone(),
        password: u.password.clone(),
        permissions: u.permissions,
    }
}

/// Copies a session record field by field.
pub fn clone_session(s: &Session) -> (r: Session)
    ensures
        r == *s,
{
    Session {
        id: s.id,
        refresh_token: s.refresh_token.clone(),
        access_token: s.access_token.clone(),
        expires_at: s.expires_at,
        user_id: s.user_id,
    }
}

/// Copies a confirmation record field by field.
pub fn clone_confirmation(c: &Confirmation) -> (r: Confirmation)
    ensures
        r == *c,
{
    Confirmation {
        id: c.id,
        token: c.token.clone(),
        phone: c.phone.clone(),
        email: c.email.clone(),
        user_id: c.user_id,
    }
}

/// Law: the role hierarchy gates correctly. A `User`-role caller never
/// satisfies an `Admin` requirement, and an `Admin`-role caller satisfies
/// every requirement.
pub proof fn lemma_role_gate(required: AccessLevel)
    ensures
        !role_ge(AccessLevel::User, AccessLevel::Admin),
        role_ge(AccessLevel::Admin, required),
{
}

} // verus!
