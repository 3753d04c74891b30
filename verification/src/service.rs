//! The session/token authority: registration with confirmation dispatch,
//! login, token validation, session rotation and role management, driven
//! against the credential store.

use vstd::prelude::*;

use rand::Rng;

use crate::errors::{Error, StoreError};
use crate::models::{
    opt_is, string_eq, AccessLevel, Confirmation, ListUsersRequest, ListUsersResponse, Login,
    LoginRequest, LoginResponse, NewSession, NewUser, RefreshRequest, Session, UpdateUserRequest,
    User, ValidateTokenResponse,
};
use crate::store::{
    confirmation_with_token, has_confirmation_with_token, has_pending_login,
    has_session_with_access, has_session_with_refresh, has_user_with_id, has_user_with_login,
    list_window, login_owned_by_other, session_with_access, session_with_refresh, spec_limit,
    spec_offset, stored_user, user_index_with_id, user_with_id, user_with_login, user_with_role,
    CredentialStore,
};
use crate::text::{int_string_value, is_i32_string, parse_i32};

verus! {

/// The bcrypt work factor used for password hashes.
pub const BCRYPT_COST: u32 = 10;

/// The outcome bcrypt reports when `password` is checked against `hash`.
/// It depends on the two arguments alone; a malformed hash counts as a
/// mismatch.
pub uninterp spec fn bcrypt_matches(password: Seq<char>, hash: Seq<char>) -> bool;

/// Relies on bcrypt::hash: the salted hash it returns is accepted by
/// bcrypt::verify for the same password.
#[verifier::external_body]
fn bcrypt_hash(password: &String, cost: u32) -> (r: Option<String>)
    ensures
        r matches Some(h) ==> bcrypt_matches(password@, h@),
{
    bcrypt::hash(password.as_str(), cost).ok()
}

/// Relies on bcrypt::verify: deterministic in password and hash; a
/// verification error (malformed hash) counts as a mismatch.
#[verifier::external_body]
fn bcrypt_check(password: &String, hash: &String) -> (r: bool)
    ensures
        r == bcrypt_matches(password@, hash@),
{
    bcrypt::verify(password.as_str(), hash.as_str()).unwrap_or(false)
}

/// A character of the token alphabet: ASCII letters and digits.
pub open spec fn is_token_char(c: char) -> bool {
    ('a' <= c && c <= 'z') || ('A' <= c && c <= 'Z') || ('0' <= c && c <= '9')
}

/// An opaque credential as the generator draws it: 32 characters from the
/// token alphabet.
pub open spec fn is_token_string(s: Seq<char>) -> bool {
    s.len() == 32 && (forall|i: int| 0 <= i < s.len() ==> is_token_char(s[i]))
}

/// Relies on rand's thread rng with the Alphanumeric distribution: 32
/// characters drawn from ASCII letters and digits, from a cryptographically
/// sound source.
#[verifier::external_body]
fn gen_token() -> (r: String)
    ensures
        r@.len() == 32,
        forall|i: int| 0 <= i < r@.len() ==> is_token_char(r@[i]),
{
    rand::thread_rng()
        .sample_iter(&rand::distributions::Alphanumeric)
        .take(32)
        .map(char::from)
        .collect()
}

/// The dispatch port: delivers a confirmation token for a login channel.
/// Delivery is fire-and-forget; the authority never fails a registration
/// over it.
pub trait ConfirmationsSender {
    fn send(&mut self, login: &Login, token: &String) -> (r: Result<(), Error>);
}

/// A registration request is acceptable when it names a login channel and a
/// non-empty password.
pub open spec fn valid_new_user(user: NewUser) -> bool {
    (user.email is Some || user.phone is Some) && user.password@.len() > 0
}

/// How many login channels a registration names.
pub open spec fn channel_count(user: NewUser) -> int {
    (if user.email is Some {
        1int
    } else {
        0int
    }) + (if user.phone is Some {
        1int
    } else {
        0int
    })
}

/// Whether a registration conflicts with a login that is already
/// registered: a named channel value is owned by a user, pending in a
/// confirmation, or supplied on both channels of the request at once.
pub open spec fn register_conflict(store: CredentialStore, user: NewUser) -> bool {
    ||| match user.email {
        Some(e) => has_user_with_login(store.users@, e@) || has_pending_login(
            store.confirmations@,
            e@,
        ),
        None => false,
    }
    ||| match user.phone {
        Some(p) => has_user_with_login(store.users@, p@) || has_pending_login(
            store.confirmations@,
            p@,
        ),
        None => false,
    }
    ||| (user.email matches Some(e) && user.phone matches Some(p) && e@ == p@)
}

/// The user table after a successful registration: one row appended, login
/// fields cleared, role pinned to the default, password replaced by a hash
/// that bcrypt accepts for the submitted password.
pub open spec fn registered_user_row(
    pre: CredentialStore,
    post: CredentialStore,
    user: NewUser,
) -> bool {
    exists|h: String|
        #![trigger bcrypt_matches(user.password@, h@)]
        bcrypt_matches(user.password@, h@) && post.users@ == pre.users@.push(
            stored_user(
                NewUser {
                    phone: None,
                    email: None,
                    password: h,
                    permissions: AccessLevel::User,
                },
                pre.next_user_id,
            ),
        ) && post.next_user_id == pre.next_user_id + 1
}

/// Whether `login` names a user whose stored hash accepts `password`.
pub open spec fn credentials_ok(users: Seq<User>, login: Seq<char>, password: Seq<char>) -> bool {
    has_user_with_login(users, login) && bcrypt_matches(
        password,
        user_with_login(users, login).password@,
    )
}

/// The pending login value a confirmation carries.
pub open spec fn conf_value(c: Confirmation) -> Seq<char> {
    match c.email {
        Some(e) => e@,
        None => match c.phone {
            Some(p) => p@,
            None => Seq::<char>::empty(),
        },
    }
}

/// The user row `u` after the confirmation `c` is redeemed: the confirmed
/// channel's login field is set to the pending value.
pub open spec fn apply_confirmation(u: User, c: Confirmation) -> User {
    match c.email {
        Some(e) => User { email: Some(e), ..u },
        None => match c.phone {
            Some(p) => User { phone: Some(p), ..u },
            None => u,
        },
    }
}

/// The session/token authority.
pub struct Service {
    /// Session lifetime in seconds.
    pub session_timeout: u32,
}

impl Service {
    /// Creates an authority issuing sessions of the given lifetime, in
    /// seconds.
    pub fn new(session_timeout: u32) -> (r: Service)
        ensures
            r.session_timeout == session_timeout,
    {
        Service { session_timeout }
    }

    /// Registers a user: validates the request, refuses logins that are
    /// already registered, then stores the user with a hashed password,
    /// cleared login fields and the default role, and creates and
    /// dispatches one confirmation per named channel. Dispatch is
    /// best-effort: a delivery failure does not fail the registration, and
    /// persisted confirmations are never rolled back.
    pub fn register<S: ConfirmationsSender>(
        &self,
        store: &mut CredentialStore,
        sender: &mut S,
        user: NewUser,
    ) -> (r: Result<(), Error>)
        requires
            old(store).wf(),
        ensures
            final(store).wf(),
            final(store).sessions@ == old(store).sessions@,
            (r matches Err(Error::InvalidInput)) <==> !valid_new_user(user),
            (r matches Err(Error::LoginTaken)) <==> (valid_new_user(user) && register_conflict(
                *old(store),
                user,
            )),
            r matches Err(e) ==> (e == Error::InvalidInput || e == Error::LoginTaken || e
                == Error::StoreInternal),
            (r matches Err(Error::InvalidInput) || r matches Err(Error::LoginTaken))
                ==> *final(store) == *old(store),
            r matches Ok(_) ==> registered_user_row(*old(store), *final(store), user),
            r matches Ok(_) ==> final(store).confirmations@.len()
                == old(store).confirmations@.len() + channel_count(user),
            r matches Ok(_) ==> forall|k: int|
                0 <= k < old(store).confirmations@.len()
                    ==> final(store).confirmations@[k] == old(store).confirmations@[k],
            r matches Ok(_) ==> forall|k: int|
                old(store).confirmations@.len() <= k < final(store).confirmations@.len()
                    ==> final(store).confirmations@[k].user_id == old(store).next_user_id
                    && is_token_string(#[trigger] final(store).confirmations@[k].token@),
            r matches Ok(_) ==> (user.email matches Some(e) ==> (opt_is(
                final(store).confirmations@[old(store).confirmations@.len() as int].email,
                e@,
            ) && final(store).confirmations@[old(store).confirmations@.len() as int].phone
                is None)),
            r matches Ok(_) ==> (user.phone matches Some(p) ==> (opt_is(
                final(store).confirmations@[final(store).confirmations@.len() - 1].phone,
                p@,
            ) && final(store).confirmations@[final(store).confirmations@.len() - 1].email
                is None)),
    {
        if user.email.is_none() && user.phone.is_none() {
            return Err(Error::InvalidInput);
        }
        if user.password.as_str().is_empty() {
            return Err(Error::InvalidInput);
        }
        let email_taken = match &user.email {
            Some(e) => store.login_value_taken(e),
            None => false,
        };
        let phone_taken = match &user.phone {
            Some(p) => store.login_value_taken(p),
            None => false,
        };
        let duplicate_channels = match (&user.email, &user.phone) {
            (Some(e), Some(p)) => string_eq(e, p),
            _ => false,
        };
        if email_taken || phone_taken || duplicate_channels {
            return Err(Error::LoginTaken);
        }
        let hashed = match bcrypt_hash(&user.password, BCRYPT_COST) {
            Some(h) => h,
            None => {
                return Err(Error::StoreInternal);
            },
        };
        let ghost hash_value = hashed;
        let cleared = NewUser {
            phone: None,
            email: None,
            password: hashed,
            permissions: AccessLevel::User,
        };
        let created = match store.add_user(cleared) {
            Ok(u) => u,
            Err(_) => {
                return Err(Error::StoreInternal);
            },
        };
        let user_id = created.id;
        let ghost confs_start = store.confirmations@;
        if let Some(email) = &user.email {
            let token = gen_token();
            let login = Login::Email(email.clone());
            let ghost conf_id = store.next_confirmation_id;
            match store.add_confirmation(user_id, &login, &token) {
                Ok(_) => {
                    proof {
                        let t = choose|t: String|
                            t@ == token@ && store.confirmations@ == confs_start.push(
                                crate::store::stored_confirmation(user_id, login, t, conf_id),
                            );
                        assert(is_token_string(store.confirmations@.last().token@));
                    }
                    let _ = sender.send(&login, &token);
                },
                Err(_) => {
                    return Err(Error::StoreInternal);
                },
            }
        }
        let ghost confs_mid = store.confirmations@;
        if let Some(phone) = &user.phone {
            let token = gen_token();
            let login = Login::Phone(phone.clone());
            let ghost conf_id = store.next_confirmation_id;
            match store.add_confirmation(user_id, &login, &token) {
                Ok(_) => {
                    proof {
                        let t = choose|t: String|
                            t@ == token@ && store.confirmations@ == confs_mid.push(
                                crate::store::stored_confirmation(user_id, login, t, conf_id),
                            );
                        assert(is_token_string(store.confirmations@.last().token@));
                    }
                    let _ = sender.send(&login, &token);
                },
                Err(_) => {
                    return Err(Error::StoreInternal);
                },
            }
        }
        proof {
            assert(registered_user_row(*old(store), *store, user)) by {
                assert(bcrypt_matches(user.password@, hash_value@));
                assert(store.users@ == old(store).users@.push(
                    stored_user(
                        NewUser {
                            phone: None,
                            email: None,
                            password: hash_value,
                            permissions: AccessLevel::User,
                        },
                        old(store).next_user_id,
                    ),
                ));
            }
        }
        Ok(())
    }

    /// Issues a fresh session for `user_id`: two independently generated
    /// 32-character tokens, expiring `session_timeout` seconds after `now`.
    fn gen_tokens(&self, store: &mut CredentialStore, user_id: i32, now: u64) -> (r: Result<
        LoginResponse,
        Error,
    >)
        requires
            old(store).wf(),
            now + self.session_timeout <= u64::MAX,
        ensures
            final(store).wf(),
            final(store).users@ == old(store).users@,
            final(store).confirmations@ == old(store).confirmations@,
            r matches Err(e) ==> e == Error::StoreInternal && *final(store) == *old(store),
            r matches Err(_) ==> (old(store).next_session_id == i32::MAX || old(
                store,
            ).sessions@.len() > 0),
            r matches Ok(resp) ==> is_token_string(resp.access_token@) && is_token_string(
                resp.refresh_token@,
            ) && final(store).sessions@ == old(store).sessions@.push(
                Session {
                    id: old(store).next_session_id,
                    refresh_token: resp.refresh_token,
                    access_token: resp.access_token,
                    expires_at: (now + self.session_timeout) as u64,
                    user_id,
                },
            ) && final(store).next_session_id == old(store).next_session_id + 1,
    {
        let access_token = gen_token();
        let refresh_token = gen_token();
        let session = NewSession {
            refresh_token: refresh_token.clone(),
            access_token: access_token.clone(),
            expires_at: now + (self.session_timeout as u64),
            user_id,
        };
        match store.add_session(session) {
            Ok(_) => Ok(LoginResponse { access_token, refresh_token }),
            Err(_) => {
                proof {
                    if has_session_with_access(old(store).sessions@, access_token@) {
                        let i = choose|i: int|
                            0 <= i < old(store).sessions@.len() && old(
                                store,
                            ).sessions@[i].access_token@ == access_token@;
                        assert(old(store).sessions@.len() > 0);
                    }
                    if has_session_with_refresh(old(store).sessions@, refresh_token@) {
                        let i = choose|i: int|
                            0 <= i < old(store).sessions@.len() && old(
                                store,
                            ).sessions@[i].refresh_token@ == refresh_token@;
                        assert(old(store).sessions@.len() > 0);
                    }
                }
                Err(Error::StoreInternal)
            },
        }
    }

    /// Logs a user in. An unknown login and a wrong password fail with the
    /// same `InvalidCredentials`; on success a fresh session is stored and
    /// its token pair returned.
    pub fn login(&self, store: &mut CredentialStore, request: &LoginRequest, now: u64) -> (r:
        Result<LoginResponse, Error>)
        requires
            old(store).wf(),
            now + self.session_timeout <= u64::MAX,
        ensures
            final(store).wf(),
            final(store).users@ == old(store).users@,
            final(store).confirmations@ == old(store).confirmations@,
            (r matches Err(Error::InvalidCredentials)) <==> !credentials_ok(
                old(store).users@,
                request.login@,
                request.password@,
            ),
            r matches Err(e) ==> (e == Error::InvalidCredentials || e == Error::StoreInternal),
            r matches Err(_) ==> *final(store) == *old(store),
            (r matches Err(Error::StoreInternal)) ==> (old(store).next_session_id == i32::MAX
                || old(store).sessions@.len() > 0),
            r matches Ok(resp) ==> credentials_ok(old(store).users@, request.login@, request.password@)
                && is_token_string(resp.access_token@) && is_token_string(resp.refresh_token@)
                && final(store).sessions@ == old(store).sessions@.push(
                Session {
                    id: old(store).next_session_id,
                    refresh_token: resp.refresh_token,
                    access_token: resp.access_token,
                    expires_at: (now + self.session_timeout) as u64,
                    user_id: user_with_login(old(store).users@, request.login@).id,
                },
            ),
    {
        let user = match store.get_user_by_login(&request.login) {
            Ok(u) => u,
            Err(_) => {
                return Err(Error::InvalidCredentials);
            },
        };
        let hash_equal = bcrypt_check(&request.password, &user.password);
        if hash_equal {
            self.gen_tokens(store, user.id, now)
        } else {
            Err(Error::InvalidCredentials)
        }
    }

    /// Whether `token` names a session that is current at `now` and whose
    /// user still exists.
    pub open spec fn spec_token_valid(store: CredentialStore, token: Seq<char>, now: u64) -> bool {
        &&& has_session_with_access(store.sessions@, token)
        &&& now < session_with_access(store.sessions@, token).expires_at
        &&& has_user_with_id(
            store.users@,
            session_with_access(store.sessions@, token).user_id as int,
        )
    }

    /// The role reported for `token`: the role of the session's user when
    /// both exist, and the lowest role otherwise.
    pub open spec fn spec_token_role(store: CredentialStore, token: Seq<char>) -> AccessLevel {
        if has_session_with_access(store.sessions@, token) && has_user_with_id(
            store.users@,
            session_with_access(store.sessions@, token).user_id as int,
        ) {
            user_with_id(
                store.users@,
                session_with_access(store.sessions@, token).user_id as int,
            ).permissions
        } else {
            AccessLevel::User
        }
    }

    /// Validates an access token against wall-clock time `now`. A pure
    /// query: it never fails the caller, an absent session, a past expiry
    /// or a failed role lookup all report the token invalid.
    pub fn validate(&self, store: &CredentialStore, token: &String, now: u64) -> (r:
        ValidateTokenResponse)
        requires
            store.wf(),
        ensures
            r.valid == Self::spec_token_valid(*store, token@, now),
            r.role == Self::spec_token_role(*store, token@),
    {
        let session = match store.get_session_by_access_token(token) {
            Ok(s) => s,
            Err(_) => {
                return ValidateTokenResponse { valid: false, role: AccessLevel::User };
            },
        };
        let mut valid = now < session.expires_at;
        let role = match store.get_user_role(session.user_id) {
            Ok(role) => role,
            Err(_) => {
                valid = false;
                AccessLevel::User
            },
        };
        ValidateTokenResponse { valid, role }
    }

    /// Rotates a session: the session named by the refresh token is
    /// deleted — its token pair is dead from here on — and a fresh session
    /// for the same user is issued.
    pub fn refresh(&self, store: &mut CredentialStore, req: &RefreshRequest, now: u64) -> (r:
        Result<LoginResponse, Error>)
        requires
            old(store).wf(),
            now + self.session_timeout <= u64::MAX,
        ensures
            final(store).wf(),
            final(store).users@ == old(store).users@,
            final(store).confirmations@ == old(store).confirmations@,
            (r matches Err(Error::Unauthorized)) <==> !has_session_with_refresh(
                old(store).sessions@,
                req.refresh_token@,
            ),
            r matches Err(e) ==> (e == Error::Unauthorized || e == Error::StoreInternal),
            (r matches Err(Error::Unauthorized)) ==> *final(store) == *old(store),
            (r matches Err(Error::StoreInternal)) ==> final(store).sessions@
                == old(store).sessions@.remove(
                CredentialStore::spec_session_index(
                    old(store).sessions@,
                    session_with_refresh(old(store).sessions@, req.refresh_token@).id as int,
                ),
            ),
            (r matches Err(Error::StoreInternal)) ==> (old(store).next_session_id == i32::MAX
                || old(store).sessions@.len() > 1),
            r matches Ok(resp) ==> is_token_string(resp.access_token@) && is_token_string(
                resp.refresh_token@,
            ) && final(store).sessions@ == old(store).sessions@.remove(
                CredentialStore::spec_session_index(
                    old(store).sessions@,
                    session_with_refresh(old(store).sessions@, req.refresh_token@).id as int,
                ),
            ).push(
                Session {
                    id: old(store).next_session_id,
                    refresh_token: resp.refresh_token,
                    access_token: resp.access_token,
                    expires_at: (now + self.session_timeout) as u64,
                    user_id: session_with_refresh(
                        old(store).sessions@,
                        req.refresh_token@,
                    ).user_id,
                },
            ),
    {
        let session = match store.get_session_by_refresh_token(&req.refresh_token) {
            Ok(s) => s,
            Err(_) => {
                return Err(Error::Unauthorized);
            },
        };
        let _ = store.remove_session(session.id);
        self.gen_tokens(store, session.user_id, now)
    }

    /// Redeems a confirmation: the row is deleted — the token is single
    /// use — and the corresponding login field of its user is set to the
    /// confirmed value.
    pub fn confirm(&self, store: &mut CredentialStore, token: &String) -> (r: Result<(), Error>)
        requires
            old(store).wf(),
        ensures
            final(store).wf(),
            final(store).sessions@ == old(store).sessions@,
            (r matches Err(Error::NotFound)) <==> !has_confirmation_with_token(
                old(store).confirmations@,
                token@,
            ),
            !has_confirmation_with_token(old(store).confirmations@, token@) ==> *final(store)
                == *old(store),
            r matches Err(e) ==> (e == Error::NotFound || e == Error::StoreInternal),
            has_confirmation_with_token(old(store).confirmations@, token@)
                ==> final(store).confirmations@ == old(store).confirmations@.remove(
                CredentialStore::spec_confirmation_index(old(store).confirmations@, token@),
            ),
            has_confirmation_with_token(old(store).confirmations@, token@) ==> ((r matches Ok(_))
                <==> (!has_user_with_id(
                old(store).users@,
                confirmation_with_token(old(store).confirmations@, token@).user_id as int,
            ) || !login_owned_by_other(
                old(store).users@,
                confirmation_with_token(old(store).confirmations@, token@).user_id as int,
                conf_value(confirmation_with_token(old(store).confirmations@, token@)),
            ))),
            r matches Err(Error::StoreInternal) ==> final(store).users@ == old(store).users@,
            (has_confirmation_with_token(old(store).confirmations@, token@)
                && !has_user_with_id(
                old(store).users@,
                confirmation_with_token(old(store).confirmations@, token@).user_id as int,
            )) ==> final(store).users@ == old(store).users@,
            (has_confirmation_with_token(old(store).confirmations@, token@)
                && has_user_with_id(
                old(store).users@,
                confirmation_with_token(old(store).confirmations@, token@).user_id as int,
            ) && !login_owned_by_other(
                old(store).users@,
                confirmation_with_token(old(store).confirmations@, token@).user_id as int,
                conf_value(confirmation_with_token(old(store).confirmations@, token@)),
            )) ==> final(store).users@ == old(store).users@.update(
                user_index_with_id(
                    old(store).users@,
                    confirmation_with_token(old(store).confirmations@, token@).user_id as int,
                ),
                apply_confirmation(
                    user_with_id(
                        old(store).users@,
                        confirmation_with_token(
                            old(store).confirmations@,
                            token@,
                        ).user_id as int,
                    ),
                    confirmation_with_token(old(store).confirmations@, token@),
                ),
            ),
    {
        let c = match store.find_confirmation(token) {
            Ok(c) => c,
            Err(_) => {
                return Err(Error::NotFound);
            },
        };
        let _ = store.remove_confirmation(token);
        let Confirmation { id: _, token: _, phone, email, user_id } = c;
        let login = match (email, phone) {
            (Some(e), _) => Login::Email(e),
            (None, Some(p)) => Login::Phone(p),
            (None, None) => {
                proof {
                    let j = CredentialStore::spec_confirmation_index(
                        old(store).confirmations@,
                        token@,
                    );
                    assert(0 <= j < old(store).confirmations@.len()
                        && old(store).confirmations@[j].token@ == token@);
                    assert(old(store).confirmations@[j].email is Some
                        <==> old(store).confirmations@[j].phone is None);
                    assert(false);
                }
                return Err(Error::StoreInternal);
            },
        };
        match store.confirm_user(user_id, login) {
            Ok(_) => Ok(()),
            Err(_) => Err(Error::StoreInternal),
        }
    }

    /// Replaces a user's role; the user is named by a decimal identifier.
    /// Who may call this is the caller's concern, enforced through the
    /// authorization gateway.
    pub fn set_user_role(&self, store: &mut CredentialStore, req: &UpdateUserRequest) -> (r:
        Result<(), Error>)
        requires
            old(store).wf(),
        ensures
            final(store).wf(),
            final(store).sessions@ == old(store).sessions@,
            final(store).confirmations@ == old(store).confirmations@,
            (r matches Err(Error::InvalidInput)) <==> !is_i32_string(req.user_id@),
            r matches Err(e) ==> e == Error::InvalidInput && *final(store) == *old(store),
            (is_i32_string(req.user_id@) && !has_user_with_id(
                old(store).users@,
                int_string_value(req.user_id@),
            )) ==> ((r matches Ok(_)) && *final(store) == *old(store)),
            (is_i32_string(req.user_id@) && has_user_with_id(
                old(store).users@,
                int_string_value(req.user_id@),
            )) ==> ((r matches Ok(_)) && final(store).users@ == old(store).users@.update(
                user_index_with_id(old(store).users@, int_string_value(req.user_id@)),
                user_with_role(
                    user_with_id(old(store).users@, int_string_value(req.user_id@)),
                    req.role,
                ),
            )),
    {
        let id = match parse_i32(&req.user_id) {
            Ok(v) => v,
            Err(e) => {
                return Err(e);
            },
        };
        match store.set_user_role(id, req.role) {
            Ok(_) => Ok(()),
            Err(_) => Err(Error::StoreInternal),
        }
    }

    /// Lists users as the store pages them: from `offset` on, at most
    /// `limit` many, both defaulting to the whole table.
    pub fn list_users(&self, store: &CredentialStore, req: ListUsersRequest) -> (r: Result<
        ListUsersResponse,
        Error,
    >)
        requires
            store.wf(),
        ensures
            match r {
                Ok(resp) => spec_offset(req) >= 0 && spec_limit(req) >= 0 && resp.users@
                    == list_window(store.users@, spec_offset(req), spec_limit(req)),
                Err(e) => e == Error::StoreInternal && (spec_offset(req) < 0 || spec_limit(req)
                    < 0),
            },
    {
        match store.list_users(req) {
            Ok(resp) => Ok(resp),
            Err(_) => Err(Error::StoreInternal),
        }
    }
}

/// Law: a login with an unknown identifier and a login with a wrong
/// password are indistinguishable. In both cases the credentials are not
/// accepted, and `login` reports exactly `InvalidCredentials` for every
/// input whose credentials are not accepted.
pub proof fn lemma_login_failures_alike(
    users: Seq<User>,
    unknown_login: Seq<char>,
    password_a: Seq<char>,
    known_login: Seq<char>,
    password_b: Seq<char>,
)
    requires
        !has_user_with_login(users, unknown_login),
        has_user_with_login(users, known_login),
        !bcrypt_matches(password_b, user_with_login(users, known_login).password@),
    ensures
        !credentials_ok(users, unknown_login, password_a),
        !credentials_ok(users, known_login, password_b),
{
}

} // verus!
