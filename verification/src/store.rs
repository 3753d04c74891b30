//! The credential store: an in-memory model of the persistence port that
//! backs the session/token authority. It keeps users, sessions and pending
//! confirmations, enforcing the row identity and token uniqueness that the
//! authority's guarantees rest on.

use vstd::prelude::*;

use crate::errors::StoreError;
use crate::models::{
    clone_confirmation, clone_session, clone_user, opt_is, opt_string_is, string_eq, AccessLevel,
    Confirmation, ListUsersRequest, ListUsersResponse, Login, NewSession, NewUser, Session, User,
};

verus! {

/// Whether `login` is one of the login values of `u`.
pub open spec fn user_has_login(u: User, login: Seq<char>) -> bool {
    opt_is(u.email, login) || opt_is(u.phone, login)
}

/// Whether no login value of `u` is also a login value of `v`.
pub open spec fn logins_disjoint(u: User, v: User) -> bool {
    &&& match u.email {
        Some(e) => !user_has_login(v, e@),
        None => true,
    }
    &&& match u.phone {
        Some(p) => !user_has_login(v, p@),
        None => true,
    }
}

pub open spec fn has_user_with_login(users: Seq<User>, login: Seq<char>) -> bool {
    exists|i: int| 0 <= i < users.len() && user_has_login(users[i], login)
}

/// The unique user owning `login`; meaningful only under `users_wf`.
pub open spec fn user_with_login(users: Seq<User>, login: Seq<char>) -> User {
    users[choose|i: int| 0 <= i < users.len() && user_has_login(users[i], login)]
}

pub open spec fn has_user_with_id(users: Seq<User>, id: int) -> bool {
    exists|i: int| 0 <= i < users.len() && users[i].id == id
}

/// The index of the user with identity `id`; meaningful only under `users_wf`.
pub open spec fn user_index_with_id(users: Seq<User>, id: int) -> int {
    choose|i: int| 0 <= i < users.len() && users[i].id == id
}

/// The user with identity `id`; meaningful only under `users_wf`.
pub open spec fn user_with_id(users: Seq<User>, id: int) -> User {
    users[user_index_with_id(users, id)]
}

/// Users have distinct identities below the next free one, and no two users
/// share a login value.
pub open spec fn users_wf(users: Seq<User>, next_id: int) -> bool {
    &&& forall|i: int, j: int|
        0 <= i < users.len() && 0 <= j < users.len() && i != j ==> users[i].id != users[j].id
    &&& forall|i: int| 0 <= i < users.len() ==> users[i].id < next_id
    &&& forall|i: int, j: int|
        0 <= i < users.len() && 0 <= j < users.len() && i != j ==> logins_disjoint(
            users[i],
            users[j],
        )
}

pub open spec fn has_session_with_access(sessions: Seq<Session>, token: Seq<char>) -> bool {
    exists|i: int| 0 <= i < sessions.len() && sessions[i].access_token@ == token
}

/// The unique session carrying `token` as access token; meaningful only under
/// `sessions_wf`.
pub open spec fn session_with_access(sessions: Seq<Session>, token: Seq<char>) -> Session {
    sessions[choose|i: int| 0 <= i < sessions.len() && sessions[i].access_token@ == token]
}

pub open spec fn has_session_with_refresh(sessions: Seq<Session>, token: Seq<char>) -> bool {
    exists|i: int| 0 <= i < sessions.len() && sessions[i].refresh_token@ == token
}

/// The unique session carrying `token` as refresh token; meaningful only
/// under `sessions_wf`.
pub open spec fn session_with_refresh(sessions: Seq<Session>, token: Seq<char>) -> Session {
    sessions[choose|i: int| 0 <= i < sessions.len() && sessions[i].refresh_token@ == token]
}

pub open spec fn has_session_with_id(sessions: Seq<Session>, id: int) -> bool {
    exists|i: int| 0 <= i < sessions.len() && sessions[i].id == id
}

/// Sessions have distinct identities below the next free one, and both token
/// columns are free of duplicates.
pub open spec fn sessions_wf(sessions: Seq<Session>, next_id: int) -> bool {
    &&& forall|i: int, j: int|
        0 <= i < sessions.len() && 0 <= j < sessions.len() && i != j ==> sessions[i].id
            != sessions[j].id
    &&& forall|i: int| 0 <= i < sessions.len() ==> sessions[i].id < next_id
    &&& forall|i: int, j: int|
        0 <= i < sessions.len() && 0 <= j < sessions.len() && i != j ==> sessions[
            i
        ].access_token@ != sessions[j].access_token@
    &&& forall|i: int, j: int|
        0 <= i < sessions.len() && 0 <= j < sessions.len() && i != j ==> sessions[
            i
        ].refresh_token@ != sessions[j].refresh_token@
}

pub open spec fn has_confirmation_with_token(
    confirmations: Seq<Confirmation>,
    token: Seq<char>,
) -> bool {
    exists|i: int| 0 <= i < confirmations.len() && confirmations[i].token@ == token
}

/// The unique confirmation carrying `token`; meaningful only under
/// `confirmations_wf`.
pub open spec fn confirmation_with_token(
    confirmations: Seq<Confirmation>,
    token: Seq<char>,
) -> Confirmation {
    confirmations[choose|i: int|
        0 <= i < confirmations.len() && confirmations[i].token@ == token]
}

/// Whether `login` is pending in some confirmation, on either channel.
pub open spec fn has_pending_login(confirmations: Seq<Confirmation>, login: Seq<char>) -> bool {
    exists|i: int|
        0 <= i < confirmations.len() && (opt_is(confirmations[i].email, login) || opt_is(
            confirmations[i].phone,
            login,
        ))
}

/// Confirmations have distinct identities below the next free one, distinct
/// tokens, and each binds exactly one login channel.
pub open spec fn confirmations_wf(confirmations: Seq<Confirmation>, next_id: int) -> bool {
    &&& forall|i: int, j: int|
        0 <= i < confirmations.len() && 0 <= j < confirmations.len() && i != j ==> confirmations[
            i
        ].id != confirmations[j].id
    &&& forall|i: int| 0 <= i < confirmations.len() ==> confirmations[i].id < next_id
    &&& forall|i: int, j: int|
        0 <= i < confirmations.len() && 0 <= j < confirmations.len() && i != j ==> confirmations[
            i
        ].token@ != confirmations[j].token@
    &&& forall|i: int|
        0 <= i < confirmations.len() ==> ((confirmations[i].email is Some) <==> (confirmations[
            i
        ].phone is None))
}

/// The in-memory credential store.
pub struct CredentialStore {
    pub users: Vec<User>,
    pub sessions: Vec<Session>,
    pub confirmations: Vec<Confirmation>,
    pub next_user_id: i32,
    pub next_session_id: i32,
    pub next_confirmation_id: i32,
}

impl CredentialStore {
    /// The store's well-formedness: identities are unique and bounded, logins
    /// and tokens are free of duplicates, confirmations bind one channel.
    pub open spec fn wf(self) -> bool {
        &&& users_wf(self.users@, self.next_user_id as int)
        &&& sessions_wf(self.sessions@, self.next_session_id as int)
        &&& confirmations_wf(self.confirmations@, self.next_confirmation_id as int)
    }

    /// Creates an empty store.
    pub fn new() -> (r: CredentialStore)
        ensures
            r.wf(),
            r.users@ == Seq::<User>::empty(),
            r.sessions@ == Seq::<Session>::empty(),
            r.confirmations@ == Seq::<Confirmation>::empty(),
    {
        CredentialStore {
            users: Vec::new(),
            sessions: Vec::new(),
            confirmations: Vec::new(),
            next_user_id: 1,
            next_session_id: 1,
            next_confirmation_id: 1,
        }
    }
}

/// Whether some login value named in `user` is already owned by a user.
pub open spec fn new_user_login_taken(users: Seq<User>, user: NewUser) -> bool {
    ||| match user.email {
        Some(e) => has_user_with_login(users, e@),
        None => false,
    }
    ||| match user.phone {
        Some(p) => has_user_with_login(users, p@),
        None => false,
    }
}

/// The row stored for a registration request, under identity `id`.
pub open spec fn stored_user(user: NewUser, id: i32) -> User {
    User {
        id,
        phone: user.phone,
        email: user.email,
        password: user.password,
        permissions: user.permissions,
    }
}

impl CredentialStore {
    /// Whether some user owns the login value `login`.
    pub fn has_login(&self, login: &String) -> (r: bool)
        ensures
            r == has_user_with_login(self.users@, login@),
    {
        let mut i: usize = 0;
        while i < self.users.len()
            invariant
                0 <= i <= self.users@.len(),
                forall|j: int| 0 <= j < i ==> !user_has_login(self.users@[j], login@),
            decreases self.users@.len() - i,
        {
            let u = &self.users[i];
            if opt_string_is(&u.email, login) || opt_string_is(&u.phone, login) {
                return true;
            }
            i = i + 1;
        }
        false
    }

    /// Inserts a user row under a fresh identity.
    ///
    /// Fails with `UniqueViolation` exactly when a login value of the new
    /// row is already owned, and with `Internal` exactly when the identity
    /// space is exhausted.
    pub fn add_user(&mut self, user: NewUser) -> (r: Result<User, StoreError>)
        requires
            old(self).wf(),
        ensures
            final(self).wf(),
            final(self).sessions@ == old(self).sessions@,
            final(self).confirmations@ == old(self).confirmations@,
            final(self).next_session_id == old(self).next_session_id,
            final(self).next_confirmation_id == old(self).next_confirmation_id,
            r matches Err(e) ==> (e == StoreError::UniqueViolation || e == StoreError::Internal),
            (r matches Err(StoreError::UniqueViolation)) <==> new_user_login_taken(
                old(self).users@,
                user,
            ),
            (r matches Err(StoreError::Internal)) <==> (!new_user_login_taken(
                old(self).users@,
                user,
            ) && old(self).next_user_id == i32::MAX),
            r matches Err(_) ==> *final(self) == *old(self),
            r matches Ok(u) ==> u == stored_user(user, old(self).next_user_id)
                && final(self).users@ == old(self).users@.push(u) && final(self).next_user_id
                == old(self).next_user_id + 1,
    {
        let email_taken = match &user.email {
            Some(e) => self.has_login(e),
            None => false,
        };
        let phone_taken = match &user.phone {
            Some(p) => self.has_login(p),
            None => false,
        };
        if email_taken || phone_taken {
            return Err(StoreError::UniqueViolation);
        }
        if self.next_user_id == i32::MAX {
            return Err(StoreError::Internal);
        }
        let id = self.next_user_id;
        let row = User {
            id,
            phone: user.phone,
            email: user.email,
            password: user.password,
            permissions: user.permissions,
        };
        let result = clone_user(&row);
        self.users.push(row);
        self.next_user_id = id + 1;
        Ok(result)
    }

    /// Looks a user up by a login value on either channel.
    pub fn get_user_by_login(&self, login: &String) -> (r: Result<User, StoreError>)
        requires
            self.wf(),
        ensures
            match r {
                Ok(u) => has_user_with_login(self.users@, login@) && u == user_with_login(
                    self.users@,
                    login@,
                ),
                Err(e) => e == StoreError::NotFound && !has_user_with_login(self.users@, login@),
            },
    {
        let mut i: usize = 0;
        while i < self.users.len()
            invariant
                self.wf(),
                0 <= i <= self.users@.len(),
                forall|j: int| 0 <= j < i ==> !user_has_login(self.users@[j], login@),
            decreases self.users@.len() - i,
        {
            let u = &self.users[i];
            if opt_string_is(&u.email, login) || opt_string_is(&u.phone, login) {
                proof {
                    let j = choose|j: int|
                        0 <= j < self.users@.len() && user_has_login(self.users@[j], login@);
                    lemma_user_login_unique(
                        self.users@,
                        self.next_user_id as int,
                        login@,
                        i as int,
                        j,
                    );
                }
                return Ok(clone_user(u));
            }
            i = i + 1;
        }
        Err(StoreError::NotFound)
    }

    /// Looks up the password hash stored for a login value.
    pub fn get_password_hash(&self, login: &String) -> (r: Result<String, StoreError>)
        requires
            self.wf(),
        ensures
            match r {
                Ok(h) => has_user_with_login(self.users@, login@) && h@ == user_with_login(
                    self.users@,
                    login@,
                ).password@,
                Err(e) => e == StoreError::NotFound && !has_user_with_login(self.users@, login@),
            },
    {
        match self.get_user_by_login(login) {
            Ok(u) => Ok(u.password),
            Err(e) => Err(e),
        }
    }

    /// Looks up the role of the user with identity `id`.
    pub fn get_user_role(&self, id: i32) -> (r: Result<AccessLevel, StoreError>)
        requires
            self.wf(),
        ensures
            match r {
                Ok(role) => has_user_with_id(self.users@, id as int) && role == user_with_id(
                    self.users@,
                    id as int,
                ).permissions,
                Err(e) => e == StoreError::NotFound && !has_user_with_id(self.users@, id as int),
            },
    {
        let mut i: usize = 0;
        while i < self.users.len()
            invariant
                self.wf(),
                0 <= i <= self.users@.len(),
                forall|j: int| 0 <= j < i ==> self.users@[j].id != id,
            decreases self.users@.len() - i,
        {
            let u = &self.users[i];
            if u.id == id {
                proof {
                    let j = user_index_with_id(self.users@, id as int);
                    assert(0 <= j < self.users@.len() && self.users@[j].id == id);
                    assert(j == i as int);
                }
                return Ok(u.permissions);
            }
            i = i + 1;
        }
        Err(StoreError::NotFound)
    }
}

/// The login value a `Login` carries.
pub open spec fn login_value(login: Login) -> Seq<char> {
    match login {
        Login::Email(e) => e@,
        Login::Phone(p) => p@,
    }
}

/// Whether a user other than `id` owns the login value `v`.
pub open spec fn login_owned_by_other(users: Seq<User>, id: int, v: Seq<char>) -> bool {
    exists|i: int| 0 <= i < users.len() && users[i].id != id && user_has_login(users[i], v)
}

/// The row `u` after the channel named by `login` is confirmed.
pub open spec fn confirmed_user(u: User, login: Login) -> User {
    match login {
        Login::Email(e) => User { email: Some(e), ..u },
        Login::Phone(p) => User { phone: Some(p), ..u },
    }
}

/// The row `u` with its role replaced.
pub open spec fn user_with_role(u: User, role: AccessLevel) -> User {
    User { permissions: role, ..u }
}

/// The session row stored for `session` under identity `id`.
pub open spec fn stored_session(session: NewSession, id: i32) -> Session {
    Session {
        id,
        refresh_token: session.refresh_token,
        access_token: session.access_token,
        expires_at: session.expires_at,
        user_id: session.user_id,
    }
}

/// The confirmation row stored for `login` and `token` under identity `id`.
pub open spec fn stored_confirmation(user: i32, login: Login, token: String, id: i32) -> Confirmation {
    match login {
        Login::Email(e) => Confirmation { id, token, phone: None, email: Some(e), user_id: user },
        Login::Phone(p) => Confirmation { id, token, phone: Some(p), email: None, user_id: user },
    }
}

impl CredentialStore {
    /// Whether a user other than `id` owns the login value `v`.
    fn has_login_other_than(&self, v: &String, id: i32) -> (r: bool)
        ensures
            r == login_owned_by_other(self.users@, id as int, v@),
    {
        let mut i: usize = 0;
        while i < self.users.len()
            invariant
                0 <= i <= self.users@.len(),
                forall|j: int|
                    0 <= j < i ==> !(self.users@[j].id != id && user_has_login(
                        self.users@[j],
                        v@,
                    )),
            decreases self.users@.len() - i,
        {
            let u = &self.users[i];
            if u.id != id && (opt_string_is(&u.email, v) || opt_string_is(&u.phone, v)) {
                return true;
            }
            i = i + 1;
        }
        false
    }

    /// Confirms a login channel of user `id`, setting the corresponding
    /// login field. Updating a user that does not exist affects no row and
    /// succeeds; a login value owned by another user is a uniqueness
    /// violation.
    pub fn confirm_user(&mut self, user: i32, login: Login) -> (r: Result<(), StoreError>)
        requires
            old(self).wf(),
        ensures
            final(self).wf(),
            final(self).sessions@ == old(self).sessions@,
            final(self).confirmations@ == old(self).confirmations@,
            final(self).next_user_id == old(self).next_user_id,
            final(self).next_session_id == old(self).next_session_id,
            final(self).next_confirmation_id == old(self).next_confirmation_id,
            !has_user_with_id(old(self).users@, user as int) ==> ((r matches Ok(_))
                && *final(self) == *old(self)),
            has_user_with_id(old(self).users@, user as int) && login_owned_by_other(
                old(self).users@,
                user as int,
                login_value(login),
            ) ==> ((r matches Err(StoreError::UniqueViolation)) && *final(self) == *old(self)),
            has_user_with_id(old(self).users@, user as int) && !login_owned_by_other(
                old(self).users@,
                user as int,
                login_value(login),
            ) ==> ((r matches Ok(_)) && final(self).users@ == old(self).users@.update(
                user_index_with_id(old(self).users@, user as int),
                confirmed_user(user_with_id(old(self).users@, user as int), login),
            )),
    {
        let mut i: usize = 0;
        while i < self.users.len()
            invariant
                *self == *old(self),
                old(self).wf(),
                0 <= i <= self.users@.len(),
                forall|j: int| 0 <= j < i ==> self.users@[j].id != user,
            decreases self.users@.len() - i,
        {
            if self.users[i].id == user {
                proof {
                    let j = user_index_with_id(self.users@, user as int);
                    assert(0 <= j < self.users@.len() && self.users@[j].id == user);
                    assert(j == i as int);
                }
                let value_taken = match &login {
                    Login::Email(e) => self.has_login_other_than(e, user),
                    Login::Phone(p) => self.has_login_other_than(p, user),
                };
                if value_taken {
                    return Err(StoreError::UniqueViolation);
                }
                let ghost confirmed_login = login;
                match login {
                    Login::Email(e) => {
                        self.users[i].email = Some(e);
                    },
                    Login::Phone(p) => {
                        self.users[i].phone = Some(p);
                    },
                }
                proof {
                    lemma_confirm_preserves_wf(
                        old(self).users@,
                        self.users@,
                        self.next_user_id as int,
                        i as int,
                        confirmed_login,
                    );
                }
                return Ok(());
            }
            i = i + 1;
        }
        Ok(())
    }

    /// Replaces the role of user `id`. Updating a user that does not exist
    /// affects no row and succeeds.
    pub fn set_user_role(&mut self, user: i32, role: AccessLevel) -> (r: Result<(), StoreError>)
        requires
            old(self).wf(),
        ensures
            final(self).wf(),
            r matches Ok(_),
            final(self).sessions@ == old(self).sessions@,
            final(self).confirmations@ == old(self).confirmations@,
            final(self).next_user_id == old(self).next_user_id,
            final(self).next_session_id == old(self).next_session_id,
            final(self).next_confirmation_id == old(self).next_confirmation_id,
            !has_user_with_id(old(self).users@, user as int) ==> *final(self) == *old(self),
            has_user_with_id(old(self).users@, user as int) ==> final(self).users@ == old(
                self,
            ).users@.update(
                user_index_with_id(old(self).users@, user as int),
                user_with_role(user_with_id(old(self).users@, user as int), role),
            ),
    {
        let mut i: usize = 0;
        while i < self.users.len()
            invariant
                *self == *old(self),
                old(self).wf(),
                0 <= i <= self.users@.len(),
                forall|j: int| 0 <= j < i ==> self.users@[j].id != user,
            decreases self.users@.len() - i,
        {
            if self.users[i].id == user {
                proof {
                    let j = user_index_with_id(self.users@, user as int);
                    assert(0 <= j < self.users@.len() && self.users@[j].id == user);
                    assert(j == i as int);
                }
                self.users[i].permissions = role;
                proof {
                    assert forall|a: int, b: int|
                        0 <= a < self.users@.len() && 0 <= b < self.users@.len() && a
                            != b implies logins_disjoint(self.users@[a], self.users@[b]) by {
                        assert(logins_disjoint(old(self).users@[a], old(self).users@[b]));
                    }
                }
                return Ok(());
            }
            i = i + 1;
        }
        Ok(())
    }
}

/// Confirming a login channel keeps the user table well-formed, provided no
/// other user owns the confirmed value.
proof fn lemma_confirm_preserves_wf(
    old_users: Seq<User>,
    new_users: Seq<User>,
    next_id: int,
    i: int,
    login: Login,
)
    requires
        users_wf(old_users, next_id),
        0 <= i < old_users.len(),
        new_users == old_users.update(i, confirmed_user(old_users[i], login)),
        !login_owned_by_other(old_users, old_users[i].id as int, login_value(login)),
    ensures
        users_wf(new_users, next_id),
{
    assert forall|a: int, b: int|
        0 <= a < new_users.len() && 0 <= b < new_users.len() && a != b implies logins_disjoint(
        new_users[a],
        new_users[b],
    ) by {
        assert(logins_disjoint(old_users[a], old_users[b]));
        if a == i {
            assert(old_users[b].id != old_users[i].id);
            assert(!user_has_login(old_users[b], login_value(login)));
        } else if b == i {
            assert(old_users[a].id != old_users[i].id);
            assert(!user_has_login(old_users[a], login_value(login)));
            assert(logins_disjoint(old_users[a], old_users[i]));
        }
    }
}

/// The pagination offset a listing request asks for; absent means `0`.
pub open spec fn spec_offset(req: ListUsersRequest) -> int {
    match req.offset {
        Some(o) => o as int,
        None => 0,
    }
}

/// The pagination limit a listing request asks for; absent means unbounded.
pub open spec fn spec_limit(req: ListUsersRequest) -> int {
    match req.limit {
        Some(l) => l as int,
        None => i64::MAX as int,
    }
}

/// The window of `users` selected by a non-negative offset and limit.
pub open spec fn list_window(users: Seq<User>, off: int, lim: int) -> Seq<User> {
    let len = users.len() as int;
    let lo = if off <= len {
        off
    } else {
        len
    };
    let hi = if off + lim <= len {
        off + lim
    } else {
        len
    };
    users.subrange(lo, hi)
}

impl CredentialStore {
    /// Whether some session carries `t` as its access token.
    fn has_access_token(&self, t: &String) -> (r: bool)
        ensures
            r == has_session_with_access(self.sessions@, t@),
    {
        let mut i: usize = 0;
        while i < self.sessions.len()
            invariant
                0 <= i <= self.sessions@.len(),
                forall|j: int| 0 <= j < i ==> self.sessions@[j].access_token@ != t@,
            decreases self.sessions@.len() - i,
        {
            if string_eq(&self.sessions[i].access_token, t) {
                return true;
            }
            i = i + 1;
        }
        false
    }

    /// Whether some session carries `t` as its refresh token.
    fn has_refresh_token(&self, t: &String) -> (r: bool)
        ensures
            r == has_session_with_refresh(self.sessions@, t@),
    {
        let mut i: usize = 0;
        while i < self.sessions.len()
            invariant
                0 <= i <= self.sessions@.len(),
                forall|j: int| 0 <= j < i ==> self.sessions@[j].refresh_token@ != t@,
            decreases self.sessions@.len() - i,
        {
            if string_eq(&self.sessions[i].refresh_token, t) {
                return true;
            }
            i = i + 1;
        }
        false
    }

    /// Inserts a session row under a fresh identity.
    ///
    /// Fails with `UniqueViolation` exactly when one of the tokens is
    /// already present in its column, and with `Internal` exactly when the
    /// identity space is exhausted.
    pub fn add_session(&mut self, session: NewSession) -> (r: Result<(), StoreError>)
        requires
            old(self).wf(),
        ensures
            final(self).wf(),
            final(self).users@ == old(self).users@,
            final(self).confirmations@ == old(self).confirmations@,
            final(self).next_user_id == old(self).next_user_id,
            final(self).next_confirmation_id == old(self).next_confirmation_id,
            r matches Err(e) ==> (e == StoreError::UniqueViolation || e == StoreError::Internal),
            (r matches Err(StoreError::UniqueViolation)) <==> (has_session_with_access(
                old(self).sessions@,
                session.access_token@,
            ) || has_session_with_refresh(old(self).sessions@, session.refresh_token@)),
            (r matches Err(StoreError::Internal)) <==> (!(has_session_with_access(
                old(self).sessions@,
                session.access_token@,
            ) || has_session_with_refresh(old(self).sessions@, session.refresh_token@)) && old(self).next_session_id == i32::MAX),
            r matches Err(_) ==> *final(self) == *old(self),
            r matches Ok(_) ==> final(self).sessions@ == old(self).sessions@.push(
                stored_session(session, old(self).next_session_id),
            ) && final(self).next_session_id == old(self).next_session_id + 1,
    {
        if self.has_access_token(&session.access_token) || self.has_refresh_token(
            &session.refresh_token,
        ) {
            return Err(StoreError::UniqueViolation);
        }
        if self.next_session_id == i32::MAX {
            return Err(StoreError::Internal);
        }
        let id = self.next_session_id;
        let row = Session {
            id,
            refresh_token: session.refresh_token,
            access_token: session.access_token,
            expires_at: session.expires_at,
            user_id: session.user_id,
        };
        self.sessions.push(row);
        self.next_session_id = id + 1;
        Ok(())
    }

    /// Looks a session up by its access token.
    pub fn get_session_by_access_token(&self, token: &String) -> (r: Result<Session, StoreError>)
        requires
            self.wf(),
        ensures
            match r {
                Ok(s) => has_session_with_access(self.sessions@, token@) && s
                    == session_with_access(self.sessions@, token@),
                Err(e) => e == StoreError::NotFound && !has_session_with_access(
                    self.sessions@,
                    token@,
                ),
            },
    {
        let mut i: usize = 0;
        while i < self.sessions.len()
            invariant
                self.wf(),
                0 <= i <= self.sessions@.len(),
                forall|j: int| 0 <= j < i ==> self.sessions@[j].access_token@ != token@,
            decreases self.sessions@.len() - i,
        {
            if string_eq(&self.sessions[i].access_token, token) {
                proof {
                    let j = choose|j: int|
                        0 <= j < self.sessions@.len() && self.sessions@[j].access_token@
                            == token@;
                    assert(self.sessions@[j].access_token@ == token@);
                    assert(j == i as int);
                }
                return Ok(clone_session(&self.sessions[i]));
            }
            i = i + 1;
        }
        Err(StoreError::NotFound)
    }

    /// Looks a session up by its refresh token.
    pub fn get_session_by_refresh_token(&self, token: &String) -> (r: Result<Session, StoreError>)
        requires
            self.wf(),
        ensures
            match r {
                Ok(s) => has_session_with_refresh(self.sessions@, token@) && s
                    == session_with_refresh(self.sessions@, token@),
                Err(e) => e == StoreError::NotFound && !has_session_with_refresh(
                    self.sessions@,
                    token@,
                ),
            },
    {
        let mut i: usize = 0;
        while i < self.sessions.len()
            invariant
                self.wf(),
                0 <= i <= self.sessions@.len(),
                forall|j: int| 0 <= j < i ==> self.sessions@[j].refresh_token@ != token@,
            decreases self.sessions@.len() - i,
        {
            if string_eq(&self.sessions[i].refresh_token, token) {
                proof {
                    let j = choose|j: int|
                        0 <= j < self.sessions@.len() && self.sessions@[j].refresh_token@
                            == token@;
                    assert(self.sessions@[j].refresh_token@ == token@);
                    assert(j == i as int);
                }
                return Ok(clone_session(&self.sessions[i]));
            }
            i = i + 1;
        }
        Err(StoreError::NotFound)
    }

    /// The index of the session with identity `id`, when it exists.
    pub open spec fn spec_session_index(sessions: Seq<Session>, id: int) -> int {
        choose|i: int| 0 <= i < sessions.len() && sessions[i].id == id
    }

    /// Deletes the session with identity `id` and reports how many rows
    /// went away. A missing session deletes nothing and succeeds.
    pub fn remove_session(&mut self, id: i32) -> (r: Result<usize, StoreError>)
        requires
            old(self).wf(),
        ensures
            final(self).wf(),
            final(self).users@ == old(self).users@,
            final(self).confirmations@ == old(self).confirmations@,
            final(self).next_session_id == old(self).next_session_id,
            final(self).next_user_id == old(self).next_user_id,
            final(self).next_confirmation_id == old(self).next_confirmation_id,
            !has_session_with_id(old(self).sessions@, id as int) ==> ((r matches Ok(n) && n == 0)
                && *final(self) == *old(self)),
            has_session_with_id(old(self).sessions@, id as int) ==> ((r matches Ok(n) && n == 1)
                && final(self).sessions@ == old(self).sessions@.remove(
                Self::spec_session_index(old(self).sessions@, id as int),
            )),
    {
        let mut i: usize = 0;
        while i < self.sessions.len()
            invariant
                *self == *old(self),
                old(self).wf(),
                0 <= i <= self.sessions@.len(),
                forall|j: int| 0 <= j < i ==> self.sessions@[j].id != id,
            decreases self.sessions@.len() - i,
        {
            if self.sessions[i].id == id {
                proof {
                    let j = Self::spec_session_index(self.sessions@, id as int);
                    assert(0 <= j < self.sessions@.len() && self.sessions@[j].id == id);
                    assert(j == i as int);
                    self.sessions@.remove_ensures(i as int);
                }
                let _ = self.sessions.remove(i);
                return Ok(1);
            }
            i = i + 1;
        }
        Ok(0)
    }

    /// Whether some confirmation carries `t` as its token.
    fn has_confirmation_token(&self, t: &String) -> (r: bool)
        ensures
            r == has_confirmation_with_token(self.confirmations@, t@),
    {
        let mut i: usize = 0;
        while i < self.confirmations.len()
            invariant
                0 <= i <= self.confirmations@.len(),
                forall|j: int| 0 <= j < i ==> self.confirmations@[j].token@ != t@,
            decreases self.confirmations@.len() - i,
        {
            if string_eq(&self.confirmations[i].token, t) {
                return true;
            }
            i = i + 1;
        }
        false
    }

    /// Whether some confirmation holds `v` as a pending login value.
    fn has_pending_value(&self, v: &String) -> (r: bool)
        ensures
            r == has_pending_login(self.confirmations@, v@),
    {
        let mut i: usize = 0;
        while i < self.confirmations.len()
            invariant
                0 <= i <= self.confirmations@.len(),
                forall|j: int|
                    0 <= j < i ==> !(opt_is(self.confirmations@[j].email, v@) || opt_is(
                        self.confirmations@[j].phone,
                        v@,
                    )),
            decreases self.confirmations@.len() - i,
        {
            let c = &self.confirmations[i];
            if opt_string_is(&c.email, v) || opt_string_is(&c.phone, v) {
                return true;
            }
            i = i + 1;
        }
        false
    }

    /// Whether the login value `v` is already owned by a user or pending
    /// in a confirmation — the conflict that makes a registration fail.
    pub fn login_value_taken(&self, v: &String) -> (r: bool)
        ensures
            r == (has_user_with_login(self.users@, v@) || has_pending_login(
                self.confirmations@,
                v@,
            )),
    {
        self.has_login(v) || self.has_pending_value(v)
    }

    /// Inserts a confirmation binding `token` to `user` and the channel of
    /// `login`, under a fresh identity.
    ///
    /// Fails with `UniqueViolation` exactly when the token is already in
    /// use, the login value is already pending, or the login value is
    /// already owned by some user; fails with `Internal` exactly when the
    /// identity space is exhausted.
    pub fn add_confirmation(&mut self, user: i32, login: &Login, token: &String) -> (r: Result<
        (),
        StoreError,
    >)
        requires
            old(self).wf(),
        ensures
            final(self).wf(),
            final(self).users@ == old(self).users@,
            final(self).sessions@ == old(self).sessions@,
            final(self).next_user_id == old(self).next_user_id,
            final(self).next_session_id == old(self).next_session_id,
            r matches Err(e) ==> (e == StoreError::UniqueViolation || e == StoreError::Internal),
            (r matches Err(StoreError::UniqueViolation)) <==> (has_confirmation_with_token(
                old(self).confirmations@,
                token@,
            ) || has_pending_login(old(self).confirmations@, login_value(*login))
                || has_user_with_login(old(self).users@, login_value(*login))),
            (r matches Err(StoreError::Internal)) <==> (!(has_confirmation_with_token(
                old(self).confirmations@,
                token@,
            ) || has_pending_login(old(self).confirmations@, login_value(*login))
                || has_user_with_login(old(self).users@, login_value(*login))) && old(self).next_confirmation_id == i32::MAX),
            r matches Err(_) ==> *final(self) == *old(self),
            r matches Ok(_) ==> (exists|t: String|
                t@ == token@ && final(self).confirmations@ == old(self).confirmations@.push(
                    stored_confirmation(user, *login, t, old(self).next_confirmation_id),
                )) && final(self).next_confirmation_id == old(self).next_confirmation_id + 1,
    {
        let value: &String = match login {
            Login::Email(e) => e,
            Login::Phone(p) => p,
        };
        if self.has_confirmation_token(token) || self.has_pending_value(value) || self.has_login(
            value,
        ) {
            return Err(StoreError::UniqueViolation);
        }
        if self.next_confirmation_id == i32::MAX {
            return Err(StoreError::Internal);
        }
        let id = self.next_confirmation_id;
        let row = match login {
            Login::Email(e) => Confirmation {
                id,
                token: token.clone(),
                phone: None,
                email: Some(e.clone()),
                user_id: user,
            },
            Login::Phone(p) => Confirmation {
                id,
                token: token.clone(),
                phone: Some(p.clone()),
                email: None,
                user_id: user,
            },
        };
        let ghost stored = row;
        self.confirmations.push(row);
        self.next_confirmation_id = id + 1;
        proof {
            assert(stored.token@ == token@);
            assert(stored == stored_confirmation(user, *login, stored.token, id));
        }
        Ok(())
    }

    /// Looks a confirmation up by its token.
    pub fn find_confirmation(&self, token: &String) -> (r: Result<Confirmation, StoreError>)
        requires
            self.wf(),
        ensures
            match r {
                Ok(c) => has_confirmation_with_token(self.confirmations@, token@) && c
                    == confirmation_with_token(self.confirmations@, token@),
                Err(e) => e == StoreError::NotFound && !has_confirmation_with_token(
                    self.confirmations@,
                    token@,
                ),
            },
    {
        let mut i: usize = 0;
        while i < self.confirmations.len()
            invariant
                self.wf(),
                0 <= i <= self.confirmations@.len(),
                forall|j: int| 0 <= j < i ==> self.confirmations@[j].token@ != token@,
            decreases self.confirmations@.len() - i,
        {
            if string_eq(&self.confirmations[i].token, token) {
                proof {
                    let j = choose|j: int|
                        0 <= j < self.confirmations@.len() && self.confirmations@[j].token@
                            == token@;
                    assert(self.confirmations@[j].token@ == token@);
                    assert(j == i as int);
                }
                return Ok(clone_confirmation(&self.confirmations[i]));
            }
            i = i + 1;
        }
        Err(StoreError::NotFound)
    }

    /// The index of the confirmation carrying `token`, when it exists.
    pub open spec fn spec_confirmation_index(confirmations: Seq<Confirmation>, token: Seq<char>) -> int {
        choose|i: int| 0 <= i < confirmations.len() && confirmations[i].token@ == token
    }

    /// Deletes the confirmation carrying `token`. A missing token deletes
    /// nothing and succeeds.
    pub fn remove_confirmation(&mut self, token: &String) -> (r: Result<(), StoreError>)
        requires
            old(self).wf(),
        ensures
            final(self).wf(),
            r matches Ok(_),
            final(self).users@ == old(self).users@,
            final(self).sessions@ == old(self).sessions@,
            final(self).next_confirmation_id == old(self).next_confirmation_id,
            final(self).next_user_id == old(self).next_user_id,
            final(self).next_session_id == old(self).next_session_id,
            !has_confirmation_with_token(old(self).confirmations@, token@) ==> *final(self)
                == *old(self),
            has_confirmation_with_token(old(self).confirmations@, token@)
                ==> final(self).confirmations@ == old(self).confirmations@.remove(
                Self::spec_confirmation_index(old(self).confirmations@, token@),
            ),
    {
        let mut i: usize = 0;
        while i < self.confirmations.len()
            invariant
                *self == *old(self),
                old(self).wf(),
                0 <= i <= self.confirmations@.len(),
                forall|j: int| 0 <= j < i ==> self.confirmations@[j].token@ != token@,
            decreases self.confirmations@.len() - i,
        {
            if string_eq(&self.confirmations[i].token, token) {
                proof {
                    let j = Self::spec_confirmation_index(self.confirmations@, token@);
                    assert(0 <= j < self.confirmations@.len() && self.confirmations@[j].token@
                        == token@);
                    assert(j == i as int);
                    self.confirmations@.remove_ensures(i as int);
                }
                let _ = self.confirmations.remove(i);
                return Ok(());
            }
            i = i + 1;
        }
        Ok(())
    }

    /// Lists users in store order, from `offset` on and at most `limit`
    /// many. Absent bounds default to the whole table; negative bounds are
    /// an infrastructure error.
    pub fn list_users(&self, req: ListUsersRequest) -> (r: Result<ListUsersResponse, StoreError>)
        requires
            self.wf(),
        ensures
            match r {
                Ok(resp) => spec_offset(req) >= 0 && spec_limit(req) >= 0 && resp.users@
                    == list_window(self.users@, spec_offset(req), spec_limit(req)),
                Err(e) => e == StoreError::Internal && (spec_offset(req) < 0 || spec_limit(req)
                    < 0),
            },
    {
        let off_i64: i64 = match req.offset {
            Some(o) => o,
            None => 0,
        };
        let lim_i64: i64 = match req.limit {
            Some(l) => l,
            None => i64::MAX,
        };
        if off_i64 < 0 || lim_i64 < 0 {
            return Err(StoreError::Internal);
        }
        let len: usize = self.users.len();
        let lo: usize = if off_i64 as u64 >= len as u64 {
            len
        } else {
            off_i64 as usize
        };
        let end_wide: u128 = off_i64 as u128 + lim_i64 as u128;
        let hi: usize = if end_wide >= len as u128 {
            len
        } else {
            end_wide as usize
        };
        let mut out: Vec<User> = Vec::new();
        proof {
            assert(self.users@.subrange(lo as int, lo as int) =~= Seq::<User>::empty());
        }
        let mut i: usize = lo;
        while i < hi
            invariant
                lo <= i <= hi <= self.users@.len(),
                out@ == self.users@.subrange(lo as int, i as int),
            decreases hi - i,
        {
            out.push(clone_user(&self.users[i]));
            proof {
                assert(self.users@.subrange(lo as int, (i + 1) as int) =~= self.users@.subrange(
                    lo as int,
                    i as int,
                ).push(self.users@[i as int]));
            }
            i = i + 1;
        }
        proof {
            assert(out@ =~= list_window(self.users@, spec_offset(req), spec_limit(req)));
        }
        Ok(ListUsersResponse { users: out })
    }
}

/// Two users holding a common login value are the same row.
pub proof fn lemma_user_login_unique(
    users: Seq<User>,
    next_id: int,
    login: Seq<char>,
    i: int,
    j: int,
)
    requires
        users_wf(users, next_id),
        0 <= i < users.len(),
        0 <= j < users.len(),
        user_has_login(users[i], login),
        user_has_login(users[j], login),
    ensures
        i == j,
{
    if i != j {
        assert(logins_disjoint(users[i], users[j]));
        if opt_is(users[i].email, login) {
            assert(!user_has_login(users[j], login));
        } else {
            assert(opt_is(users[i].phone, login));
            assert(!user_has_login(users[j], login));
        }
    }
}

/// Law: a confirmation is single use. Once the confirmation carrying a
/// token is removed — as redeeming it does — no confirmation carries that
/// token any more, so a second redemption reports it absent.
pub proof fn lemma_confirmation_single_use(
    pre: Seq<Confirmation>,
    post: Seq<Confirmation>,
    next_id: int,
    token: Seq<char>,
)
    requires
        confirmations_wf(pre, next_id),
        has_confirmation_with_token(pre, token),
        post == pre.remove(CredentialStore::spec_confirmation_index(pre, token)),
    ensures
        !has_confirmation_with_token(post, token),
{
    let j = CredentialStore::spec_confirmation_index(pre, token);
    assert(0 <= j < pre.len() && pre[j].token@ == token);
    pre.remove_ensures(j);
    assert forall|k: int| 0 <= k < post.len() implies post[k].token@ != token by {
        if k < j {
            assert(pre.remove(j)[k] == pre[k]);
        } else {
            assert(pre.remove(j)[k] == pre[k + 1]);
        }
    }
}

/// Law: refreshing rotates a session. After the session named by the
/// refresh token is replaced by a fresh one — with tokens differing from
/// the old pair — the old access and refresh tokens name no session, while
/// the fresh pair does.
pub proof fn lemma_refresh_rotation(
    pre: CredentialStore,
    post: CredentialStore,
    token: Seq<char>,
    fresh: Session,
)
    requires
        pre.wf(),
        has_session_with_refresh(pre.sessions@, token),
        fresh.access_token@ != session_with_refresh(pre.sessions@, token).access_token@,
        fresh.refresh_token@ != token,
        post.sessions@ == pre.sessions@.remove(
            CredentialStore::spec_session_index(
                pre.sessions@,
                session_with_refresh(pre.sessions@, token).id as int,
            ),
        ).push(fresh),
    ensures
        !has_session_with_access(
            post.sessions@,
            session_with_refresh(pre.sessions@, token).access_token@,
        ),
        !has_session_with_refresh(post.sessions@, token),
        has_session_with_access(post.sessions@, fresh.access_token@),
        has_session_with_refresh(post.sessions@, fresh.refresh_token@),
{
    let ss = pre.sessions@;
    let s0 = session_with_refresh(ss, token);
    let j0 = choose|i: int| 0 <= i < ss.len() && ss[i].refresh_token@ == token;
    assert(0 <= j0 < ss.len() && ss[j0].refresh_token@ == token);
    let j = CredentialStore::spec_session_index(ss, s0.id as int);
    assert(0 <= j < ss.len() && ss[j].id == s0.id);
    assert(j == j0);
    ss.remove_ensures(j);
    let removed = ss.remove(j);
    assert(post.sessions@[post.sessions@.len() - 1] == fresh);
    assert forall|k: int| 0 <= k < post.sessions@.len() - 1 implies (post.sessions@[k].access_token@
        != s0.access_token@ && post.sessions@[k].refresh_token@ != token) by {
        assert(post.sessions@[k] == removed[k]);
        if k < j {
            assert(removed[k] == ss[k]);
        } else {
            assert(removed[k] == ss[k + 1]);
        }
    }
}

} // verus!
