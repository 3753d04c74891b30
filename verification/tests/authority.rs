use authority::errors::{rpc_code, Error, RpcCode};
use authority::gateway::{authorize, interpret_validation, Client};
use authority::models::{
    parse_role, role_at_least, role_code, AccessLevel, ListUsersRequest, LoginRequest, NewUser,
    RefreshRequest, UpdateUserRequest,
};
use authority::server::parse_token;
use authority::service::{ConfirmationsSender, Service};
use authority::store::CredentialStore;
use authority::text::parse_i32;

/// A dispatch port that records what it was asked to deliver.
struct RecordingSender {
    sent: Vec<(String, String)>,
}

impl RecordingSender {
    fn new() -> RecordingSender {
        RecordingSender { sent: Vec::new() }
    }
}

impl ConfirmationsSender for RecordingSender {
    fn send(
        &mut self,
        login: &authority::models::Login,
        token: &String,
    ) -> Result<(), Error> {
        let value = match login {
            authority::models::Login::Email(e) => format!("email:{}", e),
            authority::models::Login::Phone(p) => format!("phone:{}", p),
        };
        self.sent.push((value, token.clone()));
        Ok(())
    }
}

/// A dispatch port whose delivery always fails.
struct FailingSender;

impl ConfirmationsSender for FailingSender {
    fn send(&mut self, _login: &authority::models::Login, _token: &String) -> Result<(), Error> {
        Err(Error::TransportInternal)
    }
}

fn email_user(email: &str, password: &str) -> NewUser {
    NewUser {
        phone: None,
        email: Some(email.to_string()),
        password: password.to_string(),
        permissions: AccessLevel::User,
    }
}

#[test]
fn register_with_email_creates_one_confirmation() {
    let service = Service::new(60);
    let mut store = CredentialStore::new();
    let mut sender = RecordingSender::new();
    let r = service.register(&mut store, &mut sender, email_user("a@example.com", "pw"));
    assert!(r.is_ok());
    assert_eq!(store.confirmations.len(), 1);
    assert_eq!(store.confirmations[0].email.as_deref(), Some("a@example.com"));
    assert!(store.confirmations[0].phone.is_none());
    assert_eq!(store.confirmations[0].user_id, store.users[0].id);
    assert_eq!(sender.sent.len(), 1);
    assert_eq!(sender.sent[0].1, store.confirmations[0].token);
    // the stored token is a fresh 32-character alphanumeric credential
    assert_eq!(store.confirmations[0].token.len(), 32);
    assert!(store.confirmations[0].token.chars().all(|c| c.is_ascii_alphanumeric()));
    // login fields are cleared until a confirmation is redeemed
    assert!(store.users[0].email.is_none());
    assert!(store.users[0].phone.is_none());
}

#[test]
fn register_pins_the_default_role() {
    let service = Service::new(60);
    let mut store = CredentialStore::new();
    let mut sender = RecordingSender::new();
    // a request carrying Admin cannot mint an Admin: the stored role is the default
    let user = NewUser {
        phone: None,
        email: Some("root@example.com".to_string()),
        password: "pw".to_string(),
        permissions: AccessLevel::Admin,
    };
    assert!(service.register(&mut store, &mut sender, user).is_ok());
    assert_eq!(store.users[0].permissions, AccessLevel::User);
}

#[test]
fn register_refuses_one_value_on_both_channels() {
    let service = Service::new(60);
    let mut store = CredentialStore::new();
    let mut sender = RecordingSender::new();
    let user = NewUser {
        phone: Some("same@example.com".to_string()),
        email: Some("same@example.com".to_string()),
        password: "pw".to_string(),
        permissions: AccessLevel::User,
    };
    assert_eq!(service.register(&mut store, &mut sender, user), Err(Error::LoginTaken));
    assert!(store.users.is_empty());
}

#[test]
fn register_with_both_channels_creates_two_confirmations() {
    let service = Service::new(60);
    let mut store = CredentialStore::new();
    let mut sender = RecordingSender::new();
    let user = NewUser {
        phone: Some("12345".to_string()),
        email: Some("b@example.com".to_string()),
        password: "pw".to_string(),
        permissions: AccessLevel::User,
    };
    assert!(service.register(&mut store, &mut sender, user).is_ok());
    assert_eq!(store.confirmations.len(), 2);
    assert_eq!(store.confirmations[0].email.as_deref(), Some("b@example.com"));
    assert!(store.confirmations[0].phone.is_none());
    assert_eq!(store.confirmations[1].phone.as_deref(), Some("12345"));
    assert!(store.confirmations[1].email.is_none());
}

#[test]
fn register_rejects_missing_login_and_empty_password() {
    let service = Service::new(60);
    let mut store = CredentialStore::new();
    let mut sender = RecordingSender::new();
    let no_login = NewUser {
        phone: None,
        email: None,
        password: "pw".to_string(),
        permissions: AccessLevel::User,
    };
    assert_eq!(service.register(&mut store, &mut sender, no_login), Err(Error::InvalidInput));
    let no_password = email_user("c@example.com", "");
    assert_eq!(service.register(&mut store, &mut sender, no_password), Err(Error::InvalidInput));
    assert!(store.users.is_empty());
}

#[test]
fn register_duplicate_login_fails_with_login_taken() {
    let service = Service::new(60);
    let mut store = CredentialStore::new();
    let mut sender = RecordingSender::new();
    assert!(service.register(&mut store, &mut sender, email_user("d@example.com", "pw")).is_ok());
    let r = service.register(&mut store, &mut sender, email_user("d@example.com", "pw2"));
    assert_eq!(r, Err(Error::LoginTaken));
}

#[test]
fn register_succeeds_even_when_dispatch_fails() {
    let service = Service::new(60);
    let mut store = CredentialStore::new();
    let mut sender = FailingSender;
    let r = service.register(&mut store, &mut sender, email_user("e@example.com", "pw"));
    assert!(r.is_ok());
    assert_eq!(store.confirmations.len(), 1);
}

#[test]
fn password_is_stored_as_a_hash() {
    let service = Service::new(60);
    let mut store = CredentialStore::new();
    let mut sender = RecordingSender::new();
    assert!(service.register(&mut store, &mut sender, email_user("f@example.com", "secret")).is_ok());
    assert_ne!(store.users[0].password, "secret");
}

#[test]
fn confirm_sets_login_field_and_is_single_use() {
    let service = Service::new(60);
    let mut store = CredentialStore::new();
    let mut sender = RecordingSender::new();
    assert!(service.register(&mut store, &mut sender, email_user("g@example.com", "pw")).is_ok());
    let token = store.confirmations[0].token.clone();
    assert!(service.confirm(&mut store, &token).is_ok());
    assert_eq!(store.users[0].email.as_deref(), Some("g@example.com"));
    // the second redemption of the same token reports it absent
    assert_eq!(service.confirm(&mut store, &token), Err(Error::NotFound));
}

#[test]
fn confirm_unknown_token_is_not_found() {
    let service = Service::new(60);
    let mut store = CredentialStore::new();
    assert_eq!(service.confirm(&mut store, &"nope".to_string()), Err(Error::NotFound));
}

fn registered_and_confirmed(store: &mut CredentialStore, email: &str, password: &str) {
    let service = Service::new(60);
    let mut sender = RecordingSender::new();
    service.register(store, &mut sender, email_user(email, password)).unwrap();
    let token = store.confirmations[store.confirmations.len() - 1].token.clone();
    service.confirm(store, &token).unwrap();
}

#[test]
fn login_failures_are_indistinguishable() {
    let service = Service::new(60);
    let mut store = CredentialStore::new();
    registered_and_confirmed(&mut store, "h@example.com", "right");
    let unknown = service.login(
        &mut store,
        &LoginRequest { login: "nobody@example.com".to_string(), password: "x".to_string() },
        100,
    );
    let wrong = service.login(
        &mut store,
        &LoginRequest { login: "h@example.com".to_string(), password: "wrong".to_string() },
        100,
    );
    assert_eq!(unknown.unwrap_err(), Error::InvalidCredentials);
    assert_eq!(wrong.unwrap_err(), Error::InvalidCredentials);
}

#[test]
fn login_issues_a_validating_session() {
    let service = Service::new(60);
    let mut store = CredentialStore::new();
    registered_and_confirmed(&mut store, "i@example.com", "pw");
    let tokens = service
        .login(
            &mut store,
            &LoginRequest { login: "i@example.com".to_string(), password: "pw".to_string() },
            1000,
        )
        .unwrap();
    assert_eq!(tokens.access_token.len(), 32);
    assert_eq!(tokens.refresh_token.len(), 32);
    assert!(tokens.access_token.chars().all(|c| c.is_ascii_alphanumeric()));
    let v = service.validate(&store, &tokens.access_token, 1030);
    assert!(v.valid);
    assert!(matches!(v.role, AccessLevel::User));
}

#[test]
fn validate_expired_token_is_invalid_without_error() {
    let service = Service::new(60);
    let mut store = CredentialStore::new();
    registered_and_confirmed(&mut store, "j@example.com", "pw");
    let tokens = service
        .login(
            &mut store,
            &LoginRequest { login: "j@example.com".to_string(), password: "pw".to_string() },
            1000,
        )
        .unwrap();
    // expiry is 1060; well past it the token is reported invalid, quietly
    let v = service.validate(&store, &tokens.access_token, 2000);
    assert!(!v.valid);
}

#[test]
fn validate_unknown_token_is_invalid() {
    let service = Service::new(60);
    let store = CredentialStore::new();
    let v = service.validate(&store, &"zzz".to_string(), 0);
    assert!(!v.valid);
    assert!(matches!(v.role, AccessLevel::User));
}

#[test]
fn refresh_rotates_the_session() {
    let service = Service::new(60);
    let mut store = CredentialStore::new();
    registered_and_confirmed(&mut store, "k@example.com", "pw");
    let first = service
        .login(
            &mut store,
            &LoginRequest { login: "k@example.com".to_string(), password: "pw".to_string() },
            1000,
        )
        .unwrap();
    let second = service
        .refresh(
            &mut store,
            &RefreshRequest { refresh_token: first.refresh_token.clone() },
            1010,
        )
        .unwrap();
    // the old pair is dead for both validate and refresh
    assert!(!service.validate(&store, &first.access_token, 1020).valid);
    let again = service.refresh(
        &mut store,
        &RefreshRequest { refresh_token: first.refresh_token.clone() },
        1020,
    );
    assert_eq!(again.unwrap_err(), Error::Unauthorized);
    // the new pair is live for both
    assert!(service.validate(&store, &second.access_token, 1020).valid);
    assert!(service
        .refresh(&mut store, &RefreshRequest { refresh_token: second.refresh_token.clone() }, 1030)
        .is_ok());
}

#[test]
fn refresh_unknown_token_is_unauthorized() {
    let service = Service::new(60);
    let mut store = CredentialStore::new();
    let r = service.refresh(&mut store, &RefreshRequest { refresh_token: "x".to_string() }, 0);
    assert_eq!(r.unwrap_err(), Error::Unauthorized);
}

#[test]
fn set_user_role_updates_and_validates_as_admin() {
    let service = Service::new(60);
    let mut store = CredentialStore::new();
    registered_and_confirmed(&mut store, "l@example.com", "pw");
    let id = store.users[0].id;
    let req = UpdateUserRequest { user_id: id.to_string(), role: AccessLevel::Admin };
    assert!(service.set_user_role(&mut store, &req).is_ok());
    let tokens = service
        .login(
            &mut store,
            &LoginRequest { login: "l@example.com".to_string(), password: "pw".to_string() },
            10,
        )
        .unwrap();
    let v = service.validate(&store, &tokens.access_token, 20);
    assert!(v.valid);
    assert!(matches!(v.role, AccessLevel::Admin));
}

#[test]
fn set_user_role_rejects_unparsable_ids() {
    let service = Service::new(60);
    let mut store = CredentialStore::new();
    let req = UpdateUserRequest { user_id: "not-a-number".to_string(), role: AccessLevel::Admin };
    assert_eq!(service.set_user_role(&mut store, &req), Err(Error::InvalidInput));
    // an absent user updates no row and succeeds, as the store does
    let req = UpdateUserRequest { user_id: "99".to_string(), role: AccessLevel::Admin };
    assert!(service.set_user_role(&mut store, &req).is_ok());
}

#[test]
fn list_users_pages_and_defaults() {
    let service = Service::new(60);
    let mut store = CredentialStore::new();
    registered_and_confirmed(&mut store, "m1@example.com", "pw");
    registered_and_confirmed(&mut store, "m2@example.com", "pw");
    registered_and_confirmed(&mut store, "m3@example.com", "pw");
    let all = service
        .list_users(&store, ListUsersRequest { offset: None, limit: None })
        .unwrap();
    assert_eq!(all.users.len(), 3);
    let page = service
        .list_users(&store, ListUsersRequest { offset: Some(1), limit: Some(1) })
        .unwrap();
    assert_eq!(page.users.len(), 1);
    assert_eq!(page.users[0].id, all.users[1].id);
    let none = service
        .list_users(&store, ListUsersRequest { offset: Some(9), limit: None })
        .unwrap();
    assert!(none.users.is_empty());
    let bad = service.list_users(&store, ListUsersRequest { offset: Some(-1), limit: None });
    assert_eq!(bad.unwrap_err(), Error::StoreInternal);
}

#[test]
fn parse_i32_accepts_exactly_decimal_i32() {
    assert_eq!(parse_i32(&"0".to_string()), Ok(0));
    assert_eq!(parse_i32(&"+42".to_string()), Ok(42));
    assert_eq!(parse_i32(&"-17".to_string()), Ok(-17));
    assert_eq!(parse_i32(&"2147483647".to_string()), Ok(2147483647));
    assert_eq!(parse_i32(&"-2147483648".to_string()), Ok(-2147483648));
    assert_eq!(parse_i32(&"2147483648".to_string()), Err(Error::InvalidInput));
    assert_eq!(parse_i32(&"".to_string()), Err(Error::InvalidInput));
    assert_eq!(parse_i32(&"-".to_string()), Err(Error::InvalidInput));
    assert_eq!(parse_i32(&"12a".to_string()), Err(Error::InvalidInput));
    assert_eq!(parse_i32(&"007".to_string()), Ok(7));
}

#[test]
fn parse_token_strips_every_bearer_marker() {
    assert_eq!(parse_token(None), Err(Error::Unauthorized));
    assert_eq!(parse_token(Some(&"Bearer abc".to_string())), Ok("abc".to_string()));
    assert_eq!(parse_token(Some(&"Bearer Bearer abc".to_string())), Ok("abc".to_string()));
    assert_eq!(parse_token(Some(&"abc".to_string())), Ok("abc".to_string()));
    assert_eq!(parse_token(Some(&"Bearer".to_string())), Ok("Bearer".to_string()));
}

#[test]
fn roles_order_and_codes() {
    assert!(matches!(parse_role(0), AccessLevel::User));
    assert!(matches!(parse_role(1), AccessLevel::Admin));
    assert_eq!(role_code(AccessLevel::User), 0);
    assert_eq!(role_code(AccessLevel::Admin), 1);
    assert!(role_at_least(AccessLevel::Admin, AccessLevel::User));
    assert!(role_at_least(AccessLevel::Admin, AccessLevel::Admin));
    assert!(role_at_least(AccessLevel::User, AccessLevel::User));
    assert!(!role_at_least(AccessLevel::User, AccessLevel::Admin));
}

#[test]
fn authorize_gates_by_role() {
    // a User-role token must be rejected by an operation requiring Admin
    assert_eq!(authorize(Some(AccessLevel::User), AccessLevel::Admin), Err(Error::Unauthorized));
    // an Admin-role token must be accepted by an operation requiring User
    assert!(authorize(Some(AccessLevel::Admin), AccessLevel::User).is_ok());
    assert!(authorize(Some(AccessLevel::User), AccessLevel::User).is_ok());
    assert_eq!(authorize(None, AccessLevel::User), Err(Error::Unauthorized));
}

#[test]
fn interpret_validation_maps_wire_outcomes() {
    assert_eq!(interpret_validation(true, 0), Some(AccessLevel::User));
    assert_eq!(interpret_validation(true, 1), Some(AccessLevel::Admin));
    assert_eq!(interpret_validation(false, 1), None);
    assert_eq!(interpret_validation(true, 7), None);
}

#[test]
fn client_keeps_an_http_endpoint() {
    let c = Client::new("auth:50051").unwrap();
    assert_eq!(c.endpoint, "http://auth:50051");
}

#[test]
fn rpc_codes_follow_the_propagation_policy() {
    assert_eq!(rpc_code(&Error::InvalidInput), RpcCode::InvalidArgument);
    assert_eq!(rpc_code(&Error::LoginTaken), RpcCode::InvalidArgument);
    assert_eq!(rpc_code(&Error::InvalidCredentials), RpcCode::Unauthenticated);
    assert_eq!(rpc_code(&Error::Unauthorized), RpcCode::Unauthenticated);
    assert_eq!(rpc_code(&Error::NotFound), RpcCode::NotFound);
    assert_eq!(rpc_code(&Error::StoreInternal), RpcCode::Internal);
    assert_eq!(rpc_code(&Error::TransportInternal), RpcCode::Internal);
}

#[test]
fn server_handles_hold_their_parts() {
    let service = Service::new(30);
    let client = Client::new("auth:1").unwrap();
    let server = authority::server::Server::new(service, client);
    assert_eq!(server.auth.session_timeout, 30);
    assert_eq!(server.auth_client.endpoint, "http://auth:1");
}
