use authority::errors::StoreError;
use authority::models::{AccessLevel, Login, NewSession, NewUser};
use authority::store::CredentialStore;

fn user_row(email: Option<&str>, phone: Option<&str>) -> NewUser {
    NewUser {
        phone: phone.map(|p| p.to_string()),
        email: email.map(|e| e.to_string()),
        password: "hash".to_string(),
        permissions: AccessLevel::User,
    }
}

#[test]
fn add_user_rejects_owned_login_values() {
    let mut store = CredentialStore::new();
    let first = store.add_user(user_row(Some("a@x"), None)).unwrap();
    assert_eq!(first.id, 1);
    // the same value on either channel is a uniqueness violation
    assert!(matches!(
        store.add_user(user_row(Some("a@x"), None)),
        Err(StoreError::UniqueViolation)
    ));
    assert!(matches!(
        store.add_user(user_row(None, Some("a@x"))),
        Err(StoreError::UniqueViolation)
    ));
    assert!(store.add_user(user_row(Some("b@x"), None)).is_ok());
    assert_eq!(store.users.len(), 2);
}

#[test]
fn get_user_and_password_hash_by_either_channel() {
    let mut store = CredentialStore::new();
    store.add_user(user_row(Some("a@x"), Some("777"))).unwrap();
    assert_eq!(store.get_user_by_login(&"a@x".to_string()).unwrap().id, 1);
    assert_eq!(store.get_user_by_login(&"777".to_string()).unwrap().id, 1);
    assert_eq!(
        store.get_password_hash(&"777".to_string()).unwrap(),
        "hash"
    );
    assert!(matches!(
        store.get_user_by_login(&"z".to_string()),
        Err(StoreError::NotFound)
    ));
    assert_eq!(
        store.get_password_hash(&"z".to_string()),
        Err(StoreError::NotFound)
    );
}

#[test]
fn user_role_lookup_and_update() {
    let mut store = CredentialStore::new();
    store.add_user(user_row(Some("a@x"), None)).unwrap();
    assert!(matches!(store.get_user_role(1), Ok(AccessLevel::User)));
    assert!(store.set_user_role(1, AccessLevel::Admin).is_ok());
    assert!(matches!(store.get_user_role(1), Ok(AccessLevel::Admin)));
    assert_eq!(store.get_user_role(9), Err(StoreError::NotFound));
    // updating an absent user changes no row and still succeeds
    assert!(store.set_user_role(9, AccessLevel::Admin).is_ok());
}

#[test]
fn confirm_user_refuses_values_owned_elsewhere() {
    let mut store = CredentialStore::new();
    store.add_user(user_row(Some("a@x"), None)).unwrap();
    store.add_user(user_row(None, None)).unwrap();
    let taken = store.confirm_user(2, Login::Email("a@x".to_string()));
    assert_eq!(taken, Err(StoreError::UniqueViolation));
    assert!(store.confirm_user(2, Login::Phone("555".to_string())).is_ok());
    assert_eq!(store.users[1].phone.as_deref(), Some("555"));
    // an absent user is updated nowhere and succeeds
    assert!(store.confirm_user(42, Login::Email("b@x".to_string())).is_ok());
}

#[test]
fn session_tokens_are_unique_per_column() {
    let mut store = CredentialStore::new();
    let session = NewSession {
        refresh_token: "r1".to_string(),
        access_token: "a1".to_string(),
        expires_at: 10,
        user_id: 1,
    };
    assert!(store.add_session(session).is_ok());
    let clash_access = NewSession {
        refresh_token: "r2".to_string(),
        access_token: "a1".to_string(),
        expires_at: 10,
        user_id: 1,
    };
    assert!(matches!(store.add_session(clash_access), Err(StoreError::UniqueViolation)));
    let clash_refresh = NewSession {
        refresh_token: "r1".to_string(),
        access_token: "a2".to_string(),
        expires_at: 10,
        user_id: 1,
    };
    assert!(matches!(store.add_session(clash_refresh), Err(StoreError::UniqueViolation)));

    assert_eq!(store.get_session_by_access_token(&"a1".to_string()).unwrap().id, 1);
    assert_eq!(store.get_session_by_refresh_token(&"r1".to_string()).unwrap().id, 1);
    assert!(matches!(
        store.get_session_by_access_token(&"zz".to_string()),
        Err(StoreError::NotFound)
    ));

    assert_eq!(store.remove_session(1).unwrap(), 1);
    assert_eq!(store.remove_session(1).unwrap(), 0);
    assert!(store.sessions.is_empty());
}

#[test]
fn confirmation_rows_are_single_per_token_and_value() {
    let mut store = CredentialStore::new();
    let email = Login::Email("a@x".to_string());
    assert!(store.add_confirmation(1, &email, &"t1".to_string()).is_ok());
    // the token, the pending value, and an owned value each collide
    assert_eq!(
        store.add_confirmation(2, &Login::Email("b@x".to_string()), &"t1".to_string()),
        Err(StoreError::UniqueViolation)
    );
    assert_eq!(
        store.add_confirmation(2, &email, &"t2".to_string()),
        Err(StoreError::UniqueViolation)
    );
    store.add_user(user_row(Some("c@x"), None)).unwrap();
    assert_eq!(
        store.add_confirmation(2, &Login::Email("c@x".to_string()), &"t3".to_string()),
        Err(StoreError::UniqueViolation)
    );

    let found = store.find_confirmation(&"t1".to_string()).unwrap();
    assert_eq!(found.email.as_deref(), Some("a@x"));
    assert!(found.phone.is_none());
    assert!(matches!(
        store.find_confirmation(&"t9".to_string()),
        Err(StoreError::NotFound)
    ));

    assert!(store.remove_confirmation(&"t1".to_string()).is_ok());
    assert!(store.confirmations.is_empty());
    // removing an absent token removes nothing and succeeds
    assert!(store.remove_confirmation(&"t1".to_string()).is_ok());
}
