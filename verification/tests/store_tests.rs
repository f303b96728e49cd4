//! Tests for the credential store.

use auth_service::hashmap_user_store::HashmapUserStore;
use auth_service::hashmap_user_store::UserStoreError;
use auth_service::user::User;

#[test]
fn test_add_user() {
    let mut store = HashmapUserStore::default();
    let new_user = User::new("test_email".to_string(), "test_password".to_string(), true);
    let result_first_add = store.add_user(new_user.clone());
    assert_eq!(Ok(()), result_first_add);
    let result_second_add = store.add_user(new_user);
    assert_eq!(Err(UserStoreError::UserAlreadyExists), result_second_add);
}

#[test]
fn test_get_user() {
    let a_user = User::new("one".to_string(), "two".to_string(), true);
    let mut store = HashmapUserStore::default();
    store
        .add_user(a_user.clone())
        .expect("adding a fresh user succeeds");
    let known_user = store.get_user("one").expect("The user should be known");
    assert_eq!(known_user, a_user);
    let unknown_user = store
        .get_user("ten")
        .err()
        .expect("The user should not be known");
    assert_eq!(unknown_user, UserStoreError::UserNotFound);
}

#[test]
fn test_validate_user() {
    let a_user = User::new("one".to_string(), "two".to_string(), true);
    let mut store = HashmapUserStore::default();
    store
        .add_user(a_user.clone())
        .expect("adding a fresh user succeeds");
    let valid_user = store.validate_user("one", "two");
    assert_eq!(valid_user, Ok(()));
    let invalid_user = store.validate_user("one", "three");
    assert_eq!(invalid_user, Err(UserStoreError::InvalidCredentials));
    let unknown_user = store
        .validate_user("ten", "eleven")
        .err()
        .expect("The user should not be known");
    assert_eq!(unknown_user, UserStoreError::UserNotFound);
}

#[test]
fn add_user_rejects_same_identifier_in_other_case() {
    let mut store = HashmapUserStore::default();
    let first = User::new("Carol@Example.COM".to_string(), "pw".to_string(), false);
    assert_eq!(store.add_user(first), Ok(()));
    let second = User::new("carol@example.com".to_string(), "other".to_string(), false);
    assert_eq!(store.add_user(second), Err(UserStoreError::UserAlreadyExists));
}

#[test]
fn get_user_ignores_identifier_case() {
    let mut store = HashmapUserStore::default();
    let user = User::new("dora@example.com".to_string(), "pw".to_string(), false);
    store.add_user(user.clone()).expect("fresh identifier");
    let found = store.get_user("DORA@EXAMPLE.COM").expect("found despite case");
    assert_eq!(found, user);
}

#[test]
fn stored_credential_is_not_the_plaintext() {
    let user = User::new("erin@example.com".to_string(), "hunter2".to_string(), false);
    assert_ne!(user.password, "hunter2");
    assert_eq!(user.email, "erin@example.com");
    assert!(!user.requires_2fa());
    let with_flag = User::new("frank@example.com".to_string(), "pw".to_string(), true);
    assert!(with_flag.requires_2fa());
}
