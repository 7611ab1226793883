use space_trader::models::account::{AccountError, AccountManager};

#[test]
fn test_register_and_authenticate() {
    let mut manager = AccountManager::new();

    let account = manager.register_account("testuser", "password123", None).unwrap();
    assert_eq!(account.username, "testuser");

    let auth_result = manager.authenticate("testuser", "password123");
    assert!(auth_result.is_ok());

    let auth_fail = manager.authenticate("testuser", "wrongpassword");
    assert!(auth_fail.is_err());
}

#[test]
fn test_username_exists() {
    let mut manager = AccountManager::new();

    manager.register_account("existinguser", "password123", None).unwrap();

    assert!(manager.username_exists("existinguser"));
    assert!(!manager.username_exists("nonexistentuser"));
}

#[test]
fn register_twice_is_refused() {
    let mut manager = AccountManager::new();
    manager.register_account("pilot", "secret", Some("pilot@example.com")).unwrap();
    let second = manager.register_account("pilot", "other", None);
    assert!(matches!(second, Err(AccountError::UsernameExists)));
    assert_eq!(manager.get_all_usernames(), vec!["pilot".to_string()]);
}

#[test]
fn registered_account_is_found_by_name_and_id() {
    let mut manager = AccountManager::new();
    let account = manager.register_account("nova", "pw", Some("nova@example.com")).unwrap();
    assert_eq!(account.email, Some("nova@example.com".to_string()));
    assert!(account.characters.is_empty());
    assert_eq!(account.last_login, None);
    assert_ne!(account.password_hash, "pw");
    let by_name = manager.get_account_by_username("nova").unwrap();
    assert_eq!(by_name.id, account.id);
    let by_id = manager.get_account_by_id(&account.id).unwrap();
    assert_eq!(by_id.username, "nova");
    assert!(manager.get_account_by_id("no-such-id").is_none());
}

#[test]
fn login_records_time_and_is_repeatable() {
    let mut manager = AccountManager::new();
    manager.register_account("ace", "pw1", None).unwrap();
    let first = manager.authenticate("ace", "pw1").unwrap();
    assert!(first.last_login.is_some());
    let second = manager.authenticate("ace", "pw1").unwrap();
    assert!(second.last_login.is_some());
    assert!(matches!(manager.authenticate("ghost", "pw1"), Err(AccountError::InvalidCredentials)));
}

#[test]
fn characters_are_listed_once() {
    let mut manager = AccountManager::new();
    manager.register_account("cap", "pw", None).unwrap();
    assert!(manager.add_character("cap", "char-1").is_ok());
    assert!(manager.add_character("cap", "char-1").is_ok());
    assert!(manager.add_character("cap", "char-2").is_ok());
    let acc = manager.get_account_by_username("cap").unwrap();
    assert_eq!(acc.characters, vec!["char-1".to_string(), "char-2".to_string()]);
    assert!(matches!(manager.add_character("nobody", "c"), Err(AccountError::AccountNotFound)));
}

#[test]
fn password_change_takes_effect() {
    let mut manager = AccountManager::new();
    manager.register_account("mira", "old", None).unwrap();
    assert!(matches!(manager.change_password("mira", "wrong", "new"), Err(AccountError::InvalidCredentials)));
    assert!(manager.change_password("mira", "old", "new").is_ok());
    assert!(manager.authenticate("mira", "old").is_err());
    assert!(manager.authenticate("mira", "new").is_ok());
}

#[test]
fn deleted_account_is_gone() {
    let mut manager = AccountManager::new();
    let acc = manager.register_account("zed", "pw", None).unwrap();
    assert!(manager.delete_account("zed", "bad").is_err());
    assert!(manager.username_exists("zed"));
    assert!(manager.delete_account("zed", "pw").is_ok());
    assert!(!manager.username_exists("zed"));
    assert!(manager.get_account_by_id(&acc.id).is_none());
}

#[test]
fn account_error_messages() {
    assert_eq!(AccountError::UsernameExists.message(), "Username already exists");
    assert_eq!(AccountError::InvalidCredentials.message(), "Invalid credentials");
    assert_eq!(AccountError::AccountNotFound.message(), "Account not found");
    assert_eq!(AccountError::HashingFailed.message(), "Failed to hash password");
}

#[test]
fn ids_name_their_accounts() {
    let mut manager = AccountManager::new();
    let a = manager.register_account("alpha", "pw-a", None).unwrap();
    let b = manager.register_account("beta", "pw-b", None).unwrap();
    let found_a = manager.get_account_by_id(&a.id).unwrap();
    assert_eq!((found_a.id.as_str(), found_a.username.as_str()), (a.id.as_str(), "alpha"));
    let found_b = manager.get_account_by_id(&b.id).unwrap();
    assert_eq!((found_b.id.as_str(), found_b.username.as_str()), (b.id.as_str(), "beta"));
    manager.add_character("alpha", "char-1").unwrap();
    assert_eq!(manager.get_account_by_id(&a.id).unwrap().username, "alpha");
    manager.delete_account("beta", "pw-b").unwrap();
    assert!(manager.get_account_by_id(&b.id).is_none());
    assert!(manager.get_account_by_id(&a.id).is_some());
}
