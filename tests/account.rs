use trackr::credentials::{hash_password, verify_password};
use trackr::domain::{Account, Password, Username};
use trackr::service::{
    create_user, prepare_signup, register, status_code, store_signup, CreateAccount, ServiceError,
};
use trackr::store::Store;

fn signup(username: &str, password: &str) -> CreateAccount {
    CreateAccount { username: username.to_string(), password: password.to_string() }
}

#[test]
fn errors_if_password_is_too_short() {
    let password = "aaa".to_string();

    let parsed_password = Password::try_from(password);

    assert!(parsed_password.is_err())
}

#[test]
fn returns_parsed_password() {
    let password = "somelongpassword".to_string();

    let parsed_password = Password::try_from(password);

    assert!(parsed_password.is_ok());
    assert_eq!(parsed_password.unwrap().as_ref(), "somelongpassword");
}

#[test]
fn password_of_exactly_eight_characters_is_accepted() {
    assert!(Password::try_from("12345678".to_string()).is_ok());
    assert!(Password::try_from("1234567".to_string()).is_err());
    assert!(Password::try_from(String::new()).is_err());
}

#[test]
fn password_length_counts_characters() {
    // seven characters, fourteen bytes
    assert!(Password::try_from("ééééééé".to_string()).is_err());
    assert!(Password::try_from("éééééééé".to_string()).is_ok());
}

#[test]
fn username_accepts_any_text() {
    let u = Username::try_from("alice".to_string()).unwrap();
    assert_eq!(u.as_ref(), "alice");
    assert_eq!(u.to_string(), "alice");
    assert_eq!(Account::new(u).username(), "alice");
    assert!(Username::try_from(String::new()).is_ok());
}

#[test]
fn short_password_is_rejected_before_any_write() {
    let mut store = Store::new();
    for pw in ["", "a", "1234567"] {
        let r = create_user(&mut store, signup("bob", pw));
        assert_eq!(r.err(), Some(ServiceError::Validation));
        assert_eq!(store.user_count(), 0);
    }
}

#[test]
fn second_signup_with_same_username_conflicts() {
    let mut store = Store::new();
    let first = create_user(&mut store, signup("carol", "password123")).unwrap();
    assert_eq!(first.username(), "carol");
    let second = create_user(&mut store, signup("carol", "another-password"));
    assert_eq!(second.err(), Some(ServiceError::Conflict));
    assert_eq!(store.user_count(), 1);
    assert!(store.find_user(&"carol".to_string()).is_some());
}

#[test]
fn usernames_are_case_sensitive() {
    let mut store = Store::new();
    assert!(create_user(&mut store, signup("Dave", "password123")).is_ok());
    assert!(create_user(&mut store, signup("dave", "password123")).is_ok());
    assert_eq!(store.user_count(), 2);
}

#[test]
fn stored_account_keeps_hash_not_plaintext() {
    let mut store = Store::new();
    create_user(&mut store, signup("erin", "password123")).unwrap();
    let i = store.find_user(&"erin".to_string()).unwrap();
    let row = store.user(i);
    assert_eq!(row.username, "erin");
    assert_ne!(row.password_hash, "password123");
    assert!(row.password_hash.contains(&row.password_salt));
    assert_eq!(verify_password("password123", &row.password_hash), Some(true));
}

#[test]
fn hash_then_verify_round_trips() {
    let pw = Password::try_from("correct horse".to_string()).unwrap();
    let h = hash_password(&pw).unwrap();
    assert_ne!(h.hash, "correct horse");
    assert!(h.hash.starts_with("$argon2id$"));
    assert_eq!(verify_password("correct horse", &h.hash), Some(true));
    assert_eq!(verify_password("correct horsf", &h.hash), Some(false));
    assert_eq!(verify_password("", &h.hash), Some(false));
}

#[test]
fn each_hash_has_a_fresh_salt() {
    let pw = Password::try_from("password123".to_string()).unwrap();
    let a = hash_password(&pw).unwrap();
    let b = hash_password(&pw).unwrap();
    assert_ne!(a.salt, b.salt);
    assert_ne!(a.hash, b.hash);
}

#[test]
fn malformed_stored_hash_is_not_a_wrong_password() {
    assert_eq!(verify_password("password123", "not a hash"), None);
}

#[test]
fn register_reports_conflict_on_taken_name() {
    let mut store = Store::new();
    let pw = Password::try_from("password123".to_string()).unwrap();
    let h1 = hash_password(&pw).unwrap();
    let h2 = hash_password(&pw).unwrap();
    let a = register(&mut store, 1, Username::try_from("frank".to_string()).unwrap(), h1);
    assert_eq!(a.unwrap().username(), "frank");
    let b = register(&mut store, 2, Username::try_from("frank".to_string()).unwrap(), h2);
    assert_eq!(b.err(), Some(ServiceError::Conflict));
    assert_eq!(store.user(0).id, 1);
    assert_eq!(store.user_count(), 1);
}

#[test]
fn error_statuses() {
    assert_eq!(status_code(ServiceError::Validation), 400);
    assert_eq!(status_code(ServiceError::Conflict), 409);
    assert_eq!(status_code(ServiceError::Unauthorized), 401);
    assert_eq!(status_code(ServiceError::Internal), 500);
}

#[test]
fn prepared_signup_is_stored_once() {
    let prepared = prepare_signup(signup("judy", "password123"));
    let (username, hashed) = prepared.ok().unwrap();
    assert_eq!(username.as_ref(), "judy");
    assert_eq!(verify_password("password123", &hashed.hash), Some(true));
    let mut store = Store::new();
    assert_eq!(store_signup(&mut store, username, hashed).unwrap().username(), "judy");
    let (again, hashed_again) = prepare_signup(signup("judy", "password456")).ok().unwrap();
    assert_eq!(store_signup(&mut store, again, hashed_again).err(), Some(ServiceError::Conflict));
    assert_eq!(store.user_count(), 1);
}

#[test]
fn prepare_signup_rejects_short_password() {
    assert!(matches!(prepare_signup(signup("kate", "short")), Err(ServiceError::Validation)));
}

#[test]
fn short_password_error_text() {
    assert_eq!(Password::try_from("short".to_string()).err(), Some("password is too short".to_string()));
}

#[test]
fn repeated_account_id_is_internal() {
    let mut store = Store::new();
    let pw = Password::try_from("password123".to_string()).unwrap();
    let h1 = hash_password(&pw).unwrap();
    let h2 = hash_password(&pw).unwrap();
    assert!(register(&mut store, 7, Username::try_from("lena".to_string()).unwrap(), h1).is_ok());
    let b = register(&mut store, 7, Username::try_from("mona".to_string()).unwrap(), h2);
    assert_eq!(b.err(), Some(ServiceError::Internal));
    assert_eq!(store.user_count(), 1);
}
