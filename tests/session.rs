use trackr::service::{authorize, create_user, login, login_with, CreateAccount, Login, ServiceError};
use trackr::session::{is_live, session_expiry, token_for};
use trackr::store::{SessionRow, Store};

fn creds(username: &str, password: &str) -> Login {
    Login { username: username.to_string(), password: password.to_string() }
}

fn store_with(username: &str, password: &str) -> Store {
    let mut store = Store::new();
    let account = CreateAccount { username: username.to_string(), password: password.to_string() };
    create_user(&mut store, account).unwrap();
    store
}

#[test]
fn expiry_is_ninety_days_later() {
    assert_eq!(session_expiry(0), Some(7_776_000));
    assert_eq!(session_expiry(1_700_000_000), Some(1_707_776_000));
    assert_eq!(session_expiry(i64::MAX), None);
    assert_eq!(session_expiry(i64::MAX - 7_776_000), Some(i64::MAX));
}

#[test]
fn liveness_is_strictly_before_expiry() {
    assert!(is_live(100, 99));
    assert!(!is_live(100, 100));
    assert!(!is_live(100, 101));
}

#[test]
fn token_is_prefixed_uuid_text() {
    assert_eq!(token_for(0), "trackr-00000000-0000-0000-0000-000000000000");
    assert_eq!(
        token_for(0x0123456789abcdef0123456789abcdef),
        "trackr-01234567-89ab-cdef-0123-456789abcdef"
    );
}

#[test]
fn token_validates_until_expiry() {
    let mut store = Store::new();
    store.insert_session(SessionRow { id: 1, user_id: 42, token: "t".to_string(), expires_at: 1000 }).unwrap();
    let t = "t".to_string();
    assert_eq!(authorize(&store, &t, 0), Ok(42));
    assert_eq!(authorize(&store, &t, 999), Ok(42));
    assert_eq!(authorize(&store, &t, 1000), Err(ServiceError::Unauthorized));
    assert_eq!(authorize(&store, &t, 1001), Err(ServiceError::Unauthorized));
    assert_eq!(authorize(&store, &"u".to_string(), 0), Err(ServiceError::Unauthorized));
}

#[test]
fn login_with_issues_ninety_day_session() {
    let mut store = store_with("gina", "password123");
    let token = login_with(&mut store, &creds("gina", "password123"), 7, 1_000).unwrap();
    assert_eq!(token, "trackr-00000000-0000-0000-0000-000000000007");
    assert_eq!(store.session_count(), 1);
    let user_id = store.user(0).id;
    assert_eq!(authorize(&store, &token, 1_000), Ok(user_id));
    assert_eq!(authorize(&store, &token, 7_776_999), Ok(user_id));
    assert_eq!(authorize(&store, &token, 7_777_000), Err(ServiceError::Unauthorized));
}

#[test]
fn login_with_overflowing_expiry_is_internal() {
    let mut store = store_with("hank", "password123");
    let r = login_with(&mut store, &creds("hank", "password123"), 1, i64::MAX);
    assert_eq!(r, Err(ServiceError::Internal));
    assert_eq!(store.session_count(), 0);
}

#[test]
fn login_refuses_unknown_user_and_wrong_password_alike() {
    let mut store = store_with("alice", "password123");
    let unknown = login(&mut store, creds("mallory", "password123"));
    let wrong = login(&mut store, creds("alice", "password124"));
    assert_eq!(unknown, Err(ServiceError::Unauthorized));
    assert_eq!(wrong, Err(ServiceError::Unauthorized));
    assert_eq!(unknown, wrong);
    assert_eq!(store.session_count(), 0);
}

#[test]
fn sessions_may_coexist() {
    let mut store = store_with("ivan", "password123");
    let a = login(&mut store, creds("ivan", "password123")).unwrap();
    let b = login(&mut store, creds("ivan", "password123")).unwrap();
    assert_ne!(a, b);
    assert_eq!(store.session_count(), 2);
}
