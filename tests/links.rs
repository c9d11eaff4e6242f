use trackr::domain::{Label, Name, URL};
use trackr::service::{add_link_with, NewLink, ServiceError};
use trackr::store::{LabelRow, LinkRow, SessionRow, Store, StoreError};

fn link(url: &str, name: Option<&str>, label: Option<&str>) -> NewLink {
    NewLink {
        url: url.to_string(),
        name: name.map(|n| n.to_string()),
        label: label.map(|l| l.to_string()),
    }
}

fn store_with_sessions() -> Store {
    let mut store = Store::new();
    store.insert_session(SessionRow { id: 1, user_id: 10, token: "one".to_string(), expires_at: 500 }).unwrap();
    store.insert_session(SessionRow { id: 2, user_id: 20, token: "two".to_string(), expires_at: 500 }).unwrap();
    store
}

#[test]
fn link_value_types_accept_any_text() {
    assert_eq!(URL::try_from("https://example.com").unwrap().to_string(), "https://example.com");
    assert_eq!(Name::try_from("").unwrap().to_string(), "");
    assert_eq!(Label::try_from("rust").unwrap().to_string(), "rust");
}

#[test]
fn link_and_label_are_stored_together() {
    let mut store = store_with_sessions();
    let r = add_link_with(&mut store, &"one".to_string(), link("https://a.example", Some("A"), Some("news")), 77, 0);
    let saved = r.ok().unwrap();
    assert_eq!(saved.url, "https://a.example");
    assert_eq!(saved.name, Some("A".to_string()));
    assert_eq!(saved.label, Some("news".to_string()));
    assert_eq!(store.link_count(), 1);
    assert_eq!(store.label_count(), 1);
    assert!(store.has_url(&"https://a.example".to_string()));
}

#[test]
fn link_without_label_writes_no_label() {
    let mut store = store_with_sessions();
    assert!(add_link_with(&mut store, &"one".to_string(), link("https://b.example", None, None), 1, 0).is_ok());
    assert_eq!(store.link_count(), 1);
    assert_eq!(store.label_count(), 0);
}

#[test]
fn failed_label_write_leaves_no_orphan_link() {
    let mut store = store_with_sessions();
    let mut tx = store.begin();
    let row = LinkRow { id: 5, user_id: 10, url: "https://c.example".to_string(), name: None };
    assert_eq!(tx.insert_link(&store, row), Ok(()));
    let bad = LabelRow { link_id: 6, label: "x".to_string() };
    assert_eq!(tx.insert_label(&store, bad), Err(StoreError::ForeignKeyViolation));
    drop(tx);
    assert_eq!(store.link_count(), 0);
    assert_eq!(store.label_count(), 0);
    assert!(!store.has_url(&"https://c.example".to_string()));
}

#[test]
fn uncommitted_writes_are_invisible_until_commit() {
    let mut store = store_with_sessions();
    let mut tx = store.begin();
    let row = LinkRow { id: 5, user_id: 10, url: "https://d.example".to_string(), name: None };
    assert_eq!(tx.insert_link(&store, row), Ok(()));
    assert_eq!(tx.insert_label(&store, LabelRow { link_id: 5, label: "l".to_string() }), Ok(()));
    assert_eq!(store.link_count(), 0);
    store.commit(tx);
    assert_eq!(store.link_count(), 1);
    assert_eq!(store.label_count(), 1);
}

#[test]
fn duplicate_url_in_one_unit_of_work_is_refused() {
    let store = store_with_sessions();
    let mut tx = store.begin();
    let a = LinkRow { id: 1, user_id: 10, url: "https://e.example".to_string(), name: None };
    let b = LinkRow { id: 2, user_id: 10, url: "https://e.example".to_string(), name: None };
    assert_eq!(tx.insert_link(&store, a), Ok(()));
    assert_eq!(tx.insert_link(&store, b), Err(StoreError::UniqueViolation));
}

#[test]
fn duplicate_url_conflicts_for_any_user() {
    let mut store = store_with_sessions();
    assert!(add_link_with(&mut store, &"one".to_string(), link("https://f.example", None, None), 1, 0).is_ok());
    let same_user = add_link_with(&mut store, &"one".to_string(), link("https://f.example", None, Some("l")), 2, 0);
    assert!(matches!(same_user, Err(ServiceError::Conflict)));
    let other_user = add_link_with(&mut store, &"two".to_string(), link("https://f.example", Some("n"), None), 3, 0);
    assert!(matches!(other_user, Err(ServiceError::Conflict)));
    assert_eq!(store.link_count(), 1);
    assert_eq!(store.label_count(), 0);
}

#[test]
fn expired_or_unknown_token_is_unauthorized() {
    let mut store = store_with_sessions();
    let expired = add_link_with(&mut store, &"one".to_string(), link("https://g.example", None, None), 1, 500);
    assert!(matches!(expired, Err(ServiceError::Unauthorized)));
    let unknown = add_link_with(&mut store, &"three".to_string(), link("https://g.example", None, None), 1, 0);
    assert!(matches!(unknown, Err(ServiceError::Unauthorized)));
    assert_eq!(store.link_count(), 0);
}

#[test]
fn repeated_link_id_is_refused() {
    let mut store = store_with_sessions();
    assert!(add_link_with(&mut store, &"one".to_string(), link("https://h.example", None, None), 9, 0).is_ok());
    let again = add_link_with(&mut store, &"one".to_string(), link("https://i.example", None, Some("x")), 9, 0);
    assert!(matches!(again, Err(ServiceError::Internal)));
    assert_eq!(store.link_count(), 1);
    assert_eq!(store.label_count(), 0);
}

#[test]
fn repeated_session_id_or_token_is_refused() {
    let mut store = store_with_sessions();
    let same_id = SessionRow { id: 1, user_id: 30, token: "three".to_string(), expires_at: 9 };
    assert_eq!(store.insert_session(same_id), Err(StoreError::DuplicateKey));
    let same_token = SessionRow { id: 3, user_id: 30, token: "two".to_string(), expires_at: 9 };
    assert_eq!(store.insert_session(same_token), Err(StoreError::UniqueViolation));
    assert_eq!(store.session_count(), 2);
}
