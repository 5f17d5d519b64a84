use fileshare::dtos::FilterEmailDto;
use fileshare::model::{Id, Timestamp};
use fileshare::store::{DBClient, StoreError};

fn id(v: u128) -> Id {
    Id { value: v }
}

fn at(micros: i64) -> Timestamp {
    Timestamp { micros }
}

fn register(db: &mut DBClient, v: u128, name: &str, email: &str) -> Result<fileshare::model::User, StoreError> {
    db.save_user(id(v), name.to_string(), email.to_string(), "hash".to_string(), at(10))
}

#[test]
fn save_user_then_lookups() {
    let mut db = DBClient::new();
    let u = register(&mut db, 1, "alice", "alice@x.com").unwrap();
    assert_eq!(u.id, id(1));
    assert_eq!(u.name, "alice");
    assert_eq!(u.email, "alice@x.com");
    assert_eq!(u.password, "hash");
    assert_eq!(u.public_key, None);
    assert_eq!(u.created_at, at(10));
    assert_eq!(u.updated_at, at(10));
    assert_eq!(db.find_user_by_id(id(1)).unwrap().email, "alice@x.com");
    assert_eq!(db.find_user_by_name("alice").unwrap().id, id(1));
    assert_eq!(db.find_user_by_email("alice@x.com").unwrap().name, "alice");
    assert!(db.find_user_by_id(id(2)).is_none());
    assert!(db.find_user_by_name("bob").is_none());
    assert!(db.find_user_by_email("bob@x.com").is_none());
}

#[test]
fn duplicate_email_or_id_conflicts() {
    let mut db = DBClient::new();
    register(&mut db, 1, "alice", "alice@x.com").unwrap();
    assert_eq!(register(&mut db, 2, "other", "alice@x.com").err(), Some(StoreError::Conflict));
    assert_eq!(register(&mut db, 1, "other", "other@x.com").err(), Some(StoreError::Conflict));
    assert!(db.find_user_by_id(id(2)).is_none());
    assert!(db.find_user_by_email("other@x.com").is_none());
}

#[test]
fn name_lookup_returns_earliest() {
    let mut db = DBClient::new();
    register(&mut db, 1, "sam", "sam1@x.com").unwrap();
    register(&mut db, 2, "sam", "sam2@x.com").unwrap();
    assert_eq!(db.find_user_by_name("sam").unwrap().id, id(1));
}

#[test]
fn get_user_prefers_id_then_name_then_email() {
    let mut db = DBClient::new();
    register(&mut db, 1, "alice", "alice@x.com").unwrap();
    register(&mut db, 2, "bob", "bob@x.com").unwrap();
    assert_eq!(db.get_user(Some(id(1)), Some("bob"), Some("bob@x.com")).unwrap().id, id(1));
    assert_eq!(db.get_user(None, Some("bob"), Some("alice@x.com")).unwrap().id, id(2));
    assert_eq!(db.get_user(None, None, Some("alice@x.com")).unwrap().id, id(1));
    assert!(db.get_user(None, None, None).is_none());
    assert!(db.get_user(Some(id(7)), Some("bob"), None).is_none());
}

#[test]
fn updates_change_one_field_and_the_update_time() {
    let mut db = DBClient::new();
    register(&mut db, 1, "alice", "alice@x.com").unwrap();
    let u = db.update_user_name(id(1), "alicia".to_string(), at(20)).unwrap();
    assert_eq!(u.name, "alicia");
    assert_eq!(u.email, "alice@x.com");
    assert_eq!(u.created_at, at(10));
    assert_eq!(u.updated_at, at(20));
    let u = db.update_user_password(id(1), "newhash".to_string(), at(30)).unwrap();
    assert_eq!(u.password, "newhash");
    assert_eq!(u.name, "alicia");
    assert_eq!(u.updated_at, at(30));
    db.save_user_key(id(1), "pk".to_string(), at(40)).unwrap();
    let u = db.find_user_by_id(id(1)).unwrap();
    assert_eq!(u.public_key, Some("pk".to_string()));
    assert_eq!(u.updated_at, at(40));
    assert_eq!(u.password, "newhash");
}

#[test]
fn updates_of_unknown_user_are_not_found() {
    let mut db = DBClient::new();
    assert_eq!(db.update_user_name(id(1), "x".to_string(), at(1)).err(), Some(StoreError::NotFound));
    assert_eq!(db.update_user_password(id(1), "x".to_string(), at(1)).err(), Some(StoreError::NotFound));
    assert_eq!(db.save_user_key(id(1), "x".to_string(), at(1)), Err(StoreError::NotFound));
}

fn search_fixture() -> DBClient {
    let mut db = DBClient::new();
    register(&mut db, 1, "me", "me@example.com").unwrap();
    register(&mut db, 2, "ann", "ann@example.com").unwrap();
    register(&mut db, 3, "bo", "bo@example.com").unwrap();
    register(&mut db, 4, "cy", "cy@other.org").unwrap();
    register(&mut db, 5, "pct", "100%_real@example.com").unwrap();
    for v in [1u128, 2, 4, 5] {
        db.save_user_key(id(v), "pk".to_string(), at(11)).unwrap();
    }
    db
}

fn emails(users: &[fileshare::model::User]) -> Vec<String> {
    FilterEmailDto::filter_emails(users).into_iter().map(|e| e.email).collect()
}

#[test]
fn search_excludes_requester_and_users_without_key() {
    let db = search_fixture();
    let found = db.search_by_email(id(1), "%example.com");
    assert_eq!(emails(&found), vec!["ann@example.com", "100%_real@example.com"]);
    for u in &found {
        assert_ne!(u.id, id(1));
        assert!(u.public_key.is_some());
    }
    assert!(db.search_by_email(id(1), "me@example.com").is_empty());
    assert!(db.search_by_email(id(1), "bo@example.com").is_empty());
    assert_eq!(emails(&db.search_by_email(id(2), "%")), vec![
        "me@example.com",
        "cy@other.org",
        "100%_real@example.com",
    ]);
}

#[test]
fn search_patterns_follow_like() {
    let db = search_fixture();
    assert_eq!(emails(&db.search_by_email(id(1), "%an%")), vec!["ann@example.com"]);
    assert_eq!(emails(&db.search_by_email(id(1), "c_@%")), vec!["cy@other.org"]);
    assert!(db.search_by_email(id(1), "c@%").is_empty());
    assert!(db.search_by_email(id(1), "ann").is_empty());
    assert_eq!(emails(&db.search_by_email(id(1), "ann@example.com")), vec!["ann@example.com"]);
    assert_eq!(emails(&db.search_by_email(id(1), "%\\%\\_%")), vec!["100%_real@example.com"]);
    assert!(db.search_by_email(id(1), "%\\_x%").is_empty());
    assert!(db.search_by_email(id(1), "").is_empty());
}
