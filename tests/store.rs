use fileshare::model::{Id, Timestamp};
use fileshare::store::{DBClient, StoreError};

const NOW: i64 = 1_700_000_000_000_000;
const HOUR: i64 = 3_600_000_000;

fn id(v: u128) -> Id {
    Id { value: v }
}

fn at(micros: i64) -> Timestamp {
    Timestamp { micros }
}

fn add_user(db: &mut DBClient, v: u128, email: &str, key: bool) {
    db.save_user(id(v), format!("user{}", v), email.to_string(), "hash".to_string(), at(NOW))
        .unwrap();
    if key {
        db.save_user_key(id(v), format!("key{}", v), at(NOW)).unwrap();
    }
}

fn upload(db: &mut DBClient, owner: u128, recipient: u128, name: &str, file: u128, link: u128, expires: i64, now: i64) -> Result<Id, StoreError> {
    db.save_encrypted_file(
        id(owner),
        name.to_string(),
        1024,
        id(recipient),
        "secret1".to_string(),
        at(expires),
        vec![1, 2, 3],
        vec![4, 5, 6, 7],
        vec![8, 9],
        id(file),
        id(link),
        at(now),
    )
}

fn two_users() -> DBClient {
    let mut db = DBClient::new();
    add_user(&mut db, 1, "a@x.com", false);
    add_user(&mut db, 2, "b@x.com", true);
    db
}

#[test]
fn store_then_fetch_returns_the_inputs() {
    let mut db = two_users();
    let link_id = upload(&mut db, 1, 2, "report.pdf", 100, 200, NOW + HOUR, NOW).unwrap();
    assert_eq!(link_id, id(200));
    let link = db.get_shared(link_id, id(2), at(NOW + 1)).unwrap();
    assert_eq!(link.id, id(200));
    assert_eq!(link.file_id, id(100));
    assert_eq!(link.recipient_user_id, id(2));
    assert_eq!(link.password, "secret1");
    assert_eq!(link.expiration_date, at(NOW + HOUR));
    assert_eq!(link.created_at, at(NOW));
    let file = db.get_file(link.file_id).unwrap();
    assert_eq!(file.user_id, Some(id(1)));
    assert_eq!(file.file_name, "report.pdf");
    assert_eq!(file.file_size, 1024);
    assert_eq!(file.encrypted_aes_key, vec![1, 2, 3]);
    assert_eq!(file.encrypted_file, vec![4, 5, 6, 7]);
    assert_eq!(file.iv, vec![8, 9]);
}

#[test]
fn refused_link_insert_leaves_no_file() {
    let mut db = two_users();
    upload(&mut db, 1, 2, "first.txt", 100, 200, NOW + HOUR, NOW).unwrap();
    // The link id is taken: the link insert fails, so the file must not stay.
    let r = upload(&mut db, 1, 2, "second.txt", 101, 200, NOW + HOUR, NOW);
    assert_eq!(r, Err(StoreError::TransactionFailure));
    assert!(db.get_file(id(101)).is_none());
    // An unknown recipient is refused the same way.
    let r = upload(&mut db, 1, 9, "third.txt", 102, 202, NOW + HOUR, NOW);
    assert_eq!(r, Err(StoreError::TransactionFailure));
    assert!(db.get_file(id(102)).is_none());
    assert!(db.get_shared(id(202), id(9), at(NOW)).is_none());
    // A taken file id is refused, and the first upload is untouched.
    let r = upload(&mut db, 1, 2, "fourth.txt", 100, 203, NOW + HOUR, NOW);
    assert_eq!(r, Err(StoreError::TransactionFailure));
    assert!(db.get_shared(id(203), id(2), at(NOW)).is_none());
    assert_eq!(db.get_file(id(100)).unwrap().file_name, "first.txt");
    // An unknown owner is refused too.
    let r = upload(&mut db, 7, 2, "fifth.txt", 104, 204, NOW + HOUR, NOW);
    assert_eq!(r, Err(StoreError::TransactionFailure));
    assert!(db.get_file(id(104)).is_none());
}

#[test]
fn fetch_is_absent_for_missing_foreign_and_expired_links() {
    let mut db = two_users();
    add_user(&mut db, 3, "c@x.com", true);
    let link_id = upload(&mut db, 1, 2, "report.pdf", 100, 200, NOW + HOUR, NOW).unwrap();
    assert!(db.get_shared(id(999), id(2), at(NOW)).is_none());
    assert!(db.get_shared(link_id, id(3), at(NOW)).is_none());
    assert!(db.get_shared(link_id, id(2), at(NOW + HOUR)).is_none());
    assert!(db.get_shared(link_id, id(2), at(NOW + 2 * HOUR)).is_none());
    assert!(db.get_shared(link_id, id(2), at(NOW + HOUR - 1)).is_some());
}

#[test]
fn listings_page_newest_first_with_total() {
    let mut db = two_users();
    upload(&mut db, 1, 2, "one.txt", 100, 200, NOW + 10 * HOUR, NOW).unwrap();
    upload(&mut db, 1, 2, "two.txt", 101, 201, NOW + 10 * HOUR, NOW + 1).unwrap();
    upload(&mut db, 1, 2, "three.txt", 102, 202, NOW + 10 * HOUR, NOW + 2).unwrap();
    upload(&mut db, 2, 1, "back.txt", 103, 203, NOW + 10 * HOUR, NOW + 3).unwrap();

    let (rows, total) = db.get_sent_files(id(1), 1, 2).unwrap();
    assert_eq!(total, 3);
    assert_eq!(rows.len(), 2);
    assert_eq!(rows[0].file_name, "three.txt");
    assert_eq!(rows[0].file_id, id(102));
    assert_eq!(rows[0].recipient_email, "b@x.com");
    assert_eq!(rows[1].file_name, "two.txt");
    assert!(rows[0].created_at.micros >= rows[1].created_at.micros);

    let (rows, total) = db.get_sent_files(id(1), 2, 2).unwrap();
    assert_eq!(total, 3);
    assert_eq!(rows.len(), 1);
    assert_eq!(rows[0].file_name, "one.txt");

    let (rows, total) = db.get_sent_files(id(1), 3, 2).unwrap();
    assert_eq!(total, 3);
    assert!(rows.is_empty());

    let (rows, total) = db.get_sent_files(id(1), 1, 10).unwrap();
    assert_eq!(total, 3);
    assert_eq!(rows.len(), 3);

    let (rows, total) = db.get_receive_files(id(2), 1, 5).unwrap();
    assert_eq!(total, 3);
    assert_eq!(rows.len(), 3);
    assert_eq!(rows[0].file_id, id(202));
    assert_eq!(rows[0].sender_email, "a@x.com");
    assert_eq!(rows[2].file_name, "one.txt");

    let (rows, total) = db.get_receive_files(id(1), 1, 5).unwrap();
    assert_eq!(total, 1);
    assert_eq!(rows[0].file_name, "back.txt");
    assert_eq!(rows[0].sender_email, "b@x.com");

    let (rows, total) = db.get_sent_files(id(1), 1, 0).unwrap();
    assert_eq!(total, 3);
    assert!(rows.is_empty());
}

#[test]
fn page_zero_is_refused() {
    let db = two_users();
    assert_eq!(db.get_sent_files(id(1), 0, 10).err(), Some(StoreError::InvalidPage));
    assert_eq!(db.get_receive_files(id(2), 0, 10).err(), Some(StoreError::InvalidPage));
}

#[test]
fn huge_page_number_is_empty() {
    let mut db = two_users();
    upload(&mut db, 1, 2, "one.txt", 100, 200, NOW + HOUR, NOW).unwrap();
    let (rows, total) = db.get_sent_files(id(1), u32::MAX, usize::MAX).unwrap();
    assert_eq!(total, 1);
    assert!(rows.is_empty());
}

#[test]
fn creation_stamps_never_go_backwards() {
    let mut db = two_users();
    upload(&mut db, 1, 2, "late.txt", 100, 200, NOW + 10 * HOUR, NOW + 50).unwrap();
    upload(&mut db, 1, 2, "early.txt", 101, 201, NOW + 10 * HOUR, NOW).unwrap();
    let link = db.get_shared(id(201), id(2), at(NOW)).unwrap();
    assert_eq!(link.created_at, at(NOW + 50));
    let (rows, _) = db.get_sent_files(id(1), 1, 5).unwrap();
    assert_eq!(rows[0].file_name, "early.txt");
    assert_eq!(rows[1].file_name, "late.txt");
}

#[test]
fn sweep_removes_expired_pairs_and_is_idempotent() {
    let mut db = two_users();
    upload(&mut db, 1, 2, "old.txt", 100, 200, NOW + HOUR, NOW).unwrap();
    upload(&mut db, 1, 2, "new.txt", 101, 201, NOW + 3 * HOUR, NOW).unwrap();
    let later = at(NOW + 2 * HOUR);
    assert_eq!(db.delete_expired_files(later), 1);
    assert!(db.get_file(id(100)).is_none());
    assert!(db.get_shared(id(200), id(2), at(NOW)).is_none());
    assert!(db.get_file(id(101)).is_some());
    assert!(db.get_shared(id(201), id(2), later).is_some());
    assert_eq!(db.delete_expired_files(later), 0);
    assert!(db.get_file(id(101)).is_some());
    let (rows, total) = db.get_sent_files(id(1), 1, 10).unwrap();
    assert_eq!(total, 1);
    assert_eq!(rows[0].file_name, "new.txt");
}

#[test]
fn sweep_on_nothing_expired_is_a_no_op() {
    let mut db = two_users();
    assert_eq!(db.delete_expired_files(at(NOW)), 0);
    upload(&mut db, 1, 2, "a.txt", 100, 200, NOW + HOUR, NOW).unwrap();
    // Expiring exactly now is not yet before now.
    assert_eq!(db.delete_expired_files(at(NOW + HOUR)), 0);
    assert!(db.get_file(id(100)).is_some());
    assert_eq!(db.delete_expired_files(at(NOW + HOUR + 1)), 1);
    assert!(db.get_file(id(100)).is_none());
}

#[test]
fn scenario_upload_fetch_then_reap() {
    let mut db = DBClient::new();
    add_user(&mut db, 1, "a@x.com", false);
    add_user(&mut db, 2, "b@x.com", true);
    let a = db.find_user_by_email("a@x.com").unwrap();
    let b = db.find_user_by_email("b@x.com").unwrap();
    let link_id = db
        .save_encrypted_file(
            a.id,
            "report.pdf".to_string(),
            1024,
            b.id,
            "secret1".to_string(),
            at(NOW + HOUR),
            vec![0xAA; 32],
            vec![0xBB; 1024],
            vec![0xCC; 12],
            id(500),
            id(600),
            at(NOW),
        )
        .unwrap();
    let link = db.get_shared(link_id, b.id, at(NOW)).unwrap();
    assert_eq!(link.password, "secret1");
    let file = db.get_file(link.file_id).unwrap();
    assert_eq!(file.file_name, "report.pdf");
    assert_eq!(file.file_size, 1024);
    // Once the link's expiration lies in the past, the sweep reclaims both.
    let past_expiry = at(NOW + 2 * HOUR);
    assert_eq!(db.delete_expired_files(past_expiry), 1);
    assert!(db.get_shared(link_id, b.id, at(NOW)).is_none());
    assert!(db.get_file(link.file_id).is_none());
}
