use kv_vfs::jammdb::{OpenOptions, DB};

fn fresh_db() -> DB {
    OpenOptions::new().open("jammdb.db").unwrap()
}

#[test]
fn open_gives_an_empty_store() {
    let db = fresh_db();
    let txn = db.tx(true).unwrap();
    assert!(txn.get("anything").is_none());
}

#[test]
fn put_then_get_returns_the_payload() {
    let db = fresh_db();
    let mut txn = db.tx(true).unwrap();
    txn.put("users.db", &[1u8, 2, 3]).unwrap();
    assert_eq!(txn.get("users.db"), Some(vec![1, 2, 3]));
    assert!(txn.get("other").is_none());
}

#[test]
fn put_replaces_the_payload_wholesale() {
    let db = fresh_db();
    let mut txn = db.tx(true).unwrap();
    txn.put("k", &[1u8, 2, 3, 4]).unwrap();
    txn.put("k", &[9u8]).unwrap();
    assert_eq!(txn.get("k"), Some(vec![9]), "a put does not patch, it replaces");
}

#[test]
fn distinct_keys_do_not_interfere() {
    let db = fresh_db();
    let mut txn = db.tx(true).unwrap();
    txn.put("a", &[1u8]).unwrap();
    txn.put("b", &[2u8]).unwrap();
    txn.put("a", &[3u8]).unwrap();
    assert_eq!(txn.get("a"), Some(vec![3]));
    assert_eq!(txn.get("b"), Some(vec![2]));
}

#[test]
fn a_transaction_takes_the_contents_at_open_time() {
    let db = fresh_db();
    let mut first = db.tx(true).unwrap();
    first.put("k", &[1u8]).unwrap();
    let second = db.tx(false).unwrap();
    assert!(
        second.get("k").is_none(),
        "a transaction holds what the database held when it was opened"
    );
}

#[test]
fn get_hands_out_a_copy() {
    let db = fresh_db();
    let mut txn = db.tx(true).unwrap();
    txn.put("k", &[1u8, 2]).unwrap();
    let mut copy = txn.get("k").unwrap();
    copy.push(3);
    assert_eq!(txn.get("k"), Some(vec![1, 2]), "mutating the copy leaves the store alone");
}
