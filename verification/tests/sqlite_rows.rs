use kv_vfs::sqlite::{open, FromDummyRow, OpenFlags, Row, Statement};

#[test]
fn connection_accepts_statements() {
    let _flags = OpenFlags::new();
    let conn = open(":memory:").unwrap();
    conn.execute("CREATE TABLE users (id INTEGER PRIMARY KEY, name TEXT)").unwrap();
    conn.execute("INSERT INTO users (name) VALUES ('Alice')").unwrap();
}

#[test]
fn statement_yields_one_row_then_none() {
    let conn = open(":memory:").unwrap();
    let mut stmt = conn.prepare("SELECT * FROM users").unwrap();
    assert!(stmt.next().unwrap().is_some());
    assert!(stmt.next().unwrap().is_none());
    assert!(stmt.next().unwrap().is_none());
}

#[test]
fn fresh_statement_behaves_the_same() {
    let mut stmt = Statement::new();
    assert!(stmt.next().unwrap().is_some());
    assert!(stmt.next().unwrap().is_none());
}

fn the_row() -> Row {
    let mut stmt = Statement::new();
    stmt.next().unwrap().unwrap()
}

#[test]
fn row_decodes_id_and_name() {
    let row = the_row();
    let id: i64 = row.get(0).unwrap();
    let name: String = row.get(1).unwrap();
    assert_eq!(id, 1);
    assert_eq!(name, "Alice");
}

#[test]
fn row_rejects_columns_past_the_end() {
    let row = the_row();
    let out: Result<i64, &'static str> = row.get(2);
    assert_eq!(out, Err("Index out of bounds"));
}

#[test]
fn decimal_decoding_accepts_plain_literals() {
    assert_eq!(<i64 as FromDummyRow>::from_dummy("0"), Ok(0));
    assert_eq!(<i64 as FromDummyRow>::from_dummy("42"), Ok(42));
    assert_eq!(<i64 as FromDummyRow>::from_dummy("007"), Ok(7));
    assert_eq!(<i64 as FromDummyRow>::from_dummy("-7"), Ok(-7));
    assert_eq!(<i64 as FromDummyRow>::from_dummy("-0"), Ok(0));
}

#[test]
fn decimal_decoding_covers_the_64_bit_bounds() {
    assert_eq!(<i64 as FromDummyRow>::from_dummy("9223372036854775807"), Ok(i64::MAX));
    assert_eq!(<i64 as FromDummyRow>::from_dummy("-9223372036854775808"), Ok(i64::MIN));
    assert!(<i64 as FromDummyRow>::from_dummy("9223372036854775808").is_err());
    assert!(<i64 as FromDummyRow>::from_dummy("-9223372036854775809").is_err());
    assert!(<i64 as FromDummyRow>::from_dummy("99999999999999999999999").is_err());
}

#[test]
fn decimal_decoding_rejects_malformed_literals() {
    assert!(<i64 as FromDummyRow>::from_dummy("").is_err());
    assert!(<i64 as FromDummyRow>::from_dummy("-").is_err());
    assert!(<i64 as FromDummyRow>::from_dummy("12x").is_err());
    assert!(<i64 as FromDummyRow>::from_dummy("x12").is_err());
    assert!(<i64 as FromDummyRow>::from_dummy("1 2").is_err());
    assert!(<i64 as FromDummyRow>::from_dummy("--1").is_err());
}

#[test]
fn string_decoding_is_the_identity() {
    assert_eq!(<String as FromDummyRow>::from_dummy("Alice"), Ok("Alice".to_string()));
    assert_eq!(<String as FromDummyRow>::from_dummy(""), Ok(String::new()));
}
