//! User-store bootstrap and lookups (on an in-memory SQLite database).

use dnd_server::auth::{check_password, Role};
use dnd_server::database::{Database, DatabaseError};
use dnd_server::rootfile::parse_root_file;

const ROOT_FILE: &str = "[root.creds]\nname = \"root\"\npass = \"s3cret!\"\n";

fn fresh_store() -> Database {
    Database::sqlite(":memory:").expect("in-memory database failed to open")
}

#[test]
fn root_file_parses() {
    let rf = parse_root_file(ROOT_FILE).expect("canonical root file rejected");
    assert_eq!(rf.root.creds.name, "root");
    assert_eq!(rf.root.creds.pass, "s3cret!");
}

#[test]
fn malformed_root_files_are_rejected() {
    let bad = [
        "",
        "[root.creds]\n",
        "[root.creds]\nname = \"root\"\n",
        "[root.creds]\npass = \"s3cret!\"\n",
        // keys outside the credentials table are ignored
        "[creds]\nname = \"root\"\npass = \"s3cret!\"\n",
        "name = \"root\"\npass = \"s3cret!\"\n",
        // unquoted value, unterminated string, unknown escape
        "[root.creds]\nname = root\npass = \"s3cret!\"\n",
        "[root.creds]\nname = \"root\npass = \"s3cret!\"\n",
        "[root.creds]\nname = \"ro\\ot\"\npass = \"s3cret!\"\n",
        // duplicate entry
        "[root.creds]\nname = \"a\"\nname = \"b\"\npass = \"c\"\n",
        // trailing junk after the value
        "[root.creds]\nname = \"root\" x\npass = \"s3cret!\"\n",
    ];
    for raw in bad {
        assert!(parse_root_file(raw).is_none(), "accepted: {raw}");
    }
}

#[test]
fn tolerant_root_file_renderings_are_accepted() {
    let good = [
        // no trailing newline
        "[root.creds]\nname = \"root\"\npass = \"s3cret!\"",
        // reordered keys
        "[root.creds]\npass = \"s3cret!\"\nname = \"root\"\n",
        // CRLF line ends
        "[root.creds]\r\nname = \"root\"\r\npass = \"s3cret!\"\r\n",
        // comments, blank lines, surrounding whitespace, loose `=`
        "# the one administrative account\n\n  [root.creds]  \n  name=\"root\"\n  pass =\t\"s3cret!\" # keep safe\n",
        // the `[root]` header and the `credentials` alias
        "[root]\n[root.credentials]\nname = \"root\"\npass = \"s3cret!\"\n",
        // unknown keys and sections are ignored
        "[root.creds]\nname = \"root\"\ncolour = \"red\"\npass = \"s3cret!\"\n[other]\nname = \"x\"\n",
    ];
    for raw in good {
        let rf = parse_root_file(raw).unwrap_or_else(|| panic!("rejected: {raw}"));
        assert_eq!(rf.root.creds.name, "root", "wrong name from: {raw}");
        assert_eq!(rf.root.creds.pass, "s3cret!", "wrong pass from: {raw}");
    }
}

#[test]
fn quoted_escapes_are_decoded() {
    let rf = parse_root_file(
        "[root.creds]\nname = \"ro\\\"ot\"\npass = \"a\\\\b # not a comment\"\n",
    )
    .expect("escaped rendering rejected");
    assert_eq!(rf.root.creds.name, "ro\"ot");
    assert_eq!(rf.root.creds.pass, "a\\b # not a comment");
}

#[test]
fn bootstrap_creates_exactly_the_root_user() {
    let mut db = fresh_store();
    db.init(ROOT_FILE).expect("bootstrap failed");
    let u = db.get_user_by_id(0).expect("lookup failed").expect("root user missing");
    assert_eq!(u.id, 0);
    assert_eq!(u.name, "root");
    assert_eq!(u.role, Role::Root);
    assert!(check_password("s3cret!", &u.pass));
    assert!(!check_password("wrong", &u.pass));
    let now = chrono::Utc::now().timestamp();
    assert!((now - u.added).abs() <= 5);
    // and nothing else is there
    assert!(db.get_user_by_id(1).expect("lookup failed").is_none());
}

#[test]
fn lookup_by_name_finds_the_root_user() {
    let mut db = fresh_store();
    db.init(ROOT_FILE).expect("bootstrap failed");
    let u = db.get_user_by_name("root").expect("lookup failed").expect("root user missing");
    assert_eq!(u.id, 0);
    assert_eq!(u.role, Role::Root);
    assert!(db.get_user_by_name("nobody").expect("lookup failed").is_none());
}

#[test]
fn bootstrap_twice_fails_and_leaves_the_store_alone() {
    let mut db = fresh_store();
    db.init(ROOT_FILE).expect("bootstrap failed");
    let before = db.get_user_by_id(0).expect("lookup failed").expect("root user missing");
    let again = db.init("[root.creds]\nname = \"other\"\npass = \"x\"\n");
    assert!(matches!(again, Err(DatabaseError::SQLite(_))));
    let after = db.get_user_by_id(0).expect("lookup failed").expect("root user missing");
    assert_eq!(after.name, before.name);
    assert_eq!(after.pass, before.pass);
    assert_eq!(after.added, before.added);
}

#[test]
fn bootstrap_with_malformed_text_leaves_the_store_uninitialized() {
    let mut db = fresh_store();
    let r = db.init("this is not a root file");
    assert!(matches!(r, Err(DatabaseError::RootFileParse)));
    // the users table was never created
    assert!(matches!(db.get_user_by_id(0), Err(DatabaseError::SQLite(_))));
    // the store can still be bootstrapped afterwards
    db.init(ROOT_FILE).expect("bootstrap failed");
    assert!(db.get_user_by_id(0).expect("lookup failed").is_some());
}

#[test]
fn lookups_on_uninitialized_store_are_hard_errors() {
    // the users table does not exist yet, which is a storage-engine error,
    // not a missing-user outcome
    let db = fresh_store();
    assert!(matches!(db.get_user_by_id(0), Err(DatabaseError::SQLite(_))));
    assert!(matches!(db.get_user_by_name("root"), Err(DatabaseError::SQLite(_))));
}

#[test]
fn role_codes() {
    assert_eq!(Role::Root.code(), 10);
    assert_eq!(Role::from_code(10), Ok(Role::Root));
    assert!(Role::from_code(0).is_err());
    assert_eq!(Role::from_code(9).unwrap_err().0, 9);
}
