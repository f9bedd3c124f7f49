//! Token validation against the store: freshness, existence and role
//! consistency, in that order.

use dnd_server::auth::Role;
use dnd_server::database::Database;
use dnd_server::token::{check_token, check_token_at, create_token, create_token_at, TokenError, TokenInvalid};

const ROOT_FILE: &str = "[root.creds]\nname = \"root\"\npass = \"s3cret!\"\n";

// 2024-04-09T12:00:00Z
const NOW: i64 = 1712664000;

fn bootstrapped_store() -> Database {
    let mut db = Database::sqlite(":memory:").expect("in-memory database failed to open");
    db.init(ROOT_FILE).expect("bootstrap failed");
    db
}

#[test]
fn fresh_token_is_accepted() {
    let db = bootstrapped_store();
    let tok = create_token_at(0, Role::Root, NOW);
    let user = check_token_at(&db, &tok, NOW).expect("store failed").expect("token rejected");
    assert_eq!(user.id, 0);
    assert_eq!(user.name, "root");
    assert_eq!(user.role, Role::Root);
}

#[test]
fn token_at_359_minutes_is_accepted() {
    let db = bootstrapped_store();
    let tok = create_token_at(0, Role::Root, NOW - 359 * 60);
    assert!(check_token_at(&db, &tok, NOW).expect("store failed").is_ok());
}

#[test]
fn token_at_exactly_360_minutes_is_accepted() {
    let db = bootstrapped_store();
    let tok = create_token_at(0, Role::Root, NOW - 360 * 60);
    assert!(check_token_at(&db, &tok, NOW).expect("store failed").is_ok());
}

#[test]
fn token_just_short_of_361_minutes_is_accepted() {
    // 360 minutes and 59 seconds old: the age in whole minutes is still 360
    let db = bootstrapped_store();
    let tok = create_token_at(0, Role::Root, NOW - 360 * 60 - 59);
    assert!(check_token_at(&db, &tok, NOW).expect("store failed").is_ok());
}

#[test]
fn token_older_than_360_minutes_is_expired() {
    let db = bootstrapped_store();
    let tok = create_token_at(0, Role::Root, NOW - 361 * 60);
    let inv = check_token_at(&db, &tok, NOW).expect("store failed").unwrap_err();
    assert!(matches!(
        inv,
        TokenInvalid::Expired { id: 0, age: 361, valid_time: 360 }
    ));
}

#[test]
fn expiry_wins_even_when_the_user_is_unknown() {
    // expiry is checked before existence, so the unknown id reports Expired
    let db = bootstrapped_store();
    let tok = create_token_at(99, Role::Root, NOW - 500 * 60);
    let inv = check_token_at(&db, &tok, NOW).expect("store failed").unwrap_err();
    assert!(matches!(inv, TokenInvalid::Expired { id: 99, age: 500, valid_time: 360 }));
}

#[test]
fn token_from_the_future_is_accepted() {
    let db = bootstrapped_store();
    let tok = create_token_at(0, Role::Root, NOW + 3600);
    assert!(check_token_at(&db, &tok, NOW).expect("store failed").is_ok());
}

#[test]
fn token_for_absent_user_is_rejected() {
    let db = bootstrapped_store();
    let tok = create_token_at(99, Role::Root, NOW);
    let inv = check_token_at(&db, &tok, NOW).expect("store failed").unwrap_err();
    assert!(matches!(inv, TokenInvalid::UserNotFound { id: 99 }));
}

#[test]
fn token_on_uninitialized_store_is_a_hard_error() {
    // the users table does not exist yet: the validator reports that it
    // could not complete, not that the token is bad
    let db = Database::sqlite(":memory:").expect("in-memory database failed to open");
    let tok = create_token_at(0, Role::Root, NOW);
    let r = check_token_at(&db, &tok, NOW);
    assert!(matches!(r, Err(TokenError::UserInfoRetrieve { id: 0, .. })));
}

#[test]
fn garbage_token_is_a_deserialize_failure() {
    let db = bootstrapped_store();
    let inv = check_token_at(&db, "garbage", NOW).expect("store failed").unwrap_err();
    match inv {
        TokenInvalid::Deserialize { raw } => assert_eq!(raw, "garbage"),
        other => panic!("expected Deserialize, got {other:?}"),
    }
}

#[test]
fn invalid_token_messages_are_exact() {
    assert_eq!(
        TokenInvalid::UserNotFound { id: 99 }.message(),
        "User 99 in token not found"
    );
    assert_eq!(
        TokenInvalid::Expired { id: 7, age: 361, valid_time: 360 }.message(),
        "User 7 presented an expired token of 361 minutes old (limit is 360 minutes)"
    );
    assert_eq!(
        TokenInvalid::Deserialize { raw: String::from("junk") }.message(),
        "Failed to deserialize raw string as login token: junk"
    );
    assert_eq!(
        TokenInvalid::IncorrectRole { id: 3, got: Role::Root, expected: Role::Root }.message(),
        "User 3 role in token does not match role in database (got Root, expected Root)"
    );
}

#[test]
fn create_token_result_revalidates() {
    let db = bootstrapped_store();
    let tok = create_token(0, Role::Root).expect("token creation failed");
    let user = check_token(&db, &tok).expect("store failed").expect("fresh token rejected");
    assert_eq!(user.id, 0);
}

#[test]
fn check_token_accepts_a_token_issued_now() {
    let db = bootstrapped_store();
    let now = chrono::Utc::now().timestamp();
    let tok = create_token_at(0, Role::Root, now);
    let user = check_token(&db, &tok).expect("store failed").expect("token rejected");
    assert_eq!(user.id, 0);
}
