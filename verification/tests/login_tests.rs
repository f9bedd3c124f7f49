//! The composed login flow.

use dnd_server::auth::Role;
use dnd_server::database::Database;
use dnd_server::login::{login, login_at, LoginOutcome};
use dnd_server::token::{check_token_at, create_token_at, parse_token};

const ROOT_FILE: &str = "[root.creds]\nname = \"root\"\npass = \"s3cret!\"\n";

// 2024-04-09T12:00:00Z
const NOW: i64 = 1712664000;

fn bootstrapped_store() -> Database {
    let mut db = Database::sqlite(":memory:").expect("in-memory database failed to open");
    db.init(ROOT_FILE).expect("bootstrap failed");
    db
}

#[test]
fn successful_login_hands_back_a_working_token() {
    let db = bootstrapped_store();
    match login_at(&db, None, "root", "s3cret!", NOW) {
        LoginOutcome::Authorized(tok) => {
            let t = parse_token(&tok).expect("issued token did not decode");
            assert_eq!(t.id, 0);
            assert_eq!(t.role, Role::Root);
            assert_eq!(t.issued, NOW);
            let user = check_token_at(&db, &tok, NOW).expect("store failed").expect(
                "issued token rejected",
            );
            assert_eq!(user.id, 0);
        },
        other => panic!("expected Authorized, got {other:?}"),
    }
}

#[test]
fn wrong_password_and_unknown_user_are_indistinguishable() {
    let db = bootstrapped_store();
    let wrong_password = login_at(&db, None, "root", "wrong", NOW);
    let unknown_user = login_at(&db, None, "nobody", "anything", NOW);
    assert_eq!(wrong_password, LoginOutcome::Unauthorized);
    assert_eq!(unknown_user, LoginOutcome::Unauthorized);
    assert_eq!(wrong_password, unknown_user);
}

#[test]
fn valid_token_short_circuits_without_consulting_the_password() {
    let db = bootstrapped_store();
    let tok = create_token_at(0, Role::Root, NOW - 60);
    // wrong password, and even an unknown name: the valid token wins
    assert_eq!(
        login_at(&db, Some(&tok), "root", "totally-wrong", NOW),
        LoginOutcome::AlreadyValid
    );
    assert_eq!(
        login_at(&db, Some(&tok), "nobody", "anything", NOW),
        LoginOutcome::AlreadyValid
    );
}

#[test]
fn expired_token_falls_back_to_the_password() {
    let db = bootstrapped_store();
    let stale = create_token_at(0, Role::Root, NOW - 400 * 60);
    match login_at(&db, Some(&stale), "root", "s3cret!", NOW) {
        LoginOutcome::Authorized(tok) => {
            let t = parse_token(&tok).expect("issued token did not decode");
            assert_eq!(t.issued, NOW);
        },
        other => panic!("expected Authorized, got {other:?}"),
    }
    assert_eq!(
        login_at(&db, Some(&stale), "root", "wrong", NOW),
        LoginOutcome::Unauthorized
    );
}

#[test]
fn garbage_token_falls_back_to_the_password() {
    let db = bootstrapped_store();
    match login_at(&db, Some("garbage"), "root", "s3cret!", NOW) {
        LoginOutcome::Authorized(_) => {},
        other => panic!("expected Authorized, got {other:?}"),
    }
}

#[test]
fn token_for_deleted_user_falls_back_to_the_password() {
    let db = bootstrapped_store();
    let tok = create_token_at(99, Role::Root, NOW);
    assert_eq!(
        login_at(&db, Some(&tok), "nobody", "anything", NOW),
        LoginOutcome::Unauthorized
    );
}

#[test]
fn login_against_the_wall_clock() {
    let db = bootstrapped_store();
    match login(&db, None, "root", "s3cret!") {
        LoginOutcome::Authorized(tok) => {
            let t = parse_token(&tok).expect("issued token did not decode");
            let now = chrono::Utc::now().timestamp();
            assert!((now - t.issued).abs() <= 5);
        },
        other => panic!("expected Authorized, got {other:?}"),
    }
    assert_eq!(login(&db, None, "root", "wrong"), LoginOutcome::Unauthorized);
}
