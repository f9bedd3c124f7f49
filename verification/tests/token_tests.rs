//! Token codec behaviour.

use dnd_server::auth::Role;
use dnd_server::token::{create_token, create_token_at, parse_token, LoginToken};

// 2024-04-09T12:00:00Z
const TS: i64 = 1712664000;

#[test]
fn token_exact_string() {
    let tok = create_token_at(7, Role::Root, TS);
    assert_eq!(tok, "{\"id\":7,\"role\":10,\"issued\":\"2024-04-09T12:00:00Z\"}");
    // cross-check the pinned timestamp against chrono itself
    let dt = chrono::DateTime::parse_from_rfc3339("2024-04-09T12:00:00Z").unwrap();
    assert_eq!(dt.timestamp(), TS);
}

#[test]
fn issue_decode_round_trip() {
    let tok = create_token_at(7, Role::Root, TS);
    let t = parse_token(&tok).expect("fresh token did not decode");
    assert_eq!(t, LoginToken { id: 7, role: Role::Root, issued: TS });
}

#[test]
fn round_trip_id_extremes() {
    for id in [0u64, 1, 9, 10, 65535, u64::MAX] {
        let tok = create_token_at(id, Role::Root, TS);
        let t = parse_token(&tok).expect("token did not decode");
        assert_eq!(t.id, id);
        assert_eq!(t.issued, TS);
    }
}

#[test]
fn round_trip_epoch_and_far_future() {
    for ts in [0i64, 1, 253402300799] {
        let tok = create_token_at(3, Role::Root, ts);
        let t = parse_token(&tok).expect("token did not decode");
        assert_eq!(t.issued, ts);
    }
}

#[test]
fn create_token_now_is_issued_about_now() {
    let tok = create_token(5, Role::Root).expect("token creation failed");
    let t = parse_token(&tok).expect("fresh token did not decode");
    assert_eq!(t.id, 5);
    let now = chrono::Utc::now().timestamp();
    assert!((now - t.issued).abs() <= 5);
}

#[test]
fn malformed_tokens_are_rejected() {
    let bad = [
        "",
        "{}",
        "garbage",
        "{\"id\":7,\"role\":10,\"issued\":\"2024-04-09T12:00:00Z\"",
        "{\"id\":7,\"role\":10,\"issued\":\"2024-04-09T12:00:00Z\"}x",
        "{\"id\":,\"role\":10,\"issued\":\"2024-04-09T12:00:00Z\"}",
        "{\"id\":7,\"role\":,\"issued\":\"2024-04-09T12:00:00Z\"}",
        "{\"id\":7,\"role\":10,\"issued\":\"\"}",
        "{\"id\":7,\"role\":10,\"issued\":\"notadate\"}",
        "{\"id\":7,\"role\":10,\"issued\":2024}",
        "{\"id\":-7,\"role\":10,\"issued\":\"2024-04-09T12:00:00Z\"}",
        "{\"id\":7.5,\"role\":10,\"issued\":\"2024-04-09T12:00:00Z\"}",
        " {\"id\":7,\"role\":10,\"issued\":\"2024-04-09T12:00:00Z\"}",
    ];
    for raw in bad {
        assert!(parse_token(raw).is_none(), "accepted: {raw}");
    }
}

#[test]
fn non_canonical_numbers_are_rejected() {
    assert!(parse_token("{\"id\":007,\"role\":10,\"issued\":\"2024-04-09T12:00:00Z\"}").is_none());
    assert!(parse_token("{\"id\":7,\"role\":010,\"issued\":\"2024-04-09T12:00:00Z\"}").is_none());
    // one past u64::MAX
    assert!(
        parse_token(
            "{\"id\":18446744073709551616,\"role\":10,\"issued\":\"2024-04-09T12:00:00Z\"}"
        )
        .is_none()
    );
}

#[test]
fn unrecognized_role_code_is_rejected() {
    assert!(parse_token("{\"id\":7,\"role\":9,\"issued\":\"2024-04-09T12:00:00Z\"}").is_none());
    assert!(parse_token("{\"id\":7,\"role\":11,\"issued\":\"2024-04-09T12:00:00Z\"}").is_none());
    assert!(parse_token("{\"id\":7,\"role\":300,\"issued\":\"2024-04-09T12:00:00Z\"}").is_none());
}
