//! Credential-hashing behaviour.

use dnd_server::auth::{check_password, hash_password, try_check_password};

#[test]
fn hash_verify_round_trip() {
    let h = hash_password("hunter2").expect("hashing failed");
    assert!(check_password("hunter2", &h));
    assert!(!check_password("wrong", &h));
}

#[test]
fn hash_output_is_a_phc_string_not_the_password() {
    let h = hash_password("hunter2").expect("hashing failed");
    assert_ne!(h, "hunter2");
    assert!(h.starts_with("$argon2"));
}

#[test]
fn two_hashes_differ_but_both_verify() {
    let h1 = hash_password("correct horse battery staple").expect("hashing failed");
    let h2 = hash_password("correct horse battery staple").expect("hashing failed");
    assert_ne!(h1, h2);
    assert!(check_password("correct horse battery staple", &h1));
    assert!(check_password("correct horse battery staple", &h2));
}

#[test]
fn cross_verify_fails() {
    let h1 = hash_password("password-one").expect("hashing failed");
    let h2 = hash_password("password-two").expect("hashing failed");
    assert!(!check_password("password-one", &h2));
    assert!(!check_password("password-two", &h1));
}

#[test]
fn empty_password_round_trip() {
    let h = hash_password("").expect("hashing failed");
    assert!(check_password("", &h));
    assert!(!check_password("x", &h));
}

#[test]
fn malformed_stored_hash_is_reported() {
    assert_eq!(try_check_password("anything", "not-a-phc-hash"), None);
    assert_eq!(try_check_password("anything", ""), None);
}

#[test]
fn well_formed_stored_hash_is_checked() {
    let h = hash_password("pw").expect("hashing failed");
    assert_eq!(try_check_password("pw", &h), Some(true));
    assert_eq!(try_check_password("other", &h), Some(false));
}
