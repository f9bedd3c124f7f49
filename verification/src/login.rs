//! The login flow: idempotent short-circuit on an already-valid session
//! token, then name lookup and password check, then issuance of a fresh
//! token.

use vstd::prelude::*;

verus! {

use crate::auth::{argon2_verifies, phc_parses, try_check_password};
use crate::database::{Database, UserInfo};
use crate::token::{
    age_minutes, check_token_at, create_token_at, iso_utc_of, now_unix, rfc3339_secs, token_json,
    wf_iso, MAX_ENCODABLE_TS, TOKEN_VALID_TIME_MIN, TS_ABS_BOUND,
};

/// The request body given by a user logging in.
#[derive(Clone, Debug)]
pub struct LoginRequest {
    /// The name of the user to login.
    pub name: String,
    /// The password proving the user is who we think they are.
    pub pass: String,
}

/// The outcome of a login attempt.
#[derive(Debug, PartialEq, Eq)]
pub enum LoginOutcome {
    /// The credentials matched; a fresh token for the user is handed back.
    Authorized(String),
    /// The presented session token is still valid; nothing to do.
    AlreadyValid,
    /// Unknown name or wrong password, deliberately collapsed into one
    /// indistinguishable outcome.
    Unauthorized,
    /// The flow itself could not complete: a store or hashing failure, or
    /// corrupted stored data.
    Failure,
}

/// No reading of `tok` as a canonical token is a live session against the
/// given store model at the given time: every decomposition is either stale
/// or refers to a user id the store does not currently hold. A string with
/// no canonical reading at all satisfies this vacuously.
pub open spec fn token_rejected_spec(
    users: Map<u64, crate::database::UserRow>,
    init: bool,
    tok: Seq<char>,
    now: i64,
) -> bool {
    forall|idn: nat, iso: Seq<char>|
        idn <= u64::MAX && wf_iso(iso) && rfc3339_secs(iso) is Some && tok == #[trigger] token_json(
            idn,
            10,
            iso,
        ) ==> (age_minutes(now, rfc3339_secs(iso).unwrap()) > TOKEN_VALID_TIME_MIN || !(init
            && users.dom().contains(idn as u64)))
}

/// Handles a login attempt at the given time.
///
/// A presented token that still validates short-circuits the flow without
/// touching the password; otherwise — in particular whenever the presented
/// token is stale, unknown or unreadable — the user is looked up by name
/// and the password checked against the stored hash, with an unknown name
/// and a wrong password collapsing into the same `Unauthorized` outcome.
pub fn login_at(
    database: &Database,
    presented: Option<&str>,
    name: &str,
    pass: &str,
    now: i64,
) -> (r: LoginOutcome)
    requires
        -TS_ABS_BOUND <= now <= TS_ABS_BOUND,
    ensures
        // an already-valid token never reaches the password path
        presented matches Some(tok) ==> (forall|idn: nat, iso: Seq<char>|
            idn <= u64::MAX && wf_iso(iso) && rfc3339_secs(iso) is Some && tok@
                == #[trigger] token_json(idn, 10, iso) && age_minutes(
                now,
                rfc3339_secs(iso).unwrap(),
            ) <= TOKEN_VALID_TIME_MIN && database.initialized()
                && database.users().dom().contains(idn as u64) ==> (r == LoginOutcome::AlreadyValid
                || r == LoginOutcome::Failure)),
        // only a presented token can short-circuit
        r == LoginOutcome::AlreadyValid ==> presented is Some,
        // a handed-back token is a fresh, decodable token for a stored user;
        // where ids are distinct, that user carries the given name and a
        // stored hash matching the password
        r matches LoginOutcome::Authorized(token) ==> 0 <= now <= MAX_ENCODABLE_TS && wf_iso(
            iso_utc_of(now),
        ) && rfc3339_secs(iso_utc_of(now)) == Some(now) && database.initialized() && (exists|
            i: u64,
        |
            #[trigger] database.users().dom().contains(i) && token@ == token_json(
                i as nat,
                10,
                iso_utc_of(now),
            )) && (database.wellformed() ==> (exists|i: u64|
            #[trigger] database.users().dom().contains(i) && database.users()[i].name == name@
                && argon2_verifies(pass@, database.users()[i].pass) && token@ == token_json(
                i as nat,
                10,
                iso_utc_of(now),
            ))),
        // an unauthorized outcome really means unknown name or wrong
        // password (on a store with distinct ids, as this library creates)
        database.wellformed() && r == LoginOutcome::Unauthorized ==> (!(database.initialized()
            && (exists|i: u64|
            #[trigger] database.users().dom().contains(i) && database.users()[i].name == name@)))
            || (exists|i: u64|
            #[trigger] database.users().dom().contains(i) && database.users()[i].name == name@
                && phc_parses(database.users()[i].pass) && !argon2_verifies(
                pass@,
                database.users()[i].pass,
            )),
        // wrong credentials (or an unknown name) are owed an unauthorized
        // outcome, short of a store failure; a rejected presented token
        // falls through to the same path
        (database.wellformed() && (presented is None || (presented matches Some(tok)
            && token_rejected_spec(database.users(), database.initialized(), tok@, now))) && (forall|
            i: u64,
        |
            (#[trigger] database.users().dom().contains(i) && database.users()[i].name == name@)
                ==> (phc_parses(database.users()[i].pass) && !argon2_verifies(
                pass@,
                database.users()[i].pass,
            )))) ==> (r == LoginOutcome::Unauthorized || r == LoginOutcome::Failure),
        // matching credentials are owed a fresh token, short of a store
        // failure; a rejected presented token falls through to the same path
        (database.wellformed() && (presented is None || (presented matches Some(tok)
            && token_rejected_spec(database.users(), database.initialized(), tok@, now)))
            && database.initialized() && (exists|i: u64|
            #[trigger] database.users().dom().contains(i) && database.users()[i].name == name@)
            && (forall|i: u64|
            (#[trigger] database.users().dom().contains(i) && database.users()[i].name == name@)
                ==> (phc_parses(database.users()[i].pass) && argon2_verifies(
                pass@,
                database.users()[i].pass,
            ))) && 0 <= now <= MAX_ENCODABLE_TS) ==> ((r matches LoginOutcome::Authorized(_)) || r
            == LoginOutcome::Failure),
{
    if let Some(tok) = presented {
        match check_token_at(database, tok, now) {
            // it is still valid: nothing to do
            Ok(Ok(_user)) => {
                return LoginOutcome::AlreadyValid;
            },
            // it is invalid: continue to a password login
            Ok(Err(_invalid)) => {},
            // the validator itself could not complete
            Err(_err) => {
                return LoginOutcome::Failure;
            },
        }
    }
    let user: UserInfo = match database.get_user_by_name(name) {
        Ok(Some(user)) => user,
        Ok(None) => {
            return LoginOutcome::Unauthorized;
        },
        Err(_err) => {
            return LoginOutcome::Failure;
        },
    };
    match try_check_password(pass, user.pass.as_str()) {
        Some(true) => {},
        Some(false) => {
            return LoginOutcome::Unauthorized;
        },
        // the stored hash does not parse: external corruption
        None => {
            return LoginOutcome::Failure;
        },
    }
    if now < 0 || now > MAX_ENCODABLE_TS {
        return LoginOutcome::Failure;
    }
    LoginOutcome::Authorized(create_token_at(user.id, user.role, now))
}

/// Handles a login attempt at the current time.
///
/// Every clause of [`login_at`] that does not speak of the clock carries
/// over: a handed-back token is a decodable token for the matching user,
/// only a presented token can short-circuit, and wrong credentials are
/// owed the one indistinguishable `Unauthorized` outcome, short of a store
/// failure.
pub fn login(database: &Database, presented: Option<&str>, name: &str, pass: &str) -> (r:
    LoginOutcome)
    ensures
        r matches LoginOutcome::Authorized(token) ==> database.initialized() && (exists|
            i: u64,
            t: i64,
        |
            #![trigger database.users().dom().contains(i), iso_utc_of(t)]
            database.users().dom().contains(i) && 0 <= t <= MAX_ENCODABLE_TS && wf_iso(
                iso_utc_of(t),
            ) && rfc3339_secs(iso_utc_of(t)) == Some(t) && token@ == token_json(
                i as nat,
                10,
                iso_utc_of(t),
            ) && (database.wellformed() ==> database.users()[i].name == name@ && argon2_verifies(
                pass@,
                database.users()[i].pass,
            ))),
        r == LoginOutcome::AlreadyValid ==> presented is Some,
        database.wellformed() && r == LoginOutcome::Unauthorized ==> (!(database.initialized() && (
        exists|i: u64|
            #[trigger] database.users().dom().contains(i) && database.users()[i].name == name@)))
            || (exists|i: u64|
            #[trigger] database.users().dom().contains(i) && database.users()[i].name == name@
                && phc_parses(database.users()[i].pass) && !argon2_verifies(
                pass@,
                database.users()[i].pass,
            )),
        (database.wellformed() && presented is None && (forall|i: u64|
            (#[trigger] database.users().dom().contains(i) && database.users()[i].name == name@)
                ==> (phc_parses(database.users()[i].pass) && !argon2_verifies(
                pass@,
                database.users()[i].pass,
            )))) ==> (r == LoginOutcome::Unauthorized || r == LoginOutcome::Failure),
{
    login_at(database, presented, name, pass, now_unix())
}

} // verus!
