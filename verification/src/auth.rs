//! User roles and credential hashing.
//!
//! Passwords are hashed with Argon2 under a fresh random salt per call; the
//! stored value is a self-describing PHC string. Verification recomputes the
//! hash under the parameters and salt embedded in the stored string.

use vstd::prelude::*;

verus! {

use argon2::password_hash::{PasswordHasher, PasswordVerifier};
use vstd::string::StringSliceAdditionalSpecFns;

/// Recognized user roles and the ordering between them.
#[derive(Clone, Copy, Debug, PartialEq, Eq, Structural, Hash, PartialOrd, Ord)]
pub enum Role {
    /// The most powerful role.
    Root,
}

/// The small-integer encoding of a role used at rest and in tokens.
pub open spec fn role_code_spec(r: Role) -> nat {
    match r {
        Role::Root => 10,
    }
}

/// Error for an integer that encodes no recognized role.
#[derive(Clone, Copy, Debug, PartialEq, Eq, Structural)]
pub struct RoleFromU8Error(pub u8);

impl Role {
    /// The integer code of this role.
    pub fn code(self) -> (c: u8)
        ensures
            c as nat == role_code_spec(self),
    {
        match self {
            Role::Root => 10,
        }
    }

    /// The display name of this role.
    pub fn name(self) -> (s: &'static str)
        ensures
            s@ == role_name_spec(self),
    {
        match self {
            Role::Root => "Root",
        }
    }

    /// Decodes an integer role code; an unrecognized code is an explicit
    /// error, never silently coerced.
    pub fn from_code(v: u8) -> (r: Result<Role, RoleFromU8Error>)
        ensures
            v == 10 ==> r == Ok::<Role, RoleFromU8Error>(Role::Root),
            v != 10 ==> r == Err::<Role, RoleFromU8Error>(RoleFromU8Error(v)),
    {
        if v == 10 {
            Ok(Role::Root)
        } else {
            Err(RoleFromU8Error(v))
        }
    }
}

/// The display name of a role.
pub open spec fn role_name_spec(r: Role) -> Seq<char> {
    match r {
        Role::Root => "Root"@,
    }
}

/// Whether Argon2 verification of `password` against the PHC string `phc`
/// succeeds. Verification recomputes the digest under the parameters and
/// salt embedded in `phc`, so the outcome is a function of the two strings
/// alone.
pub uninterp spec fn argon2_verifies(password: Seq<char>, phc: Seq<char>) -> bool;

/// Whether `phc` parses as a PHC-format password-hash string.
pub uninterp spec fn phc_parses(phc: Seq<char>) -> bool;

/// Errors originating from password hashing or checking.
#[derive(Debug)]
pub enum PasswordError {
    /// Failed to hash a given password.
    Hash { err: argon2::password_hash::Error },
}

#[verifier::external_type_specification]
#[verifier::external_body]
pub struct ExPasswordHashError(argon2::password_hash::Error);

/// Relies on `Argon2::hash_password` with a salt from
/// `SaltString::generate`: a successful result is the PHC rendering of the
/// computed hash, which parses back with `PasswordHash::new` and verifies
/// against exactly the password it was derived from. The primitive rejects
/// only passwords longer than `0xFFFFFFFF` bytes, and the generated
/// sixteen-byte salt and the default parameters are always accepted, so any
/// shorter password is owed a hash.
#[verifier::external_body]
fn argon2_hash(password: &str) -> (r: Result<String, argon2::password_hash::Error>)
    ensures
        r matches Ok(h) ==> phc_parses(h@) && argon2_verifies(password@, h@),
        password.spec_bytes().len() <= 0xFFFFFFFF ==> r is Ok,
{
    let salt = argon2::password_hash::SaltString::generate(&mut rand::rngs::OsRng);
    match argon2::Argon2::default().hash_password(password.as_bytes(), &salt) {
        Ok(h) => Ok(h.to_string()),
        Err(e) => Err(e),
    }
}

/// Relies on `PasswordHash::new`: it succeeds exactly on strings in PHC
/// format.
#[verifier::external_body]
fn phc_parse_ok(hash: &str) -> (b: bool)
    ensures
        b == phc_parses(hash@),
{
    argon2::password_hash::PasswordHash::new(hash).is_ok()
}

/// Relies on `PasswordHash::new` and `Argon2::verify_password`: parsing
/// succeeds exactly on PHC strings, and verification recomputes the digest
/// from the password and the embedded parameters and salt, so its outcome
/// is a function of the two strings.
#[verifier::external_body]
fn argon2_check(password: &str, hash: &str) -> (r: Option<bool>)
    ensures
        r is Some <==> phc_parses(hash@),
        r matches Some(b) ==> b == argon2_verifies(password@, hash@),
{
    match argon2::password_hash::PasswordHash::new(hash) {
        Ok(parsed) => Some(
            argon2::Argon2::default().verify_password(password.as_bytes(), &parsed).is_ok(),
        ),
        Err(_) => None,
    }
}

/// Computes the salted hash of a password.
///
/// Every successful result parses as a PHC string and verifies against the
/// hashed password; the salt is drawn fresh per call, so two calls on the
/// same password generally return different strings. Hashing fails only
/// when the primitive rejects the input, which it does exactly for
/// passwords longer than `0xFFFFFFFF` bytes.
pub fn hash_password(password: &str) -> (r: Result<String, PasswordError>)
    ensures
        r matches Ok(h) ==> phc_parses(h@) && argon2_verifies(password@, h@),
        password.spec_bytes().len() <= 0xFFFFFFFF ==> r is Ok,
{
    match argon2_hash(password) {
        Ok(h) => Ok(h),
        Err(err) => Err(PasswordError::Hash { err }),
    }
}

/// Compares the hash of a plaintext password with a stored hash.
///
/// The stored hash must be well-formed: hashes are produced only by
/// [`hash_password`], so an unparsable one is a data-corruption condition,
/// which [`try_check_password`] reports instead.
pub fn check_password(password: &str, hash: &str) -> (b: bool)
    requires
        phc_parses(hash@),
    ensures
        b == argon2_verifies(password@, hash@),
{
    match argon2_check(password, hash) {
        Some(b) => b,
        None => {
            proof {
                assert(false);
            }
            false
        },
    }
}

/// Checks a password against a stored hash, reporting an unparsable stored
/// hash as `None` rather than assuming it is well-formed.
pub fn try_check_password(password: &str, hash: &str) -> (r: Option<bool>)
    ensures
        r is Some <==> phc_parses(hash@),
        r matches Some(b) ==> b == argon2_verifies(password@, hash@),
{
    if phc_parse_ok(hash) {
        Some(check_password(password, hash))
    } else {
        None
    }
}

} // verus!
