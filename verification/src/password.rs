//! Password hashing and verification through argon2.
//!
//! A stored hash is a PHC string: it embeds the algorithm, parameters and
//! salt, so whether a password verifies against it is a function of the
//! hash string and the password alone.

use argon2::password_hash::{rand_core::OsRng, PasswordHash, SaltString};
use argon2::{Argon2, PasswordHasher, PasswordVerifier};
use vstd::prelude::*;

verus! {

/// The byte length up to which argon2 accepts a password; hashing a longer
/// one is the only way `hash_password` can fail. A character is at most
/// four bytes, hence the margin of four.
pub const MAX_PASSWORD_CHARS: usize = 0x3FFF_FFFF;

/// Whether the string parses as a PHC password-hash string.
/// Names the outcome of argon2's `PasswordHash::new`.
pub uninterp spec fn parses_as_hash(h: Seq<char>) -> bool;

/// Whether argon2 verification of `password` against the PHC string `h`
/// succeeds. Names the outcome of argon2's `verify_password`, which
/// recomputes the hash with the parameters and salt embedded in `h`.
pub uninterp spec fn password_matches(h: Seq<char>, password: Seq<char>) -> bool;

/// Relies on argon2's `PasswordHasher::hash_password` with a freshly
/// generated salt: for a password within argon2's length limit it returns
/// a PHC string that parses back and verifies against the same password
/// (verification recomputes the hash from the embedded salt and
/// parameters). Assumes the operating system's randomness source works.
#[verifier::external_body]
pub(crate) fn hash_password(password: &str) -> (r: String)
    requires
        password@.len() <= MAX_PASSWORD_CHARS,
    ensures
        parses_as_hash(r@),
        password_matches(r@, password@),
{
    let salt = SaltString::generate(&mut OsRng);
    Argon2::default().hash_password(password.as_bytes(), &salt).expect(
        "hashing a password within argon2's length limit cannot fail",
    ).to_string()
}

/// Relies on argon2's `PasswordHash::new` and `verify_password`: a
/// malformed stored hash is reported as `None`, a parseable one yields the
/// deterministic verification outcome.
#[verifier::external_body]
pub(crate) fn check_password(hash: &str, password: &str) -> (r: Option<bool>)
    ensures
        r is Some <==> parses_as_hash(hash@),
        r is Some ==> r == Some(password_matches(hash@, password@)),
{
    match PasswordHash::new(hash) {
        Ok(parsed) => Some(Argon2::default().verify_password(password.as_bytes(), &parsed).is_ok()),
        Err(_) => None,
    }
}

} // verus!
