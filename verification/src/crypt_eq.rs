//! One-way password comparison. A stored `password_hash` is a salted bcrypt
//! hash; whether a submitted password matches it is decided by the `bcrypt`
//! crate behind the two trusted wrappers below, and named by
//! [`crypt_verifies`] so that contracts can speak about it.

use vstd::prelude::*;

verus! {

/// Whether `bcrypt::verify(password, hash)` returns `Ok(true)`: the
/// submitted password, hashed with the salt and cost recorded inside
/// `hash`, reproduces `hash`. A function of its two arguments alone.
pub uninterp spec fn crypt_verifies(password: Seq<char>, hash: Seq<char>) -> bool;

/// Relies on `bcrypt::verify`: it re-hashes `password` with the salt and
/// cost carried in `hash` and compares; the result depends on the two
/// arguments alone. An error (a string that is not a bcrypt hash) counts
/// as no match.
#[verifier::external_body]
pub(crate) fn verify_password(password: &str, hash: &str) -> (r: bool)
    ensures
        r == crypt_verifies(password@, hash@),
{
    bcrypt::verify(password, hash).unwrap_or(false)
}

/// Relies on `bcrypt::hash`: on success it returns a well-formed bcrypt
/// hash of `password` under a fresh random salt, which `bcrypt::verify`
/// then accepts for the same password. The salt is random, so nothing more
/// is promised of the hash itself; failure (no OS randomness) is `None`.
/// The work factor is 6, the default of the storage extension's
/// `gen_salt('bf')` that hashed these passwords before.
#[verifier::external_body]
pub(crate) fn hash_password(password: &str) -> (r: Option<String>)
    ensures
        r is Some ==> crypt_verifies(password@, r.unwrap()@),
{
    bcrypt::hash(password, 6).ok()
}

} // verus!
