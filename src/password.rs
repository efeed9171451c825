use vstd::prelude::*;

verus! {

/// What bcrypt's verification says of `password` against `hash`: whether they match,
/// or nothing when the hash cannot be read.
pub uninterp spec fn bcrypt_verdict(password: Seq<char>, hash: Seq<char>) -> Option<bool>;

/// Relies on bcrypt::verify: it re-hashes the password with the cost and salt that
/// the hash holds and compares, so the outcome depends on its two arguments alone;
/// a hash that it cannot parse is an error.
#[verifier::external_body]
pub(crate) fn verify_password(password: &str, hash: &str) -> (r: Option<bool>)
    ensures
        r == bcrypt_verdict(password@, hash@),
{
    bcrypt::verify(password, hash).ok()
}

/// Relies on bcrypt::hash: it draws a fresh salt, and bcrypt::verify of the same
/// password against what it returns is true. It fails for a cost outside 4..=31.
#[verifier::external_body]
pub(crate) fn hash_password(password: &str, cost: u32) -> (r: Option<String>)
    ensures
        r matches Some(h) ==> bcrypt_verdict(password@, h@) == Some(true),
{
    bcrypt::hash(password, cost).ok()
}

} // verus!
