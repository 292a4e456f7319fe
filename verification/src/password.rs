use vstd::prelude::*;

verus! {

/// What `bcrypt::verify` answers for a password and a stored hash: `Some(true)` when the
/// password matches, `Some(false)` when it does not, `None` when the hash cannot be read.
pub uninterp spec fn bcrypt_verifies(password: Seq<char>, hash: Seq<char>) -> Option<bool>;

/// `bcrypt::verify`. The contract names its answer `bcrypt_verifies` of the two arguments; an
/// error of the crate is reported as `None`.
#[verifier::external_body]
pub(crate) fn verify_password(password: &str, hash: &str) -> (r: Option<bool>)
    ensures
        r == bcrypt_verifies(password@, hash@),
{
    match bcrypt::verify(password, hash) {
        Ok(b) => Some(b),
        Err(_) => None,
    }
}

/// `bcrypt::hash` with cost 12. The salt is drawn at random, so nothing names the hash; the
/// contract claims only what the crate's source shows of every outcome: a hash it returns is
/// one that `bcrypt::verify` accepts for the same password, 60 characters long and starting
/// with the version and cost `$2b$12$`. An error is reported by its text.
#[verifier::external_body]
pub(crate) fn hash_password(password: &str) -> (r: Result<String, String>)
    ensures
        r matches Ok(h) ==> bcrypt_verifies(password@, h@) == Some(true) && h@.len() == 60
            && h@.subrange(0, 7) == "$2b$12$"@,
{
    match bcrypt::hash(password, 12) {
        Ok(h) => Ok(h),
        Err(e) => Err(e.to_string()),
    }
}

} // verus!
