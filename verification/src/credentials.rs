//! Password hashing. Every hash of a deployment is made with one salt, which
//! is read once from the deployment's secret and handed to the functions here.

use base64ct::Encoding;
use vstd::prelude::*;

verus! {

/// Length of the salt in bytes.
pub const SALT_LEN: usize = 16;

/// The error of `bcrypt`, carried through unread.
#[verifier::external_type_specification]
#[verifier::external_body]
pub struct ExBcryptError(bcrypt::BcryptError);

/// The error of `base64ct`, carried through unread.
#[verifier::external_type_specification]
#[verifier::external_body]
pub struct ExBase64Error(base64ct::Error);

/// The hash string that bcrypt makes of a password with a salt, at the default cost.
pub uninterp spec fn bcrypt_hash(password: Seq<char>, salt: Seq<u8>) -> Seq<char>;

/// What bcrypt says of a password and a hash string: `Some(true)` where they
/// match, `Some(false)` where they do not, `None` where it cannot read the hash.
pub uninterp spec fn bcrypt_verdict(password: Seq<char>, hashed: Seq<char>) -> Option<bool>;

/// The bytes that a text stands for in the bcrypt flavour of Base64, `None`
/// where the text is not such an encoding.
pub uninterp spec fn bcrypt_base64(text: Seq<char>) -> Option<Seq<u8>>;

/// Calls `bcrypt::hash_with_salt` with `bcrypt::DEFAULT_COST` and formats the
/// parts it returns as a hash string. The call fails only for a cost outside
/// 4..=31, so with the default cost of 12 it always returns a hash. Trusted:
/// the result is a function of password and salt, and `bcrypt::verify`, which
/// reads cost and salt back from the string and hashes again, accepts the
/// password for it.
#[verifier::external_body]
fn bcrypt_hash_with_salt(password: &str, salt: &[u8; 16]) -> (hashed: String)
    ensures
        hashed@ == bcrypt_hash(password@, salt@),
        bcrypt_verdict(password@, hashed@) == Some(true),
{
    bcrypt::hash_with_salt(password, bcrypt::DEFAULT_COST, *salt).unwrap().to_string()
}

/// Calls `bcrypt::verify`. Trusted: its answer is a function of the password
/// and the hash string; it is an error where the string is not a bcrypt hash.
#[verifier::external_body]
fn bcrypt_verify(password: &str, hashed: &str) -> (r: Result<bool, bcrypt::BcryptError>)
    ensures
        match r {
            Ok(same) => bcrypt_verdict(password@, hashed@) == Some(same),
            Err(_) => bcrypt_verdict(password@, hashed@) is None,
        },
{
    bcrypt::verify(password, hashed)
}

/// Calls `base64ct::Base64Bcrypt::decode_vec`. Trusted: the bytes it returns
/// are a function of the text.
#[verifier::external_body]
fn decode_bcrypt_base64(text: &str) -> (r: Result<Vec<u8>, base64ct::Error>)
    ensures
        match r {
            Ok(bytes) => bcrypt_base64(text@) == Some(bytes@),
            Err(_) => bcrypt_base64(text@) is None,
        },
{
    base64ct::Base64Bcrypt::decode_vec(text)
}

/// The salt that a deployment secret stands for: the first sixteen bytes of
/// its decoding, where it decodes to at least that many.
pub open spec fn salt_of(secret: Seq<char>) -> Option<Seq<u8>> {
    match bcrypt_base64(secret) {
        Some(bytes) => if bytes.len() >= SALT_LEN {
            Some(bytes.take(SALT_LEN as int))
        } else {
            None
        },
        None => None,
    }
}

/// Reads the salt from the deployment secret. `None` for a secret that does
/// not decode or decodes to fewer than sixteen bytes.
pub fn salt_from_secret(secret: &str) -> (salt: Option<[u8; 16]>)
    ensures
        match salt {
            Some(bytes) => salt_of(secret@) == Some(bytes@),
            None => salt_of(secret@) is None,
        },
{
    match decode_bcrypt_base64(secret) {
        Ok(bytes) => {
            if bytes.len() < SALT_LEN {
                return None;
            }
            let mut salt: [u8; 16] = [0u8; 16];
            let mut i: usize = 0;
            while i < SALT_LEN
                invariant
                    i <= SALT_LEN <= bytes.len(),
                    forall|j: int| 0 <= j < i ==> salt@[j] == bytes@[j],
                decreases SALT_LEN - i,
            {
                salt[i] = bytes[i];
                i += 1;
            }
            assert(salt@ =~= bytes@.take(SALT_LEN as int));
            Some(salt)
        },
        Err(_) => None,
    }
}

/// Whether `hashed` is a hash that accepts `password`. A string that is no
/// hash accepts nothing.
pub open spec fn password_matches(password: Seq<char>, hashed: Seq<char>) -> bool {
    bcrypt_verdict(password, hashed) == Some(true)
}

/// Hashes a password with the deployment's salt. The result depends on the
/// password and the salt alone, and it accepts the password.
pub fn hash_password(password: &str, salt: &[u8; 16]) -> (hashed: String)
    ensures
        hashed@ == bcrypt_hash(password@, salt@),
        password_matches(password@, hashed@),
{
    bcrypt_hash_with_salt(password, salt)
}

/// Checks a password against a stored hash. A stored value that cannot be
/// read as a hash is rejected like a wrong password.
pub fn verify_password(password: &str, hashed: &str) -> (ok: bool)
    ensures
        ok == password_matches(password@, hashed@),
{
    match bcrypt_verify(password, hashed) {
        Ok(same) => same,
        Err(_) => false,
    }
}

} // verus!
