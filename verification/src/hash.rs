//! Password hashing: a salted one-way hash with the salt embedded in the
//! encoded output, and its verification.

use vstd::prelude::*;
use vstd::string::StringSliceAdditionalSpecFns;
use rand::Rng;

verus! {

/// What argon2 verification returns for an encoded hash and a password:
/// `None` when the encoded hash cannot be decoded, otherwise whether the
/// password matches. The result depends on the two arguments alone.
pub uninterp spec fn argon2_verify_result(hash: Seq<char>, password: Seq<u8>) -> Option<bool>;

/// Relies on `rand::thread_rng().gen`: a fresh 20-byte salt.
#[verifier::external_body]
fn random_salt() -> (r: [u8; 20]) {
    rand::thread_rng().gen::<[u8; 20]>()
}

/// Relies on `argon2::hash_encoded` (rust-argon2): hashing a password with
/// a salt yields a non-empty encoded hash that `argon2::verify_encoded`
/// accepts for the same password. Under the default configuration the
/// only rejected inputs are a salt outside 8 to 2^32 - 1 bytes and a
/// password longer than 2^32 - 1 bytes; everything else hashes.
#[verifier::external_body]
fn argon2_hash(password: &[u8], salt: &[u8]) -> (r: Option<String>)
    ensures
        r matches Some(h) ==> argon2_verify_result(h@, password@) == Some(true) && h@.len() > 0,
        8 <= salt@.len() <= u32::MAX && password@.len() <= u32::MAX ==> r is Some,
{
    argon2::hash_encoded(password, salt, &argon2::Config::default()).ok()
}

/// Relies on `argon2::verify_encoded` (rust-argon2): recomputes the hash
/// from the password and the parameters and salt embedded in the encoded
/// string and compares; fails on an encoded string it cannot decode.
#[verifier::external_body]
fn argon2_verify(hash: &str, password: &[u8]) -> (r: Option<bool>)
    ensures
        r == argon2_verify_result(hash@, password@),
{
    argon2::verify_encoded(hash, password).ok()
}

/// The UTF-8 encoding of a character sequence spends at most four bytes
/// per character.
pub proof fn lemma_encode_utf8_len(chars: Seq<char>)
    ensures
        vstd::utf8::encode_utf8(chars).len() <= 4 * chars.len(),
    decreases chars.len(),
{
    if chars.len() > 0 {
        lemma_encode_utf8_len(chars.drop_first());
    }
}

/// Hashes a password under a fresh random salt; the salt is embedded in
/// the encoded output, so verification needs only the output and the
/// password. Succeeds for every password whose UTF-8 form fits the
/// hash function's input bound.
pub fn from_password(password: &str) -> (r: Result<String, &'static str>)
    ensures
        r matches Ok(h) ==> argon2_verify_result(h@, password.spec_bytes()) == Some(true)
            && h@.len() > 0,
        password.spec_bytes().len() <= u32::MAX ==> r is Ok,
{
    let salt = random_salt();
    let bytes = password.as_bytes();
    proof {
        assert(salt@.len() == 20);
    }
    match argon2_hash(bytes, salt.as_slice()) {
        Some(h) => Ok(h),
        None => Err("Failed to create hash"),
    }
}

/// Verifies a password against an encoded hash; fails closed on a
/// malformed hash.
pub fn compare_passwords<'a>(password: &[u8], hash: &'a str) -> (r: Result<bool, &'static str>)
    ensures
        match r {
            Ok(b) => argon2_verify_result(hash@, password@) == Some(b),
            Err(_) => argon2_verify_result(hash@, password@) is None,
        },
{
    match argon2_verify(hash, password) {
        Some(b) => Ok(b),
        None => Err("Failed to verify password"),
    }
}

} // verus!
