//! Password hashes and session tokens.
use vstd::prelude::*;

use argon2::password_hash::rand_core::OsRng;
use argon2::password_hash::{PasswordHash, PasswordHasher, PasswordVerifier, SaltString};
use argon2::Argon2;
use rand::RngCore;
use sha2::{Digest, Sha256};

use crate::error::{failure_of, internal_failure, AppError, AppResult};

verus! {

/// The character of a hex digit, in lower case.
pub open spec fn hex_digit_char(n: int) -> char {
    if n < 10 {
        (48 + n) as char
    } else {
        (87 + n) as char
    }
}

/// Bytes written as lower-case hex, two digits per byte, high nibble first.
pub open spec fn hex_text(bytes: Seq<u8>) -> Seq<char>
    decreases bytes.len(),
{
    if bytes.len() == 0 {
        Seq::empty()
    } else {
        hex_text(bytes.drop_last()) + seq![
            hex_digit_char(bytes.last() as int / 16),
            hex_digit_char(bytes.last() as int % 16),
        ]
    }
}

/// The SHA-256 digest of the bytes.
pub uninterp spec fn sha256_digest(data: Seq<u8>) -> Seq<u8>;

/// What Argon2 answers when `password` is checked against the PHC string
/// `hash`: whether it matches, or the text of the error when `hash` is not a
/// PHC string it can read.
pub uninterp spec fn argon2_verdict(password: Seq<char>, hash: Seq<char>) -> Result<bool, Seq<char>>;

/// Argon2 accepts `password` for the PHC string `hash`.
pub open spec fn argon2_accepts(password: Seq<char>, hash: Seq<char>) -> bool {
    argon2_verdict(password, hash) == Ok::<bool, Seq<char>>(true)
}

/// Calls `hex::encode`: each byte as two lower-case hex digits, high nibble first.
#[verifier::external_body]
fn hex_lower(bytes: &[u8]) -> (r: String)
    ensures
        r@ == hex_text(bytes@),
{
    hex::encode(bytes)
}

/// Calls `Sha256::digest`: the digest of the bytes, 32 bytes long.
#[verifier::external_body]
fn sha256(data: &[u8]) -> (r: Vec<u8>)
    ensures
        r@ == sha256_digest(data@),
        r@.len() == 32,
{
    Sha256::digest(data).to_vec()
}

/// Calls `RngCore::fill_bytes` of `rand::thread_rng` on 32 bytes: random bytes,
/// of which nothing is claimed but their number.
#[verifier::external_body]
fn random_bytes() -> (r: Vec<u8>)
    ensures
        r@.len() == 32,
{
    let mut bytes = [0u8;32];
    rand::thread_rng().fill_bytes(&mut bytes);
    bytes.to_vec()
}

/// Calls `SaltString::generate` with `OsRng` and `PasswordHasher::hash_password`
/// of the default Argon2: a PHC string with a random salt, or the error's text.
/// Claimed: checking the same password against the string succeeds.
#[verifier::external_body]
fn argon2_hash(password: &str) -> (r: Result<String, String>)
    ensures
        r matches Ok(h) ==> argon2_accepts(password@, h@),
{
    let salt = SaltString::generate(&mut OsRng);
    match Argon2::default().hash_password(password.as_bytes(), &salt) {
        Ok(hash) => Ok(hash.to_string()),
        Err(err) => Err(err.to_string()),
    }
}

/// Calls `PasswordHash::new` and `PasswordVerifier::verify_password` of the
/// default Argon2: whether the password matches the PHC string, or the text of
/// the error when the string cannot be read.
#[verifier::external_body]
fn argon2_check(password: &str, hash: &str) -> (r: Result<bool, String>)
    ensures
        match argon2_verdict(password@, hash@) {
            Ok(b) => r == Ok::<bool, String>(b),
            Err(m) => r matches Err(t) && t@ == m,
        },
{
    let parsed = match PasswordHash::new(hash) {
        Ok(p) => p,
        Err(err) => return Err(err.to_string()),
    };
    Ok(Argon2::default().verify_password(password.as_bytes(), &parsed).is_ok())
}

/// Text that starts every error of a failed hashing.
pub open spec fn hash_failure_prefix() -> Seq<char> {
    "Passwort-Hash fehlgeschlagen: "@
}

/// Hashes a password with Argon2 and a fresh random salt; checking the same
/// password against the hash succeeds.
pub fn hash_password(password: &str) -> (r: AppResult<String>)
    ensures
        r matches Ok(h) ==> argon2_accepts(password@, h@),
        r matches Err(e) ==> (e matches AppError::Internal(m) && m@.len() >= hash_failure_prefix().len()
            && m@.subrange(0, hash_failure_prefix().len() as int) == hash_failure_prefix()),
{
    match argon2_hash(password) {
        Ok(h) => Ok(h),
        Err(text) => {
            let mut m = String::from_str("Passwort-Hash fehlgeschlagen: ");
            m.append(text.as_str());
            proof {
                assert(m@.subrange(0, hash_failure_prefix().len() as int) == hash_failure_prefix());
            }
            Err(AppError::Internal(m))
        },
    }
}

/// Whether the password matches the stored hash; a hash that cannot be read is
/// an internal error.
pub fn verify_password(password: &str, hash: &str) -> (r: AppResult<bool>)
    ensures
        match argon2_verdict(password@, hash@) {
            Ok(b) => r == Ok::<bool, AppError>(b),
            Err(m) => r matches Err(e) && failure_of(e) == internal_failure(
                "Passwort-Hash ungültig: "@ + m,
            ),
        },
{
    match argon2_check(password, hash) {
        Ok(b) => Ok(b),
        Err(text) => {
            let mut m = String::from_str("Passwort-Hash ungültig: ");
            m.append(text.as_str());
            Err(AppError::Internal(m))
        },
    }
}

/// A hash made from a password accepts that password.
pub proof fn law_password_roundtrip(password: Seq<char>, hash: Seq<char>)
    requires
        argon2_accepts(password, hash),
    ensures
        argon2_verdict(password, hash) matches Ok(b) && b,
{
}

/// The characters of a session token: 64 lower-case hex digits.
pub open spec fn is_token_text(s: Seq<char>) -> bool {
    exists|bytes: Seq<u8>| bytes.len() == 32 && s == #[trigger] hex_text(bytes)
}

/// A fresh random session token: 32 random bytes in hex.
pub fn generate_session_token() -> (r: String)
    ensures
        is_token_text(r@),
{
    let bytes = random_bytes();
    let r = hex_lower(bytes.as_slice());
    assert(bytes@.len() == 32 && r@ == hex_text(bytes@));
    r
}

/// The stored form of a session token: the hex of the SHA-256 digest of its bytes.
pub open spec fn token_hash_text(token: Seq<char>) -> Seq<char> {
    hex_text(sha256_digest(vstd::utf8::encode_utf8(token)))
}

/// Hashes a session token for storage.
pub fn hash_session_token(token: &str) -> (r: String)
    ensures
        r@ == token_hash_text(token@),
        is_token_text(r@),
{
    let digest = sha256(token.as_bytes());
    let r = hex_lower(digest.as_slice());
    assert(digest@.len() == 32 && r@ == hex_text(digest@));
    r
}

} // verus!
