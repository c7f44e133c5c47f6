//! Hashing, MACs, encodings and randomness, by the RustCrypto and `base64`
//! crates; hex text.
use argon2::password_hash::rand_core::{OsRng, RngCore};
use argon2::password_hash::{PasswordHash, PasswordHasher, PasswordVerifier, SaltString};
use argon2::Argon2;
use base64::engine::general_purpose::URL_SAFE_NO_PAD;
use base64::Engine;
use hmac::{Hmac, Mac};
use sha2::{Digest, Sha256};
use vstd::prelude::*;

use crate::text::string_of;

verus! {

/// The SHA-256 digest of `data`.
pub uninterp spec fn sha256(data: Seq<u8>) -> Seq<u8>;

/// The HMAC-SHA256 tag of `message` under `key`.
pub uninterp spec fn hmac_sha256(key: Seq<u8>, message: Seq<u8>) -> Seq<u8>;

/// The URL-safe base64 text of `data`, without padding.
pub uninterp spec fn base64_url_no_pad(data: Seq<u8>) -> Seq<char>;

/// Whether `password` matches the PHC string `hash` under Argon2.
pub uninterp spec fn argon2_verifies(password: Seq<u8>, hash: Seq<char>) -> bool;

/// A lower-case hex digit for a value below 16.
pub open spec fn hex_digit(n: u8) -> char {
    if n < 10 {
        (('0' as u8) + n) as char
    } else {
        (('a' as u8) + n - 10) as char
    }
}

/// The two lower-case hex digits of a byte, high nibble first.
pub open spec fn hex_pair(b: u8) -> Seq<char> {
    seq![hex_digit(b / 16), hex_digit(b % 16)]
}

/// `hex::encode`: two lower-case hex digits per byte, high nibble first.
pub open spec fn hex_of(bytes: Seq<u8>) -> Seq<char> {
    bytes.flat_map(|b: u8| hex_pair(b))
}

/// The lower-case hex digit of a value below sixteen.
fn hex_digit_char(n: u8) -> (c: char)
    requires
        n < 16,
    ensures
        c == hex_digit(n),
{
    if n < 10 {
        let u: u8 = n + 48;
        u as char
    } else {
        let u: u8 = n + 87;
        u as char
    }
}

/// The UTF-8 bytes of a string.
pub open spec fn utf8_bytes(s: Seq<char>) -> Seq<u8> {
    vstd::utf8::encode_utf8(s)
}

/// Calls `Sha256::digest`. The documentation fixes the digest at 32 bytes;
/// the value is named.
#[verifier::external_body]
pub(crate) fn sha256_digest(data: &[u8]) -> (r: Vec<u8>)
    ensures
        r@ == sha256(data@),
        r@.len() == 32,
{
    Sha256::digest(data).to_vec()
}

/// Calls `Hmac::<Sha256>::new_from_slice`, `update` and `finalize`. HMAC
/// takes keys of any length, so the source never returns the error; the tag
/// is 32 bytes and named.
#[verifier::external_body]
pub(crate) fn hmac_sha256_tag(key: &[u8], message: &[u8]) -> (r: Option<Vec<u8>>)
    ensures
        r is Some,
        r matches Some(t) ==> t@ == hmac_sha256(key@, message@) && t@.len() == 32,
{
    let mut mac = match <Hmac<Sha256> as Mac>::new_from_slice(key) {
        Ok(mac) => mac,
        Err(_) => return None,
    };
    mac.update(message);
    Some(mac.finalize().into_bytes().to_vec())
}

/// Lower-case hex, two digits per byte (what `hex::encode` gives).
pub(crate) fn hex_encode(bytes: &[u8]) -> (r: String)
    ensures
        r@ == hex_of(bytes@),
        r@.len() == 2 * bytes@.len(),
{
    let mut digits: Vec<char> = Vec::new();
    let mut i: usize = 0;
    while i < bytes.len()
        invariant
            i <= bytes.len(),
            digits@ == hex_of(bytes@.take(i as int)),
            digits@.len() == 2 * i,
        decreases bytes.len() - i,
    {
        let b = bytes[i];
        proof {
            bytes@.lemma_flat_map_take_append(|b: u8| hex_pair(b), i as int);
        }
        digits.push(hex_digit_char(b / 16));
        digits.push(hex_digit_char(b % 16));
        assert(digits@ =~= hex_of(bytes@.take(i as int + 1)));
        i += 1;
    }
    assert(bytes@.take(bytes.len() as int) =~= bytes@);
    string_of(&digits)
}

/// Calls `URL_SAFE_NO_PAD.encode`.
#[verifier::external_body]
pub(crate) fn base64_url_encode(bytes: &[u8]) -> (r: String)
    ensures
        r@ == base64_url_no_pad(bytes@),
{
    URL_SAFE_NO_PAD.encode(bytes)
}

/// Fills 32 bytes from the operating system's random source (`OsRng`);
/// only the length is stated.
#[verifier::external_body]
pub(crate) fn random_bytes_32() -> (r: Vec<u8>)
    ensures
        r@.len() == 32,
{
    let mut bytes = [0_u8;32];
    OsRng.fill_bytes(&mut bytes);
    bytes.to_vec()
}

/// Hashes `password` with Argon2 default parameters and a random salt
/// (`SaltString::generate`, `hash_password`); `None` when hashing fails. The
/// salt is random, so the hash itself is not stated; the PHC string it
/// gives verifies the same password (`PasswordVerifier` recomputes the hash
/// with the salt and parameters the string records). Argon2 refuses only a
/// password over `0xFFFF_FFFF` bytes or a salt of the wrong length, and a
/// generated salt always has the right length.
#[verifier::external_body]
pub(crate) fn argon2_hash(password: &[u8]) -> (r: Option<String>)
    ensures
        r matches Some(h) ==> argon2_verifies(password@, h@),
        password@.len() <= 0xFFFF_FFFF ==> r is Some,
{
    let salt = SaltString::generate(&mut OsRng);
    match Argon2::default().hash_password(password, &salt) {
        Ok(hash) => Some(hash.to_string()),
        Err(_) => None,
    }
}

/// Parses `hash` as a PHC string (`PasswordHash::new`) and checks `password`
/// against it with Argon2; an unparsable hash does not match.
#[verifier::external_body]
pub(crate) fn argon2_check(password: &[u8], hash: &str) -> (r: bool)
    ensures
        r == argon2_verifies(password@, hash@),
{
    match PasswordHash::new(hash) {
        Ok(parsed) => Argon2::default().verify_password(password, &parsed).is_ok(),
        Err(_) => false,
    }
}

/// The UTF-8 bytes of `s`, as a vector.
pub fn bytes_of(s: &str) -> (r: Vec<u8>)
    ensures
        r@ == utf8_bytes(s@),
{
    let b = s.as_bytes();
    let mut r: Vec<u8> = Vec::new();
    let mut i: usize = 0;
    while i < b.len()
        invariant
            i <= b@.len(),
            b@ == utf8_bytes(s@),
            r@ == b@.take(i as int),
        decreases b@.len() - i,
    {
        r.push(b[i]);
        assert(b@.take(i as int).push(b@[i as int]) =~= b@.take(i as int + 1));
        i += 1;
    }
    assert(b@.take(b@.len() as int) =~= b@);
    r
}

/// Lower-case hex of the SHA-256 digest of the UTF-8 bytes of `token`: how
/// tokens are stored.
pub open spec fn token_hash(token: Seq<char>) -> Seq<char> {
    hex_of(sha256(utf8_bytes(token)))
}

pub fn hash_token_hex(token: &str) -> (r: String)
    ensures
        r@ == token_hash(token@),
{
    let digest = sha256_digest(token.as_bytes());
    hex_encode(digest.as_slice())
}

/// Compares two byte strings in time that depends only on their lengths.
pub fn constant_time_eq(left: &[u8], right: &[u8]) -> (r: bool)
    ensures
        r == (left@ == right@),
{
    if left.len() != right.len() {
        return false;
    }
    let mut acc: u8 = 0;
    let mut i: usize = 0;
    while i < left.len()
        invariant
            i <= left@.len(),
            left@.len() == right@.len(),
            (acc == 0) == (forall|k: int| 0 <= k < i ==> left@[k] == right@[k]),
        decreases left@.len() - i,
    {
        let l = left[i];
        let x = right[i];
        let old_acc = acc;
        acc = acc | (l ^ x);
        assert(((old_acc | (l ^ x)) == 0) == (old_acc == 0 && l == x)) by (bit_vector);
        proof {
            if acc == 0 {
                assert forall|k: int| 0 <= k < i + 1 implies left@[k] == right@[k] by {
                    if k < i {
                    }
                }
            }
        }
        i += 1;
    }
    if acc == 0 {
        assert(left@ =~= right@);
    }
    acc == 0
}

} // verus!
