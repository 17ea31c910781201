//! The calls this library makes into other crates, and into parts of the
//! standard library that have no verified contract.
//!
//! Nothing in this file is proved. Each item states what the called function
//! is believed to do; everything else in the crate is verified against these
//! statements.

use vstd::prelude::*;

verus! {

// ---------------------------------------------------------------------------
// SHA-256
// ---------------------------------------------------------------------------

/// The SHA-256 digest of a byte string.
pub uninterp spec fn sha256(data: Seq<u8>) -> Seq<u8>;

/// Calls `sha2::Sha256::digest`. Believed: the result is the SHA-256 digest of
/// `data`, a function of `data` alone, and 32 bytes long.
#[verifier::external_body]
pub(crate) fn sha256_digest(data: &[u8]) -> (r: Vec<u8>)
    ensures
        r@ == sha256(data@),
        r@.len() == 32,
{
    <sha2::Sha256 as sha2::Digest>::digest(data).to_vec()
}

// ---------------------------------------------------------------------------
// Hexadecimal text
// ---------------------------------------------------------------------------

/// The lower-case hexadecimal digit of `n`, for `0 <= n < 16`.
pub open spec fn hex_digit_lower(n: int) -> char {
    "0123456789abcdef"@[n]
}

/// Two lower-case hexadecimal digits per byte, high nibble first.
pub open spec fn hex_lower(bytes: Seq<u8>) -> Seq<char>
    decreases bytes.len(),
{
    if bytes.len() == 0 {
        Seq::empty()
    } else {
        hex_lower(bytes.drop_last()) + seq![
            hex_digit_lower(bytes.last() as int / 16),
            hex_digit_lower(bytes.last() as int % 16),
        ]
    }
}

/// Calls `hex::encode`. Believed: every byte becomes two lower-case
/// hexadecimal digits, high nibble first, in the order of the bytes.
#[verifier::external_body]
pub(crate) fn hex_encode(data: &[u8]) -> (r: String)
    ensures
        r@ == hex_lower(data@),
{
    hex::encode(data)
}

// ---------------------------------------------------------------------------
// Percent-encoding
// ---------------------------------------------------------------------------

/// The bytes that percent-encoding leaves as they are: ASCII letters and
/// digits, `-`, `.`, `_` and `~`.
pub open spec fn is_unreserved(b: u8) -> bool {
    (0x30 <= b <= 0x39) || (0x41 <= b <= 0x5A) || (0x61 <= b <= 0x7A) || b == 0x2D || b == 0x2E
        || b == 0x5F || b == 0x7E
}

/// The upper-case hexadecimal digit of `n`, for `0 <= n < 16`.
pub open spec fn hex_digit_upper(n: int) -> char {
    "0123456789ABCDEF"@[n]
}

/// One byte, percent-encoded.
pub open spec fn percent_encoded_byte(b: u8) -> Seq<char> {
    if is_unreserved(b) {
        seq![b as char]
    } else {
        seq!['%', hex_digit_upper(b as int / 16), hex_digit_upper(b as int % 16)]
    }
}

/// A byte string, percent-encoded byte by byte.
pub open spec fn percent_encoded(bytes: Seq<u8>) -> Seq<char>
    decreases bytes.len(),
{
    if bytes.len() == 0 {
        Seq::empty()
    } else {
        percent_encoded(bytes.drop_last()) + percent_encoded_byte(bytes.last())
    }
}

/// Calls `urlencoding::encode`. Believed: the UTF-8 bytes of `s` are encoded
/// one by one; an unreserved byte stays, any other becomes `%` and two
/// upper-case hexadecimal digits.
#[verifier::external_body]
pub(crate) fn percent_encode(s: &str) -> (r: String)
    ensures
        r@ == percent_encoded(vstd::utf8::encode_utf8(s@)),
{
    urlencoding::encode(s).into_owned()
}

// ---------------------------------------------------------------------------
// Argon2id
// ---------------------------------------------------------------------------

/// The Argon2id (version 0x13) hash of a password under a salt, for a memory
/// size in KiB, a number of passes, a number of lanes and an output length.
pub uninterp spec fn argon2id(
    password: Seq<u8>,
    salt: Seq<u8>,
    memory_kib: u32,
    passes: u32,
    lanes: u32,
    length: nat,
) -> Seq<u8>;

/// The passwords and salts that Argon2 accepts: a salt of 8 bytes or more,
/// and neither longer than 2^32 - 1 bytes.
pub open spec fn argon2_accepts(password: Seq<u8>, salt: Seq<u8>) -> bool {
    8 <= salt.len() <= 0xFFFF_FFFF && password.len() <= 0xFFFF_FFFF
}

/// The error of the `argon2` crate.
#[verifier::external_type_specification]
#[verifier::external_body]
pub struct ExArgon2Error(argon2::Error);

/// Calls `argon2::Argon2::hash_password_into` on a hasher made by
/// `argon2::Params::new` and `argon2::Argon2::new` for Argon2id, version 0x13.
/// Believed: with parameters in the ranges the crate accepts (the `requires`),
/// the call fails exactly when the salt is shorter than 8 bytes or the salt or
/// the password is longer than 2^32 - 1 bytes; otherwise the result is the
/// hash, a function of the arguments alone, of the length asked for.
#[verifier::external_body]
pub(crate) fn argon2id_hash(
    password: &[u8],
    salt: &[u8],
    memory_kib: u32,
    passes: u32,
    lanes: u32,
    length: usize,
) -> (r: Result<Vec<u8>, argon2::Error>)
    requires
        1 <= lanes <= 0xFF_FFFF,
        8 <= memory_kib,
        8 * lanes <= memory_kib,
        1 <= passes,
        4 <= length <= 0xFFFF_FFFF,
    ensures
        r is Ok <==> argon2_accepts(password@, salt@),
        r matches Ok(key) ==> {
            &&& key@ == argon2id(password@, salt@, memory_kib, passes, lanes, length as nat)
            &&& key@.len() == length
        },
{
    let params = argon2::Params::new(memory_kib, passes, lanes, Some(length))?;
    let hasher = argon2::Argon2::new(argon2::Algorithm::Argon2id, argon2::Version::V0x13, params);
    let mut key = vec![0u8; length];
    hasher.hash_password_into(password, salt, &mut key)?;
    Ok(key)
}

/// Calls `to_string` on an `argon2::Error`: the crate's message for it.
#[verifier::external_body]
pub(crate) fn argon2_error_text(e: &argon2::Error) -> (r: String) {
    e.to_string()
}

// ---------------------------------------------------------------------------
// AES-256-GCM
// ---------------------------------------------------------------------------

/// What AES-256-GCM makes of a plaintext under a key and a 96-bit nonce, with
/// no associated data: the ciphertext followed by the 16-byte tag.
pub uninterp spec fn aes256_gcm_sealed(key: Seq<u8>, nonce: Seq<u8>, plaintext: Seq<u8>) -> Seq<u8>;

/// What AES-256-GCM recovers from a sealed message under a key and a nonce:
/// the plaintext, or nothing where the tag does not fit.
pub uninterp spec fn aes256_gcm_opened(key: Seq<u8>, nonce: Seq<u8>, sealed: Seq<u8>) -> Option<
    Seq<u8>,
>;

/// The longest plaintext AES-GCM accepts, in bytes.
pub open spec fn aes_gcm_max_plaintext() -> int {
    0x10_0000_0000
}

/// The error of the `aes_gcm` crate, which carries no detail.
#[verifier::external_type_specification]
#[verifier::external_body]
pub struct ExAeadError(aes_gcm::Error);

/// Calls `Aead::encrypt` of `aes_gcm::Aes256Gcm`, for a key of 32 bytes and a
/// nonce of 12. Believed: it fails exactly for a plaintext longer than 2^36
/// bytes; otherwise the result is a function of key, nonce and plaintext, 16
/// bytes longer than the plaintext, and opening it under the same key and
/// nonce gives the plaintext back.
#[verifier::external_body]
pub(crate) fn aes256_gcm_encrypt(key: &[u8], nonce: &[u8], plaintext: &[u8]) -> (r: Result<
    Vec<u8>,
    aes_gcm::Error,
>)
    requires
        key@.len() == 32,
        nonce@.len() == 12,
    ensures
        r is Ok <==> plaintext@.len() <= aes_gcm_max_plaintext(),
        r matches Ok(sealed) ==> {
            &&& sealed@ == aes256_gcm_sealed(key@, nonce@, plaintext@)
            &&& sealed@.len() == plaintext@.len() + 16
            &&& aes256_gcm_opened(key@, nonce@, sealed@) == Some(plaintext@)
        },
{
    let cipher = <aes_gcm::Aes256Gcm as aes_gcm::KeyInit>::new(aes_gcm::Key::<aes_gcm::Aes256Gcm>::from_slice(key));
    aes_gcm::aead::Aead::encrypt(&cipher, aes_gcm::Nonce::from_slice(nonce), plaintext)
}

/// Calls `Aead::decrypt` of `aes_gcm::Aes256Gcm`, for a key of 32 bytes and a
/// nonce of 12. Believed: whether it succeeds, and with what, is a function
/// of key, nonce and sealed message.
#[verifier::external_body]
pub(crate) fn aes256_gcm_decrypt(key: &[u8], nonce: &[u8], sealed: &[u8]) -> (r: Result<
    Vec<u8>,
    aes_gcm::Error,
>)
    requires
        key@.len() == 32,
        nonce@.len() == 12,
    ensures
        match r {
            Ok(plaintext) => aes256_gcm_opened(key@, nonce@, sealed@) == Some(plaintext@),
            Err(_) => aes256_gcm_opened(key@, nonce@, sealed@) is None,
        },
{
    let cipher = <aes_gcm::Aes256Gcm as aes_gcm::KeyInit>::new(aes_gcm::Key::<aes_gcm::Aes256Gcm>::from_slice(key));
    aes_gcm::aead::Aead::decrypt(&cipher, aes_gcm::Nonce::from_slice(nonce), sealed)
}

/// Calls `to_string` on an `aes_gcm::Error`. Believed: the message is always
/// the same text.
#[verifier::external_body]
pub(crate) fn aead_error_text(e: &aes_gcm::Error) -> (r: String)
    ensures
        r@ == "aead::Error"@,
{
    e.to_string()
}

// ---------------------------------------------------------------------------
// Chance, time
// ---------------------------------------------------------------------------

/// Calls `rand::RngCore::fill_bytes` on `rand::thread_rng()`. Believed: the
/// result has the length asked for. The bytes are random: nothing else is
/// claimed of them. The generator panics where the operating system gives it
/// no seed.
#[verifier::external_body]
pub(crate) fn random_bytes(length: usize) -> (r: Vec<u8>)
    ensures
        r@.len() == length,
{
    let mut bytes = vec![0u8; length];
    rand::RngCore::fill_bytes(&mut rand::thread_rng(), &mut bytes);
    bytes
}

/// Calls `uuid::Uuid::new_v4` and formats the result: a fresh random
/// identifier. Believed: its text, the hyphenated form, is 36 characters
/// long. Nothing else is claimed of it.
#[verifier::external_body]
pub(crate) fn random_uuid() -> (r: String)
    ensures
        r@.len() == 36,
{
    uuid::Uuid::new_v4().to_string()
}

/// Calls `chrono::Utc::now` and `to_rfc3339`: the present moment as text.
/// Nothing is claimed of it.
#[verifier::external_body]
pub(crate) fn now_rfc3339() -> (r: String) {
    chrono::Utc::now().to_rfc3339()
}

// ---------------------------------------------------------------------------
// Letter case
// ---------------------------------------------------------------------------

/// The upper-case form of a text, as Unicode defines it.
pub uninterp spec fn uppercased(s: Seq<char>) -> Seq<char>;

/// Calls `str::to_uppercase`. Believed: the result is a function of the
/// characters of `s` alone.
#[verifier::external_body]
pub(crate) fn to_uppercase(s: &str) -> (r: String)
    ensures
        r@ == uppercased(s@),
{
    s.to_uppercase()
}

} // verus!
