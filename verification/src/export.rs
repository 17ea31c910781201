//! The export codec: saved projects as one encrypted file.
//!
//! ```text
//! offset size  content
//! 0      4     the magic bytes "TUSK"
//! 4      1     the version, 1
//! 5      32    a random salt
//! 37     12    a random nonce
//! 49     ...   the payload, sealed with AES-256-GCM
//! ```
//!
//! The key is derived from the password and the salt with Argon2id (64 MiB,
//! 3 passes, 4 lanes, 32 bytes). The payload is the JSON text of the
//! projects, which the caller writes and reads; this module seals and opens
//! the bytes.

use vstd::prelude::*;
use vstd::slice::slice_subrange;
use crate::error::{is_export_error, DbViewerError};
use crate::text::{decimal, has_prefix, int_to_decimal};
use crate::trusted::{
    aead_error_text, aes256_gcm_decrypt, aes256_gcm_encrypt, aes256_gcm_opened,
    aes256_gcm_sealed, aes_gcm_max_plaintext, argon2_accepts, argon2_error_text, argon2id,
    argon2id_hash, now_rfc3339, random_bytes,
};

verus! {

/// The version of the file layout.
pub const VERSION: u8 = 1;

/// The length of the salt, in bytes.
pub const SALT_LEN: usize = 32;

/// The length of the nonce, in bytes.
pub const NONCE_LEN: usize = 12;

/// The length of everything before the sealed payload, in bytes.
pub const HEADER_LEN: usize = 49;

/// The memory Argon2id works on, in KiB.
pub const KDF_MEMORY_KIB: u32 = 65536;

/// The number of passes of Argon2id.
pub const KDF_PASSES: u32 = 3;

/// The number of lanes of Argon2id.
pub const KDF_LANES: u32 = 4;

/// The length of the key, in bytes.
pub const KEY_LEN: usize = 32;

// ---------------------------------------------------------------------------
// Data
// ---------------------------------------------------------------------------

/// What an export file holds once it is opened.
#[derive(Debug)]
pub struct ExportPayload {
    pub version: u32,
    pub exported_at: String,
    pub projects: Vec<ExportedProject>,
}

/// One saved project, with its password in the clear.
#[derive(Debug)]
pub struct ExportedProject {
    pub name: String,
    pub color: String,
    pub host: String,
    pub port: u16,
    pub database: String,
    pub username: String,
    pub password: String,
    pub ssl: bool,
    pub instant_commit: bool,
    pub read_only: bool,
    pub last_connected: Option<String>,
    pub created_at: String,
}

impl ExportPayload {
    /// The payload for a list of projects: version 1, stamped with the
    /// present moment.
    pub fn new(projects: Vec<ExportedProject>) -> (r: ExportPayload)
        ensures
            r.version == 1,
            r.projects == projects,
    {
        ExportPayload { version: 1, exported_at: now_rfc3339(), projects }
    }
}

// ---------------------------------------------------------------------------
// The file, mathematically
// ---------------------------------------------------------------------------

/// The magic bytes, `TUSK`.
pub open spec fn magic() -> Seq<u8> {
    seq![0x54u8, 0x55u8, 0x53u8, 0x4Bu8]
}

/// The bytes of a file with the given salt, nonce and sealed payload.
pub open spec fn export_file(salt: Seq<u8>, nonce: Seq<u8>, sealed: Seq<u8>) -> Seq<u8> {
    magic() + seq![VERSION] + salt + nonce + sealed
}

/// The key for a password and a salt.
pub open spec fn export_key(password: Seq<char>, salt: Seq<u8>) -> Seq<u8> {
    argon2id(
        vstd::utf8::encode_utf8(password),
        salt,
        KDF_MEMORY_KIB,
        KDF_PASSES,
        KDF_LANES,
        KEY_LEN as nat,
    )
}

/// Why a file cannot be opened.
pub enum ExportFailure {
    /// The file is shorter than its header.
    TooShort,
    /// The file does not begin with the magic bytes.
    NotAnExport,
    /// The file has another version than 1.
    UnsupportedVersion(u8),
    /// No key can be derived from the password.
    KeyDerivation,
    /// The password is wrong, or the file was changed.
    Unauthentic,
}

/// What opening a file with a password gives: the payload, or the first
/// reason why not.
pub open spec fn opened(data: Seq<u8>, password: Seq<char>) -> Result<Seq<u8>, ExportFailure> {
    if data.len() < HEADER_LEN {
        Err(ExportFailure::TooShort)
    } else if data.subrange(0, 4) != magic() {
        Err(ExportFailure::NotAnExport)
    } else if data[4] != VERSION {
        Err(ExportFailure::UnsupportedVersion(data[4]))
    } else {
        let salt = data.subrange(5, 37);
        let nonce = data.subrange(37, 49);
        if !argon2_accepts(vstd::utf8::encode_utf8(password), salt) {
            Err(ExportFailure::KeyDerivation)
        } else {
            match aes256_gcm_opened(export_key(password, salt), nonce, data.skip(49)) {
                Some(payload) => Ok(payload),
                None => Err(ExportFailure::Unauthentic),
            }
        }
    }
}

/// The error that reports a failure.
pub open spec fn reports(e: DbViewerError, failure: ExportFailure) -> bool {
    match failure {
        ExportFailure::TooShort => is_export_error(e, "Invalid file: too short"@),
        ExportFailure::NotAnExport => is_export_error(e, "Not a valid Tusker export file"@),
        ExportFailure::UnsupportedVersion(v) => is_export_error(
            e,
            "Unsupported file version: "@ + decimal(v as int),
        ),
        ExportFailure::KeyDerivation => is_key_derivation_error(e),
        ExportFailure::Unauthentic => is_export_error(e, "Incorrect password or corrupted file"@),
    }
}

/// An export error whose message begins with `Key derivation failed: `.
pub open spec fn is_key_derivation_error(e: DbViewerError) -> bool {
    match e {
        DbViewerError::Export(m) => has_prefix(m@, "Key derivation failed: "@),
        _ => false,
    }
}

/// A file made of a salt of 32 bytes, a nonce of 12 and a sealed payload
/// opens to the payload that was sealed, where the password is one that a
/// key can be derived from and the seal opens under that key.
pub proof fn lemma_round_trip(
    salt: Seq<u8>,
    nonce: Seq<u8>,
    sealed: Seq<u8>,
    password: Seq<char>,
    payload: Seq<u8>,
)
    requires
        salt.len() == SALT_LEN,
        nonce.len() == NONCE_LEN,
        argon2_accepts(vstd::utf8::encode_utf8(password), salt),
        aes256_gcm_opened(export_key(password, salt), nonce, sealed) == Some(payload),
    ensures
        opened(export_file(salt, nonce, sealed), password) == Ok::<Seq<u8>, ExportFailure>(
            payload,
        ),
{
    let file = export_file(salt, nonce, sealed);
    assert(file.len() == 49 + sealed.len());
    assert(file.subrange(0, 4) =~= magic());
    assert(file[4] == VERSION);
    assert(file.subrange(5, 37) =~= salt);
    assert(file.subrange(37, 49) =~= nonce);
    assert(file.skip(49) =~= sealed);
}

/// A file that is too short, or does not begin with the magic bytes, is
/// refused whatever the password.
pub proof fn lemma_refused_before_password(data: Seq<u8>, password: Seq<char>)
    ensures
        data.len() < HEADER_LEN ==> opened(data, password) == Err::<Seq<u8>, ExportFailure>(
            ExportFailure::TooShort,
        ),
        data.len() >= HEADER_LEN && data.subrange(0, 4) != magic() ==> opened(data, password)
            == Err::<Seq<u8>, ExportFailure>(ExportFailure::NotAnExport),
{
}

/// Behind a sound header every failure is the same: a file of full length
/// that begins with the magic bytes and the version opens, under a password
/// that a key can be derived from, exactly where its seal opens under that
/// key; where it does not, the one report is that the password is wrong or
/// the file was changed, whichever of the two it was.
pub proof fn lemma_seal_failures_are_alike(data: Seq<u8>, password: Seq<char>)
    requires
        data.len() >= HEADER_LEN,
        data.subrange(0, 4) == magic(),
        data[4] == VERSION,
        vstd::utf8::encode_utf8(password).len() <= 0xFFFF_FFFF,
    ensures
        opened(data, password) is Ok <==> aes256_gcm_opened(
            export_key(password, data.subrange(5, 37)),
            data.subrange(37, 49),
            data.skip(49),
        ) is Some,
        opened(data, password) is Err ==> opened(data, password) == Err::<Seq<u8>, ExportFailure>(
            ExportFailure::Unauthentic,
        ),
{
}

/// A file opens under another password only where its seal opens under that
/// password's key: to open a file without its password is to forge a seal.
pub proof fn lemma_other_password_needs_forged_seal(
    salt: Seq<u8>,
    nonce: Seq<u8>,
    sealed: Seq<u8>,
    other: Seq<char>,
)
    requires
        salt.len() == SALT_LEN,
        nonce.len() == NONCE_LEN,
        aes256_gcm_opened(export_key(other, salt), nonce, sealed) is None,
    ensures
        opened(export_file(salt, nonce, sealed), other) is Err,
{
    let file = export_file(salt, nonce, sealed);
    assert(file.len() == 49 + sealed.len());
    assert(file.subrange(0, 4) =~= magic());
    assert(file[4] == VERSION);
    assert(file.subrange(5, 37) =~= salt);
    assert(file.subrange(37, 49) =~= nonce);
    assert(file.skip(49) =~= sealed);
}

// ---------------------------------------------------------------------------
// Sealing and opening
// ---------------------------------------------------------------------------

fn export_error(message: &str) -> (e: DbViewerError)
    ensures
        is_export_error(e, message@),
{
    DbViewerError::Export(message.to_owned())
}

/// Derives the key for a password and a salt with Argon2id. No key can be
/// derived where the salt is shorter than 8 bytes, or salt or password are
/// longer than 2^32 - 1 bytes.
pub fn derive_key(password: &str, salt: &[u8]) -> (r: Result<Vec<u8>, DbViewerError>)
    ensures
        match r {
            Ok(key) => argon2_accepts(vstd::utf8::encode_utf8(password@), salt@) && key@
                == export_key(password@, salt@) && key@.len() == KEY_LEN,
            Err(e) => !argon2_accepts(vstd::utf8::encode_utf8(password@), salt@)
                && is_key_derivation_error(e),
        },
{
    match argon2id_hash(password.as_bytes(), salt, KDF_MEMORY_KIB, KDF_PASSES, KDF_LANES, KEY_LEN) {
        Ok(key) => Ok(key),
        Err(e) => {
            let detail = argon2_error_text(&e);
            let mut message = "Key derivation failed: ".to_owned();
            message.append(detail.as_str());
            proof {
                let p = "Key derivation failed: "@;
                assert(message@.subrange(0, p.len() as int) =~= p);
            }
            Err(DbViewerError::Export(message))
        },
    }
}

/// Frames a sealed payload: magic bytes, version, salt, nonce, payload.
pub fn frame(salt: &[u8], nonce: &[u8], sealed: &[u8]) -> (r: Vec<u8>)
    ensures
        r@ == export_file(salt@, nonce@, sealed@),
{
    let mut out: Vec<u8> = Vec::new();
    out.push(0x54);
    out.push(0x55);
    out.push(0x53);
    out.push(0x4B);
    out.push(VERSION);
    assert(out@ =~= magic() + seq![VERSION]);
    push_bytes(&mut out, salt);
    push_bytes(&mut out, nonce);
    push_bytes(&mut out, sealed);
    out
}

fn push_bytes(out: &mut Vec<u8>, bytes: &[u8])
    ensures
        final(out)@ == old(out)@ + bytes@,
{
    let mut i: usize = 0;
    while i < bytes.len()
        invariant
            i <= bytes.len(),
            out@ == old(out)@ + bytes@.take(i as int),
        decreases bytes.len() - i,
    {
        out.push(bytes[i]);
        i += 1;
        assert(bytes@.take(i as int) == bytes@.take(i - 1).push(bytes@[i - 1]));
    }
    assert(bytes@.take(bytes.len() as int) == bytes@);
}

/// Seals a payload under a password and frames it as an export file, with a
/// fresh random salt and nonce.
///
/// This fails only where no key can be derived from the password (it is
/// longer than 2^32 - 1 bytes) or the payload is longer than 2^36 bytes. The
/// file that comes back opens, under the same password, to the payload.
pub fn encrypt_and_write(payload: &[u8], password: &str) -> (r: Result<Vec<u8>, DbViewerError>)
    ensures
        r is Ok <==> vstd::utf8::encode_utf8(password@).len() <= 0xFFFF_FFFF && payload@.len()
            <= aes_gcm_max_plaintext(),
        match r {
            Ok(file) => {
                &&& file@.len() == HEADER_LEN + payload@.len() + 16
                &&& file@.subrange(0, 4) == magic()
                &&& file@[4] == VERSION
                &&& file@.skip(49) == aes256_gcm_sealed(
                    export_key(password@, file@.subrange(5, 37)),
                    file@.subrange(37, 49),
                    payload@,
                )
                &&& opened(file@, password@) == Ok::<Seq<u8>, ExportFailure>(payload@)
            },
            Err(e) => if vstd::utf8::encode_utf8(password@).len() > 0xFFFF_FFFF {
                is_key_derivation_error(e)
            } else {
                is_export_error(e, "Encryption failed: aead::Error"@)
            },
        },
{
    let salt = random_bytes(SALT_LEN);
    let nonce = random_bytes(NONCE_LEN);
    let key = match derive_key(password, salt.as_slice()) {
        Ok(key) => key,
        Err(e) => {
            return Err(e);
        },
    };
    let sealed = match aes256_gcm_encrypt(key.as_slice(), nonce.as_slice(), payload) {
        Ok(sealed) => sealed,
        Err(e) => {
            let detail = aead_error_text(&e);
            let mut message = "Encryption failed: ".to_owned();
            message.append(detail.as_str());
            proof {
                reveal_strlit("Encryption failed: ");
                reveal_strlit("aead::Error");
                reveal_strlit("Encryption failed: aead::Error");
                assert(message@ =~= "Encryption failed: aead::Error"@);
            }
            return Err(DbViewerError::Export(message));
        },
    };
    let file = frame(salt.as_slice(), nonce.as_slice(), sealed.as_slice());
    proof {
        lemma_round_trip(salt@, nonce@, sealed@, password@, payload@);
        assert(file@.subrange(0, 4) =~= magic());
        assert(file@.subrange(5, 37) =~= salt@);
        assert(file@.subrange(37, 49) =~= nonce@);
        assert(file@.skip(49) =~= sealed@);
    }
    Ok(file)
}

/// Opens an export file with a password and gives the payload.
///
/// A file shorter than its header is refused as too short, one that does not
/// begin with the magic bytes as no export file, one of another version as
/// unsupported. Where the seal does not open, the password is wrong or the
/// file was changed: the two cannot be told apart.
pub fn read_and_decrypt(data: &[u8], password: &str) -> (r: Result<Vec<u8>, DbViewerError>)
    ensures
        match r {
            Ok(payload) => opened(data@, password@) == Ok::<Seq<u8>, ExportFailure>(payload@),
            Err(e) => opened(data@, password@) matches Err(failure) && reports(e, failure),
        },
{
    if data.len() < HEADER_LEN {
        return Err(export_error("Invalid file: too short"));
    }
    if data[0] != 0x54 || data[1] != 0x55 || data[2] != 0x53 || data[3] != 0x4B {
        proof {
            let head = data@.subrange(0, 4);
            assert(head[0] == data@[0] && head[1] == data@[1] && head[2] == data@[2] && head[3]
                == data@[3]);
        }
        return Err(export_error("Not a valid Tusker export file"));
    }
    assert(data@.subrange(0, 4) =~= magic());
    let version = data[4];
    if version != VERSION {
        let number = int_to_decimal(version as i128);
        let mut message = "Unsupported file version: ".to_owned();
        message.append(number.as_str());
        return Err(DbViewerError::Export(message));
    }
    let salt = slice_subrange(data, 5, 5 + SALT_LEN);
    let nonce = slice_subrange(data, 5 + SALT_LEN, HEADER_LEN);
    let sealed = slice_subrange(data, HEADER_LEN, data.len());
    assert(sealed@ =~= data@.skip(49));
    let key = match derive_key(password, salt) {
        Ok(key) => key,
        Err(e) => {
            return Err(e);
        },
    };
    match aes256_gcm_decrypt(key.as_slice(), nonce, sealed) {
        Ok(payload) => Ok(payload),
        Err(_) => Err(export_error("Incorrect password or corrupted file")),
    }
}

} // verus!
