//! Sealing the store file with a key: the key is hashed with SHA-256 and the
//! digest keys orion's XChaCha20-Poly1305 AEAD.

use vstd::prelude::*;
use vstd::utf8::{decode_utf8, decode_utf8_encode_utf8, encode_utf8, encode_utf8_valid_utf8, valid_utf8};
pub use crate::handles::AeadKey;
use crate::handles::{aead_open, aead_seal, secret_key_from_slice};
use sha2::{Digest, Sha256};

verus! {

#[verifier::external_type_specification]
#[verifier::external_body]
pub struct ExSecretKey(orion::aead::SecretKey);

#[verifier::external_type_specification]
#[verifier::external_body]
pub struct ExUnknownCryptoError(orion::errors::UnknownCryptoError);

/// The longest plaintext that orion's AEAD seals, in bytes.
pub const MAX_PLAINTEXT_LEN: u64 = 274877906880;

/// The bytes that sealing adds: a 24-byte nonce before the ciphertext and a
/// 16-byte tag after it.
pub const SEAL_OVERHEAD: usize = 40;

/// The SHA-256 digest of `data`.
pub uninterp spec fn sha256(data: Seq<u8>) -> Seq<u8>;

/// What orion's `aead::open` gives back for the key bytes `key` and the sealed
/// bytes `sealed`: the plaintext, or `None` where it refuses them.
pub uninterp spec fn aead_open_result(key: Seq<u8>, sealed: Seq<u8>) -> Option<Seq<u8>>;

/// Calls `sha2::Sha256::digest`. Claimed: the result is `sha256` of the input
/// and is 32 bytes long.
#[verifier::external_body]
fn sha256_digest(data: &[u8]) -> (r: Vec<u8>)
    ensures
        r@ == sha256(data@),
        r@.len() == 32,
{
    Sha256::digest(data).to_vec()
}

/// Calls `std::str::from_utf8`. Claimed, as its documentation says: it
/// succeeds exactly when the bytes are the UTF-8 encoding of some text, and
/// then gives that text.
#[verifier::external_body]
fn utf8_text(bytes: &[u8]) -> (r: Option<&str>)
    ensures
        r is Some <==> exists|t: Seq<char>| encode_utf8(t) == bytes@,
        r matches Some(t) ==> encode_utf8(t@) == bytes@,
{
    std::str::from_utf8(bytes).ok()
}

impl AeadKey {
    /// A key made of `bytes`; refused for an empty slice.
    pub fn from_bytes(bytes: &[u8]) -> (r: Option<AeadKey>)
        ensures
            r is Some <==> (bytes@.len() > 0 && bytes@.len() <= isize::MAX),
            r matches Some(k) ==> k@ == bytes@,
    {
        match secret_key_from_slice(bytes) {
            Ok(k) => Some(k),
            Err(_) => None,
        }
    }
}

/// The AEAD key bytes derived from a user's key: the SHA-256 digest of its
/// UTF-8 encoding.
pub open spec fn derived_key(key: Seq<char>) -> Seq<u8> {
    sha256(encode_utf8(key))
}

/// Why decryption failed.
#[derive(Debug, Clone, Copy, PartialEq, Eq, Structural)]
pub enum CryptoError {
    /// The content is not sealed under this key (or not sealed at all).
    CannotOpen,
}

/// What decrypting `sealed` with `key` gives: the plaintext bytes, or `None`
/// where the AEAD refuses them.
pub open spec fn decryption(key: Seq<char>, sealed: Seq<u8>) -> Option<Seq<u8>> {
    aead_open_result(derived_key(key), sealed)
}

/// `sealed` is a possible result of sealing `plaintext` under `key`.
pub open spec fn sealed_under(key: Seq<char>, plaintext: Seq<u8>, sealed: Seq<u8>) -> bool {
    &&& sealed.len() == plaintext.len() + SEAL_OVERHEAD
    &&& aead_open_result(derived_key(key), sealed) == Some(plaintext)
}



/// The AEAD key for a user's key.
pub fn derive_key(key: &str) -> (r: AeadKey)
    ensures
        r@ == derived_key(key@),
        r@.len() == 32,
{
    let digest = sha256_digest(key.as_bytes());
    match AeadKey::from_bytes(digest.as_slice()) {
        Some(k) => k,
        None => vstd::pervasive::unreached(),
    }
}

/// Seals `content` under `key`. The content must be non-empty and within
/// orion's limit.
pub fn encrypt_content(key: &str, content: &[u8]) -> (r: Vec<u8>)
    requires
        0 < content@.len() <= MAX_PLAINTEXT_LEN,
    ensures
        sealed_under(key@, content@, r@),
{
    let k = derive_key(key);
    match aead_seal(&k, content) {
        Ok(c) => c,
        Err(_) => vstd::pervasive::unreached(),
    }
}

/// Whether the bytes are UTF-8 text.
pub fn is_utf8_text(bytes: &[u8]) -> (b: bool)
    ensures
        b == valid_utf8(bytes@),
{
    match utf8_text(bytes) {
        Some(t) => {
            proof {
                encode_utf8_valid_utf8(t@);
            }
            true
        },
        None => {
            proof {
                if valid_utf8(bytes@) {
                    decode_utf8_encode_utf8(bytes@);
                    assert(encode_utf8(decode_utf8(bytes@)) == bytes@);
                }
            }
            false
        },
    }
}

/// Opens `content` with `key`, giving the plaintext bytes.
pub fn decrypt_content(key: &str, content: &[u8]) -> (r: Result<Vec<u8>, CryptoError>)
    ensures
        match decryption(key@, content@) {
            Some(p) => r matches Ok(b) && b@ == p,
            None => r == Err::<Vec<u8>, CryptoError>(CryptoError::CannotOpen),
        },
        content@.len() <= SEAL_OVERHEAD ==> r == Err::<Vec<u8>, CryptoError>(CryptoError::CannotOpen),
{
    let k = derive_key(key);
    match aead_open(&k, content) {
        Ok(p) => Ok(p),
        Err(_) => Err(CryptoError::CannotOpen),
    }
}

/// Decrypting what was sealed under the same key gives back exactly the bytes
/// that were sealed.
pub proof fn lemma_decrypt_undoes_encrypt(key: Seq<char>, plaintext: Seq<u8>, sealed: Seq<u8>)
    requires
        sealed_under(key, plaintext, sealed),
    ensures
        decryption(key, sealed) == Some(plaintext),
{
}

} // verus!
