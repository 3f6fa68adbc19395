//! Values of outside crates that the library holds: a compiled regex, an
//! orion key and a reading of the system clock. Each is kept in a struct whose fields no other module can reach,
//! beside the text or bytes it was made from, and only the calls below, which
//! make it from exactly those, build one. So the view of a `Pattern` is the
//! text its regex was compiled from, and the view of an `AeadKey` the bytes its
//! orion key was made from.

use vstd::prelude::*;
use orion::aead::SecretKey;
use orion::errors::UnknownCryptoError;
use regex::Regex;
use crate::crypto::{aead_open_result, MAX_PLAINTEXT_LEN, SEAL_OVERHEAD};
use crate::pattern::{regex_compiles, regex_is_match};
use crate::store::Timestamp;

verus! {

/// A compiled tag pattern; its view is the text the regex was compiled from.
pub struct Pattern {
    re: Regex,
    source: Ghost<Seq<char>>,
}

impl View for Pattern {
    type V = Seq<char>;

    closed spec fn view(&self) -> Seq<char> {
        self.source@
    }
}

/// An AEAD key; its view is the bytes orion's key was made from.
pub struct AeadKey {
    key: SecretKey,
    bytes: Ghost<Seq<u8>>,
}

impl View for AeadKey {
    type V = Seq<u8>;

    closed spec fn view(&self) -> Seq<u8> {
        self.bytes@
    }
}

/// A reading of the system clock, as time since the UNIX epoch. Only
/// `system_now` makes one, so a value of this type is always what the clock
/// gave.
#[derive(Debug)]
pub struct ClockReading {
    at: Timestamp,
}

impl View for ClockReading {
    type V = Timestamp;

    closed spec fn view(&self) -> Timestamp {
        self.at
    }
}

impl ClockReading {
    /// The time that was read.
    pub fn time(&self) -> (t: Timestamp)
        ensures
            t == self@,
    {
        self.at
    }
}

/// Calls `std::time::SystemTime::now` and reads the result as seconds and
/// nanoseconds since the UNIX epoch; `None` when the clock is set before it.
/// Claimed: the nanoseconds are below one second. The time itself is left
/// unsaid.
#[verifier::external_body]
pub(crate) fn system_now() -> (r: Option<ClockReading>)
    ensures
        r matches Some(c) ==> c@.nanos < 1_000_000_000,
{
    match std::time::SystemTime::now().duration_since(std::time::UNIX_EPOCH) {
        Ok(d) => Some(ClockReading { at: Timestamp { secs: d.as_secs(), nanos: d.subsec_nanos() } }),
        Err(_) => None,
    }
}

/// Calls `regex::Regex::new` and keeps the regex with the text it was
/// compiled from. Claimed: the call succeeds exactly when `regex_compiles`
/// holds of the text; nothing is said of the error value.
#[verifier::external_body]
pub(crate) fn regex_new(pattern: &str) -> (r: Result<Pattern, regex::Error>)
    ensures
        r is Ok <==> regex_compiles(pattern@),
        r matches Ok(p) ==> p@ == pattern@,
{
    match Regex::new(pattern) {
        Ok(re) => Ok(Pattern { re, source: Ghost(pattern@) }),
        Err(e) => Err(e),
    }
}

/// Calls `regex::Regex::is_match` on the regex that `p` holds. Claimed: the
/// answer is `regex_is_match` of the text that `p` was compiled from and of the
/// haystack.
#[verifier::external_body]
pub(crate) fn regex_is_match_call(p: &Pattern, haystack: &str) -> (b: bool)
    ensures
        b == regex_is_match(p@, haystack@),
{
    p.re.is_match(haystack)
}

/// Calls `orion::aead::SecretKey::from_slice` and keeps the key with the bytes
/// it was made from. Claimed, as its source shows: it refuses exactly the
/// empty slice and slices longer than `isize::MAX`.
#[verifier::external_body]
pub(crate) fn secret_key_from_slice(bytes: &[u8]) -> (r: Result<AeadKey, UnknownCryptoError>)
    ensures
        r is Ok <==> (bytes@.len() > 0 && bytes@.len() <= isize::MAX),
        r matches Ok(k) ==> k@ == bytes@,
{
    match SecretKey::from_slice(bytes) {
        Ok(key) => Ok(AeadKey { key, bytes: Ghost(bytes@) }),
        Err(e) => Err(e),
    }
}

/// Calls `orion::aead::seal`, which draws a fresh random nonce. Claimed, as
/// the source shows: it refuses an empty plaintext and succeeds for a 32-byte
/// key and a plaintext of 1 to `MAX_PLAINTEXT_LEN` bytes; what it returns is
/// the plaintext's length plus 40 bytes, and `open` with the same key gives the
/// plaintext back. The nonce, and so the bytes, are left unsaid; the call
/// panics if the operating system gives no random bytes.
#[verifier::external_body]
pub(crate) fn aead_seal(key: &AeadKey, plaintext: &[u8]) -> (r: Result<Vec<u8>, UnknownCryptoError>)
    ensures
        plaintext@.len() == 0 ==> r is Err,
        key@.len() == 32 && 0 < plaintext@.len() <= MAX_PLAINTEXT_LEN ==> r is Ok,
        r matches Ok(c) ==> c@.len() == plaintext@.len() + SEAL_OVERHEAD && aead_open_result(
            key@,
            c@,
        ) == Some(plaintext@),
{
    orion::aead::seal(&key.key, plaintext)
}

/// Calls `orion::aead::open`. Claimed: it gives back `aead_open_result` of the
/// key and the sealed bytes, an error where that is `None`; and, as its source
/// shows, it refuses any input of at most 40 bytes.
#[verifier::external_body]
pub(crate) fn aead_open(key: &AeadKey, sealed: &[u8]) -> (r: Result<Vec<u8>, UnknownCryptoError>)
    ensures
        sealed@.len() <= SEAL_OVERHEAD ==> r is Err,
        match r {
            Ok(p) => aead_open_result(key@, sealed@) == Some(p@),
            Err(_) => aead_open_result(key@, sealed@) is None,
        },
{
    orion::aead::open(&key.key, sealed)
}

} // verus!
