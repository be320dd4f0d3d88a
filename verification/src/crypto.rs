//! The cryptographic primitives and encodings the library builds on.
//!
//! Each function calls one primitive of an outside crate.  What a primitive
//! computes has a name here, so that contracts can speak of it; beside the names
//! stand only the facts that reading gives back what was written.
use base64::Engine;
use chacha20poly1305::aead::Aead;
use chacha20poly1305::KeyInit;
use hmac::Mac;
use sha2::Digest;
use subtle::ConstantTimeEq;
use vstd::prelude::*;
use vstd::utf8::encode_utf8;

verus! {

/// The standard base64 text of a run of bytes.
pub uninterp spec fn base64_text(bytes: Seq<u8>) -> Seq<char>;

/// The bytes that the bytes of a base64 text denote, if it is one.
pub uninterp spec fn base64_decoded(text: Seq<u8>) -> Option<Seq<u8>>;

/// The standard base64 text of a run of bytes, without padding.
pub uninterp spec fn base64_unpadded(bytes: Seq<u8>) -> Seq<char>;

/// The SHA-256 digest of a run of bytes.
pub uninterp spec fn sha256_digest(bytes: Seq<u8>) -> Seq<u8>;

/// The HMAC-SHA1 of a message under a key.
pub uninterp spec fn hmac_sha1(key: Seq<u8>, message: Seq<u8>) -> Seq<u8>;

/// The key that Argon2id (version 0x13) derives from a password and a salt at the
/// given memory cost in KiB, number of passes and number of lanes.
pub uninterp spec fn argon2id_key(
    password: Seq<u8>,
    salt: Seq<u8>,
    memory: u32,
    passes: u32,
    lanes: u32,
) -> Seq<u8>;

/// The ChaCha20-Poly1305 ciphertext, tag included, of a message under a key and a
/// nonce, bound to associated data.
pub uninterp spec fn chacha_sealed(
    key: Seq<u8>,
    nonce: Seq<u8>,
    associated: Seq<u8>,
    message: Seq<u8>,
) -> Seq<u8>;

/// The message that a ChaCha20-Poly1305 ciphertext holds, if it is authentic.
pub uninterp spec fn chacha_opened(
    key: Seq<u8>,
    nonce: Seq<u8>,
    associated: Seq<u8>,
    ciphertext: Seq<u8>,
) -> Option<Seq<u8>>;

/// A character of the standard base64 alphabet.
pub open spec fn base64_char(c: char) -> bool {
    'A' <= c <= 'Z' || 'a' <= c <= 'z' || '0' <= c <= '9' || c == '+' || c == '/'
}

/// Encodes bytes as base64 text.
///
/// Calls `encode` of base64's `general_purpose::STANDARD` engine.  The text
/// consists of the alphabet and the padding character, is empty for no bytes
/// only, and decodes to the bytes.
#[verifier::external_body]
pub(crate) fn base64_encode(bytes: &[u8]) -> (r: String)
    ensures
        r@ == base64_text(bytes@),
        base64_decoded(encode_utf8(r@)) == Some(bytes@),
        forall|i: int| 0 <= i < r@.len() ==> base64_char(#[trigger] r@[i]) || r@[i] == '=',
        r@.len() == 0 <==> bytes@.len() == 0,
{
    base64::engine::general_purpose::STANDARD.encode(bytes)
}

/// Decodes base64 text.
///
/// Calls `decode` of base64's `general_purpose::STANDARD` engine, which reads the
/// bytes of the text and refuses what is not base64.
#[verifier::external_body]
pub(crate) fn base64_decode(text: &str) -> (r: Option<Vec<u8>>)
    ensures
        match base64_decoded(encode_utf8(text@)) {
            Some(bytes) => r is Some && r->0@ == bytes,
            None => r is None,
        },
{
    base64::engine::general_purpose::STANDARD.decode(text).ok()
}

/// Encodes bytes as base64 text without padding.
///
/// Calls `encode` of base64's `general_purpose::STANDARD_NO_PAD` engine; the text
/// consists of the alphabet alone.
#[verifier::external_body]
pub(crate) fn base64_encode_unpadded(bytes: &[u8]) -> (r: String)
    ensures
        r@ == base64_unpadded(bytes@),
        forall|i: int| 0 <= i < r@.len() ==> base64_char(#[trigger] r@[i]),
{
    base64::engine::general_purpose::STANDARD_NO_PAD.encode(bytes)
}

/// Computes a SHA-256 digest.
///
/// Calls `digest` of sha2's `Sha256`; a digest has 32 bytes.
#[verifier::external_body]
pub(crate) fn sha256(bytes: &[u8]) -> (r: Vec<u8>)
    ensures
        r@ == sha256_digest(bytes@),
        r@.len() == 32,
{
    sha2::Sha256::digest(bytes).to_vec()
}

/// Verifies an HMAC-SHA1 tag.
///
/// Calls hmac's `Hmac<Sha1>`: a key of any length is accepted, and
/// `verify_slice` holds for the whole tag of the message and nothing else.
#[verifier::external_body]
pub(crate) fn hmac_sha1_verify(key: &[u8], message: &[u8], tag: &[u8]) -> (r: bool)
    ensures
        r == (tag@ == hmac_sha1(key@, message@)),
{
    match <hmac::Hmac<sha1::Sha1> as Mac>::new_from_slice(key) {
        Ok(mac) => mac.chain_update(message).verify_slice(tag).is_ok(),
        Err(_) => false,
    }
}

/// Compares bytes without revealing where they differ.
///
/// Calls `ct_eq` of subtle's `ConstantTimeEq` for slices, which holds for slices
/// of the same length and content.
#[verifier::external_body]
pub(crate) fn same_secret(a: &[u8], b: &[u8]) -> (r: bool)
    ensures
        r == (a@ == b@),
{
    a.ct_eq(b).into()
}

/// Derives a key of 32 bytes from a password and a salt.
///
/// Calls `hash_password_into` of argon2's `Argon2` with Argon2id, version 0x13.
/// Within the documented bounds of the parameters and of the salt it fails only
/// for a password longer than a 32 bit length.
#[verifier::external_body]
pub(crate) fn argon2id(
    password: &[u8],
    salt: &[u8],
    memory: u32,
    passes: u32,
    lanes: u32,
) -> (r: Option<Vec<u8>>)
    requires
        1 <= lanes <= 0xFF_FFFF,
        8 * lanes <= memory,
        1 <= passes,
        8 <= salt@.len() <= 0xFFFF_FFFF,
    ensures
        r is Some <==> password@.len() <= 0xFFFF_FFFF,
        r is Some ==> r->0@ == argon2id_key(password@, salt@, memory, passes, lanes),
        r is Some ==> r->0@.len() == 32,
{
    let params = argon2::Params::new(memory, passes, lanes, Some(32)).ok()?;
    let hasher = argon2::Argon2::new(argon2::Algorithm::Argon2id, argon2::Version::V0x13, params);
    let mut key = vec![0u8; 32];
    hasher.hash_password_into(password, salt, &mut key).ok()?;
    Some(key)
}

/// The longest message that ChaCha20-Poly1305 takes: blocks of 64 bytes, as many
/// as its counter leaves behind the first.
pub const MAX_MESSAGE: u64 = 274_877_906_816;

/// Encrypts and authenticates a message.
///
/// Calls `encrypt` of chacha20poly1305's `ChaCha20Poly1305`, which succeeds for
/// every message that the counter has blocks for; the ciphertext is 16 bytes
/// longer than the message and opens to it.
#[verifier::external_body]
pub(crate) fn chacha_seal(key: &[u8], nonce: &[u8], associated: &[u8], message: &[u8]) -> (r: Vec<u8>)
    requires
        key@.len() == 32,
        nonce@.len() == 12,
        message@.len() <= MAX_MESSAGE,
    ensures
        r@ == chacha_sealed(key@, nonce@, associated@, message@),
        r@.len() == message@.len() + 16,
        chacha_opened(key@, nonce@, associated@, r@) == Some(message@),
{
    let cipher = chacha20poly1305::ChaCha20Poly1305::new(key.into());
    let payload = chacha20poly1305::aead::Payload { msg: message, aad: associated };
    cipher.encrypt(nonce.into(), payload).unwrap_or_default()
}

/// Decrypts a message after checking that it is authentic.
///
/// Calls `decrypt` of chacha20poly1305's `ChaCha20Poly1305`, which recomputes the
/// tag and refuses any other; what it accepts is the ciphertext of the message it
/// returns, 16 bytes longer than the message.
#[verifier::external_body]
pub(crate) fn chacha_open(
    key: &[u8],
    nonce: &[u8],
    associated: &[u8],
    ciphertext: &[u8],
) -> (r: Option<Vec<u8>>)
    requires
        key@.len() == 32,
        nonce@.len() == 12,
        ciphertext@.len() <= MAX_MESSAGE + 16,
    ensures
        match chacha_opened(key@, nonce@, associated@, ciphertext@) {
            Some(message) => r is Some && r->0@ == message,
            None => r is None,
        },
        r is Some ==> ciphertext@ == chacha_sealed(key@, nonce@, associated@, r->0@),
        r is Some ==> ciphertext@.len() == r->0@.len() + 16,
{
    let cipher = chacha20poly1305::ChaCha20Poly1305::new(key.into());
    let payload = chacha20poly1305::aead::Payload { msg: ciphertext, aad: associated };
    cipher.decrypt(nonce.into(), payload).ok()
}

} // verus!
