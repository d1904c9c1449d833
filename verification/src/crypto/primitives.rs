//! The cryptographic primitives of the library, each a thin call into an
//! outside crate whose contract is taken as given:
//! SHA-256 (`sha2`), Ed25519 (`ed25519-dalek`), AES-256-GCM (`aes-gcm`)
//! and operating-system randomness (`rand`, `aes-gcm`'s `OsRng`).

use vstd::prelude::*;
use sha2::{Digest, Sha256};
use ed25519_dalek::{Signature, Signer, SigningKey, Verifier, VerifyingKey};
use aes_gcm::{Aes256Gcm, Key, Nonce};
use aes_gcm::aead::{Aead, KeyInit};
use aes_gcm::aead::rand_core::RngCore;

verus! {

/// The SHA-256 digest of a byte string.
pub uninterp spec fn sha256(data: Seq<u8>) -> [u8; 32];

/// The Ed25519 public key that belongs to a 32-byte secret key.
pub uninterp spec fn ed25519_public_key(secret: Seq<u8>) -> [u8; 32];

/// The (deterministic) Ed25519 signature of `message` under a 32-byte secret key.
pub uninterp spec fn ed25519_signature(secret: Seq<u8>, message: Seq<u8>) -> [u8; 64];

/// Whether 32 bytes decompress to a point of the curve, i.e. form a usable verifying key.
pub uninterp spec fn ed25519_key_decodes(key: Seq<u8>) -> bool;

/// Whether the verifying key `key` accepts `signature` on `message`.
pub uninterp spec fn ed25519_accepts(key: Seq<u8>, message: Seq<u8>, signature: Seq<u8>) -> bool;

/// The AES-256-GCM ciphertext (with its 16-byte tag appended) of `plaintext`.
pub uninterp spec fn aes256gcm_seal(key: Seq<u8>, nonce: Seq<u8>, plaintext: Seq<u8>) -> Seq<u8>;

/// AES-256-GCM decryption: the plaintext, or `None` when the tag does not authenticate.
pub uninterp spec fn aes256gcm_open(key: Seq<u8>, nonce: Seq<u8>, ciphertext: Seq<u8>) -> Option<
    Seq<u8>,
>;

/// The largest plaintext that AES-GCM encrypts (`aes_gcm::P_MAX`, 2^36 bytes).
pub open spec fn aes_gcm_plaintext_max() -> int {
    0x10_0000_0000
}

/// `sha2::Sha256::digest`: the digest of `data`, taken as the name `sha256` of it.
#[verifier::external_body]
pub(crate) fn sha256_digest(data: &[u8]) -> (r: [u8; 32])
    ensures
        r == sha256(data@),
{
    Sha256::digest(data).into()
}

/// `ed25519_dalek::SigningKey::verifying_key` for the key made from `secret`:
/// the public key as bytes. Claimed: it is `ed25519_public_key(secret)` and it
/// decodes as a verifying key (it is the compression of a curve point).
#[verifier::external_body]
pub(crate) fn public_key_of(secret: &[u8; 32]) -> (r: [u8; 32])
    ensures
        r == ed25519_public_key(secret@),
        ed25519_key_decodes(r@),
{
    SigningKey::from_bytes(secret).verifying_key().to_bytes()
}

/// `ed25519_dalek::SigningKey::sign` for the key made from `secret`: the
/// signature bytes. Claimed: they are `ed25519_signature(secret, message)`, and
/// the matching public key accepts them on `message` (Ed25519 correctness).
#[verifier::external_body]
pub(crate) fn sign_message(secret: &[u8; 32], message: &[u8]) -> (r: [u8; 64])
    ensures
        r == ed25519_signature(secret@, message@),
        ed25519_accepts(ed25519_public_key(secret@)@, message@, r@),
{
    SigningKey::from_bytes(secret).sign(message).to_bytes()
}

/// `ed25519_dalek::VerifyingKey::from_bytes`: whether the bytes decode to a key.
#[verifier::external_body]
pub(crate) fn key_decodes(key: &[u8; 32]) -> (r: bool)
    ensures
        r == ed25519_key_decodes(key@),
{
    VerifyingKey::from_bytes(key).is_ok()
}

/// `ed25519_dalek::VerifyingKey::verify` (the `Verifier` trait) on a key that
/// decodes: whether it accepts the signature on the message.
#[verifier::external_body]
pub(crate) fn verify_signature(key: &[u8; 32], message: &[u8], signature: &[u8; 64]) -> (r: bool)
    requires
        ed25519_key_decodes(key@),
    ensures
        r == ed25519_accepts(key@, message@, signature@),
{
    match VerifyingKey::from_bytes(key) {
        Ok(vk) => vk.verify(message, &Signature::from_bytes(signature)).is_ok(),
        Err(_) => false,
    }
}

/// `aes_gcm::Aes256Gcm::encrypt` (the `Aead` trait) with no associated data.
/// Claimed, as the crate's source shows: it fails exactly when the plaintext
/// is longer than `P_MAX`; the ciphertext is `aes256gcm_seal` of the inputs,
/// and decryption under the same key and nonce gives the plaintext back.
#[verifier::external_body]
pub(crate) fn aes_seal(key: &[u8; 32], nonce: &[u8; 12], plaintext: &[u8]) -> (r: Option<Vec<u8>>)
    ensures
        (r is Some) <==> plaintext@.len() <= aes_gcm_plaintext_max(),
        r matches Some(c) ==> c@ == aes256gcm_seal(key@, nonce@, plaintext@),
        r matches Some(c) ==> aes256gcm_open(key@, nonce@, c@) == Some(plaintext@),
{
    Aes256Gcm::new(Key::<Aes256Gcm>::from_slice(key)).encrypt(Nonce::from_slice(nonce), plaintext).ok()
}

/// `aes_gcm::Aes256Gcm::decrypt` (the `Aead` trait) with no associated data:
/// the plaintext, or `None` when authentication fails.
#[verifier::external_body]
pub(crate) fn aes_open(key: &[u8; 32], nonce: &[u8; 12], ciphertext: &[u8]) -> (r: Option<Vec<u8>>)
    ensures
        match r {
            Some(p) => aes256gcm_open(key@, nonce@, ciphertext@) == Some(p@),
            None => aes256gcm_open(key@, nonce@, ciphertext@) is None,
        },
{
    Aes256Gcm::new(Key::<Aes256Gcm>::from_slice(key)).decrypt(Nonce::from_slice(nonce), ciphertext).ok()
}

/// `rand::random::<u64>()`: a fresh random number; nothing is claimed of it.
#[verifier::external_body]
pub(crate) fn random_u64() -> u64 {
    rand::random::<u64>()
}

/// `aes_gcm::aead::OsRng::fill_bytes` on 12 bytes: a random nonce; nothing is claimed of it.
#[verifier::external_body]
pub(crate) fn random_nonce() -> [u8; 12] {
    let mut nonce = [0u8; 12];
    aes_gcm::aead::OsRng.fill_bytes(&mut nonce);
    nonce
}

/// `rand::rngs::OsRng::fill_bytes` on 32 bytes: a random secret key; nothing is claimed of it.
#[verifier::external_body]
pub(crate) fn random_secret() -> [u8; 32] {
    let mut secret = [0u8; 32];
    rand::rngs::OsRng.fill_bytes(&mut secret);
    secret
}

} // verus!
